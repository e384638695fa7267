//! Decisions of the remote walk: how each child listed under a remote folder
//! changes the version log and what must be done to the local tree.
use vstd::prelude::*;
use crate::paths::{joined, within, join_path, is_within, lemma_joined_within};
use crate::text::{same_text, same_opt_text};
use crate::types::{File, FileView, is_folder_view, is_trashed_view};
use crate::versions::{Version, VersionView, VersionsList, put, opt_view, clone_opt_string};
use crate::local::{record_step, record_of};

verus! {

/// What the local tree needs after one child was looked at.
pub enum ChildActionView {
    Nothing,
    RemoveLocal { path: Seq<char>, is_folder: bool },
    SyncFolder { id: Seq<char>, path: Seq<char>, rename_from: Option<Seq<char>> },
    SyncFile { id: Seq<char>, path: Seq<char>, download: bool, rename_from: Option<Seq<char>> },
}

/// What the local tree needs after one child was looked at.
#[derive(Debug)]
pub enum ChildAction {
    /// The child is unchanged, unknown and trashed, or without an id (or,
    /// when not trashed, without a name or a version).
    Nothing,
    /// Remove the file or folder at `path`.
    RemoveLocal { path: String, is_folder: bool },
    /// Move the folder from `rename_from` if given, create it at `path` if
    /// missing, then walk it as the remote folder `id`.
    SyncFolder { id: String, path: String, rename_from: Option<String> },
    /// Move the file from `rename_from` if given, then write the content of
    /// the remote file `id` to `path` if `download`.
    SyncFile { id: String, path: String, download: bool, rename_from: Option<String> },
}

impl View for ChildAction {
    type V = ChildActionView;

    open spec fn view(&self) -> ChildActionView {
        match self {
            ChildAction::Nothing => ChildActionView::Nothing,
            ChildAction::RemoveLocal { path, is_folder } => ChildActionView::RemoveLocal {
                path: path@,
                is_folder: *is_folder,
            },
            ChildAction::SyncFolder { id, path, rename_from } => ChildActionView::SyncFolder {
                id: id@,
                path: path@,
                rename_from: opt_view(*rename_from),
            },
            ChildAction::SyncFile { id, path, download, rename_from } => ChildActionView::SyncFile {
                id: id@,
                path: path@,
                download: *download,
                rename_from: opt_view(*rename_from),
            },
        }
    }
}

/// The record of `id` moved under `dir_path` where its parent folder was
/// renamed, so that paths follow their folder.
pub open spec fn path_followed(
    m: Map<Seq<char>, VersionView>,
    id: Seq<char>,
    dir_path: Seq<char>,
    name: Seq<char>,
) -> Map<Seq<char>, VersionView> {
    if m.contains_key(id) && !within(m[id].path, dir_path) {
        put(m, id, VersionView {
            is_folder: m[id].is_folder,
            parent_id: m[id].parent_id,
            version: m[id].version,
            path: joined(dir_path, name),
            md5: m[id].md5,
        })
    } else {
        m
    }
}

/// The log and the local action after looking at child `c` of the remote
/// folder `dir_id`, which lies locally at `dir_path`.
pub open spec fn child_step(
    m: Map<Seq<char>, VersionView>,
    dir_id: Seq<char>,
    dir_path: Seq<char>,
    c: FileView,
) -> (Map<Seq<char>, VersionView>, ChildActionView) {
    if c.id is None {
        (m, ChildActionView::Nothing)
    } else if c.name is None || c.version is None {
        let id = c.id->0;
        if is_trashed_view(c) {
            (
                m.remove(id),
                if m.contains_key(id) {
                    ChildActionView::RemoveLocal { path: m[id].path, is_folder: m[id].is_folder }
                } else {
                    ChildActionView::Nothing
                },
            )
        } else {
            (m, ChildActionView::Nothing)
        }
    } else {
        let id = c.id->0;
        let path = joined(dir_path, c.name->0);
        let m1 = path_followed(m, id, dir_path, c.name->0);
        if m.contains_key(id) && m[id].version == c.version->0 {
            (m1, ChildActionView::Nothing)
        } else if is_trashed_view(c) {
            (
                m1.remove(id),
                if m1.contains_key(id) {
                    ChildActionView::RemoveLocal { path: m1[id].path, is_folder: m1[id].is_folder }
                } else {
                    ChildActionView::Nothing
                },
            )
        } else {
            let folder = is_folder_view(c);
            let rename_from = if m1.contains_key(id) && m1[id].path != path {
                Some(m1[id].path)
            } else {
                None
            };
            let rec = VersionView {
                is_folder: folder,
                parent_id: dir_id,
                version: c.version->0,
                path: path,
                md5: if folder { None } else { c.md5 },
            };
            if folder {
                (put(m1, id, rec), ChildActionView::SyncFolder { id, path, rename_from })
            } else {
                let download = !m1.contains_key(id) || m1[id].md5 != c.md5;
                (put(m1, id, rec), ChildActionView::SyncFile { id, path, download, rename_from })
            }
        }
    }
}

/// The log after looking at the children `cs` in order.
pub open spec fn dir_steps(
    m: Map<Seq<char>, VersionView>,
    dir_id: Seq<char>,
    dir_path: Seq<char>,
    cs: Seq<FileView>,
) -> Map<Seq<char>, VersionView>
    decreases cs.len(),
{
    if cs.len() == 0 {
        m
    } else {
        child_step(dir_steps(m, dir_id, dir_path, cs.drop_last()), dir_id, dir_path, cs.last()).0
    }
}

pub open spec fn views_of(fs: Seq<File>) -> Seq<FileView> {
    fs.map_values(|f: File| f@)
}

/// The walk may skip the folder `id`: the log holds it at the version the
/// service reports now.
pub open spec fn folder_unchanged_spec(m: Map<Seq<char>, VersionView>, id: Seq<char>, fetched: FileView) -> bool {
    m.contains_key(id) && fetched.version == Some(m[id].version)
}

/// Whether the walk can skip the folder `id`, whose current record is
/// `fetched`: nothing below an unchanged folder version can have changed.
pub fn folder_unchanged(list: &VersionsList, id: &String, fetched: &File) -> (r: bool)
    requires
        list.wf(),
    ensures
        r == folder_unchanged_spec(list@, id@, fetched@),
{
    match (list.get(id), &fetched.version) {
        (Some(rec), Some(v)) => same_text(rec.version.as_str(), v.as_str()),
        _ => false,
    }
}

/// Looks at one child `c` of the remote folder `dir_id` (locally at
/// `dir_path`): updates the log and says what the local tree needs.
pub fn reconcile_child(list: &mut VersionsList, dir_id: &String, dir_path: &String, c: &File) -> (a: ChildAction)
    requires
        old(list).wf(),
    ensures
        final(list).wf(),
        (final(list)@, a@) == child_step(old(list)@, dir_id@, dir_path@, c@),
{
    let id = match &c.id {
        Some(i) => i,
        None => return ChildAction::Nothing,
    };
    let (name, ver) = match (&c.name, &c.version) {
        (Some(n), Some(v)) => (n, v),
        _ => {
            if c.is_trashed() {
                let known = list.get(id);
                list.remove(id);
                return match known {
                    Some(r) => ChildAction::RemoveLocal { path: r.path, is_folder: r.is_folder },
                    None => ChildAction::Nothing,
                };
            }
            return ChildAction::Nothing;
        }
    };
    let ghost m = list@;
    let path = join_path(dir_path.as_str(), name.as_str());
    let prior = list.get(id);
    if let Some(p) = &prior {
        if !is_within(p.path.as_str(), dir_path.as_str()) {
            let moved = Version {
                is_folder: p.is_folder,
                parent_id: p.parent_id.clone(),
                version: p.version.clone(),
                path: path.clone(),
                md5: clone_opt_string(&p.md5),
            };
            list.insert(id.clone(), moved);
        }
    }
    assert(list@ == path_followed(m, id@, dir_path@, name@));
    if let Some(p) = &prior {
        if same_text(p.version.as_str(), ver.as_str()) {
            return ChildAction::Nothing;
        }
    }
    let cur = list.get(id);
    if c.is_trashed() {
        list.remove(id);
        return match cur {
            Some(r) => ChildAction::RemoveLocal { path: r.path, is_folder: r.is_folder },
            None => ChildAction::Nothing,
        };
    }
    let folder = c.is_folder();
    let rename_from = match &cur {
        Some(r) => if same_text(r.path.as_str(), path.as_str()) {
            None
        } else {
            Some(r.path.clone())
        },
        None => None,
    };
    let download = match &cur {
        Some(r) => !same_opt_text(&r.md5, &c.md5),
        None => true,
    };
    let rec = Version {
        is_folder: folder,
        parent_id: dir_id.clone(),
        version: ver.clone(),
        path: path.clone(),
        md5: if folder { None } else { clone_opt_string(&c.md5) },
    };
    list.insert(id.clone(), rec);
    if folder {
        ChildAction::SyncFolder { id: id.clone(), path, rename_from }
    } else {
        ChildAction::SyncFile { id: id.clone(), path, download, rename_from }
    }
}

/// Looks at every child of the remote folder `dir_id` (locally at
/// `dir_path`) in order, and gives the local action for each.
pub fn reconcile_children(
    list: &mut VersionsList,
    dir_id: &String,
    dir_path: &String,
    children: &Vec<File>,
) -> (r: Vec<ChildAction>)
    requires
        old(list).wf(),
    ensures
        final(list).wf(),
        final(list)@ == dir_steps(old(list)@, dir_id@, dir_path@, views_of(children@)),
        r@.len() == children@.len(),
        forall|i: int| 0 <= i < children@.len() ==> #[trigger] r@[i]@ == child_step(
            dir_steps(old(list)@, dir_id@, dir_path@, views_of(children@).take(i)),
            dir_id@,
            dir_path@,
            children@[i]@,
        ).1,
{
    let ghost m0 = list@;
    let ghost cs = views_of(children@);
    let mut actions: Vec<ChildAction> = Vec::new();
    let mut i: usize = 0;
    assert(cs.take(0) =~= Seq::<FileView>::empty());
    while i < children.len()
        invariant
            list.wf(),
            0 <= i <= children@.len(),
            cs == views_of(children@),
            list@ == dir_steps(m0, dir_id@, dir_path@, cs.take(i as int)),
            actions@.len() == i,
            forall|j: int| 0 <= j < i ==> #[trigger] actions@[j]@ == child_step(
                dir_steps(m0, dir_id@, dir_path@, cs.take(j)),
                dir_id@,
                dir_path@,
                children@[j]@,
            ).1,
        decreases children@.len() - i,
    {
        let a = reconcile_child(list, dir_id, dir_path, &children[i]);
        proof {
            assert(cs.take(i + 1).drop_last() =~= cs.take(i as int));
            assert(cs.take(i + 1).last() == children@[i as int]@);
        }
        actions.push(a);
        i += 1;
    }
    assert(cs.take(children@.len() as int) =~= cs);
    actions
}

/// Looking at the same child twice in a row changes nothing the second
/// time: a walk over an unchanged remote leaves the log as it was.
pub proof fn lemma_child_step_idempotent(
    m: Map<Seq<char>, VersionView>,
    dir_id: Seq<char>,
    dir_path: Seq<char>,
    c: FileView,
)
    ensures
        child_step(child_step(m, dir_id, dir_path, c).0, dir_id, dir_path, c)
            == (child_step(m, dir_id, dir_path, c).0, ChildActionView::Nothing),
{
    if !(c.id is None || c.name is None || c.version is None) {
        let id = c.id->0;
        let name = c.name->0;
        let m1 = child_step(m, dir_id, dir_path, c).0;
        lemma_joined_within(dir_path, name);
        if m1.contains_key(id) {
            assert(within(m1[id].path, dir_path));
            assert(path_followed(m1, id, dir_path, name) == m1);
        } else {
            assert(path_followed(m1, id, dir_path, name) == m1);
            assert(m1.remove(id) =~= m1);
        }
    } else if c.id is Some && is_trashed_view(c) {
        let m1 = child_step(m, dir_id, dir_path, c).0;
        assert(m1.remove(c.id->0) =~= m1);
    }
}

/// A trashed child that the log knew at another version leaves the log, and
/// its local copy is removed.
pub proof fn lemma_trashed_child_dropped(
    m: Map<Seq<char>, VersionView>,
    dir_id: Seq<char>,
    dir_path: Seq<char>,
    c: FileView,
)
    requires
        c.id is Some,
        is_trashed_view(c),
        c.name is Some && c.version is Some && m.contains_key(c.id->0) ==> m[c.id->0].version != c.version->0,
    ensures
        !child_step(m, dir_id, dir_path, c).0.contains_key(c.id->0),
        m.contains_key(c.id->0) ==> child_step(m, dir_id, dir_path, c).1 is RemoveLocal,
{
}

/// The log already reflects child `c` of a folder at `dir_path`: it holds
/// `c` at its listed version somewhere below the folder, or `c` is trashed
/// and gone from the log.
pub open spec fn child_agrees(m: Map<Seq<char>, VersionView>, dir_path: Seq<char>, c: FileView) -> bool {
    c.id is None || if c.name is None || c.version is None {
        !is_trashed_view(c) || !m.contains_key(c.id->0)
    } else {
        let id = c.id->0;
        (m.contains_key(id) && m[id].version == c.version->0 && within(m[id].path, dir_path))
            || (is_trashed_view(c) && !m.contains_key(id))
    }
}

/// A walk over a listing that the log already reflects changes nothing and
/// asks nothing of the local tree.
pub proof fn lemma_unchanged_listing_is_noop(
    m: Map<Seq<char>, VersionView>,
    dir_id: Seq<char>,
    dir_path: Seq<char>,
    cs: Seq<FileView>,
)
    requires
        forall|i: int| 0 <= i < cs.len() ==> child_agrees(m, dir_path, #[trigger] cs[i]),
    ensures
        dir_steps(m, dir_id, dir_path, cs) == m,
        forall|i: int| 0 <= i < cs.len() ==> #[trigger] child_step(
            dir_steps(m, dir_id, dir_path, cs.take(i)),
            dir_id,
            dir_path,
            cs[i],
        ).1 == ChildActionView::Nothing,
    decreases cs.len(),
{
    if cs.len() > 0 {
        let pre = cs.drop_last();
        assert forall|i: int| 0 <= i < pre.len() implies child_agrees(m, dir_path, #[trigger] pre[i]) by {
            assert(pre[i] == cs[i]);
        }
        lemma_unchanged_listing_is_noop(m, dir_id, dir_path, pre);
        let c = cs.last();
        assert(child_agrees(m, dir_path, cs[cs.len() - 1]));
        if c.id is Some {
            let id = c.id->0;
            if !m.contains_key(id) {
                assert(m.remove(id) =~= m);
            }
        }
        assert forall|i: int| 0 <= i < cs.len() implies #[trigger] child_step(
            dir_steps(m, dir_id, dir_path, cs.take(i)),
            dir_id,
            dir_path,
            cs[i],
        ).1 == ChildActionView::Nothing by {
            if i < pre.len() {
                assert(cs.take(i) =~= pre.take(i));
                assert(pre[i] == cs[i]);
            } else {
                assert(cs.take(i) =~= pre);
            }
        }
    }
}

/// After a file was uploaded and its record kept, a walk that lists the
/// same object at the version the upload returned neither downloads it nor
/// changes its record.
pub proof fn lemma_uploaded_file_not_downloaded_again(
    m: Map<Seq<char>, VersionView>,
    prior_id: Option<Seq<char>>,
    new: FileView,
    dir_id: Seq<char>,
    dir_path: Seq<char>,
    name: Seq<char>,
    c: FileView,
)
    requires
        new.id is Some,
        new.version is Some,
        c.id == new.id,
        c.version == new.version,
        c.name == Some(name),
    ensures
        ({
            let m1 = record_step(m, prior_id, new, joined(dir_path, name), dir_id, false);
            child_step(m1, dir_id, dir_path, c) == (m1, ChildActionView::Nothing)
        }),
{
    let m1 = record_step(m, prior_id, new, joined(dir_path, name), dir_id, false);
    lemma_joined_within(dir_path, name);
    assert(m1[c.id->0] == record_of(new, joined(dir_path, name), dir_id, false));
}

/// `c` names an object with an id, a name and a version.
pub open spec fn complete(c: FileView) -> bool {
    c.id is Some && c.name is Some && c.version is Some
}

/// The log holds complete child `c` at its listed version and at its place
/// below the folder, or `c` is trashed and gone; a child that lacks a name
/// or a version is gone if trashed.
pub open spec fn child_settled(m: Map<Seq<char>, VersionView>, dir_path: Seq<char>, c: FileView) -> bool {
    c.id is None || if !complete(c) {
        !is_trashed_view(c) || !m.contains_key(c.id->0)
    } else {
        (m.contains_key(c.id->0) && m[c.id->0].version == c.version->0
            && m[c.id->0].path == joined(dir_path, c.name->0))
            || (is_trashed_view(c) && !m.contains_key(c.id->0))
    }
}

/// No two listed children share an id, and no two complete ones a name.
pub open spec fn listing_distinct(cs: Seq<FileView>) -> bool {
    forall|i: int, j: int|
        #![trigger cs[i], cs[j]]
        0 <= i < cs.len() && 0 <= j < cs.len() && i != j ==> (cs[i].id is Some && cs[j].id is Some
            ==> cs[i].id != cs[j].id) && (complete(cs[i]) && complete(cs[j]) ==> cs[i].name != cs[j].name)
}

/// Where the log places a listed child below the folder, it places it under
/// its listed name.
pub open spec fn places_follow_names(m: Map<Seq<char>, VersionView>, dir_path: Seq<char>, cs: Seq<FileView>) -> bool {
    forall|i: int|
        0 <= i < cs.len() && complete(#[trigger] cs[i]) && m.contains_key(cs[i].id->0)
            && within(m[cs[i].id->0].path, dir_path) ==> m[cs[i].id->0].path == joined(dir_path, cs[i].name->0)
}

proof fn lemma_put_other(m: Map<Seq<char>, VersionView>, id: Seq<char>, v: VersionView, k: Seq<char>)
    requires
        k != id,
    ensures
        put(m, id, v).contains_key(k) == (m.contains_key(k) && m[k].path != v.path),
        put(m, id, v).contains_key(k) ==> put(m, id, v)[k] == m[k],
{
}

proof fn lemma_joined_injective(d: Seq<char>, a: Seq<char>, b: Seq<char>)
    requires
        joined(d, a) == joined(d, b),
    ensures
        a == b,
{
    let n = if d.len() > 0 && d.last() == '/' { d.len() as int } else { d.len() as int + 1 };
    assert(joined(d, a).subrange(n, joined(d, a).len() as int) =~= a);
    assert(joined(d, b).subrange(n, joined(d, b).len() as int) =~= b);
}

/// Records of other ids that no step for child `c` can touch stay as they
/// were.
proof fn lemma_step_keeps_other(
    m: Map<Seq<char>, VersionView>,
    dir_id: Seq<char>,
    dir_path: Seq<char>,
    c: FileView,
    k: Seq<char>,
)
    requires
        c.id is Some,
        k != c.id->0,
        complete(c) && m.contains_key(k) ==> m[k].path != joined(dir_path, c.name->0),
    ensures
        child_step(m, dir_id, dir_path, c).0.contains_key(k) == m.contains_key(k),
        m.contains_key(k) ==> child_step(m, dir_id, dir_path, c).0[k] == m[k],
{
    if !complete(c) {
        return;
    }
    let id = c.id->0;
    let path = joined(dir_path, c.name->0);
    let m1 = path_followed(m, id, dir_path, c.name->0);
    if m.contains_key(id) && !within(m[id].path, dir_path) {
        lemma_put_other(m, id, VersionView {
            is_folder: m[id].is_folder,
            parent_id: m[id].parent_id,
            version: m[id].version,
            path: path,
            md5: m[id].md5,
        }, k);
    }
    if !(m.contains_key(id) && m[id].version == c.version->0) && !is_trashed_view(c) {
        let folder = is_folder_view(c);
        let rec = VersionView {
            is_folder: folder,
            parent_id: dir_id,
            version: c.version->0,
            path: path,
            md5: if folder { None } else { c.md5 },
        };
        lemma_put_other(m1, id, rec, k);
    }
}

proof fn lemma_pass_settles_prefix(
    m: Map<Seq<char>, VersionView>,
    dir_id: Seq<char>,
    dir_path: Seq<char>,
    cs: Seq<FileView>,
    n: int,
)
    requires
        0 <= n <= cs.len(),
        listing_distinct(cs),
        places_follow_names(m, dir_path, cs),
    ensures
        forall|i: int| 0 <= i < n ==> child_settled(dir_steps(m, dir_id, dir_path, cs.take(n)), dir_path, #[trigger] cs[i]),
        forall|i: int| n <= i < cs.len() && complete(#[trigger] cs[i]) ==> {
            let mn = dir_steps(m, dir_id, dir_path, cs.take(n));
            &&& mn.contains_key(cs[i].id->0) == m.contains_key(cs[i].id->0)
            &&& m.contains_key(cs[i].id->0) ==> mn[cs[i].id->0] == m[cs[i].id->0]
        },
    decreases n,
{
    if n == 0 {
        assert(cs.take(0) =~= Seq::<FileView>::empty());
    } else {
        let k = n - 1;
        lemma_pass_settles_prefix(m, dir_id, dir_path, cs, k);
        assert(cs.take(n).drop_last() =~= cs.take(k));
        assert(cs.take(n).last() == cs[k]);
        let mk = dir_steps(m, dir_id, dir_path, cs.take(k));
        let mn = dir_steps(m, dir_id, dir_path, cs.take(n));
        let c = cs[k];
        assert(mn == child_step(mk, dir_id, dir_path, c).0);
        if c.id is Some {
            let id = c.id->0;
            if complete(c) {
                lemma_joined_within(dir_path, c.name->0);
                // the child's record is still the one of the log before the walk
                if mk.contains_key(id) {
                    assert(mk[id] == m[id]);
                }
            }
            // children seen before stay settled
            assert forall|i: int| 0 <= i < k implies child_settled(mn, dir_path, #[trigger] cs[i]) by {
                assert(child_settled(mk, dir_path, cs[i]));
                if cs[i].id is Some {
                    assert(cs[i].id != cs[k].id);
                    let ki = cs[i].id->0;
                    if complete(cs[i]) {
                        if complete(c) {
                            assert(cs[i].name != cs[k].name);
                            if mk.contains_key(ki) && mk[ki].path == joined(dir_path, cs[i].name->0)
                                && mk[ki].path == joined(dir_path, c.name->0) {
                                lemma_joined_injective(dir_path, cs[i].name->0, c.name->0);
                            }
                        }
                        lemma_step_keeps_other(mk, dir_id, dir_path, c, ki);
                    } else if is_trashed_view(cs[i]) {
                        lemma_step_keeps_other(mk, dir_id, dir_path, c, ki);
                    }
                }
            }
            // children not seen yet keep their records
            assert forall|i: int| n <= i < cs.len() && complete(#[trigger] cs[i]) implies
                mn.contains_key(cs[i].id->0) == m.contains_key(cs[i].id->0)
                && (m.contains_key(cs[i].id->0) ==> mn[cs[i].id->0] == m[cs[i].id->0]) by {
                assert(cs[i].id != cs[k].id);
                let ki = cs[i].id->0;
                if complete(c) {
                    assert(cs[i].name != cs[k].name);
                    if m.contains_key(ki) && m[ki].path == joined(dir_path, c.name->0) {
                        assert(within(m[ki].path, dir_path));
                        lemma_joined_injective(dir_path, cs[i].name->0, c.name->0);
                    }
                }
                lemma_step_keeps_other(mk, dir_id, dir_path, c, ki);
            }
            assert(child_settled(mn, dir_path, c));
        } else {
            assert forall|i: int| 0 <= i < k implies child_settled(mn, dir_path, #[trigger] cs[i]) by {
                assert(child_settled(mk, dir_path, cs[i]));
            }
        }
    }
}

/// One walk over a listing whose children have distinct ids and names, from
/// a log that places them under their listed names, leaves a log on which a
/// second walk over the same listing changes nothing and does nothing.
pub proof fn lemma_walk_twice_same_as_once(
    m: Map<Seq<char>, VersionView>,
    dir_id: Seq<char>,
    dir_path: Seq<char>,
    cs: Seq<FileView>,
)
    requires
        listing_distinct(cs),
        places_follow_names(m, dir_path, cs),
    ensures
        dir_steps(dir_steps(m, dir_id, dir_path, cs), dir_id, dir_path, cs) == dir_steps(m, dir_id, dir_path, cs),
        forall|i: int| 0 <= i < cs.len() ==> #[trigger] child_step(
            dir_steps(dir_steps(m, dir_id, dir_path, cs), dir_id, dir_path, cs.take(i)),
            dir_id,
            dir_path,
            cs[i],
        ).1 == ChildActionView::Nothing,
{
    lemma_pass_settles_prefix(m, dir_id, dir_path, cs, cs.len() as int);
    assert(cs.take(cs.len() as int) =~= cs);
    let once = dir_steps(m, dir_id, dir_path, cs);
    assert forall|i: int| 0 <= i < cs.len() implies child_agrees(once, dir_path, #[trigger] cs[i]) by {
        assert(child_settled(once, dir_path, cs[i]));
        if complete(cs[i]) {
            lemma_joined_within(dir_path, cs[i].name->0);
        }
    }
    lemma_unchanged_listing_is_noop(once, dir_id, dir_path, cs);
}

/// The record a walk keeps for a child that it syncs lies at exactly the
/// path the local action writes, inside the folder being walked.
pub proof fn lemma_record_at_action_path(
    m: Map<Seq<char>, VersionView>,
    dir_id: Seq<char>,
    dir_path: Seq<char>,
    c: FileView,
)
    ensures
        ({
            let (m1, a) = child_step(m, dir_id, dir_path, c);
            match a {
                ChildActionView::SyncFolder { id, path, .. } => m1.contains_key(id) && m1[id].path == path
                    && m1[id].is_folder && m1[id].md5 is None && within(path, dir_path),
                ChildActionView::SyncFile { id, path, .. } => m1.contains_key(id) && m1[id].path == path
                    && !m1[id].is_folder && m1[id].md5 == c.md5 && within(path, dir_path),
                _ => true,
            }
        }),
{
    if complete(c) {
        lemma_joined_within(dir_path, c.name->0);
    }
}

} // verus!
