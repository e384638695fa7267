//! Decisions of the local side: which local changes are uploaded, under
//! which name and parent, when a local file must first be set aside as a
//! timestamped copy, and how the version log follows.
use vstd::prelude::*;
use crate::paths::{base_name, copy_path, file_name, has_prefix, starts_with_text, timestamped_copy_name};
use crate::text::same_text;
use crate::types::{File, FileView, is_trashed_view};
use crate::versions::{Version, VersionView, VersionsList, id_at_path, opt_view, put, clone_opt_string};

verus! {

/// The lower-case hex MD5 digest of some bytes.
pub uninterp spec fn md5_hex_of(b: Seq<u8>) -> Seq<char>;

/// Relies on `md5::compute` and the digest's `LowerHex` format: two hex
/// digits for each of the 16 digest bytes, a function of the bytes alone.
#[verifier::external_body]
fn md5_hex(b: &Vec<u8>) -> (r: String)
    ensures
        r@ == md5_hex_of(b@),
        r@.len() == 32,
{
    format!("{:x}", md5::compute(b))
}

/// `t` has the form `[DD.MM.YY HH:MM:SS] `: two decimal digits for each
/// field.
pub open spec fn is_time_tag(t: Seq<char>) -> bool {
    &&& t.len() == 20
    &&& t[0] == '[' && t[3] == '.' && t[6] == '.' && t[9] == ' '
    &&& t[12] == ':' && t[15] == ':' && t[18] == ']' && t[19] == ' '
    &&& forall|i: int|
        #![trigger t[i]]
        0 <= i < 20 && i != 0 && i != 3 && i != 6 && i != 9 && i != 12 && i != 15 && i != 18 && i != 19
            ==> '0' <= t[i] <= '9'
}

/// Relies on `chrono::Local::now` formatted as `[%d.%m.%y %H:%M:%S] `:
/// every field is a number zero-padded to two decimal digits.
#[verifier::external_body]
fn local_time_tag() -> (r: String)
    ensures
        is_time_tag(r@),
{
    chrono::Local::now().format("[%d.%m.%y %H:%M:%S] ").to_string()
}

/// The content hash of `bytes`, as the drive service reports it.
pub fn content_hash(bytes: &Vec<u8>) -> (r: String)
    ensures
        r@ == md5_hex_of(bytes@),
        r@.len() == 32,
{
    md5_hex(bytes)
}

/// The path under which a local file or folder at `p` is set aside, tagged
/// with the local time now.
pub fn copy_path_now(p: &String) -> (r: Option<String>)
    ensures
        r is None <==> base_name(p@) is None,
        r matches Some(c) ==> exists|tag: Seq<char>| is_time_tag(tag) && copy_path(p@, tag) == Some(c@),
{
    let tag = local_time_tag();
    timestamped_copy_name(p.as_str(), tag.as_str())
}

pub open spec fn md5_or_empty(v: VersionView) -> Seq<char> {
    match v.md5 {
        Some(h) => h,
        None => Seq::empty(),
    }
}

/// The log already records the bytes hashing to `hash` at `p`: a write event
/// there is the echo of a download, or a repeated notice.
pub open spec fn upload_suppressed(m: Map<Seq<char>, VersionView>, p: Seq<char>, hash: Seq<char>) -> bool {
    match id_at_path(m, p) {
        Some(k) => md5_or_empty(m[k]) == hash,
        None => false,
    }
}

/// The remote parent of what lies in the local folder `parent`: the folder's
/// id where the log knows it, else the remote root.
pub open spec fn parent_id_of(m: Map<Seq<char>, VersionView>, parent: Seq<char>, root_id: Seq<char>) -> Seq<char> {
    match id_at_path(m, parent) {
        Some(k) => k,
        None => root_id,
    }
}

/// The remote parent id for what lies in the local folder `parent`.
pub fn resolve_parent_id(list: &VersionsList, parent: &String, root_id: &String) -> (r: String)
    requires
        list.wf(),
    ensures
        r@ == parent_id_of(list@, parent@, root_id@),
{
    match VersionsList::find_by_path(parent, list) {
        Some(item) => item.0,
        None => root_id.clone(),
    }
}

pub enum UploadPlanView {
    Skip,
    NoName,
    Upload { name: Seq<char>, parent_id: Seq<char>, prior_id: Option<Seq<char>> },
}

/// What to do with a local file whose content was read.
#[derive(Debug)]
pub enum UploadPlan {
    /// The log already records this content at this path.
    Skip,
    /// The path has no usable last component.
    NoName,
    /// Look the name up under the parent, then upload; `prior_id` is the
    /// object the log keeps at this path, which is updated in place.
    Upload { name: String, parent_id: String, prior_id: Option<String> },
}

impl View for UploadPlan {
    type V = UploadPlanView;

    open spec fn view(&self) -> UploadPlanView {
        match self {
            UploadPlan::Skip => UploadPlanView::Skip,
            UploadPlan::NoName => UploadPlanView::NoName,
            UploadPlan::Upload { name, parent_id, prior_id } => UploadPlanView::Upload {
                name: name@,
                parent_id: parent_id@,
                prior_id: opt_view(*prior_id),
            },
        }
    }
}

pub open spec fn upload_plan_spec(
    m: Map<Seq<char>, VersionView>,
    p: Seq<char>,
    parent: Seq<char>,
    root_id: Seq<char>,
    hash: Seq<char>,
) -> UploadPlanView {
    if upload_suppressed(m, p, hash) {
        UploadPlanView::Skip
    } else {
        match base_name(p) {
            None => UploadPlanView::NoName,
            Some(n) => UploadPlanView::Upload {
                name: n,
                parent_id: parent_id_of(m, parent, root_id),
                prior_id: id_at_path(m, p),
            },
        }
    }
}

/// Plans the upload of the file at `p` (in the local folder `parent`) whose
/// bytes hash to `hash`.
pub fn plan_file_upload_hashed(
    list: &VersionsList,
    p: &String,
    parent: &String,
    root_id: &String,
    hash: &String,
) -> (r: UploadPlan)
    requires
        list.wf(),
    ensures
        r@ == upload_plan_spec(list@, p@, parent@, root_id@, hash@),
{
    let prior = VersionsList::find_by_path(p, list);
    if let Some(item) = &prior {
        let stored = match &item.1.md5 {
            Some(h) => same_text(h.as_str(), hash.as_str()),
            None => hash.as_str().unicode_len() == 0,
        };
        if stored {
            proof {
                if item.1.md5 is None {
                    assert(md5_or_empty(item.1@) =~= hash@);
                }
            }
            return UploadPlan::Skip;
        }
    }
    proof {
        if let Some(item) = &prior {
            if item.1.md5 is None {
                assert(md5_or_empty(item.1@) =~= Seq::<char>::empty());
            }
        }
    }
    let name = match file_name(p.as_str()) {
        Some(n) => n,
        None => return UploadPlan::NoName,
    };
    let parent_id = resolve_parent_id(list, parent, root_id);
    let prior_id = match prior {
        Some(item) => Some(item.0),
        None => None,
    };
    UploadPlan::Upload { name, parent_id, prior_id }
}

/// Plans the upload of the file at `p` (in the local folder `parent`) with
/// content `bytes`; also gives the content hash.
pub fn plan_file_upload(
    list: &VersionsList,
    p: &String,
    parent: &String,
    root_id: &String,
    bytes: &Vec<u8>,
) -> (r: (UploadPlan, String))
    requires
        list.wf(),
    ensures
        r.1@ == md5_hex_of(bytes@),
        r.0@ == upload_plan_spec(list@, p@, parent@, root_id@, md5_hex_of(bytes@)),
{
    let hash = content_hash(bytes);
    let plan = plan_file_upload_hashed(list, p, parent, root_id, &hash);
    (plan, hash)
}

/// How a local file relates to a remote object of the same name under the
/// same parent.
#[derive(Debug, PartialEq, Eq, Structural)]
pub enum Collision {
    /// No live remote object stands in the way: upload as planned.
    Proceed,
    /// The remote already holds these bytes under this name: nothing to do.
    AlreadyPresent,
    /// A live remote object of this name with other content, or with no
    /// content hash: set the local file aside as a timestamped copy and
    /// upload that.
    CopyFirst,
}

pub open spec fn file_collision_spec(
    remote: Option<FileView>,
    hash: Seq<char>,
    prior_id: Option<Seq<char>>,
) -> Collision {
    match remote {
        Some(r) => if is_trashed_view(r) || (prior_id is Some && r.id == prior_id) {
            Collision::Proceed
        } else if r.md5 == Some(hash) {
            Collision::AlreadyPresent
        } else {
            Collision::CopyFirst
        },
        None => Collision::Proceed,
    }
}

/// Applies the collision rule to a local file with content hash `hash`,
/// known in the log as `prior_id`, against `remote`, the remote object of
/// the same name under the same parent.
pub fn file_collision(remote: &Option<File>, hash: &String, prior_id: &Option<String>) -> (r: Collision)
    ensures
        r == file_collision_spec(opt_file_view(*remote), hash@, opt_view(*prior_id)),
{
    match remote {
        Some(f) => {
            if f.is_trashed() {
                return Collision::Proceed;
            }
            let same_object = match (prior_id, &f.id) {
                (Some(p), Some(i)) => same_text(p.as_str(), i.as_str()),
                _ => false,
            };
            proof {
                if prior_id is Some && f@.id == opt_view(*prior_id) {
                    assert(f.id is Some);
                }
            }
            if same_object {
                return Collision::Proceed;
            }
            match &f.md5 {
                Some(h) => if same_text(h.as_str(), hash.as_str()) {
                    Collision::AlreadyPresent
                } else {
                    Collision::CopyFirst
                },
                None => Collision::CopyFirst,
            }
        }
        None => Collision::Proceed,
    }
}

pub open spec fn opt_file_view(f: Option<File>) -> Option<FileView> {
    match f {
        Some(x) => Some(x@),
        None => None,
    }
}

/// A folder is set aside where a live remote object of its name exists that
/// the log does not hold at the same version.
pub open spec fn folder_collides(remote: Option<FileView>, known: Option<VersionView>) -> bool {
    match remote {
        Some(r) => !is_trashed_view(r) && match known {
            Some(t) => r.version != Some(t.version),
            None => true,
        },
        None => false,
    }
}

/// Applies the collision rule to the local folder at `dir` against `remote`,
/// the remote object of the same name under the same parent.
pub fn folder_collision(list: &VersionsList, dir: &String, remote: &Option<File>) -> (r: bool)
    requires
        list.wf(),
    ensures
        r == folder_collides(
            opt_file_view(*remote),
            match id_at_path(list@, dir@) {
                Some(k) => Some(list@[k]),
                None => None,
            },
        ),
{
    match remote {
        Some(f) => {
            if f.is_trashed() {
                return false;
            }
            match VersionsList::find_by_path(dir, list) {
                Some(item) => match &f.version {
                    Some(v) => !same_text(v.as_str(), item.1.version.as_str()),
                    None => true,
                },
                None => true,
            }
        }
        None => false,
    }
}

pub enum DirPlanView {
    AlreadyTracked,
    NoName,
    Create { name: Seq<char>, parent_id: Seq<char> },
}

/// What to do with a local folder that appeared.
#[derive(Debug)]
pub enum DirPlan {
    /// The log already holds a folder at this path.
    AlreadyTracked,
    /// The path has no usable last component.
    NoName,
    /// Look the name up under the parent, then create the folder remotely.
    Create { name: String, parent_id: String },
}

impl View for DirPlan {
    type V = DirPlanView;

    open spec fn view(&self) -> DirPlanView {
        match self {
            DirPlan::AlreadyTracked => DirPlanView::AlreadyTracked,
            DirPlan::NoName => DirPlanView::NoName,
            DirPlan::Create { name, parent_id } => DirPlanView::Create { name: name@, parent_id: parent_id@ },
        }
    }
}

pub open spec fn dir_plan_spec(
    m: Map<Seq<char>, VersionView>,
    dir: Seq<char>,
    parent: Seq<char>,
    root_id: Seq<char>,
) -> DirPlanView {
    if id_at_path(m, dir) is Some {
        DirPlanView::AlreadyTracked
    } else {
        match base_name(dir) {
            None => DirPlanView::NoName,
            Some(n) => DirPlanView::Create { name: n, parent_id: parent_id_of(m, parent, root_id) },
        }
    }
}

/// Plans the upload of the local folder at `dir`, in the local folder
/// `parent`.
pub fn plan_dir_upload(list: &VersionsList, dir: &String, parent: &String, root_id: &String) -> (r: DirPlan)
    requires
        list.wf(),
    ensures
        r@ == dir_plan_spec(list@, dir@, parent@, root_id@),
{
    if VersionsList::find_by_path(dir, list).is_some() {
        return DirPlan::AlreadyTracked;
    }
    match file_name(dir.as_str()) {
        Some(name) => DirPlan::Create { name, parent_id: resolve_parent_id(list, parent, root_id) },
        None => DirPlan::NoName,
    }
}

/// The record kept for what the service returned after an upload, a
/// creation or a rename; the version defaults to `1` where none came back.
pub open spec fn record_of(
    new: FileView,
    p: Seq<char>,
    parent_id: Seq<char>,
    is_folder: bool,
) -> VersionView {
    VersionView {
        is_folder,
        parent_id,
        version: match new.version {
            Some(v) => v,
            None => "1"@,
        },
        path: p,
        md5: if is_folder { None } else { new.md5 },
    }
}

pub open spec fn record_step(
    m: Map<Seq<char>, VersionView>,
    prior_id: Option<Seq<char>>,
    new: FileView,
    p: Seq<char>,
    parent_id: Seq<char>,
    is_folder: bool,
) -> Map<Seq<char>, VersionView> {
    let m1 = match prior_id {
        Some(k) => m.remove(k),
        None => m,
    };
    match new.id {
        Some(id) => put(m1, id, record_of(new, p, parent_id, is_folder)),
        None => m1,
    }
}

/// Records in the log what the service returned (`new`) for the object now
/// at `p`, replacing the record of `prior_id`. Returns whether the service
/// gave the object an id.
pub fn record_remote(
    list: &mut VersionsList,
    prior_id: &Option<String>,
    new: &File,
    p: &String,
    parent_id: &String,
    is_folder: bool,
) -> (r: bool)
    requires
        old(list).wf(),
    ensures
        final(list).wf(),
        r == new@.id is Some,
        final(list)@ == record_step(old(list)@, opt_view(*prior_id), new@, p@, parent_id@, is_folder),
{
    if let Some(k) = prior_id {
        list.remove(k);
    }
    match &new.id {
        Some(id) => {
            let version = match &new.version {
                Some(v) => v.clone(),
                None => String::from_str("1"),
            };
            let rec = Version {
                is_folder,
                parent_id: parent_id.clone(),
                version,
                path: p.clone(),
                md5: if is_folder { None } else { clone_opt_string(&new.md5) },
            };
            list.insert(id.clone(), rec);
            true
        }
        None => false,
    }
}

pub open spec fn forget_spec(m: Map<Seq<char>, VersionView>, p: Seq<char>) -> Map<Seq<char>, VersionView> {
    match id_at_path(m, p) {
        Some(k) => m.remove(k),
        None => m,
    }
}

/// A local removal at `p`: drops the record there and gives the id of the
/// remote object to delete, if the log knew the path.
pub fn forget_path(list: &mut VersionsList, p: &String) -> (r: Option<String>)
    requires
        old(list).wf(),
    ensures
        final(list).wf(),
        opt_view(r) == id_at_path(old(list)@, p@),
        final(list)@ == forget_spec(old(list)@, p@),
{
    match VersionsList::find_by_path(p, list) {
        Some(item) => {
            list.remove(&item.0);
            Some(item.0)
        }
        None => None,
    }
}

pub enum RenamePlanView {
    Delete { id: Option<Seq<char>> },
    NoName,
    Rename { id: Seq<char>, name: Seq<char>, parent_id: Seq<char>, is_folder: bool },
    Create,
}

/// What a local rename amounts to remotely.
#[derive(Debug)]
pub enum RenamePlan {
    /// Moved out of the local root: delete the remote object `id`, if known.
    Delete { id: Option<String> },
    /// The new path has no usable last component.
    NoName,
    /// Rename and move the remote object `id`.
    Rename { id: String, name: String, parent_id: String, is_folder: bool },
    /// The old path was never synchronized: treat the new one as created.
    Create,
}

impl View for RenamePlan {
    type V = RenamePlanView;

    open spec fn view(&self) -> RenamePlanView {
        match self {
            RenamePlan::Delete { id } => RenamePlanView::Delete { id: opt_view(*id) },
            RenamePlan::NoName => RenamePlanView::NoName,
            RenamePlan::Rename { id, name, parent_id, is_folder } => RenamePlanView::Rename {
                id: id@,
                name: name@,
                parent_id: parent_id@,
                is_folder: *is_folder,
            },
            RenamePlan::Create => RenamePlanView::Create,
        }
    }
}

pub open spec fn rename_step(
    m: Map<Seq<char>, VersionView>,
    root: Seq<char>,
    old_path: Seq<char>,
    new_path: Seq<char>,
    parent: Seq<char>,
    root_id: Seq<char>,
) -> (Map<Seq<char>, VersionView>, RenamePlanView) {
    if !has_prefix(parent, root) {
        (forget_spec(m, old_path), RenamePlanView::Delete { id: id_at_path(m, old_path) })
    } else {
        match id_at_path(m, old_path) {
            None => (m, RenamePlanView::Create),
            Some(k) => match base_name(new_path) {
                None => (m, RenamePlanView::NoName),
                Some(n) => (
                    m.remove(k),
                    RenamePlanView::Rename {
                        id: k,
                        name: n,
                        parent_id: parent_id_of(m, parent, root_id),
                        is_folder: m[k].is_folder,
                    },
                ),
            },
        }
    }
}

/// Plans a local rename from `old_path` to `new_path`, whose folder is
/// `parent`, under the local root `root`.
pub fn plan_rename(
    list: &mut VersionsList,
    root: &String,
    old_path: &String,
    new_path: &String,
    parent: &String,
    root_id: &String,
) -> (r: RenamePlan)
    requires
        old(list).wf(),
    ensures
        final(list).wf(),
        (final(list)@, r@) == rename_step(old(list)@, root@, old_path@, new_path@, parent@, root_id@),
{
    if !starts_with_text(parent.as_str(), root.as_str()) {
        let id = forget_path(list, old_path);
        return RenamePlan::Delete { id };
    }
    match VersionsList::find_by_path(old_path, list) {
        None => RenamePlan::Create,
        Some(item) => match file_name(new_path.as_str()) {
            None => RenamePlan::NoName,
            Some(name) => {
                let parent_id = resolve_parent_id(list, parent, root_id);
                list.remove(&item.0);
                RenamePlan::Rename { id: item.0, name, parent_id, is_folder: item.1.is_folder }
            }
        },
    }
}

/// A file created locally under a name that the remote holds with other
/// content is set aside as a copy, so both versions survive.
pub proof fn lemma_collision_keeps_both(remote: FileView, hash: Seq<char>)
    requires
        !is_trashed_view(remote),
        remote.md5 != Some(hash),
    ensures
        file_collision_spec(Some(remote), hash, None) == Collision::CopyFirst,
{
}

/// A rename whose new folder lies outside the local root is a removal.
pub proof fn lemma_rename_out_of_root_removes(
    m: Map<Seq<char>, VersionView>,
    root: Seq<char>,
    old_path: Seq<char>,
    new_path: Seq<char>,
    parent: Seq<char>,
    root_id: Seq<char>,
)
    requires
        !has_prefix(parent, root),
    ensures
        rename_step(m, root, old_path, new_path, parent, root_id) == (
            forget_spec(m, old_path),
            RenamePlanView::Delete { id: id_at_path(m, old_path) },
        ),
{
}

} // verus!
