//! The version log: what is known of every synchronized object, keyed by its
//! remote id.
use vstd::prelude::*;

verus! {

/// What a record says of one object, as mathematical values.
pub struct VersionView {
    pub is_folder: bool,
    pub parent_id: Seq<char>,
    pub version: Seq<char>,
    pub path: Seq<char>,
    pub md5: Option<Seq<char>>,
}

pub open spec fn opt_view(o: Option<String>) -> Option<Seq<char>> {
    match o {
        Some(s) => Some(s@),
        None => None,
    }
}

/// Everything recorded of one file or folder.
#[derive(Clone, Debug)]
pub struct Version {
    pub is_folder: bool,
    pub parent_id: String,
    pub version: String,
    pub path: String,
    pub md5: Option<String>,
}

impl View for Version {
    type V = VersionView;

    open spec fn view(&self) -> VersionView {
        VersionView {
            is_folder: self.is_folder,
            parent_id: self.parent_id@,
            version: self.version@,
            path: self.path@,
            md5: opt_view(self.md5),
        }
    }
}

pub fn clone_opt_string(o: &Option<String>) -> (r: Option<String>)
    ensures
        opt_view(r) == opt_view(*o),
{
    match o {
        Some(s) => Some(s.clone()),
        None => None,
    }
}

impl Version {
    /// A copy of the record with the same contents.
    pub fn duplicate(&self) -> (r: Version)
        ensures
            r@ == self@,
    {
        Version {
            is_folder: self.is_folder,
            parent_id: self.parent_id.clone(),
            version: self.version.clone(),
            path: self.path.clone(),
            md5: clone_opt_string(&self.md5),
        }
    }
}

/// An id together with its record.
pub type VersionsItem = (String, Version);

/// The whole log: a map from remote id to record, in which no two records
/// share an id or a path.
pub struct VersionsList {
    entries: Vec<VersionsItem>,
}

pub open spec fn item_view(e: VersionsItem) -> (Seq<char>, VersionView) {
    (e.0@, e.1@)
}

/// The ids of `m` whose record lies at `p`.
pub open spec fn ids_at_path(m: Map<Seq<char>, VersionView>, p: Seq<char>) -> Set<Seq<char>> {
    Set::new(|k: Seq<char>| m.contains_key(k) && m[k].path == p)
}

/// The id whose record lies at `p`, if any.
pub open spec fn id_at_path(m: Map<Seq<char>, VersionView>, p: Seq<char>) -> Option<Seq<char>> {
    if exists|k: Seq<char>| #[trigger] ids_at_path(m, p).contains(k) {
        Some(choose|k: Seq<char>| #[trigger] ids_at_path(m, p).contains(k))
    } else {
        None
    }
}

/// `m` with `id` set to `v`, after dropping any other record that lies at
/// the same path.
pub open spec fn put(
    m: Map<Seq<char>, VersionView>,
    id: Seq<char>,
    v: VersionView,
) -> Map<Seq<char>, VersionView> {
    m.remove_keys(ids_at_path(m, v.path)).insert(id, v)
}

/// No two records of `m` lie at the same path.
pub open spec fn paths_unique(m: Map<Seq<char>, VersionView>) -> bool {
    forall|a: Seq<char>, b: Seq<char>|
        #![trigger m[a].path, m[b].path]
        m.contains_key(a) && m.contains_key(b) && m[a].path == m[b].path ==> a == b
}

impl VersionsList {
    pub closed spec fn items(&self) -> Seq<(Seq<char>, VersionView)> {
        self.entries@.map_values(|e: VersionsItem| item_view(e))
    }

    pub open spec fn has_id(&self, id: Seq<char>) -> bool {
        exists|i: int| 0 <= i < self.items().len() && #[trigger] self.items()[i].0 == id
    }

    /// Both ids and paths are unique.
    pub open spec fn wf(&self) -> bool {
        &&& forall|i: int, j: int|
            0 <= i < self.items().len() && 0 <= j < self.items().len() && i != j
                ==> #[trigger] self.items()[i].0 != #[trigger] self.items()[j].0
        &&& forall|i: int, j: int|
            0 <= i < self.items().len() && 0 <= j < self.items().len() && i != j
                ==> #[trigger] self.items()[i].1.path != #[trigger] self.items()[j].1.path
    }
}

impl View for VersionsList {
    type V = Map<Seq<char>, VersionView>;

    open spec fn view(&self) -> Map<Seq<char>, VersionView> {
        Map::new(
            |id: Seq<char>| self.has_id(id),
            |id: Seq<char>|
                self.items()[choose|i: int| 0 <= i < self.items().len() && #[trigger] self.items()[i].0 == id].1,
        )
    }
}

impl VersionsList {
    proof fn lemma_index(&self, i: int)
        requires
            self.wf(),
            0 <= i < self.items().len(),
        ensures
            self@.contains_key(self.items()[i].0),
            self@[self.items()[i].0] == self.items()[i].1,
    {
        let id = self.items()[i].0;
        assert(self.has_id(id));
        let j = choose|j: int| 0 <= j < self.items().len() && #[trigger] self.items()[j].0 == id;
        assert(j == i);
    }

    proof fn lemma_view_paths_unique(&self)
        requires
            self.wf(),
        ensures
            paths_unique(self@),
    {
        assert forall|a: Seq<char>, b: Seq<char>|
            self@.contains_key(a) && self@.contains_key(b) && #[trigger] self@[a].path
                == #[trigger] self@[b].path implies a == b by {
            let i = choose|i: int| 0 <= i < self.items().len() && #[trigger] self.items()[i].0 == a;
            let j = choose|j: int| 0 <= j < self.items().len() && #[trigger] self.items()[j].0 == b;
            self.lemma_index(i);
            self.lemma_index(j);
        }
    }

    /// An empty log.
    pub fn new() -> (r: VersionsList)
        ensures
            r.wf(),
            r@ == Map::<Seq<char>, VersionView>::empty(),
    {
        let r = VersionsList { entries: Vec::new() };
        assert(r@ =~= Map::<Seq<char>, VersionView>::empty());
        r
    }

    /// Index of the entry whose id is `id`, if any.
    fn position_of_id(&self, id: &String) -> (r: Option<usize>)
        requires
            self.wf(),
        ensures
            r is None <==> !self@.contains_key(id@),
            r matches Some(i) ==> i < self.items().len() && self.items()[i as int].0 == id@,
    {
        let mut i: usize = 0;
        while i < self.entries.len()
            invariant
                self.wf(),
                0 <= i <= self.entries@.len(),
                forall|j: int| 0 <= j < i ==> #[trigger] self.items()[j].0 != id@,
            decreases self.entries@.len() - i,
        {
            if self.entries[i].0 == *id {
                proof {
                    assert(self.items()[i as int].0 == id@);
                    assert(self.has_id(id@));
                }
                return Some(i);
            }
            i += 1;
        }
        None
    }

    /// Index of the entry whose record lies at `p`, if any.
    fn position_of_path(&self, p: &String) -> (r: Option<usize>)
        requires
            self.wf(),
        ensures
            r is None <==> ids_at_path(self@, p@).is_empty(),
            r matches Some(i) ==> i < self.items().len() && self.items()[i as int].1.path == p@,
    {
        let mut i: usize = 0;
        while i < self.entries.len()
            invariant
                self.wf(),
                0 <= i <= self.entries@.len(),
                forall|j: int| 0 <= j < i ==> #[trigger] self.items()[j].1.path != p@,
            decreases self.entries@.len() - i,
        {
            if self.entries[i].1.path == *p {
                proof {
                    self.lemma_index(i as int);
                    assert(ids_at_path(self@, p@).contains(self.items()[i as int].0));
                }
                return Some(i);
            }
            i += 1;
        }
        proof {
            assert forall|k: Seq<char>| !#[trigger] ids_at_path(self@, p@).contains(k) by {
                if self@.contains_key(k) {
                    let j = choose|j: int| 0 <= j < self.items().len() && #[trigger] self.items()[j].0 == k;
                    self.lemma_index(j);
                }
            }
            assert(ids_at_path(self@, p@) =~= Set::empty());
        }
        None
    }

    /// Drops the entry at index `i`.
    fn remove_at(&mut self, i: usize)
        requires
            old(self).wf(),
            i < old(self).items().len(),
        ensures
            final(self).wf(),
            final(self)@ == old(self)@.remove(old(self).items()[i as int].0),
    {
        let ghost pre = *self;
        let ghost id = pre.items()[i as int].0;
        self.entries.remove(i);
        let ghost post = *self;
        assert(post.items() =~= pre.items().remove(i as int));
        proof {
            assert forall|k: Seq<char>| #[trigger] post@.contains_key(k) <==> pre@.remove(id).contains_key(k) by {
                if post@.contains_key(k) {
                    let a = choose|a: int| 0 <= a < post.items().len() && #[trigger] post.items()[a].0 == k;
                    let b = if a < i { a } else { a + 1 };
                    assert(pre.items()[b].0 == k);
                }
                if pre@.remove(id).contains_key(k) {
                    let b = choose|b: int| 0 <= b < pre.items().len() && #[trigger] pre.items()[b].0 == k;
                    assert(b != i);
                    let a = if b < i { b } else { b - 1 };
                    assert(post.items()[a].0 == k);
                }
            }
            assert forall|k: Seq<char>| #[trigger] post@.contains_key(k) implies post@[k] == pre@[k] by {
                let a = choose|a: int| 0 <= a < post.items().len() && #[trigger] post.items()[a].0 == k;
                let b = if a < i { a } else { a + 1 };
                post.lemma_index(a);
                pre.lemma_index(b);
            }
            assert(post@ =~= pre@.remove(id));
        }
    }

    /// Appends an entry whose id and path are both new.
    fn push_new(&mut self, id: String, v: Version)
        requires
            old(self).wf(),
            !old(self)@.contains_key(id@),
            ids_at_path(old(self)@, v@.path).is_empty(),
        ensures
            final(self).wf(),
            final(self)@ == old(self)@.insert(id@, v@),
    {
        let ghost pre = *self;
        let ghost e = (id@, v@);
        proof {
            assert forall|j: int| #![trigger pre.items()[j]] 0 <= j < pre.items().len() implies
                pre.items()[j].0 != id@ && pre.items()[j].1.path != v@.path by {
                pre.lemma_index(j);
                if pre.items()[j].1.path == v@.path {
                    assert(ids_at_path(pre@, v@.path).contains(pre.items()[j].0));
                }
            }
        }
        self.entries.push((id, v));
        let ghost post = *self;
        assert(post.items() =~= pre.items().push(e));
        proof {
            let n = pre.items().len() as int;
            assert forall|a: int, b: int|
                0 <= a < post.items().len() && 0 <= b < post.items().len() && a != b
                    implies #[trigger] post.items()[a].0 != #[trigger] post.items()[b].0 by {
                if a < n && b < n {
                    assert(pre.items()[a].0 != pre.items()[b].0);
                }
            }
            assert forall|a: int, b: int|
                0 <= a < post.items().len() && 0 <= b < post.items().len() && a != b
                    implies #[trigger] post.items()[a].1.path != #[trigger] post.items()[b].1.path by {
                assert(post.items()[n] == e);
                if a < n && b < n {
                    assert(pre.items()[a].1.path != pre.items()[b].1.path);
                } else if a == n {
                    assert(post.items()[b] == pre.items()[b]);
                } else {
                    assert(post.items()[a] == pre.items()[a]);
                }
            }
            assert forall|k: Seq<char>| #[trigger] post@.contains_key(k) <==> pre@.insert(e.0, e.1).contains_key(k) by {
                if post@.contains_key(k) {
                    let a = choose|a: int| 0 <= a < post.items().len() && #[trigger] post.items()[a].0 == k;
                    if a < n {
                        assert(pre.items()[a].0 == k);
                    }
                }
                if pre@.contains_key(k) {
                    let b = choose|b: int| 0 <= b < pre.items().len() && #[trigger] pre.items()[b].0 == k;
                    assert(post.items()[b].0 == k);
                }
                if k == e.0 {
                    assert(post.items()[n].0 == k);
                }
            }
            assert forall|k: Seq<char>| #[trigger] post@.contains_key(k) implies
                post@[k] == pre@.insert(e.0, e.1)[k] by {
                let a = choose|a: int| 0 <= a < post.items().len() && #[trigger] post.items()[a].0 == k;
                post.lemma_index(a);
                if a < n {
                    pre.lemma_index(a);
                }
            }
            assert(post@ =~= pre@.insert(e.0, e.1));
        }
    }


    /// The record kept under `id`.
    pub fn get(&self, id: &String) -> (r: Option<Version>)
        requires
            self.wf(),
        ensures
            r is None <==> !self@.contains_key(id@),
            r matches Some(v) ==> v@ == self@[id@],
    {
        match self.position_of_id(id) {
            Some(i) => {
                proof { self.lemma_index(i as int); }
                Some(self.entries[i].1.duplicate())
            }
            None => None,
        }
    }

    /// Whether a record is kept under `id`.
    pub fn contains(&self, id: &String) -> (r: bool)
        requires
            self.wf(),
        ensures
            r == self@.contains_key(id@),
    {
        self.position_of_id(id).is_some()
    }

    /// Drops the record kept under `id`, if any.
    pub fn remove(&mut self, id: &String)
        requires
            old(self).wf(),
        ensures
            final(self).wf(),
            final(self)@ == old(self)@.remove(id@),
    {
        match self.position_of_id(id) {
            Some(i) => self.remove_at(i),
            None => {
                assert(self@ =~= self@.remove(id@));
            }
        }
    }

    /// Keeps `v` under `id`, replacing what was kept under `id` and any
    /// record that lay at the same path.
    pub fn insert(&mut self, id: String, v: Version)
        requires
            old(self).wf(),
        ensures
            final(self).wf(),
            final(self)@ == put(old(self)@, id@, v@),
    {
        let ghost m0 = self@;
        let ghost p = v@.path;
        self.remove(&id);
        let ghost m1 = self@;
        proof { self.lemma_view_paths_unique(); }
        match self.position_of_path(&v.path) {
            Some(j) => {
                let ghost k = self.items()[j as int].0;
                proof { self.lemma_index(j as int); }
                self.remove_at(j);
                proof {
                    assert forall|x: Seq<char>| !#[trigger] ids_at_path(self@, p).contains(x) by {
                        if self@.contains_key(x) && self@[x].path == p {
                            assert(m1.contains_key(x) && m1[x].path == m1[k].path);
                        }
                    }
                    assert(ids_at_path(self@, p) =~= Set::empty());
                    assert(ids_at_path(m0, p) =~= set![k] || ids_at_path(m0, p) =~= set![k, id@]) by {
                        assert forall|x: Seq<char>| #[trigger] ids_at_path(m0, p).contains(x) && x != id@
                            implies x == k by {
                            assert(m1.contains_key(x) && m1[x].path == m1[k].path);
                        }
                        if m0.contains_key(id@) && m0[id@].path == p {
                            assert(ids_at_path(m0, p) =~= set![k, id@]);
                        } else {
                            assert(ids_at_path(m0, p) =~= set![k]);
                        }
                    }
                }
            }
            None => {
                proof {
                    assert forall|x: Seq<char>| #[trigger] ids_at_path(m0, p).contains(x) implies x == id@ by {
                        if x != id@ {
                            assert(ids_at_path(m1, p).contains(x));
                        }
                    }
                }
            }
        }
        self.push_new(id, v);
        assert(self@ =~= put(m0, id@, v@));
    }

    /// The id and record of the entry whose path is `p`.
    pub fn find_by_path(p: &String, l: &VersionsList) -> (r: Option<VersionsItem>)
        requires
            l.wf(),
        ensures
            r is None <==> id_at_path(l@, p@) is None,
            r matches Some(item) ==> id_at_path(l@, p@) == Some(item.0@) && l@.contains_key(item.0@)
                && l@[item.0@] == item.1@ && item.1@.path == p@,
    {
        match l.position_of_path(p) {
            Some(i) => {
                proof {
                    l.lemma_index(i as int);
                    l.lemma_view_paths_unique();
                    let k0 = l.items()[i as int].0;
                    assert(ids_at_path(l@, p@).contains(k0));
                    let k = choose|k: Seq<char>| #[trigger] ids_at_path(l@, p@).contains(k);
                    assert(l@[k].path == l@[k0].path);
                }
                Some((l.entries[i].0.clone(), l.entries[i].1.duplicate()))
            }
            None => {
                proof {
                    assert forall|k: Seq<char>| !#[trigger] ids_at_path(l@, p@).contains(k) by {
                        assert(!Set::<Seq<char>>::empty().contains(k));
                    }
                }
                None
            }
        }
    }
}

impl VersionsList {
    /// Every id with its record, each once.
    pub fn entries(&self) -> (r: Vec<VersionsItem>)
        requires
            self.wf(),
        ensures
            forall|i: int| 0 <= i < r@.len() ==> self@.contains_key(#[trigger] r@[i].0@)
                && self@[r@[i].0@] == r@[i].1@,
            forall|k: Seq<char>| self@.contains_key(k) ==> exists|i: int| 0 <= i < r@.len() && #[trigger] r@[i].0@ == k,
            forall|i: int, j: int| 0 <= i < r@.len() && 0 <= j < r@.len() && i != j ==> #[trigger] r@[i].0@ != #[trigger] r@[j].0@,
    {
        let mut r: Vec<VersionsItem> = Vec::new();
        let mut i: usize = 0;
        while i < self.entries.len()
            invariant
                self.wf(),
                0 <= i <= self.entries@.len(),
                r@.len() == i,
                forall|j: int| 0 <= j < i ==> item_view(#[trigger] r@[j]) == self.items()[j],
            decreases self.entries@.len() - i,
        {
            r.push((self.entries[i].0.clone(), self.entries[i].1.duplicate()));
            i += 1;
        }
        proof {
            assert forall|j: int| 0 <= j < r@.len() implies self@.contains_key(#[trigger] r@[j].0@)
                && self@[r@[j].0@] == r@[j].1@ by {
                assert(item_view(r@[j]) == self.items()[j]);
                self.lemma_index(j);
            }
            assert forall|k: Seq<char>| self@.contains_key(k) implies exists|j: int| 0 <= j < r@.len() && #[trigger] r@[j].0@ == k by {
                let j = choose|j: int| 0 <= j < self.items().len() && #[trigger] self.items()[j].0 == k;
                assert(item_view(r@[j]) == self.items()[j]);
            }
            assert forall|a: int, b: int| 0 <= a < r@.len() && 0 <= b < r@.len() && a != b implies
                #[trigger] r@[a].0@ != #[trigger] r@[b].0@ by {
                assert(item_view(r@[a]) == self.items()[a]);
                assert(item_view(r@[b]) == self.items()[b]);
            }
        }
        r
    }
}

/// `c` is a whitespace character of a JSON document.
pub open spec fn is_space(c: char) -> bool {
    c == ' ' || c == '\n' || c == '\t' || c == '\r'
}

/// A document with nothing in it but whitespace.
pub open spec fn is_blank(s: Seq<char>) -> bool {
    forall|i: int| 0 <= i < s.len() ==> is_space(#[trigger] s[i])
}

/// Whether `s` holds nothing but whitespace.
pub fn blank_document(s: &str) -> (r: bool)
    ensures
        r == is_blank(s@),
{
    let n = s.unicode_len();
    let mut i: usize = 0;
    while i < n
        invariant
            n == s@.len(),
            0 <= i <= n,
            forall|k: int| 0 <= k < i ==> is_space(#[trigger] s@[k]),
        decreases n - i,
    {
        let c = s.get_char(i);
        if !(c == ' ' || c == '\n' || c == '\t' || c == '\r') {
            return false;
        }
        i += 1;
    }
    true
}

/// The persistent version-log document at `path`. While a loaded copy is
/// being worked on the document is locked.
pub struct Versions {
    path: String,
    is_locked: bool,
}

impl Versions {
    /// A handle on the document at `path`, not locked.
    pub fn new(path: String) -> (r: Versions)
        ensures
            r.path_view() == path@,
            !r.locked(),
    {
        Versions { path, is_locked: false }
    }

    pub closed spec fn path_view(&self) -> Seq<char> {
        self.path@
    }

    pub closed spec fn locked(&self) -> bool {
        self.is_locked
    }

    /// Where the document lies.
    pub fn path(&self) -> (r: &String)
        ensures
            r@ == self.path_view(),
    {
        &self.path
    }

    /// Whether a loaded copy is being worked on.
    pub fn is_locked(&self) -> (r: bool)
        ensures
            r == self.locked(),
    {
        self.is_locked
    }

    /// The id and record of the entry of `l` whose path is `p`.
    pub fn find_item_by_path(p: &String, l: &VersionsList) -> (r: Option<VersionsItem>)
        requires
            l.wf(),
        ensures
            r is None <==> id_at_path(l@, p@) is None,
            r matches Some(item) ==> id_at_path(l@, p@) == Some(item.0@) && l@.contains_key(item.0@)
                && l@[item.0@] == item.1@ && item.1@.path == p@,
    {
        VersionsList::find_by_path(p, l)
    }

    /// The log read from the document text `content`, which a JSON reader
    /// turned into `parsed` (none where it could not). A blank or unreadable
    /// document is a cold start: the log is empty. A readable one locks the
    /// document.
    pub fn list(&mut self, content: &str, parsed: Option<VersionsList>) -> (r: VersionsList)
        requires
            parsed matches Some(l) ==> l.wf(),
        ensures
            r.wf(),
            final(self).path_view() == old(self).path_view(),
            (is_blank(content@) || parsed is None) ==> r@ == Map::<Seq<char>, VersionView>::empty()
                && final(self).locked() == old(self).locked(),
            !is_blank(content@) && parsed is Some ==> r@ == parsed->0@ && final(self).locked(),
    {
        if blank_document(content) {
            return VersionsList::new();
        }
        match parsed {
            Some(l) => {
                self.is_locked = true;
                l
            }
            None => VersionsList::new(),
        }
    }

    /// Marks the loaded copy as no longer worked on: the document is unlocked.
    pub fn unlock(&mut self)
        ensures
            final(self).path_view() == old(self).path_view(),
            !final(self).locked(),
    {
        self.is_locked = false;
    }
}

/// An empty document is blank, so it loads as an empty log whatever a
/// reader made of it.
pub proof fn lemma_empty_document_is_blank()
    ensures
        is_blank(Seq::<char>::empty()),
{
}

/// A log never holds two records at the same path.
pub proof fn lemma_paths_unique(l: &VersionsList)
    requires
        l.wf(),
    ensures
        paths_unique(l@),
{
    l.lemma_view_paths_unique();
}

} // verus!
