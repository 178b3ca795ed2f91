//! Where a docket lives on disk and how its files are named and found.
use vstd::prelude::*;

use crate::event::opt_view;
use rand::Rng;

verus! {

broadcast use vstd::string::group_string_axioms;

/// What `Path::join` gives for these two paths, as text.
pub uninterp spec fn joined_path(base: Seq<char>, part: Seq<char>) -> Seq<char>;

/// What `Path::parent` gives for this path, as text.
pub uninterp spec fn parent_path(path: Seq<char>) -> Option<Seq<char>>;

/// What `Path::file_stem` gives for this path, as text.
pub uninterp spec fn file_stem(path: Seq<char>) -> Option<Seq<char>>;

/// Joins two paths with `std::path::Path::join`; the result is named
/// `joined_path` of the two.
#[verifier::external_body]
pub(crate) fn path_join(base: &str, part: &str) -> (r: String)
    ensures
        r@ == joined_path(base@, part@),
{
    std::path::Path::new(base).join(part).to_string_lossy().into_owned()
}

/// The parent of a path by `std::path::Path::parent`, named `parent_path`; it
/// is `None` for a root or an empty path.
#[verifier::external_body]
pub(crate) fn path_parent(path: &str) -> (r: Option<String>)
    ensures
        opt_view(r) == parent_path(path@),
{
    match std::path::Path::new(path).parent() {
        Some(p) => Some(p.to_string_lossy().into_owned()),
        None => None,
    }
}

/// The file name of a path without its extension, by
/// `std::path::Path::file_stem`, named `file_stem`.
#[verifier::external_body]
fn path_file_stem(path: &str) -> (r: Option<String>)
    ensures
        opt_view(r) == file_stem(path@),
{
    match std::path::Path::new(path).file_stem() {
        Some(s) => Some(s.to_string_lossy().into_owned()),
        None => None,
    }
}

/// The name of the directory that holds a docket.
pub open spec fn docket_dir_name() -> Seq<char> {
    seq!['.', 'd', 'o', 'c', 'k', 'e', 't']
}

/// The name of the directory, inside a docket, that holds the bug files.
pub open spec fn bugs_dir_name() -> Seq<char> {
    seq!['b', 'u', 'g', 's']
}

/// What the `.gitignore` of a new docket holds.
pub const GITIGNORE_CONTENTS: &'static str = ".cache/\n";

/// How many random ids are tried before giving up.
pub const ID_ATTEMPTS: u32 = 100;

/// The characters a bug id is made of.
pub const ID_CHARS: &'static str = "abcdefghijklmnopqrstuvwxyz0123456789";

/// How many characters a bug id has.
pub const ID_LENGTH: usize = 4;

/// A docket: the `.docket` directory that holds the bugs.
#[derive(Debug)]
pub struct Store {
    root: String,
}

impl View for Store {
    type V = Seq<char>;

    closed spec fn view(&self) -> Seq<char> {
        self.root@
    }
}

/// What one step of the search for a docket, from a directory upwards, found.
#[derive(Debug)]
pub enum OpenStep {
    /// The directory holds a docket.
    Found(Store),
    /// It does not; the search goes on in this parent directory.
    TryParent(String),
    /// It does not and has no parent: there is no docket.
    NotARepository,
}

/// One step of the search for a docket, as plain values.
pub enum SearchStep {
    Found(Seq<char>),
    TryParent(Seq<char>),
    NotARepository,
}

impl View for OpenStep {
    type V = SearchStep;

    open spec fn view(&self) -> SearchStep {
        match self {
            OpenStep::Found(s) => SearchStep::Found(s@),
            OpenStep::TryParent(p) => SearchStep::TryParent(p@),
            OpenStep::NotARepository => SearchStep::NotARepository,
        }
    }
}

/// Why a docket operation failed.
#[derive(Debug, Clone)]
pub enum StoreError {
    /// No `.docket` directory in the directory or above it.
    NotARepository,
    /// The `.docket` directory to create exists already.
    AlreadyInitialized { root: String },
    /// No bug file has this id or an id that starts with it.
    BugNotFound { id: String },
    /// Several bug files have an id that starts with this one.
    AmbiguousId { id: String, matches: Vec<String> },
    /// Every random id tried was taken.
    IdsExhausted,
}

/// The strings of `list` with `sep` between each two.
pub open spec fn joined(list: Seq<Seq<char>>, sep: Seq<char>) -> Seq<char>
    decreases list.len(),
{
    if list.len() == 0 {
        Seq::empty()
    } else if list.len() == 1 {
        list[0]
    } else {
        joined(list.drop_last(), sep) + sep + list.last()
    }
}

/// Joins strings with a separator.
pub fn join_strings(list: &Vec<String>, sep: &str) -> (r: String)
    ensures
        r@ == joined(crate::bug::string_views(list@), sep@),
{
    let ghost v = crate::bug::string_views(list@);
    let mut r = String::new();
    let mut i: usize = 0;
    while i < list.len()
        invariant
            i <= list.len(),
            v == crate::bug::string_views(list@),
            r@ == joined(v.take(i as int), sep@),
        decreases list.len() - i,
    {
        if i > 0 {
            r.append(sep);
        }
        r.append(list[i].as_str());
        proof {
            assert(v.take(i + 1).drop_last() =~= v.take(i as int));
            assert(v.take(i + 1).last() == list@[i as int]@);
            if i == 0 {
                assert(joined(v.take(0), sep@) =~= Seq::<char>::empty());
                assert(r@ =~= list@[0]@);
            }
        }
        i = i + 1;
    }
    assert(v.take(list.len() as int) =~= v);
    r
}

impl StoreError {
    /// The text shown for this error.
    pub fn message(&self) -> (r: String)
        ensures
            r@ == match self {
                StoreError::NotARepository =>
                    "not a docket repository (or any parent): .docket directory not found"@,
                StoreError::AlreadyInitialized { root } => "docket already initialized at "@
                    + root@,
                StoreError::BugNotFound { id } => "bug not found: "@ + id@,
                StoreError::AmbiguousId { id, matches } => "ambiguous bug ID '"@ + id@
                    + "', matches: "@ + joined(crate::bug::string_views(matches@), ", "@),
                StoreError::IdsExhausted =>
                    "failed to generate unique ID after 100 attempts"@,
            },
    {
        match self {
            StoreError::NotARepository => {
                "not a docket repository (or any parent): .docket directory not found".to_owned()
            },
            StoreError::AlreadyInitialized { root } => {
                let mut r = "docket already initialized at ".to_owned();
                r.append(root.as_str());
                r
            },
            StoreError::BugNotFound { id } => {
                let mut r = "bug not found: ".to_owned();
                r.append(id.as_str());
                r
            },
            StoreError::AmbiguousId { id, matches } => {
                let mut r = "ambiguous bug ID '".to_owned();
                r.append(id.as_str());
                r.append("', matches: ");
                let list = join_strings(matches, ", ");
                r.append(list.as_str());
                r
            },
            StoreError::IdsExhausted => "failed to generate unique ID after 100 attempts".to_owned(),
        }
    }
}


/// The file stems of those paths that have one, in order.
pub open spec fn stems(paths: Seq<Seq<char>>) -> Seq<Seq<char>>
    decreases paths.len(),
{
    if paths.len() == 0 {
        Seq::empty()
    } else {
        match file_stem(paths.last()) {
            Some(s) => stems(paths.drop_last()).push(s),
            None => stems(paths.drop_last()),
        }
    }
}

/// The file stems of those paths that have one.
fn file_stems(paths: &Vec<String>) -> (r: Vec<String>)
    ensures
        crate::bug::string_views(r@) == stems(crate::bug::string_views(paths@)),
{
    let ghost v = crate::bug::string_views(paths@);
    let mut r: Vec<String> = Vec::new();
    let mut i: usize = 0;
    while i < paths.len()
        invariant
            i <= paths.len(),
            v == crate::bug::string_views(paths@),
            crate::bug::string_views(r@) == stems(v.take(i as int)),
        decreases paths.len() - i,
    {
        let stem = path_file_stem(paths[i].as_str());
        proof {
            assert(v.take(i + 1).drop_last() =~= v.take(i as int));
            assert(v.take(i + 1).last() == paths@[i as int]@);
        }
        match stem {
            Some(s) => {
                let ghost before = r@;
                r.push(s);
                proof {
                    assert(crate::bug::string_views(r@) =~= crate::bug::string_views(before).push(
                        r@.last()@,
                    ));
                }
            },
            None => {},
        }
        i = i + 1;
    }
    assert(v.take(paths.len() as int) =~= v);
    r
}

/// Where the docket of a directory would be.
pub open spec fn docket_root_of(dir: Seq<char>) -> Seq<char> {
    joined_path(dir, docket_dir_name())
}

/// One step of the search for a docket from `dir`, where `docket_is_dir`
/// tells whether `dir/.docket` is a directory.
pub open spec fn open_step(dir: Seq<char>, docket_is_dir: bool) -> SearchStep {
    if docket_is_dir {
        SearchStep::Found(docket_root_of(dir))
    } else {
        match parent_path(dir) {
            Some(p) => SearchStep::TryParent(p),
            None => SearchStep::NotARepository,
        }
    }
}

/// `dirs` lists a directory and its ancestors: each is the parent of the one
/// before it, and the last has no parent.
pub open spec fn is_ancestor_chain(dirs: Seq<Seq<char>>) -> bool {
    &&& dirs.len() > 0
    &&& forall|i: int| 0 <= i < dirs.len() - 1 ==> parent_path(#[trigger] dirs[i]) == Some(dirs[i + 1])
    &&& parent_path(dirs.last()) is None
}

/// The search from `dirs[i]` upwards, one `open_step` at a time, going on to
/// the next directory of the list where a step tries the parent; `holds[k]`
/// tells whether `dirs[k]/.docket` is a directory. The docket root it ends
/// with, or none.
pub open spec fn search_from(dirs: Seq<Seq<char>>, holds: Seq<bool>, i: int) -> Option<Seq<char>>
    decreases dirs.len() - i,
{
    if i < 0 || i >= dirs.len() {
        None
    } else {
        match open_step(dirs[i], holds[i]) {
            SearchStep::Found(r) => Some(r),
            SearchStep::TryParent(_) => search_from(dirs, holds, i + 1),
            SearchStep::NotARepository => None,
        }
    }
}

proof fn lemma_search_reaches(dirs: Seq<Seq<char>>, holds: Seq<bool>, i: int, j: int)
    requires
        holds.len() == dirs.len(),
        is_ancestor_chain(dirs),
        0 <= i <= j < dirs.len(),
        holds[j],
        forall|k: int| 0 <= k < j ==> !#[trigger] holds[k],
    ensures
        search_from(dirs, holds, i) == Some(docket_root_of(dirs[j])),
    decreases j - i,
{
    if i < j {
        assert(!holds[i]);
        assert(parent_path(dirs[i]) == Some(dirs[i + 1]));
        lemma_search_reaches(dirs, holds, i + 1, j);
    }
}

proof fn lemma_search_fails(dirs: Seq<Seq<char>>, holds: Seq<bool>, i: int)
    requires
        holds.len() == dirs.len(),
        is_ancestor_chain(dirs),
        0 <= i < dirs.len(),
        forall|k: int| 0 <= k < holds.len() ==> !#[trigger] holds[k],
    ensures
        search_from(dirs, holds, i) is None,
    decreases dirs.len() - i,
{
    assert(!holds[i]);
    if i < dirs.len() - 1 {
        assert(parent_path(dirs[i]) == Some(dirs[i + 1]));
        lemma_search_fails(dirs, holds, i + 1);
    }
}

/// The search for a docket, started in a directory and going up through its
/// ancestors: each step that finds no docket goes on to the parent, and the
/// top one ends it. It ends at the nearest directory that holds a `.docket`
/// directory, with the same root from every directory on the way there, and
/// it fails exactly when no directory of the chain holds one.
pub proof fn lemma_docket_search(dirs: Seq<Seq<char>>, holds: Seq<bool>)
    requires
        holds.len() == dirs.len(),
        is_ancestor_chain(dirs),
    ensures
        forall|i: int|
            0 <= i < dirs.len() - 1 && !holds[i] ==> open_step(#[trigger] dirs[i], holds[i])
                == SearchStep::TryParent(dirs[i + 1]),
        !holds.last() ==> open_step(dirs.last(), holds.last()) == SearchStep::NotARepository,
        forall|j: int|
            0 <= j < dirs.len() && #[trigger] holds[j] && (forall|k: int| 0 <= k < j ==> !holds[k])
                ==> forall|i: int|
                0 <= i <= j ==> #[trigger] search_from(dirs, holds, i) == Some(
                    docket_root_of(dirs[j]),
                ),
        (forall|k: int| 0 <= k < holds.len() ==> !holds[k]) <==> search_from(dirs, holds, 0) is None,
{
    assert forall|j: int|
        0 <= j < dirs.len() && #[trigger] holds[j] && (forall|k: int| 0 <= k < j ==> !holds[k])
        implies forall|i: int|
        0 <= i <= j ==> #[trigger] search_from(dirs, holds, i) == Some(docket_root_of(dirs[j])) by {
        assert forall|i: int| 0 <= i <= j implies #[trigger] search_from(dirs, holds, i) == Some(
            docket_root_of(dirs[j]),
        ) by {
            lemma_search_reaches(dirs, holds, i, j);
        }
    }
    if forall|k: int| 0 <= k < holds.len() ==> !holds[k] {
        lemma_search_fails(dirs, holds, 0);
    } else {
        let j0 = choose|k: int| 0 <= k < holds.len() && holds[k];
        let j = first_true(holds, j0);
        lemma_search_reaches(dirs, holds, 0, j);
    }
}

/// Searching again from the parent of a docket root that a search found gives
/// the same root, where that parent is the directory the root was found in:
/// the search from there walks the rest of the same chain.
pub proof fn lemma_search_again_from_parent(dirs: Seq<Seq<char>>, holds: Seq<bool>, j: int)
    requires
        holds.len() == dirs.len(),
        is_ancestor_chain(dirs),
        0 <= j < dirs.len(),
        holds[j],
        forall|k: int| 0 <= k < j ==> !#[trigger] holds[k],
        parent_path(docket_root_of(dirs[j])) == Some(dirs[j]),
    ensures
        is_ancestor_chain(dirs.subrange(j, dirs.len() as int)),
        dirs.subrange(j, dirs.len() as int)[0] == parent_path(
            search_from(dirs, holds, 0)->Some_0,
        )->Some_0,
        search_from(dirs.subrange(j, dirs.len() as int), holds.subrange(j, holds.len() as int), 0)
            == search_from(dirs, holds, 0),
{
    let d = dirs.subrange(j, dirs.len() as int);
    let h = holds.subrange(j, holds.len() as int);
    lemma_search_reaches(dirs, holds, 0, j);
    assert forall|i: int| 0 <= i < d.len() - 1 implies parent_path(#[trigger] d[i]) == Some(
        d[i + 1],
    ) by {
        assert(d[i] == dirs[i + j] && d[i + 1] == dirs[i + j + 1]);
    }
    assert(d.last() == dirs.last());
    assert(h[0] == holds[j]);
    assert(d[0] == dirs[j]);
    lemma_search_reaches(d, h, 0, 0);
}

/// The first index at most `j` that holds `true`, given that `holds[j]` does.
proof fn first_true(holds: Seq<bool>, j: int) -> (r: int)
    requires
        0 <= j < holds.len(),
        holds[j],
    ensures
        0 <= r <= j,
        holds[r],
        forall|k: int| 0 <= k < r ==> !#[trigger] holds[k],
    decreases j,
{
    if exists|k: int| 0 <= k < j && holds[k] {
        let k = choose|k: int| 0 <= k < j && holds[k];
        first_true(holds, k)
    } else {
        j
    }
}

impl Store {
    /// The `.docket` directory.
    pub fn root(&self) -> (r: &str)
        ensures
            r@ == self@,
    {
        self.root.as_str()
    }

    /// Where the docket of `dir` would be: `dir/.docket`.
    pub fn candidate_root(dir: &str) -> (r: String)
        ensures
            r@ == docket_root_of(dir@),
    {
        let name = ".docket";
        proof {
            reveal_strlit(".docket");
            assert(name@ =~= docket_dir_name());
        }
        path_join(dir, name)
    }

    /// One step of the search for a docket from a directory upwards: `dir`
    /// holds one if `dir/.docket` is a directory; else the search goes on in
    /// the parent of `dir`, and ends without a docket at the top.
    pub fn open_from(dir: &str, docket_is_dir: bool) -> (r: OpenStep)
        ensures
            r@ == open_step(dir@, docket_is_dir),
            docket_is_dir ==> (r matches OpenStep::Found(s) && s@ == docket_root_of(dir@)),
            !docket_is_dir ==> match parent_path(dir@) {
                Some(p) => r matches OpenStep::TryParent(q) && q@ == p,
                None => r is NotARepository,
            },
    {
        if docket_is_dir {
            OpenStep::Found(Store { root: Store::candidate_root(dir) })
        } else {
            match path_parent(dir) {
                Some(p) => OpenStep::TryParent(p),
                None => OpenStep::NotARepository,
            }
        }
    }

    /// The docket to create in `dir`, refused if `dir/.docket` exists.
    pub fn init_at(dir: &str, root_exists: bool) -> (r: Result<Store, StoreError>)
        ensures
            root_exists ==> (r matches Err(StoreError::AlreadyInitialized { root }) && root@
                == docket_root_of(dir@)),
            !root_exists ==> (r matches Ok(s) && s@ == docket_root_of(dir@)),
    {
        let root = Store::candidate_root(dir);
        if root_exists {
            Err(StoreError::AlreadyInitialized { root })
        } else {
            Ok(Store { root })
        }
    }

    /// The directory of the bug files: `root/bugs`.
    pub fn bugs_dir(&self) -> (r: String)
        ensures
            r@ == joined_path(self@, bugs_dir_name()),
    {
        let name = "bugs";
        proof {
            reveal_strlit("bugs");
            assert(name@ =~= bugs_dir_name());
        }
        path_join(self.root.as_str(), name)
    }

    /// The `.gitignore` of the docket.
    pub fn gitignore_path(&self) -> (r: String)
        ensures
            r@ == joined_path(self@, ".gitignore"@),
    {
        path_join(self.root.as_str(), ".gitignore")
    }

    /// The file of the bug `id`: `root/bugs/<id>.md`.
    pub fn bug_path(&self, id: &str) -> (r: String)
        ensures
            r@ == joined_path(joined_path(self@, bugs_dir_name()), id@ + ".md"@),
    {
        let mut name = id.to_owned();
        name.append(".md");
        let dir = self.bugs_dir();
        path_join(dir.as_str(), name.as_str())
    }

    /// The event log of the bug `id`: `root/bugs/<id>.jsonl`, one JSON event
    /// per line.
    pub fn event_log_path(&self, id: &str) -> (r: String)
        ensures
            r@ == joined_path(joined_path(self@, bugs_dir_name()), id@ + ".jsonl"@),
    {
        let mut name = id.to_owned();
        name.append(".jsonl");
        let dir = self.bugs_dir();
        path_join(dir.as_str(), name.as_str())
    }

    /// The glob pattern of all bug files: `root/bugs/*.md`.
    pub fn bug_files_pattern(&self) -> (r: String)
        ensures
            r@ == joined_path(joined_path(self@, bugs_dir_name()), "*.md"@),
    {
        let dir = self.bugs_dir();
        path_join(dir.as_str(), "*.md")
    }

    /// The glob pattern of the bug files whose id starts with `prefix`.
    pub fn prefix_pattern(&self, prefix: &str) -> (r: String)
        ensures
            r@ == joined_path(joined_path(self@, bugs_dir_name()), prefix@ + "*.md"@),
    {
        let mut name = prefix.to_owned();
        name.append("*.md");
        let dir = self.bugs_dir();
        path_join(dir.as_str(), name.as_str())
    }

    /// Which file holds the bug named `id`: the file of that exact id if it
    /// exists, else the one file among `prefix_matches` (the files whose id
    /// starts with `id`); none or several of them are errors, the latter
    /// listing their ids.
    pub fn resolve_bug_file(&self, id: &str, exact_exists: bool, prefix_matches: &Vec<String>) -> (r:
        Result<String, StoreError>)
        ensures
            exact_exists ==> (r matches Ok(p) && p@ == joined_path(
                joined_path(self@, bugs_dir_name()),
                id@ + ".md"@,
            )),
            !exact_exists && prefix_matches.len() == 0 ==> (r matches Err(
                StoreError::BugNotFound { id: i },
            ) && i@ == id@),
            !exact_exists && prefix_matches.len() == 1 ==> (r matches Ok(p) && p@
                == prefix_matches@[0]@),
            !exact_exists && prefix_matches.len() > 1 ==> (r matches Err(
                StoreError::AmbiguousId { id: i, matches: m },
            ) && i@ == id@ && crate::bug::string_views(m@) == stems(
                crate::bug::string_views(prefix_matches@),
            )),
    {
        if exact_exists {
            Ok(self.bug_path(id))
        } else if prefix_matches.len() == 0 {
            Err(StoreError::BugNotFound { id: id.to_owned() })
        } else if prefix_matches.len() == 1 {
            Ok(prefix_matches[0].clone())
        } else {
            Err(StoreError::AmbiguousId { id: id.to_owned(), matches: file_stems(prefix_matches) })
        }
    }
}

/// A number below `n` from `rand::thread_rng().gen_range(0..n)`; it is random,
/// and only its range is promised. (`gen_range` panics on an empty range.)
#[verifier::external_body]
fn random_below(n: usize) -> (r: usize)
    requires
        n > 0,
    ensures
        r < n,
{
    rand::thread_rng().gen_range(0..n)
}

/// A random bug id: `ID_LENGTH` characters drawn from `ID_CHARS`.
pub fn random_id() -> (r: String)
    ensures
        r@.len() == ID_LENGTH,
        forall|i: int| 0 <= i < r@.len() ==> ID_CHARS@.contains(#[trigger] r@[i]),
{
    let chars = ID_CHARS;
    proof {
        reveal_strlit("abcdefghijklmnopqrstuvwxyz0123456789");
    }
    let n: usize = chars.unicode_len();
    let mut r = String::new();
    let mut k: usize = 0;
    while k < ID_LENGTH
        invariant
            k <= ID_LENGTH,
            n == chars@.len() == 36,
            chars@ == ID_CHARS@,
            r@.len() == k,
            forall|i: int| 0 <= i < r@.len() ==> ID_CHARS@.contains(#[trigger] r@[i]),
        decreases ID_LENGTH - k,
    {
        let idx: usize = random_below(n);
        let piece = chars.substring_char(idx, idx + 1);
        let ghost before = r@;
        r.append(piece);
        proof {
            assert(r@[k as int] == chars@[idx as int]);
            assert forall|i: int| 0 <= i < r@.len() implies ID_CHARS@.contains(#[trigger] r@[i]) by {
                if i < k {
                    assert(r@[i] == before[i]);
                }
            }
        }
        k = k + 1;
    }
    r
}

/// The search for an unused bug id: up to `ID_ATTEMPTS` random candidates.
pub struct IdSearch {
    attempts: u32,
}

impl IdSearch {
    #[verifier::type_invariant]
    spec fn within_attempts(self) -> bool {
        self.attempts <= ID_ATTEMPTS
    }

    /// How many candidates were handed out.
    pub closed spec fn tried(&self) -> nat {
        self.attempts as nat
    }

    pub fn new() -> (r: IdSearch)
        ensures
            r.tried() == 0,
    {
        IdSearch { attempts: 0 }
    }

    /// The next candidate id, or `None` once `ID_ATTEMPTS` were handed out.
    pub fn next_candidate(&mut self) -> (r: Option<String>)
        ensures
            old(self).tried() < ID_ATTEMPTS ==> final(self).tried() == old(self).tried() + 1 && (
            r matches Some(id) && id@.len() == ID_LENGTH && forall|i: int|
                0 <= i < id@.len() ==> ID_CHARS@.contains(#[trigger] id@[i])),
            old(self).tried() >= ID_ATTEMPTS ==> final(self).tried() == old(self).tried()
                && r is None,
            final(self).tried() <= ID_ATTEMPTS,
    {
        proof {
            use_type_invariant(&*self);
        }
        if self.attempts >= ID_ATTEMPTS {
            None
        } else {
            self.attempts = self.attempts + 1;
            Some(random_id())
        }
    }
}

} // verus!
