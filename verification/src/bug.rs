//! Bugs: their status, priority, metadata and the file that holds one.
use vstd::prelude::*;

use crate::text::{
    all_ascii, ascii_lowered, chars_of, lemma_ascii_lowered_idempotent, contains_seq, find_chars, lemma_find_from,
    lemma_find_from_first, lemma_trimmed_ws_prefix, lemma_trimmed_ws_suffix, occurs_at, split3,
    str_eq, to_lowercase, trim, trimmed, unicode_lowercase,
};

verus! {

broadcast use vstd::string::group_string_axioms;

/// Where a bug stands in its life.
#[derive(Debug, Clone, Copy, PartialEq, Eq, Structural)]
pub enum Status {
    Draft,
    Approved,
    InProgress,
    Done,
}

/// The name under which a status is shown and stored.
pub open spec fn status_name(s: Status) -> Seq<char> {
    match s {
        Status::Draft => "draft"@,
        Status::Approved => "approved"@,
        Status::InProgress => "in-progress"@,
        Status::Done => "done"@,
    }
}

/// The status that an already lower-cased word names, if any.
pub open spec fn status_from_lowercase(t: Seq<char>) -> Option<Status> {
    if t == "draft"@ {
        Some(Status::Draft)
    } else if t == "approved"@ {
        Some(Status::Approved)
    } else if t == "in-progress"@ || t == "in_progress"@ || t == "inprogress"@ {
        Some(Status::InProgress)
    } else if t == "done"@ {
        Some(Status::Done)
    } else {
        None
    }
}

/// Why a word could not be read as a status or a priority.
#[derive(Debug, Clone, PartialEq, Eq)]
pub enum ParseError {
    UnknownStatus(String),
    UnknownPriority(String),
}

impl ParseError {
    /// The text shown for this error.
    pub fn message(&self) -> (r: String)
        ensures
            r@ == match self {
                ParseError::UnknownStatus(w) => "unknown status: "@ + w@,
                ParseError::UnknownPriority(w) => "unknown priority: "@ + w@,
            },
    {
        match self {
            ParseError::UnknownStatus(w) => {
                let mut r = "unknown status: ".to_owned();
                r.append(w.as_str());
                r
            },
            ParseError::UnknownPriority(w) => {
                let mut r = "unknown priority: ".to_owned();
                r.append(w.as_str());
                r
            },
        }
    }
}

impl Status {
    /// The name of this status, as it is shown.
    pub fn as_str(&self) -> (r: &'static str)
        ensures
            r@ == status_name(*self),
    {
        match self {
            Status::Draft => "draft",
            Status::Approved => "approved",
            Status::InProgress => "in-progress",
            Status::Done => "done",
        }
    }

    /// The name of this status, as an owned string.
    pub fn to_string(&self) -> (r: String)
        ensures
            r@ == status_name(*self),
    {
        self.as_str().to_owned()
    }

    /// Reads a status from a word that is already lower case.
    pub fn from_lowercase(t: &str) -> (r: Option<Status>)
        ensures
            r == status_from_lowercase(t@),
    {
        if str_eq(t, "draft") {
            Some(Status::Draft)
        } else if str_eq(t, "approved") {
            Some(Status::Approved)
        } else if str_eq(t, "in-progress") || str_eq(t, "in_progress") || str_eq(t, "inprogress") {
            Some(Status::InProgress)
        } else if str_eq(t, "done") {
            Some(Status::Done)
        } else {
            None
        }
    }

    /// Reads a status, ignoring case; `in_progress` and `inprogress` are
    /// accepted for `in-progress`.
    pub fn from_str(s: &str) -> (r: Result<Status, ParseError>)
        ensures
            match status_from_lowercase(unicode_lowercase(s@)) {
                Some(st) => r == Ok::<Status, ParseError>(st),
                None => r matches Err(ParseError::UnknownStatus(w)) && w@ == s@,
            },
            all_ascii(s@) ==> unicode_lowercase(s@) == ascii_lowered(s@),
    {
        let lower = to_lowercase(s);
        match Status::from_lowercase(lower.as_str()) {
            Some(st) => Ok(st),
            None => Err(ParseError::UnknownStatus(s.to_owned())),
        }
    }
}

/// Reading back the shown name of a status gives that status: the name is
/// ASCII, already lower case, and names that status.
pub proof fn lemma_status_name_round_trip(s: Status)
    ensures
        all_ascii(status_name(s)),
        ascii_lowered(status_name(s)) == status_name(s),
        status_from_lowercase(status_name(s)) == Some(s),
{
    reveal_strlit("draft");
    reveal_strlit("approved");
    reveal_strlit("in-progress");
    reveal_strlit("in_progress");
    reveal_strlit("inprogress");
    reveal_strlit("done");
    assert(ascii_lowered(status_name(s)) =~= status_name(s));
}

/// Reading a status ignores ASCII case: an all-ASCII word and its lower-case
/// form read as the same status (`from_str` lowers an all-ASCII word by the
/// ASCII rule), and the lower-case form is ASCII too.
pub proof fn lemma_status_case_insensitive(w: Seq<char>)
    requires
        all_ascii(w),
    ensures
        all_ascii(ascii_lowered(w)),
        status_from_lowercase(ascii_lowered(ascii_lowered(w))) == status_from_lowercase(
            ascii_lowered(w),
        ),
{
    lemma_ascii_lowered_idempotent(w);
}

/// How urgent a bug is.
#[derive(Debug, Clone, Copy, PartialEq, Eq, Structural)]
pub enum Priority {
    Low,
    Medium,
    High,
}

/// The name under which a priority is shown and stored.
pub open spec fn priority_name(p: Priority) -> Seq<char> {
    match p {
        Priority::Low => "low"@,
        Priority::Medium => "medium"@,
        Priority::High => "high"@,
    }
}

/// The priority that an already lower-cased word names, if any.
pub open spec fn priority_from_lowercase(t: Seq<char>) -> Option<Priority> {
    if t == "low"@ {
        Some(Priority::Low)
    } else if t == "medium"@ || t == "med"@ {
        Some(Priority::Medium)
    } else if t == "high"@ {
        Some(Priority::High)
    } else {
        None
    }
}

impl Default for Priority {
    /// A bug is of medium priority unless told otherwise.
    fn default() -> (r: Priority)
        ensures
            r == Priority::Medium,
    {
        Priority::Medium
    }
}

impl Priority {
    /// The name of this priority, as it is shown.
    pub fn as_str(&self) -> (r: &'static str)
        ensures
            r@ == priority_name(*self),
    {
        match self {
            Priority::Low => "low",
            Priority::Medium => "medium",
            Priority::High => "high",
        }
    }

    /// The name of this priority, as an owned string.
    pub fn to_string(&self) -> (r: String)
        ensures
            r@ == priority_name(*self),
    {
        self.as_str().to_owned()
    }

    /// Reads a priority from a word that is already lower case.
    pub fn from_lowercase(t: &str) -> (r: Option<Priority>)
        ensures
            r == priority_from_lowercase(t@),
    {
        if str_eq(t, "low") {
            Some(Priority::Low)
        } else if str_eq(t, "medium") || str_eq(t, "med") {
            Some(Priority::Medium)
        } else if str_eq(t, "high") {
            Some(Priority::High)
        } else {
            None
        }
    }

    /// Reads a priority, ignoring case; `med` is accepted for `medium`.
    pub fn from_str(s: &str) -> (r: Result<Priority, ParseError>)
        ensures
            match priority_from_lowercase(unicode_lowercase(s@)) {
                Some(p) => r == Ok::<Priority, ParseError>(p),
                None => r matches Err(ParseError::UnknownPriority(w)) && w@ == s@,
            },
            all_ascii(s@) ==> unicode_lowercase(s@) == ascii_lowered(s@),
    {
        let lower = to_lowercase(s);
        match Priority::from_lowercase(lower.as_str()) {
            Some(p) => Ok(p),
            None => Err(ParseError::UnknownPriority(s.to_owned())),
        }
    }
}

/// Reading back the shown name of a priority gives that priority.
pub proof fn lemma_priority_name_round_trip(p: Priority)
    ensures
        all_ascii(priority_name(p)),
        ascii_lowered(priority_name(p)) == priority_name(p),
        priority_from_lowercase(priority_name(p)) == Some(p),
{
    reveal_strlit("low");
    reveal_strlit("medium");
    reveal_strlit("med");
    reveal_strlit("high");
    assert(ascii_lowered(priority_name(p)) =~= priority_name(p));
}

/// Reading a priority ignores ASCII case: an all-ASCII word and its
/// lower-case form read as the same priority, and the lower-case form is ASCII
/// too.
pub proof fn lemma_priority_case_insensitive(w: Seq<char>)
    requires
        all_ascii(w),
    ensures
        all_ascii(ascii_lowered(w)),
        priority_from_lowercase(ascii_lowered(ascii_lowered(w))) == priority_from_lowercase(
            ascii_lowered(w),
        ),
{
    lemma_ascii_lowered_idempotent(w);
}

/// A point in time: whole seconds since the Unix epoch and the nanoseconds
/// past that second.
#[derive(Debug, Clone, Copy, PartialEq, Eq, Structural)]
pub struct Timestamp {
    pub secs: i64,
    pub nanos: u32,
}

/// `a` comes strictly before `b` in time.
pub open spec fn ts_before(a: Timestamp, b: Timestamp) -> bool {
    a.secs < b.secs || (a.secs == b.secs && a.nanos < b.nanos)
}

/// For times whose nanoseconds are under a second, `ts_before` is the order
/// of the instants they denote, counted in nanoseconds since the epoch.
pub proof fn lemma_ts_before_is_time_order(a: Timestamp, b: Timestamp)
    requires
        a.nanos < 1_000_000_000,
        b.nanos < 1_000_000_000,
    ensures
        ts_before(a, b) <==> a.secs * 1_000_000_000 + a.nanos < b.secs * 1_000_000_000 + b.nanos,
{
    if a.secs < b.secs {
        assert(a.secs * 1_000_000_000 + 1_000_000_000 <= b.secs * 1_000_000_000) by (nonlinear_arith)
            requires
                a.secs < b.secs,
        ;
    } else if a.secs > b.secs {
        assert(b.secs * 1_000_000_000 + 1_000_000_000 <= a.secs * 1_000_000_000) by (nonlinear_arith)
            requires
                a.secs > b.secs,
        ;
    }
}

impl Timestamp {
    /// Whether this time comes strictly before `other`.
    pub fn is_before(&self, other: &Timestamp) -> (r: bool)
        ensures
            r == ts_before(*self, *other),
    {
        self.secs < other.secs || (self.secs == other.secs && self.nanos < other.nanos)
    }
}


/// Reads the clock through `chrono::Utc::now`, as whole seconds since the Unix
/// epoch (`timestamp`) and the nanoseconds past them (`timestamp_subsec_nanos`).
/// `Utc::now` builds its value from a `Duration` since the epoch, so the
/// seconds are not negative and the nanoseconds are under one second; of the
/// value itself nothing more is promised, it is the time of the call.
/// (`Utc::now` panics when the system clock reads a time before 1970.)
#[verifier::external_body]
pub(crate) fn utc_now() -> (r: Timestamp)
    ensures
        r.secs >= 0,
        r.nanos < 1_000_000_000,
{
    let now = chrono::Utc::now();
    Timestamp { secs: now.timestamp(), nanos: now.timestamp_subsec_nanos() }
}

/// The text a new bug starts with.
pub const BUG_TEMPLATE: &'static str = "## Goal\n\n<!-- One-sentence description of success -->\n\n## Acceptance Criteria\n\n- [ ] First criterion\n\n## Context\n\n<!-- Background information, constraints, relevant details -->\n\n## Log\n\n<!-- Notes added during implementation -->\n";

/// What the front matter of a bug file records.
#[derive(Debug, Clone)]
pub struct BugMetadata {
    pub id: String,
    pub title: String,
    pub status: Status,
    pub priority: Priority,
    pub created: Timestamp,
    pub changes: Vec<String>,
}

/// A bug: its metadata and the Markdown text below it.
#[derive(Debug, Clone)]
pub struct Bug {
    pub metadata: BugMetadata,
    pub body: String,
}

/// A bug as plain values.
pub struct BugView {
    pub id: Seq<char>,
    pub title: Seq<char>,
    pub status: Status,
    pub priority: Priority,
    pub created: Timestamp,
    pub changes: Seq<Seq<char>>,
    pub body: Seq<char>,
}

/// The characters of each string, in order.
pub open spec fn string_views(v: Seq<String>) -> Seq<Seq<char>> {
    v.map_values(|c: String| c@)
}

impl View for Bug {
    type V = BugView;

    open spec fn view(&self) -> BugView {
        BugView {
            id: self.metadata.id@,
            title: self.metadata.title@,
            status: self.metadata.status,
            priority: self.metadata.priority,
            created: self.metadata.created,
            changes: string_views(self.metadata.changes@),
            body: self.body@,
        }
    }
}

/// The list of linked changes after linking `c`: it is added at the end unless
/// it is there already.
pub open spec fn with_change(changes: Seq<Seq<char>>, c: Seq<char>) -> Seq<Seq<char>> {
    if changes.contains(c) {
        changes
    } else {
        changes.push(c)
    }
}

/// Linking a change twice links it once.
pub proof fn lemma_with_change_idempotent(changes: Seq<Seq<char>>, c: Seq<char>)
    ensures
        with_change(with_change(changes, c), c) == with_change(changes, c),
        with_change(changes, c).contains(c),
{
    if !changes.contains(c) {
        assert(changes.push(c)[changes.len() as int] == c);
    }
}

/// Whether `v` holds a string equal to `s`.
pub fn contains_string(v: &Vec<String>, s: &String) -> (r: bool)
    ensures
        r == string_views(v@).contains(s@),
{
    let mut i: usize = 0;
    while i < v.len()
        invariant
            i <= v.len(),
            forall|k: int| 0 <= k < i ==> v@[k]@ != s@,
        decreases v.len() - i,
    {
        if v[i] == *s {
            assert(string_views(v@)[i as int] == s@);
            return true;
        }
        i = i + 1;
    }
    assert forall|k: int| 0 <= k < string_views(v@).len() implies string_views(v@)[k] != s@ by {
        assert(string_views(v@)[k] == v@[k]@);
    }
    false
}

impl Bug {
    /// A new draft bug created at `created`, with no linked changes and the
    /// body template.
    pub fn new_at(id: String, title: String, priority: Priority, created: Timestamp) -> (r: Bug)
        ensures
            r@ == (BugView {
                id: id@,
                title: title@,
                status: Status::Draft,
                priority,
                created,
                changes: Seq::empty(),
                body: BUG_TEMPLATE@,
            }),
    {
        let r = Bug {
            metadata: BugMetadata {
                id,
                title,
                status: Status::Draft,
                priority,
                created,
                changes: Vec::new(),
            },
            body: BUG_TEMPLATE.to_owned(),
        };
        assert(string_views(r.metadata.changes@) =~= Seq::empty());
        r
    }

    /// A new draft bug created now.
    pub fn new(id: String, title: String, priority: Priority) -> (r: Bug)
        ensures
            r@.id == id@,
            r@.title == title@,
            r@.status == Status::Draft,
            r@.priority == priority,
            r@.changes == Seq::<Seq<char>>::empty(),
            r@.body == BUG_TEMPLATE@,
            r@.created.secs >= 0,
            r@.created.nanos < 1_000_000_000,
    {
        let created = utc_now();
        Bug::new_at(id, title, priority, created)
    }

    /// A bug made of decoded metadata and a body.
    pub fn from_parts(metadata: BugMetadata, body: String) -> (r: Bug)
        ensures
            r.metadata == metadata,
            r.body == body,
    {
        Bug { metadata, body }
    }

    pub fn id(&self) -> (r: &str)
        ensures
            r@ == self@.id,
    {
        self.metadata.id.as_str()
    }

    pub fn title(&self) -> (r: &str)
        ensures
            r@ == self@.title,
    {
        self.metadata.title.as_str()
    }

    pub fn status(&self) -> (r: &Status)
        ensures
            *r == self@.status,
    {
        &self.metadata.status
    }

    pub fn priority(&self) -> (r: &Priority)
        ensures
            *r == self@.priority,
    {
        &self.metadata.priority
    }

    pub fn set_status(&mut self, status: Status)
        ensures
            final(self)@ == (BugView { status, ..old(self)@ }),
    {
        self.metadata.status = status;
    }

    pub fn changes(&self) -> (r: &[String])
        ensures
            string_views(r@) == self@.changes,
    {
        self.metadata.changes.as_slice()
    }

    /// Links a change to this bug, unless it is linked already.
    pub fn add_change(&mut self, change_id: String)
        ensures
            final(self)@ == (BugView {
                changes: with_change(old(self)@.changes, change_id@),
                ..old(self)@
            }),
    {
        if !contains_string(&self.metadata.changes, &change_id) {
            self.metadata.changes.push(change_id);
            proof {
                assert(string_views(self.metadata.changes@) =~= string_views(
                    old(self).metadata.changes@,
                ).push(change_id@));
            }
        }
    }
}


/// The line that opens and closes the front matter of a bug file.
pub open spec fn delimiter() -> Seq<char> {
    seq!['-', '-', '-']
}

/// A bug file cut in two: the YAML front matter and the Markdown body, both
/// trimmed.
#[derive(Debug, Clone)]
pub struct BugFile {
    pub front_matter: String,
    pub body: String,
}

/// How a bug file reads: the text between the first two `---` delimiters is
/// the front matter and what follows the second is the body, each trimmed;
/// with fewer than two delimiters there is no bug file.
pub open spec fn parse_bug_file(content: Seq<char>) -> Option<(Seq<char>, Seq<char>)> {
    let parts = split3(content, delimiter());
    if parts.len() < 3 {
        None
    } else {
        Some((trimmed(parts[1]), trimmed(parts[2])))
    }
}

/// The text of a bug file with this front matter and body.
pub open spec fn bug_file_text(front_matter: Seq<char>, body: Seq<char>) -> Seq<char> {
    seq!['-', '-', '-', '\n'] + front_matter + seq!['-', '-', '-', '\n', '\n'] + body + seq!['\n']
}

/// Why a text is not a bug file.
#[derive(Debug, Clone, Copy, PartialEq, Eq, Structural)]
pub enum BugFileError {
    /// The text lacks the front matter between two `---` delimiters.
    MissingFrontMatter,
}

impl BugFileError {
    /// The text shown for this error.
    pub fn message(&self) -> (r: &'static str)
        ensures
            r@ == "invalid bug file format: expected YAML frontmatter between --- delimiters"@,
    {
        "invalid bug file format: expected YAML frontmatter between --- delimiters"
    }
}

impl Bug {
    /// Cuts the text of a bug file into its front matter and body.
    pub fn parse(content: &str) -> (r: Result<BugFile, BugFileError>)
        ensures
            r is Ok <==> parse_bug_file(content@) is Some,
            r matches Ok(f) ==> parse_bug_file(content@) == Some((f.front_matter@, f.body@)),
            r matches Err(e) ==> e == BugFileError::MissingFrontMatter,
    {
        let c = chars_of(content);
        let n: usize = c.len();
        let d = chars_of("---");
        proof {
            reveal_strlit("---");
            assert(d@ =~= delimiter());
        }
        match find_chars(&c, &d, 0) {
            None => Err(BugFileError::MissingFrontMatter),
            Some(a) => {
                proof {
                    lemma_find_from(c@, d@, 0);
                    assert(occurs_at(c@, d@, a as int));
                }
                match find_chars(&c, &d, a + 3) {
                    None => Err(BugFileError::MissingFrontMatter),
                    Some(b) => {
                        proof {
                            lemma_find_from(c@, d@, a + 3);
                        }
                        let front_matter = trim(content.substring_char(a + 3, b));
                        let body = trim(content.substring_char(b + 3, n));
                        Ok(BugFile { front_matter, body })
                    },
                }
            },
        }
    }

    /// The text of the file that holds this bug, given its metadata rendered
    /// as YAML: the metadata between `---` lines, a blank line, then the body.
    pub fn to_string(&self, front_matter: &str) -> (r: String)
        ensures
            r@ == bug_file_text(front_matter@, self@.body),
    {
        let mut r = "---\n".to_owned();
        r.append(front_matter);
        r.append("---\n\n");
        r.append(self.body.as_str());
        r.append("\n");
        proof {
            reveal_strlit("---\n");
            reveal_strlit("---\n\n");
            reveal_strlit("\n");
            assert(r@ =~= bug_file_text(front_matter@, self@.body));
        }
        r
    }
}


/// Reading back a bug file gives the front matter and body that it was written
/// with, trimmed, provided the front matter holds no `---` and does not end in
/// `-` (else the second delimiter is found inside or against it).
pub proof fn lemma_bug_file_round_trip(front_matter: Seq<char>, body: Seq<char>)
    requires
        !contains_seq(front_matter, delimiter()),
        front_matter.len() == 0 || front_matter.last() != '-',
    ensures
        parse_bug_file(bug_file_text(front_matter, body)) == Some(
            (trimmed(front_matter), trimmed(body)),
        ),
{
    let t = bug_file_text(front_matter, body);
    let d = delimiter();
    let m: int = front_matter.len() as int;
    assert(t.subrange(0, 3) =~= d);
    lemma_find_from_first(t, d, 0, 0);
    assert(t.subrange(m + 4, m + 7) =~= d);
    assert forall|k: int| 3 <= k < m + 4 implies !occurs_at(t, d, k) by {
        if occurs_at(t, d, k) {
            assert(t.subrange(k, k + 3)[0] == t[k]);
            assert(t.subrange(k, k + 3)[1] == t[k + 1]);
            assert(t.subrange(k, k + 3)[2] == t[k + 2]);
            if k == 3 {
                assert(t[3] == '\n');
            } else if k + 3 <= m + 4 {
                assert(front_matter.subrange(k - 4, k - 1) =~= t.subrange(k, k + 3));
                assert(occurs_at(front_matter, d, k - 4));
            } else {
                assert(t[m + 3] == front_matter.last());
            }
        }
    }
    lemma_find_from_first(t, d, 3, m + 4);
    let parts = split3(t, d);
    assert(parts[1] =~= seq!['\n'] + front_matter);
    assert(parts[2] =~= seq!['\n'] + (seq!['\n'] + body + seq!['\n']));
    lemma_trimmed_ws_prefix('\n', front_matter);
    lemma_trimmed_ws_prefix('\n', seq!['\n'] + body + seq!['\n']);
    assert(seq!['\n'] + body + seq!['\n'] =~= seq!['\n'] + (body + seq!['\n']));
    lemma_trimmed_ws_prefix('\n', body + seq!['\n']);
    lemma_trimmed_ws_suffix(body, '\n');
}

} // verus!
