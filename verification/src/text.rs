//! Character-level text operations on which the file formats rest.
use vstd::prelude::*;

verus! {

broadcast use vstd::string::group_string_axioms;

/// The characters of a string slice, in order.
pub fn chars_of(s: &str) -> (r: Vec<char>)
    ensures
        r@ == s@,
{
    let mut r: Vec<char> = Vec::new();
    for c in it: s.chars()
        invariant
            r@ == it.seq().take(it.index()),
    {
        r.push(c);
    }
    r
}


/// Whether `c` has the Unicode `White_Space` property, which is what
/// `str::trim` strips.
pub open spec fn is_white_space(c: char) -> bool {
    let u: u32 = c as u32;
    ||| 0x09 <= u <= 0x0d
    ||| u == 0x20
    ||| u == 0x85
    ||| u == 0xa0
    ||| u == 0x1680
    ||| 0x2000 <= u <= 0x200a
    ||| u == 0x2028
    ||| u == 0x2029
    ||| u == 0x202f
    ||| u == 0x205f
    ||| u == 0x3000
}

/// Decides `is_white_space`.
pub fn white_space(c: char) -> (r: bool)
    ensures
        r == is_white_space(c),
{
    let u: u32 = c as u32;
    (0x09 <= u && u <= 0x0d) || u == 0x20 || u == 0x85 || u == 0xa0 || u == 0x1680 || (0x2000
        <= u && u <= 0x200a) || u == 0x2028 || u == 0x2029 || u == 0x202f || u == 0x205f || u
        == 0x3000
}

/// The number of white-space characters at the front of `s`.
pub open spec fn leading_ws(s: Seq<char>) -> nat
    decreases s.len(),
{
    if s.len() > 0 && is_white_space(s[0]) {
        1 + leading_ws(s.drop_first())
    } else {
        0
    }
}

/// The number of white-space characters at the back of `s`.
pub open spec fn trailing_ws(s: Seq<char>) -> nat
    decreases s.len(),
{
    if s.len() > 0 && is_white_space(s.last()) {
        1 + trailing_ws(s.drop_last())
    } else {
        0
    }
}

/// `s` without its leading and trailing white space (what `str::trim` gives).
pub open spec fn trimmed(s: Seq<char>) -> Seq<char> {
    let t = s.skip(leading_ws(s) as int);
    t.take(t.len() - trailing_ws(t))
}

pub proof fn lemma_leading_ws_bound(s: Seq<char>)
    ensures
        leading_ws(s) <= s.len(),
        forall|k: int| 0 <= k < leading_ws(s) ==> is_white_space(#[trigger] s[k]),
        leading_ws(s) < s.len() ==> !is_white_space(s[leading_ws(s) as int]),
    decreases s.len(),
{
    if s.len() > 0 && is_white_space(s[0]) {
        lemma_leading_ws_bound(s.drop_first());
        assert forall|k: int| 0 <= k < leading_ws(s) implies is_white_space(#[trigger] s[k]) by {
            if k > 0 {
                assert(s[k] == s.drop_first()[k - 1]);
            }
        }
    }
}

pub proof fn lemma_trailing_ws_bound(s: Seq<char>)
    ensures
        trailing_ws(s) <= s.len(),
        forall|k: int| s.len() - trailing_ws(s) <= k < s.len() ==> is_white_space(#[trigger] s[k]),
        trailing_ws(s) < s.len() ==> !is_white_space(s[s.len() - trailing_ws(s) - 1]),
    decreases s.len(),
{
    if s.len() > 0 && is_white_space(s.last()) {
        lemma_trailing_ws_bound(s.drop_last());
        assert forall|k: int| s.len() - trailing_ws(s) <= k < s.len() implies is_white_space(
            #[trigger] s[k],
        ) by {
            if k < s.len() - 1 {
                assert(s[k] == s.drop_last()[k]);
            }
        }
    }
}

/// The leading white space of a concatenation.
pub proof fn lemma_leading_ws_concat(x: Seq<char>, y: Seq<char>)
    ensures
        leading_ws(x) == x.len() ==> leading_ws(x + y) == x.len() + leading_ws(y),
        leading_ws(x) < x.len() ==> leading_ws(x + y) == leading_ws(x),
    decreases x.len(),
{
    lemma_leading_ws_bound(x);
    if x.len() == 0 {
        assert(x + y =~= y);
    } else {
        assert((x + y)[0] == x[0]);
        if is_white_space(x[0]) {
            assert((x + y).drop_first() =~= x.drop_first() + y);
            lemma_leading_ws_concat(x.drop_first(), y);
        }
    }
}

/// White space in front does not change the trimmed text.
pub proof fn lemma_trimmed_ws_prefix(c: char, x: Seq<char>)
    requires
        is_white_space(c),
    ensures
        trimmed(seq![c] + x) == trimmed(x),
{
    let s = seq![c] + x;
    assert(s[0] == c);
    assert(s.drop_first() =~= x);
    assert(leading_ws(s) == 1 + leading_ws(x));
    lemma_leading_ws_bound(x);
    assert(s.skip(leading_ws(s) as int) =~= x.skip(leading_ws(x) as int));
}

/// White space at the back does not change the trimmed text.
pub proof fn lemma_trimmed_ws_suffix(x: Seq<char>, c: char)
    requires
        is_white_space(c),
    ensures
        trimmed(x + seq![c]) == trimmed(x),
{
    let s = x + seq![c];
    lemma_leading_ws_bound(x);
    lemma_leading_ws_concat(x, seq![c]);
    let l = leading_ws(x) as int;
    if l == x.len() {
        assert(seq![c][0] == c);
        assert(seq![c].drop_first() =~= Seq::<char>::empty());
        assert(leading_ws(Seq::<char>::empty()) == 0);
        assert(leading_ws(seq![c]) == 1);
        assert(s.skip(leading_ws(s) as int) =~= Seq::<char>::empty());
        assert(x.skip(l) =~= Seq::<char>::empty());
        assert(trimmed(s) =~= trimmed(x));
    } else {
        let u = x.skip(l);
        let t = s.skip(l);
        assert(t =~= u + seq![c]);
        assert(t.last() == c);
        assert(t.drop_last() =~= u);
        assert(trailing_ws(t) == 1 + trailing_ws(u));
        lemma_trailing_ws_bound(u);
        assert(t.take(t.len() - trailing_ws(t)) =~= u.take(u.len() - trailing_ws(u)));
    }
}

/// Trimming keeps a character at either end that is none of the Unicode
/// `White_Space` code points (U+0009..U+000D, U+0020, U+0085, U+00A0,
/// U+1680, U+2000..U+200A, U+2028, U+2029, U+202F, U+205F, U+3000): the
/// trimmed text then starts, or ends, with it.
pub proof fn lemma_trim_keeps_other_ends(x: Seq<char>, c: char)
    requires
        !({
            let u = c as u32;
            ||| 0x09 <= u <= 0x0d
            ||| u == 0x20 || u == 0x85 || u == 0xa0 || u == 0x1680
            ||| 0x2000 <= u <= 0x200a
            ||| u == 0x2028 || u == 0x2029 || u == 0x202f || u == 0x205f || u == 0x3000
        }),
    ensures
        trimmed(x + seq![c]).len() > 0,
        trimmed(x + seq![c]).last() == c,
        trimmed(seq![c] + x).len() > 0,
        trimmed(seq![c] + x)[0] == c,
{
    assert(!is_white_space(c));
    // at the back
    let s = x + seq![c];
    lemma_leading_ws_bound(x);
    lemma_leading_ws_concat(x, seq![c]);
    assert(seq![c][0] == c);
    assert(leading_ws(seq![c]) == 0);
    let l = leading_ws(s) as int;
    let t = s.skip(l);
    assert(t.len() > 0 && t.last() == c);
    assert(trailing_ws(t) == 0);
    assert(trimmed(s) =~= t);
    // at the front
    let p = seq![c] + x;
    assert(p[0] == c);
    assert(leading_ws(p) == 0);
    assert(p.skip(0) =~= p);
    lemma_trailing_ws_bound(p);
    if trailing_ws(p) == p.len() {
        assert(is_white_space(p[0]));
    }
    assert(trimmed(p)[0] == p[0]);
}

/// Trimming drops a Unicode `White_Space` code point at either end: with one
/// added in front or at the back, the text trims as it did without it.
pub proof fn lemma_trim_drops_white_space_ends(x: Seq<char>, c: char)
    requires
        ({
            let u = c as u32;
            ||| 0x09 <= u <= 0x0d
            ||| u == 0x20 || u == 0x85 || u == 0xa0 || u == 0x1680
            ||| 0x2000 <= u <= 0x200a
            ||| u == 0x2028 || u == 0x2029 || u == 0x202f || u == 0x205f || u == 0x3000
        }),
    ensures
        trimmed(x + seq![c]) == trimmed(x),
        trimmed(seq![c] + x) == trimmed(x),
{
    lemma_trimmed_ws_prefix(c, x);
    lemma_trimmed_ws_suffix(x, c);
}

/// `find_from` stops at an occurrence with none before it.
pub proof fn lemma_find_from_first(s: Seq<char>, pat: Seq<char>, from: int, j: int)
    requires
        0 <= from <= j,
        occurs_at(s, pat, j),
        forall|k: int| from <= k < j ==> !occurs_at(s, pat, k),
    ensures
        find_from(s, pat, from) == Some(j),
    decreases j - from,
{
    if from < j {
        lemma_find_from_first(s, pat, from + 1, j);
    }
}

/// A counted prefix of white space is exactly `leading_ws`.
proof fn lemma_leading_ws_exact(s: Seq<char>, n: int)
    requires
        0 <= n <= s.len(),
        forall|k: int| 0 <= k < n ==> is_white_space(#[trigger] s[k]),
        n == s.len() || !is_white_space(s[n]),
    ensures
        leading_ws(s) == n,
    decreases s.len(),
{
    if n > 0 {
        assert(is_white_space(s[0]));
        assert forall|k: int| 0 <= k < n - 1 implies is_white_space(#[trigger] s.drop_first()[k]) by {
            assert(s.drop_first()[k] == s[k + 1]);
        }
        if n < s.len() {
            assert(s.drop_first()[n - 1] == s[n]);
        }
        lemma_leading_ws_exact(s.drop_first(), n - 1);
    }
}

/// A counted suffix of white space is exactly `trailing_ws`.
proof fn lemma_trailing_ws_exact(s: Seq<char>, n: int)
    requires
        0 <= n <= s.len(),
        forall|k: int| s.len() - n <= k < s.len() ==> is_white_space(#[trigger] s[k]),
        n == s.len() || !is_white_space(s[s.len() - n - 1]),
    ensures
        trailing_ws(s) == n,
    decreases s.len(),
{
    if n > 0 {
        assert(is_white_space(s[s.len() - 1]));
        assert forall|k: int| s.len() - 1 - (n - 1) <= k < s.len() - 1 implies is_white_space(
            #[trigger] s.drop_last()[k],
        ) by {
            assert(s.drop_last()[k] == s[k]);
        }
        if n < s.len() {
            assert(s.drop_last()[s.len() - 1 - (n - 1) - 1] == s[s.len() - n - 1]);
        }
        lemma_trailing_ws_exact(s.drop_last(), n - 1);
    }
}

/// The bounds of `trimmed(s)` inside `s`, computed on its characters.
fn trim_bounds(c: &Vec<char>) -> (r: (usize, usize))
    ensures
        r.0 <= r.1 <= c.len(),
        c@.subrange(r.0 as int, r.1 as int) == trimmed(c@),
{
    let n: usize = c.len();
    let mut i: usize = 0;
    while i < n && white_space(c[i])
        invariant
            i <= n == c.len(),
            forall|k: int| 0 <= k < i ==> is_white_space(#[trigger] c@[k]),
        decreases n - i,
    {
        i = i + 1;
    }
    proof {
        lemma_leading_ws_exact(c@, i as int);
    }
    let mut j: usize = n;
    while j > i && white_space(c[j - 1])
        invariant
            i <= j <= n == c.len(),
            forall|k: int| j <= k < n ==> is_white_space(#[trigger] c@[k]),
        decreases j,
    {
        j = j - 1;
    }
    proof {
        let t = c@.skip(i as int);
        assert forall|k: int| t.len() - (n - j) <= k < t.len() implies is_white_space(
            #[trigger] t[k],
        ) by {
            assert(t[k] == c@[k + i]);
        }
        if j > i {
            assert(t[t.len() - (n - j) - 1] == c@[j - 1]);
        }
        lemma_trailing_ws_exact(t, (n - j) as int);
        assert(c@.subrange(i as int, j as int) =~= t.take(t.len() - trailing_ws(t)));
    }
    (i, j)
}

/// `str::trim`, returned as an owned string.
pub fn trim(s: &str) -> (r: String)
    ensures
        r@ == trimmed(s@),
{
    let c = chars_of(s);
    let (i, j) = trim_bounds(&c);
    s.substring_char(i, j).to_owned()
}


/// `pat` occurs in `s` starting at index `i`.
pub open spec fn occurs_at(s: Seq<char>, pat: Seq<char>, i: int) -> bool {
    0 <= i && i + pat.len() <= s.len() && s.subrange(i, i + pat.len()) == pat
}

/// The first index at or after `from` where `pat` occurs in `s`.
pub open spec fn find_from(s: Seq<char>, pat: Seq<char>, from: int) -> Option<int>
    decreases s.len() + 1 - from,
{
    if from < 0 || from + pat.len() > s.len() {
        None
    } else if occurs_at(s, pat, from) {
        Some(from)
    } else {
        find_from(s, pat, from + 1)
    }
}

/// `pat` occurs somewhere in `s` (what `str::contains` answers).
pub open spec fn contains_seq(s: Seq<char>, pat: Seq<char>) -> bool {
    exists|i: int| occurs_at(s, pat, i)
}

/// `find_from` gives the first occurrence at or after `from`.
pub proof fn lemma_find_from(s: Seq<char>, pat: Seq<char>, from: int)
    requires
        0 <= from,
    ensures
        find_from(s, pat, from) matches Some(i) ==> from <= i && occurs_at(s, pat, i) && forall|
            k: int,
        | from <= k < i ==> !occurs_at(s, pat, k),
        find_from(s, pat, from) is None ==> forall|k: int| from <= k ==> !occurs_at(s, pat, k),
    decreases s.len() + 1 - from,
{
    if from + pat.len() <= s.len() && !occurs_at(s, pat, from) {
        lemma_find_from(s, pat, from + 1);
        assert forall|k: int| from <= k < from + 1 implies !occurs_at(s, pat, k) by {}
    }
}

/// Whether `pat` occurs at index `i` of `s`, decided on characters.
fn matches_at(s: &Vec<char>, pat: &Vec<char>, i: usize) -> (r: bool)
    requires
        i + pat.len() <= s.len(),
    ensures
        r == occurs_at(s@, pat@, i as int),
{
    let mut k: usize = 0;
    while k < pat.len()
        invariant
            k <= pat.len(),
            i + pat.len() <= s.len(),
            forall|m: int| 0 <= m < k ==> s@[i + m] == pat@[m],
        decreases pat.len() - k,
    {
        if s[i + k] != pat[k] {
            assert(s@.subrange(i as int, i + pat.len())[k as int] != pat@[k as int]);
            return false;
        }
        k = k + 1;
    }
    assert(s@.subrange(i as int, i + pat.len()) =~= pat@);
    true
}

/// The first occurrence of `pat` in `s` at or after `from`.
pub fn find_chars(s: &Vec<char>, pat: &Vec<char>, from: usize) -> (r: Option<usize>)
    ensures
        r matches Some(i) ==> find_from(s@, pat@, from as int) == Some(i as int),
        r is None ==> find_from(s@, pat@, from as int) is None,
{
    if from > s.len() || pat.len() > s.len() - from {
        return None;
    }
    if pat.len() == 0 {
        assert(s@.subrange(from as int, from as int) =~= pat@);
        return Some(from);
    }
    let last: usize = s.len() - pat.len();
    let mut i: usize = from;
    while i <= last
        invariant
            from <= i,
            last + pat.len() == s.len(),
            pat.len() > 0,
            find_from(s@, pat@, from as int) == find_from(s@, pat@, i as int),
        decreases last + 1 - i,
    {
        if matches_at(s, pat, i) {
            return Some(i);
        }
        i = i + 1;
    }
    None
}

/// `str::contains` with a string pattern.
pub fn contains_str(s: &str, pat: &str) -> (r: bool)
    ensures
        r == contains_seq(s@, pat@),
{
    let c = chars_of(s);
    let p = chars_of(pat);
    let r = find_chars(&c, &p, 0);
    proof {
        lemma_find_from(s@, pat@, 0);
        if r is None {
            assert forall|i: int| !occurs_at(s@, pat@, i) by {
                if i >= 0 {
                }
            }
        }
    }
    r.is_some()
}

/// The pieces of `s` that `str::splitn(3, pat)` yields.
pub open spec fn split3(s: Seq<char>, pat: Seq<char>) -> Seq<Seq<char>> {
    match find_from(s, pat, 0) {
        None => seq![s],
        Some(a) => match find_from(s, pat, a + pat.len()) {
            None => seq![s.subrange(0, a), s.subrange(a + pat.len(), s.len() as int)],
            Some(b) => seq![
                s.subrange(0, a),
                s.subrange(a + pat.len(), b),
                s.subrange(b + pat.len(), s.len() as int),
            ],
        },
    }
}


/// What `str::to_lowercase` returns for a string with these characters.
pub uninterp spec fn unicode_lowercase(s: Seq<char>) -> Seq<char>;

/// The ASCII lower-case form of one character.
pub open spec fn ascii_lower_char(c: char) -> char {
    if 65 <= (c as u32) <= 90 {
        ((c as u32) + 32) as char
    } else {
        c
    }
}

/// `s` with each character lowered by the ASCII rule.
pub open spec fn ascii_lowered(s: Seq<char>) -> Seq<char> {
    s.map_values(|c: char| ascii_lower_char(c))
}

/// Every character of `s` is ASCII.
pub open spec fn all_ascii(s: Seq<char>) -> bool {
    forall|i: int| 0 <= i < s.len() ==> (#[trigger] s[i] as u32) < 128
}

/// Lowering ASCII text keeps it ASCII, and lowering it again changes nothing.
pub proof fn lemma_ascii_lowered_idempotent(s: Seq<char>)
    requires
        all_ascii(s),
    ensures
        all_ascii(ascii_lowered(s)),
        ascii_lowered(ascii_lowered(s)) == ascii_lowered(s),
{
    assert(ascii_lowered(ascii_lowered(s)) =~= ascii_lowered(s));
}

/// Calls `str::to_lowercase`. Its result is named `unicode_lowercase` of the
/// argument; for an all-ASCII argument the contract also says that each
/// character is lowered by the ASCII rule ('A'..='Z' to 'a'..='z', others kept),
/// which is what Unicode's lower-case mapping does on that range.
#[verifier::external_body]
pub(crate) fn to_lowercase(s: &str) -> (r: String)
    ensures
        r@ == unicode_lowercase(s@),
        all_ascii(s@) ==> r@ == ascii_lowered(s@),
{
    s.to_lowercase()
}

/// Whether two string slices hold the same characters.
pub fn str_eq(a: &str, b: &str) -> (r: bool)
    ensures
        r == (a@ == b@),
{
    a.to_owned() == b.to_owned()
}

} // verus!
