//! Which stream a search targets: a lexical split of the query text.
use vstd::prelude::*;

verus! {

/// Unicode white space, as `char::is_whitespace` decides it.
pub open spec fn is_space(c: char) -> bool {
    ('\u{9}' <= c && c <= '\u{d}') || c == ' ' || c == '\u{85}' || c == '\u{a0}' || c == '\u{1680}'
        || ('\u{2000}' <= c && c <= '\u{200a}') || c == '\u{2028}' || c == '\u{2029}' || c
        == '\u{202f}' || c == '\u{205f}' || c == '\u{3000}'
}

/// Whether `c` is white space.
pub fn space(c: char) -> (r: bool)
    ensures
        r == is_space(c),
{
    ('\u{9}' <= c && c <= '\u{d}') || c == ' ' || c == '\u{85}' || c == '\u{a0}' || c == '\u{1680}'
        || ('\u{2000}' <= c && c <= '\u{200a}') || c == '\u{2028}' || c == '\u{2029}' || c
        == '\u{202f}' || c == '\u{205f}' || c == '\u{3000}'
}

/// `s` with leading white space removed.
pub open spec fn trim_start(s: Seq<char>) -> Seq<char>
    decreases s.len(),
{
    if s.len() > 0 && is_space(s[0]) {
        trim_start(s.drop_first())
    } else {
        s
    }
}

/// `s` with trailing white space removed.
pub open spec fn trim_end(s: Seq<char>) -> Seq<char>
    decreases s.len(),
{
    if s.len() > 0 && is_space(s.last()) {
        trim_end(s.drop_last())
    } else {
        s
    }
}

/// `s` with white space removed at both ends.
pub open spec fn trim(s: Seq<char>) -> Seq<char> {
    trim_end(trim_start(s))
}

/// `p` occurs in `s` at `i`.
pub open spec fn occurs_at(s: Seq<char>, p: Seq<char>, i: int) -> bool {
    0 <= i && i + p.len() <= s.len() && s.subrange(i, i + p.len()) == p
}

/// The first position at or after `i` where `p` occurs in `s`, or -1.
pub open spec fn find_from(s: Seq<char>, p: Seq<char>, i: int) -> int
    decreases s.len() + 1 - i,
{
    if i < 0 || i + p.len() > s.len() {
        -1
    } else if occurs_at(s, p, i) {
        i
    } else {
        find_from(s, p, i + 1)
    }
}

/// The text between the first `from ` and the next one, or the end; empty
/// where `from ` does not occur.
pub open spec fn after_from(s: Seq<char>) -> Seq<char> {
    let f = find_from(s, "from "@, 0);
    if f < 0 {
        Seq::empty()
    } else {
        let start = f + "from "@.len();
        let end = find_from(s, "from "@, start);
        if end < 0 {
            s.subrange(start, s.len() as int)
        } else {
            s.subrange(start, end)
        }
    }
}

/// The text before the first `where`, or all of `s`.
pub open spec fn before_where(s: Seq<char>) -> Seq<char> {
    let w = find_from(s, "where"@, 0);
    if w < 0 {
        s
    } else {
        s.subrange(0, w)
    }
}

/// The stream name that an already lower-cased query targets.
pub open spec fn target_of(lowered: Seq<char>) -> Seq<char> {
    trim(before_where(trim(after_from(lowered))))
}

/// Whether the text of `a` equals that of `b`.
pub fn same_text(a: &str, b: &str) -> (r: bool)
    ensures
        r == (a@ == b@),
{
    let n = a.unicode_len();
    if n != b.unicode_len() {
        return false;
    }
    let mut i: usize = 0;
    while i < n
        invariant
            n == a@.len(),
            n == b@.len(),
            i <= n,
            a@.subrange(0, i as int) == b@.subrange(0, i as int),
        decreases n - i,
    {
        if a.get_char(i) != b.get_char(i) {
            assert(a@[i as int] != b@[i as int]);
            return false;
        }
        assert(a@.subrange(0, i + 1) =~= a@.subrange(0, i as int).push(a@[i as int]));
        assert(b@.subrange(0, i + 1) =~= b@.subrange(0, i as int).push(b@[i as int]));
        i = i + 1;
    }
    assert(a@ =~= a@.subrange(0, n as int));
    assert(b@ =~= b@.subrange(0, n as int));
    true
}

/// The lower-case form of `s`.
pub uninterp spec fn lower_of(s: Seq<char>) -> Seq<char>;

/// Relies on `str::to_lowercase`: the result depends on the characters alone,
/// and the empty text stays empty.
#[verifier::external_body]
fn lowercase(s: &str) -> (r: String)
    ensures
        r@ == lower_of(s@),
        s@.len() == 0 ==> r@.len() == 0,
{
    s.to_lowercase()
}

/// The text of `s` from `from` to `to`, as a new string.
fn slice(s: &str, from: usize, to: usize) -> (r: String)
    requires
        from <= to <= s@.len(),
    ensures
        r@ == s@.subrange(from as int, to as int),
{
    String::from_str(s.substring_char(from, to))
}

/// The first position at or after `start` where `p` occurs in `s`, or `None`.
pub fn find(s: &str, p: &str, start: usize) -> (r: Option<usize>)
    requires
        start <= s@.len(),
    ensures
        r matches Some(i) ==> start <= i && i == find_from(s@, p@, start as int) && occurs_at(
            s@,
            p@,
            i as int,
        ),
        r is None ==> find_from(s@, p@, start as int) == -1,
{
    let n = s.unicode_len();
    let m = p.unicode_len();
    let mut i: usize = start;
    while i <= n && m <= n - i
        invariant
            n == s@.len(),
            m == p@.len(),
            start <= i,
            find_from(s@, p@, start as int) == find_from(s@, p@, i as int),
        decreases n - i,
    {
        let mut j: usize = 0;
        let mut same = true;
        while j < m && same
            invariant
                n == s@.len(),
                m == p@.len(),
                i + m <= n,
                j <= m,
                forall|k: int| 0 <= k < j ==> s@[i + k] == p@[k],
                !same ==> j < m && s@[i + j] != p@[j as int],
            decreases m - j + if same { 1int } else { 0int },
        {
            if s.get_char(i + j) != p.get_char(j) {
                same = false;
            } else {
                j = j + 1;
            }
        }
        if same {
            assert(s@.subrange(i as int, i + m) =~= p@);
            return Some(i);
        }
        assert(!occurs_at(s@, p@, i as int)) by {
            if occurs_at(s@, p@, i as int) {
                assert(s@.subrange(i as int, i + m)[j as int] == p@[j as int]);
            }
        }
        i = i + 1;
    }
    None
}

proof fn lemma_trim_start_step(s: Seq<char>, i: int)
    requires
        0 <= i < s.len(),
        is_space(s[i]),
    ensures
        trim_start(s.subrange(i, s.len() as int)) == trim_start(s.subrange(i + 1, s.len() as int)),
{
    assert(s.subrange(i, s.len() as int).drop_first() =~= s.subrange(i + 1, s.len() as int));
}

proof fn lemma_trim_end_step(s: Seq<char>, j: int)
    requires
        0 < j <= s.len(),
        is_space(s[j - 1]),
    ensures
        trim_end(s.subrange(0, j)) == trim_end(s.subrange(0, j - 1)),
{
    assert(s.subrange(0, j).drop_last() =~= s.subrange(0, j - 1));
}

/// `s` with white space removed at both ends.
pub fn trimmed(s: &str) -> (r: String)
    ensures
        r@ == trim(s@),
{
    let n = s.unicode_len();
    assert(s@.subrange(0, n as int) =~= s@);
    let mut a: usize = 0;
    while a < n && space(s.get_char(a))
        invariant
            n == s@.len(),
            a <= n,
            trim_start(s@) == trim_start(s@.subrange(a as int, n as int)),
        decreases n - a,
    {
        proof {
            lemma_trim_start_step(s@, a as int);
        }
        a = a + 1;
    }
    let t = s.substring_char(a, n);
    assert(trim_start(t@) == t@);
    assert(t@ =~= s@.subrange(a as int, n as int));
    let mut b: usize = t.unicode_len();
    assert(t@.subrange(0, b as int) =~= t@);
    while b > 0 && space(t.get_char(b - 1))
        invariant
            b <= t@.len(),
            trim_end(t@) == trim_end(t@.subrange(0, b as int)),
        decreases b,
    {
        proof {
            lemma_trim_end_step(t@, b as int);
        }
        b = b - 1;
    }
    assert(t@.subrange(0, t@.len() as int) =~= t@);
    let r = slice(t, 0, b);
    assert(trim_end(r@) == r@);
    r
}

/// The stream name that the lower-cased query text `lowered` targets: the
/// text between `from ` and the next `where`, trimmed.
pub fn target_of_lowered(lowered: &str) -> (r: String)
    ensures
        r@ == target_of(lowered@),
{
    let from_kw = "from ";
    let n = lowered.unicode_len();
    let tail = match find(lowered, from_kw, 0) {
        None => String::new(),
        Some(f) => {
            let start = f + from_kw.unicode_len();
            match find(lowered, from_kw, start) {
                None => slice(lowered, start, n),
                Some(e) => {
                    proof {
                        let s = lowered@;
                        assert(e as int == find_from(s, from_kw@, start as int));
                    }
                    slice(lowered, start, e)
                },
            }
        },
    };
    let table = trimmed(tail.as_str());
    let name = match find(table.as_str(), "where", 0) {
        None => table,
        Some(w) => slice(table.as_str(), 0, w),
    };
    trimmed(name.as_str())
}

/// A search: the query text as given, which the workers run, and the stream
/// name it targets.
pub struct SearchTarget {
    pub query: String,
    pub pattern: String,
}

/// Extracts the stream name that the query text targets, from its lower-case
/// form; the query itself is handed on unchanged.
pub fn search_target(query: &str) -> (r: SearchTarget)
    ensures
        r.query@ == query@,
        r.pattern@ == target_of(lower_of(query@)),
{
    let lowered = lowercase(query);
    let pattern = target_of_lowered(lowered.as_str());
    SearchTarget { query: String::from_str(query), pattern }
}

} // verus!
