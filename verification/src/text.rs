//! Character-level text helpers: trimming raw lines and substring search.

use vstd::prelude::*;
use vstd::string::StrSliceExecFns;
use vstd::string::StringExecFns;

verus! {

/// Whitespace stripped from the ends of a raw line.
pub open spec fn is_ws(c: char) -> bool {
    c == ' ' || c == '\t' || c == '\r' || c == '\n'
}

pub open spec fn drop_leading_ws(s: Seq<char>) -> Seq<char>
    decreases s.len(),
{
    if s.len() > 0 && is_ws(s[0]) {
        drop_leading_ws(s.skip(1))
    } else {
        s
    }
}

pub open spec fn drop_trailing_ws(s: Seq<char>) -> Seq<char>
    decreases s.len(),
{
    if s.len() > 0 && is_ws(s.last()) {
        drop_trailing_ws(s.drop_last())
    } else {
        s
    }
}

/// The line with leading and trailing whitespace removed.
pub open spec fn trimmed_view(s: Seq<char>) -> Seq<char> {
    drop_trailing_ws(drop_leading_ws(s))
}

proof fn lemma_drop_leading(s: Seq<char>, i: int)
    requires
        0 <= i <= s.len(),
        forall|j: int| 0 <= j < i ==> is_ws(s[j]),
        i == s.len() || !is_ws(s[i]),
    ensures
        drop_leading_ws(s) =~= s.skip(i),
    decreases i,
{
    if i == 0 {
        assert(s.skip(0) =~= s);
    } else {
        assert(is_ws(s[0]));
        lemma_drop_leading(s.skip(1), i - 1);
        assert(s.skip(1).skip(i - 1) =~= s.skip(i));
    }
}

proof fn lemma_drop_trailing(s: Seq<char>, k: int)
    requires
        0 <= k <= s.len(),
        forall|j: int| k <= j < s.len() ==> is_ws(s[j]),
        k == 0 || !is_ws(s[k - 1]),
    ensures
        drop_trailing_ws(s) =~= s.take(k),
    decreases s.len() - k,
{
    if k == s.len() {
        assert(s.take(k) =~= s);
    } else {
        assert(is_ws(s.last()));
        lemma_drop_trailing(s.drop_last(), k);
        assert(s.drop_last().take(k) =~= s.take(k));
    }
}

/// Strip leading and trailing whitespace from a raw line.
pub fn trim_line(s: &str) -> (r: String)
    ensures
        r@ =~= trimmed_view(s@),
{
    let len = s.unicode_len();
    let mut start: usize = 0;
    while start < len && is_ws_exec(s.get_char(start))
        invariant
            len == s@.len(),
            start <= len,
            forall|j: int| 0 <= j < start ==> is_ws(s@[j]),
        decreases len - start,
    {
        start = start + 1;
    }
    let mut end: usize = len;
    while end > start && is_ws_exec(s.get_char(end - 1))
        invariant
            len == s@.len(),
            start <= end <= len,
            forall|j: int| end <= j < len ==> is_ws(s@[j]),
        decreases end,
    {
        end = end - 1;
    }
    let out = s.substring_char(start, end);
    proof {
        lemma_drop_leading(s@, start as int);
        let t = s@.skip(start as int);
        lemma_drop_trailing(t, end - start);
        assert(t.take(end - start) =~= s@.subrange(start as int, end as int));
    }
    String::from_str(out)
}

fn is_ws_exec(c: char) -> (r: bool)
    ensures
        r == is_ws(c),
{
    c == ' ' || c == '\t' || c == '\r' || c == '\n'
}

/// `needle` occurs as a contiguous substring of `hay` starting at `k`.
pub open spec fn matches_at(hay: Seq<char>, needle: Seq<char>, k: int) -> bool {
    0 <= k <= hay.len() - needle.len() && hay.subrange(k, k + needle.len()) =~= needle
}

fn match_at(hay: &str, needle: &str, k: usize, hay_len: usize, needle_len: usize) -> (r: bool)
    requires
        hay_len == hay@.len(),
        needle_len == needle@.len(),
        k + needle_len <= hay_len,
    ensures
        r == matches_at(hay@, needle@, k as int),
{
    let mut j: usize = 0;
    while j < needle_len
        invariant
            hay_len == hay@.len(),
            needle_len == needle@.len(),
            k + needle_len <= hay_len,
            j <= needle_len,
            forall|m: int| 0 <= m < j ==> hay@[k + m] == needle@[m],
        decreases needle_len - j,
    {
        if hay.get_char(k + j) != needle.get_char(j) {
            proof {
                assert(hay@.subrange(k as int, k + needle@.len())[j as int] == hay@[k + j]);
            }
            return false;
        }
        j = j + 1;
    }
    proof {
        assert(hay@.subrange(k as int, k + needle@.len()) =~= needle@);
    }
    true
}

/// Whether `needle` occurs anywhere in `hay`.
pub fn contains_str(hay: &str, needle: &str) -> (r: bool)
    ensures
        r == crate::queue::contains_seq(hay@, needle@),
{
    let hay_len = hay.unicode_len();
    let needle_len = needle.unicode_len();
    if needle_len > hay_len {
        return false;
    }
    let mut k: usize = 0;
    while k <= hay_len - needle_len
        invariant
            hay_len == hay@.len(),
            needle_len == needle@.len(),
            needle_len <= hay_len,
            k <= hay_len - needle_len + 1,
            forall|m: int| 0 <= m < k ==> !matches_at(hay@, needle@, m),
        decreases hay_len - needle_len + 1 - k,
    {
        if match_at(hay, needle, k, hay_len, needle_len) {
            proof {
                assert(hay@.subrange(k as int, k + needle@.len()) =~= needle@);
            }
            return true;
        }
        k = k + 1;
    }
    proof {
        assert forall|m: int|
            0 <= m <= hay@.len() - needle@.len() implies !((#[trigger] hay@.subrange(
            m,
            m + needle@.len(),
        )) =~= needle@) by {
            assert(!matches_at(hay@, needle@, m));
        }
    }
    false
}

} // verus!
