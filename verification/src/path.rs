//! File-name helpers over path strings.
//!
//! Paths are plain strings here; both `/` and `\` count as separators, as the
//! asset archives mix the two conventions.

use vstd::prelude::*;

verus! {

/// Whether a character separates path components.
pub open spec fn is_sep(c: char) -> bool {
    c == '/' || c == '\\'
}

/// The index of the last separator in `s`, or `-1` when there is none.
pub open spec fn last_sep(s: Seq<char>) -> int
    decreases s.len(),
{
    if s.len() == 0 {
        -1
    } else if is_sep(s[s.len() - 1]) {
        s.len() - 1
    } else {
        last_sep(s.take(s.len() - 1))
    }
}

/// The index of the last `.` in `s`, or `-1` when there is none.
pub open spec fn last_dot(s: Seq<char>) -> int
    decreases s.len(),
{
    if s.len() == 0 {
        -1
    } else if s[s.len() - 1] == '.' {
        s.len() - 1
    } else {
        last_dot(s.take(s.len() - 1))
    }
}

/// The final path component: everything after the last separator.
pub open spec fn base_name(s: Seq<char>) -> Seq<char> {
    s.subrange(last_sep(s) + 1, s.len() as int)
}

/// A name with its extension removed: everything before the last `.`, except
/// that a name whose only `.` leads (a hidden file) keeps it.
pub open spec fn stem(s: Seq<char>) -> Seq<char> {
    if last_dot(s) <= 0 {
        s
    } else {
        s.subrange(0, last_dot(s))
    }
}

proof fn lemma_last_sep_bounds(s: Seq<char>)
    ensures
        -1 <= last_sep(s) < s.len(),
    decreases s.len(),
{
    if s.len() > 0 && !is_sep(s[s.len() - 1]) {
        lemma_last_sep_bounds(s.take(s.len() - 1));
    }
}

proof fn lemma_last_dot_bounds(s: Seq<char>)
    ensures
        -1 <= last_dot(s) < s.len(),
    decreases s.len(),
{
    if s.len() > 0 && s[s.len() - 1] != '.' {
        lemma_last_dot_bounds(s.take(s.len() - 1));
    }
}

/// Index one past the last separator among the first `n` characters.
fn scan_past_sep(file_path: &str, n: usize) -> (start: usize)
    requires
        n == file_path@.len(),
    ensures
        start == last_sep(file_path@) + 1,
        start <= n,
{
    let ghost s = file_path@;
    let mut start: usize = 0;
    let mut i: usize = 0;
    while i < n
        invariant
            i <= n,
            n == s.len(),
            s == file_path@,
            start == last_sep(s.take(i as int)) + 1,
            start <= i,
        decreases n - i,
    {
        let c = file_path.get_char(i);
        if c == '/' || c == '\\' {
            start = i + 1;
        }
        i = i + 1;
        proof {
            assert(s.take(i as int).take(i - 1) =~= s.take(i - 1));
            assert(s.take(i as int)[i - 1] == s[i - 1]);
        }
    }
    proof {
        assert(s.take(n as int) =~= s);
    }
    start
}

/// The final component of a path string.
pub fn file_name(file_path: &str) -> (r: String)
    ensures
        r@ == base_name(file_path@),
{
    let n = file_path.unicode_len();
    let start = scan_past_sep(file_path, n);
    proof {
        lemma_last_sep_bounds(file_path@);
    }
    file_path.substring_char(start, n).to_owned()
}

/// The index of the last `.` of `s` strictly between `from` and `i`
/// (exclusive of `from` itself), or `from` when there is none.
pub open spec fn last_dot_from(s: Seq<char>, from: int, i: int) -> int
    decreases i - from,
{
    if i <= from + 1 {
        from
    } else if s[i - 1] == '.' {
        i - 1
    } else {
        last_dot_from(s, from, i - 1)
    }
}

/// Relates the index-based dot scan to `last_dot` of the scanned suffix.
proof fn lemma_dot_rel(s: Seq<char>, start: int, i: int)
    requires
        0 <= start < i <= s.len(),
    ensures
        last_dot_from(s, start, i) == start ==> last_dot(s.subrange(start, i)) <= 0,
        last_dot_from(s, start, i) > start ==> last_dot(s.subrange(start, i)) == last_dot_from(
            s,
            start,
            i,
        ) - start,
        last_dot_from(s, start, i) <= i - 1,
    decreases i,
{
    let b = s.subrange(start, i);
    if i == start + 1 {
        if b[0] == '.' {
            assert(last_dot(b) == 0);
        } else {
            assert(b.take(0) =~= Seq::<char>::empty());
            assert(last_dot(Seq::<char>::empty()) == -1);
            assert(last_dot(b) == -1);
        }
    } else {
        if s[i - 1] == '.' {
            assert(last_dot(b) == i - 1 - start);
        } else {
            assert(b.take(b.len() - 1) =~= s.subrange(start, i - 1));
            lemma_dot_rel(s, start, i - 1);
        }
    }
}

/// The final component of a path string, with its extension removed.
pub fn file_name_without_ext(file_path: &str) -> (r: String)
    ensures
        r@ == stem(base_name(file_path@)),
{
    let ghost s = file_path@;
    let n = file_path.unicode_len();
    let start = scan_past_sep(file_path, n);
    proof {
        lemma_last_sep_bounds(s);
    }
    if start >= n {
        let r = file_path.substring_char(start, n).to_owned();
        proof {
            assert(r@ =~= stem(base_name(s)));
        }
        return r;
    }

    // Look for the last dot strictly after the leading character of the base
    // name; `dot == start` encodes "none found".
    let mut dot: usize = start;
    let mut i: usize = start + 1;
    while i < n
        invariant
            start < i <= n,
            n == s.len(),
            s == file_path@,
            dot == last_dot_from(s, start as int, i as int),
            start <= dot < i,
        decreases n - i,
    {
        let c = file_path.get_char(i);
        if c == '.' {
            dot = i;
        }
        i = i + 1;
    }
    proof {
        lemma_dot_rel(s, start as int, n as int);
        assert(base_name(s) == s.subrange(start as int, n as int));
    }
    if dot > start {
        let r = file_path.substring_char(start, dot).to_owned();
        proof {
            assert(r@ =~= stem(base_name(s)));
        }
        r
    } else {
        let r = file_path.substring_char(start, n).to_owned();
        proof {
            assert(r@ =~= stem(base_name(s)));
        }
        r
    }
}

} // verus!
