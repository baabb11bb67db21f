//! Verified text primitives the rest of the library builds on: string
//! equality, substring search (token matching), and splitting the checker's
//! two-line output.

use vstd::prelude::*;
use vstd::string::StrSliceExecFns;

verus! {

/// String equality, decided through the views.
pub fn str_eq(a: &str, b: &str) -> (r: bool)
    ensures
        r == (a@ == b@),
{
    let sa = a.to_owned();
    let sb = b.to_owned();
    sa == sb
}

/// The pattern `p` occurs in `t` starting at position `i`.
pub open spec fn spec_contains_at(t: Seq<char>, p: Seq<char>, i: int) -> bool {
    0 <= i && i + p.len() <= t.len() && t.subrange(i, i + p.len() as int) == p
}

/// The pattern `p` occurs somewhere in `t`.
pub open spec fn spec_contains(t: Seq<char>, p: Seq<char>) -> bool {
    exists|i: int| spec_contains_at(t, p, i)
}

/// Substring search: does `t` contain `p`?
pub fn contains_str(t: &str, p: &str) -> (r: bool)
    ensures
        r == spec_contains(t@, p@),
{
    let tl = t.unicode_len();
    let pl = p.unicode_len();
    if pl > tl {
        proof {
            assert(forall|i: int| !spec_contains_at(t@, p@, i));
        }
        return false;
    }
    if pl == 0 {
        proof {
            assert(t@.subrange(0, 0) =~= p@);
            assert(spec_contains_at(t@, p@, 0));
        }
        return true;
    }
    let mut i: usize = 0;
    while i <= tl - pl
        invariant
            1 <= pl <= tl,
            tl == t@.len(),
            pl == p@.len(),
            i <= tl - pl + 1,
            forall|k: int| 0 <= k < i ==> !spec_contains_at(t@, p@, k),
        decreases tl - pl + 1 - i,
    {
        let mut j: usize = 0;
        let mut matches_here = true;
        while j < pl
            invariant
                pl <= tl,
                tl == t@.len(),
                pl == p@.len(),
                i <= tl - pl,
                j <= pl,
                matches_here ==> forall|m: int| 0 <= m < j ==> t@[i + m] == p@[m],
                !matches_here ==> !spec_contains_at(t@, p@, i as int),
            ensures
                matches_here ==> forall|m: int| 0 <= m < pl ==> t@[i + m] == p@[m],
                !matches_here ==> !spec_contains_at(t@, p@, i as int),
            decreases pl - j,
        {
            if t.get_char(i + j) != p.get_char(j) {
                proof {
                    assert(t@.subrange(i as int, i + pl as int)[j as int] != p@[j as int]);
                }
                matches_here = false;
                break;
            }
            j = j + 1;
        }
        if matches_here {
            proof {
                assert forall|m: int| 0 <= m < pl implies t@.subrange(
                    i as int,
                    i + pl as int,
                )[m] == p@[m] by {
                    assert(t@[i + m] == p@[m]);
                }
                assert(t@.subrange(i as int, i + pl as int) =~= p@);
                assert(spec_contains_at(t@, p@, i as int));
            }
            return true;
        }
        i = i + 1;
    }
    proof {
        assert(forall|k: int| k >= i ==> !spec_contains_at(t@, p@, k));
    }
    false
}

/// Position of the first occurrence of `c` in `s` at or after `from`, or the
/// length of `s` when there is none.
pub open spec fn spec_find_char(s: Seq<char>, from: int, c: char) -> int
    decreases s.len() - from when 0 <= from <= s.len()
{
    if from >= s.len() {
        s.len() as int
    } else if s[from] == c {
        from
    } else {
        spec_find_char(s, from + 1, c)
    }
}

/// Position of the first newline in `s` at or after `from`, or the length of
/// `s` when there is none.
pub open spec fn nl_or_end(s: Seq<char>, from: int) -> int {
    spec_find_char(s, from, '\n')
}

pub proof fn lemma_find_char_bounds(s: Seq<char>, from: int, c: char)
    requires
        0 <= from <= s.len(),
    ensures
        from <= spec_find_char(s, from, c) <= s.len(),
    decreases s.len() - from,
{
    if from < s.len() && s[from] != c {
        lemma_find_char_bounds(s, from + 1, c);
    }
}

/// Find the first occurrence of `c` in `s` at or after `from`; the length of
/// `s` means there is none.
pub fn find_char(s: &str, from: usize, c: char) -> (r: usize)
    requires
        from <= s@.len(),
    ensures
        r == spec_find_char(s@, from as int, c),
        from <= r <= s@.len(),
{
    let len = s.unicode_len();
    let mut i: usize = from;
    while i < len
        invariant
            from <= i <= len,
            len == s@.len(),
            spec_find_char(s@, from as int, c) == spec_find_char(s@, i as int, c),
        decreases len - i,
    {
        if s.get_char(i) == c {
            return i;
        }
        i = i + 1;
    }
    i
}

fn find_nl(s: &str, from: usize) -> (r: usize)
    requires
        from <= s@.len(),
    ensures
        r == nl_or_end(s@, from as int),
        from <= r <= s@.len(),
{
    find_char(s, from, '\n')
}

/// The first line of the checker's output: everything before the first
/// newline, or the whole text when there is none.
pub open spec fn spec_line1(s: Seq<char>) -> Seq<char> {
    s.subrange(0, nl_or_end(s, 0))
}

/// The second line of the checker's output: between the first newline and the
/// next one (or the end); empty when there is no first newline.
pub open spec fn spec_line2(s: Seq<char>) -> Seq<char> {
    let e1 = nl_or_end(s, 0);
    if e1 == s.len() {
        Seq::empty()
    } else {
        s.subrange(e1 + 1, nl_or_end(s, e1 + 1))
    }
}

/// Split a text into its first two newline-separated lines.
pub fn split_two_lines(s: &str) -> (r: (String, String))
    ensures
        r.0@ == spec_line1(s@),
        r.1@ == spec_line2(s@),
{
    proof {
        lemma_find_char_bounds(s@, 0, '\n');
    }
    let len = s.unicode_len();
    let e1 = find_nl(s, 0);
    let line1 = s.substring_char(0, e1).to_owned();
    if e1 == len {
        let line2 = String::new();
        proof {
            assert(line2@ =~= spec_line2(s@));
        }
        (line1, line2)
    } else {
        proof {
            lemma_find_char_bounds(s@, e1 + 1, '\n');
        }
        let e2 = find_nl(s, e1 + 1);
        let line2 = s.substring_char(e1 + 1, e2).to_owned();
        (line1, line2)
    }
}

} // verus!
