use vstd::prelude::*;

verus! {

use vstd::string::StrSliceExecFns;
use vstd::string::StringExecFns;

/// True when `sub` occurs as a contiguous run of characters inside `s`.
pub open spec fn contains_seq(s: Seq<char>, sub: Seq<char>) -> bool {
    exists|i: int| 0 <= i && i + sub.len() <= s.len() && #[trigger] s.subrange(i, i + sub.len()) == sub
}

/// Character-for-character equality of two string slices.
pub fn str_eq(a: &str, b: &str) -> (r: bool)
    ensures
        r == (a@ == b@),
{
    let alen = a.unicode_len();
    let blen = b.unicode_len();
    if alen != blen {
        return false;
    }
    let mut i: usize = 0;
    while i < alen
        invariant
            i <= alen,
            alen == a@.len(),
            alen == b@.len(),
            forall|j: int| 0 <= j < i ==> a@[j] == b@[j],
        decreases alen - i,
    {
        if a.get_char(i) != b.get_char(i) {
            return false;
        }
        i += 1;
    }
    proof {
        assert(a@ =~= b@);
    }
    true
}

/// Whether `s` and `t` agree on the run of `t@.len()` characters of `s`
/// starting at `at`.
pub(crate) fn matches_at(s: &str, s_len: usize, at: usize, t: &str, t_len: usize) -> (r: bool)
    requires
        s_len == s@.len(),
        t_len == t@.len(),
        at + t_len <= s_len,
    ensures
        r == (s@.subrange(at as int, at + t_len) == t@),
{
    let mut j: usize = 0;
    while j < t_len
        invariant
            j <= t_len,
            t_len == t@.len(),
            s_len == s@.len(),
            at + t_len <= s_len,
            at + t_len <= s@.len(),
            forall|k: int| 0 <= k < j ==> s@[at + k] == t@[k],
        decreases t_len - j,
    {
        if s.get_char(at + j) != t.get_char(j) {
            proof {
                assert(s@.subrange(at as int, at + t_len)[j as int] == s@[at + j]);
            }
            return false;
        }
        j += 1;
    }
    proof {
        assert(s@.subrange(at as int, at + t_len) =~= t@);
    }
    true
}

/// Substring search: does `sub` occur anywhere in `s`?
pub fn contains_sub(s: &str, sub: &str) -> (r: bool)
    ensures
        r == contains_seq(s@, sub@),
{
    let s_len = s.unicode_len();
    let sub_len = sub.unicode_len();
    if sub_len > s_len {
        return false;
    }
    if sub_len == 0 {
        proof {
            assert(s@.subrange(0, 0 + sub@.len() as int) =~= sub@);
        }
        return true;
    }
    let end: usize = s_len - sub_len + 1;
    let mut i: usize = 0;
    while i < end
        invariant
            s_len == s@.len(),
            sub_len == sub@.len(),
            0 < sub_len <= s_len,
            end == s_len - sub_len + 1,
            i <= end,
            forall|k: int| 0 <= k < i ==> #[trigger] s@.subrange(k, k + sub@.len()) != sub@,
        decreases end - i,
    {
        if matches_at(s, s_len, i, sub, sub_len) {
            return true;
        }
        i += 1;
    }
    false
}

/// The character for one decimal digit.
pub open spec fn digit_char(d: nat) -> char {
    if d == 0 {
        '0'
    } else if d == 1 {
        '1'
    } else if d == 2 {
        '2'
    } else if d == 3 {
        '3'
    } else if d == 4 {
        '4'
    } else if d == 5 {
        '5'
    } else if d == 6 {
        '6'
    } else if d == 7 {
        '7'
    } else if d == 8 {
        '8'
    } else {
        '9'
    }
}

/// The decimal rendering of a natural number, most significant digit first.
pub open spec fn dec_of(n: nat) -> Seq<char>
    decreases n,
{
    if n < 10 {
        seq![digit_char(n)]
    } else {
        dec_of(n / 10) + seq![digit_char(n % 10)]
    }
}

fn digit_str(d: usize) -> (r: &'static str)
    requires
        d < 10,
    ensures
        r@ =~= seq![digit_char(d as nat)],
{
    proof {
        reveal_strlit("0");
        reveal_strlit("1");
        reveal_strlit("2");
        reveal_strlit("3");
        reveal_strlit("4");
        reveal_strlit("5");
        reveal_strlit("6");
        reveal_strlit("7");
        reveal_strlit("8");
        reveal_strlit("9");
    }
    match d {
        0 => "0",
        1 => "1",
        2 => "2",
        3 => "3",
        4 => "4",
        5 => "5",
        6 => "6",
        7 => "7",
        8 => "8",
        _ => "9",
    }
}

/// Render a number in decimal.
pub fn dec_str(n: usize) -> (r: String)
    ensures
        r@ == dec_of(n as nat),
    decreases n,
{
    if n < 10 {
        String::from_str(digit_str(n))
    } else {
        let mut s = dec_str(n / 10);
        s.append(digit_str(n % 10));
        proof {
            assert(s@ =~= dec_of(n as nat));
        }
        s
    }
}

} // verus!
