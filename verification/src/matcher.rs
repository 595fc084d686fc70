use vstd::prelude::*;

verus! {

use vstd::string::StrSliceExecFns;

use vstd::string::StringExecFns;

use crate::strings::matches_at;

/// Characters allowed inside a captured generic argument: ASCII letters,
/// digits, underscores, and angle brackets.
pub open spec fn is_capture_char(c: char) -> bool {
    (('a' as u32) <= (c as u32) && (c as u32) <= ('z' as u32)) || (('A' as u32) <= (c as u32) && (
    c as u32) <= ('Z' as u32)) || (('0' as u32) <= (c as u32) && (c as u32) <= ('9' as u32)) || c
        == '_' || c == '<' || c == '>'
}

/// The expression `s` has the exact shape
/// `<run without '<'> ++ name ++ '<' ++ inner ++ '>'`,
/// where `p` is the position of the opening bracket, `inner` is nonempty and
/// consists of capture characters, and the closing bracket ends `s`.
pub open spec fn capture_at(name: Seq<char>, s: Seq<char>, p: int) -> bool {
    &&& 0 <= p < s.len()
    &&& s[p] == '<'
    &&& forall|k: int| 0 <= k < p ==> s[k] != '<'
    &&& p >= name.len()
    &&& s.subrange(p - name.len(), p) == name
    &&& s.len() >= p + 3
    &&& s[s.len() - 1] == '>'
    &&& forall|k: int| p + 1 <= k < s.len() - 1 ==> is_capture_char(#[trigger] s[k])
}

/// The single inner type expression of a `name<...>`-shaped expression, or
/// nothing when `s` is not of that shape.
pub open spec fn captures_spec(name: Seq<char>, s: Seq<char>) -> Option<Seq<char>> {
    if exists|p: int| capture_at(name, s, p) {
        let p = choose|p: int| capture_at(name, s, p);
        Some(s.subrange(p + 1, s.len() - 1))
    } else {
        Option::None
    }
}

/// The bracket position of a shape match is unique: it is the first '<'.
pub proof fn lemma_capture_at_unique(name: Seq<char>, s: Seq<char>, p1: int, p2: int)
    requires
        capture_at(name, s, p1),
        capture_at(name, s, p2),
    ensures
        p1 == p2,
{
    if p1 < p2 {
        assert(s[p1] == '<');
    } else if p2 < p1 {
        assert(s[p2] == '<');
    }
}

/// A matched inner expression is strictly shorter than the whole expression.
pub proof fn lemma_captures_shorter(name: Seq<char>, s: Seq<char>)
    requires
        captures_spec(name, s) is Some,
    ensures
        captures_spec(name, s)->Some_0.len() < s.len(),
{
    let p = choose|p: int| capture_at(name, s, p);
}

/// Tests whether a canonical textual type expression is an instantiation of
/// one fixed single-argument wrapper and extracts the inner expression.
pub struct GenericCapture {
    cls_name: String,
}

impl GenericCapture {
    /// The wrapper name this matcher recognizes.
    pub closed spec fn name_spec(&self) -> Seq<char> {
        self.cls_name@
    }

    pub fn new(cls_name: &str) -> (r: Self)
        ensures
            r.name_spec() == cls_name@,
    {
        GenericCapture { cls_name: String::from_str(cls_name) }
    }

    /// The inner expression of `self.name<inner>`-shaped text, e.g. the
    /// matcher for `List` applied to `List<Tom>` gives `Tom`.
    pub fn captures(&self, s: &str) -> (r: Option<String>)
        ensures
            match r {
                Some(inner) => captures_spec(self.name_spec(), s@) == Some(inner@),
                Option::None => captures_spec(self.name_spec(), s@) is None,
            },
    {
        let s_len = s.unicode_len();
        let m = self.cls_name.as_str().unicode_len();
        // find the first '<'
        let mut p: usize = 0;
        while p < s_len && s.get_char(p) != '<'
            invariant
                p <= s_len,
                s_len == s@.len(),
                forall|k: int| 0 <= k < p ==> s@[k] != '<',
            decreases s_len - p,
        {
            p += 1;
        }
        if p == s_len {
            proof {
                assert forall|q: int| !capture_at(self.name_spec(), s@, q) by {}
            }
            return Option::None;
        }
        if p < m || s_len - p < 3 {
            proof {
                assert forall|q: int| !capture_at(self.name_spec(), s@, q) by {
                    if capture_at(self.name_spec(), s@, q) {
                        lemma_capture_at_first(self.name_spec(), s@, q, p as int);
                    }
                }
            }
            return Option::None;
        }
        if !matches_at(s, s_len, p - m, self.cls_name.as_str(), m) {
            proof {
                assert forall|q: int| !capture_at(self.name_spec(), s@, q) by {
                    if capture_at(self.name_spec(), s@, q) {
                        lemma_capture_at_first(self.name_spec(), s@, q, p as int);
                    }
                }
            }
            return Option::None;
        }
        if s.get_char(s_len - 1) != '>' {
            proof {
                assert forall|q: int| !capture_at(self.name_spec(), s@, q) by {
                    if capture_at(self.name_spec(), s@, q) {
                        lemma_capture_at_first(self.name_spec(), s@, q, p as int);
                    }
                }
            }
            return Option::None;
        }
        // the inner run must be made of capture characters
        let mut k: usize = p + 1;
        while k < s_len - 1
            invariant
                p + 1 <= k <= s_len - 1,
                s_len == s@.len(),
                p + 3 <= s_len,
                s@[p as int] == '<',
                forall|kk: int| 0 <= kk < p ==> s@[kk] != '<',
                forall|j: int| p + 1 <= j < k ==> is_capture_char(#[trigger] s@[j]),
            decreases s_len - k,
        {
            let c = s.get_char(k);
            let u = c as u32;
            let ok = (97 <= u && u <= 122) || (65 <= u && u <= 90) || (48 <= u && u <= 57) || u
                == 95 || u == 60 || u == 62;
            if !ok {
                proof {
                    assert(!is_capture_char(s@[k as int]));
                    assert forall|q: int| !capture_at(self.name_spec(), s@, q) by {
                        if capture_at(self.name_spec(), s@, q) {
                            lemma_capture_at_first(self.name_spec(), s@, q, p as int);
                        }
                    }
                }
                return Option::None;
            }
            k += 1;
        }
        let inner = s.substring_char(p + 1, s_len - 1);
        proof {
            assert(capture_at(self.name_spec(), s@, p as int));
            let q = choose|q: int| capture_at(self.name_spec(), s@, q);
            lemma_capture_at_unique(self.name_spec(), s@, q, p as int);
        }
        Some(inner.to_owned())
    }
}

/// Any position witnessing a shape match is the first '<' of the expression.
proof fn lemma_capture_at_first(name: Seq<char>, s: Seq<char>, q: int, p: int)
    requires
        capture_at(name, s, q),
        0 <= p < s.len(),
        s[p] == '<',
        forall|k: int| 0 <= k < p ==> s[k] != '<',
    ensures
        q == p,
{
    if q < p {
        assert(s[q] == '<');
    } else if p < q {
        assert(s[p] != '<');
    }
}

} // verus!
