use vstd::prelude::*;

verus! {

use vstd::string::StrSliceExecFns;
use vstd::string::StringExecFns;

use crate::decl::SrcField;
use crate::decl::SrcFn;
use crate::decl::SrcParam;
use crate::decl::SrcStruct;
use crate::decl::SrcStructV;
use crate::strings::str_eq;

/// Copy a list of documentation lines.
pub fn clone_string_vec(v: &Vec<String>) -> (r: Vec<String>)
    ensures
        r@.map_values(|c: String| c@) == v@.map_values(|c: String| c@),
{
    let mut r: Vec<String> = Vec::new();
    let mut i: usize = 0;
    while i < v.len()
        invariant
            i <= v@.len(),
            r@.len() == i,
            forall|j: int| 0 <= j < i ==> r@[j]@ == v@[j]@,
        decreases v@.len() - i,
    {
        r.push(v[i].clone());
        i += 1;
    }
    proof {
        assert(r@.map_values(|c: String| c@) =~= v@.map_values(|c: String| c@));
    }
    r
}

/// Copy an optional name.
pub fn clone_opt_string(v: &Option<String>) -> (r: Option<String>)
    ensures
        match (v, &r) {
            (Some(a), Some(b)) => a@ == b@,
            (Option::None, Option::None) => true,
            _ => false,
        },
{
    match v {
        Some(s) => Some(s.clone()),
        Option::None => Option::None,
    }
}

/// Copy one source field.
pub fn clone_src_field(f: &SrcField) -> (r: SrcField)
    ensures
        r@ == f@,
{
    let r = SrcField {
        name: clone_opt_string(&f.name),
        ty: f.ty.clone(),
        comments: clone_string_vec(&f.comments),
    };
    proof {
        assert(r@.name == f@.name);
    }
    r
}

/// Copy one source parameter.
pub fn clone_src_param(p: &SrcParam) -> (r: SrcParam)
    ensures
        r@ == p@,
{
    let r = SrcParam {
        name: clone_opt_string(&p.name),
        ty: p.ty.clone(),
        comments: clone_string_vec(&p.comments),
    };
    proof {
        assert(r@.name == p@.name);
    }
    r
}

/// Copy one source struct declaration.
pub fn clone_src_struct(s: &SrcStruct) -> (r: SrcStruct)
    ensures
        r@ == s@,
{
    let mut fields: Vec<SrcField> = Vec::new();
    let mut i: usize = 0;
    while i < s.fields.len()
        invariant
            i <= s.fields@.len(),
            fields@.len() == i,
            forall|j: int| 0 <= j < i ==> fields@[j]@ == s.fields@[j]@,
        decreases s.fields@.len() - i,
    {
        fields.push(clone_src_field(&s.fields[i]));
        i += 1;
    }
    let r = SrcStruct {
        name: s.name.clone(),
        fields,
        fields_kind: s.fields_kind,
        comments: clone_string_vec(&s.comments),
    };
    proof {
        assert(r@.fields =~= s@.fields);
    }
    r
}

/// Copy one source function declaration.
pub fn clone_src_fn(f: &SrcFn) -> (r: SrcFn)
    ensures
        r@ == f@,
{
    let mut params: Vec<SrcParam> = Vec::new();
    let mut i: usize = 0;
    while i < f.params.len()
        invariant
            i <= f.params@.len(),
            params@.len() == i,
            forall|j: int| 0 <= j < i ==> params@[j]@ == f.params@[j]@,
        decreases f.params@.len() - i,
    {
        params.push(clone_src_param(&f.params[i]));
        i += 1;
    }
    let r = SrcFn {
        name: f.name.clone(),
        params,
        ret: clone_opt_string(&f.ret),
        comments: clone_string_vec(&f.comments),
    };
    proof {
        assert(r@.params =~= f@.params);
        assert(r@.ret == f@.ret);
    }
    r
}

/// Mathematical value of the declaration lookup: struct name to declaration,
/// later declarations shadowing earlier ones of the same name.
pub open spec fn decls_map(s: Seq<SrcStruct>) -> Map<Seq<char>, SrcStructV>
    decreases s.len(),
{
    if s.len() == 0 {
        Map::empty()
    } else {
        decls_map(s.drop_last()).insert(s.last().name@, s.last()@)
    }
}

/// The lookup of public struct declarations, keyed by name.
pub struct StructDecls {
    entries: Vec<SrcStruct>,
}

impl View for StructDecls {
    type V = Map<Seq<char>, SrcStructV>;

    closed spec fn view(&self) -> Map<Seq<char>, SrcStructV> {
        decls_map(self.entries@)
    }
}

pub proof fn lemma_decls_map_props(s: Seq<SrcStruct>)
    ensures
        decls_map(s).dom().finite(),
        forall|n: Seq<char>|
            #[trigger] decls_map(s).dom().contains(n) <==> exists|i: int|
                0 <= i < s.len() && #[trigger] s[i].name@ == n,
        forall|n: Seq<char>| #[trigger]
            decls_map(s).dom().contains(n) ==> decls_map(s)[n].name == n,
    decreases s.len(),
{
    if s.len() > 0 {
        lemma_decls_map_props(s.drop_last());
        assert forall|n: Seq<char>|
            (exists|i: int| 0 <= i < s.len() && #[trigger] s[i].name@ == n) implies decls_map(
            s,
        ).dom().contains(n) by {
            let i = choose|i: int| 0 <= i < s.len() && #[trigger] s[i].name@ == n;
            if i < s.len() - 1 {
                assert(s.drop_last()[i].name@ == n);
            }
        }
    }
}

proof fn lemma_decls_map_last_wins(s: Seq<SrcStruct>, n: Seq<char>, i: int)
    requires
        0 <= i < s.len(),
        s[i].name@ == n,
        forall|j: int| i < j < s.len() ==> s[j].name@ != n,
    ensures
        decls_map(s).contains_key(n),
        decls_map(s)[n] == s[i]@,
    decreases s.len(),
{
    if i < s.len() - 1 {
        lemma_decls_map_last_wins(s.drop_last(), n, i);
    }
}

impl StructDecls {
    /// The lookup is finite and keys each declaration by its own name.
    pub proof fn lemma_keys(&self)
        ensures
            self@.dom().finite(),
            forall|n: Seq<char>| #[trigger] self@.contains_key(n) ==> self@[n].name == n,
    {
        lemma_decls_map_props(self.entries@);
        assert forall|n: Seq<char>| #[trigger] self@.contains_key(n) implies self@[n].name
            == n by {
            assert(decls_map(self.entries@).dom().contains(n));
        }
    }

    pub fn new() -> (r: Self)
        ensures
            r@ == Map::<Seq<char>, SrcStructV>::empty(),
    {
        let r = StructDecls { entries: Vec::new() };
        proof {
            assert(r@ =~= Map::<Seq<char>, SrcStructV>::empty());
        }
        r
    }

    /// Register a public struct declaration under its own name; a later
    /// declaration of the same name shadows an earlier one.
    pub fn insert(&mut self, s: SrcStruct)
        ensures
            final(self)@ == old(self)@.insert(s.name@, s@),
    {
        self.entries.push(s);
        proof {
            assert(self.entries@.drop_last() =~= old(self).entries@);
        }
    }

    /// Whether a name is a known public struct.
    pub fn contains(&self, name: &str) -> (r: bool)
        ensures
            r == self@.contains_key(name@),
    {
        proof {
            lemma_decls_map_props(self.entries@);
        }
        let n = self.entries.len();
        let mut i: usize = 0;
        while i < n
            invariant
                i <= n,
                n == self.entries@.len(),
                forall|j: int| 0 <= j < i ==> self.entries@[j].name@ != name@,
            decreases n - i,
        {
            if str_eq(self.entries[i].name.as_str(), name) {
                proof {
                    lemma_decls_map_props(self.entries@);
                }
                return true;
            }
            i += 1;
        }
        false
    }

    /// A copy of the declaration a name stands for.
    pub fn get_clone(&self, name: &str) -> (r: Option<SrcStruct>)
        ensures
            match r {
                Some(d) => self@.contains_key(name@) && self@[name@] == d@,
                Option::None => !self@.contains_key(name@),
            },
    {
        proof {
            lemma_decls_map_props(self.entries@);
        }
        let n = self.entries.len();
        let mut i: usize = n;
        while i > 0
            invariant
                i <= n,
                n == self.entries@.len(),
                forall|j: int| i <= j < n ==> self.entries@[j].name@ != name@,
            decreases i,
        {
            i = i - 1;
            if str_eq(self.entries[i].name.as_str(), name) {
                proof {
                    lemma_decls_map_last_wins(self.entries@, name@, i as int);
                }
                return Some(clone_src_struct(&self.entries[i]));
            }
        }
        Option::None
    }
}

/// The set of struct names whose resolution has started or finished.
pub struct NameList {
    entries: Vec<String>,
}

impl View for NameList {
    type V = Set<Seq<char>>;

    closed spec fn view(&self) -> Set<Seq<char>> {
        self.entries@.map_values(|s: String| s@).to_set()
    }
}

impl NameList {
    pub fn new() -> (r: Self)
        ensures
            r@ == Set::<Seq<char>>::empty(),
    {
        let r = NameList { entries: Vec::new() };
        proof {
            assert(r@ =~= Set::<Seq<char>>::empty());
        }
        r
    }

    /// Whether a name is already marked.
    pub fn contains(&self, name: &str) -> (r: bool)
        ensures
            r == self@.contains(name@),
    {
        let n = self.entries.len();
        let mut i: usize = 0;
        while i < n
            invariant
                i <= n,
                n == self.entries@.len(),
                forall|j: int| 0 <= j < i ==> self.entries@[j]@ != name@,
            decreases n - i,
        {
            if str_eq(self.entries[i].as_str(), name) {
                proof {
                    let m = self.entries@.map_values(|s: String| s@);
                    assert(m[i as int] == name@);
                    assert(m.contains(name@));
                }
                return true;
            }
            i += 1;
        }
        proof {
            let m = self.entries@.map_values(|s: String| s@);
            if m.contains(name@) {
                let j = choose|j: int| 0 <= j < m.len() && m[j] == name@;
                assert(self.entries@[j]@ == name@);
            }
        }
        false
    }

    /// Mark a name.
    pub fn insert(&mut self, name: String)
        ensures
            final(self)@ == old(self)@.insert(name@),
    {
        self.entries.push(name);
        proof {
            let pre = old(self).entries@.map_values(|s: String| s@);
            let post = self.entries@.map_values(|s: String| s@);
            assert(post =~= pre.push(name@));
            assert forall|a: Seq<char>| #[trigger]
                post.to_set().contains(a) <==> pre.to_set().insert(name@).contains(a) by {
                if post.contains(a) {
                    let j = choose|j: int| 0 <= j < post.len() && post[j] == a;
                    if j < pre.len() {
                        assert(pre[j] == a);
                    }
                }
                if pre.contains(a) {
                    let j = choose|j: int| 0 <= j < pre.len() && pre[j] == a;
                    assert(post[j] == a);
                }
                if a == name@ {
                    assert(post[post.len() - 1] == a);
                }
            }
            assert(self@ =~= old(self)@.insert(name@));
        }
    }
}

} // verus!
