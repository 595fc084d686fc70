use vstd::prelude::*;

verus! {

use vstd::string::StrSliceExecFns;

use crate::strings::str_eq;

/// Fixed-width scalar kinds that cross the foreign-function boundary directly.
#[derive(Clone, Copy, Debug, PartialEq, Eq, Structural)]
pub enum ApiTypePrimitive {
    U8,
    I8,
    U16,
    I16,
    U32,
    I32,
    U64,
    I64,
    F32,
    F64,
    Bool,
}

/// Types with bespoke cross-boundary handling rather than generic structural
/// translation.
#[derive(Clone, Copy, Debug, PartialEq, Eq, Structural)]
pub enum ApiTypeDelegate {
    /// A textual string value.
    Str,
    /// A zero-copy buffer over a primitive element type.
    ZeroCopyBufferVecPrimitive(ApiTypePrimitive),
    /// The synchronous fast-path byte-buffer return.
    SyncReturnVecU8,
}

/// How a resolved function delivers its output.
#[derive(Clone, Copy, Debug, PartialEq, Eq, Structural)]
pub enum ApiFuncMode {
    Normal,
    Sync,
    Stream,
}

/// The primitive kind a type-expression text names, if any.
pub open spec fn prim_of(ty: Seq<char>) -> Option<ApiTypePrimitive> {
    if ty == "u8"@ {
        Some(ApiTypePrimitive::U8)
    } else if ty == "i8"@ {
        Some(ApiTypePrimitive::I8)
    } else if ty == "u16"@ {
        Some(ApiTypePrimitive::U16)
    } else if ty == "i16"@ {
        Some(ApiTypePrimitive::I16)
    } else if ty == "u32"@ {
        Some(ApiTypePrimitive::U32)
    } else if ty == "i32"@ {
        Some(ApiTypePrimitive::I32)
    } else if ty == "u64"@ {
        Some(ApiTypePrimitive::U64)
    } else if ty == "i64"@ {
        Some(ApiTypePrimitive::I64)
    } else if ty == "f32"@ {
        Some(ApiTypePrimitive::F32)
    } else if ty == "f64"@ {
        Some(ApiTypePrimitive::F64)
    } else if ty == "bool"@ {
        Some(ApiTypePrimitive::Bool)
    } else {
        Option::None
    }
}

impl ApiTypePrimitive {
    /// Recognize a fixed-width scalar by its exact textual name.
    pub fn try_from_rust_str(ty: &str) -> (r: Option<Self>)
        ensures
            r == prim_of(ty@),
    {
        if str_eq(ty, "u8") {
            Some(ApiTypePrimitive::U8)
        } else if str_eq(ty, "i8") {
            Some(ApiTypePrimitive::I8)
        } else if str_eq(ty, "u16") {
            Some(ApiTypePrimitive::U16)
        } else if str_eq(ty, "i16") {
            Some(ApiTypePrimitive::I16)
        } else if str_eq(ty, "u32") {
            Some(ApiTypePrimitive::U32)
        } else if str_eq(ty, "i32") {
            Some(ApiTypePrimitive::I32)
        } else if str_eq(ty, "u64") {
            Some(ApiTypePrimitive::U64)
        } else if str_eq(ty, "i64") {
            Some(ApiTypePrimitive::I64)
        } else if str_eq(ty, "f32") {
            Some(ApiTypePrimitive::F32)
        } else if str_eq(ty, "f64") {
            Some(ApiTypePrimitive::F64)
        } else if str_eq(ty, "bool") {
            Some(ApiTypePrimitive::Bool)
        } else {
            Option::None
        }
    }
}

/// Mathematical value of a resolved type node.
pub enum TypeV {
    Primitive(ApiTypePrimitive),
    Delegate(ApiTypeDelegate),
    PrimitiveList(ApiTypePrimitive),
    GeneralList(Box<TypeV>),
    Boxed(bool, Box<TypeV>),
    Optional(OptionalV),
    StructRef(Seq<char>),
}

/// Mathematical value of an optional node: inline-nullable primitive, or a
/// nullable pointer around any other node.
pub enum OptionalV {
    Prim(ApiTypePrimitive),
    Ptr(Box<TypeV>),
}

/// A homogeneous sequence of primitives, represented compactly.
#[derive(Debug, PartialEq)]
pub struct ApiTypePrimitiveList {
    pub primitive: ApiTypePrimitive,
}

/// A homogeneous sequence of any other resolved type.
#[derive(Debug, PartialEq)]
pub struct ApiTypeGeneralList {
    pub inner: ApiType,
}

/// Single-value indirection; `exist_in_real_api` tells indirection the user
/// wrote from indirection synthesized to represent an optional struct value.
#[derive(Debug, PartialEq)]
pub struct ApiTypeBoxed {
    pub exist_in_real_api: bool,
    pub inner: ApiType,
}

/// A by-name reference into the struct pool.
#[derive(Debug, PartialEq)]
pub struct ApiTypeStructRef {
    pub name: String,
}

/// A nullable value, either an inline-nullable primitive or a nullable
/// pointer around any other resolved node.
#[derive(Debug, PartialEq)]
pub enum ApiTypeOptional {
    Prim(ApiTypePrimitive),
    Ptr(Box<ApiType>),
}

/// One node of the closed type representation.
#[derive(Debug, PartialEq)]
pub enum ApiType {
    Primitive(ApiTypePrimitive),
    Delegate(ApiTypeDelegate),
    PrimitiveList(ApiTypePrimitiveList),
    GeneralList(Box<ApiTypeGeneralList>),
    Boxed(Box<ApiTypeBoxed>),
    Optional(ApiTypeOptional),
    StructRef(ApiTypeStructRef),
}

/// Mathematical value of an executable type node.
pub open spec fn type_view(t: ApiType) -> TypeV
    decreases t,
{
    match t {
        ApiType::Primitive(p) => TypeV::Primitive(p),
        ApiType::Delegate(d) => TypeV::Delegate(d),
        ApiType::PrimitiveList(l) => TypeV::PrimitiveList(l.primitive),
        ApiType::GeneralList(g) => TypeV::GeneralList(Box::new(type_view(g.inner))),
        ApiType::Boxed(b) => TypeV::Boxed(b.exist_in_real_api, Box::new(type_view(b.inner))),
        ApiType::Optional(ApiTypeOptional::Prim(p)) => TypeV::Optional(OptionalV::Prim(p)),
        ApiType::Optional(ApiTypeOptional::Ptr(q)) => TypeV::Optional(
            OptionalV::Ptr(Box::new(type_view(*q))),
        ),
        ApiType::StructRef(r) => TypeV::StructRef(r.name@),
    }
}

impl View for ApiType {
    type V = TypeV;

    open spec fn view(&self) -> TypeV {
        type_view(*self)
    }
}

impl ApiTypeOptional {
    /// An optional over a primitive, encoded inline.
    pub fn new_prim(p: ApiTypePrimitive) -> (r: Self)
        ensures
            r == ApiTypeOptional::Prim(p),
    {
        ApiTypeOptional::Prim(p)
    }

    /// An optional over any other node, encoded as a nullable pointer.
    pub fn new_ptr(t: ApiType) -> (r: Self)
        ensures
            r == ApiTypeOptional::Ptr(Box::new(t)),
    {
        ApiTypeOptional::Ptr(Box::new(t))
    }
}

/// An identifier carried through to the emitted representation.
#[derive(Debug, Clone, PartialEq)]
pub struct ApiIdent {
    pub raw: String,
}

impl View for ApiIdent {
    type V = Seq<char>;

    open spec fn view(&self) -> Seq<char> {
        self.raw@
    }
}

impl ApiIdent {
    pub fn new(raw: String) -> (r: Self)
        ensures
            r@ == raw@,
    {
        ApiIdent { raw }
    }
}

/// One attached documentation line.
#[derive(Debug, Clone, PartialEq)]
pub struct Comment(pub String);

impl View for Comment {
    type V = Seq<char>;

    open spec fn view(&self) -> Seq<char> {
        self.0@
    }
}

/// Mathematical value of a parameter or field node.
pub struct FieldV {
    pub name: Seq<char>,
    pub ty: TypeV,
    pub comments: Seq<Seq<char>>,
}

/// A named, typed, documented slot: reused for function parameters and
/// struct fields.
#[derive(Debug, PartialEq)]
pub struct ApiField {
    pub name: ApiIdent,
    pub ty: ApiType,
    pub comments: Vec<Comment>,
}

impl View for ApiField {
    type V = FieldV;

    open spec fn view(&self) -> FieldV {
        FieldV {
            name: self.name@,
            ty: self.ty@,
            comments: self.comments@.map_values(|c: Comment| c@),
        }
    }
}

/// Mathematical value of a resolved struct node.
pub struct StructV {
    pub name: Seq<char>,
    pub fields: Seq<FieldV>,
    pub is_fields_named: bool,
    pub comments: Seq<Seq<char>>,
}

/// A resolved struct: its fields in declaration order, and whether they were
/// named or positional in the source.
#[derive(Debug, PartialEq)]
pub struct ApiStruct {
    pub name: String,
    pub fields: Vec<ApiField>,
    pub is_fields_named: bool,
    pub comments: Vec<Comment>,
}

impl View for ApiStruct {
    type V = StructV;

    open spec fn view(&self) -> StructV {
        StructV {
            name: self.name@,
            fields: self.fields@.map_values(|f: ApiField| f@),
            is_fields_named: self.is_fields_named,
            comments: self.comments@.map_values(|c: Comment| c@),
        }
    }
}

/// Mathematical value of a resolved function node.
pub struct FuncV {
    pub name: Seq<char>,
    pub inputs: Seq<FieldV>,
    pub output: TypeV,
    pub mode: ApiFuncMode,
    pub comments: Seq<Seq<char>>,
}

/// A resolved function: inputs in declaration order, one output type, and
/// the derived execution mode.
#[derive(Debug, PartialEq)]
pub struct ApiFunc {
    pub name: String,
    pub inputs: Vec<ApiField>,
    pub output: ApiType,
    pub mode: ApiFuncMode,
    pub comments: Vec<Comment>,
}

impl View for ApiFunc {
    type V = FuncV;

    open spec fn view(&self) -> FuncV {
        FuncV {
            name: self.name@,
            inputs: self.inputs@.map_values(|f: ApiField| f@),
            output: self.output@,
            mode: self.mode,
            comments: self.comments@.map_values(|c: Comment| c@),
        }
    }
}

/// Mathematical value of the struct pool: struct name to struct value.
pub open spec fn pool_map(s: Seq<ApiStruct>) -> Map<Seq<char>, StructV>
    decreases s.len(),
{
    if s.len() == 0 {
        Map::empty()
    } else {
        pool_map(s.drop_last()).insert(s.last().name@, s.last()@)
    }
}

/// The deduplicated, by-name collection of resolved structs for one file.
#[derive(Debug, PartialEq)]
pub struct ApiStructPool {
    entries: Vec<ApiStruct>,
}

impl View for ApiStructPool {
    type V = Map<Seq<char>, StructV>;

    closed spec fn view(&self) -> Map<Seq<char>, StructV> {
        pool_map(self.entries@)
    }
}

impl ApiStructPool {
    /// Keys are pairwise distinct: a struct is registered at most once.
    pub closed spec fn wf(&self) -> bool {
        forall|i: int, j: int|
            0 <= i < j < self.entries@.len() ==> self.entries@[i].name@ != self.entries@[j].name@
    }

    pub closed spec fn entry_seq(&self) -> Seq<StructV> {
        self.entries@.map_values(|s: ApiStruct| s@)
    }

    pub fn new() -> (r: Self)
        ensures
            r@ == Map::<Seq<char>, StructV>::empty(),
            r.wf(),
    {
        let r = ApiStructPool { entries: Vec::new() };
        proof {
            assert(r@ =~= Map::<Seq<char>, StructV>::empty());
        }
        r
    }

    proof fn lemma_pool_map_props(s: Seq<ApiStruct>)
        ensures
            pool_map(s).dom().finite(),
            forall|n: Seq<char>|
                #[trigger] pool_map(s).dom().contains(n) <==> exists|i: int|
                    0 <= i < s.len() && #[trigger] s[i].name@ == n,
            forall|n: Seq<char>| #[trigger]
                pool_map(s).dom().contains(n) ==> exists|i: int|
                    0 <= i < s.len() && #[trigger] s[i].name@ == n && pool_map(s)[n] == s[i]@,
        decreases s.len(),
    {
        if s.len() > 0 {
            Self::lemma_pool_map_props(s.drop_last());
            assert forall|n: Seq<char>| #[trigger] pool_map(s).dom().contains(n) implies exists|
                i: int,
            |
                0 <= i < s.len() && #[trigger] s[i].name@ == n && pool_map(s)[n] == s[i]@ by {
                if n == s.last().name@ {
                    assert(s[s.len() - 1].name@ == n && pool_map(s)[n] == s[s.len() - 1]@);
                } else {
                    let i = choose|i: int|
                        0 <= i < s.drop_last().len() && #[trigger] s.drop_last()[i].name@ == n
                            && pool_map(s.drop_last())[n] == s.drop_last()[i]@;
                    assert(s[i].name@ == n && pool_map(s)[n] == s[i]@);
                }
            }
            assert forall|n: Seq<char>|
                (exists|i: int| 0 <= i < s.len() && #[trigger] s[i].name@ == n) implies pool_map(
                s,
            ).dom().contains(n) by {
                let i = choose|i: int| 0 <= i < s.len() && #[trigger] s[i].name@ == n;
                if i < s.len() - 1 {
                    assert(s.drop_last()[i].name@ == n);
                }
            }
        }
    }

    /// Look a struct up by name.
    pub fn get(&self, name: &str) -> (r: Option<&ApiStruct>)
        ensures
            match r {
                Some(s) => self@.contains_key(name@) && self@[name@] == s@,
                None => !self@.contains_key(name@),
            },
    {
        proof {
            Self::lemma_pool_map_props(self.entries@);
        }
        let n = self.entries.len();
        let mut i: usize = n;
        while i > 0
            invariant
                i <= n,
                n == self.entries@.len(),
                forall|j: int| i <= j < n ==> self.entries@[j].name@ != name@,
            decreases i,
        {
            i = i - 1;
            if str_eq(self.entries[i].name.as_str(), name) {
                proof {
                    Self::lemma_pool_map_last_wins(self.entries@, name@, i as int);
                }
                return Some(&self.entries[i]);
            }
        }
        None
    }

    /// Among entries with the same name, the last one gives the map's value;
    /// with distinct names any match gives it.
    proof fn lemma_pool_map_last_wins(s: Seq<ApiStruct>, n: Seq<char>, i: int)
        requires
            0 <= i < s.len(),
            s[i].name@ == n,
            forall|j: int| i < j < s.len() ==> s[j].name@ != n,
        ensures
            pool_map(s).contains_key(n),
            pool_map(s)[n] == s[i]@,
        decreases s.len(),
    {
        if i == s.len() - 1 {
        } else {
            Self::lemma_pool_map_last_wins(s.drop_last(), n, i);
        }
    }

    /// Register a newly resolved struct under its own name.
    pub fn insert(&mut self, s: ApiStruct)
        requires
            old(self).wf(),
            !old(self)@.contains_key(s.name@),
        ensures
            final(self).wf(),
            final(self)@ == old(self)@.insert(s.name@, s@),
    {
        proof {
            Self::lemma_pool_map_props(self.entries@);
        }
        self.entries.push(s);
        proof {
            assert(self.entries@.drop_last() =~= old(self).entries@);
        }
    }

    /// How many structs the pool holds.
    pub fn len(&self) -> (r: usize)
        requires
            self.wf(),
        ensures
            r as nat == self@.dom().len(),
    {
        proof {
            Self::lemma_wf_len(self.entries@);
        }
        self.entries.len()
    }

    proof fn lemma_wf_len(s: Seq<ApiStruct>)
        requires
            forall|i: int, j: int| 0 <= i < j < s.len() ==> s[i].name@ != s[j].name@,
        ensures
            pool_map(s).dom().len() == s.len(),
        decreases s.len(),
    {
        Self::lemma_pool_map_props(s);
        if s.len() > 0 {
            Self::lemma_wf_len(s.drop_last());
            Self::lemma_pool_map_props(s.drop_last());
            assert(!pool_map(s.drop_last()).dom().contains(s.last().name@));
            assert(pool_map(s).dom() =~= pool_map(s.drop_last()).dom().insert(s.last().name@));
        }
    }
}

/// Mathematical value of the produced interface representation.
pub struct FileV {
    pub funcs: Seq<FuncV>,
    pub struct_pool: Map<Seq<char>, StructV>,
    pub has_executor: bool,
}

/// The final interface representation for one source file.
#[derive(Debug, PartialEq)]
pub struct ApiFile {
    pub funcs: Vec<ApiFunc>,
    pub struct_pool: ApiStructPool,
    pub has_executor: bool,
}

impl View for ApiFile {
    type V = FileV;

    open spec fn view(&self) -> FileV {
        FileV {
            funcs: self.funcs@.map_values(|f: ApiFunc| f@),
            struct_pool: self.struct_pool@,
            has_executor: self.has_executor,
        }
    }
}

} // verus!
