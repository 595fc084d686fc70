use vstd::prelude::*;

verus! {

use vstd::set_lib::lemma_len_subset;
use vstd::string::StrSliceExecFns;
use vstd::string::StringExecFns;

use crate::api_types::ApiFile;
use crate::api_types::ApiFunc;
use crate::api_types::ApiField;
use crate::api_types::ApiIdent;
use crate::api_types::ApiStruct;
use crate::api_types::ApiStructPool;
use crate::api_types::ApiType;
use crate::api_types::ApiTypeBoxed;
use crate::api_types::ApiTypeDelegate;
use crate::api_types::ApiTypeGeneralList;
use crate::api_types::ApiTypeOptional;
use crate::api_types::ApiTypePrimitive;
use crate::api_types::ApiTypePrimitiveList;
use crate::api_types::ApiTypeStructRef;
use crate::api_types::ApiFuncMode;
use crate::api_types::Comment;
use crate::api_types::FieldV;
use crate::api_types::FuncV;
use crate::api_types::StructV;
use crate::api_types::TypeV;
use crate::decl::SrcDecl;
use crate::decl::SrcFieldV;
use crate::decl::SrcFieldsKind;
use crate::decl::SrcFn;
use crate::decl::SrcFnV;
use crate::decl::SrcItem;
use crate::decl::SrcStruct;
use crate::decl::SrcStructV;
use crate::matcher::GenericCapture;
use crate::matcher::captures_spec;
use crate::matcher::lemma_captures_shorter;
use crate::resolve::ErrV;
use crate::resolve::decls_ok;
use crate::resolve::field_name_of;
use crate::resolve::func_refs_in;
use crate::resolve::lemma_fields_err_persists;
use crate::resolve::lemma_funcs_err_persists;
use crate::resolve::lemma_params_err_persists;
use crate::resolve::lemma_type_refs_mono;
use crate::resolve::resolve;
use crate::resolve::resolve_box;
use crate::resolve::resolve_delegate;
use crate::resolve::resolve_fields;
use crate::resolve::resolve_fn;
use crate::resolve::resolve_funcs;
use crate::resolve::resolve_list;
use crate::resolve::resolve_option;
use crate::resolve::resolve_params;
use crate::resolve::resolve_struct;
use crate::resolve::resolve_struct_ref;
use crate::resolve::struct_refs_in;
use crate::resolve::type_refs_in;
use crate::strings::contains_seq;
use crate::strings::contains_sub;
use crate::strings::dec_str;
use crate::tables::NameList;
use crate::tables::StructDecls;
use crate::tables::clone_src_fn;
use crate::tables::clone_src_struct;

/// The single failure of the core: an unsupported construct, carrying the
/// offending textual type expression or declaration shape.
#[derive(Debug, Clone, PartialEq)]
pub enum ParseError {
    UnsupportedType(String),
    NestedOptional(String),
    UnsupportedParameter(String),
    UnsupportedReturnType(String),
    UnsupportedFields(String),
}

impl View for ParseError {
    type V = ErrV;

    open spec fn view(&self) -> ErrV {
        match self {
            ParseError::UnsupportedType(s) => ErrV::UnsupportedType(s@),
            ParseError::NestedOptional(s) => ErrV::NestedOptional(s@),
            ParseError::UnsupportedParameter(s) => ErrV::UnsupportedParameter(s@),
            ParseError::UnsupportedReturnType(s) => ErrV::UnsupportedReturnType(s@),
            ParseError::UnsupportedFields(s) => ErrV::UnsupportedFields(s@),
        }
    }
}

/// Mathematical value of an executable resolution result.
pub open spec fn result_view(r: Result<ApiType, ParseError>) -> Result<TypeV, ErrV> {
    match r {
        Ok(t) => Ok(t@),
        Err(e) => Err(e@),
    }
}

/// Mathematical value of an executable production result.
pub open spec fn opt_result_view(r: Result<Option<ApiType>, ParseError>) -> Result<
    Option<TypeV>,
    ErrV,
> {
    match r {
        Ok(Some(t)) => Ok(Some(t@)),
        Ok(Option::None) => Ok(Option::None),
        Err(e) => Err(e@),
    }
}

/// Mathematical value of a produced-or-absent type.
pub open spec fn opt_type_view(o: Option<ApiType>) -> Option<TypeV> {
    match o {
        Some(t) => Some(t@),
        Option::None => Option::None,
    }
}

/// References of a produced production result lie in `names`.
pub open spec fn opt_refs_in(r: Result<Option<ApiType>, ParseError>, names: Set<Seq<char>>) -> bool {
    match r {
        Ok(Some(t)) => type_refs_in(t@, names),
        _ => true,
    }
}

/// Total length of the field type expressions of a struct declaration;
/// bounds the recursion into any one field.
pub open spec fn field_len_sum(fields: Seq<SrcFieldV>) -> nat
    decreases fields.len(),
{
    if fields.len() == 0 {
        0
    } else {
        field_len_sum(fields.drop_last()) + fields.last().ty.len()
    }
}

proof fn lemma_field_le_sum(fields: Seq<SrcFieldV>, i: int)
    requires
        0 <= i < fields.len(),
    ensures
        fields[i].ty.len() <= field_len_sum(fields),
    decreases fields.len(),
{
    if i < fields.len() - 1 {
        lemma_field_le_sum(fields.drop_last(), i);
        assert(fields.drop_last()[i] == fields[i]);
    }
}

proof fn lemma_struct_refs_mono(s: StructV, s1: Set<Seq<char>>, s2: Set<Seq<char>>)
    requires
        struct_refs_in(s, s1),
        s1.subset_of(s2),
    ensures
        struct_refs_in(s, s2),
{
    assert forall|i: int| 0 <= i < s.fields.len() implies type_refs_in(
        #[trigger] s.fields[i].ty,
        s2,
    ) by {
        lemma_type_refs_mono(s.fields[i].ty, s1, s2);
    }
}

/// One resolution pass over one source file: the struct declarations, the
/// memoized pool, and the set of names whose resolution started.
pub struct Parser {
    src_struct_map: StructDecls,
    struct_pool: ApiStructPool,
    parsing_or_parsed_struct_names: NameList,
}

impl Parser {
    /// The struct declarations the pass works over.
    pub closed spec fn decls(&self) -> Map<Seq<char>, SrcStructV> {
        self.src_struct_map@
    }

    /// The struct pool built so far.
    pub closed spec fn pool(&self) -> Map<Seq<char>, StructV> {
        self.struct_pool@
    }

    /// The names whose resolution has started or finished.
    pub closed spec fn marked(&self) -> Set<Seq<char>> {
        self.parsing_or_parsed_struct_names@
    }

    /// Names whose resolution has started but not finished.
    pub open spec fn in_progress(&self) -> Set<Seq<char>> {
        self.marked().difference(self.pool().dom())
    }

    /// Declared struct names whose resolution has not started.
    pub open spec fn unparsed(&self) -> Set<Seq<char>> {
        self.decls().dom().difference(self.marked())
    }

    /// The pass invariant: marks lie among the declarations, the pool lies
    /// among the marks, and every pool entry is the resolution of its name
    /// with all its references among the marked names.
    pub closed spec fn wf(&self) -> bool {
        &&& self.decls().dom().finite()
        &&& self.marked().subset_of(self.decls().dom())
        &&& self.struct_pool.wf()
        &&& self.pool().dom().subset_of(self.marked())
        &&& forall|n: Seq<char>| #[trigger]
            self.pool().contains_key(n) ==> resolve_struct(self.decls(), n) == Ok::<
                StructV,
                ErrV,
            >(self.pool()[n])
        &&& forall|n: Seq<char>| #[trigger]
            self.pool().contains_key(n) ==> struct_refs_in(self.pool()[n], self.marked())
    }
}

/// How one resolution step may change the pass state: the declarations are
/// unchanged, marks only grow, the invariant holds, existing pool entries
/// are kept, and a new pool entry is only made for a previously unmarked
/// name.
pub open spec fn state_ok(pre: Parser, post: Parser) -> bool {
    &&& post.decls() == pre.decls()
    &&& pre.marked().subset_of(post.marked())
    &&& post.wf()
    &&& forall|n: Seq<char>| #[trigger]
        pre.pool().contains_key(n) ==> post.pool().contains_key(n) && post.pool()[n]
            == pre.pool()[n]
    &&& forall|n: Seq<char>|
        #[trigger] post.pool().contains_key(n) && !pre.pool().contains_key(n)
            ==> !pre.marked().contains(n)
}

proof fn lemma_state_ok_trans(a: Parser, b: Parser, c: Parser)
    requires
        state_ok(a, b),
        state_ok(b, c),
    ensures
        state_ok(a, c),
{
    assert forall|n: Seq<char>|
        #[trigger] c.pool().contains_key(n) && !a.pool().contains_key(n) implies !a.marked(
    ).contains(n) by {
        if b.pool().contains_key(n) {
        } else {
            assert(!b.marked().contains(n));
        }
    }
}

proof fn lemma_state_ok_unparsed(pre: Parser, post: Parser)
    requires
        pre.wf(),
        state_ok(pre, post),
    ensures
        post.unparsed().subset_of(pre.unparsed()),
        post.unparsed().len() <= pre.unparsed().len(),
        pre.unparsed().finite(),
{
    assert(post.unparsed().subset_of(pre.unparsed()));
    lemma_len_subset(pre.unparsed(), pre.decls().dom());
    lemma_len_subset(post.unparsed(), pre.unparsed());
}

/// Documentation lines become comment nodes, in order.
fn comments_of(v: &Vec<String>) -> (r: Vec<Comment>)
    ensures
        r@.map_values(|c: Comment| c@) == v@.map_values(|c: String| c@),
{
    let mut r: Vec<Comment> = Vec::new();
    let mut i: usize = 0;
    while i < v.len()
        invariant
            i <= v@.len(),
            r@.len() == i,
            forall|j: int| 0 <= j < i ==> r@[j]@ == v@[j]@,
        decreases v@.len() - i,
    {
        r.push(Comment(v[i].clone()));
        i += 1;
    }
    proof {
        assert(r@.map_values(|c: Comment| c@) =~= v@.map_values(|c: String| c@));
    }
    r
}

/// Whether a resolved node is the synchronous-return delegate.
fn is_sync_return(t: &ApiType) -> (r: bool)
    ensures
        r == (t@ == TypeV::Delegate(ApiTypeDelegate::SyncReturnVecU8)),
{
    match t {
        ApiType::Delegate(ApiTypeDelegate::SyncReturnVecU8) => true,
        ApiType::Delegate(_) => false,
        ApiType::Primitive(_) => false,
        ApiType::PrimitiveList(_) => false,
        ApiType::GeneralList(_) => false,
        ApiType::Boxed(_) => false,
        ApiType::Optional(_) => false,
        ApiType::StructRef(_) => false,
    }
}

proof fn lemma_view_cases(t: &ApiType)
    ensures
        (t@ is Primitive) == (t matches ApiType::Primitive(_)),
        (t@ is PrimitiveList) == (t matches ApiType::PrimitiveList(_)),
        (t@ is StructRef) == (t matches ApiType::StructRef(_)),
{
    match t {
        ApiType::Primitive(_) => {},
        ApiType::Delegate(_) => {},
        ApiType::PrimitiveList(_) => {},
        ApiType::GeneralList(_) => {},
        ApiType::Boxed(_) => {},
        ApiType::Optional(o) => {
            match o {
                ApiTypeOptional::Prim(_) => {},
                ApiTypeOptional::Ptr(_) => {},
            }
        },
        ApiType::StructRef(_) => {},
    }
}

impl Parser {
    /// Resolve one type expression to one type node, first-match-wins over
    /// the productions of the core.
    fn parse_type(&mut self, ty: &str) -> (r: Result<ApiType, ParseError>)
        requires
            old(self).wf(),
        ensures
            state_ok(*old(self), *final(self)),
            r is Ok ==> resolve(old(self).decls(), ty@) == result_view(r),
            r is Ok ==> type_refs_in(r->Ok_0@, final(self).marked()),
            r is Ok ==> final(self).in_progress() == old(self).in_progress(),
            decls_ok(old(self).decls()) ==> resolve(old(self).decls(), ty@) == result_view(r),
        decreases old(self).unparsed().len(), ty@.len(), 4int,
    {
        let ghost pre = *old(self);
        if let Some(p) = ApiTypePrimitive::try_from_rust_str(ty) {
            return Ok(ApiType::Primitive(p));
        }
        let r_delegate = self.try_parse_api_type_delegate(ty);
        match r_delegate {
            Err(e) => {
                return Err(e);
            },
            Ok(Some(t)) => {
                return Ok(t);
            },
            Ok(Option::None) => {},
        }
        proof {
            lemma_state_ok_unparsed(pre, *self);
        }
        let r_list = self.try_parse_list(ty);
        match r_list {
            Err(e) => {
                return Err(e);
            },
            Ok(Some(t)) => {
                return Ok(t);
            },
            Ok(Option::None) => {},
        }
        proof {
            lemma_state_ok_unparsed(pre, *self);
        }
        let r_box = self.try_parse_box(ty);
        match r_box {
            Err(e) => {
                return Err(e);
            },
            Ok(Some(t)) => {
                return Ok(t);
            },
            Ok(Option::None) => {},
        }
        proof {
            lemma_state_ok_unparsed(pre, *self);
        }
        let r_option = self.try_parse_option(ty);
        match r_option {
            Err(e) => {
                return Err(e);
            },
            Ok(Some(t)) => {
                return Ok(t);
            },
            Ok(Option::None) => {},
        }
        proof {
            lemma_state_ok_unparsed(pre, *self);
        }
        let r_struct = self.try_parse_struct(ty);
        match r_struct {
            Err(e) => Err(e),
            Ok(Some(t)) => Ok(t),
            Ok(Option::None) => Err(ParseError::UnsupportedType(ty.to_owned())),
        }
    }

    /// The delegate productions: the synchronous-return buffer, the string
    /// type, and a zero-copy buffer over a primitive list.
    fn try_parse_api_type_delegate(&mut self, ty: &str) -> (r: Result<Option<ApiType>, ParseError>)
        requires
            old(self).wf(),
        ensures
            state_ok(*old(self), *final(self)),
            r is Ok ==> resolve_delegate(old(self).decls(), ty@) == opt_result_view(r),
            r is Ok ==> opt_refs_in(r, final(self).marked()),
            r is Ok ==> final(self).in_progress() == old(self).in_progress(),
            decls_ok(old(self).decls()) ==> resolve_delegate(old(self).decls(), ty@)
                == opt_result_view(r),
        decreases old(self).unparsed().len(), ty@.len(), 3int,
    {
        if crate::strings::str_eq(ty, "SyncReturn<Vec<u8>>") {
            return Ok(Some(ApiType::Delegate(ApiTypeDelegate::SyncReturnVecU8)));
        }
        if crate::strings::str_eq(ty, "String") {
            return Ok(Some(ApiType::Delegate(ApiTypeDelegate::Str)));
        }
        let capture_zero_copy_buffer = GenericCapture::new("ZeroCopyBuffer");
        match capture_zero_copy_buffer.captures(ty) {
            Option::None => Ok(Option::None),
            Some(inner) => {
                proof {
                    lemma_captures_shorter("ZeroCopyBuffer"@, ty@);
                }
                let r_list = self.try_parse_list(inner.as_str());
                match r_list {
                    Err(e) => Err(e),
                    Ok(Some(t)) => {
                        proof {
                            lemma_view_cases(&t);
                        }
                        match t {
                            ApiType::PrimitiveList(pl) => Ok(
                                Some(
                                    ApiType::Delegate(
                                        ApiTypeDelegate::ZeroCopyBufferVecPrimitive(pl.primitive),
                                    ),
                                ),
                            ),
                            _ => Ok(Option::None),
                        }
                    },
                    Ok(Option::None) => Ok(Option::None),
                }
            },
        }
    }

    /// The list production.
    fn try_parse_list(&mut self, ty: &str) -> (r: Result<Option<ApiType>, ParseError>)
        requires
            old(self).wf(),
        ensures
            state_ok(*old(self), *final(self)),
            r is Ok ==> resolve_list(old(self).decls(), ty@) == opt_result_view(r),
            r is Ok ==> opt_refs_in(r, final(self).marked()),
            r is Ok ==> final(self).in_progress() == old(self).in_progress(),
            decls_ok(old(self).decls()) ==> resolve_list(old(self).decls(), ty@)
                == opt_result_view(r),
        decreases old(self).unparsed().len(), ty@.len(), 2int,
    {
        let capture_vec = GenericCapture::new("Vec");
        match capture_vec.captures(ty) {
            Option::None => Ok(Option::None),
            Some(inner) => {
                proof {
                    lemma_captures_shorter("Vec"@, ty@);
                }
                let r_inner = self.parse_type(inner.as_str());
                match r_inner {
                    Err(e) => Err(e),
                    Ok(t) => {
                        proof {
                            lemma_view_cases(&t);
                        }
                        match t {
                        ApiType::Primitive(p) => Ok(
                            Some(ApiType::PrimitiveList(ApiTypePrimitiveList { primitive: p })),
                        ),
                        others => Ok(
                            Some(
                                ApiType::GeneralList(Box::new(ApiTypeGeneralList { inner: others })),
                            ),
                        ),
                        }
                    },
                }
            },
        }
    }

    /// The indirection production.
    fn try_parse_box(&mut self, ty: &str) -> (r: Result<Option<ApiType>, ParseError>)
        requires
            old(self).wf(),
        ensures
            state_ok(*old(self), *final(self)),
            r is Ok ==> resolve_box(old(self).decls(), ty@) == opt_result_view(r),
            r is Ok ==> opt_refs_in(r, final(self).marked()),
            r is Ok ==> final(self).in_progress() == old(self).in_progress(),
            decls_ok(old(self).decls()) ==> resolve_box(old(self).decls(), ty@)
                == opt_result_view(r),
        decreases old(self).unparsed().len(), ty@.len(), 2int,
    {
        let capture_box = GenericCapture::new("Box");
        match capture_box.captures(ty) {
            Option::None => Ok(Option::None),
            Some(inner) => {
                proof {
                    lemma_captures_shorter("Box"@, ty@);
                }
                let r_inner = self.parse_type(inner.as_str());
                match r_inner {
                    Err(e) => Err(e),
                    Ok(t) => Ok(
                        Some(
                            ApiType::Boxed(
                                Box::new(ApiTypeBoxed { exist_in_real_api: true, inner: t }),
                            ),
                        ),
                    ),
                }
            },
        }
    }

    /// The optional production; a directly nested optional is a hard error.
    fn try_parse_option(&mut self, ty: &str) -> (r: Result<Option<ApiType>, ParseError>)
        requires
            old(self).wf(),
        ensures
            state_ok(*old(self), *final(self)),
            r is Ok ==> resolve_option(old(self).decls(), ty@) == opt_result_view(r),
            r is Ok ==> opt_refs_in(r, final(self).marked()),
            r is Ok ==> final(self).in_progress() == old(self).in_progress(),
            decls_ok(old(self).decls()) ==> resolve_option(old(self).decls(), ty@)
                == opt_result_view(r),
        decreases old(self).unparsed().len(), ty@.len(), 2int,
    {
        let capture_option = GenericCapture::new("Option");
        match capture_option.captures(ty) {
            Option::None => Ok(Option::None),
            Some(inner) => {
                proof {
                    lemma_captures_shorter("Option"@, ty@);
                }
                if let Some(inner_option) = capture_option.captures(inner.as_str()) {
                    return Err(ParseError::NestedOptional(inner_option));
                }
                let r_inner = self.parse_type(inner.as_str());
                match r_inner {
                    Err(e) => Err(e),
                    Ok(t) => {
                        proof {
                            lemma_view_cases(&t);
                            reveal_with_fuel(crate::api_types::type_view, 5);
                            reveal_with_fuel(crate::resolve::type_refs_in, 5);
                        }
                        match t {
                        ApiType::Primitive(prim) => Ok(
                            Some(ApiType::Optional(ApiTypeOptional::new_prim(prim))),
                        ),
                        ApiType::StructRef(st) => Ok(
                            Some(
                                ApiType::Optional(
                                    ApiTypeOptional::new_ptr(
                                        ApiType::Boxed(
                                            Box::new(
                                                ApiTypeBoxed {
                                                    inner: ApiType::StructRef(st),
                                                    exist_in_real_api: false,
                                                },
                                            ),
                                        ),
                                    ),
                                ),
                            ),
                        ),
                        other => Ok(Some(ApiType::Optional(ApiTypeOptional::new_ptr(other)))),
                        }
                    },
                }
            },
        }
    }

    /// The struct production: a known public struct name resolves to a
    /// reference, resolving the struct itself first if this name has not
    /// been seen before.
    fn try_parse_struct(&mut self, ty: &str) -> (r: Result<Option<ApiType>, ParseError>)
        requires
            old(self).wf(),
        ensures
            state_ok(*old(self), *final(self)),
            r is Ok ==> opt_result_view(r) == Ok::<Option<TypeV>, ErrV>(
                resolve_struct_ref(old(self).decls(), ty@),
            ),
            r is Ok ==> opt_refs_in(r, final(self).marked()),
            r is Ok ==> final(self).in_progress() == old(self).in_progress(),
            decls_ok(old(self).decls()) ==> r is Ok,
        decreases old(self).unparsed().len(), ty@.len(), 2int,
    {
        let ghost pre = *old(self);
        if !self.src_struct_map.contains(ty) {
            return Ok(Option::None);
        }
        if !self.parsing_or_parsed_struct_names.contains(ty) {
            self.parsing_or_parsed_struct_names.insert(String::from_str(ty));
            let ghost marked_state = *self;
            proof {
                pre.decls().dom().lemma_set_insert_diff_decreases(pre.marked(), ty@);
                assert(marked_state.unparsed() =~= pre.decls().dom().difference(
                    pre.marked().insert(ty@),
                ));
                assert forall|n: Seq<char>| #[trigger]
                    marked_state.pool().contains_key(n) implies struct_refs_in(
                    marked_state.pool()[n],
                    marked_state.marked(),
                ) by {
                    lemma_struct_refs_mono(pre.pool()[n], pre.marked(), marked_state.marked());
                }
                assert(marked_state.wf());
                assert(state_ok(pre, marked_state));
                assert(marked_state.in_progress() =~= pre.in_progress().insert(ty@));
            }
            let r_core = self.parse_struct_core(ty);
            match r_core {
                Err(e) => {
                    proof {
                        lemma_state_ok_trans(pre, marked_state, *self);
                        if decls_ok(pre.decls()) {
                            assert(resolve_struct(pre.decls(), ty@) is Ok);
                        }
                    }
                    return Err(e);
                },
                Ok(api_struct) => {
                    let ghost before_insert = *self;
                    proof {
                        assert(!before_insert.pool().contains_key(ty@)) by {
                            if before_insert.pool().contains_key(ty@) {
                                if marked_state.pool().contains_key(ty@) {
                                    assert(pre.pool().contains_key(ty@));
                                    assert(pre.marked().contains(ty@));
                                } else {
                                    assert(!marked_state.marked().contains(ty@));
                                }
                            }
                        }
                    }
                    self.struct_pool.insert(api_struct);
                    proof {
                        assert(self.marked() == before_insert.marked());
                        assert(self.pool() == before_insert.pool().insert(ty@, api_struct@));
                        assert(self.pool().dom() =~= before_insert.pool().dom().insert(ty@));
                        assert forall|n: Seq<char>| #[trigger]
                            self.pool().contains_key(n) implies struct_refs_in(
                            self.pool()[n],
                            self.marked(),
                        ) by {
                            if n != ty@ {
                                assert(before_insert.pool().contains_key(n));
                            }
                        }
                        assert(self.wf());
                        lemma_state_ok_trans(pre, marked_state, before_insert);
                        assert(state_ok(pre, *self));
                        assert(before_insert.in_progress() == marked_state.in_progress());
                        assert(self.in_progress() =~= before_insert.in_progress().remove(ty@));
                        assert(!pre.in_progress().contains(ty@));
                        assert(self.in_progress() =~= pre.in_progress());
                    }
                },
            }
        }
        Ok(Some(ApiType::StructRef(ApiTypeStructRef { name: String::from_str(ty) })))
    }

    /// Resolve the fields of a struct declaration in order and build its
    /// pool node. The name must already be marked: this is what stops a
    /// self- or mutually-referential struct from recursing without bound.
    #[verifier::loop_isolation(false)]
    fn parse_struct_core(&mut self, ty: &str) -> (r: Result<ApiStruct, ParseError>)
        requires
            old(self).wf(),
            old(self).decls().contains_key(ty@),
            old(self).marked().contains(ty@),
        ensures
            state_ok(*old(self), *final(self)),
            r is Ok ==> resolve_struct(old(self).decls(), ty@) == Ok::<StructV, ErrV>(r->Ok_0@),
            r is Ok ==> struct_refs_in(r->Ok_0@, final(self).marked()),
            r is Ok ==> r->Ok_0@.name == ty@,
            r is Ok ==> final(self).in_progress() == old(self).in_progress(),
            decls_ok(old(self).decls()) ==> r is Ok && resolve_struct(old(self).decls(), ty@)
                == Ok::<StructV, ErrV>(r->Ok_0@),
        decreases old(self).unparsed().len(), field_len_sum(
            old(self).decls()[ty@].fields,
        ) + 1, 0int,
    {
        let ghost pre = *old(self);
        proof {
            self.src_struct_map.lemma_keys();
        }
        let item_struct = match self.src_struct_map.get_clone(ty) {
            Some(d) => d,
            Option::None => {
                proof {
                    assert(false);
                }
                return Err(ParseError::UnsupportedType(ty.to_owned()));
            },
        };
        let is_fields_named = match item_struct.fields_kind {
            SrcFieldsKind::Named => true,
            SrcFieldsKind::Unnamed => false,
            SrcFieldsKind::Unsupported => {
                return Err(ParseError::UnsupportedFields(ty.to_owned()));
            },
        };
        let mut fields: Vec<ApiField> = Vec::new();
        proof {
            assert(item_struct@.fields.take(0) =~= Seq::<SrcFieldV>::empty());
            assert(fields@.map_values(|f: ApiField| f@) =~= Seq::<FieldV>::empty());
        }
        let mut idx: usize = 0;
        while idx < item_struct.fields.len()
            invariant
                pre.wf(),
                pre.decls().contains_key(ty@),
                state_ok(pre, *self),
                self.in_progress() == pre.in_progress(),
                item_struct@ == pre.decls()[ty@],
                item_struct.fields_kind != SrcFieldsKind::Unsupported,
                idx <= item_struct.fields@.len(),
                resolve_fields(pre.decls(), item_struct@.fields.take(idx as int)) == Ok::<
                    Seq<FieldV>,
                    ErrV,
                >(fields@.map_values(|f: ApiField| f@)),
                forall|j: int|
                    0 <= j < fields@.len() ==> type_refs_in(
                        (#[trigger] fields@[j])@.ty,
                        self.marked(),
                    ),
            decreases item_struct.fields@.len() - idx,
        {
            let ghost loop_pre = *self;
            let f = &item_struct.fields[idx];
            let field_name: String = match &f.name {
                Some(n) => n.clone(),
                Option::None => {
                    let mut s = String::from_str("field");
                    let d = dec_str(idx);
                    s.append(d.as_str());
                    s
                },
            };
            proof {
                assert(item_struct@.fields[idx as int] == item_struct.fields@[idx as int]@);
                assert(field_name@ == field_name_of(item_struct@.fields[idx as int].name, idx as int));
                lemma_state_ok_unparsed(pre, *self);
                lemma_field_le_sum(pre.decls()[ty@].fields, idx as int);
                assert(self.unparsed().len() <= pre.unparsed().len());
                assert(f.ty@ == pre.decls()[ty@].fields[idx as int].ty);
                assert(f.ty@.len() < field_len_sum(pre.decls()[ty@].fields) + 1);
            }
            let r_field = self.parse_type(f.ty.as_str());
            let field_type = match r_field {
                Ok(t) => t,
                Err(e) => {
                    proof {
                        lemma_state_ok_trans(pre, loop_pre, *self);
                        if decls_ok(pre.decls()) {
                            assert(item_struct@.fields.take(idx as int + 1).drop_last()
                                =~= item_struct@.fields.take(idx as int));
                            assert(item_struct@.fields.take(idx as int + 1).last()
                                == item_struct@.fields[idx as int]);
                            lemma_fields_err_persists(
                                pre.decls(),
                                item_struct@.fields,
                                idx as int + 1,
                            );
                            assert(resolve_struct(pre.decls(), ty@) is Err);
                            assert(false);
                        }
                    }
                    return Err(e);
                },
            };
            let comments = comments_of(&f.comments);
            let ghost prev_fields = fields@;
            fields.push(ApiField { name: ApiIdent::new(field_name), ty: field_type, comments });
            proof {
                lemma_state_ok_trans(pre, loop_pre, *self);
                assert(item_struct@.fields.take(idx as int + 1).drop_last()
                    =~= item_struct@.fields.take(idx as int));
                assert(item_struct@.fields.take(idx as int + 1).last()
                    == item_struct@.fields[idx as int]);
                assert(fields@.drop_last() =~= prev_fields);
                assert(fields@.map_values(|ff: ApiField| ff@) =~= prev_fields.map_values(
                    |ff: ApiField| ff@,
                ).push(fields@.last()@));
                assert forall|j: int| 0 <= j < fields@.len() implies type_refs_in(
                    (#[trigger] fields@[j])@.ty,
                    self.marked(),
                ) by {
                    if j < fields@.len() - 1 {
                        lemma_type_refs_mono(fields@[j]@.ty, loop_pre.marked(), self.marked());
                    }
                }
            }
            idx += 1;
        }
        let name = item_struct.name.clone();
        let comments = comments_of(&item_struct.comments);
        let result = ApiStruct { name, fields, is_fields_named, comments };
        proof {
            assert(item_struct@.fields.take(item_struct.fields@.len() as int)
                =~= item_struct@.fields);
            assert(result@.name == ty@);
            assert(resolve_struct(pre.decls(), ty@) == Ok::<StructV, ErrV>(result@));
        }
        Ok(result)
    }

    /// A stream-channel-shaped parameter: resolve its inner expression as
    /// the function's output.
    fn try_parse_stream_sink(&mut self, ty: &str) -> (r: Result<Option<ApiType>, ParseError>)
        requires
            old(self).wf(),
        ensures
            state_ok(*old(self), *final(self)),
            match r {
                Ok(Some(t)) => captures_spec("StreamSink"@, ty@) is Some && resolve(
                    old(self).decls(),
                    captures_spec("StreamSink"@, ty@)->Some_0,
                ) == Ok::<TypeV, ErrV>(t@) && type_refs_in(t@, final(self).marked())
                    && final(self).in_progress() == old(self).in_progress(),
                Ok(Option::None) => captures_spec("StreamSink"@, ty@) is None
                    && final(self).in_progress() == old(self).in_progress(),
                Err(e) => captures_spec("StreamSink"@, ty@) is Some,
            },
            decls_ok(old(self).decls()) ==> match r {
                Ok(Some(t)) => resolve(
                    old(self).decls(),
                    captures_spec("StreamSink"@, ty@)->Some_0,
                ) == Ok::<TypeV, ErrV>(t@),
                Ok(Option::None) => true,
                Err(e) => resolve(old(self).decls(), captures_spec("StreamSink"@, ty@)->Some_0)
                    == Err::<TypeV, ErrV>(e@),
            },
    {
        let capture_stream_sink = GenericCapture::new("StreamSink");
        match capture_stream_sink.captures(ty) {
            Option::None => Ok(Option::None),
            Some(inner) => {
                let r_inner = self.parse_type(inner.as_str());
                match r_inner {
                    Ok(t) => Ok(Some(t)),
                    Err(e) => Err(e),
                }
            },
        }
    }

    /// Resolve one function declaration: walk the parameters, re-interpret
    /// a stream-channel parameter as the output, then derive the output and
    /// mode from the declared `Result`-shaped return type if no stream
    /// channel was seen.
    #[verifier::loop_isolation(false)]
    fn parse_function(&mut self, func: &SrcFn) -> (r: Result<ApiFunc, ParseError>)
        requires
            old(self).wf(),
        ensures
            state_ok(*old(self), *final(self)),
            r is Ok ==> resolve_fn(old(self).decls(), func@) == Ok::<FuncV, ErrV>(r->Ok_0@),
            r is Ok ==> func_refs_in(r->Ok_0@, final(self).marked()),
            r is Ok ==> final(self).in_progress() == old(self).in_progress(),
            decls_ok(old(self).decls()) ==> match r {
                Ok(f) => resolve_fn(old(self).decls(), func@) == Ok::<FuncV, ErrV>(f@),
                Err(e) => resolve_fn(old(self).decls(), func@) == Err::<FuncV, ErrV>(e@),
            },
    {
        let ghost pre = *old(self);
        let ghost pv = func@.params;
        let mut inputs: Vec<ApiField> = Vec::new();
        let mut output: Option<ApiType> = Option::None;
        proof {
            assert(pv.take(0) =~= Seq::<crate::decl::SrcParamV>::empty());
            assert(inputs@.map_values(|f: ApiField| f@) =~= Seq::<FieldV>::empty());
        }
        let mut i: usize = 0;
        while i < func.params.len()
            invariant
                pre.wf(),
                state_ok(pre, *self),
                self.in_progress() == pre.in_progress(),
                pv == func@.params,
                i <= func.params@.len(),
                pv.len() == func.params@.len(),
                resolve_params(pre.decls(), pv.take(i as int)) == Ok::<
                    (Seq<FieldV>, Option<TypeV>),
                    ErrV,
                >((inputs@.map_values(|f: ApiField| f@), opt_type_view(output))),
                forall|j: int|
                    0 <= j < inputs@.len() ==> type_refs_in(
                        (#[trigger] inputs@[j])@.ty,
                        self.marked(),
                    ),
                match output {
                    Some(t) => type_refs_in(t@, self.marked()),
                    Option::None => true,
                },
            decreases func.params@.len() - i,
        {
            let ghost loop_pre = *self;
            let p = &func.params[i];
            proof {
                assert(pv[i as int] == func.params@[i as int]@);
                assert(pv.take(i as int + 1).drop_last() =~= pv.take(i as int));
                assert(pv.take(i as int + 1).last() == pv[i as int]);
            }
            let pname: String = match &p.name {
                Some(n) => n.clone(),
                Option::None => {
                    proof {
                        lemma_params_err_persists(pre.decls(), pv, i as int + 1);
                    }
                    return Err(ParseError::UnsupportedParameter(p.ty.clone()));
                },
            };
            let r_sink = self.try_parse_stream_sink(p.ty.as_str());
            match r_sink {
                Err(e) => {
                    proof {
                        lemma_state_ok_trans(pre, loop_pre, *self);
                        if decls_ok(pre.decls()) {
                            lemma_params_err_persists(pre.decls(), pv, i as int + 1);
                        }
                    }
                    return Err(e);
                },
                Ok(Some(t)) => {
                    output = Some(t);
                    proof {
                        lemma_state_ok_trans(pre, loop_pre, *self);
                        assert forall|j: int| 0 <= j < inputs@.len() implies type_refs_in(
                            (#[trigger] inputs@[j])@.ty,
                            self.marked(),
                        ) by {
                            lemma_type_refs_mono(inputs@[j]@.ty, loop_pre.marked(), self.marked());
                        }
                    }
                },
                Ok(Option::None) => {
                    let r_ty = self.parse_type(p.ty.as_str());
                    match r_ty {
                        Err(e) => {
                            proof {
                                lemma_state_ok_trans(pre, loop_pre, *self);
                                if decls_ok(pre.decls()) {
                                    lemma_params_err_persists(pre.decls(), pv, i as int + 1);
                                }
                            }
                            return Err(e);
                        },
                        Ok(t) => {
                            let comments = comments_of(&p.comments);
                            let ghost prev_inputs = inputs@;
                            inputs.push(
                                ApiField { name: ApiIdent::new(pname), ty: t, comments },
                            );
                            proof {
                                lemma_state_ok_trans(pre, loop_pre, *self);
                                assert(inputs@.drop_last() =~= prev_inputs);
                                assert(inputs@.map_values(|ff: ApiField| ff@)
                                    =~= prev_inputs.map_values(|ff: ApiField| ff@).push(
                                    inputs@.last()@,
                                ));
                                assert forall|j: int| 0 <= j < inputs@.len() implies type_refs_in(
                                    (#[trigger] inputs@[j])@.ty,
                                    self.marked(),
                                ) by {
                                    if j < inputs@.len() - 1 {
                                        lemma_type_refs_mono(
                                            inputs@[j]@.ty,
                                            loop_pre.marked(),
                                            self.marked(),
                                        );
                                    }
                                }
                                match &output {
                                    Some(t2) => {
                                        lemma_type_refs_mono(
                                            t2@,
                                            loop_pre.marked(),
                                            self.marked(),
                                        );
                                    },
                                    Option::None => {},
                                }
                            }
                        },
                    }
                },
            }
            i += 1;
        }
        proof {
            assert(pv.take(pv.len() as int) =~= pv);
        }
        let func_comments = comments_of(&func.comments);
        match output {
            Some(out_t) => {
                let result = ApiFunc {
                    name: func.name.clone(),
                    inputs,
                    output: out_t,
                    mode: ApiFuncMode::Stream,
                    comments: func_comments,
                };
                Ok(result)
            },
            Option::None => {
                let rt = match &func.ret {
                    Some(rt) => rt,
                    Option::None => {
                        let empty_msg = String::new();
                        proof {
                            assert(empty_msg@ =~= Seq::<char>::empty());
                        }
                        return Err(ParseError::UnsupportedReturnType(empty_msg));
                    },
                };
                let capture_result = GenericCapture::new("Result");
                match capture_result.captures(rt.as_str()) {
                    Option::None => Err(ParseError::UnsupportedReturnType(rt.clone())),
                    Some(payload) => {
                        let ghost mid = *self;
                        let r_out = self.parse_type(payload.as_str());
                        match r_out {
                            Err(e) => {
                                proof {
                                    lemma_state_ok_trans(pre, mid, *self);
                                }
                                Err(e)
                            },
                            Ok(t) => {
                                let mode = if is_sync_return(&t) {
                                    ApiFuncMode::Sync
                                } else {
                                    ApiFuncMode::Normal
                                };
                                let result = ApiFunc {
                                    name: func.name.clone(),
                                    inputs,
                                    output: t,
                                    mode,
                                    comments: func_comments,
                                };
                                proof {
                                    lemma_state_ok_trans(pre, mid, *self);
                                    assert forall|j: int|
                                        0 <= j < inputs@.len() implies type_refs_in(
                                        (#[trigger] inputs@[j])@.ty,
                                        self.marked(),
                                    ) by {
                                        lemma_type_refs_mono(
                                            inputs@[j]@.ty,
                                            mid.marked(),
                                            self.marked(),
                                        );
                                    }
                                }
                                Ok(result)
                            },
                        }
                    },
                }
            },
        }
    }
}

/// The public functions in declaration order.
pub open spec fn extract_fns(items: Seq<SrcItem>) -> Seq<SrcFnV>
    decreases items.len(),
{
    if items.len() == 0 {
        Seq::empty()
    } else {
        let rest = extract_fns(items.drop_last());
        match items.last().decl {
            SrcDecl::Fn(f) => if items.last().is_public {
                rest.push(f@)
            } else {
                rest
            },
            SrcDecl::Struct(_) => rest,
        }
    }
}

/// The public structs keyed by name, a later declaration shadowing an
/// earlier one of the same name.
pub open spec fn extract_structs(items: Seq<SrcItem>) -> Map<Seq<char>, SrcStructV>
    decreases items.len(),
{
    if items.len() == 0 {
        Map::empty()
    } else {
        let rest = extract_structs(items.drop_last());
        match items.last().decl {
            SrcDecl::Struct(s) => if items.last().is_public {
                rest.insert(s.name@, s@)
            } else {
                rest
            },
            SrcDecl::Fn(_) => rest,
        }
    }
}

/// Filter a parsed file down to its public top-level functions and structs.
pub fn extract_items_from_file(items: &Vec<SrcItem>) -> (r: (Vec<SrcFn>, StructDecls))
    ensures
        r.0@.map_values(|f: SrcFn| f@) == extract_fns(items@),
        r.1@ == extract_structs(items@),
{
    let mut src_fns: Vec<SrcFn> = Vec::new();
    let mut src_struct_map = StructDecls::new();
    let mut i: usize = 0;
    while i < items.len()
        invariant
            i <= items@.len(),
            src_fns@.map_values(|f: SrcFn| f@) == extract_fns(items@.take(i as int)),
            src_struct_map@ == extract_structs(items@.take(i as int)),
        decreases items@.len() - i,
    {
        proof {
            assert(items@.take(i as int + 1).drop_last() =~= items@.take(i as int));
            assert(items@.take(i as int + 1).last() == items@[i as int]);
        }
        let item = &items[i];
        match &item.decl {
            SrcDecl::Fn(f) => {
                if item.is_public {
                    let ghost prev_fns = src_fns@;
                    src_fns.push(clone_src_fn(f));
                    proof {
                        assert(src_fns@.drop_last() =~= prev_fns);
                        assert(src_fns@.map_values(|ff: SrcFn| ff@) =~= prev_fns.map_values(
                            |ff: SrcFn| ff@,
                        ).push(src_fns@.last()@));
                    }
                }
            },
            SrcDecl::Struct(s) => {
                if item.is_public {
                    src_struct_map.insert(clone_src_struct(s));
                }
            },
        }
        i += 1;
    }
    proof {
        assert(items@.take(items@.len() as int) =~= items@);
    }
    (src_fns, src_struct_map)
}

/// Resolve one parsed source file into its interface representation: every
/// public function in declaration order, the file-wide struct pool, and the
/// capability flag set when the raw source mentions the reserved executor
/// marker.
#[verifier::loop_isolation(false)]
pub fn parse(source_rust_content: &str, items: &Vec<SrcItem>) -> (r: Result<ApiFile, ParseError>)
    ensures
        r is Ok ==> resolve_funcs(extract_structs(items@), extract_fns(items@)) == Ok::<
            Seq<FuncV>,
            ErrV,
        >(r->Ok_0@.funcs),
        r is Ok ==> r->Ok_0@.has_executor == contains_seq(
            source_rust_content@,
            "FLUTTER_RUST_BRIDGE_HANDLER"@,
        ),
        r is Ok ==> r->Ok_0.struct_pool.wf(),
        r is Ok ==> forall|n: Seq<char>| #[trigger]
            r->Ok_0@.struct_pool.contains_key(n) ==> extract_structs(items@).contains_key(n)
                && resolve_struct(extract_structs(items@), n) == Ok::<StructV, ErrV>(
                r->Ok_0@.struct_pool[n],
            ),
        r is Ok ==> forall|j: int|
            0 <= j < r->Ok_0@.funcs.len() ==> func_refs_in(
                #[trigger] r->Ok_0@.funcs[j],
                r->Ok_0@.struct_pool.dom(),
            ),
        r is Ok ==> forall|n: Seq<char>| #[trigger]
            r->Ok_0@.struct_pool.contains_key(n) ==> struct_refs_in(
                r->Ok_0@.struct_pool[n],
                r->Ok_0@.struct_pool.dom(),
            ),
        decls_ok(extract_structs(items@)) ==> match r {
            Ok(file) => resolve_funcs(extract_structs(items@), extract_fns(items@)) == Ok::<
                Seq<FuncV>,
                ErrV,
            >(file@.funcs),
            Err(e) => resolve_funcs(extract_structs(items@), extract_fns(items@)) == Err::<
                Seq<FuncV>,
                ErrV,
            >(e@),
        },
{
    let (src_fns, src_struct_map) = extract_items_from_file(items);
    proof {
        src_struct_map.lemma_keys();
    }
    let mut parser = Parser {
        src_struct_map,
        struct_pool: ApiStructPool::new(),
        parsing_or_parsed_struct_names: NameList::new(),
    };
    let ghost decls = extract_structs(items@);
    let ghost fv = extract_fns(items@);
    proof {
        assert(parser.decls() == decls);
        assert(parser.marked() =~= Set::<Seq<char>>::empty());
        assert(parser.pool() =~= Map::<Seq<char>, StructV>::empty());
        assert(parser.pool().dom() =~= Set::<Seq<char>>::empty());
        assert(parser.wf());
        assert(parser.in_progress() =~= Set::<Seq<char>>::empty());
    }
    let ghost start = parser;
    let mut funcs: Vec<ApiFunc> = Vec::new();
    proof {
        assert(fv.take(0) =~= Seq::<SrcFnV>::empty());
        assert(funcs@.map_values(|f: ApiFunc| f@) =~= Seq::<FuncV>::empty());
    }
    let mut i: usize = 0;
    while i < src_fns.len()
        invariant
            start.wf(),
            start.decls() == decls,
            start.in_progress() =~= Set::<Seq<char>>::empty(),
            state_ok(start, parser),
            parser.in_progress() == start.in_progress(),
            i <= src_fns@.len(),
            src_fns@.map_values(|f: SrcFn| f@) == fv,
            fv.len() == src_fns@.len(),
            resolve_funcs(decls, fv.take(i as int)) == Ok::<Seq<FuncV>, ErrV>(
                funcs@.map_values(|f: ApiFunc| f@),
            ),
            forall|j: int|
                0 <= j < funcs@.len() ==> func_refs_in((#[trigger] funcs@[j])@, parser.marked()),
        decreases src_fns@.len() - i,
    {
        let ghost loop_pre = parser;
        proof {
            assert(fv.take(i as int + 1).drop_last() =~= fv.take(i as int));
            assert(fv.take(i as int + 1).last() == fv[i as int]);
            assert(fv[i as int] == src_fns@[i as int]@);
        }
        let r_fn = parser.parse_function(&src_fns[i]);
        match r_fn {
            Err(e) => {
                proof {
                    lemma_state_ok_trans(start, loop_pre, parser);
                    if decls_ok(decls) {
                        lemma_funcs_err_persists(decls, fv, i as int + 1);
                    }
                }
                return Err(e);
            },
            Ok(f) => {
                let ghost prev_funcs = funcs@;
                funcs.push(f);
                proof {
                    lemma_state_ok_trans(start, loop_pre, parser);
                    assert(funcs@.drop_last() =~= prev_funcs);
                    assert(funcs@.map_values(|ff: ApiFunc| ff@) =~= prev_funcs.map_values(
                        |ff: ApiFunc| ff@,
                    ).push(funcs@.last()@));
                    assert forall|j: int| 0 <= j < funcs@.len() implies func_refs_in(
                        (#[trigger] funcs@[j])@,
                        parser.marked(),
                    ) by {
                        if j < funcs@.len() - 1 {
                            lemma_func_refs_mono(funcs@[j]@, loop_pre.marked(), parser.marked());
                        }
                    }
                    assert(resolve_funcs(decls, fv.take(i as int + 1)) == Ok::<Seq<FuncV>, ErrV>(
                        funcs@.map_values(|ff: ApiFunc| ff@),
                    ));
                }
            },
        }
        i += 1;
    }
    proof {
        assert(fv.take(fv.len() as int) =~= fv);
    }
    let has_executor = contains_sub(source_rust_content, "FLUTTER_RUST_BRIDGE_HANDLER");
    let ghost fin = parser;
    let Parser { src_struct_map: _, struct_pool, parsing_or_parsed_struct_names: _ } = parser;
    let file = ApiFile { funcs, struct_pool, has_executor };
    proof {
        assert forall|x: Seq<char>| fin.marked().contains(x) implies fin.pool().dom().contains(
            x,
        ) by {
            if !fin.pool().dom().contains(x) {
                assert(fin.in_progress().contains(x));
                assert(start.in_progress().contains(x));
            }
        }
        assert(fin.marked() =~= fin.pool().dom());
        assert(file@.struct_pool == fin.pool());
        assert forall|j: int| 0 <= j < file@.funcs.len() implies func_refs_in(
            #[trigger] file@.funcs[j],
            file@.struct_pool.dom(),
        ) by {
            assert(file@.funcs[j] == funcs@[j]@);
        }
    }
    Ok(file)
}

proof fn lemma_func_refs_mono(f: FuncV, s1: Set<Seq<char>>, s2: Set<Seq<char>>)
    requires
        func_refs_in(f, s1),
        s1.subset_of(s2),
    ensures
        func_refs_in(f, s2),
{
    lemma_type_refs_mono(f.output, s1, s2);
    assert forall|i: int| 0 <= i < f.inputs.len() implies type_refs_in(
        #[trigger] f.inputs[i].ty,
        s2,
    ) by {
        lemma_type_refs_mono(f.inputs[i].ty, s1, s2);
    }
}

} // verus!
