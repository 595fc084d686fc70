use vstd::prelude::*;

verus! {

use crate::api_types::ApiFuncMode;
use crate::api_types::ApiTypeDelegate;
use crate::api_types::FieldV;
use crate::api_types::FuncV;
use crate::api_types::OptionalV;
use crate::api_types::StructV;
use crate::api_types::TypeV;
use crate::api_types::prim_of;
use crate::decl::SrcFieldV;
use crate::decl::SrcFieldsKind;
use crate::decl::SrcFnV;
use crate::decl::SrcParamV;
use crate::decl::SrcStructV;
use crate::matcher::captures_spec;
use crate::strings::dec_of;

/// The failure value of the core, carrying the offending text.
pub enum ErrV {
    UnsupportedType(Seq<char>),
    NestedOptional(Seq<char>),
    UnsupportedParameter(Seq<char>),
    UnsupportedReturnType(Seq<char>),
    UnsupportedFields(Seq<char>),
}

/// The list production: a `Vec`-shaped expression becomes a primitive list
/// when its element is a primitive, any other list otherwise.
pub open spec fn resolve_list(decls: Map<Seq<char>, SrcStructV>, ty: Seq<char>) -> Result<
    Option<TypeV>,
    ErrV,
>
    decreases ty.len(), 0int,
{
    match captures_spec("Vec"@, ty) {
        Some(inner) => match resolve(decls, inner) {
            Ok(TypeV::Primitive(p)) => Ok(Some(TypeV::PrimitiveList(p))),
            Ok(t) => Ok(Some(TypeV::GeneralList(Box::new(t)))),
            Err(e) => Err(e),
        },
        Option::None => Ok(Option::None),
    }
}

/// The delegate productions, tried in order: the synchronous-return byte
/// buffer, the string type, and a zero-copy buffer whose inner expression
/// resolves to a primitive list.
pub open spec fn resolve_delegate(decls: Map<Seq<char>, SrcStructV>, ty: Seq<char>) -> Result<
    Option<TypeV>,
    ErrV,
>
    decreases ty.len(), 1int,
{
    if ty == "SyncReturn<Vec<u8>>"@ {
        Ok(Some(TypeV::Delegate(ApiTypeDelegate::SyncReturnVecU8)))
    } else if ty == "String"@ {
        Ok(Some(TypeV::Delegate(ApiTypeDelegate::Str)))
    } else {
        match captures_spec("ZeroCopyBuffer"@, ty) {
            Some(inner) => match resolve_list(decls, inner) {
                Ok(Some(TypeV::PrimitiveList(p))) => Ok(
                    Some(TypeV::Delegate(ApiTypeDelegate::ZeroCopyBufferVecPrimitive(p))),
                ),
                Ok(_) => Ok(Option::None),
                Err(e) => Err(e),
            },
            Option::None => Ok(Option::None),
        }
    }
}

/// The indirection production: a `Box`-shaped expression, with the flag that
/// records indirection the user wrote.
pub open spec fn resolve_box(decls: Map<Seq<char>, SrcStructV>, ty: Seq<char>) -> Result<
    Option<TypeV>,
    ErrV,
>
    decreases ty.len(), 0int,
{
    match captures_spec("Box"@, ty) {
        Some(inner) => match resolve(decls, inner) {
            Ok(t) => Ok(Some(TypeV::Boxed(true, Box::new(t)))),
            Err(e) => Err(e),
        },
        Option::None => Ok(Option::None),
    }
}

/// The optional production: a nested optional is a hard error; a primitive
/// is inline-nullable; a struct reference gains a synthesized box; anything
/// else is wrapped directly as a nullable pointer.
pub open spec fn resolve_option(decls: Map<Seq<char>, SrcStructV>, ty: Seq<char>) -> Result<
    Option<TypeV>,
    ErrV,
>
    decreases ty.len(), 0int,
{
    match captures_spec("Option"@, ty) {
        Some(inner) => match captures_spec("Option"@, inner) {
            Some(ii) => Err(ErrV::NestedOptional(ii)),
            Option::None => match resolve(decls, inner) {
                Ok(TypeV::Primitive(p)) => Ok(Some(TypeV::Optional(OptionalV::Prim(p)))),
                Ok(TypeV::StructRef(n)) => Ok(
                    Some(
                        TypeV::Optional(
                            OptionalV::Ptr(
                                Box::new(TypeV::Boxed(false, Box::new(TypeV::StructRef(n)))),
                            ),
                        ),
                    ),
                ),
                Ok(t) => Ok(Some(TypeV::Optional(OptionalV::Ptr(Box::new(t))))),
                Err(e) => Err(e),
            },
        },
        Option::None => Ok(Option::None),
    }
}

/// The struct production: an expression that exactly names a known public
/// struct becomes a by-name reference.
pub open spec fn resolve_struct_ref(decls: Map<Seq<char>, SrcStructV>, ty: Seq<char>) -> Option<
    TypeV,
> {
    if decls.contains_key(ty) {
        Some(TypeV::StructRef(ty))
    } else {
        Option::None
    }
}

/// What one type expression resolves to: first-match-wins over primitives,
/// delegates, lists, indirection, optionals, and struct references, and an
/// unsupported-construct failure when nothing matches.
pub open spec fn resolve(decls: Map<Seq<char>, SrcStructV>, ty: Seq<char>) -> Result<TypeV, ErrV>
    decreases ty.len(), 2int,
{
    if prim_of(ty) is Some {
        Ok(TypeV::Primitive(prim_of(ty)->Some_0))
    } else {
        match resolve_delegate(decls, ty) {
            Err(e) => Err(e),
            Ok(Some(t)) => Ok(t),
            Ok(Option::None) => match resolve_list(decls, ty) {
                Err(e) => Err(e),
                Ok(Some(t)) => Ok(t),
                Ok(Option::None) => match resolve_box(decls, ty) {
                    Err(e) => Err(e),
                    Ok(Some(t)) => Ok(t),
                    Ok(Option::None) => match resolve_option(decls, ty) {
                        Err(e) => Err(e),
                        Ok(Some(t)) => Ok(t),
                        Ok(Option::None) => match resolve_struct_ref(decls, ty) {
                            Some(t) => Ok(t),
                            Option::None => Err(ErrV::UnsupportedType(ty)),
                        },
                    },
                },
            },
        }
    }
}

/// The name a field resolves under: its own, or a positional one.
pub open spec fn field_name_of(name: Option<Seq<char>>, idx: int) -> Seq<char> {
    match name {
        Some(n) => n,
        Option::None => "field"@ + dec_of(idx as nat),
    }
}

/// The fields of a struct, resolved in declaration order; the first failing
/// field aborts.
pub open spec fn resolve_fields(decls: Map<Seq<char>, SrcStructV>, fields: Seq<SrcFieldV>) -> Result<
    Seq<FieldV>,
    ErrV,
>
    decreases fields.len(),
{
    if fields.len() == 0 {
        Ok(Seq::empty())
    } else {
        match resolve_fields(decls, fields.drop_last()) {
            Err(e) => Err(e),
            Ok(fs) => {
                let f = fields.last();
                match resolve(decls, f.ty) {
                    Ok(t) => Ok(
                        fs.push(
                            FieldV {
                                name: field_name_of(f.name, fields.len() - 1),
                                ty: t,
                                comments: f.comments,
                            },
                        ),
                    ),
                    Err(e) => Err(e),
                }
            },
        }
    }
}

/// What a known struct name resolves to: its fields through the type
/// resolver, with the container shape recorded; a container that is neither
/// fully named nor fully positional is an error.
pub open spec fn resolve_struct(decls: Map<Seq<char>, SrcStructV>, name: Seq<char>) -> Result<
    StructV,
    ErrV,
> {
    let d = decls[name];
    if d.fields_kind == SrcFieldsKind::Unsupported {
        Err(ErrV::UnsupportedFields(name))
    } else {
        match resolve_fields(decls, d.fields) {
            Err(e) => Err(e),
            Ok(fs) => Ok(
                StructV {
                    name: d.name,
                    fields: fs,
                    is_fields_named: d.fields_kind == SrcFieldsKind::Named,
                    comments: d.comments,
                },
            ),
        }
    }
}

/// Every declared struct resolves.
pub open spec fn decls_ok(decls: Map<Seq<char>, SrcStructV>) -> bool {
    forall|n: Seq<char>| decls.contains_key(n) ==> (#[trigger] resolve_struct(decls, n)) is Ok
}

/// The parameter walk: parameters are resolved in order into the input list,
/// except that a stream-channel-shaped parameter is re-interpreted as the
/// function's output; a parameter without a simple bound name is an error.
pub open spec fn resolve_params(decls: Map<Seq<char>, SrcStructV>, params: Seq<SrcParamV>) -> Result<
    (Seq<FieldV>, Option<TypeV>),
    ErrV,
>
    decreases params.len(),
{
    if params.len() == 0 {
        Ok((Seq::empty(), Option::None))
    } else {
        match resolve_params(decls, params.drop_last()) {
            Err(e) => Err(e),
            Ok((ins, out)) => {
                let p = params.last();
                match p.name {
                    Option::None => Err(ErrV::UnsupportedParameter(p.ty)),
                    Some(n) => match captures_spec("StreamSink"@, p.ty) {
                        Some(inner) => match resolve(decls, inner) {
                            Ok(t) => Ok((ins, Some(t))),
                            Err(e) => Err(e),
                        },
                        Option::None => match resolve(decls, p.ty) {
                            Ok(t) => Ok(
                                (ins.push(FieldV { name: n, ty: t, comments: p.comments }), out),
                            ),
                            Err(e) => Err(e),
                        },
                    },
                }
            },
        }
    }
}

/// What one function declaration resolves to. A stream-channel parameter
/// fixes the output and the `Stream` mode and the declared return type is
/// not consulted; otherwise the return type must be `Result`-shaped, its
/// payload is the output, and the mode is `Sync` exactly when that payload
/// is the synchronous-return delegate.
pub open spec fn resolve_fn(decls: Map<Seq<char>, SrcStructV>, f: SrcFnV) -> Result<FuncV, ErrV> {
    match resolve_params(decls, f.params) {
        Err(e) => Err(e),
        Ok((ins, out)) => match out {
            Some(t) => Ok(
                FuncV {
                    name: f.name,
                    inputs: ins,
                    output: t,
                    mode: ApiFuncMode::Stream,
                    comments: f.comments,
                },
            ),
            Option::None => match f.ret {
                Option::None => Err(ErrV::UnsupportedReturnType(Seq::empty())),
                Some(rt) => match captures_spec("Result"@, rt) {
                    Option::None => Err(ErrV::UnsupportedReturnType(rt)),
                    Some(payload) => match resolve(decls, payload) {
                        Err(e) => Err(e),
                        Ok(t) => Ok(
                            FuncV {
                                name: f.name,
                                inputs: ins,
                                output: t,
                                mode: if t == TypeV::Delegate(ApiTypeDelegate::SyncReturnVecU8) {
                                    ApiFuncMode::Sync
                                } else {
                                    ApiFuncMode::Normal
                                },
                                comments: f.comments,
                            },
                        ),
                    },
                },
            },
        },
    }
}

/// The extracted functions, resolved in declaration order; the first failing
/// function aborts the pass.
pub open spec fn resolve_funcs(decls: Map<Seq<char>, SrcStructV>, fns: Seq<SrcFnV>) -> Result<
    Seq<FuncV>,
    ErrV,
>
    decreases fns.len(),
{
    if fns.len() == 0 {
        Ok(Seq::empty())
    } else {
        match resolve_funcs(decls, fns.drop_last()) {
            Err(e) => Err(e),
            Ok(fs) => match resolve_fn(decls, fns.last()) {
                Ok(f) => Ok(fs.push(f)),
                Err(e) => Err(e),
            },
        }
    }
}

/// Every struct reference inside a type value lies in `names`.
pub open spec fn type_refs_in(t: TypeV, names: Set<Seq<char>>) -> bool
    decreases t,
{
    match t {
        TypeV::Primitive(_) => true,
        TypeV::Delegate(_) => true,
        TypeV::PrimitiveList(_) => true,
        TypeV::GeneralList(b) => type_refs_in(*b, names),
        TypeV::Boxed(_, b) => type_refs_in(*b, names),
        TypeV::Optional(OptionalV::Prim(_)) => true,
        TypeV::Optional(OptionalV::Ptr(b)) => type_refs_in(*b, names),
        TypeV::StructRef(n) => names.contains(n),
    }
}

/// Every struct reference inside a struct value lies in `names`.
pub open spec fn struct_refs_in(s: StructV, names: Set<Seq<char>>) -> bool {
    forall|i: int| 0 <= i < s.fields.len() ==> type_refs_in(#[trigger] s.fields[i].ty, names)
}

/// Every struct reference inside a function value lies in `names`.
pub open spec fn func_refs_in(f: FuncV, names: Set<Seq<char>>) -> bool {
    type_refs_in(f.output, names) && forall|i: int|
        0 <= i < f.inputs.len() ==> type_refs_in(#[trigger] f.inputs[i].ty, names)
}

/// A failure among the first `k` fields decides the whole field walk.
pub proof fn lemma_fields_err_persists(
    decls: Map<Seq<char>, SrcStructV>,
    fields: Seq<SrcFieldV>,
    k: int,
)
    requires
        0 <= k <= fields.len(),
        resolve_fields(decls, fields.take(k)) is Err,
    ensures
        resolve_fields(decls, fields) == resolve_fields(decls, fields.take(k)),
    decreases fields.len() - k,
{
    if k == fields.len() {
        assert(fields.take(k) =~= fields);
    } else {
        assert(fields.take(k + 1).drop_last() =~= fields.take(k));
        lemma_fields_err_persists(decls, fields, k + 1);
    }
}

/// A failure among the first `k` parameters decides the whole walk.
pub proof fn lemma_params_err_persists(
    decls: Map<Seq<char>, SrcStructV>,
    params: Seq<SrcParamV>,
    k: int,
)
    requires
        0 <= k <= params.len(),
        resolve_params(decls, params.take(k)) is Err,
    ensures
        resolve_params(decls, params) == resolve_params(decls, params.take(k)),
    decreases params.len() - k,
{
    if k == params.len() {
        assert(params.take(k) =~= params);
    } else {
        assert(params.take(k + 1).drop_last() =~= params.take(k));
        lemma_params_err_persists(decls, params, k + 1);
    }
}

/// A failure among the first `k` functions decides the whole pass.
pub proof fn lemma_funcs_err_persists(decls: Map<Seq<char>, SrcStructV>, fns: Seq<SrcFnV>, k: int)
    requires
        0 <= k <= fns.len(),
        resolve_funcs(decls, fns.take(k)) is Err,
    ensures
        resolve_funcs(decls, fns) == resolve_funcs(decls, fns.take(k)),
    decreases fns.len() - k,
{
    if k == fns.len() {
        assert(fns.take(k) =~= fns);
    } else {
        assert(fns.take(k + 1).drop_last() =~= fns.take(k));
        lemma_funcs_err_persists(decls, fns, k + 1);
    }
}

/// Reference containment is preserved when the set of names grows.
pub proof fn lemma_type_refs_mono(t: TypeV, s1: Set<Seq<char>>, s2: Set<Seq<char>>)
    requires
        type_refs_in(t, s1),
        s1.subset_of(s2),
    ensures
        type_refs_in(t, s2),
    decreases t,
{
    match t {
        TypeV::GeneralList(b) => lemma_type_refs_mono(*b, s1, s2),
        TypeV::Boxed(_, b) => lemma_type_refs_mono(*b, s1, s2),
        TypeV::Optional(OptionalV::Ptr(b)) => lemma_type_refs_mono(*b, s1, s2),
        _ => {},
    }
}

} // verus!
