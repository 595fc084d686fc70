use vstd::prelude::*;

verus! {

use crate::api_types::ApiTypePrimitive;
use crate::api_types::ApiFuncMode;
use crate::api_types::FieldV;
use crate::api_types::FuncV;
use crate::api_types::OptionalV;
use crate::api_types::StructV;
use crate::api_types::TypeV;
use crate::api_types::prim_of;
use crate::decl::SrcFieldsKind;
use crate::decl::SrcFnV;
use crate::decl::SrcParamV;
use crate::decl::SrcStructV;
use crate::matcher::capture_at;
use crate::matcher::captures_spec;
use crate::resolve::ErrV;
use crate::resolve::field_name_of;
use crate::resolve::resolve;
use crate::resolve::resolve_fields;
use crate::resolve::resolve_fn;
use crate::resolve::resolve_params;
use crate::resolve::resolve_struct;

/// An expression cannot be an instantiation of two wrappers whose names end
/// in different characters: both matches would put the same name characters
/// right before the first opening bracket.
pub proof fn lemma_capture_distinct(n1: Seq<char>, n2: Seq<char>, s: Seq<char>)
    requires
        captures_spec(n1, s) is Some,
        n1.len() > 0,
        n2.len() > 0,
        n1.last() != n2.last(),
    ensures
        captures_spec(n2, s) is None,
{
    if captures_spec(n2, s) is Some {
        let p1 = choose|p: int| capture_at(n1, s, p);
        let p2 = choose|p: int| capture_at(n2, s, p);
        if p1 < p2 {
            assert(s[p1] == '<');
        } else if p2 < p1 {
            assert(s[p2] == '<');
        }
        assert(s.subrange(p1 - n1.len(), p1)[n1.len() - 1] == s[p1 - 1]);
        assert(s.subrange(p2 - n2.len(), p2)[n2.len() - 1] == s[p2 - 1]);
    }
}

/// A wrapper-shaped expression contains an opening bracket, so it is not a
/// primitive name.
pub proof fn lemma_captured_not_prim(name: Seq<char>, ty: Seq<char>)
    requires
        captures_spec(name, ty) is Some,
    ensures
        prim_of(ty) is None,
        ty != "String"@,
{
    let p = choose|p: int| capture_at(name, ty, p);
    assert(ty[p] == '<');
    reveal_strlit("u8");
    reveal_strlit("i8");
    reveal_strlit("u16");
    reveal_strlit("i16");
    reveal_strlit("u32");
    reveal_strlit("i32");
    reveal_strlit("u64");
    reveal_strlit("i64");
    reveal_strlit("f32");
    reveal_strlit("f64");
    reveal_strlit("bool");
    reveal_strlit("String");
}

/// If the synchronous-return literal matches a wrapper shape, the wrapper
/// name must be the run of characters before its first bracket.
pub proof fn lemma_sync_return_shape(name: Seq<char>, ty: Seq<char>)
    requires
        ty == "SyncReturn<Vec<u8>>"@,
        captures_spec(name, ty) is Some,
    ensures
        name.len() <= 10,
        name =~= "SyncReturn<Vec<u8>>"@.subrange(10 - name.len(), 10),
{
    reveal_strlit("SyncReturn<Vec<u8>>");
    let p = choose|p: int| capture_at(name, ty, p);
    assert(ty[10] == '<');
    assert(p == 10) by {
        if p < 10 {
            assert(ty[p] == '<');
        }
        if p > 10 {
            assert(ty[10] != '<');
        }
    }
    assert(name =~= ty.subrange(10 - name.len(), 10));
}

/// The wrapper names used by the resolver do not match the synchronous
/// -return literal: the run before its first bracket is none of them.
pub proof fn lemma_not_sync_return(name: Seq<char>, ty: Seq<char>)
    requires
        captures_spec(name, ty) is Some,
        name == "Vec"@ || name == "Box"@ || name == "Option"@,
    ensures
        ty != "SyncReturn<Vec<u8>>"@,
{
    reveal_strlit("SyncReturn<Vec<u8>>");
    reveal_strlit("Vec");
    reveal_strlit("Box");
    reveal_strlit("Option");
    if ty == "SyncReturn<Vec<u8>>"@ {
        lemma_sync_return_shape(name, ty);
        let sub = ty.subrange(10 - name.len(), 10);
        assert(name == sub);
        assert(name[0] == sub[0]);
        assert(sub[0] == ty[10 - name.len()]);
    }
}

/// Every recognized primitive name resolves to `Primitive` of its kind and
/// to no other variant, whatever structs are declared.
pub proof fn lemma_primitive_resolution(decls: Map<Seq<char>, SrcStructV>, ty: Seq<char>)
    requires
        prim_of(ty) is Some,
    ensures
        resolve(decls, ty) == Ok::<TypeV, ErrV>(TypeV::Primitive(prim_of(ty)->Some_0)),
{
}

/// An expression that exactly names a declared struct — and is not a
/// primitive name, the string type, the synchronous-return literal, or any
/// bracketed shape — resolves to a by-name reference, so every occurrence
/// of the name yields one equal `StructRef` against one pool entry.
pub proof fn lemma_struct_name_resolution(decls: Map<Seq<char>, SrcStructV>, name: Seq<char>)
    requires
        decls.contains_key(name),
        prim_of(name) is None,
        name != "String"@,
        name != "SyncReturn<Vec<u8>>"@,
        forall|k: int| 0 <= k < name.len() ==> name[k] != '<',
    ensures
        resolve(decls, name) == Ok::<TypeV, ErrV>(TypeV::StructRef(name)),
{
    assert forall|n2: Seq<char>| captures_spec(n2, name) is None by {
        if captures_spec(n2, name) is Some {
            let p = choose|p: int| capture_at(n2, name, p);
            assert(name[p] == '<');
        }
    }
}

/// A list of a primitive element resolves to the compact primitive list,
/// never to the general list.
pub proof fn lemma_primitive_list(
    decls: Map<Seq<char>, SrcStructV>,
    ty: Seq<char>,
    p: ApiTypePrimitive,
)
    requires
        captures_spec("Vec"@, ty) is Some,
        resolve(decls, captures_spec("Vec"@, ty)->Some_0) == Ok::<TypeV, ErrV>(TypeV::Primitive(p)),
    ensures
        resolve(decls, ty) == Ok::<TypeV, ErrV>(TypeV::PrimitiveList(p)),
{
    lemma_captured_not_prim("Vec"@, ty);
    proof_vec_literals();
    lemma_not_sync_return("Vec"@, ty);
    lemma_capture_distinct("Vec"@, "ZeroCopyBuffer"@, ty);
}

proof fn proof_vec_literals()
    ensures
        "Vec"@.len() == 3,
        "Vec"@[0] == 'V',
        "Vec"@.last() == 'c',
        "ZeroCopyBuffer"@.len() == 14,
        "ZeroCopyBuffer"@.last() == 'r',
        "Box"@.len() == 3,
        "Box"@[0] == 'B',
        "Box"@.last() == 'x',
        "Option"@.len() == 6,
        "Option"@[0] == 'O',
        "Option"@.last() == 'n',
        "SyncReturn<Vec<u8>>"@.len() == 19,
        "SyncReturn<Vec<u8>>"@[7] == 'u',
        "SyncReturn<Vec<u8>>"@[4] == 'R',
{
    reveal_strlit("Vec");
    reveal_strlit("ZeroCopyBuffer");
    reveal_strlit("Box");
    reveal_strlit("Option");
    reveal_strlit("SyncReturn<Vec<u8>>");
}

/// An optional whose inner expression is again optional-shaped is a hard
/// error carrying the innermost captured expression: nested optionals
/// without indirection are not supported.
pub proof fn lemma_nested_optional(decls: Map<Seq<char>, SrcStructV>, ty: Seq<char>)
    requires
        captures_spec("Option"@, ty) is Some,
        captures_spec("Option"@, captures_spec("Option"@, ty)->Some_0) is Some,
    ensures
        resolve(decls, ty) == Err::<TypeV, ErrV>(
            ErrV::NestedOptional(
                captures_spec("Option"@, captures_spec("Option"@, ty)->Some_0)->Some_0,
            ),
        ),
{
    lemma_captured_not_prim("Option"@, ty);
    proof_vec_literals();
    lemma_not_sync_return("Option"@, ty);
    lemma_capture_distinct("Option"@, "ZeroCopyBuffer"@, ty);
    lemma_capture_distinct("Option"@, "Vec"@, ty);
    lemma_capture_distinct("Option"@, "Box"@, ty);
}

/// An optional over a struct name resolves to a synthesized, not
/// user-written, indirection around the struct reference: the flag is
/// false.
pub proof fn lemma_optional_struct(
    decls: Map<Seq<char>, SrcStructV>,
    ty: Seq<char>,
    name: Seq<char>,
)
    requires
        captures_spec("Option"@, ty) == Some(name),
        decls.contains_key(name),
        prim_of(name) is None,
        name != "String"@,
        name != "SyncReturn<Vec<u8>>"@,
        forall|k: int| 0 <= k < name.len() ==> name[k] != '<',
    ensures
        resolve(decls, ty) == Ok::<TypeV, ErrV>(
            TypeV::Optional(
                OptionalV::Ptr(Box::new(TypeV::Boxed(false, Box::new(TypeV::StructRef(name))))),
            ),
        ),
{
    lemma_captured_not_prim("Option"@, ty);
    proof_vec_literals();
    lemma_not_sync_return("Option"@, ty);
    lemma_capture_distinct("Option"@, "ZeroCopyBuffer"@, ty);
    lemma_capture_distinct("Option"@, "Vec"@, ty);
    lemma_capture_distinct("Option"@, "Box"@, ty);
    assert(captures_spec("Option"@, name) is None) by {
        if captures_spec("Option"@, name) is Some {
            let p = choose|p: int| capture_at("Option"@, name, p);
            assert(name[p] == '<');
        }
    }
    lemma_struct_name_resolution(decls, name);
}

/// An indirection wrapper the user wrote over a struct name resolves to a
/// box with the flag set: the two boxes of the previous law differ exactly
/// in the flag.
pub proof fn lemma_boxed_struct(decls: Map<Seq<char>, SrcStructV>, ty: Seq<char>, name: Seq<char>)
    requires
        captures_spec("Box"@, ty) == Some(name),
        decls.contains_key(name),
        prim_of(name) is None,
        name != "String"@,
        name != "SyncReturn<Vec<u8>>"@,
        forall|k: int| 0 <= k < name.len() ==> name[k] != '<',
    ensures
        resolve(decls, ty) == Ok::<TypeV, ErrV>(
            TypeV::Boxed(true, Box::new(TypeV::StructRef(name))),
        ),
{
    lemma_captured_not_prim("Box"@, ty);
    proof_vec_literals();
    lemma_not_sync_return("Box"@, ty);
    lemma_capture_distinct("Box"@, "ZeroCopyBuffer"@, ty);
    lemma_capture_distinct("Box"@, "Vec"@, ty);
    lemma_struct_name_resolution(decls, name);
}

/// A stream-channel-shaped parameter is consumed as the function's output:
/// it does not join the input list, and the later parameter walk result is
/// the earlier input list with the output set.
pub proof fn lemma_stream_param_consumed(
    decls: Map<Seq<char>, SrcStructV>,
    params: Seq<SrcParamV>,
    p: SrcParamV,
    ins: Seq<FieldV>,
    out: Option<TypeV>,
    t: TypeV,
)
    requires
        resolve_params(decls, params) == Ok::<(Seq<FieldV>, Option<TypeV>), ErrV>((ins, out)),
        p.name is Some,
        captures_spec("StreamSink"@, p.ty) is Some,
        resolve(decls, captures_spec("StreamSink"@, p.ty)->Some_0) == Ok::<TypeV, ErrV>(t),
    ensures
        resolve_params(decls, params.push(p)) == Ok::<(Seq<FieldV>, Option<TypeV>), ErrV>(
            (ins, Some(t)),
        ),
{
    assert(params.push(p).drop_last() =~= params);
    assert(params.push(p).last() == p);
}

/// When the parameter walk produced a stream output, the function's mode is
/// `Stream`, its output is the resolution of the channel's inner type, and
/// its declared return type is not consulted at all.
pub proof fn lemma_stream_mode(
    decls: Map<Seq<char>, SrcStructV>,
    f: SrcFnV,
    ins: Seq<FieldV>,
    t: TypeV,
)
    requires
        resolve_params(decls, f.params) == Ok::<(Seq<FieldV>, Option<TypeV>), ErrV>(
            (ins, Some(t)),
        ),
    ensures
        resolve_fn(decls, f) == Ok::<FuncV, ErrV>(
            FuncV {
                name: f.name,
                inputs: ins,
                output: t,
                mode: ApiFuncMode::Stream,
                comments: f.comments,
            },
        ),
        forall|r1: Option<Seq<char>>, r2: Option<Seq<char>>|
            resolve_fn(decls, SrcFnV { ret: r1, ..f }) == resolve_fn(
                decls,
                SrcFnV { ret: r2, ..f },
            ),
{
}

/// A struct with one field typed as the indirection wrapper over the
/// struct's own name resolves to a pool entry whose field is a
/// user-written box around a reference to that same name: recursive
/// structs resolve through indirection, with no unbounded descent.
pub proof fn lemma_self_referential_struct(decls: Map<Seq<char>, SrcStructV>, name: Seq<char>)
    requires
        decls.contains_key(name),
        decls[name].fields_kind == SrcFieldsKind::Named,
        decls[name].fields.len() == 1,
        decls[name].fields[0].name is Some,
        captures_spec("Box"@, decls[name].fields[0].ty) == Some(name),
        prim_of(name) is None,
        name != "String"@,
        name != "SyncReturn<Vec<u8>>"@,
        forall|k: int| 0 <= k < name.len() ==> name[k] != '<',
    ensures
        resolve_struct(decls, name) == Ok::<StructV, ErrV>(
            StructV {
                name: decls[name].name,
                fields: seq![
                    FieldV {
                        name: decls[name].fields[0].name->Some_0,
                        ty: TypeV::Boxed(true, Box::new(TypeV::StructRef(name))),
                        comments: decls[name].fields[0].comments,
                    },
                ],
                is_fields_named: true,
                comments: decls[name].comments,
            },
        ),
{
    lemma_boxed_struct(decls, decls[name].fields[0].ty, name);
    let fields = decls[name].fields;
    assert(fields.drop_last() =~= Seq::<crate::decl::SrcFieldV>::empty());
    assert(fields.last() == fields[0]);
    assert(resolve_fields(decls, fields.drop_last()) == Ok::<Seq<FieldV>, ErrV>(
        Seq::<FieldV>::empty(),
    ));
    assert(resolve_fields(decls, fields) == Ok::<Seq<FieldV>, ErrV>(
        Seq::<FieldV>::empty().push(
            FieldV {
                name: field_name_of(fields[0].name, 0),
                ty: TypeV::Boxed(true, Box::new(TypeV::StructRef(name))),
                comments: fields[0].comments,
            },
        ),
    ));
    assert(Seq::<FieldV>::empty().push(
        FieldV {
            name: decls[name].fields[0].name->Some_0,
            ty: TypeV::Boxed(true, Box::new(TypeV::StructRef(name))),
            comments: decls[name].fields[0].comments,
        },
    ) =~= seq![
        FieldV {
            name: decls[name].fields[0].name->Some_0,
            ty: TypeV::Boxed(true, Box::new(TypeV::StructRef(name))),
            comments: decls[name].fields[0].comments,
        },
    ]);
}

} // verus!
