use frb_codegen::api_types::ApiField;
use frb_codegen::api_types::ApiFuncMode;
use frb_codegen::api_types::ApiType;
use frb_codegen::api_types::ApiTypeBoxed;
use frb_codegen::api_types::ApiTypeDelegate;
use frb_codegen::api_types::ApiTypeOptional;
use frb_codegen::api_types::ApiTypePrimitive;
use frb_codegen::api_types::ApiTypeStructRef;
use frb_codegen::decl::SrcDecl;
use frb_codegen::decl::SrcField;
use frb_codegen::decl::SrcFieldsKind;
use frb_codegen::decl::SrcFn;
use frb_codegen::decl::SrcItem;
use frb_codegen::decl::SrcParam;
use frb_codegen::decl::SrcStruct;
use frb_codegen::matcher::GenericCapture;
use frb_codegen::parser::parse;
use frb_codegen::parser::ParseError;

fn param(name: &str, ty: &str) -> SrcParam {
    SrcParam {
        name: Some(name.to_string()),
        ty: ty.to_string(),
        comments: Vec::new(),
    }
}

fn pub_fn(name: &str, params: Vec<SrcParam>, ret: &str) -> SrcItem {
    SrcItem {
        is_public: true,
        decl: SrcDecl::Fn(SrcFn {
            name: name.to_string(),
            params,
            ret: Some(ret.to_string()),
            comments: Vec::new(),
        }),
    }
}

fn named_field(name: &str, ty: &str) -> SrcField {
    SrcField {
        name: Some(name.to_string()),
        ty: ty.to_string(),
        comments: Vec::new(),
    }
}

fn pub_struct(name: &str, fields: Vec<SrcField>, kind: SrcFieldsKind) -> SrcItem {
    SrcItem {
        is_public: true,
        decl: SrcDecl::Struct(SrcStruct {
            name: name.to_string(),
            fields,
            fields_kind: kind,
            comments: Vec::new(),
        }),
    }
}

fn prim(p: ApiTypePrimitive) -> ApiType {
    ApiType::Primitive(p)
}

#[test]
fn primitive_names_resolve_to_primitive_kinds() {
    let cases = vec![
        ("u8", ApiTypePrimitive::U8),
        ("i8", ApiTypePrimitive::I8),
        ("u16", ApiTypePrimitive::U16),
        ("i16", ApiTypePrimitive::I16),
        ("u32", ApiTypePrimitive::U32),
        ("i32", ApiTypePrimitive::I32),
        ("u64", ApiTypePrimitive::U64),
        ("i64", ApiTypePrimitive::I64),
        ("f32", ApiTypePrimitive::F32),
        ("f64", ApiTypePrimitive::F64),
        ("bool", ApiTypePrimitive::Bool),
    ];
    for (name, kind) in cases {
        let items = vec![pub_fn("f", vec![param("a", name)], "Result<i32>")];
        let file = parse("", &items).unwrap();
        assert_eq!(file.funcs[0].inputs[0].ty, prim(kind));
    }
}

#[test]
fn struct_resolved_once_with_equal_refs() {
    let items = vec![
        pub_struct(
            "MyStruct",
            vec![named_field("x", "i32")],
            SrcFieldsKind::Named,
        ),
        pub_fn("f", vec![param("a", "MyStruct")], "Result<i32>"),
        pub_fn("g", vec![param("b", "MyStruct")], "Result<i32>"),
    ];
    let file = parse("", &items).unwrap();
    assert_eq!(file.struct_pool.len(), 1);
    let expected = ApiType::StructRef(ApiTypeStructRef {
        name: "MyStruct".to_string(),
    });
    assert_eq!(file.funcs[0].inputs[0].ty, expected);
    assert_eq!(file.funcs[1].inputs[0].ty, expected);
    let entry = file.struct_pool.get("MyStruct").unwrap();
    assert_eq!(entry.name, "MyStruct");
    assert_eq!(entry.fields.len(), 1);
    assert!(entry.is_fields_named);
}

#[test]
fn vec_u8_is_a_primitive_list() {
    let items = vec![pub_fn("f", vec![param("a", "Vec<u8>")], "Result<i32>")];
    let file = parse("", &items).unwrap();
    match &file.funcs[0].inputs[0].ty {
        ApiType::PrimitiveList(l) => assert_eq!(l.primitive, ApiTypePrimitive::U8),
        other => panic!("expected a primitive list, got {:?}", other),
    }
}

#[test]
fn vec_of_string_is_a_general_list() {
    let items = vec![pub_fn("f", vec![param("a", "Vec<String>")], "Result<i32>")];
    let file = parse("", &items).unwrap();
    match &file.funcs[0].inputs[0].ty {
        ApiType::GeneralList(g) => {
            assert_eq!(g.inner, ApiType::Delegate(ApiTypeDelegate::Str));
        }
        other => panic!("expected a general list, got {:?}", other),
    }
}

#[test]
fn nested_optionals_are_rejected() {
    let items = vec![pub_fn(
        "f",
        vec![param("a", "Option<Option<i32>>")],
        "Result<i32>",
    )];
    let err = parse("", &items).unwrap_err();
    assert_eq!(err, ParseError::NestedOptional("i32".to_string()));
}

#[test]
fn optional_struct_and_boxed_struct_differ_by_flag() {
    let items = vec![
        pub_struct("S", vec![named_field("x", "i32")], SrcFieldsKind::Named),
        pub_fn(
            "f",
            vec![param("a", "Option<S>"), param("b", "Box<S>")],
            "Result<i32>",
        ),
    ];
    let file = parse("", &items).unwrap();
    let sref = ApiType::StructRef(ApiTypeStructRef {
        name: "S".to_string(),
    });
    let synthesized = ApiType::Optional(ApiTypeOptional::Ptr(Box::new(ApiType::Boxed(
        Box::new(ApiTypeBoxed {
            exist_in_real_api: false,
            inner: ApiType::StructRef(ApiTypeStructRef {
                name: "S".to_string(),
            }),
        }),
    ))));
    assert_eq!(file.funcs[0].inputs[0].ty, synthesized);
    match &file.funcs[0].inputs[1].ty {
        ApiType::Boxed(b) => {
            assert!(b.exist_in_real_api);
            assert_eq!(b.inner, sref);
        }
        other => panic!("expected a box, got {:?}", other),
    }
}

#[test]
fn stream_sink_parameter_sets_stream_mode_and_output() {
    let items = vec![pub_fn(
        "f",
        vec![param("sink", "StreamSink<String>"), param("a", "i32")],
        "Result<i32>",
    )];
    let file = parse("", &items).unwrap();
    let f = &file.funcs[0];
    assert_eq!(f.mode, ApiFuncMode::Stream);
    assert_eq!(f.output, ApiType::Delegate(ApiTypeDelegate::Str));
    assert_eq!(f.inputs.len(), 1);
    assert_eq!(f.inputs[0].name.raw, "a");
}

#[test]
fn plain_function_resolves_to_normal_mode() {
    let items = vec![pub_fn("name", vec![param("a", "i32")], "Result<String>")];
    let file = parse("", &items).unwrap();
    let f = &file.funcs[0];
    assert_eq!(f.name, "name");
    assert_eq!(f.mode, ApiFuncMode::Normal);
    assert_eq!(f.output, ApiType::Delegate(ApiTypeDelegate::Str));
    assert_eq!(f.inputs.len(), 1);
    assert_eq!(f.inputs[0].name.raw, "a");
    assert_eq!(f.inputs[0].ty, prim(ApiTypePrimitive::I32));
}

#[test]
fn self_referential_struct_resolves_through_indirection() {
    let items = vec![
        pub_struct("Node", vec![named_field("next", "Box<Node>")], SrcFieldsKind::Named),
        pub_fn("f", vec![param("a", "Node")], "Result<i32>"),
    ];
    let file = parse("", &items).unwrap();
    assert_eq!(file.struct_pool.len(), 1);
    let node = file.struct_pool.get("Node").unwrap();
    assert_eq!(node.fields.len(), 1);
    assert_eq!(node.fields[0].name.raw, "next");
    match &node.fields[0].ty {
        ApiType::Boxed(b) => {
            assert!(b.exist_in_real_api);
            assert_eq!(
                b.inner,
                ApiType::StructRef(ApiTypeStructRef {
                    name: "Node".to_string()
                })
            );
        }
        other => panic!("expected a box, got {:?}", other),
    }
}

#[test]
fn sync_return_sets_sync_mode() {
    let items = vec![pub_fn("f", vec![], "Result<SyncReturn<Vec<u8>>>")];
    let file = parse("", &items).unwrap();
    assert_eq!(file.funcs[0].mode, ApiFuncMode::Sync);
    assert_eq!(
        file.funcs[0].output,
        ApiType::Delegate(ApiTypeDelegate::SyncReturnVecU8)
    );
}

#[test]
fn zero_copy_buffer_over_primitive_list_is_a_delegate() {
    let items = vec![pub_fn(
        "f",
        vec![param("a", "ZeroCopyBuffer<Vec<u8>>")],
        "Result<i32>",
    )];
    let file = parse("", &items).unwrap();
    assert_eq!(
        file.funcs[0].inputs[0].ty,
        ApiType::Delegate(ApiTypeDelegate::ZeroCopyBufferVecPrimitive(
            ApiTypePrimitive::U8
        ))
    );
}

#[test]
fn zero_copy_buffer_over_non_primitive_list_is_rejected() {
    let items = vec![pub_fn(
        "f",
        vec![param("a", "ZeroCopyBuffer<Vec<String>>")],
        "Result<i32>",
    )];
    let err = parse("", &items).unwrap_err();
    assert_eq!(
        err,
        ParseError::UnsupportedType("ZeroCopyBuffer<Vec<String>>".to_string())
    );
}

#[test]
fn optional_primitive_is_inline_nullable() {
    let items = vec![pub_fn("f", vec![param("a", "Option<i32>")], "Result<i32>")];
    let file = parse("", &items).unwrap();
    assert_eq!(
        file.funcs[0].inputs[0].ty,
        ApiType::Optional(ApiTypeOptional::Prim(ApiTypePrimitive::I32))
    );
}

#[test]
fn optional_string_gets_no_synthesized_box() {
    let items = vec![pub_fn("f", vec![param("a", "Option<String>")], "Result<i32>")];
    let file = parse("", &items).unwrap();
    assert_eq!(
        file.funcs[0].inputs[0].ty,
        ApiType::Optional(ApiTypeOptional::Ptr(Box::new(ApiType::Delegate(
            ApiTypeDelegate::Str
        ))))
    );
}

#[test]
fn unknown_type_is_rejected_with_its_text() {
    let items = vec![pub_fn("f", vec![param("a", "Mystery")], "Result<i32>")];
    let err = parse("", &items).unwrap_err();
    assert_eq!(err, ParseError::UnsupportedType("Mystery".to_string()));
}

#[test]
fn parameter_without_simple_name_is_rejected() {
    let items = vec![SrcItem {
        is_public: true,
        decl: SrcDecl::Fn(SrcFn {
            name: "f".to_string(),
            params: vec![SrcParam {
                name: None,
                ty: "i32".to_string(),
                comments: Vec::new(),
            }],
            ret: Some("Result<i32>".to_string()),
            comments: Vec::new(),
        }),
    }];
    let err = parse("", &items).unwrap_err();
    assert_eq!(err, ParseError::UnsupportedParameter("i32".to_string()));
}

#[test]
fn non_result_return_type_is_rejected() {
    let items = vec![pub_fn("f", vec![], "i32")];
    let err = parse("", &items).unwrap_err();
    assert_eq!(err, ParseError::UnsupportedReturnType("i32".to_string()));
}

#[test]
fn missing_return_type_is_rejected() {
    let items = vec![SrcItem {
        is_public: true,
        decl: SrcDecl::Fn(SrcFn {
            name: "f".to_string(),
            params: Vec::new(),
            ret: None,
            comments: Vec::new(),
        }),
    }];
    let err = parse("", &items).unwrap_err();
    assert_eq!(err, ParseError::UnsupportedReturnType("".to_string()));
}

#[test]
fn unit_struct_fields_are_rejected() {
    let items = vec![
        pub_struct("S", Vec::new(), SrcFieldsKind::Unsupported),
        pub_fn("f", vec![param("a", "S")], "Result<i32>"),
    ];
    let err = parse("", &items).unwrap_err();
    assert_eq!(err, ParseError::UnsupportedFields("S".to_string()));
}

#[test]
fn positional_fields_get_positional_names() {
    let items = vec![
        pub_struct(
            "Pair",
            vec![
                SrcField {
                    name: None,
                    ty: "i32".to_string(),
                    comments: Vec::new(),
                },
                SrcField {
                    name: None,
                    ty: "u64".to_string(),
                    comments: Vec::new(),
                },
            ],
            SrcFieldsKind::Unnamed,
        ),
        pub_fn("f", vec![param("a", "Pair")], "Result<i32>"),
    ];
    let file = parse("", &items).unwrap();
    let pair = file.struct_pool.get("Pair").unwrap();
    assert!(!pair.is_fields_named);
    assert_eq!(pair.fields[0].name.raw, "field0");
    assert_eq!(pair.fields[1].name.raw, "field1");
}

#[test]
fn private_items_are_ignored() {
    let items = vec![
        SrcItem {
            is_public: false,
            decl: SrcDecl::Fn(SrcFn {
                name: "hidden".to_string(),
                params: Vec::new(),
                ret: Some("Result<i32>".to_string()),
                comments: Vec::new(),
            }),
        },
        pub_fn("shown", vec![], "Result<i32>"),
    ];
    let file = parse("", &items).unwrap();
    assert_eq!(file.funcs.len(), 1);
    assert_eq!(file.funcs[0].name, "shown");
}

#[test]
fn executor_marker_flips_the_capability_flag() {
    let items = vec![pub_fn("f", vec![], "Result<i32>")];
    let with = parse(
        "static HANDLER: X = FLUTTER_RUST_BRIDGE_HANDLER_stuff;",
        &items,
    )
    .unwrap();
    assert!(with.has_executor);
    let file = parse("let x = FLUTTER_RUST_BRIDGE_HANDLER;", &items).unwrap();
    assert!(file.has_executor);
    let file2 = parse("fn main() {}", &items).unwrap();
    assert!(!file2.has_executor);
}

#[test]
fn comments_are_attached_in_order() {
    let items = vec![SrcItem {
        is_public: true,
        decl: SrcDecl::Fn(SrcFn {
            name: "f".to_string(),
            params: vec![SrcParam {
                name: Some("a".to_string()),
                ty: "i32".to_string(),
                comments: vec![" about a".to_string()],
            }],
            ret: Some("Result<i32>".to_string()),
            comments: vec![" first".to_string(), " second".to_string()],
        }),
    }];
    let file = parse("", &items).unwrap();
    let f = &file.funcs[0];
    assert_eq!(f.comments[0].0, " first");
    assert_eq!(f.comments[1].0, " second");
    assert_eq!(f.inputs[0].comments[0].0, " about a");
}

#[test]
fn capture_extracts_the_inner_expression() {
    let cap = GenericCapture::new("Result");
    assert_eq!(cap.captures("Result<String>"), Some("String".to_string()));
    assert_eq!(
        cap.captures("anyhow::Result<Vec<u8>>"),
        Some("Vec<u8>".to_string())
    );
    assert_eq!(cap.captures("Result<String,E>"), None);
    assert_eq!(cap.captures("Result<>"), None);
    assert_eq!(cap.captures("Result"), None);
    assert_eq!(cap.captures("MyResult<u8>"), Some("u8".to_string()));
    let vec_cap = GenericCapture::new("Vec");
    assert_eq!(vec_cap.captures("Vec<Vec<u8>>"), Some("Vec<u8>".to_string()));
    assert_eq!(vec_cap.captures("Result<String>"), None);
}

#[test]
fn later_struct_declaration_shadows_earlier() {
    let items = vec![
        pub_struct("S", vec![named_field("x", "i32")], SrcFieldsKind::Named),
        pub_struct("S", vec![named_field("y", "u64")], SrcFieldsKind::Named),
        pub_fn("f", vec![param("a", "S")], "Result<i32>"),
    ];
    let file = parse("", &items).unwrap();
    let s = file.struct_pool.get("S").unwrap();
    assert_eq!(s.fields[0].name.raw, "y");
}

#[test]
fn declaration_order_of_functions_is_kept() {
    let items = vec![
        pub_fn("first", vec![], "Result<i32>"),
        pub_fn("second", vec![], "Result<u8>"),
    ];
    let file = parse("", &items).unwrap();
    let names: Vec<&str> = file.funcs.iter().map(|f| f.name.as_str()).collect();
    assert_eq!(names, vec!["first", "second"]);
}

#[test]
fn field_nodes_carry_name_type_and_comments() {
    let field = ApiField {
        name: frb_codegen::api_types::ApiIdent::new("x".to_string()),
        ty: prim(ApiTypePrimitive::U8),
        comments: Vec::new(),
    };
    assert_eq!(field.name.raw, "x");
}
