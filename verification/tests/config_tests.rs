use frb_codegen::config::canon_path;
use frb_codegen::config::crate_dir_candidates;
use frb_codegen::config::fallback_class_name;
use frb_codegen::config::fallback_rust_output_path;
use frb_codegen::config::format_fail_to_guess_error;
use frb_codegen::config::parent_dir;
use frb_codegen::config::parse;
use frb_codegen::config::ConfigError;
use frb_codegen::config::Opts;
use frb_codegen::config::ParseEnv;
use frb_codegen::config::RawOpts;

fn raw(rust_input: &str, dart_output: &str) -> RawOpts {
    RawOpts {
        rust_input: rust_input.to_string(),
        dart_output: dart_output.to_string(),
        c_output: None,
        rust_crate_dir: None,
        rust_output: None,
        class_name: None,
        dart_format_line_length: None,
        skip_add_mod_to_lib: false,
        llvm_path: None,
    }
}

fn env() -> ParseEnv {
    ParseEnv {
        cwd: "/work".to_string(),
        crate_dir_guess: Some("/work/demo".to_string()),
        c_output_guess: Some("/tmp/header.h".to_string()),
        cargo_toml_content: Some("[package]\nname = \"hello_world\"\n".to_string()),
    }
}

#[test]
fn canon_path_joins_relative_paths() {
    assert_eq!(canon_path("/work", "src/api.rs"), "/work/src/api.rs");
    assert_eq!(canon_path("/work/", "src/api.rs"), "/work/src/api.rs");
    assert_eq!(canon_path("/work", "/abs/api.rs"), "/abs/api.rs");
}

#[test]
fn parent_dir_walks_up() {
    assert_eq!(parent_dir("/a/b"), Some("/a".to_string()));
    assert_eq!(parent_dir("/a"), Some("/".to_string()));
    assert_eq!(parent_dir("a"), Some("".to_string()));
    assert_eq!(parent_dir("a/b/"), Some("a".to_string()));
    assert_eq!(parent_dir("/"), None);
    assert_eq!(parent_dir(""), None);
}

#[test]
fn rust_output_falls_back_beside_the_input() {
    assert_eq!(
        fallback_rust_output_path("/w/src/api.rs"),
        Some("/w/src/bridge_generated.rs".to_string())
    );
    assert_eq!(fallback_rust_output_path("/"), None);
}

#[test]
fn crate_dir_candidates_walk_to_the_root() {
    assert_eq!(
        crate_dir_candidates("/w/src/api.rs"),
        vec!["/w/src".to_string(), "/w".to_string(), "/".to_string()]
    );
    assert_eq!(crate_dir_candidates("/"), Vec::<String>::new());
}

#[test]
fn class_name_falls_back_to_pascal_cased_package_name() {
    assert_eq!(
        fallback_class_name("[package]\nname = \"hello_world\"\n"),
        Some("HelloWorld".to_string())
    );
    assert_eq!(
        fallback_class_name("[package]\nname = \"flutter_rust_bridge_example\"\n"),
        Some("FlutterRustBridgeExample".to_string())
    );
    assert_eq!(fallback_class_name("[package]\n"), None);
    assert_eq!(fallback_class_name("not toml at ["), None);
    assert_eq!(fallback_class_name("[package]\nname = 3\n"), None);
}

#[test]
fn fail_to_guess_message_names_the_option() {
    assert_eq!(
        format_fail_to_guess_error("rust_crate_dir"),
        "fail to guess rust_crate_dir, please specify it manually in command line arguments"
    );
}

#[test]
fn parse_fills_every_field() {
    let o = parse(raw("src/api.rs", "lib/api.dart"), &env()).unwrap();
    assert_eq!(o.rust_input_path, "/work/src/api.rs");
    assert_eq!(o.dart_output_path, "/work/lib/api.dart");
    assert_eq!(o.rust_crate_dir, "/work/demo");
    assert_eq!(o.rust_output_path, "/work/src/bridge_generated.rs");
    assert_eq!(o.class_name, "HelloWorld");
    assert_eq!(o.c_output_path, "/tmp/header.h");
    assert_eq!(o.dart_format_line_length, 80);
    assert!(!o.skip_add_mod_to_lib);
    assert_eq!(o.llvm_path, "");
}

#[test]
fn given_values_win_over_fallbacks() {
    let mut r = raw("src/api.rs", "lib/api.dart");
    r.rust_crate_dir = Some("crates/demo".to_string());
    r.rust_output = Some("out/gen.rs".to_string());
    r.class_name = Some("Momo".to_string());
    r.c_output = Some("out/h.h".to_string());
    r.dart_format_line_length = Some(120);
    r.llvm_path = Some("/opt/llvm".to_string());
    let o = parse(r, &env()).unwrap();
    assert_eq!(o.rust_crate_dir, "/work/crates/demo");
    assert_eq!(o.rust_output_path, "/work/out/gen.rs");
    assert_eq!(o.class_name, "Momo");
    assert_eq!(o.c_output_path, "/work/out/h.h");
    assert_eq!(o.dart_format_line_length, 120);
    assert_eq!(o.llvm_path, "/opt/llvm");
}

#[test]
fn missing_crate_dir_guess_fails_first() {
    let mut e = env();
    e.crate_dir_guess = None;
    e.cargo_toml_content = None;
    let err = parse(raw("src/api.rs", "lib/api.dart"), &e).unwrap_err();
    assert_eq!(err, ConfigError::FailToGuess("rust_crate_dir".to_string()));
}

#[test]
fn missing_manifest_text_fails_class_name() {
    let mut e = env();
    e.cargo_toml_content = None;
    let err = parse(raw("src/api.rs", "lib/api.dart"), &e).unwrap_err();
    assert_eq!(err, ConfigError::FailToGuess("class_name".to_string()));
}

#[test]
fn missing_c_output_guess_fails_last() {
    let mut e = env();
    e.c_output_guess = None;
    let err = parse(raw("src/api.rs", "lib/api.dart"), &e).unwrap_err();
    assert_eq!(err, ConfigError::FailToGuess("c_output".to_string()));
}

#[test]
fn class_names_are_derived_from_one_base() {
    let o = Opts {
        rust_input_path: String::new(),
        dart_output_path: String::new(),
        c_output_path: String::new(),
        rust_crate_dir: String::new(),
        rust_output_path: String::new(),
        class_name: "Momo".to_string(),
        dart_format_line_length: 80,
        skip_add_mod_to_lib: false,
        llvm_path: String::new(),
    };
    assert_eq!(o.dart_api_class_name(), "Momo");
    assert_eq!(o.dart_api_impl_class_name(), "MomoImpl");
    assert_eq!(o.dart_wire_class_name(), "MomoWire");
}
