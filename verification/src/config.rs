use vstd::prelude::*;

use convert_case::Casing;

verus! {

use vstd::string::StrSliceExecFns;
use vstd::string::StringExecFns;

/// Raw options as they arrive from the command line, before path and name
/// inference.
#[derive(Debug, Clone, PartialEq)]
pub struct RawOpts {
    /// Path of input Rust code
    pub rust_input: String,
    /// Path of output generated Dart code
    pub dart_output: String,
    /// Path of output generated C header
    pub c_output: Option<String>,
    /// Crate directory for your Rust project
    pub rust_crate_dir: Option<String>,
    /// Path of output generated Rust code
    pub rust_output: Option<String>,
    /// Generated class name
    pub class_name: Option<String>,
    /// Line length for dart formatting
    pub dart_format_line_length: Option<i32>,
    /// Skip automatically adding `mod bridge_generated;` to `lib.rs`
    pub skip_add_mod_to_lib: bool,
    /// Path to the installed LLVM
    pub llvm_path: Option<String>,
}

/// Fully resolved options: every path absolute, every name decided.
#[derive(Debug, Clone, PartialEq)]
pub struct Opts {
    pub rust_input_path: String,
    pub dart_output_path: String,
    pub c_output_path: String,
    pub rust_crate_dir: String,
    pub rust_output_path: String,
    pub class_name: String,
    pub dart_format_line_length: i32,
    pub skip_add_mod_to_lib: bool,
    pub llvm_path: String,
}

/// A value that could not be inferred, by the name of its option.
#[derive(Debug, Clone, PartialEq)]
pub enum ConfigError {
    FailToGuess(String),
}

/// The message shown when an option can be neither read nor guessed.
pub fn format_fail_to_guess_error(name: &str) -> (r: String)
    ensures
        r@ == "fail to guess "@ + name@
            + ", please specify it manually in command line arguments"@,
{
    let mut s = String::from_str("fail to guess ");
    s.append(name);
    s.append(", please specify it manually in command line arguments");
    s
}

/// Joining a base directory and a sub path: an absolute sub path stands
/// alone; otherwise one separator goes between them.
pub open spec fn join_path_spec(base: Seq<char>, sub: Seq<char>) -> Seq<char> {
    if sub.len() > 0 && sub[0] == '/' {
        sub
    } else if base.len() == 0 {
        sub
    } else if base[base.len() - 1] == '/' {
        base + sub
    } else {
        base + "/"@ + sub
    }
}

/// Resolve a possibly relative path against a working directory.
pub fn canon_path(cwd: &str, sub_path: &str) -> (r: String)
    ensures
        r@ == join_path_spec(cwd@, sub_path@),
{
    let sub_len = sub_path.unicode_len();
    if sub_len > 0 && sub_path.get_char(0) == '/' {
        return sub_path.to_owned();
    }
    let cwd_len = cwd.unicode_len();
    if cwd_len == 0 {
        return sub_path.to_owned();
    }
    let mut s = String::from_str(cwd);
    if cwd.get_char(cwd_len - 1) != '/' {
        s.append("/");
    }
    s.append(sub_path);
    s
}

/// A path with its trailing separators removed, one kept for the root.
pub open spec fn trim_trailing_slashes(s: Seq<char>) -> Seq<char>
    decreases s.len(),
{
    if s.len() > 1 && s[s.len() - 1] == '/' {
        trim_trailing_slashes(s.drop_last())
    } else {
        s
    }
}

/// `q` is the position of the last separator of `t`.
pub open spec fn last_slash_at(t: Seq<char>, q: int) -> bool {
    0 <= q < t.len() && t[q] == '/' && forall|k: int| q < k < t.len() ==> t[k] != '/'
}

/// The directory containing a path: everything before the last separator,
/// the root when the last separator leads, the empty path for a bare name,
/// nothing for the root or an empty path.
pub open spec fn parent_dir_spec(path: Seq<char>) -> Option<Seq<char>> {
    let t = trim_trailing_slashes(path);
    if t.len() == 0 {
        Option::None
    } else if t.len() == 1 && t[0] == '/' {
        Option::None
    } else if exists|q: int| last_slash_at(t, q) {
        let q = choose|q: int| last_slash_at(t, q);
        if q == 0 {
            Some("/"@)
        } else {
            Some(t.subrange(0, q))
        }
    } else {
        Some(Seq::empty())
    }
}

proof fn lemma_last_slash_unique(t: Seq<char>, q1: int, q2: int)
    requires
        last_slash_at(t, q1),
        last_slash_at(t, q2),
    ensures
        q1 == q2,
{
    if q1 < q2 {
        assert(t[q2] == '/');
    } else if q2 < q1 {
        assert(t[q1] == '/');
    }
}

/// The directory containing a path.
#[verifier::loop_isolation(false)]
pub fn parent_dir(path: &str) -> (r: Option<String>)
    ensures
        match r {
            Some(d) => parent_dir_spec(path@) == Some(d@),
            Option::None => parent_dir_spec(path@) is None,
        },
{
    let len = path.unicode_len();
    if len == 0 {
        return Option::None;
    }
    let mut end: usize = len;
    proof {
        assert(path@.subrange(0, len as int) =~= path@);
    }
    while end > 1 && path.get_char(end - 1) == '/'
        invariant
            1 <= end <= len,
            len == path@.len(),
            trim_trailing_slashes(path@) == trim_trailing_slashes(path@.subrange(0, end as int)),
        decreases end,
    {
        proof {
            assert(path@.subrange(0, end as int).drop_last() =~= path@.subrange(0, end as int - 1));
        }
        end = end - 1;
    }
    let ghost t = trim_trailing_slashes(path@);
    proof {
        assert(path@.subrange(0, end as int).len() == end as int);
        assert(t == path@.subrange(0, end as int));
    }
    if end == 1 && path.get_char(0) == '/' {
        return Option::None;
    }
    let mut q: usize = end;
    while q > 0
        invariant
            q <= end <= len,
            len == path@.len(),
            t == path@.subrange(0, end as int),
            forall|k: int| q <= k < end ==> t[k] != '/',
        decreases q,
    {
        q = q - 1;
        if path.get_char(q) == '/' {
            proof {
                assert(t[q as int] == path@[q as int]);
                assert(last_slash_at(t, q as int));
                let q2 = choose|qq: int| last_slash_at(t, qq);
                lemma_last_slash_unique(t, q2, q as int);
            }
            if q == 0 {
                return Some(String::from_str("/"));
            }
            let d = path.substring_char(0, q);
            proof {
                assert(t.subrange(0, q as int) =~= path@.subrange(0, q as int));
            }
            return Some(d.to_owned());
        }
    }
    proof {
        assert forall|qq: int| !last_slash_at(t, qq) by {
            if last_slash_at(t, qq) {
                assert(t[qq] == '/');
            }
        }
    }
    Some(String::new())
}

/// The default Rust output path: `bridge_generated.rs` beside the input.
pub fn fallback_rust_output_path(rust_input_path: &str) -> (r: Option<String>)
    ensures
        match r {
            Some(p) => parent_dir_spec(rust_input_path@) is Some && p@ == join_path_spec(
                parent_dir_spec(rust_input_path@)->Some_0,
                "bridge_generated.rs"@,
            ),
            Option::None => parent_dir_spec(rust_input_path@) is None,
        },
{
    match parent_dir(rust_input_path) {
        Option::None => Option::None,
        Some(d) => Some(canon_path(d.as_str(), "bridge_generated.rs")),
    }
}

/// The chain of directories above the input path, nearest first: the
/// candidates in which a crate manifest is looked for.
#[verifier::loop_isolation(false)]
pub fn crate_dir_candidates(rust_input_path: &str) -> (r: Vec<String>)
    ensures
        (r@.len() == 0) == (parent_dir_spec(rust_input_path@) is None),
        r@.len() > 0 ==> parent_dir_spec(rust_input_path@) == Some(r@[0]@),
        forall|i: int|
            0 <= i < r@.len() - 1 ==> parent_dir_spec((#[trigger] r@[i])@) == Some(r@[i + 1]@),
        r@.len() > 0 ==> parent_dir_spec(r@[r@.len() - 1]@) is None,
{
    let mut r: Vec<String> = Vec::new();
    let mut cur = match parent_dir(rust_input_path) {
        Option::None => {
            return r;
        },
        Some(d) => d,
    };
    loop
        invariant
            r@.len() == 0 ==> parent_dir_spec(rust_input_path@) == Some(cur@),
            r@.len() > 0 ==> parent_dir_spec(rust_input_path@) == Some(r@[0]@),
            r@.len() > 0 ==> parent_dir_spec(r@[r@.len() - 1]@) == Some(cur@),
            forall|i: int|
                0 <= i < r@.len() - 1 ==> parent_dir_spec((#[trigger] r@[i])@) == Some(r@[i + 1]@),
        decreases cur@.len(),
    {
        let next = parent_dir(cur.as_str());
        proof {
            if parent_dir_spec(cur@) is Some {
                lemma_parent_shorter(cur@);
            }
        }
        r.push(cur);
        match next {
            Option::None => {
                return r;
            },
            Some(d) => {
                cur = d;
            },
        }
    }
}

proof fn lemma_trim_le(s: Seq<char>)
    ensures
        trim_trailing_slashes(s).len() <= s.len(),
    decreases s.len(),
{
    if s.len() > 1 && s[s.len() - 1] == '/' {
        lemma_trim_le(s.drop_last());
    }
}

proof fn lemma_parent_shorter(s: Seq<char>)
    requires
        parent_dir_spec(s) is Some,
    ensures
        parent_dir_spec(s)->Some_0.len() < s.len(),
{
    reveal_strlit("/");
    lemma_trim_le(s);
    let t = trim_trailing_slashes(s);
    if exists|q: int| last_slash_at(t, q) {
        let q = choose|q: int| last_slash_at(t, q);
        if q == 0 && t.len() == 1 {
            assert(t[0] == '/');
        }
    }
}

#[verifier::external_type_specification]
#[verifier::external_body]
pub struct ExTomlValue(toml::Value);

/// Relies on `<toml::Table as core::str::FromStr>::from_str`: parses a TOML
/// document into its top-level table, here carried as a table value;
/// nothing is assumed of the result.
#[verifier::external_body]
fn parse_toml_value(s: &str) -> Option<toml::Value> {
    s.parse::<toml::Table>().ok().map(toml::Value::Table)
}

/// Relies on `toml::Value::get`: the sub-value under a key of a TOML
/// table, if the value is a table and the key is present.
#[verifier::external_body]
fn toml_get<'a>(v: &'a toml::Value, key: &str) -> Option<&'a toml::Value> {
    v.get(key)
}

/// Relies on `toml::Value::as_str`: the payload of a TOML string value.
#[verifier::external_body]
fn toml_as_str(v: &toml::Value) -> Option<String> {
    v.as_str().map(|s| s.to_string())
}

/// What converting text to Pascal case yields; the result depends on the
/// characters alone.
pub uninterp spec fn pascal_of(s: Seq<char>) -> Seq<char>;

/// Relies on `convert_case::Casing::to_case` with `Case::Pascal`: a pure
/// reshaping of the input characters.
#[verifier::external_body]
fn to_pascal_case(s: &str) -> (r: String)
    ensures
        r@ == pascal_of(s@),
{
    s.to_case(convert_case::Case::Pascal)
}

/// The default generated class name: the package name of the crate
/// manifest, in Pascal case. The manifest text is handed in; reading the
/// file is the caller's business.
pub fn fallback_class_name(cargo_toml_content: &str) -> (r: Option<String>)
    ensures
        r is Some ==> exists|pkg: Seq<char>| r->Some_0@ == pascal_of(pkg),
{
    match parse_toml_value(cargo_toml_content) {
        Option::None => Option::None,
        Some(v) => match toml_get(&v, "package") {
            Option::None => Option::None,
            Some(p) => match toml_get(p, "name") {
                Option::None => Option::None,
                Some(n) => match toml_as_str(n) {
                    Option::None => Option::None,
                    Some(pkg) => {
                        let class = to_pascal_case(pkg.as_str());
                        proof {
                            assert(class@ == pascal_of(pkg@));
                        }
                        Some(class)
                    },
                },
            },
        },
    }
}

/// Values that only the surrounding process can supply: the working
/// directory, the nearest ancestor directory of the input that holds a
/// crate manifest, a temporary header path, and the manifest's text.
#[derive(Debug, Clone, PartialEq)]
pub struct ParseEnv {
    pub cwd: String,
    pub crate_dir_guess: Option<String>,
    pub c_output_guess: Option<String>,
    pub cargo_toml_content: Option<String>,
}

/// Resolve raw options into full options: each absent value is inferred
/// from the input path, the crate manifest, or the environment, and the
/// first value that can be neither read nor guessed fails the run.
pub fn parse(raw: RawOpts, env: &ParseEnv) -> (r: Result<Opts, ConfigError>)
    ensures
        match r {
            Ok(o) => {
                &&& o.rust_input_path@ == join_path_spec(env.cwd@, raw.rust_input@)
                &&& o.dart_output_path@ == join_path_spec(env.cwd@, raw.dart_output@)
                &&& (match raw.rust_crate_dir {
                    Some(d) => o.rust_crate_dir@ == join_path_spec(env.cwd@, d@),
                    Option::None => env.crate_dir_guess is Some && o.rust_crate_dir@
                        == join_path_spec(env.cwd@, env.crate_dir_guess->Some_0@),
                })
                &&& (match raw.rust_output {
                    Some(p) => o.rust_output_path@ == join_path_spec(env.cwd@, p@),
                    Option::None => parent_dir_spec(join_path_spec(env.cwd@, raw.rust_input@))
                        is Some && o.rust_output_path@ == join_path_spec(
                        env.cwd@,
                        join_path_spec(
                            parent_dir_spec(join_path_spec(env.cwd@, raw.rust_input@))->Some_0,
                            "bridge_generated.rs"@,
                        ),
                    ),
                })
                &&& (match raw.class_name {
                    Some(c) => o.class_name@ == c@,
                    Option::None => exists|pkg: Seq<char>| o.class_name@ == pascal_of(pkg),
                })
                &&& (match raw.c_output {
                    Some(p) => o.c_output_path@ == join_path_spec(env.cwd@, p@),
                    Option::None => env.c_output_guess is Some && o.c_output_path@
                        == join_path_spec(env.cwd@, env.c_output_guess->Some_0@),
                })
                &&& o.dart_format_line_length == (match raw.dart_format_line_length {
                    Some(l) => l,
                    Option::None => 80,
                })
                &&& o.skip_add_mod_to_lib == raw.skip_add_mod_to_lib
                &&& (match raw.llvm_path {
                    Some(p) => o.llvm_path@ == p@,
                    Option::None => o.llvm_path@.len() == 0,
                })
            },
            Err(e) => match e {
                ConfigError::FailToGuess(n) => {
                    ||| (n@ == "rust_crate_dir"@ && raw.rust_crate_dir is None
                        && env.crate_dir_guess is None)
                    ||| (n@ == "rust_output"@ && raw.rust_output is None && parent_dir_spec(
                        join_path_spec(env.cwd@, raw.rust_input@),
                    ) is None)
                    ||| (n@ == "class_name"@ && raw.class_name is None)
                    ||| (n@ == "c_output"@ && raw.c_output is None && env.c_output_guess is None)
                },
            },
        },
        raw.rust_crate_dir is None && env.crate_dir_guess is None ==> r is Err,
        raw.c_output is None && env.c_output_guess is None ==> r is Err,
{
    let rust_input_path = canon_path(env.cwd.as_str(), raw.rust_input.as_str());

    let crate_dir_raw: String = match raw.rust_crate_dir {
        Some(d) => d,
        Option::None => match &env.crate_dir_guess {
            Some(d) => d.clone(),
            Option::None => {
                return Err(ConfigError::FailToGuess(String::from_str("rust_crate_dir")));
            },
        },
    };
    let rust_crate_dir = canon_path(env.cwd.as_str(), crate_dir_raw.as_str());

    let rust_output_raw: String = match raw.rust_output {
        Some(p) => p,
        Option::None => match fallback_rust_output_path(rust_input_path.as_str()) {
            Some(p) => p,
            Option::None => {
                return Err(ConfigError::FailToGuess(String::from_str("rust_output")));
            },
        },
    };
    let rust_output_path = canon_path(env.cwd.as_str(), rust_output_raw.as_str());

    let class_name: String = match raw.class_name {
        Some(c) => c,
        Option::None => {
            let content: &String = match &env.cargo_toml_content {
                Some(c) => c,
                Option::None => {
                    return Err(ConfigError::FailToGuess(String::from_str("class_name")));
                },
            };
            match fallback_class_name(content.as_str()) {
                Some(c) => c,
                Option::None => {
                    return Err(ConfigError::FailToGuess(String::from_str("class_name")));
                },
            }
        },
    };

    let c_output_raw: String = match raw.c_output {
        Some(p) => p,
        Option::None => match &env.c_output_guess {
            Some(p) => p.clone(),
            Option::None => {
                return Err(ConfigError::FailToGuess(String::from_str("c_output")));
            },
        },
    };
    let c_output_path = canon_path(env.cwd.as_str(), c_output_raw.as_str());

    let dart_output_path = canon_path(env.cwd.as_str(), raw.dart_output.as_str());

    let dart_format_line_length: i32 = match raw.dart_format_line_length {
        Some(l) => l,
        Option::None => 80,
    };
    let llvm_path: String = match raw.llvm_path {
        Some(p) => p,
        Option::None => String::new(),
    };

    Ok(
        Opts {
            rust_input_path,
            dart_output_path,
            c_output_path,
            rust_crate_dir,
            rust_output_path,
            class_name,
            dart_format_line_length,
            skip_add_mod_to_lib: raw.skip_add_mod_to_lib,
            llvm_path,
        },
    )
}

impl Opts {
    /// The name of the generated public class.
    pub fn dart_api_class_name(&self) -> (r: String)
        ensures
            r@ == self.class_name@,
    {
        self.class_name.clone()
    }

    /// The name of the generated implementation class.
    pub fn dart_api_impl_class_name(&self) -> (r: String)
        ensures
            r@ == self.class_name@ + "Impl"@,
    {
        let mut s = self.class_name.clone();
        s.append("Impl");
        s
    }

    /// The name of the generated wire class.
    pub fn dart_wire_class_name(&self) -> (r: String)
        ensures
            r@ == self.class_name@ + "Wire"@,
    {
        let mut s = self.class_name.clone();
        s.append("Wire");
        s
    }
}

} // verus!
