//! Tests of the snippet pipeline's verified core: directive extraction,
//! flag resolution, include extraction, path math, and command assembly.
use inline_c::config::ConfigMap;
use inline_c::command::BuildError;
use inline_c::command::Language;
use inline_c::command::build_command_args;
use inline_c::command::link_arguments;
use inline_c::command::output_file_args;
use inline_c::command::artifact_paths;
use inline_c::directives::extract_config;
use inline_c::flags::get_env_flags;
use inline_c::flags::include_dirs;
use inline_c::includes::extract_includes;
use inline_c::includes::snippet_include_candidates;
use inline_c::fixer::symlink_candidate;
use inline_c::fixer::header_child_candidates;
use inline_c::paths::header_candidates;
use inline_c::paths::join_path;
use inline_c::paths::parent_dir;
use inline_c::paths::with_extension;
use inline_c::tokenize;
use inline_c::triple_is_msvc;

fn no_env() -> Vec<(String, String)> {
    Vec::new()
}

fn strings(xs: &[&str]) -> Vec<String> {
    xs.iter().map(|x| x.to_string()).collect()
}

#[test]
fn strip_is_identity_without_directives() {
    let program = "int main() {\n    return 0;\n}\n";
    let (stripped, _) = extract_config(program, &no_env());
    assert_eq!(stripped, program);
}

#[test]
fn strip_is_identity_on_empty_text() {
    let (stripped, _) = extract_config("", &no_env());
    assert_eq!(stripped, "");
}

#[test]
fn directive_is_recorded_and_removed() {
    let program = "#inline_c_rs FOO: \"bar baz\"\nint main(){}\n";
    let (stripped, cfg) = extract_config(program, &no_env());
    assert_eq!(stripped, "int main(){}\n");
    assert_eq!(cfg.get(&"FOO".to_string()), Some(&"bar baz".to_string()));
}

#[test]
fn directive_value_is_verbatim() {
    let program = "#inline_c_rs CFLAGS: \"-DFOO=1\"\n";
    let (stripped, cfg) = extract_config(program, &no_env());
    assert_eq!(stripped, "");
    assert_eq!(cfg.get(&"CFLAGS".to_string()), Some(&"-DFOO=1".to_string()));
}

#[test]
fn directive_name_is_trimmed() {
    let program = "#inline_c_rs   FOO : \"v\"\n";
    let (stripped, cfg) = extract_config(program, &no_env());
    assert_eq!(stripped, "");
    assert_eq!(cfg.get(&"FOO".to_string()), Some(&"v".to_string()));
}

#[test]
fn directive_tolerates_stray_blanks() {
    let program = "#inline_c_rs FOO\r:\r \"v\"\n";
    let (stripped, cfg) = extract_config(program, &no_env());
    assert_eq!(stripped, "");
    assert_eq!(cfg.get(&"FOO".to_string()), Some(&"v".to_string()));
}

#[test]
fn directive_tolerates_carriage_return() {
    let program = "#inline_c_rs FOO: \"v\"\r\nint x;\n";
    let (stripped, cfg) = extract_config(program, &no_env());
    assert_eq!(stripped, "int x;\n");
    assert_eq!(cfg.get(&"FOO".to_string()), Some(&"v".to_string()));
}

#[test]
fn directive_needs_its_newline() {
    let program = "#inline_c_rs FOO: \"v\"";
    let (stripped, cfg) = extract_config(program, &no_env());
    assert_eq!(stripped, program);
    assert_eq!(cfg.get(&"FOO".to_string()), None);
}

#[test]
fn malformed_directive_lines_are_kept() {
    let program = "#inline_c_rs FOO \"v\"\n#inline_c_rs : \"v\"\n#inline_c_rs A: \"\"\n";
    let (stripped, cfg) = extract_config(program, &no_env());
    assert_eq!(stripped, program);
    assert_eq!(cfg.get(&"FOO".to_string()), None);
    assert_eq!(cfg.get(&"A".to_string()), None);
}

#[test]
fn later_directive_wins() {
    let program = "#inline_c_rs FOO: \"one\"\n#inline_c_rs FOO: \"two\"\n";
    let (stripped, cfg) = extract_config(program, &no_env());
    assert_eq!(stripped, "");
    assert_eq!(cfg.get(&"FOO".to_string()), Some(&"two".to_string()));
}

#[test]
fn environment_seeds_with_prefix_stripped() {
    let env = vec![
        ("INLINE_C_RS_CFLAGS".to_string(), "-Ia".to_string()),
        ("HOME".to_string(), "/home/someone".to_string()),
    ];
    let (_, cfg) = extract_config("int x;\n", &env);
    assert_eq!(cfg.get(&"CFLAGS".to_string()), Some(&"-Ia".to_string()));
    assert_eq!(cfg.get(&"HOME".to_string()), None);
}

#[test]
fn directive_overrides_environment() {
    let env = vec![("INLINE_C_RS_FOO".to_string(), "from env".to_string()),
        ("INLINE_C_RS_KEEP".to_string(), "kept".to_string())];
    let program = "#inline_c_rs FOO: \"from directive\"\n";
    let (_, cfg) = extract_config(program, &env);
    assert_eq!(cfg.get(&"FOO".to_string()), Some(&"from directive".to_string()));
    assert_eq!(cfg.get(&"KEEP".to_string()), Some(&"kept".to_string()));
}

#[test]
fn tokenize_splits_on_whitespace_runs() {
    let toks = tokenize("-I a  -I\tb");
    assert_eq!(toks, strings(&["-I", "a", "-I", "b"]));
}

#[test]
fn tokenize_empty_and_blank() {
    assert_eq!(tokenize(""), strings(&[]));
    assert_eq!(tokenize("  \t \n"), strings(&[]));
}

#[test]
fn tokenize_preserves_order_and_count() {
    let toks = tokenize(" a bb  ccc\nd ");
    assert_eq!(toks, strings(&["a", "bb", "ccc", "d"]));
    assert_eq!(toks.len(), 4);
}

#[test]
fn flag_group_prefers_configuration_map() {
    let mut vars = ConfigMap::new();
    vars.insert("CFLAGS".to_string(), "-Ia -Ib".to_string());
    let mut ambient = ConfigMap::new();
    ambient.insert("CFLAGS".to_string(), "-Iz".to_string());
    let flags = get_env_flags(&vars, &ambient, &"CFLAGS".to_string());
    assert_eq!(flags, strings(&["-Ia", "-Ib"]));
}

#[test]
fn flag_group_falls_back_to_ambient_then_empty() {
    let vars = ConfigMap::new();
    let mut ambient = ConfigMap::new();
    ambient.insert("LDFLAGS".to_string(), "/lib wasmer.dll".to_string());
    assert_eq!(
        get_env_flags(&vars, &ambient, &"LDFLAGS".to_string()),
        strings(&["/lib", "wasmer.dll"])
    );
    assert_eq!(get_env_flags(&vars, &ambient, &"CXXFLAGS".to_string()), strings(&[]));
}

#[test]
fn include_dirs_strips_marker() {
    let dirs = include_dirs(&strings(&["-Ifoo", "bar", "-I/x/y", "-I"]));
    assert_eq!(dirs, strings(&["foo", "/x/y", ""]));
}

#[test]
fn includes_extracted_per_line() {
    let text = "#include \"foo.h\"\nint x;\n#include \"sub/bar.h\"\n";
    assert_eq!(extract_includes(text), strings(&["foo.h", "sub/bar.h"]));
}

#[test]
fn includes_empty_without_directives() {
    assert_eq!(extract_includes("int main(){return 0;}\n"), strings(&[]));
}

#[test]
fn include_capture_runs_to_last_quote() {
    let text = "#include \"a\" \"b\"\n";
    assert_eq!(extract_includes(text), strings(&["a\" \"b"]));
}

#[test]
fn snippet_candidates_empty_without_includes() {
    let candidates = snippet_include_candidates("int main(){}\n", &strings(&[]));
    assert_eq!(candidates, strings(&[]));
}

#[test]
fn snippet_candidates_join_first_root() {
    let candidates = snippet_include_candidates(
        "#include \"wasmer.h\"\n",
        &strings(&["/inc", "/other"]),
    );
    assert_eq!(candidates, strings(&["/inc/wasmer.h"]));
}

#[test]
fn header_candidates_keep_h_suffix() {
    let picked = header_candidates(&strings(&["/i/a.h", "/i/b.c", "/i/blah", "/i/x.hh"]));
    assert_eq!(picked, strings(&["/i/a.h", "/i/blah", "/i/x.hh"]));
}

#[test]
fn parent_and_join() {
    assert_eq!(parent_dir(&"/inc/wasmer.h".to_string()), "/inc");
    assert_eq!(parent_dir(&"wasmer.h".to_string()), "");
    assert_eq!(parent_dir(&"/wasmer.h".to_string()), "/");
    assert_eq!(join_path(&"/inc".to_string(), &"a.h".to_string()), "/inc/a.h");
    assert_eq!(join_path(&"".to_string(), &"a.h".to_string()), "a.h");
    assert_eq!(join_path(&"dir\\".to_string(), &"a.h".to_string()), "dir\\a.h");
}

#[test]
fn symlink_candidate_is_sibling_of_header() {
    let c = symlink_candidate(&"/inc/wasm.h".to_string(), &"wasm_real.h".to_string());
    assert_eq!(c, "/inc/wasm_real.h");
}

#[test]
fn child_candidates_resolve_against_parent() {
    let children = header_child_candidates(
        &"/inc/top.h".to_string(),
        &"#include \"nested/a.h\"\n#include \"b.h\"\n".to_string(),
    );
    assert_eq!(children, strings(&["/inc/nested/a.h", "/inc/b.h"]));
    let none = header_child_candidates(&"/inc/top.h".to_string(), &"int x;\n".to_string());
    assert_eq!(none, strings(&[]));
}

#[test]
fn with_extension_replaces_or_appends() {
    assert_eq!(with_extension(&"/t/out.exe".to_string(), "obj"), "/t/out.obj");
    assert_eq!(with_extension(&"/t/out".to_string(), "obj"), "/t/out.obj");
    assert_eq!(with_extension(&"/t.d/out".to_string(), "obj"), "/t.d/out.obj");
    assert_eq!(with_extension(&"/t/.hidden".to_string(), "obj"), "/t/.hidden.obj");
}

#[test]
fn empty_ldflags_ask_for_no_linking() {
    assert_eq!(link_arguments(&strings(&[])), Ok(None));
}

#[test]
fn lone_link_path_misses_its_library() {
    assert_eq!(link_arguments(&strings(&["/lib"])), Err(BuildError::MissingLinkLibrary));
}

#[test]
fn link_arguments_strip_rpath_and_normalize_dll() {
    let r = link_arguments(&strings(&["-rpath,/lib/wasmer", "wasmer.dll"])).unwrap().unwrap();
    assert_eq!(r.0, "/lib/wasmer");
    assert_eq!(r.1, "wasmer.dll.lib");
    let r = link_arguments(&strings(&["/lib", "wasmer.lib"])).unwrap().unwrap();
    assert_eq!(r.0, "/lib");
    assert_eq!(r.1, "wasmer.lib");
}

#[test]
fn output_args_depend_on_compiler_family() {
    let msvc = output_file_args(&"/t/out.exe".to_string(), true, false);
    assert_eq!(msvc, strings(&["-Fo/t/out.obj", "-Fe/t/out.exe"]));
    let clang = output_file_args(&"/t/out.exe".to_string(), true, true);
    assert_eq!(clang, strings(&["-o", "/t/out.exe"]));
    let other = output_file_args(&"/t/out.exe".to_string(), false, false);
    assert_eq!(other, strings(&["-o", "/t/out.exe"]));
}

#[test]
fn command_args_assembled_in_order() {
    let args = build_command_args(
        &strings(&["-I/inc", "-DFOO=1"]),
        &"/t/out.exe".to_string(),
        &"/t/in.c".to_string(),
        &strings(&["-rpath,/lib", "wasmer.dll"]),
        true,
        false,
    )
    .unwrap();
    assert_eq!(
        args,
        strings(&[
            "-I/inc",
            "-DFOO=1",
            "-Fo/t/out.obj",
            "-Fe/t/out.exe",
            "/t/in.c",
            "/link",
            "wasmer.dll.lib",
            "/LIBPATH:/lib",
        ])
    );
}

#[test]
fn command_args_without_ldflags_end_at_the_source() {
    let args = build_command_args(
        &strings(&[]),
        &"/t/out.exe".to_string(),
        &"/t/in.c".to_string(),
        &strings(&[]),
        true,
        false,
    )
    .unwrap();
    assert_eq!(args, strings(&["-Fo/t/out.obj", "-Fe/t/out.exe", "/t/in.c"]));
}

#[test]
fn command_args_report_missing_link_library() {
    let r = build_command_args(
        &strings(&[]),
        &"/t/out.exe".to_string(),
        &"/t/in.c".to_string(),
        &strings(&["/lib"]),
        true,
        false,
    );
    assert_eq!(r, Err(BuildError::MissingLinkLibrary));
}

#[test]
fn artifacts_are_source_executable_object() {
    let a = artifact_paths(&"/t/in.c".to_string(), &"/t/out.exe".to_string());
    assert_eq!(a, strings(&["/t/in.c", "/t/out.exe", "/t/out.obj"]));
}

#[test]
fn language_extension() {
    assert_eq!(Language::C.to_string(), "c");
    assert_eq!(Language::Cxx.to_string(), "cpp");
}

#[test]
fn msvc_triples_recognized() {
    assert!(triple_is_msvc("x86_64-pc-windows-msvc"));
    assert!(!triple_is_msvc("x86_64-unknown-linux-gnu"));
    assert!(!triple_is_msvc(""));
}

#[test]
fn config_map_last_write_wins() {
    let mut m = ConfigMap::new();
    assert_eq!(m.get(&"A".to_string()), None);
    m.insert("A".to_string(), "1".to_string());
    m.insert("B".to_string(), "2".to_string());
    m.insert("A".to_string(), "3".to_string());
    assert_eq!(m.get(&"A".to_string()), Some(&"3".to_string()));
    assert_eq!(m.get(&"B".to_string()), Some(&"2".to_string()));
}

#[test]
fn scenario_directive_feeds_cflags() {
    let program = "#inline_c_rs CFLAGS: \"-DFOO=1\"\n#ifdef FOO\nint main(){return 0;}\n#endif\n";
    let (stripped, cfg) = extract_config(program, &no_env());
    assert_eq!(stripped, "#ifdef FOO\nint main(){return 0;}\n#endif\n");
    let ambient = ConfigMap::new();
    let cflags = get_env_flags(&cfg, &ambient, &"CFLAGS".to_string());
    assert_eq!(cflags, strings(&["-DFOO=1"]));
}

#[test]
fn scenario_no_library_needed_builds_without_link_tail() {
    let (stripped, cfg) = extract_config("int main(){return 0;}", &no_env());
    assert_eq!(stripped, "int main(){return 0;}");
    let ambient = ConfigMap::new();
    let ldflags = get_env_flags(&cfg, &ambient, &"LDFLAGS".to_string());
    assert_eq!(ldflags, strings(&[]));
    let args = build_command_args(
        &strings(&[]),
        &"/t/out.exe".to_string(),
        &"/t/in.c".to_string(),
        &ldflags,
        true,
        false,
    )
    .unwrap();
    assert_eq!(args, strings(&["-Fo/t/out.obj", "-Fe/t/out.exe", "/t/in.c"]));
}

#[test]
fn scenario_missing_link_library_is_reported() {
    let (stripped, cfg) = extract_config("int main(){return 0;}\n", &no_env());
    let ambient = {
        let mut a = ConfigMap::new();
        a.insert("LDFLAGS".to_string(), "/lib".to_string());
        a
    };
    let ldflags = get_env_flags(&cfg, &ambient, &"LDFLAGS".to_string());
    let r = build_command_args(
        &strings(&[]),
        &"/t/out.exe".to_string(),
        &"/t/in.c".to_string(),
        &ldflags,
        true,
        false,
    );
    assert_eq!(r, Err(BuildError::MissingLinkLibrary));
    assert_eq!(stripped, "int main(){return 0;}\n");
}
