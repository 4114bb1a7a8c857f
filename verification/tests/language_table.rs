use code_minifier::language::{get_language_config, lookup_language, Language};

fn check(name: &str, extensions: &[&str], skip_dirs: &[&str], line: &str, start: &str, end: &str) {
    let found: Language = get_language_config(name).expect("the language is in the table");
    assert_eq!(found.extensions, extensions.iter().map(|s| s.to_string()).collect::<Vec<String>>());
    assert_eq!(
        found.default_skip_dirs,
        skip_dirs.iter().map(|s| s.to_string()).collect::<Vec<String>>()
    );
    assert_eq!(found.profile.line_comment, line);
    assert_eq!(found.profile.block_comment_start, start);
    assert_eq!(found.profile.block_comment_end, end);
    let exact: Language = lookup_language(name).expect("the language is in the table");
    assert_eq!(exact.extensions, found.extensions);
    assert_eq!(exact.default_skip_dirs, found.default_skip_dirs);
    assert_eq!(exact.profile.line_comment, found.profile.line_comment);
    assert_eq!(exact.profile.block_comment_start, found.profile.block_comment_start);
    assert_eq!(exact.profile.block_comment_end, found.profile.block_comment_end);
}

#[test]
fn table_holds_python() {
    check("python", &["py", "pyw"], &["__pycache__", "venv", ".env", "dist"], "#", "'''", "'''");
}

#[test]
fn table_holds_java() {
    check("java", &["java"], &["target", "build", "out"], "//", "/*", "*/");
}

#[test]
fn table_holds_javascript() {
    check("javascript", &["js", "jsx", "mjs"], &["node_modules", "dist", "build"], "//", "/*", "*/");
    check("js", &["js", "jsx", "mjs"], &["node_modules", "dist", "build"], "//", "/*", "*/");
}

#[test]
fn table_holds_cpp() {
    check("cpp", &["cpp", "hpp", "cc", "hh", "cxx", "hxx"], &["build", "obj", "bin"], "//", "/*", "*/");
    check("c++", &["cpp", "hpp", "cc", "hh", "cxx", "hxx"], &["build", "obj", "bin"], "//", "/*", "*/");
}

#[test]
fn table_holds_csharp() {
    check("csharp", &["cs"], &["bin", "obj", "Debug", "Release"], "//", "/*", "*/");
    check("c#", &["cs"], &["bin", "obj", "Debug", "Release"], "//", "/*", "*/");
}

#[test]
fn table_holds_php() {
    check("php", &["php"], &["vendor", "cache"], "//", "/*", "*/");
}

#[test]
fn table_holds_ruby() {
    check("ruby", &["rb"], &["vendor", "tmp", "log"], "#", "=begin", "=end");
}

#[test]
fn table_holds_swift() {
    check("swift", &["swift"], &[".build", "Pods"], "//", "/*", "*/");
}

#[test]
fn table_holds_typescript() {
    check("typescript", &["ts", "tsx"], &["node_modules", "dist", "build"], "//", "/*", "*/");
    check("ts", &["ts", "tsx"], &["node_modules", "dist", "build"], "//", "/*", "*/");
}

#[test]
fn table_holds_kotlin() {
    check("kotlin", &["kt", "kts"], &["build", "out"], "//", "/*", "*/");
    check("kt", &["kt", "kts"], &["build", "out"], "//", "/*", "*/");
}

#[test]
fn table_holds_go() {
    check("go", &["go"], &["vendor", "bin"], "//", "/*", "*/");
}

#[test]
fn table_holds_rust() {
    check("rust", &["rs"], &["target"], "//", "/*", "*/");
}

#[test]
fn table_holds_r() {
    check("r", &["r", "R"], &["renv"], "#", "", "");
}

#[test]
fn table_holds_matlab() {
    check("matlab", &["m"], &["bin"], "%", "%{", "%}");
}

#[test]
fn table_holds_vbnet() {
    check("vbnet", &["vb"], &["bin", "obj"], "'", "", "");
    check("vb", &["vb"], &["bin", "obj"], "'", "", "");
}

#[test]
fn table_holds_scala() {
    check("scala", &["scala"], &["target", "project/target"], "//", "/*", "*/");
}

#[test]
fn table_holds_perl() {
    check("perl", &["pl", "pm"], &["blib", "_build"], "#", "=pod", "=cut");
}

#[test]
fn table_holds_dart() {
    check("dart", &["dart"], &["build", ".dart_tool"], "//", "/*", "*/");
}

#[test]
fn table_holds_objective_c() {
    check("objective-c", &["m", "mm"], &["build", "DerivedData"], "//", "/*", "*/");
    check("objc", &["m", "mm"], &["build", "DerivedData"], "//", "/*", "*/");
}

#[test]
fn table_holds_groovy() {
    check("groovy", &["groovy", "gvy", "gy", "gsh"], &["target", "build"], "//", "/*", "*/");
}

#[test]
fn table_holds_julia() {
    check("julia", &["jl"], &["docs/build"], "#", "#=", "=#");
}

#[test]
fn table_holds_haskell() {
    check("haskell", &["hs", "lhs"], &["dist", ".stack-work"], "--", "{-", "-}");
}

#[test]
fn table_holds_shell() {
    check("shell", &["sh", "bash"], &["tmp"], "#", "", "");
    check("bash", &["sh", "bash"], &["tmp"], "#", "", "");
}

#[test]
fn table_holds_lua() {
    check("lua", &["lua"], &["bin"], "--", "--[[", "]]");
}

#[test]
fn table_holds_c() {
    check("c", &["c", "h"], &["build", "obj", "bin"], "//", "/*", "*/");
}

#[test]
fn lookup_ignores_case() {
    let python = get_language_config("PYTHON").expect("the language is in the table");
    assert_eq!(python.extensions, vec!["py".to_string(), "pyw".to_string()]);
    assert_eq!(python.profile.line_comment, "#");
    let rust = get_language_config("Rust").expect("the language is in the table");
    assert_eq!(rust.extensions, vec!["rs".to_string()]);
    assert_eq!(get_language_config("JavaScript").map(|l| l.extensions.len()), Some(3));
    assert_eq!(get_language_config("C++").map(|l| l.extensions.len()), Some(6));
}

#[test]
fn exact_lookup_wants_lower_case() {
    assert!(lookup_language("Python").is_none());
    assert!(lookup_language("RUST").is_none());
    assert!(lookup_language("rust").is_some());
}

#[test]
fn unknown_language_is_none() {
    assert!(get_language_config("cobol").is_none());
    assert!(get_language_config("").is_none());
    assert!(get_language_config("python ").is_none());
    assert!(get_language_config("pythons").is_none());
    assert!(lookup_language("pytho").is_none());
}

#[test]
fn languages_without_block_comments_have_empty_tokens() {
    for name in ["r", "vbnet", "vb", "shell", "bash"] {
        let l = get_language_config(name).expect("the language is in the table");
        assert_eq!(l.profile.block_comment_start, "");
        assert_eq!(l.profile.block_comment_end, "");
    }
}
