//! The languages that are known by name: their file extensions, the
//! directories that are left out by default, and their comment syntax.

use crate::profile::{CommentProfile, ProfileView};
use crate::text::{chars_of, lowercase, spells};
use vstd::prelude::*;

verus! {

/// What is known of one language.
#[derive(Clone, Debug)]
pub struct Language {
    pub extensions: Vec<String>,
    pub default_skip_dirs: Vec<String>,
    pub profile: CommentProfile,
}

/// A language as sequences of characters.
pub ghost struct LanguageView {
    pub extensions: Seq<Seq<char>>,
    pub default_skip_dirs: Seq<Seq<char>>,
    pub profile: ProfileView,
}

/// The strings of `v` as sequences of characters.
pub open spec fn texts(v: Seq<String>) -> Seq<Seq<char>> {
    Seq::new(v.len(), |i: int| v[i]@)
}

impl View for Language {
    type V = LanguageView;

    open spec fn view(&self) -> LanguageView {
        LanguageView {
            extensions: texts(self.extensions@),
            default_skip_dirs: texts(self.default_skip_dirs@),
            profile: self.profile@,
        }
    }
}

/// The view of what a lookup returns.
pub open spec fn found(r: Option<Language>) -> Option<LanguageView> {
    match r {
        Some(l) => Some(l@),
        None => None,
    }
}

/// The entry of a language with the given extensions, default skip
/// directories and comment tokens.
pub open spec fn entry(
    extensions: Seq<Seq<char>>,
    default_skip_dirs: Seq<Seq<char>>,
    line_comment: Seq<char>,
    block_comment_start: Seq<char>,
    block_comment_end: Seq<char>,
) -> Option<LanguageView> {
    Some(
        LanguageView {
            extensions,
            default_skip_dirs,
            profile: ProfileView { line_comment, block_comment_start, block_comment_end },
        },
    )
}

/// The table of languages, by name in lower case.
pub open spec fn language_entry(name: Seq<char>) -> Option<LanguageView> {
    if name == "python"@ {
        entry(
            seq!["py"@, "pyw"@],
            seq!["__pycache__"@, "venv"@, ".env"@, "dist"@],
            "#"@,
            "'''"@,
            "'''"@,
        )
    } else if name == "java"@ {
        entry(
            seq!["java"@],
            seq!["target"@, "build"@, "out"@],
            "//"@,
            "/*"@,
            "*/"@,
        )
    } else if name == "javascript"@ || name == "js"@ {
        entry(
            seq!["js"@, "jsx"@, "mjs"@],
            seq!["node_modules"@, "dist"@, "build"@],
            "//"@,
            "/*"@,
            "*/"@,
        )
    } else if name == "cpp"@ || name == "c++"@ {
        entry(
            seq!["cpp"@, "hpp"@, "cc"@, "hh"@, "cxx"@, "hxx"@],
            seq!["build"@, "obj"@, "bin"@],
            "//"@,
            "/*"@,
            "*/"@,
        )
    } else if name == "csharp"@ || name == "c#"@ {
        entry(
            seq!["cs"@],
            seq!["bin"@, "obj"@, "Debug"@, "Release"@],
            "//"@,
            "/*"@,
            "*/"@,
        )
    } else if name == "php"@ {
        entry(
            seq!["php"@],
            seq!["vendor"@, "cache"@],
            "//"@,
            "/*"@,
            "*/"@,
        )
    } else if name == "ruby"@ {
        entry(
            seq!["rb"@],
            seq!["vendor"@, "tmp"@, "log"@],
            "#"@,
            "=begin"@,
            "=end"@,
        )
    } else if name == "swift"@ {
        entry(
            seq!["swift"@],
            seq![".build"@, "Pods"@],
            "//"@,
            "/*"@,
            "*/"@,
        )
    } else if name == "typescript"@ || name == "ts"@ {
        entry(
            seq!["ts"@, "tsx"@],
            seq!["node_modules"@, "dist"@, "build"@],
            "//"@,
            "/*"@,
            "*/"@,
        )
    } else if name == "kotlin"@ || name == "kt"@ {
        entry(
            seq!["kt"@, "kts"@],
            seq!["build"@, "out"@],
            "//"@,
            "/*"@,
            "*/"@,
        )
    } else if name == "go"@ {
        entry(
            seq!["go"@],
            seq!["vendor"@, "bin"@],
            "//"@,
            "/*"@,
            "*/"@,
        )
    } else if name == "rust"@ {
        entry(
            seq!["rs"@],
            seq!["target"@],
            "//"@,
            "/*"@,
            "*/"@,
        )
    } else if name == "r"@ {
        entry(
            seq!["r"@, "R"@],
            seq!["renv"@],
            "#"@,
            ""@,
            ""@,
        )
    } else if name == "matlab"@ {
        entry(
            seq!["m"@],
            seq!["bin"@],
            "%"@,
            "%{"@,
            "%}"@,
        )
    } else if name == "vbnet"@ || name == "vb"@ {
        entry(
            seq!["vb"@],
            seq!["bin"@, "obj"@],
            "'"@,
            ""@,
            ""@,
        )
    } else if name == "scala"@ {
        entry(
            seq!["scala"@],
            seq!["target"@, "project/target"@],
            "//"@,
            "/*"@,
            "*/"@,
        )
    } else if name == "perl"@ {
        entry(
            seq!["pl"@, "pm"@],
            seq!["blib"@, "_build"@],
            "#"@,
            "=pod"@,
            "=cut"@,
        )
    } else if name == "dart"@ {
        entry(
            seq!["dart"@],
            seq!["build"@, ".dart_tool"@],
            "//"@,
            "/*"@,
            "*/"@,
        )
    } else if name == "objective-c"@ || name == "objc"@ {
        entry(
            seq!["m"@, "mm"@],
            seq!["build"@, "DerivedData"@],
            "//"@,
            "/*"@,
            "*/"@,
        )
    } else if name == "groovy"@ {
        entry(
            seq!["groovy"@, "gvy"@, "gy"@, "gsh"@],
            seq!["target"@, "build"@],
            "//"@,
            "/*"@,
            "*/"@,
        )
    } else if name == "julia"@ {
        entry(
            seq!["jl"@],
            seq!["docs/build"@],
            "#"@,
            "#="@,
            "=#"@,
        )
    } else if name == "haskell"@ {
        entry(
            seq!["hs"@, "lhs"@],
            seq!["dist"@, ".stack-work"@],
            "--"@,
            "{-"@,
            "-}"@,
        )
    } else if name == "shell"@ || name == "bash"@ {
        entry(
            seq!["sh"@, "bash"@],
            seq!["tmp"@],
            "#"@,
            ""@,
            ""@,
        )
    } else if name == "lua"@ {
        entry(
            seq!["lua"@],
            seq!["bin"@],
            "--"@,
            "--[["@,
            "]]"@,
        )
    } else if name == "c"@ {
        entry(
            seq!["c"@, "h"@],
            seq!["build"@, "obj"@, "bin"@],
            "//"@,
            "/*"@,
            "*/"@,
        )
    } else {
        None
    }
}

/// The list of one name.
fn one(a: &str) -> (r: Vec<String>)
    ensures
        texts(r@) == seq![a@],
{
    let mut r: Vec<String> = Vec::new();
    r.push(a.to_owned());
    assert(texts(r@) =~= seq![a@]);
    r
}

/// The list of two names.
fn two(a: &str, b: &str) -> (r: Vec<String>)
    ensures
        texts(r@) == seq![a@, b@],
{
    let mut r: Vec<String> = Vec::new();
    r.push(a.to_owned());
    r.push(b.to_owned());
    assert(texts(r@) =~= seq![a@, b@]);
    r
}

/// The list of three names.
fn three(a: &str, b: &str, c: &str) -> (r: Vec<String>)
    ensures
        texts(r@) == seq![a@, b@, c@],
{
    let mut r: Vec<String> = Vec::new();
    r.push(a.to_owned());
    r.push(b.to_owned());
    r.push(c.to_owned());
    assert(texts(r@) =~= seq![a@, b@, c@]);
    r
}

/// The list of four names.
fn four(a: &str, b: &str, c: &str, d: &str) -> (r: Vec<String>)
    ensures
        texts(r@) == seq![a@, b@, c@, d@],
{
    let mut r: Vec<String> = Vec::new();
    r.push(a.to_owned());
    r.push(b.to_owned());
    r.push(c.to_owned());
    r.push(d.to_owned());
    assert(texts(r@) =~= seq![a@, b@, c@, d@]);
    r
}

/// The list of six names.
fn six(a: &str, b: &str, c: &str, d: &str, e: &str, f: &str) -> (r: Vec<String>)
    ensures
        texts(r@) == seq![a@, b@, c@, d@, e@, f@],
{
    let mut r: Vec<String> = Vec::new();
    r.push(a.to_owned());
    r.push(b.to_owned());
    r.push(c.to_owned());
    r.push(d.to_owned());
    r.push(e.to_owned());
    r.push(f.to_owned());
    assert(texts(r@) =~= seq![a@, b@, c@, d@, e@, f@]);
    r
}

/// The language with the given extensions, default skip directories and
/// comment tokens.
fn language(
    extensions: Vec<String>,
    default_skip_dirs: Vec<String>,
    line_comment: &str,
    block_comment_start: &str,
    block_comment_end: &str,
) -> (r: Option<Language>)
    ensures
        found(r) == entry(
            texts(extensions@),
            texts(default_skip_dirs@),
            line_comment@,
            block_comment_start@,
            block_comment_end@,
        ),
{
    Some(
        Language {
            extensions,
            default_skip_dirs,
            profile: CommentProfile::new(line_comment, block_comment_start, block_comment_end),
        },
    )
}

/// Looks a language up by its name as the table spells it, in lower case.
pub fn lookup_language(name: &str) -> (r: Option<Language>)
    ensures
        found(r) == language_entry(name@),
{
    let n = chars_of(name);
    if spells(&n, "python") {
        language(
            two("py", "pyw"),
            four("__pycache__", "venv", ".env", "dist"),
            "#",
            "'''",
            "'''",
        )
    } else if spells(&n, "java") {
        language(
            one("java"),
            three("target", "build", "out"),
            "//",
            "/*",
            "*/",
        )
    } else if spells(&n, "javascript") || spells(&n, "js") {
        language(
            three("js", "jsx", "mjs"),
            three("node_modules", "dist", "build"),
            "//",
            "/*",
            "*/",
        )
    } else if spells(&n, "cpp") || spells(&n, "c++") {
        language(
            six("cpp", "hpp", "cc", "hh", "cxx", "hxx"),
            three("build", "obj", "bin"),
            "//",
            "/*",
            "*/",
        )
    } else if spells(&n, "csharp") || spells(&n, "c#") {
        language(
            one("cs"),
            four("bin", "obj", "Debug", "Release"),
            "//",
            "/*",
            "*/",
        )
    } else if spells(&n, "php") {
        language(
            one("php"),
            two("vendor", "cache"),
            "//",
            "/*",
            "*/",
        )
    } else if spells(&n, "ruby") {
        language(
            one("rb"),
            three("vendor", "tmp", "log"),
            "#",
            "=begin",
            "=end",
        )
    } else if spells(&n, "swift") {
        language(
            one("swift"),
            two(".build", "Pods"),
            "//",
            "/*",
            "*/",
        )
    } else if spells(&n, "typescript") || spells(&n, "ts") {
        language(
            two("ts", "tsx"),
            three("node_modules", "dist", "build"),
            "//",
            "/*",
            "*/",
        )
    } else if spells(&n, "kotlin") || spells(&n, "kt") {
        language(
            two("kt", "kts"),
            two("build", "out"),
            "//",
            "/*",
            "*/",
        )
    } else if spells(&n, "go") {
        language(
            one("go"),
            two("vendor", "bin"),
            "//",
            "/*",
            "*/",
        )
    } else if spells(&n, "rust") {
        language(
            one("rs"),
            one("target"),
            "//",
            "/*",
            "*/",
        )
    } else if spells(&n, "r") {
        language(
            two("r", "R"),
            one("renv"),
            "#",
            "",
            "",
        )
    } else if spells(&n, "matlab") {
        language(
            one("m"),
            one("bin"),
            "%",
            "%{",
            "%}",
        )
    } else if spells(&n, "vbnet") || spells(&n, "vb") {
        language(
            one("vb"),
            two("bin", "obj"),
            "'",
            "",
            "",
        )
    } else if spells(&n, "scala") {
        language(
            one("scala"),
            two("target", "project/target"),
            "//",
            "/*",
            "*/",
        )
    } else if spells(&n, "perl") {
        language(
            two("pl", "pm"),
            two("blib", "_build"),
            "#",
            "=pod",
            "=cut",
        )
    } else if spells(&n, "dart") {
        language(
            one("dart"),
            two("build", ".dart_tool"),
            "//",
            "/*",
            "*/",
        )
    } else if spells(&n, "objective-c") || spells(&n, "objc") {
        language(
            two("m", "mm"),
            two("build", "DerivedData"),
            "//",
            "/*",
            "*/",
        )
    } else if spells(&n, "groovy") {
        language(
            four("groovy", "gvy", "gy", "gsh"),
            two("target", "build"),
            "//",
            "/*",
            "*/",
        )
    } else if spells(&n, "julia") {
        language(
            one("jl"),
            one("docs/build"),
            "#",
            "#=",
            "=#",
        )
    } else if spells(&n, "haskell") {
        language(
            two("hs", "lhs"),
            two("dist", ".stack-work"),
            "--",
            "{-",
            "-}",
        )
    } else if spells(&n, "shell") || spells(&n, "bash") {
        language(
            two("sh", "bash"),
            one("tmp"),
            "#",
            "",
            "",
        )
    } else if spells(&n, "lua") {
        language(
            one("lua"),
            one("bin"),
            "--",
            "--[[",
            "]]",
        )
    } else if spells(&n, "c") {
        language(
            two("c", "h"),
            three("build", "obj", "bin"),
            "//",
            "/*",
            "*/",
        )
    } else {
        None
    }
}

/// Looks a language up by its name, in whatever case the name is written.
pub fn get_language_config(lang: &str) -> (r: Option<Language>)
    ensures
        found(r) == language_entry(lowercase(lang@)),
{
    let lower = lang.to_lowercase();
    lookup_language(lower.as_str())
}

} // verus!
