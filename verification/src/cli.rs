//! The command line: the directory to walk, the language, the directories to
//! leave out; and the line that is printed for each file.

use crate::language::{get_language_config, language_entry, texts, Language};
use crate::profile::{CommentProfile, ProfileView};
use crate::text::{chars_of, lowercase, same_text, string_of};
use vstd::prelude::*;

verus! {

/// Why a command line is refused.
#[derive(Clone, Copy, Debug, PartialEq, Eq, Structural)]
pub enum CliError {
    /// Fewer than three arguments, the program's name included.
    Usage,
    /// No `--lang`, or nothing after it.
    MissingLanguage,
    /// The name after `--lang` is not in the table of languages.
    UnsupportedLanguage,
}

/// What a command line asks for.
#[derive(Clone, Debug)]
pub struct Options {
    pub directory: String,
    pub extensions: Vec<String>,
    pub skip_dirs: Vec<String>,
    pub profile: CommentProfile,
}

/// The options as sequences of characters.
pub ghost struct OptionsView {
    pub directory: Seq<char>,
    pub extensions: Seq<Seq<char>>,
    pub skip_dirs: Seq<Seq<char>>,
    pub profile: ProfileView,
}

impl View for Options {
    type V = OptionsView;

    open spec fn view(&self) -> OptionsView {
        OptionsView {
            directory: self.directory@,
            extensions: texts(self.extensions@),
            skip_dirs: texts(self.skip_dirs@),
            profile: self.profile@,
        }
    }
}

/// The first position at or after `i` at which `x` stands in `a`.
pub open spec fn position_from(a: Seq<Seq<char>>, x: Seq<char>, i: int) -> Option<int>
    decreases a.len() - i,
{
    if i < 0 || i >= a.len() {
        None
    } else if a[i] == x {
        Some(i)
    } else {
        position_from(a, x, i + 1)
    }
}

/// The argument that follows the first occurrence of `flag`, if `flag` occurs
/// and is not the last argument.
pub open spec fn value_after(args: Seq<Seq<char>>, flag: Seq<char>) -> Option<Seq<char>> {
    match position_from(args, flag, 0) {
        Some(i) => if i + 1 < args.len() {
            Some(args[i + 1])
        } else {
            None
        },
        None => None,
    }
}

/// The pieces of `s` between the occurrences of `sep`: one more piece than
/// there are occurrences, empty pieces included.
pub open spec fn split_on(s: Seq<char>, sep: char) -> Seq<Seq<char>>
    decreases s.len(),
{
    if s.len() == 0 {
        seq![Seq::<char>::empty()]
    } else {
        let rest = split_on(s.drop_last(), sep);
        if s.last() == sep {
            rest.push(Seq::<char>::empty())
        } else if rest.len() > 0 {
            rest.drop_last().push(rest.last().push(s.last()))
        } else {
            rest
        }
    }
}

/// `s` without the occurrences of `c` that it starts with.
pub open spec fn without_leading(s: Seq<char>, c: char) -> Seq<char>
    decreases s.len(),
{
    if s.len() > 0 && s[0] == c {
        without_leading(s.drop_first(), c)
    } else {
        s
    }
}

/// The directories that `--skip` names, if it is given with a value.
pub open spec fn extra_skip_dirs(args: Seq<Seq<char>>) -> Seq<Seq<char>> {
    match value_after(args, "--skip"@) {
        Some(v) => split_on(v, ','),
        None => Seq::empty(),
    }
}

/// What a command line means.
pub open spec fn parsed(args: Seq<Seq<char>>) -> Result<OptionsView, CliError> {
    if args.len() < 3 {
        Err(CliError::Usage)
    } else {
        match value_after(args, "--lang"@) {
            None => Err(CliError::MissingLanguage),
            Some(lang) => match language_entry(lowercase(lang)) {
                None => Err(CliError::UnsupportedLanguage),
                Some(l) => Ok(
                    OptionsView {
                        directory: args[1],
                        extensions: l.extensions,
                        skip_dirs: l.default_skip_dirs + extra_skip_dirs(args),
                        profile: l.profile,
                    },
                ),
            },
        }
    }
}

/// The view of what parsing returns.
pub open spec fn parse_view(r: Result<Options, CliError>) -> Result<OptionsView, CliError> {
    match r {
        Ok(o) => Ok(o@),
        Err(e) => Err(e),
    }
}

/// The first position at which `flag` stands in `args`.
pub fn first_position(args: &Vec<String>, flag: &str) -> (r: Option<usize>)
    ensures
        match r {
            Some(i) => i < args.len() && position_from(texts(args@), flag@, 0) == Some(i as int),
            None => position_from(texts(args@), flag@, 0) is None,
        },
{
    let mut i: usize = 0;
    while i < args.len()
        invariant
            i <= args.len(),
            position_from(texts(args@), flag@, 0) == position_from(texts(args@), flag@, i as int),
        decreases args.len() - i,
    {
        assert(texts(args@)[i as int] == args@[i as int]@);
        if same_text(args[i].as_str(), flag) {
            return Some(i);
        }
        i += 1;
    }
    None
}

/// The argument that follows the first occurrence of `flag`.
pub fn flag_value(args: &Vec<String>, flag: &str) -> (r: Option<String>)
    ensures
        match r {
            Some(v) => value_after(texts(args@), flag@) == Some(v@),
            None => value_after(texts(args@), flag@) is None,
        },
{
    match first_position(args, flag) {
        Some(i) => {
            if i + 1 < args.len() {
                assert(texts(args@)[i + 1] == args@[i + 1]@);
                Some(args[i + 1].clone())
            } else {
                None
            }
        },
        None => None,
    }
}

/// Splits `s` at every comma.
pub fn split_commas(s: &str) -> (r: Vec<String>)
    ensures
        texts(r@) == split_on(s@, ','),
{
    let v = chars_of(s);
    let mut pieces: Vec<String> = Vec::new();
    let mut current: Vec<char> = Vec::new();
    let mut i: usize = 0;
    assert(v@.take(0) =~= Seq::<char>::empty());
    assert(texts(pieces@).push(current@) =~= seq![Seq::<char>::empty()]);
    while i < v.len()
        invariant
            i <= v.len(),
            split_on(v@.take(i as int), ',') == texts(pieces@).push(current@),
        decreases v.len() - i,
    {
        let c = v[i];
        let ghost rest = texts(pieces@).push(current@);
        proof {
            let t = v@.take(i + 1);
            assert(t.drop_last() =~= v@.take(i as int));
            assert(t.last() == c);
        }
        if c == ',' {
            pieces.push(string_of(&current));
            current = Vec::new();
            assert(texts(pieces@).push(current@) =~= rest.push(Seq::<char>::empty()));
        } else {
            current.push(c);
            assert(texts(pieces@).push(current@) =~= rest.drop_last().push(rest.last().push(c)));
        }
        i += 1;
    }
    assert(v@.take(v@.len() as int) =~= v@);
    let ghost before = texts(pieces@);
    pieces.push(string_of(&current));
    assert(texts(pieces@) =~= before.push(current@));
    pieces
}

/// The list `list` followed by the list `more`.
fn followed_by(list: Vec<String>, more: Vec<String>) -> (r: Vec<String>)
    ensures
        texts(r@) == texts(list@) + texts(more@),
{
    let mut r = list;
    let mut m = more;
    r.append(&mut m);
    assert(texts(r@) =~= texts(list@) + texts(more@));
    r
}

/// Reads the command line: the program's name, the directory, `--lang` with a
/// language, and if wanted `--skip` with directory names between commas.
pub fn parse_args(args: &Vec<String>) -> (r: Result<Options, CliError>)
    ensures
        parse_view(r) == parsed(texts(args@)),
{
    if args.len() < 3 {
        return Err(CliError::Usage);
    }
    let lang = match flag_value(args, "--lang") {
        Some(l) => l,
        None => {
            return Err(CliError::MissingLanguage);
        },
    };
    let language = match get_language_config(lang.as_str()) {
        Some(l) => l,
        None => {
            return Err(CliError::UnsupportedLanguage);
        },
    };
    let extra = match flag_value(args, "--skip") {
        Some(v) => split_commas(v.as_str()),
        None => {
            let e: Vec<String> = Vec::new();
            assert(texts(e@) =~= Seq::<Seq<char>>::empty());
            e
        },
    };
    assert(texts(args@)[1] == args@[1]@);
    let Language { extensions, default_skip_dirs, profile } = language;
    Ok(
        Options {
            directory: args[1].clone(),
            extensions,
            skip_dirs: followed_by(default_skip_dirs, extra),
            profile,
        },
    )
}

/// The line that is printed for one file: its path, a space, and its
/// minified text.
pub fn output_line(relative_path: &str, minified: &str) -> (r: String)
    ensures
        r@ == relative_path@ + seq![' '] + minified@,
{
    let mut v = chars_of(relative_path);
    let mut m = chars_of(minified);
    v.push(' ');
    v.append(&mut m);
    assert(v@ =~= relative_path@ + seq![' '] + minified@);
    string_of(&v)
}

/// `path` without the slashes that it starts with.
pub fn trim_leading_slashes(path: &str) -> (r: String)
    ensures
        r@ == without_leading(path@, '/'),
{
    let v = chars_of(path);
    let mut i: usize = 0;
    assert(v@.subrange(0, v@.len() as int) =~= v@);
    while i < v.len() && v[i] == '/'
        invariant
            i <= v.len(),
            without_leading(v@, '/') == without_leading(v@.subrange(i as int, v@.len() as int), '/'),
        decreases v.len() - i,
    {
        assert(v@.subrange(i as int, v@.len() as int).drop_first() =~= v@.subrange(
            i + 1,
            v@.len() as int,
        ));
        i += 1;
    }
    let mut out: Vec<char> = Vec::new();
    let ghost start = i as int;
    assert(out@ =~= v@.subrange(start, start));
    while i < v.len()
        invariant
            0 <= start <= i <= v.len(),
            out@ == v@.subrange(start, i as int),
            without_leading(path@, '/') == v@.subrange(start, v@.len() as int),
        decreases v.len() - i,
    {
        out.push(v[i]);
        assert(out@ =~= v@.subrange(start, i + 1));
        i += 1;
    }
    string_of(&out)
}

} // verus!
