//! Which directories a walk leaves out and which files it takes, by name.

use crate::language::texts;
use crate::text::same_text;
use vstd::prelude::*;

verus! {

/// Whether `name` is one of the strings of `list`.
pub fn contains_name(list: &Vec<String>, name: &str) -> (r: bool)
    ensures
        r == texts(list@).contains(name@),
{
    let mut i: usize = 0;
    while i < list.len()
        invariant
            i <= list.len(),
            forall|j: int| 0 <= j < i ==> texts(list@)[j] != name@,
        decreases list.len() - i,
    {
        if same_text(list[i].as_str(), name) {
            assert(texts(list@)[i as int] == name@);
            return true;
        }
        i += 1;
    }
    false
}

/// Whether an entry is left out of the walk: it has a name, and the name is
/// one of `skip_dirs`.
pub fn should_skip(name: Option<&str>, skip_dirs: &Vec<String>) -> (r: bool)
    ensures
        r == match name {
            Some(n) => texts(skip_dirs@).contains(n@),
            None => false,
        },
{
    match name {
        Some(n) => contains_name(skip_dirs, n),
        None => false,
    }
}

/// Whether a file is taken: it has an extension, and the extension is one of
/// `extensions`.
pub fn has_valid_extension(extension: Option<&str>, extensions: &Vec<String>) -> (r: bool)
    ensures
        r == match extension {
            Some(e) => texts(extensions@).contains(e@),
            None => false,
        },
{
    match extension {
        Some(e) => contains_name(extensions, e),
        None => false,
    }
}

} // verus!
