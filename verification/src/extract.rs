//! Choosing the entries of an archive that are to be extracted.

use vstd::prelude::*;

verus! {

/// Whether `pattern` speaks of file names only: it holds no slash, or none
/// but its last character. Any other pattern speaks of whole paths.
pub open spec fn names_only(pattern: Seq<char>) -> bool {
    forall|i: int| 0 <= i < pattern.len() - 1 ==> pattern[i] != '/'
}

/// What `pattern` is held against for the entry at `path` whose last
/// component is `file_name`: the name for a pattern of names, where the
/// path has one; the whole path for any other pattern.
pub open spec fn target_of(pattern: Seq<char>, path: Seq<char>, file_name: Option<Seq<char>>) -> Option<
    Seq<char>,
> {
    if names_only(pattern) {
        file_name
    } else {
        Some(path)
    }
}

/// The view of a string that may be missing.
pub open spec fn view_of(text: Option<&str>) -> Option<Seq<char>> {
    match text {
        Some(s) => Some(s@),
        None => None,
    }
}

/// Whether `pattern` speaks of file names only.
pub fn is_names_only(pattern: &str) -> (r: bool)
    ensures
        r == names_only(pattern@),
{
    let n = pattern.unicode_len();
    let mut i: usize = 0;
    while i < n && i < n - 1
        invariant
            n == pattern@.len(),
            forall|j: int| 0 <= j < i ==> pattern@[j] != '/',
        decreases n - i,
    {
        if pattern.get_char(i) == '/' {
            return false;
        }
        i = i + 1;
    }
    true
}

/// What `pattern` is held against for the entry at `path` whose last
/// component is `file_name`.
pub fn match_target<'a>(pattern: &str, path: &'a str, file_name: Option<&'a str>) -> (r: Option<
    &'a str,
>)
    ensures
        view_of(r) == target_of(pattern@, path@, view_of(file_name)),
{
    if is_names_only(pattern) {
        file_name
    } else {
        Some(path)
    }
}

/// `glob::Pattern::new` on `pattern`, then `Pattern::matches` on `text`
/// with the pattern it made: whether the text matches, or nothing where the
/// pattern is not valid. What counts as a separator depends on the
/// platform, so nothing is claimed of the answer.
#[verifier::external_body]
fn glob_matches(pattern: &str, text: &str) -> (r: Option<bool>) {
    match glob::Pattern::new(pattern) {
        Ok(compiled) => Some(compiled.matches(text)),
        Err(_) => None,
    }
}

/// Whether an entry is extracted, given what matching each pattern of the
/// user against it came to: every entry is where no pattern was given;
/// otherwise one is if some pattern matched. A pattern that is not valid,
/// or that had nothing to be held against, did not match.
pub open spec fn chosen(outcomes: Seq<Option<bool>>) -> bool {
    outcomes.len() == 0 || exists|i: int|
        0 <= i < outcomes.len() && #[trigger] outcomes[i] == Some(true)
}

/// Whether an entry is extracted, given what matching each pattern of the
/// user against it came to.
pub fn decide(outcomes: &Vec<Option<bool>>) -> (r: bool)
    ensures
        r == chosen(outcomes@),
{
    if outcomes.len() == 0 {
        return true;
    }
    let mut i: usize = 0;
    while i < outcomes.len()
        invariant
            i <= outcomes@.len(),
            forall|j: int| 0 <= j < i ==> #[trigger] outcomes@[j] != Some(true),
        decreases outcomes@.len() - i,
    {
        match outcomes[i] {
            Some(true) => {
                return true;
            },
            _ => {},
        }
        i = i + 1;
    }
    false
}

/// What matching each of `patterns` against the entry at `path`, whose last
/// component is `file_name`, comes to: for a pattern that has nothing to be
/// held against, nothing; for any other, what the matcher says of the
/// pattern and what it is held against.
pub fn outcomes(patterns: &Vec<String>, path: &str, file_name: Option<&str>) -> (r: Vec<
    Option<bool>,
>)
    ensures
        r@.len() == patterns@.len(),
        forall|i: int|
            0 <= i < patterns@.len() && target_of(patterns@[i]@, path@, view_of(file_name))
                is None ==> (#[trigger] r@[i]) is None,
{
    let mut found: Vec<Option<bool>> = Vec::new();
    let mut i: usize = 0;
    while i < patterns.len()
        invariant
            i <= patterns@.len(),
            found@.len() == i,
            forall|j: int|
                0 <= j < i && target_of(patterns@[j]@, path@, view_of(file_name)) is None ==> (
                #[trigger] found@[j]) is None,
        decreases patterns@.len() - i,
    {
        let pattern = patterns[i].as_str();
        let outcome = match match_target(pattern, path, file_name) {
            Some(text) => glob_matches(pattern, text),
            None => None,
        };
        found.push(outcome);
        i = i + 1;
    }
    found
}

/// Whether the entry at `path`, whose last component is `file_name`, is to
/// be extracted: every entry is where no pattern is given; otherwise one
/// is if a pattern matches what it is held against, as `decide` says of
/// the `outcomes`. A pattern that has nothing to be held against matches
/// nothing.
pub fn should_extract(patterns: &Vec<String>, path: &str, file_name: Option<&str>) -> (r: bool)
    ensures
        patterns@.len() == 0 ==> r,
        r ==> patterns@.len() == 0 || exists|i: int|
            0 <= i < patterns@.len() && #[trigger] target_of(
                patterns@[i]@,
                path@,
                view_of(file_name),
            ) is Some,
{
    let found = outcomes(patterns, path, file_name);
    let r = decide(&found);
    proof {
        if r && patterns@.len() > 0 {
            let i = choose|i: int| 0 <= i < found@.len() && #[trigger] found@[i] == Some(true);
            assert(target_of(patterns@[i]@, path@, view_of(file_name)) is Some);
        }
    }
    r
}

} // verus!
