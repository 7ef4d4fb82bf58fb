//! What every file format in the registries can say of itself.

use vstd::prelude::*;

verus! {

/// The views of a list of strings.
pub open spec fn views(list: Seq<&'static str>) -> Seq<Seq<char>> {
    Seq::new(list.len(), |i: int| list[i]@)
}

/// Where the last component of `path` starts: behind its last `/`, or at
/// its start where it holds none.
pub open spec fn name_start(path: Seq<char>) -> int
    decreases path.len(),
{
    if path.len() == 0 {
        0
    } else if path.last() == '/' {
        path.len() as int
    } else {
        name_start(path.drop_last())
    }
}

/// The last component of `path`: the name of the file it leads to.
pub open spec fn file_name(path: Seq<char>) -> Seq<char> {
    path.skip(name_start(path))
}

/// Whether the file called `name` has the given extension: the name ends
/// with a dot and the extension.
pub open spec fn has_suffix(name: Seq<char>, extension: Seq<char>) -> bool {
    &&& extension.len() < name.len()
    &&& name[name.len() - extension.len() - 1] == '.'
    &&& name.skip(name.len() - extension.len()) == extension
}

/// Whether the file called `name` has one of `extensions`.
pub open spec fn has_any_suffix(name: Seq<char>, extensions: Seq<Seq<char>>) -> bool {
    exists|i: int| 0 <= i < extensions.len() && has_suffix(name, #[trigger] extensions[i])
}

/// A definition of a file format.
pub trait Format {
    /// The identifier of the format.
    spec fn name(&self) -> Seq<char>;

    /// How the format is shown to a reader.
    spec fn title(&self) -> Seq<char>;

    /// The file name endings that the format goes by.
    spec fn extensions(&self) -> Seq<Seq<char>>;

    /// Whether a stream that starts with `bytes` is of this format.
    spec fn matches(&self, bytes: Seq<u8>) -> bool;

    /// A unique identifier for referring to this format.
    fn id(&self) -> (r: &'static str)
        ensures
            r@ == self.name(),
    ;

    /// The name of the format as shown to a reader.
    fn label(&self) -> (r: &'static str)
        ensures
            r@ == self.title(),
    ;

    /// All file extensions that this format uses, for detecting the format
    /// by file name.
    fn file_extensions(&self) -> (r: Vec<&'static str>)
        ensures
            views(r@) == self.extensions(),
    ;

    /// Checks the starting bytes of a stream against this format's magic
    /// signatures.
    fn match_bytes(&self, bytes: &[u8]) -> (r: bool)
        ensures
            r == self.matches(bytes@),
    ;
}

/// The first of `formats` whose signature `bytes` carries.
pub open spec fn first_match<T: Format>(formats: Seq<T>, bytes: Seq<u8>) -> Option<T>
    decreases formats.len(),
{
    if formats.len() == 0 {
        None
    } else if formats[0].matches(bytes) {
        Some(formats[0])
    } else {
        first_match(formats.skip(1), bytes)
    }
}

/// The first of `formats` that has one of the extensions of the file
/// called `name`.
pub open spec fn first_by_extension<T: Format>(formats: Seq<T>, name: Seq<char>) -> Option<T>
    decreases formats.len(),
{
    if formats.len() == 0 {
        None
    } else if has_any_suffix(name, formats[0].extensions()) {
        Some(formats[0])
    } else {
        first_by_extension(formats.skip(1), name)
    }
}

/// A format is picked by its signature only: what `first_match` names is
/// one of the formats, it matches the bytes, and nothing before it does.
/// It names none exactly when no format matches.
pub proof fn lemma_first_match<T: Format>(formats: Seq<T>, bytes: Seq<u8>)
    ensures
        match first_match(formats, bytes) {
            Some(format) => exists|i: int|
                0 <= i < formats.len() && #[trigger] formats[i] == format && format.matches(bytes)
                    && forall|j: int| 0 <= j < i ==> !(#[trigger] formats[j]).matches(bytes),
            None => forall|j: int| 0 <= j < formats.len() ==> !(#[trigger] formats[j]).matches(bytes),
        },
    decreases formats.len(),
{
    if formats.len() == 0 {
    } else if formats[0].matches(bytes) {
        assert(formats[0] == formats[0]);
    } else {
        let rest = formats.skip(1);
        lemma_first_match(rest, bytes);
        match first_match(rest, bytes) {
            Some(format) => {
                let i = choose|i: int|
                    0 <= i < rest.len() && #[trigger] rest[i] == format && format.matches(bytes)
                        && forall|j: int| 0 <= j < i ==> !(#[trigger] rest[j]).matches(bytes);
                assert(formats[i + 1] == format);
                assert forall|j: int| 0 <= j < i + 1 implies !(#[trigger] formats[j]).matches(
                    bytes,
                ) by {
                    if j > 0 {
                        assert(rest[j - 1] == formats[j]);
                    }
                }
            },
            None => {
                assert forall|j: int| 0 <= j < formats.len() implies !(
                #[trigger] formats[j]).matches(bytes) by {
                    if j > 0 {
                        assert(rest[j - 1] == formats[j]);
                    }
                }
            },
        }
    }
}

/// Scans `formats` in order for the first whose signature `bytes` carries.
pub fn find_by_bytes<T: Format + Copy>(formats: &Vec<T>, bytes: &[u8]) -> (r: Option<T>)
    ensures
        r == first_match(formats@, bytes@),
{
    let mut i: usize = 0;
    proof {
        assert(formats@.skip(0) =~= formats@);
    }
    while i < formats.len()
        invariant
            i <= formats@.len(),
            first_match(formats@, bytes@) == first_match(formats@.skip(i as int), bytes@),
        decreases formats@.len() - i,
    {
        let format = formats[i];
        if format.match_bytes(bytes) {
            return Some(format);
        }
        proof {
            assert(formats@.skip(i as int).skip(1) =~= formats@.skip(i + 1));
        }
        i = i + 1;
    }
    None
}

/// Where the last component of `path` starts.
pub fn find_name_start(path: &str) -> (r: usize)
    ensures
        r == name_start(path@),
        r <= path@.len(),
{
    let mut i: usize = path.unicode_len();
    proof {
        assert(path@.take(i as int) =~= path@);
    }
    while i > 0
        invariant
            i <= path@.len(),
            name_start(path@) == name_start(path@.take(i as int)),
        decreases i,
    {
        if path.get_char(i - 1) == '/' {
            return i;
        }
        proof {
            assert(path@.take(i as int).drop_last() =~= path@.take(i - 1));
        }
        i = i - 1;
    }
    i
}

/// Whether the part of `path` from position `from` on, taken as the name of
/// a file, has the given extension.
fn has_suffix_from(path: &str, from: usize, extension: &str) -> (r: bool)
    requires
        from <= path@.len(),
    ensures
        r == has_suffix(path@.skip(from as int), extension@),
{
    let n = path.unicode_len();
    let m = extension.unicode_len();
    if n - from <= m {
        return false;
    }
    if path.get_char(n - m - 1) != '.' {
        return false;
    }
    let ghost name = path@.skip(from as int);
    let mut j: usize = 0;
    while j < m
        invariant
            n == path@.len(),
            m == extension@.len(),
            from <= n,
            m < n - from,
            name == path@.skip(from as int),
            j <= m,
            forall|k: int| 0 <= k < j ==> path@[n - m + k] == extension@[k],
        decreases m - j,
    {
        if path.get_char(n - m + j) != extension.get_char(j) {
            proof {
                assert(name.len() == n - from);
                assert(name.skip(name.len() - m)[j as int] == path@[n - m + j]);
            }
            return false;
        }
        j = j + 1;
    }
    proof {
        assert(name.len() == n - from);
        assert(name.skip(name.len() - m) =~= extension@);
    }
    true
}

/// Whether the part of `path` from position `from` on, taken as the name of
/// a file, has one of `extensions`.
fn has_extension_from(path: &str, from: usize, extensions: &Vec<&'static str>) -> (r: bool)
    requires
        from <= path@.len(),
    ensures
        r == has_any_suffix(path@.skip(from as int), views(extensions@)),
{
    let mut i: usize = 0;
    while i < extensions.len()
        invariant
            from <= path@.len(),
            i <= extensions@.len(),
            forall|j: int|
                0 <= j < i ==> !has_suffix(
                    path@.skip(from as int),
                    #[trigger] views(extensions@)[j],
                ),
        decreases extensions@.len() - i,
    {
        if has_suffix_from(path, from, extensions[i]) {
            assert(has_suffix(path@.skip(from as int), views(extensions@)[i as int]));
            return true;
        }
        i = i + 1;
    }
    false
}

/// Whether the file called `name` has one of `extensions`: whether the
/// name ends with a dot and one of them.
pub fn has_extension(name: &str, extensions: &Vec<&'static str>) -> (r: bool)
    ensures
        r == has_any_suffix(name@, views(extensions@)),
{
    proof {
        assert(name@.skip(0) =~= name@);
    }
    has_extension_from(name, 0, extensions)
}

/// Scans `formats` in order for the first that has one of the extensions
/// of the file that `path` leads to.
pub fn find_by_extension<T: Format + Copy>(formats: &Vec<T>, path: &str) -> (r: Option<T>)
    ensures
        r == first_by_extension(formats@, file_name(path@)),
{
    let from = find_name_start(path);
    let mut i: usize = 0;
    proof {
        assert(formats@.skip(0) =~= formats@);
    }
    while i < formats.len()
        invariant
            from == name_start(path@),
            from <= path@.len(),
            i <= formats@.len(),
            first_by_extension(formats@, file_name(path@)) == first_by_extension(
                formats@.skip(i as int),
                file_name(path@),
            ),
        decreases formats@.len() - i,
    {
        let format = formats[i];
        let extensions = format.file_extensions();
        if has_extension_from(path, from, &extensions) {
            return Some(format);
        }
        proof {
            assert(formats@.skip(i as int).skip(1) =~= formats@.skip(i + 1));
        }
        i = i + 1;
    }
    None
}

/// Whether two strings hold the same characters.
pub fn str_equals(a: &str, b: &str) -> (r: bool)
    ensures
        r == (a@ == b@),
{
    let n = a.unicode_len();
    if n != b.unicode_len() {
        return false;
    }
    let mut i: usize = 0;
    while i < n
        invariant
            n == a@.len(),
            n == b@.len(),
            i <= n,
            forall|j: int| 0 <= j < i ==> a@[j] == b@[j],
        decreases n - i,
    {
        if a.get_char(i) != b.get_char(i) {
            return false;
        }
        i = i + 1;
    }
    proof {
        assert(a@ =~= b@);
    }
    true
}

} // verus!
