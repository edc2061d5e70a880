//! Name resolution: derive the probable short name of a native library from a
//! filesystem path. A filename matching `[lib]<name>.{so,dll,dylib}` yields
//! `<name>`; the `lib` prefix is always stripped when present, regardless of
//! platform (so a Windows library legitimately named `lib...` loses that
//! prefix — a documented limitation). No I/O; no match is an ordinary outcome.

use vstd::prelude::*;

verus! {

/// `p` is a prefix of `s`.
pub open spec fn has_prefix(s: Seq<char>, p: Seq<char>) -> bool {
    p.len() <= s.len() && s.subrange(0, p.len() as int) == p
}

/// `x` is a suffix of `s`.
pub open spec fn has_suffix(s: Seq<char>, x: Seq<char>) -> bool {
    x.len() <= s.len() && s.subrange(s.len() - x.len(), s.len() as int) == x
}

/// The `lib` prefix of native-library naming conventions.
pub open spec fn lib_prefix() -> Seq<char> {
    seq!['l', 'i', 'b']
}

/// The recognized platform extensions: shared object, dynamic-link library,
/// dynamic library.
pub open spec fn cdylib_extensions() -> Seq<Seq<char>> {
    seq![
        seq!['.', 's', 'o'],
        seq!['.', 'd', 'l', 'l'],
        seq!['.', 'd', 'y', 'l', 'i', 'b'],
    ]
}

/// The filename with a leading `lib` stripped (always stripped when present).
pub open spec fn strip_lib_prefix(f: Seq<char>) -> Seq<char> {
    if has_prefix(f, lib_prefix()) {
        f.skip(lib_prefix().len() as int)
    } else {
        f
    }
}

/// The name a `lib`-stripped filename resolves to: drop the matching platform
/// extension; no matching extension means no name.
pub open spec fn spec_name_from_stem(stem: Seq<char>) -> Option<Seq<char>> {
    if has_suffix(stem, cdylib_extensions()[0]) {
        Some(stem.take(stem.len() - 3))
    } else if has_suffix(stem, cdylib_extensions()[1]) {
        Some(stem.take(stem.len() - 4))
    } else if has_suffix(stem, cdylib_extensions()[2]) {
        Some(stem.take(stem.len() - 6))
    } else {
        None
    }
}

/// The short library name a filename resolves to: strip a leading `lib`, then
/// strip the matching platform extension.
pub open spec fn spec_cdylib_name_from_filename(f: Seq<char>) -> Option<Seq<char>> {
    spec_name_from_stem(strip_lib_prefix(f))
}

/// True exactly when `p@` is a prefix of `s@`.
fn str_has_prefix(s: &str, p: &str) -> (r: bool)
    ensures
        r == has_prefix(s@, p@),
{
    let n = p.unicode_len();
    let m = s.unicode_len();
    if n > m {
        return false;
    }
    let mut i: usize = 0;
    while i < n
        invariant
            i <= n,
            n == p@.len(),
            n <= m == s@.len(),
            forall|j: int| 0 <= j < i ==> s@[j] == p@[j],
        decreases n - i,
    {
        if s.get_char(i) != p.get_char(i) {
            proof {
                assert(s@.subrange(0, p@.len() as int)[i as int] == s@[i as int]);
            }
            return false;
        }
        i += 1;
    }
    proof {
        assert(s@.subrange(0, p@.len() as int) =~= p@);
    }
    true
}

/// True exactly when `x@` is a suffix of `s@`.
fn str_has_suffix(s: &str, x: &str) -> (r: bool)
    ensures
        r == has_suffix(s@, x@),
{
    let n = x.unicode_len();
    let m = s.unicode_len();
    if n > m {
        return false;
    }
    let off = m - n;
    let mut i: usize = 0;
    while i < n
        invariant
            i <= n,
            n == x@.len(),
            n <= m == s@.len(),
            off == m - n,
            forall|j: int| 0 <= j < i ==> s@[off + j] == x@[j],
        decreases n - i,
    {
        if s.get_char(off + i) != x.get_char(i) {
            proof {
                assert(s@.subrange(s@.len() - x@.len(), s@.len() as int)[i as int]
                    == s@[off + i]);
            }
            return false;
        }
        i += 1;
    }
    proof {
        assert(s@.subrange(s@.len() - x@.len(), s@.len() as int) =~= x@);
    }
    true
}

/// Resolve the short library name from a bare filename (no directory part):
/// strip a leading `lib`, then strip the platform extension.
pub fn cdylib_name_from_filename<'a>(filename: &'a str) -> (r: Option<&'a str>)
    ensures
        match r {
            Some(name) => spec_cdylib_name_from_filename(filename@) == Some(name@),
            None => spec_cdylib_name_from_filename(filename@) is None,
        },
{
    proof {
        reveal_strlit("lib");
        reveal_strlit(".so");
        reveal_strlit(".dll");
        reveal_strlit(".dylib");
        assert("lib"@ =~= lib_prefix());
        assert(".so"@ =~= cdylib_extensions()[0]);
        assert(".dll"@ =~= cdylib_extensions()[1]);
        assert(".dylib"@ =~= cdylib_extensions()[2]);
    }
    let stripped: &str = if str_has_prefix(filename, "lib") {
        filename.substring_char(3, filename.unicode_len())
    } else {
        filename
    };
    proof {
        assert(stripped@ =~= strip_lib_prefix(filename@));
    }
    let n = stripped.unicode_len();
    if str_has_suffix(stripped, ".so") {
        let name = stripped.substring_char(0, n - 3);
        proof {
            assert(name@ =~= strip_lib_prefix(filename@).take(stripped@.len() - 3));
        }
        Some(name)
    } else if str_has_suffix(stripped, ".dll") {
        let name = stripped.substring_char(0, n - 4);
        proof {
            assert(name@ =~= strip_lib_prefix(filename@).take(stripped@.len() - 4));
        }
        Some(name)
    } else if str_has_suffix(stripped, ".dylib") {
        let name = stripped.substring_char(0, n - 6);
        proof {
            assert(name@ =~= strip_lib_prefix(filename@).take(stripped@.len() - 6));
        }
        Some(name)
    } else {
        None
    }
}

/// What `camino::Utf8Path::file_name` returns for a path with the given text:
/// the final component, or nothing for a path with no final component (a
/// root, or one ending in `..`). A pure function of the path text under the
/// platform's path syntax.
pub uninterp spec fn file_name_of(path: Seq<char>) -> Option<Seq<char>>;

/// Relies on `camino::Utf8Path::file_name` (camino 1.2.6): returns the final
/// component of the path, computed from the path text alone, no I/O;
/// `Utf8Path::new` is a free conversion of the `&str`.
#[verifier::external_body]
fn path_file_name<'a>(path: &'a str) -> (r: Option<&'a str>)
    ensures
        match r {
            Some(f) => file_name_of(path@) == Some(f@),
            None => file_name_of(path@) is None,
        },
{
    camino::Utf8Path::new(path).file_name()
}

/// If `library_path` names a C dynamic library, return its short name: the
/// final path component with a leading `lib` and the platform extension
/// stripped. Absence of a match is a valid, non-error outcome.
pub fn calc_cdylib_name<'a>(library_path: &'a str) -> (r: Option<&'a str>)
    ensures
        match file_name_of(library_path@) {
            Some(f) => match r {
                Some(name) => spec_cdylib_name_from_filename(f) == Some(name@),
                None => spec_cdylib_name_from_filename(f) is None,
            },
            None => r is None,
        },
{
    match path_file_name(library_path) {
        Some(filename) => cdylib_name_from_filename(filename),
        None => None,
    }
}

/// A nonempty suffix fixes the last character.
proof fn lemma_suffix_last(s: Seq<char>, x: Seq<char>)
    requires
        has_suffix(s, x),
        x.len() > 0,
    ensures
        s[s.len() - 1] == x[x.len() - 1],
{
    assert(s.subrange(s.len() - x.len(), s.len() as int)[x.len() - 1] == s[s.len() - 1]);
}

/// A name followed by a recognized extension resolves back to the name.
proof fn lemma_stem_resolves(name: Seq<char>, ext: Seq<char>)
    requires
        cdylib_extensions().contains(ext),
    ensures
        spec_name_from_stem(name + ext) == Some(name),
{
    let exts = cdylib_extensions();
    let s = name + ext;
    assert(s.subrange(s.len() - ext.len(), s.len() as int) =~= ext);
    assert(s.take(s.len() - ext.len()) =~= name);
    assert forall|other: Seq<char>|
        exts.contains(other) && other != ext implies !has_suffix(s, other) by {
        if has_suffix(s, other) {
            lemma_suffix_last(s, other);
            lemma_suffix_last(s, ext);
        }
    }
    assert(ext == exts[0] || ext == exts[1] || ext == exts[2]);
    assert(exts[0] != exts[1] && exts[0] != exts[2] && exts[1] != exts[2]);
}

/// Law: a filename built as `lib` + name + extension, for any recognized
/// extension, resolves to exactly `name`.
pub proof fn lemma_cdylib_name_prefixed(name: Seq<char>, ext: Seq<char>)
    requires
        cdylib_extensions().contains(ext),
    ensures
        spec_cdylib_name_from_filename(lib_prefix() + name + ext) == Some(name),
{
    let f = lib_prefix() + name + ext;
    assert(f.subrange(0, 3) =~= lib_prefix());
    assert(f.skip(3) =~= name + ext);
    lemma_stem_resolves(name, ext);
}

/// Law: a filename built as name + extension resolves to exactly `name`
/// whenever the filename does not begin with `lib`.
pub proof fn lemma_cdylib_name_unprefixed(name: Seq<char>, ext: Seq<char>)
    requires
        cdylib_extensions().contains(ext),
        !has_prefix(name + ext, lib_prefix()),
    ensures
        spec_cdylib_name_from_filename(name + ext) == Some(name),
{
    lemma_stem_resolves(name, ext);
}

/// Documented limitation: a filename whose own stem begins with `lib` (the
/// Windows `.dll` convention adds no prefix of its own) still loses those
/// three characters.
pub proof fn lemma_cdylib_name_lib_stem_stripped(name: Seq<char>, ext: Seq<char>)
    requires
        cdylib_extensions().contains(ext),
        has_prefix(name, lib_prefix()),
    ensures
        spec_cdylib_name_from_filename(name + ext) == Some(name.skip(3)),
{
    let f = name + ext;
    assert(f.subrange(0, 3) =~= name.subrange(0, 3));
    assert(has_prefix(f, lib_prefix()));
    assert(f.skip(3) =~= name.skip(3) + ext);
    lemma_stem_resolves(name.skip(3), ext);
}

} // verus!
