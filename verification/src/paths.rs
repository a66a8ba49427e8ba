//! The parts of a file path that the library reads: its final component
//! and its extension, as `std::path::Path` finds them.
use vstd::prelude::*;

verus! {

/// The final component of a path, as `std::path::Path::file_name` gives it.
pub uninterp spec fn path_file_name(path: Seq<char>) -> Option<Seq<char>>;

/// The final component of `path`, if it has one.
///
/// Calls `std::path::Path::file_name` (then `OsStr::to_str`, which cannot
/// fail on a component of a `str`).  The component is named, not described:
/// std parses the path into components.
#[verifier::external_body]
pub(crate) fn file_name_of(path: &str) -> (r: Option<&str>)
    ensures
        r is Some <==> path_file_name(path@) is Some,
        r matches Some(n) ==> path_file_name(path@) == Some(n@),
{
    std::path::Path::new(path).file_name().and_then(|n| n.to_str())
}

/// Where the last `c` of `s` is, if there is one.
pub open spec fn last_index_of(s: Seq<char>, c: char) -> Option<int>
    decreases s.len(),
{
    if s.len() == 0 {
        None
    } else if s.last() == c {
        Some(s.len() - 1)
    } else {
        last_index_of(s.drop_last(), c)
    }
}

/// The extension of a file name: what follows its last dot, when that dot
/// has something before it (a name like `.bashrc` has none), and never for
/// `..`.
pub open spec fn name_extension(name: Seq<char>) -> Option<Seq<char>> {
    if name == seq!['.', '.'] {
        None
    } else {
        match last_index_of(name, '.') {
            Some(i) => if i == 0 {
                None
            } else {
                Some(name.skip(i + 1))
            },
            None => None,
        }
    }
}

/// A name made of a non-empty stem, a dot and a part with no dot has that
/// part as its extension; a name with no dot has none, and neither has a
/// name whose one dot stands first.
pub proof fn lemma_name_extension(stem: Seq<char>, ext: Seq<char>)
    requires
        !ext.contains('.'),
    ensures
        stem.len() > 0 && stem + seq!['.'] + ext != seq!['.', '.'] ==> name_extension(
            stem + seq!['.'] + ext,
        ) == Some(ext),
        name_extension(seq!['.'] + ext) is None,
        name_extension(ext) is None,
{
    lemma_last_dot(stem, ext);
    lemma_last_dot(seq![], ext);
    lemma_no_dot(ext);
    assert(seq![] + seq!['.'] + ext =~= seq!['.'] + ext);
    assert((stem + seq!['.'] + ext).skip(stem.len() as int + 1) =~= ext);
}

/// The last dot of `stem + "." + ext`, where `ext` has none, is the one after
/// the stem.
proof fn lemma_last_dot(stem: Seq<char>, ext: Seq<char>)
    requires
        !ext.contains('.'),
    ensures
        last_index_of(stem + seq!['.'] + ext, '.') == Some(stem.len() as int),
    decreases ext.len(),
{
    let s = stem + seq!['.'] + ext;
    if ext.len() == 0 {
        assert(s.last() == '.');
    } else {
        assert(s.last() == ext.last());
        assert(ext[ext.len() - 1] == ext.last());
        let e = ext.drop_last();
        assert(!e.contains('.')) by {
            if e.contains('.') {
                let k = choose|k: int| 0 <= k < e.len() && e[k] == '.';
                assert(ext[k] == '.');
            }
        }
        assert(s.drop_last() =~= stem + seq!['.'] + e);
        lemma_last_dot(stem, e);
    }
}

/// A text with no dot has no last dot.
proof fn lemma_no_dot(s: Seq<char>)
    requires
        !s.contains('.'),
    ensures
        last_index_of(s, '.') is None,
    decreases s.len(),
{
    if s.len() > 0 {
        assert(s[s.len() - 1] == s.last());
        let e = s.drop_last();
        assert(!e.contains('.')) by {
            if e.contains('.') {
                let k = choose|k: int| 0 <= k < e.len() && e[k] == '.';
                assert(s[k] == '.');
            }
        }
        lemma_no_dot(e);
    }
}

/// The extension of a path, as `std::path::Path::extension` gives it: that
/// of its final component.
pub open spec fn path_extension(path: Seq<char>) -> Option<Seq<char>> {
    match path_file_name(path) {
        Some(n) => name_extension(n),
        None => None,
    }
}

/// The extension of `path` (the part of its final component after the last
/// dot), if it has one.
///
/// Calls `std::path::Path::extension` (then `OsStr::to_str`, which cannot
/// fail on a part of a `str`); the result is described by `path_extension`
/// over the final component that `path_file_name` names.
#[verifier::external_body]
pub(crate) fn extension_of(path: &str) -> (r: Option<&str>)
    ensures
        r is Some <==> path_extension(path@) is Some,
        r matches Some(e) ==> path_extension(path@) == Some(e@),
{
    std::path::Path::new(path).extension().and_then(|e| e.to_str())
}

/// Whether something exists at `path`: `std::path::Path::exists`.  Its
/// result depends on the file system, and nothing is stated of it.
#[verifier::external_body]
pub(crate) fn file_exists(path: &str) -> bool {
    std::path::Path::new(path).exists()
}

/// The path without its final component, as `std::path::Path::parent`
/// gives it.
pub uninterp spec fn path_parent(path: Seq<char>) -> Option<Seq<char>>;

/// The path without its final component, if it has one.
///
/// Calls `std::path::Path::parent` (then `Path::to_str`, which cannot fail
/// on a prefix of a `str`); the result is named, not described.
#[verifier::external_body]
pub(crate) fn parent_of(path: &str) -> (r: Option<&str>)
    ensures
        r is Some <==> path_parent(path@) is Some,
        r matches Some(p) ==> path_parent(path@) == Some(p@),
{
    std::path::Path::new(path).parent().and_then(|p| p.to_str())
}

} // verus!
