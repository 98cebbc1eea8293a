//! File-system paths as text. Joining and absoluteness follow `std::path`
//! for the platform the library is built for; the library reasons about
//! them through the names below.
use vstd::prelude::*;

verus! {

/// What `Path::join` makes of `base` and `part` on the target platform: a
/// separator-joined path, or `part` itself when it is absolute.
pub uninterp spec fn joined_path(base: Seq<char>, part: Seq<char>) -> Seq<char>;

/// What `Path::is_absolute` says of `p` on the target platform.
pub uninterp spec fn absolute_path(p: Seq<char>) -> bool;

/// `Path::join`, taken back to text (the inputs are UTF-8, so nothing is
/// lost). The contract claims only that the result is the name above
/// applied to the two arguments.
#[verifier::external_body]
pub(crate) fn path_join(base: &str, part: &str) -> (r: String)
    ensures
        r@ == joined_path(base@, part@),
{
    std::path::Path::new(base).join(part).to_string_lossy().into_owned()
}

/// `Path::is_absolute`. The contract claims only that the result is the name
/// above applied to the argument.
#[verifier::external_body]
pub(crate) fn path_is_absolute(p: &str) -> (r: bool)
    ensures
        r == absolute_path(p@),
{
    std::path::Path::new(p).is_absolute()
}

/// `base` joined with each of `parts` in turn.
pub open spec fn joined_all(base: Seq<char>, parts: Seq<Seq<char>>) -> Seq<char>
    decreases parts.len(),
{
    if parts.len() == 0 {
        base
    } else {
        joined_path(joined_all(base, parts.drop_last()), parts.last())
    }
}

/// What `Path::parent` says of `p` on the target platform: the path without
/// its final component, or `None` for a root or an empty path.
pub uninterp spec fn parent_path(p: Seq<char>) -> Option<Seq<char>>;

/// `Path::parent`, taken back to text. The contract claims only that the
/// result is the name above applied to the argument.
#[verifier::external_body]
pub(crate) fn path_parent(p: &str) -> (r: Option<String>)
    ensures
        match r {
            Some(q) => parent_path(p@) == Some(q@),
            None => parent_path(p@) is None,
        },
{
    std::path::Path::new(p).parent().map(|q| q.to_string_lossy().into_owned())
}

/// The components `Path::components` yields for `p` on the target platform:
/// for each, whether it is a normal (named) component, and its text.
pub uninterp spec fn path_parts(p: Seq<char>) -> Seq<(bool, Seq<char>)>;

/// `Path::components`, each component classified as normal or not and taken
/// back to text. The contract claims only that the result is the name above
/// applied to the argument.
#[verifier::external_body]
pub(crate) fn path_components(p: &str) -> (r: Vec<(bool, String)>)
    ensures
        r@.map_values(|c: (bool, String)| (c.0, c.1@)) == path_parts(p@),
{
    std::path::Path::new(p)
        .components()
        .map(|c| (matches!(c, std::path::Component::Normal(_)), c.as_os_str().to_string_lossy().into_owned()))
        .collect()
}

/// What `Path::file_name` says of `p` on the target platform.
pub uninterp spec fn file_name_of(p: Seq<char>) -> Option<Seq<char>>;

/// `Path::file_name`, taken back to text. The contract claims only that the
/// result is the name above applied to the argument.
#[verifier::external_body]
pub(crate) fn path_file_name(p: &str) -> (r: Option<String>)
    ensures
        match r {
            Some(n) => file_name_of(p@) == Some(n@),
            None => file_name_of(p@) is None,
        },
{
    std::path::Path::new(p).file_name().map(|n| n.to_string_lossy().into_owned())
}

/// What `Path::extension` says of `p` on the target platform.
pub uninterp spec fn extension_of(p: Seq<char>) -> Option<Seq<char>>;

/// `Path::extension`, taken back to text. The contract claims only that the
/// result is the name above applied to the argument.
#[verifier::external_body]
pub(crate) fn path_extension(p: &str) -> (r: Option<String>)
    ensures
        match r {
            Some(e) => extension_of(p@) == Some(e@),
            None => extension_of(p@) is None,
        },
{
    std::path::Path::new(p).extension().map(|e| e.to_string_lossy().into_owned())
}

/// What `Path::strip_prefix` makes of `path` and `root` on the target
/// platform: the rest of `path` when `root` is a component-wise prefix of it.
pub uninterp spec fn stripped_path(path: Seq<char>, root: Seq<char>) -> Option<Seq<char>>;

/// `Path::strip_prefix`, taken back to text. The contract claims only that
/// the result is the name above applied to the arguments.
#[verifier::external_body]
pub(crate) fn path_strip_prefix(path: &str, root: &str) -> (r: Option<String>)
    ensures
        match r {
            Some(q) => stripped_path(path@, root@) == Some(q@),
            None => stripped_path(path@, root@) is None,
        },
{
    std::path::Path::new(path).strip_prefix(root).ok().map(|q| q.to_string_lossy().into_owned())
}

/// What `Path::file_stem` says of `p` on the target platform.
pub uninterp spec fn file_stem_of(p: Seq<char>) -> Option<Seq<char>>;

/// `Path::file_stem`, taken back to text. The contract claims only that the
/// result is the name above applied to the argument.
#[verifier::external_body]
pub(crate) fn path_file_stem(p: &str) -> (r: Option<String>)
    ensures
        match r {
            Some(n) => file_stem_of(p@) == Some(n@),
            None => file_stem_of(p@) is None,
        },
{
    std::path::Path::new(p).file_stem().map(|n| n.to_string_lossy().into_owned())
}

} // verus!
