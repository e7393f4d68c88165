//! Paths as strings, and the few `std::path` operations the explorer needs.
//!
//! A path is held as the string it prints as. Parsing a path into
//! components is platform-specific and is left to `std::path`; each call
//! below is a thin wrapper whose result is named, not re-derived.
use vstd::prelude::*;

verus! {

/// One component of a parsed path, as `std::path::Component` reports it.
pub enum PathPart {
    /// A Windows prefix such as `C:`.
    Prefix(String),
    /// The root separator.
    RootDir,
    /// A `.` component.
    CurDir,
    /// A `..` component.
    ParentDir,
    /// An ordinary name.
    Normal(String),
}

/// The value of a [`PathPart`], with its text as characters.
pub enum PartView {
    Prefix(Seq<char>),
    RootDir,
    CurDir,
    ParentDir,
    Normal(Seq<char>),
}

impl View for PathPart {
    type V = PartView;

    open spec fn view(&self) -> PartView {
        match self {
            PathPart::Prefix(s) => PartView::Prefix(s@),
            PathPart::RootDir => PartView::RootDir,
            PathPart::CurDir => PartView::CurDir,
            PathPart::ParentDir => PartView::ParentDir,
            PathPart::Normal(s) => PartView::Normal(s@),
        }
    }
}

/// The views of a sequence of parts.
pub open spec fn parts_view(v: Seq<PathPart>) -> Seq<PartView> {
    v.map_values(|p: PathPart| p@)
}

/// The characters of an optional string.
pub open spec fn opt_view(o: Option<String>) -> Option<Seq<char>> {
    match o {
        Some(s) => Some(s@),
        None => None,
    }
}

/// Whether `Path`'s equality (component-wise) holds between two paths.
pub uninterp spec fn same_path(a: Seq<char>, b: Seq<char>) -> bool;

/// What `Path::parent` gives for a path.
pub uninterp spec fn parent_path(p: Seq<char>) -> Option<Seq<char>>;

/// What `Path::file_name` gives for a path.
pub uninterp spec fn file_name(p: Seq<char>) -> Option<Seq<char>>;

/// What `Path::extension` gives for a path.
pub uninterp spec fn extension(p: Seq<char>) -> Option<Seq<char>>;

/// What `Path::components` yields for a path.
pub uninterp spec fn components(p: Seq<char>) -> Seq<PartView>;

/// The path `PathBuf::push` makes of `base` and `part`.
pub uninterp spec fn joined(base: Seq<char>, part: Seq<char>) -> Seq<char>;

/// Compares two paths with `Path`'s `==`. Claimed: the result is a function
/// of the two paths, and equal strings are equal paths (`Path` is `Eq`).
#[verifier::external_body]
pub(crate) fn paths_equal(a: &str, b: &str) -> (r: bool)
    ensures
        r == same_path(a@, b@),
        a@ == b@ ==> r,
{
    std::path::Path::new(a) == std::path::Path::new(b)
}

/// Calls `Path::parent`. Claimed: the result is a function of the path.
/// A parent of a path given as UTF-8 is a prefix of it, so the conversion
/// back to a string loses nothing.
#[verifier::external_body]
pub(crate) fn parent_of(p: &str) -> (r: Option<String>)
    ensures
        opt_view(r) == parent_path(p@),
{
    std::path::Path::new(p).parent().map(|q| q.to_string_lossy().into_owned())
}

/// Calls `Path::file_name`. Claimed: the result is a function of the path.
#[verifier::external_body]
pub(crate) fn file_name_of(p: &str) -> (r: Option<String>)
    ensures
        opt_view(r) == file_name(p@),
{
    std::path::Path::new(p).file_name().map(|n| n.to_string_lossy().into_owned())
}

/// Calls `Path::extension`. Claimed: the result is a function of the path.
#[verifier::external_body]
pub(crate) fn extension_of(p: &str) -> (r: Option<String>)
    ensures
        opt_view(r) == extension(p@),
{
    std::path::Path::new(p).extension().map(|e| e.to_string_lossy().into_owned())
}

/// Calls `Path::components`, one part per component, in order. Claimed:
/// the result is a function of the path.
#[verifier::external_body]
pub(crate) fn components_of(p: &str) -> (r: Vec<PathPart>)
    ensures
        parts_view(r@) == components(p@),
{
    std::path::Path::new(p).components().map(|c| match c {
        std::path::Component::Prefix(x) => PathPart::Prefix(x.as_os_str().to_string_lossy().into_owned()),
        std::path::Component::RootDir => PathPart::RootDir,
        std::path::Component::CurDir => PathPart::CurDir,
        std::path::Component::ParentDir => PathPart::ParentDir,
        std::path::Component::Normal(n) => PathPart::Normal(n.to_string_lossy().into_owned()),
    }).collect()
}

/// Calls `PathBuf::push` on a copy of `base`. Claimed: the result is a
/// function of the two arguments.
#[verifier::external_body]
pub(crate) fn join_path(base: &str, part: &str) -> (r: String)
    ensures
        r@ == joined(base@, part@),
{
    let mut b = std::path::PathBuf::from(base);
    b.push(part);
    b.to_string_lossy().into_owned()
}

/// The platform's main path separator, `std::path::MAIN_SEPARATOR_STR`:
/// `/` on Unix, `\` on Windows.
#[verifier::external_body]
pub(crate) fn main_separator() -> (r: String)
    ensures
        r@ == seq!['/'] || r@ == seq!['\\'],
{
    std::path::MAIN_SEPARATOR_STR.to_string()
}

} // verus!
