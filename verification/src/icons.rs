use vstd::prelude::*;

verus! {

/// The icon of a path on Linux: no icon source exists there, so none.
pub fn icon_of_path_linux(_path: &str) -> (r: Option<Vec<u8>>)
    ensures
        r is None,
{
    None
}

/// The QuickLook thumbnail of a path: QuickLook is macOS only, so none.
pub fn icon_of_path_ql(_path: &str) -> (r: Option<Vec<u8>>)
    ensures
        r is None,
{
    None
}

/// The workspace icon of a path: macOS only, so none.
pub fn icon_of_path_ns(_path: &str) -> (r: Option<Vec<u8>>)
    ensures
        r is None,
{
    None
}

} // verus!
