use vstd::prelude::*;

verus! {

/// The explicit-invocation layer: what the user passed on the command line.
pub struct Args {
    /// Regex pattern handed to the search engine.
    pub pattern: String,
    /// Directory to search from.
    pub path: String,
    /// Case-insensitive search.
    pub ignore_case: bool,
    /// Include hidden files.
    pub hidden: bool,
    /// Follow symbolic links.
    pub follow: bool,
    /// Do not honour ignore files (.gitignore and the like).
    pub no_ignore: bool,
    /// Allow selecting several files.
    pub multi: bool,
    /// Do not show the preview pane.
    pub no_preview: bool,
    /// Program to open the selection with.
    pub open: Option<String>,
    /// Preview pane sizing directive.
    pub preview_width: Option<String>,
    /// Context lines around each match in the preview.
    pub preview_context: Option<usize>,
}

} // verus!
