//! A read-only model of the navigator state that verb execution consumes,
//! and the closed set of outcomes it produces.
//!
//! Paths are carried as plain strings throughout: the selected entry's
//! path is the text the navigator displays for it, and every outcome that
//! names a path names it in the same form.

use vstd::prelude::*;

verus! {

/// Display and filter options of the tree view. The only field verb
/// execution touches is the visibility of hidden entries.
#[derive(Debug, Clone, Copy, PartialEq, Eq, Structural)]
pub struct TreeOptions {
    pub show_hidden: bool,
}

/// A tree view, reduced to what verb execution reads from it: the path of
/// the currently selected entry. Every tree has a selection (at least its
/// root), so the field is always meaningful.
#[derive(Debug, Clone, PartialEq, Eq)]
pub struct TreeView {
    pub selected_path: String,
}

/// The navigator state a verb executes against: the unfiltered tree, an
/// optional filtered view of it, and the active display options.
#[derive(Debug, Clone, PartialEq, Eq)]
pub struct AppState {
    pub tree: TreeView,
    pub filtered_tree: Option<TreeView>,
    pub options: TreeOptions,
}

/// A fully resolved launch request, handed to the external launcher:
/// either "open this path with the OS default handler" or "run this
/// command line".
#[derive(Debug, Clone, PartialEq, Eq)]
pub enum Launchable {
    Opener(String),
    Command(String),
}

/// The outcome of executing one verb: the single action the application
/// driver must apply next.
#[derive(Debug, Clone, PartialEq, Eq)]
pub enum AppCommandResult {
    PopState,
    NewRoot(String),
    NewOptions(TreeOptions),
    Launch(Launchable),
    Quit,
}

/// The path a verb acts on: the filtered view's selection when a filtered
/// view is present, the unfiltered tree's selection otherwise.
pub open spec fn selected_path_spec(state: AppState) -> Seq<char> {
    match state.filtered_tree {
        Some(tree) => tree.selected_path@,
        None => state.tree.selected_path@,
    }
}

/// The given options with the hidden-entries flag flipped and every other
/// field kept.
pub open spec fn toggle_hidden_spec(options: TreeOptions) -> TreeOptions {
    TreeOptions { show_hidden: !options.show_hidden }
}

impl AppState {
    /// Executable counterpart of [`selected_path_spec`].
    pub fn selected_path(&self) -> (path: &String)
        ensures
            path@ == selected_path_spec(*self),
    {
        match &self.filtered_tree {
            Some(tree) => &tree.selected_path,
            None => &self.tree.selected_path,
        }
    }
}

/// Flipping the hidden-entries flag twice restores the original options:
/// two `:toggle_hidden` verbs in a row are a no-op on the options value.
pub proof fn lemma_toggle_hidden_involution(options: TreeOptions)
    ensures
        toggle_hidden_spec(toggle_hidden_spec(options)) == options,
{
}

} // verus!
