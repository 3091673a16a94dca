use vstd::prelude::*;

verus! {

/// The ways in which building or rendering an outline can fail.
#[derive(Clone, Copy, Debug, PartialEq, Eq, Structural)]
pub enum OutlineError {
    /// No token was left of a node's text from which to take a name.
    NameExtractionFailed,
    /// A node could not be turned into an outline node; its parent leaves it out.
    NodeExtractionFailed,
    /// No name could be had for the root of the tree, and no parent is there
    /// to leave it out: the whole file fails.
    RootExtractionFailed,
    /// The parser gave no tree for the text, or a tree that cannot be read.
    ParseFailed,
    /// The document could not be rendered as text.
    RenderFailed,
}

impl OutlineError {
    /// A short description for messages.
    pub fn describe(&self) -> (text: &'static str)
        ensures
            text@ == match *self {
                OutlineError::NameExtractionFailed => "name extraction failed"@,
                OutlineError::NodeExtractionFailed => "node extraction failed"@,
                OutlineError::RootExtractionFailed => "root extraction failed"@,
                OutlineError::ParseFailed => "parse failed"@,
                OutlineError::RenderFailed => "render failed"@,
            },
    {
        match self {
            OutlineError::NameExtractionFailed => "name extraction failed",
            OutlineError::NodeExtractionFailed => "node extraction failed",
            OutlineError::RootExtractionFailed => "root extraction failed",
            OutlineError::ParseFailed => "parse failed",
            OutlineError::RenderFailed => "render failed",
        }
    }
}

} // verus!
