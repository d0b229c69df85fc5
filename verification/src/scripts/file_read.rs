//! What reading one file gave: its text, "no such file", or another failure.
use vstd::prelude::*;

verus! {

/// The outcome of reading a file as text.
#[derive(Debug, Clone)]
pub enum FileRead {
    /// The file's contents.
    Content(String),
    /// The file does not exist.
    NotFound,
    /// Any other failure, with the error's text.
    Failed(String),
}

/// The model of a [`FileRead`].
pub enum FileReadView {
    Content(Seq<char>),
    NotFound,
    Failed(Seq<char>),
}

impl View for FileRead {
    type V = FileReadView;

    open spec fn view(&self) -> FileReadView {
        match self {
            FileRead::Content(c) => FileReadView::Content(c@),
            FileRead::NotFound => FileReadView::NotFound,
            FileRead::Failed(e) => FileReadView::Failed(e@),
        }
    }
}

} // verus!
