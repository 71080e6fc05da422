//! What is shared with the host application.

use vstd::prelude::*;

verus! {

/// A program the user can pick for tracking.
#[derive(Debug)]
pub struct Program {
    pub path: String,
    pub name: String,
    /// The icon as PNG bytes; empty where none could be had.
    pub icon: Vec<u8>,
}

/// A program as the contracts see it.
pub struct ProgramView {
    pub path: Seq<char>,
    pub name: Seq<char>,
    pub icon: Seq<u8>,
}

impl View for Program {
    type V = ProgramView;

    open spec fn view(&self) -> ProgramView {
        ProgramView { path: self.path@, name: self.name@, icon: self.icon@ }
    }
}

} // verus!
