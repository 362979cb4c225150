//! The two ways of running the recogniser.

use vstd::prelude::*;

verus! {

/// Where the images come from.
#[derive(Clone, Copy, Debug, PartialEq, Eq, Structural)]
pub enum Mode {
    /// One image file, recognised once.
    File,
    /// The clipboard, polled for new images.
    Clipboard,
}

impl Mode {
    /// The mode's name as written on the command line.
    pub open spec fn spec_label(self) -> Seq<char> {
        match self {
            Mode::File => "file"@,
            Mode::Clipboard => "clipboard"@,
        }
    }

    /// The mode's name as written on the command line.
    pub fn label(&self) -> (name: String)
        ensures
            name@ == self.spec_label(),
    {
        match self {
            Mode::File => "file".to_string(),
            Mode::Clipboard => "clipboard".to_string(),
        }
    }
}

impl Default for Mode {
    /// The recogniser watches the clipboard unless told otherwise.
    fn default() -> (mode: Mode)
        ensures
            mode == Mode::Clipboard,
    {
        Mode::Clipboard
    }
}

} // verus!
