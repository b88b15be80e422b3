//! The state of an interactive session: which file, if any, waits to be
//! converted, and what is shown once a conversion has ended.

use vstd::prelude::*;

verus! {

/// An interactive session. A file is selected, converted at once, and the
/// session waits for the next selection.
pub struct VCardGenerator {
    /// The path of the file that was selected and is not converted yet.
    pub selected_file: Option<String>,
}

impl VCardGenerator {
    /// A session in which no file is selected.
    pub fn new() -> (session: VCardGenerator)
        ensures
            session.selected_file is None,
    {
        VCardGenerator { selected_file: None }
    }

    /// Records that the file at `path` was selected, in place of one that
    /// may have been selected before.
    pub fn select(&mut self, path: String)
        ensures
            final(self).selected_file == Some(path),
    {
        self.selected_file = Some(path);
    }

    /// Hands out the selected file, if there is one, and leaves the
    /// session without a selection.
    pub fn take_selected(&mut self) -> (path: Option<String>)
        ensures
            path == old(self).selected_file,
            final(self).selected_file is None,
    {
        self.selected_file.take()
    }
}

impl Default for VCardGenerator {
    fn default() -> (session: VCardGenerator)
        ensures
            session.selected_file is None,
    {
        VCardGenerator::new()
    }
}

/// The one line that a session shows after a conversion. Every failure is
/// shown alike, whatever its cause.
pub fn status_message(succeeded: bool) -> (text: String)
    ensures
        succeeded ==> text@ == "Done !"@,
        !succeeded ==> text@ == "Invalid input file"@,
{
    if succeeded {
        String::from_str("Done !")
    } else {
        String::from_str("Invalid input file")
    }
}

} // verus!
