//! Errors reported to the user of `#[wasm_bindgen]`.

use vstd::prelude::*;

verus! {

/// The part of the user's item that an error points at.
#[derive(PartialEq, Eq, Structural, Clone, Copy, Debug)]
pub enum ErrorLocation {
    /// No particular part.
    Unspanned,
    /// The return type of an exported function.
    ExportReturn,
    /// The type an imported function returns.
    ImportReturn,
    /// The pattern of the argument at this position of an imported function.
    ImportArgument { index: usize },
}

/// An error, or several errors reported together.
#[derive(Debug)]
pub enum Diagnostic {
    /// One error with its message and the part of the item it points at.
    Error { message: String, location: ErrorLocation },
    /// Several errors, in the order they were found.
    Multi { diagnostics: Vec<Diagnostic> },
}

impl Diagnostic {
    /// An error with the given message, pointing at no particular part.
    pub fn error(message: &str) -> (d: Diagnostic)
        ensures
            d == (Diagnostic::Error { message: d->message, location: ErrorLocation::Unspanned }),
            d->message@ == message@,
    {
        Diagnostic::Error { message: String::from_str(message), location: ErrorLocation::Unspanned }
    }

    /// An error with the given message, pointing at `location`.
    pub fn spanned_error(location: ErrorLocation, message: &str) -> (d: Diagnostic)
        ensures
            d == (Diagnostic::Error { message: d->message, location }),
            d->message@ == message@,
    {
        Diagnostic::Error { message: String::from_str(message), location }
    }

    /// Turns the errors collected so far into a result: `Ok` when there are
    /// none, else all of them together, in order.
    pub fn from_vec(diagnostics: Vec<Diagnostic>) -> (r: Result<(), Diagnostic>)
        ensures
            diagnostics@.len() == 0 ==> r is Ok,
            diagnostics@.len() > 0 ==> r == Err::<(), Diagnostic>(
                Diagnostic::Multi { diagnostics },
            ),
    {
        if diagnostics.len() == 0 {
            Ok(())
        } else {
            Err(Diagnostic::Multi { diagnostics })
        }
    }
}

} // verus!
