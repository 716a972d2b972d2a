use vstd::prelude::*;

verus! {

/// The two ways an operation of this library can fail.
pub enum BrowserError {
    /// The operating system refused a filesystem call; holds its message.
    IoError(String),
    /// The configuration file is not a valid document; holds the parser's message.
    ParseError(String),
}

impl BrowserError {
    /// The diagnostic text carried by the error.
    pub fn message(&self) -> (r: String)
        ensures
            r@ == match self {
                BrowserError::IoError(m) => m@,
                BrowserError::ParseError(m) => m@,
            },
    {
        match self {
            BrowserError::IoError(m) => m.clone(),
            BrowserError::ParseError(m) => m.clone(),
        }
    }
}

} // verus!
