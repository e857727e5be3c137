//! The GL layer's errors. The context itself lives with the program, beside
//! the Wayland surfaces it draws into.

use vstd::prelude::*;

verus! {

/// Why the GL layer could not do what was asked.
#[derive(Debug)]
pub enum Error {
    Egl(String),
    Gl(String),
}

/// The sentence an error is reported as.
pub open spec fn error_text(e: Error) -> Seq<char> {
    match e {
        Error::Egl(m) => "EGL: "@ + m@,
        Error::Gl(m) => "GL: "@ + m@,
    }
}

impl Error {
    /// `EGL: …` or `GL: …`, as the error is displayed.
    pub fn message(&self) -> (s: String)
        ensures
            s@ == error_text(*self),
    {
        let (mut s, m) = match self {
            Error::Egl(m) => ("EGL: ".to_owned(), m),
            Error::Gl(m) => ("GL: ".to_owned(), m),
        };
        s.append(m.as_str());
        s
    }
}

} // verus!
