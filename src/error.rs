//! The library's error taxonomy.

use vstd::prelude::*;

verus! {

/// What went wrong while carrying out a command. Each variant carries a
/// human-readable detail.
#[derive(Debug, Clone, PartialEq, Eq)]
pub enum Error {
    /// A user or precondition error: empty target, missing configuration,
    /// unusable chooser output, no connection to the player.
    ExecuteErr(String),
    /// A remote call on the player's control connection failed.
    MpvError(String),
    /// Reading or writing a file or a process failed.
    IoErr(String),
    /// Encoding or decoding the session record failed.
    SerdeErr(String),
    /// Text was not valid UTF-8.
    UtfErr(String),
    /// A number could not be read, or was out of range.
    IntErr(String),
}

impl Error {
    /// The label that names the variant in a report.
    pub open spec fn label(&self) -> Seq<char> {
        match self {
            Error::ExecuteErr(_) => "execute error: "@,
            Error::MpvError(_) => "mpv error: "@,
            Error::IoErr(_) => "io error: "@,
            Error::SerdeErr(_) => "serde error: "@,
            Error::UtfErr(_) => "utf8 error: "@,
            Error::IntErr(_) => "parse int error: "@,
        }
    }

    /// The detail that the variant carries.
    pub open spec fn detail(&self) -> Seq<char> {
        match self {
            Error::ExecuteErr(d) => d@,
            Error::MpvError(d) => d@,
            Error::IoErr(d) => d@,
            Error::SerdeErr(d) => d@,
            Error::UtfErr(d) => d@,
            Error::IntErr(d) => d@,
        }
    }

    /// The report for this error: its label followed by its detail.
    pub fn message(&self) -> (r: String)
        ensures
            r@ == self.label() + self.detail(),
    {
        let (label, detail) = match self {
            Error::ExecuteErr(d) => ("execute error: ", d),
            Error::MpvError(d) => ("mpv error: ", d),
            Error::IoErr(d) => ("io error: ", d),
            Error::SerdeErr(d) => ("serde error: ", d),
            Error::UtfErr(d) => ("utf8 error: ", d),
            Error::IntErr(d) => ("parse int error: ", d),
        };
        String::from_str(label).concat(detail.as_str())
    }
}

} // verus!
