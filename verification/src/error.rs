//! The error type of the library.

use vstd::prelude::*;

use crate::text::{concat, to_decimal};

verus! {

/// What can go wrong. `Io` carries the text of the operating system's error.
#[derive(Debug, Clone, PartialEq, Eq)]
pub enum ScrcpyError {
    Adb(String),
    DeviceNotFound,
    Io(String),
    Network(String),
    VideoStream(String),
    Parse(String),
    Decode(String),
    Other(String),
    NoAvailablePort(u16, u16),
}

/// An error as a mathematical value.
pub enum ErrorView {
    Adb(Seq<char>),
    DeviceNotFound,
    Io(Seq<char>),
    Network(Seq<char>),
    VideoStream(Seq<char>),
    Parse(Seq<char>),
    Decode(Seq<char>),
    Other(Seq<char>),
    NoAvailablePort(u16, u16),
}

impl View for ScrcpyError {
    type V = ErrorView;

    open spec fn view(&self) -> ErrorView {
        match *self {
            ScrcpyError::Adb(m) => ErrorView::Adb(m@),
            ScrcpyError::DeviceNotFound => ErrorView::DeviceNotFound,
            ScrcpyError::Io(m) => ErrorView::Io(m@),
            ScrcpyError::Network(m) => ErrorView::Network(m@),
            ScrcpyError::VideoStream(m) => ErrorView::VideoStream(m@),
            ScrcpyError::Parse(m) => ErrorView::Parse(m@),
            ScrcpyError::Decode(m) => ErrorView::Decode(m@),
            ScrcpyError::Other(m) => ErrorView::Other(m@),
            ScrcpyError::NoAvailablePort(a, b) => ErrorView::NoAvailablePort(a, b),
        }
    }
}

impl ErrorView {
    /// The text shown for an error.
    pub open spec fn text(self) -> Seq<char> {
        match self {
            ErrorView::Adb(m) => "ADB error: "@ + m,
            ErrorView::DeviceNotFound => "Device not found"@,
            ErrorView::Io(m) => "IO error: "@ + m,
            ErrorView::Network(m) => "Network error: "@ + m,
            ErrorView::VideoStream(m) => "Video stream error: "@ + m,
            ErrorView::Parse(m) => "Parse error: "@ + m,
            ErrorView::Decode(m) => "Decode error: "@ + m,
            ErrorView::Other(m) => "Other error: "@ + m,
            ErrorView::NoAvailablePort(a, b) => "No available port found in range "@
                + crate::text::decimal(a as nat) + "-"@ + crate::text::decimal(b as nat),
        }
    }
}

impl ScrcpyError {
    /// The text shown for an error.
    pub fn message(&self) -> (r: String)
        ensures
            r@ == self@.text(),
    {
        match self {
            ScrcpyError::Adb(m) => concat("ADB error: ", m.as_str()),
            ScrcpyError::DeviceNotFound => "Device not found".to_owned(),
            ScrcpyError::Io(m) => concat("IO error: ", m.as_str()),
            ScrcpyError::Network(m) => concat("Network error: ", m.as_str()),
            ScrcpyError::VideoStream(m) => concat("Video stream error: ", m.as_str()),
            ScrcpyError::Parse(m) => concat("Parse error: ", m.as_str()),
            ScrcpyError::Decode(m) => concat("Decode error: ", m.as_str()),
            ScrcpyError::Other(m) => concat("Other error: ", m.as_str()),
            ScrcpyError::NoAvailablePort(a, b) => {
                let mut out: String = "No available port found in range ".to_owned();
                out.append(to_decimal(*a as u64).as_str());
                out.append("-");
                out.append(to_decimal(*b as u64).as_str());
                out
            },
        }
    }
}

/// An error of the general kind with the given text.
pub fn other_error(text: &str) -> (r: ScrcpyError)
    ensures
        r@ == ErrorView::Other(text@),
{
    ScrcpyError::Other(text.to_owned())
}

/// An error of the general kind whose text is `prefix` and then `detail`.
pub fn other_error_with(prefix: &str, detail: &str) -> (r: ScrcpyError)
    ensures
        r@ == ErrorView::Other(prefix@ + detail@),
{
    ScrcpyError::Other(concat(prefix, detail))
}

/// The text of an error names its kind and then says what went wrong, in full; that of a search for a
/// port gives both ends of the search.
pub proof fn law_error_texts(m: Seq<char>, a: u16, b: u16)
    ensures
        ErrorView::Adb(m).text() == "ADB error: "@ + m,
        ErrorView::Io(m).text() == "IO error: "@ + m,
        ErrorView::Network(m).text() == "Network error: "@ + m,
        ErrorView::VideoStream(m).text() == "Video stream error: "@ + m,
        ErrorView::Parse(m).text() == "Parse error: "@ + m,
        ErrorView::Decode(m).text() == "Decode error: "@ + m,
        ErrorView::Other(m).text() == "Other error: "@ + m,
        ErrorView::DeviceNotFound.text() == "Device not found"@,
        ErrorView::NoAvailablePort(a, b).text() == "No available port found in range "@ + (
        crate::text::decimal(a as nat).push('-') + crate::text::decimal(b as nat)),
{
    reveal_strlit("-");
    assert(ErrorView::NoAvailablePort(a, b).text() =~= "No available port found in range "@ + (
    crate::text::decimal(a as nat).push('-') + crate::text::decimal(b as nat)));
}

} // verus!
