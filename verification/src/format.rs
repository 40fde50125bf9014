//! How a file is read: its delimiter and whether its first row is a header.

use vstd::prelude::*;

verus! {

#[derive(Clone, Copy, Debug, PartialEq, Eq, Structural)]
pub enum DelimiterMode {
    Auto,
    Comma,
    Tab,
    Pipe,
    Semicolon,
}

#[derive(Clone, Copy, Debug, PartialEq, Eq, Structural)]
pub enum HeaderMode {
    Auto,
    FirstRow,
    NoHeader,
}

/// What a file is opened with: the delimiter, where it is given, and the header mode.
#[derive(Clone, Copy, Debug, PartialEq, Eq, Structural)]
pub struct OpenOptions {
    pub delimiter: Option<u8>,
    pub header_mode: HeaderMode,
}

pub open spec fn delimiter_name(mode: DelimiterMode) -> Seq<char> {
    match mode {
        DelimiterMode::Auto => "Auto"@,
        DelimiterMode::Comma => "Comma"@,
        DelimiterMode::Tab => "Tab"@,
        DelimiterMode::Pipe => "Pipe"@,
        DelimiterMode::Semicolon => "Semicolon"@,
    }
}

pub open spec fn delimiter_byte(mode: DelimiterMode) -> Option<u8> {
    match mode {
        DelimiterMode::Auto => None,
        DelimiterMode::Comma => Some(44),
        DelimiterMode::Tab => Some(9),
        DelimiterMode::Pipe => Some(124),
        DelimiterMode::Semicolon => Some(59),
    }
}

impl DelimiterMode {
    /// The modes in the order of the menu.
    pub fn all() -> (modes: [Self; 5])
        ensures
            modes@ == seq![
                DelimiterMode::Auto,
                DelimiterMode::Comma,
                DelimiterMode::Tab,
                DelimiterMode::Pipe,
                DelimiterMode::Semicolon,
            ],
    {
        [
            DelimiterMode::Auto,
            DelimiterMode::Comma,
            DelimiterMode::Tab,
            DelimiterMode::Pipe,
            DelimiterMode::Semicolon,
        ]
    }

    pub fn label(self) -> (label: &'static str)
        ensures
            label@ == delimiter_name(self),
    {
        match self {
            DelimiterMode::Auto => "Auto",
            DelimiterMode::Comma => "Comma",
            DelimiterMode::Tab => "Tab",
            DelimiterMode::Pipe => "Pipe",
            DelimiterMode::Semicolon => "Semicolon",
        }
    }

    /// The delimiter that the mode fixes.
    pub fn delimiter(self) -> (delimiter: Option<u8>)
        ensures
            delimiter == delimiter_byte(self),
    {
        match self {
            DelimiterMode::Auto => None,
            DelimiterMode::Comma => Some(44),
            DelimiterMode::Tab => Some(9),
            DelimiterMode::Pipe => Some(124),
            DelimiterMode::Semicolon => Some(59),
        }
    }
}

pub fn header_mode_label(mode: HeaderMode) -> (label: &'static str)
    ensures
        label@ == match mode {
            HeaderMode::Auto => "Auto"@,
            HeaderMode::FirstRow => "First row is header"@,
            HeaderMode::NoHeader => "No header"@,
        },
{
    match mode {
        HeaderMode::Auto => "Auto",
        HeaderMode::FirstRow => "First row is header",
        HeaderMode::NoHeader => "No header",
    }
}

pub fn compact_header_mode_label(mode: HeaderMode) -> (label: &'static str)
    ensures
        label@ == match mode {
            HeaderMode::Auto => "Auto"@,
            HeaderMode::FirstRow => "Header row"@,
            HeaderMode::NoHeader => "No header"@,
        },
{
    match mode {
        HeaderMode::Auto => "Auto",
        HeaderMode::FirstRow => "Header row",
        HeaderMode::NoHeader => "No header",
    }
}

/// The name of a delimiter that was found in a file.
pub fn detected_delimiter_label(delimiter: u8) -> (label: &'static str)
    ensures
        label@ == if delimiter == 44 {
            "Comma"@
        } else if delimiter == 9 {
            "Tab"@
        } else if delimiter == 124 {
            "Pipe"@
        } else if delimiter == 59 {
            "Semicolon"@
        } else {
            "Custom"@
        },
{
    match delimiter {
        44 => "Comma",
        9 => "Tab",
        124 => "Pipe",
        59 => "Semicolon",
        _ => "Custom",
    }
}

} // verus!
