//! Parse errors and section headers.
use crate::text::{dec_str, push_chars, push_decimal, push_str, str_chars, trim_chars, unicode_lowercase, trim, lowercase_str, string_of};
use vstd::prelude::*;

verus! {

/// Parser error types
#[derive(Debug, Clone)]
pub enum ParseError {
    InvalidSection(String),
    MissingFormatLine(String),
    InvalidFormatLine(String),
    FieldCountMismatch { expected: usize, actual: usize },
    InvalidTime(String),
    InvalidColor(String),
    MissingField(String),
    InvalidValue { field: String, value: String },
    UnsupportedScriptType(String),
    LineError { line: usize, message: String },
    Unexpected(String),
}

/// The value of a `ParseError`, with its strings as char sequences.
pub enum ParseErrorView {
    InvalidSection(Seq<char>),
    MissingFormatLine(Seq<char>),
    InvalidFormatLine(Seq<char>),
    FieldCountMismatch { expected: usize, actual: usize },
    InvalidTime(Seq<char>),
    InvalidColor(Seq<char>),
    MissingField(Seq<char>),
    InvalidValue { field: Seq<char>, value: Seq<char> },
    UnsupportedScriptType(Seq<char>),
    LineError { line: usize, message: Seq<char> },
    Unexpected(Seq<char>),
}

impl View for ParseError {
    type V = ParseErrorView;

    open spec fn view(&self) -> ParseErrorView {
        match self {
            ParseError::InvalidSection(s) => ParseErrorView::InvalidSection(s@),
            ParseError::MissingFormatLine(s) => ParseErrorView::MissingFormatLine(s@),
            ParseError::InvalidFormatLine(s) => ParseErrorView::InvalidFormatLine(s@),
            ParseError::FieldCountMismatch { expected, actual } => ParseErrorView::FieldCountMismatch {
                expected: *expected,
                actual: *actual,
            },
            ParseError::InvalidTime(s) => ParseErrorView::InvalidTime(s@),
            ParseError::InvalidColor(s) => ParseErrorView::InvalidColor(s@),
            ParseError::MissingField(s) => ParseErrorView::MissingField(s@),
            ParseError::InvalidValue { field, value } => ParseErrorView::InvalidValue {
                field: field@,
                value: value@,
            },
            ParseError::UnsupportedScriptType(s) => ParseErrorView::UnsupportedScriptType(s@),
            ParseError::LineError { line, message } => ParseErrorView::LineError {
                line: *line,
                message: message@,
            },
            ParseError::Unexpected(s) => ParseErrorView::Unexpected(s@),
        }
    }
}

/// The human-readable text of an error.
pub open spec fn error_message(e: ParseErrorView) -> Seq<char> {
    match e {
        ParseErrorView::InvalidSection(s) => "Invalid section header: "@ + s,
        ParseErrorView::MissingFormatLine(s) => "Missing format line in section: "@ + s,
        ParseErrorView::InvalidFormatLine(s) => "Invalid format line: "@ + s,
        ParseErrorView::FieldCountMismatch { expected, actual } => "Field count mismatch: expected "@
            + dec_str(expected as nat) + ", got "@ + dec_str(actual as nat),
        ParseErrorView::InvalidTime(s) => "Invalid time format: "@ + s,
        ParseErrorView::InvalidColor(s) => "Invalid color format: "@ + s,
        ParseErrorView::MissingField(s) => "Missing required field: "@ + s,
        ParseErrorView::InvalidValue { field, value } => "Invalid value for field "@ + field + ": "@
            + value,
        ParseErrorView::UnsupportedScriptType(s) => "Unsupported script type: "@ + s,
        ParseErrorView::LineError { line, message } => "Parse error at line "@ + dec_str(
            line as nat,
        ) + ": "@ + message,
        ParseErrorView::Unexpected(s) => "Unexpected error: "@ + s,
    }
}

fn cat(prefix: &str, s: &String) -> (r: String)
    ensures
        r@ == prefix@ + s@,
{
    let mut out = String::new();
    push_str(&mut out, prefix);
    let v = str_chars(s.as_str());
    push_chars(&mut out, v.as_slice());
    out
}

impl ParseError {
    /// A `LineError` at `line` carrying `message`.
    pub fn line_error(line: usize, message: String) -> (e: ParseError)
        ensures
            e@ == (ParseErrorView::LineError { line, message: message@ }),
    {
        ParseError::LineError { line, message }
    }

    /// The human-readable text of this error.
    pub fn message(&self) -> (r: String)
        ensures
            r@ == error_message(self@),
    {
        match self {
            ParseError::InvalidSection(s) => cat("Invalid section header: ", s),
            ParseError::MissingFormatLine(s) => cat("Missing format line in section: ", s),
            ParseError::InvalidFormatLine(s) => cat("Invalid format line: ", s),
            ParseError::FieldCountMismatch { expected, actual } => {
                let mut out = String::new();
                push_str(&mut out, "Field count mismatch: expected ");
                push_decimal(&mut out, *expected as u64);
                push_str(&mut out, ", got ");
                push_decimal(&mut out, *actual as u64);
                out
            },
            ParseError::InvalidTime(s) => cat("Invalid time format: ", s),
            ParseError::InvalidColor(s) => cat("Invalid color format: ", s),
            ParseError::MissingField(s) => cat("Missing required field: ", s),
            ParseError::InvalidValue { field, value } => {
                let mut out = cat("Invalid value for field ", field);
                push_str(&mut out, ": ");
                push_str(&mut out, value.as_str());
                out
            },
            ParseError::UnsupportedScriptType(s) => cat("Unsupported script type: ", s),
            ParseError::LineError { line, message } => {
                let mut out = String::new();
                push_str(&mut out, "Parse error at line ");
                push_decimal(&mut out, *line as u64);
                push_str(&mut out, ": ");
                push_str(&mut out, message.as_str());
                out
            },
            ParseError::Unexpected(s) => cat("Unexpected error: ", s),
        }
    }
}

/// Document section types
#[derive(Debug, Clone, Copy, PartialEq, Eq, Hash, Structural)]
pub enum Section {
    ScriptInfo,
    V4Styles,
    V4PlusStyles,
    Events,
    Fonts,
    Graphics,
}

/// The section a header names: the trimmed header, lowercased, compared
/// with the known names.
pub open spec fn spec_section(header: Seq<char>) -> Option<Section> {
    let h = unicode_lowercase(trim(header));
    if h == "[script info]"@ || h == "[scriptinfo]"@ {
        Some(Section::ScriptInfo)
    } else if h == "[v4 styles]"@ {
        Some(Section::V4Styles)
    } else if h == "[v4+ styles]"@ {
        Some(Section::V4PlusStyles)
    } else if h == "[events]"@ {
        Some(Section::Events)
    } else if h == "[fonts]"@ {
        Some(Section::Fonts)
    } else if h == "[graphics]"@ {
        Some(Section::Graphics)
    } else {
        None
    }
}

fn is(h: &[char], name: &str) -> (b: bool)
    ensures
        b == (h@ == name@),
{
    let n = str_chars(name);
    crate::text::chars_eq(h, n.as_slice())
}

impl Section {
    pub fn from_header(header: &str) -> (r: Option<Section>)
        ensures
            r == spec_section(header@),
    {
        let chars = str_chars(header);
        let t = trim_chars(chars.as_slice());
        let ts = string_of(t.as_slice());
        let lower = lowercase_str(ts.as_str());
        let h = str_chars(lower.as_str());
        if is(h.as_slice(), "[script info]") || is(h.as_slice(), "[scriptinfo]") {
            Some(Section::ScriptInfo)
        } else if is(h.as_slice(), "[v4 styles]") {
            Some(Section::V4Styles)
        } else if is(h.as_slice(), "[v4+ styles]") {
            Some(Section::V4PlusStyles)
        } else if is(h.as_slice(), "[events]") {
            Some(Section::Events)
        } else if is(h.as_slice(), "[fonts]") {
            Some(Section::Fonts)
        } else if is(h.as_slice(), "[graphics]") {
            Some(Section::Graphics)
        } else {
            None
        }
    }
}

} // verus!
