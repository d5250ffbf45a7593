//! The error kinds of the engine.

use crate::encoding::{decode_error_text, utf8_error_text};
use crate::pattern::error_text;
use crate::text::{lemma_begins_with_prefix, starts_with};
use vstd::prelude::*;
use vstd::std_specs::convert::FromSpecImpl;
use vstd::string::StringExecFns;

verus! {

/// What went wrong, by kind, with a message for the log.
#[derive(Debug, Clone)]
pub enum ScrapingError {
    ConfigError(String),
    NetworkError(String),
    ParseError(String),
    ExtractionError(String),
    IoError(String),
    RegexError(String),
}

impl ScrapingError {
    /// The message carried by the error.
    pub open spec fn detail(self) -> Seq<char> {
        match self {
            ScrapingError::ConfigError(m) => m@,
            ScrapingError::NetworkError(m) => m@,
            ScrapingError::ParseError(m) => m@,
            ScrapingError::ExtractionError(m) => m@,
            ScrapingError::IoError(m) => m@,
            ScrapingError::RegexError(m) => m@,
        }
    }

    /// The label that the display text puts before the message.
    pub open spec fn label(self) -> Seq<char> {
        match self {
            ScrapingError::ConfigError(_) => "Configuration error: "@,
            ScrapingError::NetworkError(_) => "Network error: "@,
            ScrapingError::ParseError(_) => "Parse error: "@,
            ScrapingError::ExtractionError(_) => "Extraction error: "@,
            ScrapingError::IoError(_) => "IO error: "@,
            ScrapingError::RegexError(_) => "Regex error: "@,
        }
    }

    /// The display text: the label of the kind, then the message.
    pub fn to_text(&self) -> (out: String)
        ensures
            out@ == self.label() + self.detail(),
    {
        match self {
            ScrapingError::ConfigError(m) => String::from_str("Configuration error: ").concat(
                m.as_str(),
            ),
            ScrapingError::NetworkError(m) => String::from_str("Network error: ").concat(
                m.as_str(),
            ),
            ScrapingError::ParseError(m) => String::from_str("Parse error: ").concat(m.as_str()),
            ScrapingError::ExtractionError(m) => String::from_str("Extraction error: ").concat(
                m.as_str(),
            ),
            ScrapingError::IoError(m) => String::from_str("IO error: ").concat(m.as_str()),
            ScrapingError::RegexError(m) => String::from_str("Regex error: ").concat(m.as_str()),
        }
    }
}

/// A regex error becomes a regex error of the engine, with its text as message.
impl From<regex::Error> for ScrapingError {
    fn from(err: regex::Error) -> (e: ScrapingError)
        ensures
            e is RegexError,
    {
        ScrapingError::RegexError(error_text(&err))
    }
}

/// The message is the text of the outside error, of which nothing is known: the
/// conversion is stated by the kind of its result alone.
impl FromSpecImpl<regex::Error> for ScrapingError {
    open spec fn obeys_from_spec() -> bool {
        false
    }

    open spec fn from_spec(err: regex::Error) -> ScrapingError {
        vstd::pervasive::arbitrary()
    }
}

/// A base64 error becomes a parse error whose message names the decoding.
impl From<base64::DecodeError> for ScrapingError {
    fn from(err: base64::DecodeError) -> (e: ScrapingError)
        ensures
            e matches ScrapingError::ParseError(m) && starts_with(m@, "Base64 decode error: "@),
    {
        let why = decode_error_text(&err);
        proof {
            lemma_begins_with_prefix("Base64 decode error: "@, why@);
        }
        ScrapingError::ParseError(String::from_str("Base64 decode error: ").concat(why.as_str()))
    }
}

/// The message ends with the text of the outside error, of which nothing is
/// known: the conversion is stated by kind and prefix alone.
impl FromSpecImpl<base64::DecodeError> for ScrapingError {
    open spec fn obeys_from_spec() -> bool {
        false
    }

    open spec fn from_spec(err: base64::DecodeError) -> ScrapingError {
        vstd::pervasive::arbitrary()
    }
}

/// A UTF-8 error becomes a parse error whose message names the conversion.
impl From<std::string::FromUtf8Error> for ScrapingError {
    fn from(err: std::string::FromUtf8Error) -> (e: ScrapingError)
        ensures
            e matches ScrapingError::ParseError(m) && starts_with(m@, "UTF-8 conversion error: "@),
    {
        let why = utf8_error_text(&err);
        proof {
            lemma_begins_with_prefix("UTF-8 conversion error: "@, why@);
        }
        ScrapingError::ParseError(
            String::from_str("UTF-8 conversion error: ").concat(why.as_str()),
        )
    }
}

/// The message ends with the text of the outside error, of which nothing is
/// known: the conversion is stated by kind and prefix alone.
impl FromSpecImpl<std::string::FromUtf8Error> for ScrapingError {
    open spec fn obeys_from_spec() -> bool {
        false
    }

    open spec fn from_spec(err: std::string::FromUtf8Error) -> ScrapingError {
        vstd::pervasive::arbitrary()
    }
}

} // verus!
