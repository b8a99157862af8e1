//! The errors of sitemap operations.

use vstd::prelude::*;
use vstd::string::*;
use crate::text::{decimal, decimal_text};

verus! {

/// The error of the XML reader of the `xml` crate.
#[verifier::external_type_specification]
#[verifier::external_body]
pub struct ExReaderError(xml::reader::Error);

/// The error of the `dtt` crate.
#[verifier::external_type_specification]
#[verifier::external_body]
pub struct ExDateTimeError(dtt::error::DateTimeError);

/// The error of input and output.
#[verifier::external_type_specification]
#[verifier::external_body]
pub struct ExIoError(std::io::Error);

/// The error of decoding bytes that are not UTF-8.
#[verifier::external_type_specification]
#[verifier::external_body]
pub struct ExFromUtf8Error(std::string::FromUtf8Error);

/// What can go wrong when working with sitemaps.
#[derive(Debug)]
#[non_exhaustive]
pub enum SitemapError {
    /// The XML writer reported an error.
    XmlWriteError(xml::writer::Error),
    /// The XML reader reported an error.
    XmlParseError(xml::reader::Error),
    /// A date could not be parsed or formatted.
    DateError(dtt::error::DateTimeError),
    /// A URL could not be parsed.
    UrlError(url::ParseError),
    /// Reading or writing failed.
    IoError(std::io::Error),
    /// Rendered bytes were not UTF-8.
    EncodingError(std::string::FromUtf8Error),
    /// The text is not the code of a change frequency.
    InvalidChangeFreq(String),
    /// Any other failure, with its message.
    CustomError(String),
    /// The rendered sitemap is larger than the protocol allows.
    SitemapTooLarge,
    /// The sitemap would hold more URLs than the protocol allows; holds the
    /// count that was found.
    MaxUrlLimitExceeded(usize),
}

/// Joins two texts.
fn joined(head: &str, tail: &str) -> (text: String)
    ensures
        text@ == head@ + tail@,
{
    let mut text = head.to_owned();
    text.append(tail);
    text
}

/// Result of a sitemap operation.
pub type SitemapResult<T> = Result<T, SitemapError>;

impl SitemapError {
    /// The context in which each kind of error occurs.
    pub open spec fn context_text(self) -> Seq<char> {
        match self {
            SitemapError::XmlWriteError(_) => "Error occurred while writing XML data"@,
            SitemapError::XmlParseError(_) => "Error occurred while parsing XML data"@,
            SitemapError::DateError(_) => "Error occurred while parsing or formatting dates"@,
            SitemapError::UrlError(_) => "Error occurred while parsing URLs"@,
            SitemapError::IoError(_) => "Error occurred during file or network operations"@,
            SitemapError::EncodingError(_) => "Error occurred during UTF-8 string encoding or decoding"@,
            SitemapError::InvalidChangeFreq(_) => "An invalid change frequency value was provided"@,
            SitemapError::CustomError(_) => "An unexpected error occurred"@,
            SitemapError::SitemapTooLarge => "The generated sitemap exceeds the maximum allowed size"@,
            SitemapError::MaxUrlLimitExceeded(_) => "The number of URLs exceeds the maximum allowed limit"@,
        }
    }

    /// Whether the error says that `text` is no change frequency.
    pub open spec fn rejects_frequency(self, text: Seq<char>) -> bool {
        self matches SitemapError::InvalidChangeFreq(raw) && raw@ == text
    }

    /// Whether the error is a custom one with the given message.
    pub open spec fn is_custom(self, message: Seq<char>) -> bool {
        self matches SitemapError::CustomError(text) && text@ == message
    }

    /// Describes the context in which the error occurred.
    pub fn context(&self) -> (text: &'static str)
        ensures
            text@ == self.context_text(),
    {
        match self {
            SitemapError::XmlWriteError(_) => "Error occurred while writing XML data",
            SitemapError::XmlParseError(_) => "Error occurred while parsing XML data",
            SitemapError::DateError(_) => "Error occurred while parsing or formatting dates",
            SitemapError::UrlError(_) => "Error occurred while parsing URLs",
            SitemapError::IoError(_) => "Error occurred during file or network operations",
            SitemapError::EncodingError(_) => "Error occurred during UTF-8 string encoding or decoding",
            SitemapError::InvalidChangeFreq(_) => "An invalid change frequency value was provided",
            SitemapError::CustomError(_) => "An unexpected error occurred",
            SitemapError::SitemapTooLarge => "The generated sitemap exceeds the maximum allowed size",
            SitemapError::MaxUrlLimitExceeded(_) => "The number of URLs exceeds the maximum allowed limit",
        }
    }

    /// What the message of each kind of error starts with.
    pub open spec fn message_head(self) -> Seq<char> {
        match self {
            SitemapError::XmlWriteError(_) => "XML writing error: "@,
            SitemapError::XmlParseError(_) => "XML parsing error: "@,
            SitemapError::DateError(_) => "Date error: "@,
            SitemapError::UrlError(_) => "URL error: "@,
            SitemapError::IoError(_) => "I/O error: "@,
            SitemapError::EncodingError(_) => "Encoding error: "@,
            SitemapError::InvalidChangeFreq(_) => "Invalid change frequency: "@,
            SitemapError::CustomError(_) => "Custom error: "@,
            SitemapError::SitemapTooLarge => "Sitemap size exceeds the maximum allowed (10MB)"@,
            SitemapError::MaxUrlLimitExceeded(_) => "Number of URLs ("@,
        }
    }

    /// What the message of an error ends with, where the error itself
    /// decides it.
    pub open spec fn message_tail(self) -> Option<Seq<char>> {
        match self {
            SitemapError::InvalidChangeFreq(text) => Some(text@),
            SitemapError::CustomError(text) => Some(text@),
            SitemapError::SitemapTooLarge => Some(Seq::empty()),
            SitemapError::MaxUrlLimitExceeded(count) => Some(
                decimal(count as nat) + ") exceeds the maximum allowed limit (50,000)"@,
            ),
            _ => None,
        }
    }

    /// The message of the error.
    ///
    /// Where the error wraps one of another library, the message ends with
    /// that library's own text for it.
    pub fn to_string(&self) -> (message: String)
        ensures
            match self.message_tail() {
                Some(tail) => message@ == self.message_head() + tail,
                None => exists|tail: Seq<char>| message@ == self.message_head() + tail,
            },
    {
        match self {
            SitemapError::XmlWriteError(e) => {
                let detail = e.to_string();
                let message = joined("XML writing error: ", detail.as_str());
                assert(message@ == self.message_head() + detail@);
                message
            },
            SitemapError::XmlParseError(e) => {
                let detail = e.to_string();
                let message = joined("XML parsing error: ", detail.as_str());
                assert(message@ == self.message_head() + detail@);
                message
            },
            SitemapError::DateError(e) => {
                let detail = e.to_string();
                let message = joined("Date error: ", detail.as_str());
                assert(message@ == self.message_head() + detail@);
                message
            },
            SitemapError::UrlError(e) => {
                let detail = e.to_string();
                let message = joined("URL error: ", detail.as_str());
                assert(message@ == self.message_head() + detail@);
                message
            },
            SitemapError::IoError(e) => {
                let detail = e.to_string();
                let message = joined("I/O error: ", detail.as_str());
                assert(message@ == self.message_head() + detail@);
                message
            },
            SitemapError::EncodingError(e) => {
                let detail = e.to_string();
                let message = joined("Encoding error: ", detail.as_str());
                assert(message@ == self.message_head() + detail@);
                message
            },
            SitemapError::InvalidChangeFreq(text) => {
                joined("Invalid change frequency: ", text.as_str())
            },
            SitemapError::CustomError(text) => {
                joined("Custom error: ", text.as_str())
            },
            SitemapError::SitemapTooLarge => {
                let message = "Sitemap size exceeds the maximum allowed (10MB)".to_owned();
                assert(message@ =~= self.message_head() + Seq::<char>::empty());
                message
            },
            SitemapError::MaxUrlLimitExceeded(count) => {
                let mut message = "Number of URLs (".to_owned();
                let number = decimal_text(*count);
                message.append(number.as_str());
                message.append(") exceeds the maximum allowed limit (50,000)");
                assert(message@ =~= self.message_head() + (decimal(*count as nat)
                    + ") exceeds the maximum allowed limit (50,000)"@));
                message
            },
        }
    }
}

impl From<xml::writer::Error> for SitemapError {
    fn from(error: xml::writer::Error) -> (wrapped: SitemapError) {
        SitemapError::XmlWriteError(error)
    }
}

impl vstd::std_specs::convert::FromSpecImpl<xml::writer::Error> for SitemapError {
    open spec fn obeys_from_spec() -> bool {
        true
    }

    open spec fn from_spec(error: xml::writer::Error) -> SitemapError {
        SitemapError::XmlWriteError(error)
    }
}

impl From<xml::reader::Error> for SitemapError {
    fn from(error: xml::reader::Error) -> (wrapped: SitemapError) {
        SitemapError::XmlParseError(error)
    }
}

impl vstd::std_specs::convert::FromSpecImpl<xml::reader::Error> for SitemapError {
    open spec fn obeys_from_spec() -> bool {
        true
    }

    open spec fn from_spec(error: xml::reader::Error) -> SitemapError {
        SitemapError::XmlParseError(error)
    }
}

impl From<dtt::error::DateTimeError> for SitemapError {
    fn from(error: dtt::error::DateTimeError) -> (wrapped: SitemapError) {
        SitemapError::DateError(error)
    }
}

impl vstd::std_specs::convert::FromSpecImpl<dtt::error::DateTimeError> for SitemapError {
    open spec fn obeys_from_spec() -> bool {
        true
    }

    open spec fn from_spec(error: dtt::error::DateTimeError) -> SitemapError {
        SitemapError::DateError(error)
    }
}

impl From<url::ParseError> for SitemapError {
    fn from(error: url::ParseError) -> (wrapped: SitemapError) {
        SitemapError::UrlError(error)
    }
}

impl vstd::std_specs::convert::FromSpecImpl<url::ParseError> for SitemapError {
    open spec fn obeys_from_spec() -> bool {
        true
    }

    open spec fn from_spec(error: url::ParseError) -> SitemapError {
        SitemapError::UrlError(error)
    }
}

impl From<std::io::Error> for SitemapError {
    fn from(error: std::io::Error) -> (wrapped: SitemapError) {
        SitemapError::IoError(error)
    }
}

impl vstd::std_specs::convert::FromSpecImpl<std::io::Error> for SitemapError {
    open spec fn obeys_from_spec() -> bool {
        true
    }

    open spec fn from_spec(error: std::io::Error) -> SitemapError {
        SitemapError::IoError(error)
    }
}

impl From<std::string::FromUtf8Error> for SitemapError {
    fn from(error: std::string::FromUtf8Error) -> (wrapped: SitemapError) {
        SitemapError::EncodingError(error)
    }
}

impl vstd::std_specs::convert::FromSpecImpl<std::string::FromUtf8Error> for SitemapError {
    open spec fn obeys_from_spec() -> bool {
        true
    }

    open spec fn from_spec(error: std::string::FromUtf8Error) -> SitemapError {
        SitemapError::EncodingError(error)
    }
}

} // verus!
