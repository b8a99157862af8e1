use sitemap_gen::error::{SitemapError, SitemapResult};
use std::io;
use xml::writer::{EventWriter, XmlEvent};

#[test]
fn test_error_creation_and_formatting() {
    // Ending an element that was never started makes the writer fail.
    let mut writer = EventWriter::new(Vec::new());
    let xml_write_result = writer.write(XmlEvent::end_element());
    let xml_write_error = xml_write_result.unwrap_err();
    let sitemap_error = SitemapError::XmlWriteError(xml_write_error);
    assert!(sitemap_error.to_string().contains("XML writing error"));
    assert_eq!(sitemap_error.context(), "Error occurred while writing XML data");

    let custom_error = SitemapError::CustomError("Test error".to_string());
    assert_eq!(custom_error.to_string(), "Custom error: Test error");
}

#[test]
fn test_error_context() {
    let url_error = SitemapError::UrlError(url::ParseError::EmptyHost);
    assert_eq!(url_error.context(), "Error occurred while parsing URLs");

    let io_error = SitemapError::IoError(io::Error::new(io::ErrorKind::Other, "I/O Error"));
    assert_eq!(
        io_error.context(),
        "Error occurred during file or network operations"
    );

    let invalid_change_freq = SitemapError::InvalidChangeFreq("invalid".to_string());
    assert_eq!(
        invalid_change_freq.context(),
        "An invalid change frequency value was provided"
    );
}

#[test]
fn test_error_display() {
    let date_error = SitemapError::DateError(dtt::error::DateTimeError::InvalidFormat);
    assert_eq!(date_error.to_string(), "Date error: Invalid date format");

    let url_error = SitemapError::UrlError(url::ParseError::EmptyHost);
    assert_eq!(url_error.to_string(), "URL error: empty host");

    let io_error = SitemapError::IoError(io::Error::new(io::ErrorKind::Other, "I/O Error"));
    assert_eq!(io_error.to_string(), "I/O error: I/O Error");

    let custom_error = SitemapError::CustomError("Custom error message".to_string());
    assert_eq!(custom_error.to_string(), "Custom error: Custom error message");

    let sitemap_too_large = SitemapError::SitemapTooLarge;
    assert_eq!(
        sitemap_too_large.to_string(),
        "Sitemap size exceeds the maximum allowed (10MB)"
    );

    let max_url_limit_exceeded = SitemapError::MaxUrlLimitExceeded(60000);
    assert_eq!(
        max_url_limit_exceeded.to_string(),
        "Number of URLs (60000) exceeds the maximum allowed limit (50,000)"
    );
}

fn failing_operation() -> SitemapResult<()> {
    Err(SitemapError::CustomError("Test error".to_string()))
}

#[test]
fn test_result_type_alias() {
    let result = failing_operation();
    assert!(result.is_err());
    assert!(matches!(result.unwrap_err(), SitemapError::CustomError(_)));
}

#[test]
fn test_xml_parse_error() {
    let xml = "<invalid>";
    let reader = xml::reader::EventReader::from_str(xml);
    let parse_result: Result<Vec<xml::reader::XmlEvent>, xml::reader::Error> =
        reader.into_iter().collect();
    let xml_parse_error = parse_result.unwrap_err();
    let sitemap_error = SitemapError::XmlParseError(xml_parse_error);
    assert!(sitemap_error.to_string().contains("XML parsing error"));
    assert_eq!(sitemap_error.context(), "Error occurred while parsing XML data");
}

#[test]
fn test_date_error() {
    let date_error = SitemapError::DateError(dtt::error::DateTimeError::InvalidFormat);
    assert_eq!(
        date_error.context(),
        "Error occurred while parsing or formatting dates"
    );
}

#[test]
fn test_encoding_error() {
    let invalid_utf8 = vec![0xFF, 0xFE, 0xFD];
    let encoding_error = String::from_utf8(invalid_utf8).unwrap_err();
    let sitemap_error = SitemapError::EncodingError(encoding_error);
    assert!(sitemap_error.to_string().contains("Encoding error"));
    assert_eq!(
        sitemap_error.context(),
        "Error occurred during UTF-8 string encoding or decoding"
    );
}

#[test]
fn test_sitemap_size_errors() {
    let sitemap_too_large = SitemapError::SitemapTooLarge;
    assert_eq!(
        sitemap_too_large.to_string(),
        "Sitemap size exceeds the maximum allowed (10MB)"
    );
    assert_eq!(
        sitemap_too_large.context(),
        "The generated sitemap exceeds the maximum allowed size"
    );

    let max_url_limit_exceeded = SitemapError::MaxUrlLimitExceeded(60000);
    assert_eq!(
        max_url_limit_exceeded.to_string(),
        "Number of URLs (60000) exceeds the maximum allowed limit (50,000)"
    );
    assert_eq!(
        max_url_limit_exceeded.context(),
        "The number of URLs exceeds the maximum allowed limit"
    );
}

fn failing_parse() -> SitemapResult<()> {
    Err(SitemapError::UrlError(url::ParseError::EmptyHost))
}

fn passing_on() -> SitemapResult<()> {
    failing_parse()?;
    Ok(())
}

#[test]
fn test_error_propagation() {
    let result = passing_on();
    assert!(result.is_err());
    assert!(matches!(result.unwrap_err(), SitemapError::UrlError(_)));
}

#[test]
fn test_url_parsing_errors() {
    let empty_host = SitemapError::UrlError(url::ParseError::EmptyHost);
    assert_eq!(empty_host.to_string(), "URL error: empty host");

    let invalid_port = SitemapError::UrlError(url::ParseError::InvalidPort);
    assert_eq!(invalid_port.to_string(), "URL error: invalid port number");

    let relative_url = SitemapError::UrlError(url::ParseError::RelativeUrlWithoutBase);
    assert_eq!(
        relative_url.to_string(),
        "URL error: relative URL without a base"
    );
}

#[test]
fn test_invalid_change_freq_edge_cases() {
    let empty_string = SitemapError::InvalidChangeFreq("".to_string());
    assert_eq!(empty_string.to_string(), "Invalid change frequency: ");

    let long_string = SitemapError::InvalidChangeFreq("a".repeat(1000));
    assert!(long_string.to_string().contains("Invalid change frequency"));
}

#[test]
fn test_max_url_limit_exceeded_edge_cases() {
    let just_under_limit = SitemapError::MaxUrlLimitExceeded(49999);
    assert_eq!(
        just_under_limit.to_string(),
        "Number of URLs (49999) exceeds the maximum allowed limit (50,000)"
    );

    let at_limit = SitemapError::MaxUrlLimitExceeded(50000);
    assert_eq!(
        at_limit.to_string(),
        "Number of URLs (50000) exceeds the maximum allowed limit (50,000)"
    );

    let over_limit = SitemapError::MaxUrlLimitExceeded(50001);
    assert_eq!(
        over_limit.to_string(),
        "Number of URLs (50001) exceeds the maximum allowed limit (50,000)"
    );
}

#[test]
fn every_error_kind_has_its_message_and_context() {
    let writer_error = EventWriter::new(Vec::new())
        .write(XmlEvent::end_element())
        .unwrap_err();
    assert_eq!(
        SitemapError::XmlWriteError(writer_error).to_string(),
        "XML writing error: emitter error: last element name is not available"
    );
    assert_eq!(
        SitemapError::CustomError(String::new()).context(),
        "An unexpected error occurred"
    );
    assert_eq!(
        SitemapError::MaxUrlLimitExceeded(0).to_string(),
        "Number of URLs (0) exceeds the maximum allowed limit (50,000)"
    );
    assert_eq!(
        SitemapError::MaxUrlLimitExceeded(7).to_string(),
        "Number of URLs (7) exceeds the maximum allowed limit (50,000)"
    );
    assert_eq!(
        SitemapError::MaxUrlLimitExceeded(1234567890).to_string(),
        "Number of URLs (1234567890) exceeds the maximum allowed limit (50,000)"
    );
}

#[test]
fn wrapped_errors_convert_into_the_matching_kind() {
    let from_url: SitemapError = url::ParseError::EmptyHost.into();
    assert!(matches!(from_url, SitemapError::UrlError(url::ParseError::EmptyHost)));
    let from_io: SitemapError = io::Error::new(io::ErrorKind::Other, "x").into();
    assert!(matches!(from_io, SitemapError::IoError(_)));
    let from_date: SitemapError = dtt::error::DateTimeError::InvalidDate.into();
    assert!(matches!(from_date, SitemapError::DateError(_)));
    let from_utf8: SitemapError = String::from_utf8(vec![0xC0]).unwrap_err().into();
    assert!(matches!(from_utf8, SitemapError::EncodingError(_)));
}
