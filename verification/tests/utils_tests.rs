use clap::{Arg, Command};
use sitemap_gen::date::{convert_date_format, date_from_groups, join_date, month_number, CalendarDate};
use sitemap_gen::error::{SitemapError, SitemapResult};
use sitemap_gen::location::PageUrl;
use sitemap_gen::sitemap::ChangeFreq;
use sitemap_gen::utils::{
    format_date, generate_sitemap, is_valid_url, normalize_urls, urls_from_lines, MAX_URLS,
};

fn lines(texts: &[&str]) -> Vec<String> {
    texts.iter().map(|t| t.to_string()).collect()
}

fn hrefs(urls: &[PageUrl]) -> Vec<String> {
    urls.iter().map(|u| u.as_str().to_string()).collect()
}

#[test]
fn test_read_urls_from_file() -> SitemapResult<()> {
    let urls = urls_from_lines(&lines(&[
        "https://example.com",
        "https://example.org",
        "",
        "https://example.net",
    ]))?;
    assert_eq!(urls.len(), 3);
    assert_eq!(urls[0].as_str(), "https://example.com/");
    assert_eq!(urls[1].as_str(), "https://example.org/");
    assert_eq!(urls[2].as_str(), "https://example.net/");

    Ok(())
}

#[test]
fn test_invalid_url_in_file() {
    let result = urls_from_lines(&lines(&["invalid_url"]));
    assert!(result.is_err(), "Expected an error for invalid URL");
}

#[test]
fn test_empty_file() -> SitemapResult<()> {
    let urls = urls_from_lines(&Vec::new())?;

    assert_eq!(urls.len(), 0, "Expected no URLs from an empty file");

    Ok(())
}

#[test]
fn lines_of_white_space_are_passed_over() {
    let urls = urls_from_lines(&lines(&["   ", "\t", "http://a.example/x", " \u{a0} "])).unwrap();
    assert_eq!(hrefs(&urls), vec!["http://a.example/x"]);
}

#[test]
fn first_unreadable_line_gives_a_url_error() {
    let result = urls_from_lines(&lines(&["http://a.example/", "not a url", "http://b.example/"]));
    assert!(matches!(
        result,
        Err(SitemapError::UrlError(url::ParseError::RelativeUrlWithoutBase))
    ));
}

#[test]
fn test_normalize_urls() {
    let urls = vec![
        PageUrl::parse("http://example.com").unwrap(),
        PageUrl::parse("http://example.com/").unwrap(),
        PageUrl::parse("http://example.com/page#fragment").unwrap(),
        PageUrl::parse("http://example.org").unwrap(),
        PageUrl::parse("ftp://example.net").unwrap(),
    ];

    let normalized = normalize_urls(urls);
    assert_eq!(normalized.len(), 3);
    assert!(normalized.contains(&PageUrl::parse("http://example.com/").unwrap()));
    assert!(normalized.contains(&PageUrl::parse("http://example.org/").unwrap()));
    assert!(normalized.contains(&PageUrl::parse("http://example.com/page").unwrap()));
    assert!(!normalized.contains(&PageUrl::parse("ftp://example.net").unwrap()));
}

#[test]
fn normalizing_keeps_first_occurrences_in_order() {
    let urls = vec![
        PageUrl::parse("http://example.com").unwrap(),
        PageUrl::parse("http://example.com/").unwrap(),
        PageUrl::parse("http://example.com/page#frag").unwrap(),
        PageUrl::parse("ftp://example.net").unwrap(),
    ];
    let normalized = normalize_urls(urls);
    assert_eq!(
        hrefs(&normalized),
        vec!["http://example.com/", "http://example.com/page"]
    );
}

#[test]
fn normalizing_twice_changes_nothing() {
    let urls = vec![
        PageUrl::parse("https://b.example/x?q=1#top").unwrap(),
        PageUrl::parse("file:///etc/hosts").unwrap(),
        PageUrl::parse("https://b.example/x?q=1").unwrap(),
        PageUrl::parse("HTTP://A.example").unwrap(),
        PageUrl::parse("https://b.example/x?q=2#").unwrap(),
    ];
    let once = normalize_urls(urls);
    assert_eq!(
        hrefs(&once),
        vec![
            "https://b.example/x?q=1",
            "http://a.example/",
            "https://b.example/x?q=2"
        ]
    );
    let twice = normalize_urls(once.clone());
    assert_eq!(twice, once);
}

#[test]
fn test_is_valid_url() {
    assert!(is_valid_url(&PageUrl::parse("http://example.com").unwrap()));
    assert!(is_valid_url(&PageUrl::parse("https://example.com").unwrap()));
    assert!(!is_valid_url(&PageUrl::parse("ftp://example.com").unwrap()));
}

#[test]
fn other_schemes_are_not_valid() {
    assert!(!is_valid_url(&PageUrl::parse("file:///tmp/x").unwrap()));
    assert!(!is_valid_url(&PageUrl::parse("mailto:someone@example.com").unwrap()));
    assert!(!is_valid_url(&PageUrl::parse("httpx://example.com").unwrap()));
    assert!(is_valid_url(&PageUrl::parse("HTTPS://EXAMPLE.COM").unwrap()));
}

#[test]
fn test_url_normalization_trailing_slashes() {
    let urls = vec![
        PageUrl::parse("http://example.com").unwrap(),
        PageUrl::parse("http://example.com/").unwrap(),
        PageUrl::parse("http://example.org/").unwrap(),
        PageUrl::parse("http://example.org").unwrap(),
    ];

    let normalized = normalize_urls(urls);
    assert_eq!(
        normalized.len(),
        2,
        "Duplicate URLs with and without trailing slashes should be normalized"
    );

    assert!(normalized.contains(&PageUrl::parse("http://example.com/").unwrap()));
    assert!(normalized.contains(&PageUrl::parse("http://example.org/").unwrap()));
}

#[test]
fn test_invalid_change_frequency() {
    let matches = Command::new("test")
        .arg(Arg::new("changefreq").long("changefreq"))
        .get_matches_from(vec!["test", "--changefreq", "invalid_freq"]);

    let result = matches
        .get_one::<String>("changefreq")
        .unwrap()
        .parse::<ChangeFreq>();

    assert!(
        result.is_err(),
        "Parsing an invalid change frequency should return an error"
    );
}

#[test]
fn test_large_number_of_urls() {
    let mut urls = vec![];
    for i in 0..MAX_URLS {
        urls.push(PageUrl::parse(&format!("http://example{}.com", i)).unwrap());
    }

    let normalized = normalize_urls(urls.clone());
    assert_eq!(
        normalized.len(),
        MAX_URLS,
        "All URLs should be preserved when under the max limit"
    );

    urls.push(PageUrl::parse("http://example-max.com").unwrap());

    if urls.len() > MAX_URLS {
        let result: Result<(), SitemapError> = Err(SitemapError::MaxUrlLimitExceeded(urls.len()));
        assert!(
            result.is_err(),
            "An error should be returned when exceeding the max URL limit"
        );
        if let Err(SitemapError::MaxUrlLimitExceeded(count)) = result {
            assert_eq!(
                count,
                MAX_URLS + 1,
                "The error should report the correct number of URLs"
            );
        }
    } else {
        panic!("This case should trigger the max URL limit exceeded error");
    }
}

#[test]
fn test_invalid_url_schemes() {
    let urls = vec![
        PageUrl::parse("http://example.com").unwrap(),
        PageUrl::parse("https://example.com").unwrap(),
        PageUrl::parse("ftp://example.com").unwrap(),
        PageUrl::parse("file:///example.com").unwrap(),
    ];

    let normalized = normalize_urls(urls);
    assert_eq!(normalized.len(), 2, "Only http and https URLs should be allowed");
    assert!(normalized.contains(&PageUrl::parse("http://example.com/").unwrap()));
    assert!(normalized.contains(&PageUrl::parse("https://example.com/").unwrap()));
}

#[test]
fn test_url_special_characters() {
    let urls = vec![
        PageUrl::parse("http://example.com/with space").unwrap(),
        PageUrl::parse("http://example.com/with%20encoded").unwrap(),
    ];

    let normalized = normalize_urls(urls);
    assert_eq!(
        normalized.len(),
        2,
        "Both URLs with spaces and encoded characters should be normalized"
    );

    assert!(normalized.contains(&PageUrl::parse("http://example.com/with%20space").unwrap()));
    assert!(normalized.contains(&PageUrl::parse("http://example.com/with%20encoded").unwrap()));
}

#[test]
fn url_components_are_those_of_the_parser() {
    let url = PageUrl::parse("HTTPS://User@Example.COM:8443/a/b?x=1#top").unwrap();
    assert_eq!(url.as_str(), "https://User@example.com:8443/a/b?x=1#top");
    assert_eq!(url.scheme(), "https");
    assert_eq!(url.path(), "/a/b");
    assert!(url.has_fragment());
    let canonical = url.canonical();
    assert_eq!(canonical.as_str(), "https://User@example.com:8443/a/b?x=1");
    assert!(!canonical.has_fragment());
    assert!(canonical.same_as(&PageUrl::parse("https://User@example.com:8443/a/b?x=1").unwrap()));
    assert!(!canonical.same_as(&url));
    assert_eq!(url.duplicate(), url);
}

#[test]
fn canonical_form_gives_an_empty_path_a_slash() {
    let url = PageUrl::parse("mailto:").unwrap();
    assert_eq!(url.path(), "");
    assert_eq!(url.canonical().as_str(), "mailto:/");
    let web = PageUrl::parse("http://example.com#x").unwrap();
    assert_eq!(web.canonical().as_str(), "http://example.com/");
}

#[test]
fn unparseable_urls_give_the_parser_error() {
    assert!(matches!(
        PageUrl::parse("not-a-valid-url"),
        Err(url::ParseError::RelativeUrlWithoutBase)
    ));
    assert!(matches!(PageUrl::parse("http://"), Err(url::ParseError::EmptyHost)));
}

#[test]
fn test_date_conversion() {
    let formatted = convert_date_format("20 May 2023");
    assert_eq!(formatted, "2023-05-20");
}

#[test]
fn test_convert_date_format() {
    assert_eq!(convert_date_format("20 May 2023"), "2023-05-20");
    assert_eq!(convert_date_format("2023-05-20"), "2023-05-20");
    assert_eq!(convert_date_format("Invalid Date"), "Invalid Date");
}

#[test]
fn test_convert_date_format_edge_cases() {
    assert_eq!(convert_date_format(""), "");
    assert_eq!(convert_date_format("Invalid Date"), "Invalid Date");
    assert_eq!(convert_date_format("32 Jan 2023"), "2023-01-32");
    assert_eq!(convert_date_format("01 Foo 2023"), "01 Foo 2023");
}

#[test]
fn every_month_name_is_converted_without_regard_to_case() {
    let names = [
        "Jan", "FEB", "mar", "Apr", "mAy", "jun", "JUL", "Aug", "sep", "Oct", "NOV", "dec",
    ];
    for (i, name) in names.iter().enumerate() {
        assert_eq!(
            convert_date_format(&format!("07 {} 1999", name)),
            format!("1999-{:02}-07", i + 1)
        );
    }
}

#[test]
fn date_is_found_anywhere_in_the_text() {
    assert_eq!(convert_date_format("Sat, 20 May 2023 10:00:00 GMT"), "2023-05-20");
    assert_eq!(convert_date_format("1 May 2023"), "1 May 2023");
}

#[test]
fn dates_and_times_are_cut_to_the_date() {
    assert_eq!(convert_date_format("2023-05-20T10:30:00Z"), "2023-05-20");
    assert_eq!(convert_date_format("2024-02-29T23:59:59+02:00"), "2024-02-29");
    assert_eq!(convert_date_format("0044-03-15"), "0044-03-15");
    assert_eq!(convert_date_format("2023-02-30"), "2023-02-30");
    assert_eq!(convert_date_format("2023-13-01"), "2023-13-01");
}

#[test]
fn month_numbers_and_joined_dates() {
    assert_eq!(month_number("jan"), Some("01"));
    assert_eq!(month_number("sep"), Some("09"));
    assert_eq!(month_number("dec"), Some("12"));
    assert_eq!(month_number("Jan"), None);
    assert_eq!(month_number("june"), None);
    assert_eq!(join_date("2023", "05", "20"), "2023-05-20");
    assert_eq!(join_date("", "", ""), "--");
}

#[test]
fn date_from_groups_reads_day_month_and_year() {
    let groups = vec![
        Some("20 May 2023".to_string()),
        Some("20".to_string()),
        Some("May".to_string()),
        Some("2023".to_string()),
    ];
    assert_eq!(date_from_groups(&groups, "on 20 May 2023"), "2023-05-20");
    let unknown = vec![None, Some("20".to_string()), Some("Foo".to_string())];
    assert_eq!(date_from_groups(&unknown, "20 Foo"), "20 Foo");
    let partial = vec![None, None, Some("OCT".to_string())];
    assert_eq!(date_from_groups(&partial, "x"), "-10-");
}

#[test]
fn calendar_dates_are_written_with_leading_zeros() {
    assert_eq!(format_date(&CalendarDate::new(2024, 10, 8).unwrap()), "2024-10-08");
    assert_eq!(format_date(&CalendarDate::new(7, 1, 31).unwrap()), "0007-01-31");
    assert_eq!(format_date(&CalendarDate::new(9999, 12, 1).unwrap()), "9999-12-01");
    assert_eq!(format_date(&CalendarDate::new(0, 1, 1).unwrap()), "0000-01-01");
    assert_eq!(format_date(&CalendarDate::new(-44, 3, 15).unwrap()), "-0044-03-15");
    assert_eq!(format_date(&CalendarDate::new(-9999, 3, 15).unwrap()), "-9999-03-15");
    let date = CalendarDate::new(2023, 5, 20).unwrap();
    assert_eq!((date.year(), date.month(), date.day()), (2023, 5, 20));
}

#[test]
fn calendar_dates_out_of_range_are_refused() {
    assert_eq!(CalendarDate::new(10000, 1, 1), None);
    assert_eq!(CalendarDate::new(-10000, 1, 1), None);
    assert_eq!(CalendarDate::new(2023, 0, 1), None);
    assert_eq!(CalendarDate::new(2023, 13, 1), None);
    assert_eq!(CalendarDate::new(2023, 1, 0), None);
    assert_eq!(CalendarDate::new(2023, 1, 32), None);
}

#[test]
fn calendar_date_agrees_with_the_date_library() {
    let inputs = [
        "2021-07-04T01:02:03Z",
        "0001-01-01",
        "0999-12-31",
        "9999-12-31",
        "-000044-03-15",
        "-009999-01-01",
        "+000007-10-09",
        "2024-02-29T23:59:59-11:00",
    ];
    for input in inputs {
        let parsed = dtt::datetime::DateTime::parse(input).unwrap();
        let expected = parsed.format("[year]-[month]-[day]").unwrap();
        let date =
            CalendarDate::new(parsed.year(), u8::from(parsed.month()), parsed.day()).unwrap();
        assert_eq!(format_date(&date), expected);
        assert_eq!(convert_date_format(input), expected);
    }
}

#[test]
fn sitemap_is_generated_from_normalized_urls() {
    let urls = vec![
        PageUrl::parse("http://example.com#a").unwrap(),
        PageUrl::parse("ftp://example.com").unwrap(),
        PageUrl::parse("http://example.com/").unwrap(),
        PageUrl::parse("https://example.org/p&q").unwrap(),
    ];
    let xml = generate_sitemap(urls, "Daily", "2024-10-08").unwrap();
    assert_eq!(
        xml,
        "<?xml version=\"1.0\" encoding=\"UTF-8\"?><urlset xmlns=\"http://www.sitemaps.org/schemas/sitemap/0.9\"><url><loc>http://example.com/</loc><lastmod>2024-10-08</lastmod><changefreq>daily</changefreq></url><url><loc>https://example.org/p&amp;q</loc><lastmod>2024-10-08</lastmod><changefreq>daily</changefreq></url></urlset>"
    );
}

#[test]
fn sitemap_generation_reports_each_failure() {
    let one = vec![PageUrl::parse("http://example.com").unwrap()];
    assert!(matches!(
        generate_sitemap(one, "sometimes", "2024-10-08"),
        Err(SitemapError::InvalidChangeFreq(raw)) if raw == "sometimes"
    ));

    let mut many = vec![];
    for i in 0..MAX_URLS + 1 {
        many.push(PageUrl::parse(&format!("http://example.com/{}", i)).unwrap());
    }
    assert!(matches!(
        generate_sitemap(many, "sometimes", "2024-10-08"),
        Err(SitemapError::MaxUrlLimitExceeded(50001))
    ));

    let huge = vec![PageUrl::parse(&format!("http://example.com/{}", "a".repeat(10485760))).unwrap()];
    assert!(matches!(
        generate_sitemap(huge, "weekly", "2024-10-08"),
        Err(SitemapError::SitemapTooLarge)
    ));

    assert_eq!(
        generate_sitemap(Vec::new(), "weekly", "2024-10-08").unwrap(),
        "<?xml version=\"1.0\" encoding=\"UTF-8\"?><urlset xmlns=\"http://www.sitemaps.org/schemas/sitemap/0.9\" />"
    );
}

#[test]
fn years_before_the_common_era_keep_their_sign() {
    assert_eq!(convert_date_format("-000044-03-15"), "-0044-03-15");
    assert_eq!(convert_date_format("+002023-05-20"), "2023-05-20");
    assert_eq!(convert_date_format("2023-05-20 10:30:00Z"), "2023-05-20");
}

#[test]
fn canonical_form_of_web_urls_agrees_with_the_url_library() {
    let inputs = [
        "http://example.com",
        "http://example.com/",
        "https://example.com/page#frag",
        "https://example.com/a/b/../c?x=1&y=2#top",
        "http://user:pw@example.com:8080#",
        "https://EXAMPLE.com/with space?q=a b#c d",
        "http://example.com/?#",
        "https://xn--nxasmq6b.example/%7Efoo",
        "http://[::1]:3000/x#y",
    ];
    for input in inputs {
        let mut expected = url::Url::parse(input).unwrap();
        expected.set_fragment(None);
        if expected.path().is_empty() || expected.path() == "/" {
            expected.set_path("/");
        }
        let url = PageUrl::parse(input).unwrap();
        assert_eq!(url.as_str(), url::Url::parse(input).unwrap().as_str());
        assert_eq!(url.canonical().as_str(), expected.as_str());
        assert_eq!(url.scheme(), expected.scheme());
        assert_eq!(url.canonical().path(), expected.path());
    }
}
