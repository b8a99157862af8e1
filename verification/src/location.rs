//! Page locations: absolute URLs, held as the components that the sitemap
//! logic reads.

use vstd::prelude::*;
use vstd::string::*;
use crate::text::same_text;

verus! {

/// Parse errors of the `url` crate, carried through unread.
#[verifier::external_type_specification]
#[verifier::external_body]
pub struct ExParseError(url::ParseError);

/// The mathematical value of a URL: its serialization cut into components.
pub struct UrlView {
    /// The scheme, without the `:` that follows it.
    pub scheme: Seq<char>,
    /// What stands between the scheme and the path: the `:` and, where the
    /// URL has one, `//` and the authority.
    pub authority: Seq<char>,
    /// The path.
    pub path: Seq<char>,
    /// The query, without the `?` before it.
    pub query: Option<Seq<char>>,
    /// The fragment, without the `#` before it.
    pub fragment: Option<Seq<char>>,
}

impl UrlView {
    /// The query as it is serialized.
    pub open spec fn query_text(self) -> Seq<char> {
        match self.query {
            Some(q) => seq!['?'] + q,
            None => Seq::empty(),
        }
    }

    /// The fragment as it is serialized.
    pub open spec fn fragment_text(self) -> Seq<char> {
        match self.fragment {
            Some(f) => seq!['#'] + f,
            None => Seq::empty(),
        }
    }

    /// The serialization of the URL.
    pub open spec fn href(self) -> Seq<char> {
        self.scheme + self.authority + self.path + self.query_text() + self.fragment_text()
    }

    /// Whether the scheme is one that a sitemap admits.
    pub open spec fn is_web(self) -> bool {
        self.scheme == "http"@ || self.scheme == "https"@
    }

    /// The URL without its fragment.
    pub open spec fn without_fragment(self) -> UrlView {
        UrlView { fragment: None, ..self }
    }

    /// The URL with an empty path rewritten to the root path.
    pub open spec fn with_root_path(self) -> UrlView {
        if self.path.len() == 0 {
            UrlView { path: seq!['/'], ..self }
        } else {
            self
        }
    }

    /// The canonical form by which two URLs count as the same page.
    pub open spec fn canonical(self) -> UrlView {
        self.without_fragment().with_root_path()
    }
}

/// What the `url` crate makes of a text: the components of the URL it
/// parses, or `None` where it rejects the text.
pub uninterp spec fn parsed_url(input: Seq<char>) -> Option<UrlView>;

/// The components of a URL as owned strings.
pub struct UrlParts {
    /// The scheme, without the `:` that follows it.
    pub scheme: String,
    /// What stands between the scheme and the path.
    pub authority: String,
    /// The path.
    pub path: String,
    /// The query, without the `?` before it.
    pub query: Option<String>,
    /// The fragment, without the `#` before it.
    pub fragment: Option<String>,
}

/// The text of an optional string.
pub open spec fn optional_text(s: Option<String>) -> Option<Seq<char>> {
    match s {
        Some(t) => Some(t@),
        None => None,
    }
}

impl View for UrlParts {
    type V = UrlView;

    open spec fn view(&self) -> UrlView {
        UrlView {
            scheme: self.scheme@,
            authority: self.authority@,
            path: self.path@,
            query: optional_text(self.query),
            fragment: optional_text(self.fragment),
        }
    }
}

/// Calls `url::Url::parse` and hands out the components of the URL it
/// returns, each as the crate's own getter gives it: `scheme`, the slice
/// from `Position::AfterScheme` to `Position::BeforePath`, `path`, `query`
/// and `fragment`. The contract only names the result: the same text always
/// parses to the same components, or is always rejected.
#[verifier::external_body]
fn parse_components(input: &str) -> (r: Result<UrlParts, url::ParseError>)
    ensures
        match r {
            Ok(parts) => parsed_url(input@) == Some(parts@),
            Err(_) => parsed_url(input@) is None,
        },
{
    let parsed = url::Url::parse(input)?;
    Ok(UrlParts {
        scheme: parsed.scheme().to_string(),
        authority: parsed[url::Position::AfterScheme..url::Position::BeforePath].to_string(),
        path: parsed.path().to_string(),
        query: parsed.query().map(|q| q.to_string()),
        fragment: parsed.fragment().map(|f| f.to_string()),
    })
}

/// An absolute URL.
#[derive(Debug, PartialEq, Eq)]
pub struct PageUrl {
    href: String,
    scheme: String,
    authority: String,
    path: String,
    query: Option<String>,
    fragment: Option<String>,
}

impl View for PageUrl {
    type V = UrlView;

    closed spec fn view(&self) -> UrlView {
        UrlView {
            scheme: self.scheme@,
            authority: self.authority@,
            path: self.path@,
            query: optional_text(self.query),
            fragment: optional_text(self.fragment),
        }
    }
}

impl Clone for PageUrl {
    fn clone(&self) -> (url: PageUrl)
        ensures
            url@ == self@,
    {
        self.duplicate()
    }
}

/// Copies an optional string.
fn copy_optional(s: &Option<String>) -> (r: Option<String>)
    ensures
        optional_text(r) == optional_text(*s),
{
    match s {
        Some(t) => Some(t.clone()),
        None => None,
    }
}

impl PageUrl {
    #[verifier::type_invariant]
    spec fn well_formed(self) -> bool {
        self.href@ == self@.href()
    }

    /// Builds a URL from its components.
    pub fn from_parts(parts: UrlParts) -> (url: PageUrl)
        ensures
            url@ == parts@,
    {
        let mut href = parts.scheme.clone();
        href.append(parts.authority.as_str());
        href.append(parts.path.as_str());
        match &parts.query {
            Some(q) => {
                href.append("?");
                href.append(q.as_str());
                proof {
                    reveal_strlit("?");
                    assert("?"@ =~= seq!['?']);
                }
            },
            None => {},
        }
        match &parts.fragment {
            Some(f) => {
                href.append("#");
                href.append(f.as_str());
                proof {
                    reveal_strlit("#");
                    assert("#"@ =~= seq!['#']);
                }
            },
            None => {},
        }
        assert(href@ =~= parts@.href());
        PageUrl {
            href,
            scheme: parts.scheme,
            authority: parts.authority,
            path: parts.path,
            query: parts.query,
            fragment: parts.fragment,
        }
    }

    /// Parses an absolute URL.
    ///
    /// Succeeds exactly on the texts that the `url` crate accepts, with the
    /// components it finds.
    pub fn parse(input: &str) -> (r: Result<PageUrl, url::ParseError>)
        ensures
            match r {
                Ok(url) => parsed_url(input@) == Some(url@),
                Err(_) => parsed_url(input@) is None,
            },
    {
        match parse_components(input) {
            Ok(parts) => Ok(PageUrl::from_parts(parts)),
            Err(e) => Err(e),
        }
    }

    /// The serialization of the URL.
    pub fn as_str(&self) -> (text: &str)
        ensures
            text@ == self@.href(),
    {
        proof {
            use_type_invariant(self);
        }
        self.href.as_str()
    }

    /// The scheme, without the `:` that follows it.
    pub fn scheme(&self) -> (text: &str)
        ensures
            text@ == self@.scheme,
    {
        self.scheme.as_str()
    }

    /// The path.
    pub fn path(&self) -> (text: &str)
        ensures
            text@ == self@.path,
    {
        self.path.as_str()
    }

    /// Whether the URL has a fragment.
    pub fn has_fragment(&self) -> (has: bool)
        ensures
            has == (self@.fragment is Some),
    {
        self.fragment.is_some()
    }

    /// A copy of the URL.
    pub fn duplicate(&self) -> (url: PageUrl)
        ensures
            url@ == self@,
    {
        proof {
            use_type_invariant(self);
        }
        PageUrl {
            href: self.href.clone(),
            scheme: self.scheme.clone(),
            authority: self.authority.clone(),
            path: self.path.clone(),
            query: copy_optional(&self.query),
            fragment: copy_optional(&self.fragment),
        }
    }

    /// The canonical form of the URL: the fragment is dropped and an empty
    /// path becomes `/`.
    pub fn canonical(&self) -> (url: PageUrl)
        ensures
            url@ == self@.canonical(),
    {
        let path = if self.path.as_str().is_empty() {
            proof {
                reveal_strlit("/");
                assert("/"@ =~= seq!['/']);
            }
            "/".to_owned()
        } else {
            self.path.clone()
        };
        PageUrl::from_parts(
            UrlParts {
                scheme: self.scheme.clone(),
                authority: self.authority.clone(),
                path,
                query: copy_optional(&self.query),
                fragment: None,
            },
        )
    }

    /// Tells whether two URLs have the same serialization.
    pub fn same_as(&self, other: &PageUrl) -> (same: bool)
        ensures
            same == (self@.href() == other@.href()),
    {
        same_text(self.as_str(), other.as_str())
    }
}

} // verus!
