//! Preparing URLs for a sitemap and building one from them.

pub use crate::date::format_date;
use vstd::hash_set::StringHashSet;
use vstd::prelude::*;
use vstd::string::*;
use crate::config::MAX_SITEMAP_SIZE;
use crate::error::SitemapError;
use crate::location::{parsed_url, PageUrl, UrlView};
use crate::sitemap::{
    document, document_size, ChangeFreq, EntryView, SiteMapData, Sitemap,
};
use crate::text::{same_text, trim, trimmed};

verus! {

/// Largest number of URLs in one sitemap.
pub const MAX_URLS: usize = 50000;

/// The change frequency that is used where none is given.
pub const DEFAULT_CHANGE_FREQ: &'static str = "weekly";

/// The values of a sequence of URLs.
pub open spec fn url_views(urls: Seq<PageUrl>) -> Seq<UrlView> {
    urls.map_values(|url: PageUrl| url@)
}

/// Whether one of the URLs has the given serialization.
pub open spec fn has_href(urls: Seq<UrlView>, href: Seq<char>) -> bool {
    exists|i: int| 0 <= i < urls.len() && #[trigger] urls[i].href() == href
}

/// The URLs that a sitemap admits, in canonical form and each once.
///
/// The URLs are taken in their order. One with another scheme than `http`
/// or `https` is dropped; so is one whose canonical form has the
/// serialization of a URL that was kept before.
pub open spec fn normalized(urls: Seq<UrlView>) -> Seq<UrlView>
    decreases urls.len(),
{
    if urls.len() == 0 {
        Seq::empty()
    } else {
        let kept = normalized(urls.drop_last());
        let url = urls.last().canonical();
        if url.is_web() && !has_href(kept, url.href()) {
            kept.push(url)
        } else {
            kept
        }
    }
}

/// Whether a sequence of URLs is one that normalizing leaves as it is: all
/// with a web scheme, all canonical, no serialization twice.
pub open spec fn is_normal(urls: Seq<UrlView>) -> bool {
    &&& forall|i: int| 0 <= i < urls.len() ==> (#[trigger] urls[i]).is_web()
    &&& forall|i: int| 0 <= i < urls.len() ==> (#[trigger] urls[i]).canonical() == urls[i]
    &&& forall|i: int, j: int|
        0 <= i < j < urls.len() ==> (#[trigger] urls[i]).href() != (#[trigger] urls[j]).href()
}

/// The canonical form of a canonical form is the same.
pub proof fn lemma_canonical_idempotent(url: UrlView)
    ensures
        url.canonical().canonical() == url.canonical(),
        url.canonical().is_web() == url.is_web(),
        url.canonical().fragment is None,
        url.canonical().path.len() > 0,
{
}

/// Normalizing never yields more URLs than it was given, and what it yields
/// is normal.
pub proof fn lemma_normalized_is_normal(urls: Seq<UrlView>)
    ensures
        normalized(urls).len() <= urls.len(),
        is_normal(normalized(urls)),
    decreases urls.len(),
{
    if urls.len() > 0 {
        lemma_normalized_is_normal(urls.drop_last());
        lemma_canonical_idempotent(urls.last());
        let kept = normalized(urls.drop_last());
        let url = urls.last().canonical();
        if url.is_web() && !has_href(kept, url.href()) {
            let all = kept.push(url);
            assert forall|i: int, j: int| 0 <= i < j < all.len() implies (#[trigger] all[i]).href()
                != (#[trigger] all[j]).href() by {
                if j == kept.len() {
                    assert(all[i] == kept[i]);
                    if kept[i].href() == url.href() {
                        assert(has_href(kept, url.href()));
                    }
                } else {
                    assert(all[i] == kept[i] && all[j] == kept[j]);
                }
            }
        }
    }
}

/// Normalizing leaves a normal sequence as it is.
pub proof fn lemma_normal_is_fixed(urls: Seq<UrlView>)
    requires
        is_normal(urls),
    ensures
        normalized(urls) == urls,
    decreases urls.len(),
{
    if urls.len() > 0 {
        let front = urls.drop_last();
        assert(is_normal(front)) by {
            assert forall|i: int| 0 <= i < front.len() implies (#[trigger] front[i]).is_web() by {
                assert(front[i] == urls[i]);
            }
            assert forall|i: int| 0 <= i < front.len() implies (#[trigger] front[i]).canonical()
                == front[i] by {
                assert(front[i] == urls[i]);
            }
            assert forall|i: int, j: int| 0 <= i < j < front.len() implies (
            #[trigger] front[i]).href() != (#[trigger] front[j]).href() by {
                assert(front[i] == urls[i] && front[j] == urls[j]);
            }
        }
        lemma_normal_is_fixed(front);
        let last = urls.last();
        assert(last == urls[urls.len() - 1]);
        assert(last.canonical() == last);
        assert(!has_href(front, last.href())) by {
            if has_href(front, last.href()) {
                let i = choose|i: int| 0 <= i < front.len() && #[trigger] front[i].href()
                    == last.href();
                assert(front[i] == urls[i]);
                assert(urls[i].href() != urls[urls.len() - 1].href());
            }
        }
        assert(front.push(last) =~= urls);
    }
}

/// Normalizing twice gives what normalizing once gives.
pub proof fn lemma_normalize_idempotent(urls: Seq<UrlView>)
    ensures
        normalized(normalized(urls)) == normalized(urls),
{
    lemma_normalized_is_normal(urls);
    lemma_normal_is_fixed(normalized(urls));
}

/// Tells whether a URL may stand in a sitemap: its scheme is `http` or
/// `https`.
pub fn is_valid_url(url: &PageUrl) -> (valid: bool)
    ensures
        valid == url@.is_web(),
{
    same_text(url.scheme(), "http") || same_text(url.scheme(), "https")
}

/// Brings URLs to their canonical form and drops those that a sitemap does
/// not admit or that occur again.
///
/// What is kept stands in the order in which it was first met.
pub fn normalize_urls(urls: Vec<PageUrl>) -> (kept: Vec<PageUrl>)
    ensures
        url_views(kept@) == normalized(url_views(urls@)),
        kept@.len() <= urls@.len(),
        is_normal(url_views(kept@)),
{
    let mut seen = StringHashSet::new();
    let mut kept: Vec<PageUrl> = Vec::new();
    let mut i: usize = 0;
    assert(url_views(urls@).take(0) =~= Seq::<UrlView>::empty());
    assert(url_views(kept@) =~= Seq::<UrlView>::empty());
    while i < urls.len()
        invariant
            i <= urls.len(),
            url_views(kept@) == normalized(url_views(urls@).take(i as int)),
            forall|href: Seq<char>| seen@.contains(href) <==> has_href(url_views(kept@), href),
        decreases urls.len() - i,
    {
        let ghost before = url_views(kept@);
        let ghost given = url_views(urls@);
        assert(given.take(i + 1).drop_last() =~= given.take(i as int));
        assert(given.take(i + 1).last() == urls[i as int]@);
        let url = &urls[i];
        if is_valid_url(url) {
            let canonical = url.canonical();
            if seen.insert(canonical.as_str().to_owned()) {
                kept.push(canonical);
                let ghost after = url_views(kept@);
                assert(after =~= before.push(canonical@));
                assert forall|href: Seq<char>| seen@.contains(href) <==> has_href(
                    after,
                    href,
                ) by {
                    if has_href(after, href) {
                        let k = choose|k: int| 0 <= k < after.len() && #[trigger] after[k].href()
                            == href;
                        if k < before.len() {
                            assert(before[k].href() == href);
                            assert(has_href(before, href));
                        }
                    }
                    if has_href(before, href) {
                        let k = choose|k: int| 0 <= k < before.len() && #[trigger] before[k].href()
                            == href;
                        assert(after[k].href() == href);
                    }
                    if href == canonical@.href() {
                        assert(after[before.len() as int].href() == href);
                    }
                }
            }
        }
        i += 1;
    }
    proof {
        assert(url_views(urls@).take(i as int) =~= url_views(urls@));
        lemma_normalized_is_normal(url_views(urls@));
    }
    kept
}

/// The texts of a sequence of lines.
pub open spec fn line_texts(lines: Seq<String>) -> Seq<Seq<char>> {
    lines.map_values(|line: String| line@)
}

/// Whether a line holds nothing but white space.
pub open spec fn is_blank(line: Seq<char>) -> bool {
    trimmed(line).len() == 0
}

/// The URLs that the lines of a list hold, one to a line, in their order.
///
/// Blank lines are passed over. `None` where a line that is not blank is
/// no absolute URL.
pub open spec fn listed_urls(lines: Seq<Seq<char>>) -> Option<Seq<UrlView>>
    decreases lines.len(),
{
    if lines.len() == 0 {
        Some(Seq::empty())
    } else {
        match listed_urls(lines.drop_last()) {
            None => None,
            Some(urls) => if is_blank(lines.last()) {
                Some(urls)
            } else {
                match parsed_url(lines.last()) {
                    Some(url) => Some(urls.push(url)),
                    None => None,
                }
            },
        }
    }
}

/// Reads the URLs of a list that holds one to a line.
///
/// Blank lines are passed over. The first line that is not blank and no
/// absolute URL ends the call with its error.
pub fn urls_from_lines(lines: &Vec<String>) -> (r: Result<Vec<PageUrl>, SitemapError>)
    ensures
        match r {
            Ok(urls) => listed_urls(line_texts(lines@)) == Some(url_views(urls@)),
            Err(e) => listed_urls(line_texts(lines@)) is None && e is UrlError,
        },
{
    let mut urls: Vec<PageUrl> = Vec::new();
    let mut i: usize = 0;
    let ghost texts = line_texts(lines@);
    assert(texts.take(0) =~= Seq::<Seq<char>>::empty());
    assert(url_views(urls@) =~= Seq::<UrlView>::empty());
    while i < lines.len()
        invariant
            i <= lines.len(),
            texts == line_texts(lines@),
            listed_urls(texts.take(i as int)) == Some(url_views(urls@)),
        decreases lines.len() - i,
    {
        let line = lines[i].as_str();
        let ghost before = url_views(urls@);
        assert(texts.take(i + 1).drop_last() =~= texts.take(i as int));
        assert(texts.take(i + 1).last() == line@);
        if !trim(line).is_empty() {
            match PageUrl::parse(line) {
                Ok(url) => {
                    urls.push(url);
                    assert(url_views(urls@) =~= before.push(url@));
                },
                Err(e) => {
                    proof {
                        lemma_failure_stays(texts, i + 1);
                    }
                    return Err(SitemapError::UrlError(e));
                },
            }
        }
        i += 1;
    }
    assert(texts.take(i as int) =~= texts);
    Ok(urls)
}

/// Once the first lines of a list cannot be read, the whole list cannot.
pub proof fn lemma_failure_stays(lines: Seq<Seq<char>>, count: int)
    requires
        0 <= count <= lines.len(),
        listed_urls(lines.take(count)) is None,
    ensures
        listed_urls(lines) is None,
    decreases lines.len() - count,
{
    if count < lines.len() {
        assert(lines.take(count + 1).drop_last() =~= lines.take(count));
        lemma_failure_stays(lines, count + 1);
    } else {
        assert(lines.take(count) =~= lines);
    }
}

/// The entries of a sitemap in which every URL has the same date and
/// change frequency.
pub open spec fn uniform_entries(urls: Seq<UrlView>, lastmod: Seq<char>, changefreq: ChangeFreq)
    -> Seq<EntryView> {
    urls.map_values(|loc: UrlView| EntryView { changefreq, lastmod, loc })
}

/// What becomes of a request for a sitemap.
pub enum SitemapOutcome {
    /// The document.
    Document(Seq<char>),
    /// More URLs than a sitemap holds; with their count.
    TooManyUrls(nat),
    /// The text given as change frequency, which is none.
    BadFrequency,
    /// The document is larger than the protocol allows.
    TooLarge,
}

/// The sitemap of a list of URLs, or the first thing that stands against
/// it: the URLs are normalized and counted, the change frequency is parsed,
/// and the document of the entries is measured.
pub open spec fn sitemap_outcome(urls: Seq<UrlView>, changefreq: Seq<char>, lastmod: Seq<char>)
    -> SitemapOutcome {
    let kept = normalized(urls);
    if kept.len() > MAX_URLS {
        SitemapOutcome::TooManyUrls(kept.len())
    } else {
        match ChangeFreq::parsed(changefreq) {
            None => SitemapOutcome::BadFrequency,
            Some(freq) => {
                let entries = uniform_entries(kept, lastmod, freq);
                if document_size(entries) > MAX_SITEMAP_SIZE {
                    SitemapOutcome::TooLarge
                } else {
                    SitemapOutcome::Document(document(entries))
                }
            },
        }
    }
}

/// Builds the sitemap of a list of URLs, each entry with the given date of
/// last modification and change frequency.
pub fn generate_sitemap(urls: Vec<PageUrl>, changefreq: &str, lastmod: &str) -> (r: Result<
    String,
    SitemapError,
>)
    ensures
        match sitemap_outcome(url_views(urls@), changefreq@, lastmod@) {
            SitemapOutcome::Document(text) => r is Ok && r->Ok_0@ == text,
            SitemapOutcome::TooManyUrls(count) => r == Err::<String, SitemapError>(
                SitemapError::MaxUrlLimitExceeded(count as usize),
            ),
            SitemapOutcome::BadFrequency => r is Err && r->Err_0.rejects_frequency(changefreq@),
            SitemapOutcome::TooLarge => r is Err && r->Err_0 is SitemapTooLarge,
        },
{
    let kept = normalize_urls(urls);
    if kept.len() > MAX_URLS {
        return Err(SitemapError::MaxUrlLimitExceeded(kept.len()));
    }
    let freq = match ChangeFreq::parse(changefreq) {
        Ok(freq) => freq,
        Err(e) => {
            return Err(e);
        },
    };
    let mut sitemap = Sitemap::new();
    let mut i: usize = 0;
    let ghost views = url_views(kept@);
    let ghost entries = uniform_entries(views, lastmod@, freq);
    assert(sitemap@ =~= entries.take(0));
    while i < kept.len()
        invariant
            i <= kept.len(),
            kept.len() <= MAX_URLS,
            views == url_views(kept@),
            entries == uniform_entries(views, lastmod@, freq),
            sitemap@ == entries.take(i as int),
        decreases kept.len() - i,
    {
        let entry = SiteMapData::new(kept[i].duplicate(), lastmod.to_owned(), freq);
        assert(entry@ == entries[i as int]);
        match sitemap.add_entry(entry) {
            Ok(()) => {},
            Err(e) => {
                return Err(e);
            },
        }
        assert(sitemap@ =~= entries.take(i + 1));
        i += 1;
    }
    assert(entries.take(i as int) =~= entries);
    sitemap.to_xml()
}

} // verus!
