//! Sitemap entries, the bounded collection that holds them, and rendering.

use vstd::hash_map::StringHashMap;
use vstd::prelude::*;
use vstd::string::*;
use vstd::utf8::*;
use xml::writer::EventWriter;
use crate::config::{MAX_SITEMAP_SIZE, MAX_URLS, SITEMAP_XMLNS};
pub use crate::date::convert_date_format;
use crate::date::converted_date;
use crate::error::SitemapError;
use crate::location::{parsed_url, PageUrl, UrlView};
use crate::markup::{
    declaration, declared, empty_element_end, end_tag, escaped, into_bytes, namespace_attribute,
    new_writer, open_elements, tag_close, tag_pending, write_declaration, write_end,
    write_root_start, write_start, write_text, written,
};
use crate::text::{lowercase, same_text, text_from_utf8, to_lowercase};

verus! {

/// How often a page is expected to change.
#[derive(Debug, Clone, Copy, PartialEq, Eq, Structural)]
pub enum ChangeFreq {
    /// The page changes every time it is accessed.
    Always,
    /// The page changes every hour.
    Hourly,
    /// The page changes every day.
    Daily,
    /// The page changes every week.
    Weekly,
    /// The page changes every month.
    Monthly,
    /// The page changes every year.
    Yearly,
    /// The page is archived and will not change.
    Never,
}

impl ChangeFreq {
    /// The canonical lowercase code of the frequency.
    pub open spec fn code(self) -> Seq<char> {
        match self {
            ChangeFreq::Always => "always"@,
            ChangeFreq::Hourly => "hourly"@,
            ChangeFreq::Daily => "daily"@,
            ChangeFreq::Weekly => "weekly"@,
            ChangeFreq::Monthly => "monthly"@,
            ChangeFreq::Yearly => "yearly"@,
            ChangeFreq::Never => "never"@,
        }
    }

    /// The frequency that has the given canonical code.
    pub open spec fn with_code(code: Seq<char>) -> Option<ChangeFreq> {
        if code == "always"@ {
            Some(ChangeFreq::Always)
        } else if code == "hourly"@ {
            Some(ChangeFreq::Hourly)
        } else if code == "daily"@ {
            Some(ChangeFreq::Daily)
        } else if code == "weekly"@ {
            Some(ChangeFreq::Weekly)
        } else if code == "monthly"@ {
            Some(ChangeFreq::Monthly)
        } else if code == "yearly"@ {
            Some(ChangeFreq::Yearly)
        } else if code == "never"@ {
            Some(ChangeFreq::Never)
        } else {
            None
        }
    }

    /// The frequency that a text stands for: the text is a canonical code
    /// as it is, or after it has been brought to lowercase.
    pub open spec fn parsed(text: Seq<char>) -> Option<ChangeFreq> {
        match ChangeFreq::with_code(text) {
            Some(freq) => Some(freq),
            None => ChangeFreq::with_code(lowercase(text)),
        }
    }

    /// Returns the canonical lowercase code of the frequency.
    pub fn as_str(&self) -> (code: &'static str)
        ensures
            code@ == self.code(),
    {
        match self {
            ChangeFreq::Always => "always",
            ChangeFreq::Hourly => "hourly",
            ChangeFreq::Daily => "daily",
            ChangeFreq::Weekly => "weekly",
            ChangeFreq::Monthly => "monthly",
            ChangeFreq::Yearly => "yearly",
            ChangeFreq::Never => "never",
        }
    }

    /// Returns the code of the frequency as an owned string.
    pub fn to_string(&self) -> (code: String)
        ensures
            code@ == self.code(),
    {
        self.as_str().to_owned()
    }

    /// Finds the frequency that has exactly the given code.
    pub fn from_code(code: &str) -> (freq: Option<ChangeFreq>)
        ensures
            freq == ChangeFreq::with_code(code@),
    {
        if same_text(code, "always") {
            Some(ChangeFreq::Always)
        } else if same_text(code, "hourly") {
            Some(ChangeFreq::Hourly)
        } else if same_text(code, "daily") {
            Some(ChangeFreq::Daily)
        } else if same_text(code, "weekly") {
            Some(ChangeFreq::Weekly)
        } else if same_text(code, "monthly") {
            Some(ChangeFreq::Monthly)
        } else if same_text(code, "yearly") {
            Some(ChangeFreq::Yearly)
        } else if same_text(code, "never") {
            Some(ChangeFreq::Never)
        } else {
            None
        }
    }

    /// Parses a frequency without regard to case.
    ///
    /// A text that is no code of a frequency is handed back in the error.
    pub fn parse(text: &str) -> (r: Result<ChangeFreq, SitemapError>)
        ensures
            match r {
                Ok(freq) => ChangeFreq::parsed(text@) == Some(freq),
                Err(e) => ChangeFreq::parsed(text@) is None && e.rejects_frequency(text@),
            },
    {
        match ChangeFreq::from_code(text) {
            Some(freq) => Ok(freq),
            None => {
                let lower = to_lowercase(text);
                match ChangeFreq::from_code(lower.as_str()) {
                    Some(freq) => Ok(freq),
                    None => Err(SitemapError::InvalidChangeFreq(text.to_owned())),
                }
            },
        }
    }

    /// A code stands for no other frequency than the one it belongs to.
    pub proof fn lemma_code_is_unique(code: Seq<char>, freq: ChangeFreq)
        ensures
            ChangeFreq::with_code(code) == Some(freq) <==> freq.code() == code,
    {
        ChangeFreq::lemma_code_round_trip(freq);
    }

    /// Every frequency is parsed back from its own code.
    pub proof fn lemma_code_round_trip(freq: ChangeFreq)
        ensures
            ChangeFreq::with_code(freq.code()) == Some(freq),
            ChangeFreq::parsed(freq.code()) == Some(freq),
    {
        reveal_strlit("always");
        reveal_strlit("hourly");
        reveal_strlit("daily");
        reveal_strlit("weekly");
        reveal_strlit("monthly");
        reveal_strlit("yearly");
        reveal_strlit("never");
        assert("always"@[0] == 'a');
        assert("hourly"@[0] == 'h');
        assert("daily"@[0] == 'd');
        assert("weekly"@[0] == 'w');
        assert("monthly"@[0] == 'm');
        assert("yearly"@[0] == 'y');
        assert("never"@[0] == 'n');
    }
}

impl std::str::FromStr for ChangeFreq {
    type Err = SitemapError;

    fn from_str(text: &str) -> (r: Result<ChangeFreq, SitemapError>)
        ensures
            match r {
                Ok(freq) => ChangeFreq::parsed(text@) == Some(freq),
                Err(e) => ChangeFreq::parsed(text@) is None && e.rejects_frequency(text@),
            },
    {
        ChangeFreq::parse(text)
    }
}

/// The mathematical value of a sitemap entry.
pub struct EntryView {
    /// The frequency of change.
    pub changefreq: ChangeFreq,
    /// The date of the last modification.
    pub lastmod: Seq<char>,
    /// The location of the page.
    pub loc: UrlView,
}

/// One entry of a sitemap.
#[derive(Debug, PartialEq, Eq)]
pub struct SiteMapData {
    /// How often the page is likely to change.
    pub changefreq: ChangeFreq,
    /// The date of the last modification, as `YYYY-MM-DD`.
    pub lastmod: String,
    /// The location of the page.
    pub loc: PageUrl,
}

impl View for SiteMapData {
    type V = EntryView;

    open spec fn view(&self) -> EntryView {
        EntryView { changefreq: self.changefreq, lastmod: self.lastmod@, loc: self.loc@ }
    }
}

impl Clone for SiteMapData {
    fn clone(&self) -> (entry: SiteMapData)
        ensures
            entry@ == self@,
    {
        SiteMapData {
            changefreq: self.changefreq,
            lastmod: self.lastmod.clone(),
            loc: self.loc.duplicate(),
        }
    }
}

impl SiteMapData {
    /// Makes an entry of a location, the date of its last modification and
    /// its change frequency.
    pub fn new(loc: PageUrl, lastmod: String, changefreq: ChangeFreq) -> (entry: SiteMapData)
        ensures
            entry.loc == loc,
            entry.lastmod == lastmod,
            entry.changefreq == changefreq,
    {
        SiteMapData { changefreq, lastmod, loc }
    }
}

/// The values of a sequence of entries.
pub open spec fn entry_views(entries: Seq<SiteMapData>) -> Seq<EntryView> {
    entries.map_values(|entry: SiteMapData| entry@)
}

/// How many of `offered` entries a sitemap with `held` entries takes.
pub open spec fn admitted(held: nat, offered: nat) -> int {
    if held + offered <= MAX_URLS {
        offered as int
    } else {
        MAX_URLS - held
    }
}

/// Whether a sitemap with these entries takes one more.
pub open spec fn accepts(held: Seq<EntryView>) -> bool {
    held.len() < MAX_URLS
}

/// The entries of a sitemap after one more was offered to it.
pub open spec fn added(held: Seq<EntryView>, entry: EntryView) -> Seq<EntryView> {
    if accepts(held) {
        held.push(entry)
    } else {
        held
    }
}

/// The entries of a sitemap after entries were offered to it one by one.
pub open spec fn added_all(held: Seq<EntryView>, offered: Seq<EntryView>) -> Seq<EntryView>
    decreases offered.len(),
{
    if offered.len() == 0 {
        held
    } else {
        added(added_all(held, offered.drop_last()), offered.last())
    }
}

/// Offering entries one by one adds them in their order until the sitemap
/// is full.
pub proof fn lemma_added_all(held: Seq<EntryView>, offered: Seq<EntryView>)
    requires
        held.len() <= MAX_URLS,
    ensures
        added_all(held, offered) == held + offered.take(admitted(held.len(), offered.len())),
    decreases offered.len(),
{
    if offered.len() == 0 {
        assert(held + offered.take(0) =~= held);
    } else {
        let front = offered.drop_last();
        lemma_added_all(held, front);
        let count = admitted(held.len(), front.len());
        if held.len() + offered.len() <= MAX_URLS {
            assert(front.take(count) =~= front);
            assert(offered.take(offered.len() as int) =~= offered);
            assert((held + front).push(offered.last()) =~= held + offered);
        } else {
            assert(front.take(count) =~= offered.take(admitted(held.len(), offered.len())));
        }
    }
}

/// Up to [`MAX_URLS`] entries that are added one by one to an empty sitemap
/// are all taken, so that it holds as many entries as were added; and once
/// it holds [`MAX_URLS`] entries it takes no other.
pub proof fn lemma_sequential_adds(entries: Seq<EntryView>)
    requires
        entries.len() <= MAX_URLS,
    ensures
        added_all(Seq::empty(), entries) == entries,
        added_all(Seq::empty(), entries).len() == entries.len(),
        accepts(added_all(Seq::empty(), entries)) <==> entries.len() < MAX_URLS,
        forall|k: int|
            0 <= k < entries.len() ==> accepts(#[trigger] added_all(Seq::empty(), entries.take(k))),
{
    lemma_added_all(Seq::empty(), entries);
    assert(entries.take(entries.len() as int) =~= entries);
    assert(Seq::<EntryView>::empty() + entries =~= entries);
    assert forall|k: int| 0 <= k < entries.len() implies accepts(
        #[trigger] added_all(Seq::empty(), entries.take(k)),
    ) by {
        let front = entries.take(k);
        lemma_added_all(Seq::empty(), front);
        assert(front.take(front.len() as int) =~= front);
        assert(Seq::<EntryView>::empty() + front =~= front);
    }
}

/// An element that holds text: start tag, escaped text, end tag.
pub open spec fn text_element(name: Seq<char>, text: Seq<char>) -> Seq<char> {
    seq!['<'] + name + seq!['>'] + escaped(text) + end_tag(name)
}

/// The `url` element of one entry.
pub open spec fn url_element(entry: EntryView) -> Seq<char> {
    seq!['<'] + "url"@ + seq!['>'] + text_element("loc"@, entry.loc.href()) + text_element(
        "lastmod"@,
        entry.lastmod,
    ) + text_element("changefreq"@, entry.changefreq.code()) + end_tag("url"@)
}

/// The `url` elements of the entries, in their order.
pub open spec fn url_elements(entries: Seq<EntryView>) -> Seq<char>
    decreases entries.len(),
{
    if entries.len() == 0 {
        Seq::empty()
    } else {
        url_elements(entries.drop_last()) + url_element(entries.last())
    }
}

/// The declaration and the start tag of the root element, up to its
/// closing `>`.
pub open spec fn document_head() -> Seq<char> {
    declaration("UTF-8"@) + seq!['<'] + "urlset"@ + namespace_attribute(SITEMAP_XMLNS@)
}

/// The sitemap document of the entries: the XML declaration and the
/// `urlset` element with one `url` element for each entry. Without entries
/// the `urlset` element is written in its short form.
pub open spec fn document(entries: Seq<EntryView>) -> Seq<char> {
    if entries.len() == 0 {
        document_head() + empty_element_end()
    } else {
        document_head() + seq!['>'] + url_elements(entries) + end_tag("urlset"@)
    }
}

/// The size of the document of the entries, in bytes.
pub open spec fn document_size(entries: Seq<EntryView>) -> nat {
    encode_utf8(document(entries)).len()
}

/// What the writer holds after the first `count` entries of a document.
pub open spec fn document_prefix(entries: Seq<EntryView>, count: int) -> Seq<char> {
    if count == 0 {
        document_head()
    } else {
        document_head() + seq!['>'] + url_elements(entries.take(count))
    }
}

/// One more entry adds its `url` element to what the writer holds, after
/// the `>` of the root element where it is the first.
proof fn lemma_prefix_grows(entries: Seq<EntryView>, count: int)
    requires
        0 <= count < entries.len(),
    ensures
        document_prefix(entries, count + 1) == document_prefix(entries, count) + (if count == 0 {
            seq!['>']
        } else {
            Seq::empty()
        }) + url_element(entries[count]),
{
    let next = entries.take(count + 1);
    assert(next.drop_last() =~= entries.take(count));
    assert(next.last() == entries[count]);
    if count == 0 {
        assert(url_elements(entries.take(0)) =~= Seq::<char>::empty());
        assert(url_elements(next) =~= url_element(entries[count]));
    } else {
        assert(document_prefix(entries, count + 1) =~= document_prefix(entries, count)
            + Seq::<char>::empty() + url_element(entries[count]));
    }
}

/// Writes an element that holds text.
fn write_element(w: &mut EventWriter<Vec<u8>>, name: &str, value: &str) -> (r: Result<
    (),
    SitemapError,
>)
    requires
        declared(*old(w)),
    ensures
        r is Ok,
        written(*final(w)) == written(*old(w)) + tag_close(*old(w)) + text_element(name@, value@),
        open_elements(*final(w)) == open_elements(*old(w)),
        !tag_pending(*final(w)),
        declared(*final(w)),
{
    write_start(w, name)?;
    write_text(w, value)?;
    write_end(w)?;
    assert(open_elements(*w) =~= open_elements(*old(w)));
    assert(written(*w) =~= written(*old(w)) + tag_close(*old(w)) + text_element(name@, value@));
    Ok(())
}

/// Writes the `url` element of an entry.
fn write_entry(w: &mut EventWriter<Vec<u8>>, entry: &SiteMapData) -> (r: Result<(), SitemapError>)
    requires
        declared(*old(w)),
    ensures
        r is Ok,
        written(*final(w)) == written(*old(w)) + tag_close(*old(w)) + url_element(entry@),
        open_elements(*final(w)) == open_elements(*old(w)),
        !tag_pending(*final(w)),
        declared(*final(w)),
{
    write_start(w, "url")?;
    write_element(w, "loc", entry.loc.as_str())?;
    write_element(w, "lastmod", entry.lastmod.as_str())?;
    write_element(w, "changefreq", entry.changefreq.as_str())?;
    write_end(w)?;
    assert(open_elements(*w) =~= open_elements(*old(w)));
    assert(written(*w) =~= written(*old(w)) + tag_close(*old(w)) + url_element(entry@));
    Ok(())
}

/// Writes the XML declaration and starts the root element.
fn write_xml_header(w: &mut EventWriter<Vec<u8>>) -> (r: Result<(), SitemapError>)
    requires
        written(*old(w)) == Seq::<char>::empty(),
        open_elements(*old(w)) == Seq::<Seq<char>>::empty(),
        !tag_pending(*old(w)),
        !declared(*old(w)),
    ensures
        r is Ok,
        written(*final(w)) == document_head(),
        open_elements(*final(w)) == seq!["urlset"@],
        tag_pending(*final(w)),
        declared(*final(w)),
{
    write_declaration(w, "UTF-8")?;
    proof {
        reveal_strlit("http://www.sitemaps.org/schemas/sitemap/0.9");
    }
    write_root_start(w, "urlset", SITEMAP_XMLNS)?;
    assert(open_elements(*w) =~= seq!["urlset"@]);
    assert(written(*w) =~= document_head());
    Ok(())
}

/// A sitemap: entries in the order in which they were added, never more
/// than [`MAX_URLS`] of them.
#[derive(Debug)]
pub struct Sitemap {
    entries: Vec<SiteMapData>,
}

impl View for Sitemap {
    type V = Seq<EntryView>;

    closed spec fn view(&self) -> Seq<EntryView> {
        entry_views(self.entries@)
    }
}

impl Default for Sitemap {
    fn default() -> (sitemap: Sitemap)
        ensures
            sitemap@ == Seq::<EntryView>::empty(),
    {
        Sitemap::new()
    }
}

impl Clone for Sitemap {
    fn clone(&self) -> (sitemap: Sitemap)
        ensures
            sitemap@ == self@,
    {
        proof {
            use_type_invariant(self);
        }
        let mut entries: Vec<SiteMapData> = Vec::with_capacity(self.entries.len());
        let mut i: usize = 0;
        while i < self.entries.len()
            invariant
                i <= self.entries.len(),
                self.entries@.len() <= MAX_URLS,
                entries@.len() == i,
                entry_views(entries@) == entry_views(self.entries@).take(i as int),
            decreases self.entries.len() - i,
        {
            let ghost copied = entries@;
            entries.push(self.entries[i].clone());
            assert forall|k: int| 0 <= k < i + 1 implies entry_views(entries@)[k] == entry_views(
                self.entries@,
            ).take(i + 1)[k] by {
                if k < i {
                    assert(entry_views(copied)[k] == entry_views(self.entries@).take(i as int)[k]);
                }
            }
            assert(entry_views(entries@) =~= entry_views(self.entries@).take(i + 1));
            i += 1;
        }
        assert(entry_views(self.entries@).take(i as int) =~= entry_views(self.entries@));
        assert(entries@.len() == entry_views(entries@).len());
        Sitemap { entries }
    }
}

/// Calls `Vec::capacity`, which is never less than the length.
#[verifier::external_body]
fn vec_capacity(entries: &Vec<SiteMapData>) -> (capacity: usize)
    ensures
        capacity >= entries@.len(),
{
    entries.capacity()
}

impl Sitemap {
    #[verifier::type_invariant]
    spec fn within_limit(self) -> bool {
        self.entries@.len() <= MAX_URLS
    }

    /// Makes an empty sitemap.
    pub fn new() -> (sitemap: Sitemap)
        ensures
            sitemap@ == Seq::<EntryView>::empty(),
    {
        let sitemap = Sitemap { entries: Vec::new() };
        assert(sitemap@ =~= Seq::<EntryView>::empty());
        sitemap
    }

    /// Makes an empty sitemap with room for `capacity` entries, or for
    /// [`MAX_URLS`] where that is less.
    pub fn with_capacity(capacity: usize) -> (sitemap: Sitemap)
        ensures
            sitemap@ == Seq::<EntryView>::empty(),
    {
        let room = if capacity < MAX_URLS {
            capacity
        } else {
            MAX_URLS
        };
        let sitemap = Sitemap { entries: Vec::with_capacity(room) };
        assert(sitemap@ =~= Seq::<EntryView>::empty());
        sitemap
    }

    /// The number of entries that the sitemap has room for before it
    /// allocates again.
    pub fn capacity(&self) -> (capacity: usize)
        ensures
            capacity >= self@.len(),
    {
        vec_capacity(&self.entries)
    }

    /// The number of entries.
    pub fn len(&self) -> (count: usize)
        ensures
            count == self@.len(),
            count <= MAX_URLS,
    {
        proof {
            use_type_invariant(self);
        }
        self.entries.len()
    }

    /// Whether the sitemap has no entries.
    pub fn is_empty(&self) -> (empty: bool)
        ensures
            empty == (self@.len() == 0),
    {
        self.entries.len() == 0
    }

    /// The entry at a position, counted from 0 in the order of adding.
    pub fn get(&self, index: usize) -> (entry: Option<&SiteMapData>)
        ensures
            match entry {
                Some(e) => index < self@.len() && e@ == self@[index as int],
                None => index >= self@.len(),
            },
    {
        if index < self.entries.len() {
            Some(&self.entries[index])
        } else {
            None
        }
    }

    /// Adds an entry at the end.
    ///
    /// A sitemap that already holds [`MAX_URLS`] entries stays as it is, and
    /// the error reports that count.
    pub fn add_entry(&mut self, entry: SiteMapData) -> (r: Result<(), SitemapError>)
        ensures
            final(self)@ == added(old(self)@, entry@),
            accepts(old(self)@) ==> r is Ok,
            !accepts(old(self)@) ==> r == Err::<(), SitemapError>(
                SitemapError::MaxUrlLimitExceeded(MAX_URLS),
            ),
    {
        proof {
            use_type_invariant(&*self);
        }
        if self.entries.len() >= MAX_URLS {
            return Err(SitemapError::MaxUrlLimitExceeded(self.entries.len()));
        }
        // The vector grows outside the collection, which is within its limit
        // at every point.
        let mut entries: Vec<SiteMapData> = Vec::new();
        core::mem::swap(&mut self.entries, &mut entries);
        entries.push(entry);
        core::mem::swap(&mut self.entries, &mut entries);
        assert(self@ =~= old(self)@.push(entry@));
        Ok(())
    }

    /// Adds entries at the end, one after the other.
    ///
    /// The first entry that the sitemap cannot take ends the call with its
    /// error; the entries before it stay in the sitemap.
    pub fn add_entries(&mut self, entries: Vec<SiteMapData>) -> (r: Result<(), SitemapError>)
        ensures
            final(self)@ == added_all(old(self)@, entry_views(entries@)),
            final(self)@ == old(self)@ + entry_views(entries@).take(
                admitted(old(self)@.len(), entries@.len()),
            ),
            old(self)@.len() + entries@.len() <= MAX_URLS ==> r is Ok,
            old(self)@.len() + entries@.len() > MAX_URLS ==> r == Err::<(), SitemapError>(
                SitemapError::MaxUrlLimitExceeded(MAX_URLS),
            ),
    {
        proof {
            use_type_invariant(&*self);
        }
        let ghost all = entry_views(entries@);
        let ghost start = old(self)@;
        proof {
            lemma_added_all(start, all);
        }
        assert(self@ =~= start + all.take(0));
        for entry in it: entries
            invariant
                all == entry_views(it.seq()),
                all == entry_views(entries@),
                start == old(self)@,
                start.len() <= MAX_URLS,
                added_all(start, all) == start + all.take(admitted(start.len(), all.len())),
                start.len() + it.index() <= MAX_URLS,
                self@ == start + all.take(it.index() as int),
        {
            let ghost before = self@;
            let ghost done = it.index() as int;
            assert(all[done] == entry@);
            match self.add_entry(entry) {
                Ok(()) => {
                    assert(self@ =~= start + all.take(done + 1));
                },
                Err(e) => {
                    assert(done == admitted(start.len(), all.len()));
                    return Err(e);
                },
            }
        }
        assert(all.take(all.len() as int) =~= all);
        Ok(())
    }

    /// Renders the sitemap as an XML document.
    ///
    /// The document is returned where it is at most [`MAX_SITEMAP_SIZE`]
    /// bytes long; a larger one is discarded.
    pub fn to_xml(&self) -> (r: Result<String, SitemapError>)
        ensures
            match r {
                Ok(xml) => xml@ == document(self@) && document_size(self@) <= MAX_SITEMAP_SIZE,
                Err(e) => e is SitemapTooLarge && document_size(self@) > MAX_SITEMAP_SIZE,
            },
    {
        proof {
            use_type_invariant(self);
        }
        let estimated_size = self.entries.len() * 300;
        let mut writer = new_writer(estimated_size);
        write_xml_header(&mut writer)?;
        let mut i: usize = 0;
        while i < self.entries.len()
            invariant
                i <= self.entries.len(),
                written(writer) == document_prefix(self@, i as int),
                open_elements(writer) == seq!["urlset"@],
                tag_pending(writer) == (i == 0),
                declared(writer),
            decreases self.entries.len() - i,
        {
            write_entry(&mut writer, &self.entries[i])?;
            proof {
                assert(self@[i as int] == self.entries[i as int]@);
                lemma_prefix_grows(self@, i as int);
            }
            i += 1;
        }
        write_end(&mut writer)?;
        proof {
            assert(self@.take(i as int) =~= self@);
            assert(written(writer) =~= document(self@));
            encode_utf8_valid_utf8(document(self@));
            encode_utf8_decode_utf8(document(self@));
        }
        let bytes = into_bytes(writer);
        assert(bytes.len() == document_size(self@));
        let xml = match text_from_utf8(bytes) {
            Ok(xml) => xml,
            Err(e) => {
                return Err(SitemapError::EncodingError(e));
            },
        };
        if xml.as_str().len() > MAX_SITEMAP_SIZE {
            return Err(SitemapError::SitemapTooLarge);
        }
        Ok(xml)
    }
}

/// The text that a mapping holds under a key.
pub open spec fn field(metadata: Map<Seq<char>, String>, key: Seq<char>) -> Option<Seq<char>> {
    if metadata.contains_key(key) {
        Some(metadata[key]@)
    } else {
        None
    }
}

/// What becomes of the metadata of a page.
pub enum EntryOutcome {
    /// The entry that the metadata describe.
    Entry(EntryView),
    /// The text under `changefreq`, which is no change frequency.
    BadFrequency(Seq<char>),
    /// The metadata hold no `permalink`.
    MissingPermalink,
    /// The text under `permalink` is no absolute URL.
    BadPermalink,
}

/// The entry that the metadata of a page describe, or the first thing that
/// is wrong with them.
///
/// The date under `last_build_date` is converted, an absent one counting as
/// empty. The frequency under `changefreq` is parsed, an absent one counting
/// as weekly. The URL under `permalink` is parsed and must be there.
pub open spec fn entry_outcome(metadata: Map<Seq<char>, String>) -> EntryOutcome {
    let lastmod = converted_date(
        match field(metadata, "last_build_date"@) {
            Some(text) => text,
            None => Seq::empty(),
        },
    );
    let changefreq = match field(metadata, "changefreq"@) {
        Some(text) => ChangeFreq::parsed(text),
        None => Some(ChangeFreq::Weekly),
    };
    match changefreq {
        None => EntryOutcome::BadFrequency(field(metadata, "changefreq"@).unwrap()),
        Some(changefreq) => match field(metadata, "permalink"@) {
            None => EntryOutcome::MissingPermalink,
            Some(text) => match parsed_url(text) {
                None => EntryOutcome::BadPermalink,
                Some(loc) => EntryOutcome::Entry(EntryView { changefreq, lastmod, loc }),
            },
        },
    }
}

/// Makes a sitemap entry of the metadata of a page.
///
/// Read are the keys `last_build_date`, `changefreq` and `permalink`; only
/// the last must be there.
pub fn create_site_map_data(metadata: &StringHashMap<String>) -> (r: Result<
    SiteMapData,
    SitemapError,
>)
    ensures
        match entry_outcome(metadata@) {
            EntryOutcome::Entry(entry) => r is Ok && r->Ok_0@ == entry,
            EntryOutcome::BadFrequency(text) => r is Err && r->Err_0.rejects_frequency(text),
            EntryOutcome::MissingPermalink => r is Err && r->Err_0.is_custom(
                "Missing permalink in metadata"@,
            ),
            EntryOutcome::BadPermalink => r is Err && r->Err_0 is UrlError,
        },
{
    let lastmod = match metadata.get("last_build_date") {
        Some(text) => convert_date_format(text.as_str()),
        None => {
            proof {
                reveal_strlit("");
                assert(""@ =~= Seq::<char>::empty());
            }
            convert_date_format("")
        },
    };
    let changefreq = match metadata.get("changefreq") {
        Some(text) => match ChangeFreq::parse(text.as_str()) {
            Ok(freq) => freq,
            Err(e) => {
                return Err(e);
            },
        },
        None => ChangeFreq::Weekly,
    };
    let permalink = match metadata.get("permalink") {
        Some(text) => text,
        None => {
            return Err(SitemapError::CustomError("Missing permalink in metadata".to_owned()));
        },
    };
    let loc = match PageUrl::parse(permalink.as_str()) {
        Ok(loc) => loc,
        Err(e) => {
            return Err(SitemapError::UrlError(e));
        },
    };
    Ok(SiteMapData::new(loc, lastmod, changefreq))
}

} // verus!
