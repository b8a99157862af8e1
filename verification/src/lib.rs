//! XML sitemap generation with verified limits.
//!
//! The crate builds a sitemap document from a bounded collection of page
//! entries. Entry count and document size are held to the limits of the
//! Sitemaps protocol, and URLs are brought to a canonical form before they
//! are admitted.

pub mod config;
pub mod date;
pub mod error;
pub mod location;
pub mod markup;
pub mod prelude;
pub mod sitemap;
pub mod text;
pub mod utils;

pub use config::{MAX_SITEMAP_SIZE, MAX_URLS, SITEMAP_XMLNS, VERSION};
pub use date::{convert_date_format, CalendarDate};
pub use error::{SitemapError, SitemapResult};
pub use location::PageUrl;
pub use sitemap::{create_site_map_data, ChangeFreq, SiteMapData, Sitemap};
pub use vstd::hash_map::StringHashMap;
