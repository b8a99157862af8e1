//! The items that most users of the crate need.

pub use crate::config::{MAX_SITEMAP_SIZE, MAX_URLS};
pub use crate::error::{SitemapError, SitemapResult};
pub use crate::location::PageUrl;
pub use crate::sitemap::{ChangeFreq, SiteMapData, Sitemap};
