//! Limits and names fixed by the Sitemaps protocol.

use vstd::prelude::*;

verus! {

/// Largest size of a rendered sitemap, in bytes (10 MiB).
pub const MAX_SITEMAP_SIZE: usize = 10485760;

/// Largest number of entries in one sitemap.
pub const MAX_URLS: usize = 50000;

/// Default XML namespace of a sitemap document.
pub const SITEMAP_XMLNS: &'static str = "http://www.sitemaps.org/schemas/sitemap/0.9";

/// Version of the crate.
pub const VERSION: &'static str = "0.1.0";

} // verus!
