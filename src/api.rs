//! The joke service client's data: the joke and where to fetch it.

use vstd::prelude::*;

verus! {

/// One joke, as the joke service returns it.
pub struct Chuck {
    pub value: String,
}

/// Where the joke service is.
pub struct ChuckConfig {
    pub url: String,
}

/// A client of the joke service.
pub struct ChuckApiServiceImpl {
    config: ChuckConfig,
}

impl ChuckApiServiceImpl {
    /// The address the client fetches from.
    pub closed spec fn url_view(&self) -> Seq<char> {
        self.config.url@
    }

    pub fn new(config: ChuckConfig) -> (r: ChuckApiServiceImpl)
        ensures
            r.url_view() == config.url@,
    {
        ChuckApiServiceImpl { config }
    }

    /// The address the client fetches from.
    pub fn url(&self) -> (r: &str)
        ensures
            r@ == self.url_view(),
    {
        self.config.url.as_str()
    }
}

} // verus!
