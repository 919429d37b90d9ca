use vstd::prelude::*;

verus! {

/// The HTTP methods the remote services are called with.
#[derive(Clone, Copy, Debug, PartialEq, Eq)]
pub enum RequestMethod {
    GET,
    POST,
    DELETE,
}

/// The body types sent to the remote services.
#[derive(Clone, Copy, Debug, PartialEq, Eq)]
pub enum ContentType {
    JSON,
}

impl ContentType {
    /// The media type, as sent in a `Content-Type` header.
    pub fn as_str(&self) -> (r: &'static str)
        ensures
            r@ == "application/json"@,
    {
        match self {
            ContentType::JSON => "application/json",
        }
    }
}

/// One decoded page of a remote collection that is split into pages of a
/// fixed size, each reachable from the request that produced the first.
pub trait Pagination {
    /// The number of entries on a full page.
    spec fn spec_page_limit(&self) -> u64;

    /// The request for the page at `page_index`, derived from the first
    /// page's request `url` and nothing else.
    spec fn spec_pagination_url(&self, url: Seq<char>, page_index: u64) -> Seq<char>;

    fn page_limit(&self) -> (r: u64)
        ensures
            r == self.spec_page_limit(),
            r > 0,
    ;

    fn get_pagination_url(&self, url: &str, page_index: &u64) -> (r: String)
        ensures
            r@ == self.spec_pagination_url(url@, *page_index),
    ;

    /// The request for the following page, absent on the last page.
    spec fn spec_next(&self) -> Option<String>;

    fn next(&self) -> (r: &Option<String>)
        ensures
            *r == self.spec_next(),
    ;
}

/// A decoded page together with the request that produced it.
pub struct APIResult<T> {
    pub url: String,
    pub response: T,
}

impl<T: Pagination> APIResult<T> {
    /// The request for the page that holds the entry at `entry_index`.
    pub fn page_url_for_index(&self, entry_index: u64) -> (r: String)
        ensures
            self.response.spec_page_limit() > 0,
            r@ == self.response.spec_pagination_url(
                self.url@,
                entry_index / self.response.spec_page_limit(),
            ),
    {
        let page_index = entry_index / self.response.page_limit();
        self.response.get_pagination_url(self.url.as_str(), &page_index)
    }
}

} // verus!
