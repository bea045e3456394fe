//! The failure taxonomy of feed resolution.

use vstd::prelude::*;

verus! {

/// A failed resolution: why no feed URL could be produced.
#[derive(Debug)]
pub enum RssGenError {
    /// Underlying transport or file failure, carrying the lower-level cause.
    Io(String),
    /// The provided URL is malformed, or unreachable during a required fetch.
    InvalidUrl(String),
    /// The site category is not recognized.
    UnknownSiteType(String),
    /// Every discovery strategy was exhausted without finding a feed.
    RssNotFound(String),
}

/// The mathematical image of an [`RssGenError`]: the same variants over
/// character sequences.
pub enum RssGenErrorView {
    Io(Seq<char>),
    InvalidUrl(Seq<char>),
    UnknownSiteType(Seq<char>),
    RssNotFound(Seq<char>),
}

impl View for RssGenError {
    type V = RssGenErrorView;

    open spec fn view(&self) -> RssGenErrorView {
        match self {
            RssGenError::Io(s) => RssGenErrorView::Io(s@),
            RssGenError::InvalidUrl(s) => RssGenErrorView::InvalidUrl(s@),
            RssGenError::UnknownSiteType(s) => RssGenErrorView::UnknownSiteType(s@),
            RssGenError::RssNotFound(s) => RssGenErrorView::RssNotFound(s@),
        }
    }
}

impl DeepView for RssGenError {
    type V = RssGenErrorView;

    open spec fn deep_view(&self) -> RssGenErrorView {
        self.view()
    }
}

/// The mathematical image of a whole resolution result.
pub open spec fn result_view(r: Result<String, RssGenError>) -> Result<Seq<char>, RssGenErrorView> {
    match r {
        Ok(s) => Ok(s@),
        Err(e) => Err(e@),
    }
}

impl RssGenError {
    /// The user-facing description of the failure.
    pub open spec fn spec_message(&self) -> Seq<char> {
        match self {
            RssGenError::Io(s) => "IO error: "@ + s@,
            RssGenError::InvalidUrl(s) => "Invalid URL: "@ + s@,
            RssGenError::UnknownSiteType(s) => "Unknown site type: "@ + s@,
            RssGenError::RssNotFound(s) => "RSS feed not found for: "@ + s@,
        }
    }

    /// Renders the failure as one human-readable line.
    pub fn message(&self) -> (r: String)
        ensures
            r@ == self.spec_message(),
    {
        match self {
            RssGenError::Io(s) => String::from_str("IO error: ").concat(s.as_str()),
            RssGenError::InvalidUrl(s) => String::from_str("Invalid URL: ").concat(s.as_str()),
            RssGenError::UnknownSiteType(s) => String::from_str("Unknown site type: ").concat(
                s.as_str(),
            ),
            RssGenError::RssNotFound(s) => String::from_str("RSS feed not found for: ").concat(
                s.as_str(),
            ),
        }
    }
}

} // verus!
