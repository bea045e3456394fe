//! The resolution engine: a state machine that dispatches a URL and its
//! category to the right strategy and, for the strategies that need the live
//! site, asks its driver to perform one fetch at a time. The driver performs
//! the fetch and hands back a [`FetchOutcome`]; every decision in between is
//! made here.

use vstd::prelude::*;
use vstd::pervasive::unreached;
use crate::error::{RssGenError, RssGenErrorView, result_view};
use crate::site_type::SiteType;
use crate::rss_gen::{
    spec_substack_rss, spec_telegram_rss, spec_bitchute_rss, spec_odysee_rss, spec_rumble_rss,
    spec_youtube_channel_feed, substack_rss, telegram_rss, bitchute_rss, odysee_rss, rumble_rss,
    youtube_channel_feed,
};
use crate::html::{
    spec_extract_feed_link, spec_extract_meta_content, spec_extract_channel_id,
    spec_extract_youtube_rss_link, spec_anchor_hrefs, extract_feed_link, extract_meta_content,
    extract_channel_id, extract_youtube_rss_link, extract_anchor_hrefs,
};
use crate::text::{
    contains_seq, ends_with, starts_with, lower_seq, trim_end_slashes, to_chars, contains_chars,
    ends_with_chars, starts_with_chars, lower_chars, trim_end_len,
};
use vstd::string::StrSliceExecFns;

verus! {

/// What the driver reports back for one fetch it was asked to perform.
pub enum FetchOutcome {
    /// The fetch failed before any response arrived.
    Failed,
    /// A response arrived: whether its status was a success, its content-type
    /// header (empty when absent or unreadable), and its body, when it could
    /// be read.
    Response { success: bool, content_type: String, body: Option<String> },
}

/// The mathematical image of a fetch outcome.
pub enum OutcomeView {
    Failed,
    Response { success: bool, content_type: Seq<char>, body: Option<Seq<char>> },
}

impl View for FetchOutcome {
    type V = OutcomeView;

    open spec fn view(&self) -> OutcomeView {
        match self {
            FetchOutcome::Failed => OutcomeView::Failed,
            FetchOutcome::Response { success, content_type, body } => OutcomeView::Response {
                success: *success,
                content_type: content_type@,
                body: body.deep_view(),
            },
        }
    }
}

impl DeepView for FetchOutcome {
    type V = OutcomeView;

    open spec fn deep_view(&self) -> OutcomeView {
        self.view()
    }
}

/// The mathematical image of a resolution in progress.
pub enum ResolutionView {
    /// Pattern probing: trying constructed candidate URLs, the one at `idx`
    /// next.
    Probing { url: Seq<char>, cands: Seq<Seq<char>>, idx: int },
    /// Fetching the site page itself, for the alternate-link and anchor
    /// scans.
    PageFetch { url: Seq<char> },
    /// Probing the candidates scraped from the page, the one at `idx` next.
    LinkProbing { url: Seq<char>, cands: Seq<Seq<char>>, idx: int },
    /// Video-platform live discovery: fetching the channel page.
    ChannelFetch { url: Seq<char> },
    /// The resolution has ended.
    Finished { result: Result<Seq<char>, RssGenErrorView> },
}

/// The fixed, ordered feed-path suffixes of the pattern-probing tier.
pub open spec fn spec_probe_suffixes() -> Seq<Seq<char>> {
    seq!["/feed"@, "/feed/"@, "/rss"@, "/rss.xml"@, "/atom.xml"@, "/index.xml"@]
}

/// One probing candidate: the base itself when it already ends with the
/// suffix, else the base with the suffix appended.
pub open spec fn spec_probe_candidate(base: Seq<char>, suffix: Seq<char>) -> Seq<char> {
    if ends_with(base, suffix) {
        base
    } else {
        base + suffix
    }
}

/// The pattern-probing candidates of a URL, in probing order.
pub open spec fn spec_tier1_candidates(url: Seq<char>) -> Seq<Seq<char>> {
    let base = trim_end_slashes(url);
    spec_probe_suffixes().map_values(|suffix: Seq<char>| spec_probe_candidate(base, suffix))
}

/// A probe response accepts its candidate: a success status whose
/// content-type names a feed form, or, failing that, whose body holds an
/// opening feed tag.
pub open spec fn spec_probe_accepts(o: OutcomeView) -> bool {
    match o {
        OutcomeView::Failed => false,
        OutcomeView::Response { success, content_type, body } => success && (contains_seq(
            content_type,
            "xml"@,
        ) || contains_seq(content_type, "rss"@) || contains_seq(content_type, "atom"@) || (
        match body {
            Some(b) => contains_seq(b, "<rss"@) || contains_seq(b, "<feed"@),
            None => false,
        })),
    }
}

/// The alternate-link scan of a fetched page: the RSS link wins over the
/// Atom link when both are present.
pub open spec fn spec_scan_alternate(body: Seq<char>) -> Option<Seq<char>> {
    match spec_extract_feed_link(body, "application/rss+xml"@) {
        Some(h) => Some(h),
        None => spec_extract_feed_link(body, "application/atom+xml"@),
    }
}

/// An anchor `href` that looks like a feed: its lower-cased form mentions a
/// feed format or ends in an XML extension.
pub open spec fn spec_href_feedish(h: Seq<char>) -> bool {
    contains_seq(lower_seq(h), "rss"@) || contains_seq(lower_seq(h), "atom"@) || ends_with(
        lower_seq(h),
        ".xml"@,
    )
}

/// An `href` made absolute against the site URL: scheme-qualified values are
/// kept, rooted values are joined to the trimmed base, and anything else is
/// joined with a separating slash.
pub open spec fn spec_absolutize(url: Seq<char>, h: Seq<char>) -> Seq<char> {
    if starts_with(h, "http"@) {
        h
    } else if h.len() > 0 && h[0] == '/' {
        trim_end_slashes(url) + h
    } else {
        trim_end_slashes(url) + "/"@ + h
    }
}

/// The feed-looking hrefs of a page, made absolute, in document order.
pub open spec fn spec_candidates_of(url: Seq<char>, hrefs: Seq<Seq<char>>) -> Seq<Seq<char>>
    decreases hrefs.len(),
{
    if hrefs.len() == 0 {
        seq![]
    } else {
        let rest = spec_candidates_of(url, hrefs.drop_first());
        if spec_href_feedish(hrefs.first()) {
            seq![spec_absolutize(url, hrefs.first())] + rest
        } else {
            rest
        }
    }
}

/// The probing candidates of the generalized anchor scan.
pub open spec fn spec_tier3_candidates(url: Seq<char>, body: Seq<char>) -> Seq<Seq<char>> {
    spec_candidates_of(url, spec_anchor_hrefs(body))
}

/// The feed URL a fetched channel page yields: the first feed-typed link
/// tag, else a channel identifier from a meta tag, else a marker-adjacent
/// identifier, the identifiers substituted into the feed template.
pub open spec fn spec_youtube_scan(url: Seq<char>, body: Seq<char>) -> Result<
    Seq<char>,
    RssGenErrorView,
> {
    match spec_extract_youtube_rss_link(body) {
        Some(h) => Ok(h),
        None => match spec_extract_meta_content(body, "itemprop=\"channelId\""@) {
            Some(id) => Ok("https://www.youtube.com/feeds/videos.xml?channel_id="@ + id),
            None => match spec_extract_channel_id(body) {
                Some(id) => Ok("https://www.youtube.com/feeds/videos.xml?channel_id="@ + id),
                None => Err(RssGenErrorView::RssNotFound(url)),
            },
        },
    }
}

/// The state a resolution starts in, decided by the category alone: the pure
/// strategies finish at once, the live ones ask for their first fetch.
pub open spec fn spec_start(url: Seq<char>, category: SiteType) -> ResolutionView {
    match category {
        SiteType::YouTube => match spec_youtube_channel_feed(url) {
            Some(feed) => ResolutionView::Finished { result: Ok(feed) },
            None => ResolutionView::ChannelFetch { url },
        },
        SiteType::Substack => ResolutionView::Finished { result: spec_substack_rss(url) },
        SiteType::Telegram => ResolutionView::Finished { result: spec_telegram_rss(url) },
        SiteType::Odysee => ResolutionView::Finished { result: spec_odysee_rss() },
        SiteType::Bitchute => ResolutionView::Finished { result: spec_bitchute_rss(url) },
        SiteType::Rumble => ResolutionView::Finished { result: spec_rumble_rss() },
        SiteType::Blog => ResolutionView::Probing {
            url,
            cands: spec_tier1_candidates(url),
            idx: 0,
        },
        SiteType::Unknown => ResolutionView::Finished {
            result: Err(RssGenErrorView::UnknownSiteType(url)),
        },
    }
}

/// The URL the resolution needs fetched next, if it is not yet finished.
pub open spec fn spec_pending(v: ResolutionView) -> Option<Seq<char>> {
    match v {
        ResolutionView::Probing { cands, idx, .. } => if 0 <= idx < cands.len() {
            Some(cands[idx])
        } else {
            None
        },
        ResolutionView::PageFetch { url } => Some(url),
        ResolutionView::LinkProbing { cands, idx, .. } => if 0 <= idx < cands.len() {
            Some(cands[idx])
        } else {
            None
        },
        ResolutionView::ChannelFetch { url } => Some(url),
        ResolutionView::Finished { .. } => None,
    }
}

/// One step of the resolution: how the state reacts to the outcome of the
/// fetch it asked for. A finished resolution no longer moves.
pub open spec fn spec_advance(v: ResolutionView, o: OutcomeView) -> ResolutionView {
    match v {
        ResolutionView::Probing { url, cands, idx } => {
            if spec_probe_accepts(o) {
                ResolutionView::Finished { result: Ok(cands[idx]) }
            } else if idx + 1 < cands.len() {
                ResolutionView::Probing { url, cands, idx: idx + 1 }
            } else {
                ResolutionView::PageFetch { url }
            }
        },
        ResolutionView::PageFetch { url } => match o {
            OutcomeView::Failed => ResolutionView::Finished {
                result: Err(RssGenErrorView::InvalidUrl(url)),
            },
            OutcomeView::Response { body, .. } => match body {
                None => ResolutionView::Finished {
                    result: Err(RssGenErrorView::RssNotFound(url)),
                },
                Some(b) => match spec_scan_alternate(b) {
                    Some(h) => ResolutionView::Finished { result: Ok(h) },
                    None => {
                        let cands = spec_tier3_candidates(url, b);
                        if cands.len() == 0 {
                            ResolutionView::Finished {
                                result: Err(RssGenErrorView::RssNotFound(url)),
                            }
                        } else {
                            ResolutionView::LinkProbing { url, cands, idx: 0 }
                        }
                    },
                },
            },
        },
        ResolutionView::LinkProbing { url, cands, idx } => {
            let ok = match o {
                OutcomeView::Response { success, .. } => success,
                _ => false,
            };
            if ok {
                ResolutionView::Finished { result: Ok(cands[idx]) }
            } else if idx + 1 < cands.len() {
                ResolutionView::LinkProbing { url, cands, idx: idx + 1 }
            } else {
                ResolutionView::Finished { result: Err(RssGenErrorView::RssNotFound(url)) }
            }
        },
        ResolutionView::ChannelFetch { url } => match o {
            OutcomeView::Failed => ResolutionView::Finished {
                result: Err(RssGenErrorView::InvalidUrl(url)),
            },
            OutcomeView::Response { body, .. } => match body {
                None => ResolutionView::Finished {
                    result: Err(RssGenErrorView::RssNotFound(url)),
                },
                Some(b) => ResolutionView::Finished { result: spec_youtube_scan(url, b) },
            },
        },
        ResolutionView::Finished { result } => ResolutionView::Finished { result },
    }
}

/// The state a resolution reaches after a sequence of fetch outcomes.
pub open spec fn spec_run(v: ResolutionView, outcomes: Seq<OutcomeView>) -> ResolutionView
    decreases outcomes.len(),
{
    if outcomes.len() == 0 || v is Finished {
        v
    } else {
        spec_run(spec_advance(v, outcomes.first()), outcomes.drop_first())
    }
}

/// The state a whole resolution of `url` under `category` reaches after a
/// sequence of fetch outcomes.
pub open spec fn spec_resolve(
    url: Seq<char>,
    category: SiteType,
    outcomes: Seq<OutcomeView>,
) -> ResolutionView {
    spec_run(spec_start(url, category), outcomes)
}

/// Decides whether a probe response accepts its candidate.
fn probe_accepts(o: &FetchOutcome) -> (b: bool)
    ensures
        b == spec_probe_accepts(o@),
{
    match o {
        FetchOutcome::Failed => false,
        FetchOutcome::Response { success, content_type, body } => {
            if !*success {
                return false;
            }
            let ct = to_chars(content_type.as_str());
            if contains_chars(&ct, &to_chars("xml")) || contains_chars(&ct, &to_chars("rss"))
                || contains_chars(&ct, &to_chars("atom")) {
                return true;
            }
            match body {
                Some(b) => {
                    let bv = to_chars(b.as_str());
                    contains_chars(&bv, &to_chars("<rss")) || contains_chars(
                        &bv,
                        &to_chars("<feed"),
                    )
                },
                None => false,
            }
        },
    }
}

/// Scans a page body for an alternate feed link, preferring the RSS type
/// over the Atom type.
pub fn scan_alternate_links(body: &str) -> (r: Option<String>)
    ensures
        r.deep_view() == spec_scan_alternate(body@),
{
    match extract_feed_link(body, "application/rss+xml") {
        Some(h) => Some(h),
        None => extract_feed_link(body, "application/atom+xml"),
    }
}

/// Makes a scraped `href` absolute against the site URL.
fn absolutize(url: &str, href: &str) -> (r: String)
    ensures
        r@ == spec_absolutize(url@, href@),
{
    let hv = to_chars(href);
    if starts_with_chars(&hv, &to_chars("http")) {
        return String::from_str(href);
    }
    let uv = to_chars(url);
    let e = trim_end_len(&uv);
    let base = url.substring_char(0, e);
    proof {
        assert(uv@.subrange(0, e as int) =~= trim_end_slashes(url@));
    }
    if hv.len() > 0 && hv[0] == '/' {
        String::from_str(base).concat(href)
    } else {
        String::from_str(base).concat("/").concat(href)
    }
}

/// Collects the feed-looking anchor candidates of a page, made absolute, in
/// document order.
pub fn tier3_candidates(url: &str, body: &str) -> (r: Vec<String>)
    ensures
        r.deep_view() == spec_tier3_candidates(url@, body@),
{
    let hrefs = extract_anchor_hrefs(body);
    let ghost hs = hrefs.deep_view();
    let n = hrefs.len();
    let mut out: Vec<String> = Vec::new();
    let mut i: usize = 0;
    proof {
        assert(hs.skip(0) =~= hs);
        assert(out.deep_view() + spec_candidates_of(url@, hs.skip(0)) =~= spec_candidates_of(
            url@,
            hs,
        ));
    }
    while i < n
        invariant
            n == hrefs@.len(),
            i <= n,
            hrefs.deep_view() == hs,
            hs == spec_anchor_hrefs(body@),
            spec_candidates_of(url@, hs) == out.deep_view() + spec_candidates_of(
                url@,
                hs.skip(i as int),
            ),
        decreases n - i,
    {
        let h = &hrefs[i];
        let hv = to_chars(h.as_str());
        let l = lower_chars(&hv);
        let feedish = contains_chars(&l, &to_chars("rss")) || contains_chars(&l, &to_chars("atom"))
            || ends_with_chars(&l, &to_chars(".xml"));
        proof {
            assert(hs[i as int] == h@);
            assert(hs.skip(i as int).first() == hs[i as int]);
            assert(hs.skip(i as int).drop_first() =~= hs.skip(i as int + 1));
            assert(feedish == spec_href_feedish(hs[i as int]));
        }
        if feedish {
            let cand = absolutize(url, h.as_str());
            let ghost old_out = out.deep_view();
            out.push(cand);
            proof {
                assert(out.deep_view() =~= old_out + seq![spec_absolutize(url@, hs[i as int])]);
            }
        }
        i += 1;
    }
    proof {
        assert(hs.skip(n as int) =~= Seq::<Seq<char>>::empty());
        assert(spec_candidates_of(url@, hs) =~= out.deep_view());
    }
    out
}

/// Derives the feed URL from a fetched channel page, by the layered link,
/// meta-tag and identifier scans.
pub fn youtube_page_feed(url: &str, body: &str) -> (r: Result<String, RssGenError>)
    ensures
        result_view(r) == spec_youtube_scan(url@, body@),
{
    match extract_youtube_rss_link(body) {
        Some(h) => Ok(h),
        None => match extract_meta_content(body, "itemprop=\"channelId\"") {
            Some(id) => Ok(
                String::from_str("https://www.youtube.com/feeds/videos.xml?channel_id=").concat(
                    id.as_str(),
                ),
            ),
            None => match extract_channel_id(body) {
                Some(id) => Ok(
                    String::from_str("https://www.youtube.com/feeds/videos.xml?channel_id=").concat(
                        id.as_str(),
                    ),
                ),
                None => Err(RssGenError::RssNotFound(String::from_str(url))),
            },
        },
    }
}

/// Builds the pattern-probing candidates of a URL, in probing order.
pub fn tier1_candidates(url: &str) -> (r: Vec<String>)
    ensures
        r.deep_view() == spec_tier1_candidates(url@),
        r@.len() == 6,
{
    let v = to_chars(url);
    let e = trim_end_len(&v);
    let base = url.substring_char(0, e);
    let bv = crate::text::take_prefix(&v, e);
    proof {
        assert(bv@ =~= trim_end_slashes(url@));
        assert(base@ =~= trim_end_slashes(url@));
    }
    let mut out: Vec<String> = Vec::new();
    push_candidate(&mut out, base, &bv, "/feed");
    push_candidate(&mut out, base, &bv, "/feed/");
    push_candidate(&mut out, base, &bv, "/rss");
    push_candidate(&mut out, base, &bv, "/rss.xml");
    push_candidate(&mut out, base, &bv, "/atom.xml");
    push_candidate(&mut out, base, &bv, "/index.xml");
    proof {
        assert(out.deep_view() =~= spec_tier1_candidates(url@));
    }
    out
}

/// Appends one probing candidate for the given suffix.
fn push_candidate(out: &mut Vec<String>, base: &str, bv: &Vec<char>, suffix: &str)
    requires
        base@ == bv@,
    ensures
        final(out).deep_view() == old(out).deep_view() + seq![
            spec_probe_candidate(bv@, suffix@),
        ],
{
    let ghost old_out = out.deep_view();
    let sv = to_chars(suffix);
    if ends_with_chars(bv, &sv) {
        out.push(String::from_str(base));
    } else {
        out.push(String::from_str(base).concat(suffix));
    }
    proof {
        assert(out.deep_view() =~= old_out + seq![spec_probe_candidate(bv@, suffix@)]);
    }
}

/// Which part of the search a resolution is in.
enum Stage {
    Tier1,
    PageFetch,
    Tier3,
    ChannelFetch,
    Done,
}

/// A resolution in progress. Built by [`Resolution::start`]; while
/// [`Resolution::next_fetch`] names a URL, the driver fetches it and hands
/// the outcome to [`Resolution::advance`]; once done, [`Resolution::finish`]
/// yields the result.
pub struct Resolution {
    url: String,
    stage: Stage,
    candidates: Vec<String>,
    idx: usize,
    outcome: Option<Result<String, RssGenError>>,
}

impl View for Resolution {
    type V = ResolutionView;

    closed spec fn view(&self) -> ResolutionView {
        match self.stage {
            Stage::Tier1 => ResolutionView::Probing {
                url: self.url@,
                cands: self.candidates.deep_view(),
                idx: self.idx as int,
            },
            Stage::PageFetch => ResolutionView::PageFetch { url: self.url@ },
            Stage::Tier3 => ResolutionView::LinkProbing {
                url: self.url@,
                cands: self.candidates.deep_view(),
                idx: self.idx as int,
            },
            Stage::ChannelFetch => ResolutionView::ChannelFetch { url: self.url@ },
            Stage::Done => ResolutionView::Finished {
                result: match self.outcome {
                    Some(r) => result_view(r),
                    None => Err(RssGenErrorView::RssNotFound(self.url@)),
                },
            },
        }
    }
}

impl Resolution {
    /// The internal shape a reachable resolution always has: a probing stage
    /// sits at a real candidate, a finished one holds its result.
    pub closed spec fn wf(&self) -> bool {
        match self.stage {
            Stage::Tier1 => (self.idx as int) < self.candidates@.len(),
            Stage::Tier3 => (self.idx as int) < self.candidates@.len(),
            Stage::Done => self.outcome is Some,
            _ => true,
        }
    }

    /// A resolution that is already over.
    fn done_with(url: &str, r: Result<String, RssGenError>) -> (s: Resolution)
        ensures
            s@ == (ResolutionView::Finished { result: result_view(r) }),
            s.wf(),
    {
        Resolution {
            url: String::from_str(url),
            stage: Stage::Done,
            candidates: Vec::new(),
            idx: 0,
            outcome: Some(r),
        }
    }

    /// Starts resolving `url` under `category`. The pure strategies finish
    /// at once; the live ones ask for their first fetch.
    pub fn start(url: &str, category: &SiteType) -> (s: Resolution)
        ensures
            s@ == spec_start(url@, *category),
            s.wf(),
    {
        match category {
            SiteType::YouTube => match youtube_channel_feed(url) {
                Some(feed) => Resolution::done_with(url, Ok(feed)),
                None => Resolution {
                    url: String::from_str(url),
                    stage: Stage::ChannelFetch,
                    candidates: Vec::new(),
                    idx: 0,
                    outcome: None,
                },
            },
            SiteType::Substack => Resolution::done_with(url, substack_rss(url)),
            SiteType::Telegram => Resolution::done_with(url, telegram_rss(url)),
            SiteType::Odysee => Resolution::done_with(url, odysee_rss(url)),
            SiteType::Bitchute => Resolution::done_with(url, bitchute_rss(url)),
            SiteType::Rumble => Resolution::done_with(url, rumble_rss(url)),
            SiteType::Blog => Resolution {
                url: String::from_str(url),
                stage: Stage::Tier1,
                candidates: tier1_candidates(url),
                idx: 0,
                outcome: None,
            },
            SiteType::Unknown => Resolution::done_with(
                url,
                Err(RssGenError::UnknownSiteType(String::from_str(url))),
            ),
        }
    }

    /// Whether the resolution has ended.
    pub fn done(&self) -> (b: bool)
        ensures
            b == (self@ is Finished),
    {
        match self.stage {
            Stage::Done => true,
            _ => false,
        }
    }

    /// The URL the driver must fetch next; `None` once the resolution is
    /// done.
    pub fn next_fetch(&self) -> (r: Option<String>)
        requires
            self.wf(),
        ensures
            r.deep_view() == spec_pending(self@),
    {
        match self.stage {
            Stage::Tier1 => Some(self.candidates[self.idx].clone()),
            Stage::Tier3 => Some(self.candidates[self.idx].clone()),
            Stage::PageFetch => Some(self.url.clone()),
            Stage::ChannelFetch => Some(self.url.clone()),
            Stage::Done => None,
        }
    }

    /// Feeds the outcome of the requested fetch back into the resolution.
    pub fn advance(&mut self, outcome: &FetchOutcome)
        requires
            old(self).wf(),
            !(old(self)@ is Finished),
        ensures
            final(self)@ == spec_advance(old(self)@, outcome@),
            final(self).wf(),
    {
        match self.stage {
            Stage::Tier1 => {
                let n = self.candidates.len();
                if probe_accepts(outcome) {
                    let cand = self.candidates[self.idx].clone();
                    self.stage = Stage::Done;
                    self.outcome = Some(Ok(cand));
                } else if self.idx + 1 < n {
                    self.idx = self.idx + 1;
                } else {
                    self.stage = Stage::PageFetch;
                }
            },
            Stage::PageFetch => {
                match outcome {
                    FetchOutcome::Failed => {
                        self.stage = Stage::Done;
                        self.outcome = Some(Err(RssGenError::InvalidUrl(self.url.clone())));
                    },
                    FetchOutcome::Response { body, .. } => match body {
                        None => {
                            self.stage = Stage::Done;
                            self.outcome = Some(Err(RssGenError::RssNotFound(self.url.clone())));
                        },
                        Some(b) => match scan_alternate_links(b.as_str()) {
                            Some(h) => {
                                self.stage = Stage::Done;
                                self.outcome = Some(Ok(h));
                            },
                            None => {
                                let cands = tier3_candidates(self.url.as_str(), b.as_str());
                                if cands.len() == 0 {
                                    self.stage = Stage::Done;
                                    self.outcome = Some(
                                        Err(RssGenError::RssNotFound(self.url.clone())),
                                    );
                                } else {
                                    self.candidates = cands;
                                    self.idx = 0;
                                    self.stage = Stage::Tier3;
                                }
                            },
                        },
                    },
                }
            },
            Stage::Tier3 => {
                let n = self.candidates.len();
                let ok = match outcome {
                    FetchOutcome::Response { success, .. } => *success,
                    _ => false,
                };
                if ok {
                    let cand = self.candidates[self.idx].clone();
                    self.stage = Stage::Done;
                    self.outcome = Some(Ok(cand));
                } else if self.idx + 1 < n {
                    self.idx = self.idx + 1;
                } else {
                    self.stage = Stage::Done;
                    self.outcome = Some(Err(RssGenError::RssNotFound(self.url.clone())));
                }
            },
            Stage::ChannelFetch => {
                match outcome {
                    FetchOutcome::Failed => {
                        self.stage = Stage::Done;
                        self.outcome = Some(Err(RssGenError::InvalidUrl(self.url.clone())));
                    },
                    FetchOutcome::Response { body, .. } => match body {
                        None => {
                            self.stage = Stage::Done;
                            self.outcome = Some(Err(RssGenError::RssNotFound(self.url.clone())));
                        },
                        Some(b) => {
                            let r = youtube_page_feed(self.url.as_str(), b.as_str());
                            self.stage = Stage::Done;
                            self.outcome = Some(r);
                        },
                    },
                }
            },
            Stage::Done => {
                proof {
                    assert(false);
                }
            },
        }
    }

    /// The result of a finished resolution.
    pub fn finish(self) -> (r: Result<String, RssGenError>)
        requires
            self.wf(),
            self@ is Finished,
        ensures
            (ResolutionView::Finished { result: result_view(r) }) == self@,
    {
        match self.outcome {
            Some(r) => r,
            None => unreached(),
        }
    }
}

/// Runs a whole resolution against a recorded list of fetch outcomes, as a
/// driver would; `None` when the list ends before the resolution does.
pub fn resolve_scripted(url: &str, category: &SiteType, outcomes: &Vec<FetchOutcome>) -> (r: Option<
    Result<String, RssGenError>,
>)
    ensures
        ({
            let fin = spec_resolve(url@, *category, outcomes.deep_view());
            match r {
                Some(res) => fin == (ResolutionView::Finished { result: result_view(res) }),
                None => !(fin is Finished),
            }
        }),
{
    let ghost os = outcomes.deep_view();
    let n = outcomes.len();
    let mut st = Resolution::start(url, category);
    let mut i: usize = 0;
    proof {
        assert(os.skip(0) =~= os);
    }
    while i < n && !st.done()
        invariant
            st.wf(),
            i <= n,
            n == outcomes@.len(),
            outcomes.deep_view() == os,
            spec_resolve(url@, *category, os) == spec_run(st@, os.skip(i as int)),
        decreases n - i,
    {
        proof {
            assert(os.skip(i as int).first() == os[i as int]);
            assert(os.skip(i as int).drop_first() =~= os.skip(i as int + 1));
        }
        st.advance(&outcomes[i]);
        i += 1;
    }
    if st.done() {
        proof {
            assert(spec_run(st@, os.skip(i as int)) == st@);
        }
        Some(st.finish())
    } else {
        proof {
            assert(os.skip(i as int) =~= Seq::<OutcomeView>::empty());
            assert(spec_run(st@, os.skip(i as int)) == st@);
        }
        None
    }
}

/// Tier 1 probes the fixed suffix list in order: for a URL whose trimmed
/// base does not already end in one of the feed suffixes, the candidates are
/// exactly the base followed by each suffix, in the stated order.
pub proof fn lemma_tier1_candidate_order(url: Seq<char>)
    requires
        ({
            let base = trim_end_slashes(url);
            &&& !ends_with(base, "/feed"@)
            &&& !ends_with(base, "/feed/"@)
            &&& !ends_with(base, "/rss"@)
            &&& !ends_with(base, "/rss.xml"@)
            &&& !ends_with(base, "/atom.xml"@)
            &&& !ends_with(base, "/index.xml"@)
        }),
    ensures
        ({
            let base = trim_end_slashes(url);
            spec_tier1_candidates(url) =~= seq![
                base + "/feed"@,
                base + "/feed/"@,
                base + "/rss"@,
                base + "/rss.xml"@,
                base + "/atom.xml"@,
                base + "/index.xml"@,
            ]
        }),
{
    let base = trim_end_slashes(url);
    assert(spec_tier1_candidates(url)[0] == spec_probe_candidate(base, "/feed"@));
    assert(spec_tier1_candidates(url)[1] == spec_probe_candidate(base, "/feed/"@));
    assert(spec_tier1_candidates(url)[2] == spec_probe_candidate(base, "/rss"@));
    assert(spec_tier1_candidates(url)[3] == spec_probe_candidate(base, "/rss.xml"@));
    assert(spec_tier1_candidates(url)[4] == spec_probe_candidate(base, "/atom.xml"@));
    assert(spec_tier1_candidates(url)[5] == spec_probe_candidate(base, "/index.xml"@));
}

/// From a probing state, a run whose first `k` outcomes reject and whose
/// next outcome accepts finishes with the candidate `k` places further on.
proof fn lemma_probing_first_accepted(
    url: Seq<char>,
    cands: Seq<Seq<char>>,
    idx: int,
    outcomes: Seq<OutcomeView>,
    k: int,
)
    requires
        0 <= idx,
        0 <= k < outcomes.len(),
        idx + k < cands.len(),
        forall|j: int| 0 <= j < k ==> !spec_probe_accepts(outcomes[j]),
        spec_probe_accepts(outcomes[k]),
    ensures
        spec_run(ResolutionView::Probing { url, cands, idx }, outcomes) == (
        ResolutionView::Finished { result: Ok::<Seq<char>, RssGenErrorView>(cands[idx + k]) }),
    decreases k,
{
    let v = ResolutionView::Probing { url, cands, idx };
    if k == 0 {
        assert(spec_advance(v, outcomes.first()) == (ResolutionView::Finished {
            result: Ok::<Seq<char>, RssGenErrorView>(cands[idx]),
        }));
    } else {
        assert(!spec_probe_accepts(outcomes[0]));
        assert(spec_advance(v, outcomes.first()) == (ResolutionView::Probing {
            url,
            cands,
            idx: idx + 1,
        }));
        assert(forall|j: int|
            0 <= j < k - 1 ==> outcomes.drop_first()[j] == outcomes[j + 1]
                && !spec_probe_accepts(outcomes[j + 1]));
        lemma_probing_first_accepted(url, cands, idx + 1, outcomes.drop_first(), k - 1);
    }
}

/// Pattern probing returns the first accepted candidate: when the first `k`
/// fetch outcomes of an uncategorized site's resolution reject their
/// candidates and the next outcome accepts, the resolution finishes with the
/// candidate at position `k` of the fixed probing list.
pub proof fn lemma_tier1_first_accepted(url: Seq<char>, outcomes: Seq<OutcomeView>, k: int)
    requires
        0 <= k < spec_tier1_candidates(url).len(),
        k < outcomes.len(),
        forall|j: int| 0 <= j < k ==> !spec_probe_accepts(outcomes[j]),
        spec_probe_accepts(outcomes[k]),
    ensures
        spec_resolve(url, SiteType::Blog, outcomes) == (ResolutionView::Finished {
            result: Ok::<Seq<char>, RssGenErrorView>(spec_tier1_candidates(url)[k]),
        }),
{
    lemma_probing_first_accepted(url, spec_tier1_candidates(url), 0, outcomes, k);
}

/// Resolving the same URL and category twice against an unchanged remote
/// state — the same sequence of fetch outcomes — yields an identical result:
/// the outcome is a function of those inputs alone, with no hidden state.
pub proof fn lemma_resolution_idempotent(
    u1: Seq<char>,
    u2: Seq<char>,
    c1: SiteType,
    c2: SiteType,
    o1: Seq<OutcomeView>,
    o2: Seq<OutcomeView>,
)
    requires
        u1 == u2,
        c1 == c2,
        o1 == o2,
    ensures
        spec_resolve(u1, c1, o1) == spec_resolve(u2, c2, o2),
{
}

/// An unrecognized category fails at once with the unknown-site error and
/// never asks for a fetch.
pub proof fn lemma_unknown_site_no_fetch(url: Seq<char>)
    ensures
        spec_start(url, SiteType::Unknown) == (ResolutionView::Finished {
            result: Err::<Seq<char>, RssGenErrorView>(RssGenErrorView::UnknownSiteType(url)),
        }),
        spec_pending(spec_start(url, SiteType::Unknown)) is None,
{
}

/// A video-platform URL with an explicit channel identifier resolves by pure
/// template substitution and never asks for a fetch.
pub proof fn lemma_youtube_direct_no_fetch(url: Seq<char>)
    requires
        spec_youtube_channel_feed(url) is Some,
    ensures
        spec_start(url, SiteType::YouTube) is Finished,
        spec_pending(spec_start(url, SiteType::YouTube)) is None,
{
}

/// When a body holds both an RSS and an Atom alternate link, the scan yields
/// the RSS one: the RSS type is checked first.
pub proof fn lemma_alternate_prefers_rss(body: Seq<char>)
    requires
        spec_extract_feed_link(body, "application/rss+xml"@) is Some,
        spec_extract_feed_link(body, "application/atom+xml"@) is Some,
    ensures
        spec_scan_alternate(body) == spec_extract_feed_link(body, "application/rss+xml"@),
{
}

} // verus!
