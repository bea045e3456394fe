//! Platform resolvers that derive a feed URL from a known URL shape by pure
//! string manipulation, or fail with a typed error.

use vstd::prelude::*;
use vstd::string::StrSliceExecFns;
use crate::error::{RssGenError, RssGenErrorView, result_view};
use crate::text::{
    first_match_in, trim_end_slashes, trimmed_len, split_char, last_index_of, pieces_of, to_chars,
    find_in, trim_end_range, trim_end_len, take_prefix, split_ranges, range_equals,
    lemma_first_match_in_located,
};

verus! {

/// A resolved video-platform feed paired with the channel's display name.
pub struct YoutubeRss {
    pub feed: String,
    pub name: String,
}

/// Newsletter resolution: the host is the text after the first `"//"`,
/// stripped of trailing slashes, and the feed hangs at a fixed path below it.
pub open spec fn spec_substack_rss(url: Seq<char>) -> Result<Seq<char>, RssGenErrorView> {
    match first_match_in(url, "//"@, 0, url.len() as int) {
        None => Err(RssGenErrorView::InvalidUrl(url)),
        Some(i) => Ok(
            "https://"@ + trim_end_slashes(url.subrange(i + 2, url.len() as int)) + "/feed"@,
        ),
    }
}

/// Derives the feed URL of a newsletter site from its base URL.
pub fn substack_rss(url: &str) -> (r: Result<String, RssGenError>)
    ensures
        result_view(r) == spec_substack_rss(url@),
{
    let v = to_chars(url);
    let n = v.len();
    match find_in(&v, &to_chars("//"), 0, n) {
        None => Err(RssGenError::InvalidUrl(String::from_str(url))),
        Some(i) => {
            proof {
                reveal_strlit("//");
                lemma_first_match_in_located(v@, "//"@, 0, n as int);
            }
            let e = trim_end_range(&v, i + 2, n);
            let domain = url.substring_char(i + 2, e);
            proof {
                let tail = v@.subrange(i + 2, n as int);
                assert(tail.take(trimmed_len(tail)) =~= v@.subrange(i + 2, e as int));
            }
            Ok(String::from_str("https://").concat(domain).concat("/feed"))
        },
    }
}

/// Messaging-channel resolution: the channel name is the text after the
/// messaging-domain marker, substituted into a feed-bridge URL template; an
/// empty name is rejected.
pub open spec fn spec_telegram_rss(url: Seq<char>) -> Result<Seq<char>, RssGenErrorView> {
    match first_match_in(url, "/t.me/"@, 0, url.len() as int) {
        None => Err(RssGenErrorView::InvalidUrl(url)),
        Some(i) => if i + 6 < url.len() {
            Ok("https://rsshub.app/telegram/channel/"@ + url.subrange(i + 6, url.len() as int))
        } else {
            Err(RssGenErrorView::InvalidUrl(url))
        },
    }
}

/// Derives the feed-bridge URL of a messaging channel from its public URL.
pub fn telegram_rss(url: &str) -> (r: Result<String, RssGenError>)
    ensures
        result_view(r) == spec_telegram_rss(url@),
{
    let v = to_chars(url);
    let n = v.len();
    match find_in(&v, &to_chars("/t.me/"), 0, n) {
        None => Err(RssGenError::InvalidUrl(String::from_str(url))),
        Some(i) => {
            proof {
                reveal_strlit("/t.me/");
                lemma_first_match_in_located(v@, "/t.me/"@, 0, n as int);
            }
            if i + 6 < n {
                let channel = url.substring_char(i + 6, n);
                Ok(String::from_str("https://rsshub.app/telegram/channel/").concat(channel))
            } else {
                Err(RssGenError::InvalidUrl(String::from_str(url)))
            }
        },
    }
}

/// Video-share resolution: the channel name is the path segment after the
/// last literal `channel` segment of the slash-trimmed URL, substituted into
/// the platform's feed-API template.
pub open spec fn spec_bitchute_rss(url: Seq<char>) -> Result<Seq<char>, RssGenErrorView> {
    let parts = split_char(trim_end_slashes(url), '/', 0);
    match last_index_of(parts, "channel"@) {
        Some(k) => if k + 1 < parts.len() {
            Ok("https://api.bitchute.com/feeds/rss/channel/"@ + parts[k + 1])
        } else {
            Err(RssGenErrorView::InvalidUrl(url))
        },
        None => Err(RssGenErrorView::InvalidUrl(url)),
    }
}

/// Derives the feed-API URL of a video-share channel from its public URL.
pub fn bitchute_rss(url: &str) -> (r: Result<String, RssGenError>)
    ensures
        result_view(r) == spec_bitchute_rss(url@),
{
    let v = to_chars(url);
    let e = trim_end_len(&v);
    let tv = take_prefix(&v, e);
    proof {
        assert(tv@ == trim_end_slashes(url@));
    }
    let rs = split_ranges(&tv, '/');
    let ghost parts = split_char(trim_end_slashes(url@), '/', 0);
    let pat = to_chars("channel");
    let mut k = rs.len();
    proof {
        assert(parts.take(k as int) =~= parts);
    }
    while k > 0
        invariant
            k <= rs@.len(),
            pat@ == "channel"@,
            tv@ == trim_end_slashes(url@),
            tv@.len() <= url@.len(),
            pieces_of(tv@, rs@) == parts,
            parts == split_char(trim_end_slashes(url@), '/', 0),
            parts.len() == rs@.len(),
            forall|j: int| 0 <= j < rs@.len() ==> #[trigger] rs@[j].0 <= rs@[j].1 <= tv@.len(),
            last_index_of(parts, "channel"@) == last_index_of(parts.take(k as int), "channel"@),
        decreases k,
    {
        let (a, b) = rs[k - 1];
        let is_channel = range_equals(&tv, a, b, &pat);
        proof {
            assert(parts[k - 1] == tv@.subrange(a as int, b as int));
            assert(parts.take(k as int).last() == parts[k - 1]);
            assert(parts.take(k as int).drop_last() =~= parts.take(k as int - 1));
        }
        if is_channel {
            proof {
                assert(last_index_of(parts.take(k as int), "channel"@) == Some(k as int - 1));
                assert(last_index_of(parts, "channel"@) == Some(k as int - 1));
            }
            if k < rs.len() {
                let (a2, b2) = rs[k];
                proof {
                    crate::text::lemma_trimmed_len_bounds(url@);
                    assert(rs@[k as int].0 == a2 && rs@[k as int].1 == b2);
                    assert(a2 <= b2 <= tv@.len());
                    assert(tv@ == url@.take(trimmed_len(url@)));
                    assert(tv@.len() == trimmed_len(url@) <= url@.len());
                    assert(parts[k as int] == tv@.subrange(a2 as int, b2 as int));
                    assert(tv@.subrange(a2 as int, b2 as int) =~= url@.subrange(
                        a2 as int,
                        b2 as int,
                    ));
                }
                let name = url.substring_char(a2, b2);
                return Ok(
                    String::from_str("https://api.bitchute.com/feeds/rss/channel/").concat(name),
                );
            } else {
                return Err(RssGenError::InvalidUrl(String::from_str(url)));
            }
        }
        k -= 1;
    }
    proof {
        assert(parts.take(0) =~= Seq::<Seq<char>>::empty());
    }
    Err(RssGenError::InvalidUrl(String::from_str(url)))
}

/// This platform publishes no feed convention: resolution always fails.
pub open spec fn spec_odysee_rss() -> Result<Seq<char>, RssGenErrorView> {
    Err(RssGenErrorView::RssNotFound("Odysee RSS not implemented"@))
}

/// Always fails: the platform has no public feed support.
pub fn odysee_rss(_url: &str) -> (r: Result<String, RssGenError>)
    ensures
        result_view(r) == spec_odysee_rss(),
{
    Err(RssGenError::RssNotFound(String::from_str("Odysee RSS not implemented")))
}

/// This platform publishes no feed convention: resolution always fails.
pub open spec fn spec_rumble_rss() -> Result<Seq<char>, RssGenErrorView> {
    Err(RssGenErrorView::RssNotFound("Rumble RSS not implemented"@))
}

/// Always fails: the platform has no public feed support.
pub fn rumble_rss(_url: &str) -> (r: Result<String, RssGenError>)
    ensures
        result_view(r) == spec_rumble_rss(),
{
    Err(RssGenError::RssNotFound(String::from_str("Rumble RSS not implemented")))
}

/// Video-platform direct resolution: when the URL carries an explicit channel
/// identifier after the `/channel/` marker, the feed URL is a pure template
/// substitution of that identifier; otherwise nothing can be constructed.
pub open spec fn spec_youtube_channel_feed(url: Seq<char>) -> Option<Seq<char>> {
    match first_match_in(url, "/channel/"@, 0, url.len() as int) {
        Some(i) => Some(
            "https://www.youtube.com/feeds/videos.xml?channel_id="@ + url.subrange(
                i + 9,
                url.len() as int,
            ),
        ),
        None => None,
    }
}

/// Builds the feed URL of a video-platform channel from an explicit channel
/// identifier in the URL, without any network access.
pub fn youtube_channel_feed(url: &str) -> (r: Option<String>)
    ensures
        r.deep_view() == spec_youtube_channel_feed(url@),
{
    let v = to_chars(url);
    let n = v.len();
    match find_in(&v, &to_chars("/channel/"), 0, n) {
        None => None,
        Some(i) => {
            proof {
                reveal_strlit("/channel/");
                lemma_first_match_in_located(v@, "/channel/"@, 0, n as int);
            }
            let id = url.substring_char(i + 9, n);
            Some(String::from_str("https://www.youtube.com/feeds/videos.xml?channel_id=").concat(id))
        },
    }
}

} // verus!
