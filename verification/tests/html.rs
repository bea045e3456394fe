use rsscrab::html::{
    extract_anchor_hrefs, extract_channel_id, extract_feed_link, extract_meta_content,
    extract_youtube_rss_link,
};
use rsscrab::discover::scan_alternate_links;

#[test]
fn meta_content_is_extracted_from_its_line() {
    let body = "<html>\n<meta property=\"og:title\" content=\"My Channel\">\n</html>";
    let got = extract_meta_content(body, "property=\"og:title\"");
    assert_eq!(got.unwrap(), "My Channel");
}

#[test]
fn meta_content_takes_first_matching_line() {
    let body = "<meta x content=\"first\">\n<meta x content=\"second\">";
    assert_eq!(extract_meta_content(body, "<meta x").unwrap(), "first");
}

#[test]
fn meta_content_skips_lines_without_value() {
    let body = "needle but no value here\nneedle content=\"yes\"";
    assert_eq!(extract_meta_content(body, "needle").unwrap(), "yes");
}

#[test]
fn meta_content_absent() {
    assert!(extract_meta_content("<html></html>", "property=\"og:title\"").is_none());
}

#[test]
fn feed_link_is_extracted() {
    let body = "<html><link rel=\"alternate\" type=\"application/rss+xml\" href=\"https://ex.org/feed.xml\"></html>";
    let got = extract_feed_link(body, "application/rss+xml");
    assert_eq!(got.unwrap(), "https://ex.org/feed.xml");
}

#[test]
fn feed_link_single_quotes() {
    let body = "<link rel='alternate' type='application/atom+xml' href='/atom.xml'>";
    let got = extract_feed_link(body, "application/atom+xml");
    assert_eq!(got.unwrap(), "/atom.xml");
}

#[test]
fn feed_link_requires_matching_type() {
    let body = "<link rel=\"alternate\" type=\"application/rss+xml\" href=\"/f\">";
    assert!(extract_feed_link(body, "application/atom+xml").is_none());
}

#[test]
fn feed_link_requires_rel_alternate() {
    let body = "<link type=\"application/rss+xml\" href=\"/f\">";
    assert!(extract_feed_link(body, "application/rss+xml").is_none());
}

#[test]
fn alternate_scan_prefers_rss_over_atom() {
    // the Atom tag comes first in the document, the RSS href still wins
    let body = "<link rel=\"alternate\" type=\"application/atom+xml\" href=\"/atom.xml\">\
                <link rel=\"alternate\" type=\"application/rss+xml\" href=\"/rss.xml\">";
    assert_eq!(scan_alternate_links(body).unwrap(), "/rss.xml");
}

#[test]
fn alternate_scan_falls_back_to_atom() {
    let body = "<link rel=\"alternate\" type=\"application/atom+xml\" href=\"/atom.xml\">";
    assert_eq!(scan_alternate_links(body).unwrap(), "/atom.xml");
}

#[test]
fn youtube_link_needs_no_rel() {
    let body = "<link type=\"application/rss+xml\" href=\"https://www.youtube.com/feeds/videos.xml?channel_id=UC1\">";
    assert_eq!(
        extract_youtube_rss_link(body).unwrap(),
        "https://www.youtube.com/feeds/videos.xml?channel_id=UC1"
    );
}

#[test]
fn channel_id_from_json_marker() {
    let body = "{\"channelId\":\"UC1234567890123456789012\"}";
    assert_eq!(extract_channel_id(body).unwrap(), "UC1234567890123456789012");
}

#[test]
fn channel_id_json_allows_spaced_colon() {
    let body = "\"channelId\" : \"UC1234567890123456789012\"";
    assert_eq!(extract_channel_id(body).unwrap(), "UC1234567890123456789012");
}

#[test]
fn channel_id_from_meta_marker() {
    let body = "<meta itemprop=\"channelId\" content=\"UCabcdefghijklmnopqrstuv\">";
    assert_eq!(extract_channel_id(body).unwrap(), "UCabcdefghijklmnopqrstuv");
}

#[test]
fn channel_id_must_be_24_characters() {
    let body = "{\"channelId\":\"UCshort\"}";
    assert!(extract_channel_id(body).is_none());
}

#[test]
fn extractors_on_empty_body() {
    assert!(extract_meta_content("", "needle").is_none());
    assert!(extract_feed_link("", "application/rss+xml").is_none());
    assert!(extract_youtube_rss_link("").is_none());
    assert!(extract_channel_id("").is_none());
    assert!(extract_anchor_hrefs("").is_empty());
}

#[test]
fn feed_link_href_must_be_nonempty() {
    let body = "<link rel=\"alternate\" type=\"application/rss+xml\" href=\"\">";
    assert!(extract_feed_link(body, "application/rss+xml").is_none());
}

#[test]
fn anchor_hrefs_in_document_order() {
    let body = "<a href=\"/feed.xml\">x</a> <link href='/b.rss'> <a name=\"no-href\">y</a>";
    let hrefs = extract_anchor_hrefs(body);
    assert_eq!(hrefs, vec!["/feed.xml".to_string(), "/b.rss".to_string()]);
}

#[test]
fn anchor_href_stops_at_tag_end() {
    // a '>' before any closing quote disqualifies the tag
    let body = "<a href=\"broken>\"";
    assert!(extract_anchor_hrefs(body).is_empty());
}
