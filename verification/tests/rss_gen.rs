use rsscrab::rss_gen::{
    bitchute_rss, odysee_rss, rumble_rss, substack_rss, telegram_rss, youtube_channel_feed,
    YoutubeRss,
};
use rsscrab::error::RssGenError;

#[test]
fn test_substack_rss_valid() {
    let url = "https://example.substack.com";
    let result = substack_rss(url);
    assert!(result.is_ok());
    assert_eq!(result.unwrap(), "https://example.substack.com/feed");
}

#[test]
fn test_substack_rss_invalid() {
    let url = "not_a_url";
    let result = substack_rss(url);
    assert!(result.is_err());
}

#[test]
fn test_telegram_rss_valid() {
    let url = "https://t.me/mychannel";
    let result = telegram_rss(url);
    assert!(result.is_ok());
    assert_eq!(result.unwrap(), "https://rsshub.app/telegram/channel/mychannel");
}

#[test]
fn test_telegram_rss_invalid() {
    let url = "https://t.me/";
    let result = telegram_rss(url);
    assert!(result.is_err());
}

#[test]
fn substack_trailing_slash_is_trimmed() {
    let result = substack_rss("https://example.substack.com/");
    assert_eq!(result.unwrap(), "https://example.substack.com/feed");
}

#[test]
fn telegram_missing_marker_fails() {
    let result = telegram_rss("https://telegram.me/mychannel");
    assert!(matches!(result, Err(RssGenError::InvalidUrl(_))));
}

#[test]
fn bitchute_channel_url_resolves() {
    let result = bitchute_rss("https://www.bitchute.com/channel/biocharisma/");
    assert_eq!(
        result.unwrap(),
        "https://api.bitchute.com/feeds/rss/channel/biocharisma"
    );
}

#[test]
fn bitchute_without_channel_segment_fails() {
    let result = bitchute_rss("https://www.bitchute.com/video/xyz/");
    assert!(matches!(result, Err(RssGenError::InvalidUrl(_))));
}

#[test]
fn bitchute_channel_as_last_segment_fails() {
    let result = bitchute_rss("https://www.bitchute.com/channel/");
    assert!(matches!(result, Err(RssGenError::InvalidUrl(_))));
}

#[test]
fn bitchute_takes_last_channel_segment() {
    let result = bitchute_rss("https://host/channel/a/channel/b");
    assert_eq!(result.unwrap(), "https://api.bitchute.com/feeds/rss/channel/b");
}

#[test]
fn odysee_is_not_implemented() {
    let result = odysee_rss("https://odysee.com/@someone");
    match result {
        Err(RssGenError::RssNotFound(msg)) => assert_eq!(msg, "Odysee RSS not implemented"),
        _ => panic!("expected RssNotFound"),
    }
}

#[test]
fn rumble_is_not_implemented() {
    let result = rumble_rss("https://rumble.com/c/someone");
    match result {
        Err(RssGenError::RssNotFound(msg)) => assert_eq!(msg, "Rumble RSS not implemented"),
        _ => panic!("expected RssNotFound"),
    }
}

#[test]
fn youtube_channel_feed_from_explicit_id() {
    let feed = youtube_channel_feed("https://www.youtube.com/channel/UC123");
    assert_eq!(
        feed.unwrap(),
        "https://www.youtube.com/feeds/videos.xml?channel_id=UC123"
    );
}

#[test]
fn youtube_channel_feed_needs_marker() {
    assert!(youtube_channel_feed("https://www.youtube.com/@handle").is_none());
}

#[test]
fn youtube_rss_entry_holds_feed_and_name() {
    let entry = YoutubeRss {
        feed: "https://www.youtube.com/feeds/videos.xml?channel_id=UC123".to_string(),
        name: "A Channel".to_string(),
    };
    assert_eq!(entry.feed, "https://www.youtube.com/feeds/videos.xml?channel_id=UC123");
    assert_eq!(entry.name, "A Channel");
}

#[test]
fn error_messages_name_their_cause() {
    assert_eq!(
        RssGenError::Io("broken pipe".to_string()).message(),
        "IO error: broken pipe"
    );
    assert_eq!(
        RssGenError::InvalidUrl("not_a_url".to_string()).message(),
        "Invalid URL: not_a_url"
    );
    assert_eq!(
        RssGenError::UnknownSiteType("x".to_string()).message(),
        "Unknown site type: x"
    );
    assert_eq!(
        RssGenError::RssNotFound("https://a.example".to_string()).message(),
        "RSS feed not found for: https://a.example"
    );
}
