use rsscrab::discover::{resolve_scripted, tier1_candidates, tier3_candidates, youtube_page_feed,
    FetchOutcome, Resolution};
use rsscrab::error::RssGenError;
use rsscrab::site_type::SiteType;

fn response(success: bool, content_type: &str, body: Option<&str>) -> FetchOutcome {
    FetchOutcome::Response {
        success,
        content_type: content_type.to_string(),
        body: body.map(|b| b.to_string()),
    }
}

#[test]
fn newsletter_resolves_without_fetching() {
    let r = resolve_scripted("https://example.substack.com", &SiteType::Substack, &vec![]);
    assert_eq!(r.unwrap().unwrap(), "https://example.substack.com/feed");
}

#[test]
fn newsletter_rejects_bad_url() {
    let r = resolve_scripted("not_a_url", &SiteType::Substack, &vec![]);
    assert!(matches!(r.unwrap(), Err(RssGenError::InvalidUrl(_))));
}

#[test]
fn messaging_resolves_without_fetching() {
    let r = resolve_scripted("https://t.me/mychannel", &SiteType::Telegram, &vec![]);
    assert_eq!(r.unwrap().unwrap(), "https://rsshub.app/telegram/channel/mychannel");
}

#[test]
fn messaging_rejects_empty_channel() {
    let r = resolve_scripted("https://t.me/", &SiteType::Telegram, &vec![]);
    assert!(matches!(r.unwrap(), Err(RssGenError::InvalidUrl(_))));
}

#[test]
fn video_share_resolves_without_fetching() {
    let r = resolve_scripted(
        "https://www.bitchute.com/channel/biocharisma/",
        &SiteType::Bitchute,
        &vec![],
    );
    assert_eq!(r.unwrap().unwrap(), "https://api.bitchute.com/feeds/rss/channel/biocharisma");
}

#[test]
fn video_platform_with_channel_id_never_fetches() {
    let st = Resolution::start("https://www.youtube.com/channel/UC123", &SiteType::YouTube);
    assert!(st.next_fetch().is_none());
    assert!(st.done());
    assert_eq!(
        st.finish().unwrap(),
        "https://www.youtube.com/feeds/videos.xml?channel_id=UC123"
    );
}

#[test]
fn unknown_category_fails_without_fetching() {
    let st = Resolution::start("https://whatever.example", &SiteType::Unknown);
    assert!(st.next_fetch().is_none());
    assert!(st.done());
    assert!(matches!(st.finish(), Err(RssGenError::UnknownSiteType(_))));
}

#[test]
fn tier1_probes_in_fixed_order() {
    let mut st = Resolution::start("https://blog.example.org/", &SiteType::Blog);
    let expect = [
        "https://blog.example.org/feed",
        "https://blog.example.org/feed/",
        "https://blog.example.org/rss",
        "https://blog.example.org/rss.xml",
        "https://blog.example.org/atom.xml",
        "https://blog.example.org/index.xml",
    ];
    for (i, want) in expect.iter().enumerate() {
        assert_eq!(st.next_fetch().unwrap(), *want);
        if i + 1 < expect.len() {
            st.advance(&FetchOutcome::Failed);
        }
    }
    st.advance(&response(true, "application/xml", None));
    assert!(st.done());
    assert_eq!(st.finish().unwrap(), "https://blog.example.org/index.xml");
}

#[test]
fn tier1_candidates_keep_existing_suffix() {
    let cands = tier1_candidates("https://blog.example.org/feed/");
    assert_eq!(cands[0], "https://blog.example.org/feed");
    // the base already ends in "/feed": it is probed unmodified
    assert_eq!(cands[1], "https://blog.example.org/feed/feed/");
    assert_eq!(cands.len(), 6);
}

#[test]
fn tier1_accepts_feed_body_without_feed_content_type() {
    let mut st = Resolution::start("https://blog.example.org", &SiteType::Blog);
    st.advance(&response(true, "text/html", Some("<?xml ...?><rss version=\"2.0\">")));
    assert!(st.done());
    assert_eq!(st.finish().unwrap(), "https://blog.example.org/feed");
}

#[test]
fn tier1_rejects_success_without_feed_signs() {
    let mut st = Resolution::start("https://blog.example.org", &SiteType::Blog);
    st.advance(&response(true, "text/html", Some("<html>hello</html>")));
    assert!(!st.done());
    assert_eq!(st.next_fetch().unwrap(), "https://blog.example.org/feed/");
}

#[test]
fn tier2_unreachable_page_is_invalid_url() {
    let mut st = Resolution::start("https://blog.example.org", &SiteType::Blog);
    for _ in 0..6 {
        st.advance(&FetchOutcome::Failed);
    }
    assert_eq!(st.next_fetch().unwrap(), "https://blog.example.org");
    st.advance(&FetchOutcome::Failed);
    assert!(matches!(st.finish(), Err(RssGenError::InvalidUrl(_))));
}

#[test]
fn tier2_unreadable_body_is_not_found() {
    let mut st = Resolution::start("https://blog.example.org", &SiteType::Blog);
    for _ in 0..6 {
        st.advance(&FetchOutcome::Failed);
    }
    st.advance(&response(true, "text/html", None));
    assert!(matches!(st.finish(), Err(RssGenError::RssNotFound(_))));
}

#[test]
fn tier2_takes_alternate_link() {
    let mut st = Resolution::start("https://blog.example.org", &SiteType::Blog);
    for _ in 0..6 {
        st.advance(&FetchOutcome::Failed);
    }
    let page = "<link rel=\"alternate\" type=\"application/rss+xml\" href=\"https://blog.example.org/real-feed\">";
    st.advance(&response(true, "text/html", Some(page)));
    assert_eq!(st.finish().unwrap(), "https://blog.example.org/real-feed");
}

#[test]
fn tier3_probes_scraped_candidates_in_order() {
    let mut st = Resolution::start("https://blog.example.org/", &SiteType::Blog);
    for _ in 0..6 {
        st.advance(&FetchOutcome::Failed);
    }
    let page = "<a href=\"/a.xml\">a</a><a href=\"/nothing\">n</a><a href=\"/posts/rss\">r</a>";
    st.advance(&response(true, "text/html", Some(page)));
    assert_eq!(st.next_fetch().unwrap(), "https://blog.example.org/a.xml");
    st.advance(&FetchOutcome::Failed);
    assert_eq!(st.next_fetch().unwrap(), "https://blog.example.org/posts/rss");
    st.advance(&response(true, "", None));
    assert_eq!(st.finish().unwrap(), "https://blog.example.org/posts/rss");
}

#[test]
fn tier3_exhaustion_is_not_found() {
    let mut st = Resolution::start("https://blog.example.org", &SiteType::Blog);
    for _ in 0..6 {
        st.advance(&FetchOutcome::Failed);
    }
    st.advance(&response(true, "text/html", Some("<a href=\"/only.xml\">x</a>")));
    st.advance(&response(false, "", None));
    assert!(matches!(st.finish(), Err(RssGenError::RssNotFound(_))));
}

#[test]
fn tier3_empty_scrape_is_not_found() {
    let mut st = Resolution::start("https://blog.example.org", &SiteType::Blog);
    for _ in 0..6 {
        st.advance(&FetchOutcome::Failed);
    }
    st.advance(&response(true, "text/html", Some("<html>no links</html>")));
    assert!(matches!(st.finish(), Err(RssGenError::RssNotFound(_))));
}

#[test]
fn tier3_candidate_shapes() {
    let body = "<a href=\"https://cdn.example/feed.RSS\">absolute</a>\
                <a href=\"/rooted/atom.xml\">rooted</a>\
                <a href=\"relative.xml\">relative</a>";
    let cands = tier3_candidates("https://blog.example.org/", body);
    assert_eq!(
        cands,
        vec![
            "https://cdn.example/feed.RSS".to_string(),
            "https://blog.example.org/rooted/atom.xml".to_string(),
            "https://blog.example.org/relative.xml".to_string(),
        ]
    );
}

#[test]
fn video_platform_live_discovery_link_tag() {
    let mut st = Resolution::start("https://www.youtube.com/@handle", &SiteType::YouTube);
    assert_eq!(st.next_fetch().unwrap(), "https://www.youtube.com/@handle");
    let page = "<link type=\"application/rss+xml\" href=\"https://www.youtube.com/feeds/videos.xml?channel_id=UC9\">";
    st.advance(&response(true, "text/html", Some(page)));
    assert_eq!(
        st.finish().unwrap(),
        "https://www.youtube.com/feeds/videos.xml?channel_id=UC9"
    );
}

#[test]
fn video_platform_live_discovery_meta_tag() {
    let page = "<meta itemprop=\"channelId\" content=\"UCabcdefghijklmnopqrstuv\">";
    let r = youtube_page_feed("https://www.youtube.com/@handle", page);
    assert_eq!(
        r.unwrap(),
        "https://www.youtube.com/feeds/videos.xml?channel_id=UCabcdefghijklmnopqrstuv"
    );
}

#[test]
fn video_platform_live_discovery_marker_token() {
    let page = "<script>var x = {\"channelId\":\"UC1234567890123456789012\"};</script>";
    let r = youtube_page_feed("https://www.youtube.com/@handle", page);
    assert_eq!(
        r.unwrap(),
        "https://www.youtube.com/feeds/videos.xml?channel_id=UC1234567890123456789012"
    );
}

#[test]
fn video_platform_live_discovery_exhausted() {
    let r = youtube_page_feed("https://www.youtube.com/@handle", "<html>nothing here</html>");
    assert!(matches!(r, Err(RssGenError::RssNotFound(_))));
}

#[test]
fn video_platform_unreachable_is_invalid_url() {
    let mut st = Resolution::start("https://www.youtube.com/@handle", &SiteType::YouTube);
    st.advance(&FetchOutcome::Failed);
    assert!(matches!(st.finish(), Err(RssGenError::InvalidUrl(_))));
}

#[test]
fn resolution_is_idempotent_for_unchanged_outcomes() {
    let outcomes = vec![
        FetchOutcome::Failed,
        response(true, "text/html", Some("<html>plain</html>")),
        response(true, "application/rss+xml", None),
    ];
    let r1 = resolve_scripted("https://blog.example.org", &SiteType::Blog, &outcomes);
    let r2 = resolve_scripted("https://blog.example.org", &SiteType::Blog, &outcomes);
    assert_eq!(format!("{:?}", r1), format!("{:?}", r2));
}

#[test]
fn scripted_run_reports_unfinished_resolutions() {
    let r = resolve_scripted("https://blog.example.org", &SiteType::Blog, &vec![
        FetchOutcome::Failed,
    ]);
    assert!(r.is_none());
}
