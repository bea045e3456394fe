use rsscrab::site_type::{detect, SiteType};

#[test]
fn detects_video_platform() {
    assert_eq!(detect("https://www.youtube.com/channel/UC123"), SiteType::YouTube);
    assert_eq!(detect("https://youtu.be/abc"), SiteType::YouTube);
}

#[test]
fn detects_newsletter() {
    assert_eq!(detect("https://example.substack.com"), SiteType::Substack);
}

#[test]
fn detects_messaging_channels() {
    assert_eq!(detect("https://t.me/mychannel"), SiteType::Telegram);
    assert_eq!(detect("https://telegram.me/mychannel"), SiteType::Telegram);
}

#[test]
fn detects_video_share_platforms() {
    assert_eq!(detect("https://odysee.com/@someone"), SiteType::Odysee);
    assert_eq!(detect("https://www.bitchute.com/channel/x"), SiteType::Bitchute);
    assert_eq!(detect("https://rumble.com/c/x"), SiteType::Rumble);
}

#[test]
fn falls_back_to_blog_for_plain_http() {
    assert_eq!(detect("https://myblog.example.org"), SiteType::Blog);
    assert_eq!(detect("http://plain.example"), SiteType::Blog);
}

#[test]
fn unrecognized_without_http() {
    assert_eq!(detect("not_a_url"), SiteType::Unknown);
    assert_eq!(detect(""), SiteType::Unknown);
}

#[test]
fn detection_ignores_ascii_case() {
    assert_eq!(detect("HTTPS://WWW.YOUTUBE.COM/WATCH"), SiteType::YouTube);
    assert_eq!(detect("HTTPS://EXAMPLE.SUBSTACK.COM"), SiteType::Substack);
}

#[test]
fn earlier_markers_win() {
    // both a video marker and the bare scheme occur: the video marker is
    // checked first
    assert_eq!(detect("https://www.youtube.com/"), SiteType::YouTube);
}
