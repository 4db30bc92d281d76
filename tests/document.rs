use yt_cli::channel::YTChannel;
use yt_cli::document::{channel_name_from_text, digit_runs_ok, parse_feed_document, parse_subscriptions, videos_from_document};
use yt_cli::feed::FetchError;

const DOC: &str = "{\"FEEDVERSION\":1,\"feed\":[\
    {\"id\":\"v1\",\"title\":\"First\",\"author\":\"Chan\",\"description\":\"d1\",\"timestamp\":\"2024-01-02T10:30:00+02:00\"},\
    {\"id\":\"v2\",\"title\":\"Second\",\"author\":\"Chan\",\"description\":\"\",\"timestamp\":\"1970-01-01T00:00:01Z\"}]}";

#[test]
fn feed_document_is_read_in_order() {
    let vs = parse_feed_document(DOC).unwrap();
    assert_eq!(vs.len(), 2);
    assert_eq!(vs[0].id, "v1");
    assert_eq!(vs[0].title, "First");
    assert_eq!(vs[0].author, "Chan");
    assert_eq!(vs[0].description, "d1");
    assert_eq!(vs[0].timestamp, 1704184200_000_000_000);
    assert_eq!(vs[1].id, "v2");
    assert_eq!(vs[1].timestamp, 1_000_000_000);
}

#[test]
fn feed_document_from_parsed_value() {
    let doc = json::parse(DOC).unwrap();
    let vs = videos_from_document(&doc).unwrap();
    assert_eq!(vs.len(), 2);
    assert_eq!(vs[1].title, "Second");
}

#[test]
fn empty_feed_document_has_no_videos() {
    assert!(parse_feed_document("{\"FEEDVERSION\":1,\"feed\":[]}").unwrap().is_empty());
    assert!(parse_feed_document("{}").unwrap().is_empty());
}

#[test]
fn text_that_is_not_json_is_a_transform_failure() {
    assert_eq!(parse_feed_document("<feed>").unwrap_err(), FetchError::TransformFailed);
    assert_eq!(parse_feed_document("").unwrap_err(), FetchError::TransformFailed);
}

#[test]
fn incomplete_entry_is_malformed_upstream() {
    let missing = "{\"feed\":[{\"id\":\"v\",\"title\":\"t\",\"author\":\"a\",\"timestamp\":\"2024-01-01T00:00:00Z\"}]}";
    assert_eq!(parse_feed_document(missing).unwrap_err(), FetchError::MalformedUpstream);
    let bad_date = "{\"feed\":[{\"id\":\"v\",\"title\":\"t\",\"author\":\"a\",\"description\":\"\",\"timestamp\":\"yesterday\"}]}";
    assert_eq!(parse_feed_document(bad_date).unwrap_err(), FetchError::MalformedUpstream);
    let number_id = "{\"feed\":[{\"id\":7,\"title\":\"t\",\"author\":\"a\",\"description\":\"\",\"timestamp\":\"2024-01-01T00:00:00Z\"}]}";
    assert_eq!(parse_feed_document(number_id).unwrap_err(), FetchError::MalformedUpstream);
}

#[test]
fn channel_name_prefers_configured_then_cached_author() {
    let named = YTChannel { id: "UC1".to_string(), name: Some("Configured".to_string()) };
    assert_eq!(channel_name_from_text(&named, Some(DOC)), Some("Configured".to_string()));
    let bare = YTChannel { id: "UC2".to_string(), name: None };
    assert_eq!(channel_name_from_text(&bare, Some(DOC)), Some("Chan".to_string()));
    assert_eq!(channel_name_from_text(&bare, None), None);
    assert_eq!(channel_name_from_text(&bare, Some("{\"feed\":[]}")), None);
    assert_eq!(channel_name_from_text(&bare, Some("not json")), None);
    let doc = json::parse(DOC).unwrap();
    assert_eq!(bare.name(Some(&doc)), Some("Chan".to_string()));
}

#[test]
fn channel_urls_and_keys() {
    let c = YTChannel { id: "UCx".to_string(), name: None };
    assert_eq!(c.feed_url(), "https://www.youtube.com/feeds/videos.xml?channel_id=UCx");
    assert_eq!(c.cache_path("/home/u/.cache/yt-cli"), "/home/u/.cache/yt-cli/feed/UCx.json");
    assert_eq!(c.sort_key(None), "~UCx");
    assert_eq!(c.sort_key(Some("Name".to_string())), "Name");
}

#[test]
fn overlong_digit_runs_are_refused_before_parsing() {
    let long_fraction = format!("{{\"feed\":[],\"x\":0.{}}}", "0".repeat(40000));
    assert_eq!(parse_feed_document(&long_fraction).unwrap_err(), FetchError::TransformFailed);
    assert!(parse_subscriptions(&format!("[0.{}]", "0".repeat(40000))).is_none());
    let bare = YTChannel { id: "UC3".to_string(), name: None };
    assert_eq!(channel_name_from_text(&bare, Some(&long_fraction)), None);
    let at_limit = format!("{{\"feed\":[],\"x\":0.{}}}", "0".repeat(32767));
    assert!(parse_feed_document(&at_limit).unwrap().is_empty());
}

#[test]
fn digit_run_limit() {
    assert!(digit_runs_ok(""));
    assert!(digit_runs_ok(&"1".repeat(32768)));
    assert!(!digit_runs_ok(&"1".repeat(32769)));
    assert!(digit_runs_ok(&format!("{}.{}", "1".repeat(32768), "2".repeat(32768))));
}

#[test]
fn subscriptions_export_is_read() {
    let text = "[{\"snippet\":{\"resourceId\":{\"channelId\":\"UCa\"},\"title\":\"A\"}},\
                {\"snippet\":{\"resourceId\":{\"channelId\":\"UCb\"}}}]";
    let cs = parse_subscriptions(text).unwrap();
    assert_eq!(cs.len(), 2);
    assert_eq!(cs[0].id, "UCa");
    assert_eq!(cs[0].name, None);
    assert_eq!(cs[1].id, "UCb");
    assert!(parse_subscriptions("[{\"snippet\":{}}]").is_none());
    assert!(parse_subscriptions("nope").is_none());
    assert!(parse_subscriptions("[]").unwrap().is_empty());
}
