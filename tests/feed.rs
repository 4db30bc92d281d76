use yt_cli::document::parse_feed_document;
use yt_cli::feed::{cache_file_expired, needs_refetch, FetchError, YTFeed, YTVideo};

fn video(id: &str, timestamp: i128) -> YTVideo {
    YTVideo {
        id: id.to_string(),
        title: format!("title {}", id),
        author: "someone".to_string(),
        description: String::new(),
        timestamp,
    }
}

fn ids(feed: &YTFeed) -> Vec<String> {
    feed.videos.iter().map(|v| v.id.clone()).collect()
}

const JAN1: i128 = 1704067200_000_000_000;
const JAN2: i128 = 1704153600_000_000_000;
const JAN3: i128 = 1704240000_000_000_000;

#[test]
fn three_channels_one_failed_are_merged_newest_first() {
    let a = parse_feed_document(
        "{\"FEEDVERSION\":1,\"feed\":[\
         {\"id\":\"a3\",\"title\":\"t\",\"author\":\"A\",\"description\":\"\",\"timestamp\":\"2024-01-03T00:00:00+00:00\"},\
         {\"id\":\"a1\",\"title\":\"t\",\"author\":\"A\",\"description\":\"\",\"timestamp\":\"2024-01-01T00:00:00+00:00\"}]}",
    )
    .unwrap();
    let b = parse_feed_document(
        "{\"FEEDVERSION\":1,\"feed\":[\
         {\"id\":\"b2\",\"title\":\"t\",\"author\":\"B\",\"description\":\"\",\"timestamp\":\"2024-01-02T00:00:00+00:00\"}]}",
    )
    .unwrap();
    let feed = YTFeed::from_results(vec![Ok(a), Ok(b), Err(FetchError::Network)]);
    let stamps: Vec<i128> = feed.videos.iter().map(|v| v.timestamp).collect();
    assert_eq!(stamps, vec![JAN3, JAN2, JAN1]);
    assert_eq!(ids(&feed), vec!["a3", "b2", "a1"]);
}

#[test]
fn fractional_seconds_order_videos() {
    let a = parse_feed_document(
        "{\"feed\":[\
         {\"id\":\"early\",\"title\":\"t\",\"author\":\"A\",\"description\":\"\",\"timestamp\":\"2024-01-01T00:00:00.25Z\"}]}",
    )
    .unwrap();
    let b = parse_feed_document(
        "{\"feed\":[\
         {\"id\":\"late\",\"title\":\"t\",\"author\":\"B\",\"description\":\"\",\"timestamp\":\"2024-01-01T00:00:00.75Z\"}]}",
    )
    .unwrap();
    assert_eq!(a[0].timestamp, JAN1 + 250_000_000);
    let feed = YTFeed::from_results(vec![Ok(a), Ok(b)]);
    assert_eq!(ids(&feed), vec!["late", "early"]);
}

#[test]
fn equal_timestamps_keep_channel_and_feed_order() {
    let feed = YTFeed::from_results(vec![
        Ok(vec![video("x1", JAN2), video("x2", JAN2), video("x3", JAN1)]),
        Ok(vec![video("y1", JAN3), video("y2", JAN2)]),
    ]);
    assert_eq!(ids(&feed), vec!["y1", "x1", "x2", "y2", "x3"]);
}

#[test]
fn failed_channel_leaves_others_intact() {
    let ok_a = vec![video("a1", JAN1), video("a2", JAN3)];
    let ok_c = vec![video("c1", JAN2)];
    let with_failure = YTFeed::from_results(vec![
        Ok(ok_a.clone()),
        Err(FetchError::MalformedUpstream),
        Ok(ok_c.clone()),
    ]);
    let without = YTFeed::from_results(vec![Ok(ok_a), Ok(ok_c)]);
    assert_eq!(ids(&with_failure), ids(&without));
    assert_eq!(ids(&with_failure), vec!["a2", "c1", "a1"]);
}

#[test]
fn all_channels_failed_gives_empty_feed() {
    let feed = YTFeed::from_results(vec![
        Err(FetchError::TransformFailed),
        Err(FetchError::CacheWriteFailed),
    ]);
    assert!(feed.videos.is_empty());
    assert!(YTFeed::from_results(vec![]).videos.is_empty());
}

#[test]
fn cache_entry_refetched_only_after_thirty_minutes() {
    let second: u128 = 1_000_000_000;
    assert!(!needs_refetch(Some(1799 * second)));
    assert!(!needs_refetch(Some(1800 * second)));
    assert!(needs_refetch(Some(1801 * second)));
    assert!(needs_refetch(Some(1800 * second + 1)));
    assert!(!needs_refetch(Some(0)));
    assert!(needs_refetch(None));
}

#[test]
fn cache_sweep_removes_only_older_files() {
    assert!(cache_file_expired(86_401, 86_400));
    assert!(!cache_file_expired(86_400, 86_400));
    assert!(!cache_file_expired(0, 86_400));
}

#[test]
fn video_urls_and_list_text() {
    let v = video("abc", JAN1);
    assert_eq!(v.url(), "https://youtube.com/watch?v=abc");
    assert_eq!(v.thumbnail_url(), "https://i.ytimg.com/vi/abc/hq720.jpg");
    assert_eq!(v.to_string(), "[someone] title abc");
    assert_eq!(v.text(), "[someone] title abc");
}
