use configparser::ini::Ini;
use yt_cli::channel::{channels_of_topics, contains_str, select_topics, strip_separators, ConfigSection, YTTopic};
use yt_cli::cli::YTCli;

fn section(name: &str, entries: &[(&str, Option<&str>)]) -> ConfigSection {
    ConfigSection {
        name: name.to_string(),
        entries: entries.iter().map(|(k, v)| (k.to_string(), v.map(|s| s.to_string()))).collect(),
    }
}

fn sections() -> Vec<ConfigSection> {
    vec![
        section("default", &[("preview.enable", Some("true"))]),
        section("music", &[("Band", Some("UCband")), ("UCbare", None)]),
        section("news", &[("UCnews", None)]),
        section("tech", &[]),
    ]
}

fn names(ts: &[YTTopic]) -> Vec<String> {
    ts.iter().map(|t| t.name.clone()).collect()
}

#[test]
fn empty_filter_selects_all_but_default() {
    let ts = select_topics(&sections(), "");
    assert_eq!(names(&ts), vec!["music", "news", "tech"]);
    assert_eq!(ts[0].channels.len(), 2);
    assert_eq!(ts[0].channels[0].id, "UCband");
    assert_eq!(ts[0].channels[0].name, Some("Band".to_string()));
    assert_eq!(ts[0].channels[1].id, "UCbare");
    assert_eq!(ts[0].channels[1].name, None);
}

#[test]
fn filter_selects_named_topics() {
    assert_eq!(names(&select_topics(&sections(), "music, tech")), vec!["music", "tech"]);
    assert_eq!(names(&select_topics(&sections(), "news;")), vec!["news"]);
    assert_eq!(names(&select_topics(&sections(), "default")), Vec::<String>::new());
    assert_eq!(names(&select_topics(&sections(), "sport")), Vec::<String>::new());
    assert_eq!(names(&select_topics(&sections(), "mu sic")), vec!["music"]);
}

#[test]
fn separators_are_dropped_from_filter() {
    assert_eq!(strip_separators(" a, b;\tc "), "abc");
    assert_eq!(strip_separators(""), "");
    assert!(contains_str("abc", "bc"));
    assert!(contains_str("abc", ""));
    assert!(!contains_str("ab", "abc"));
    assert!(!contains_str("abc", "ca"));
}

#[test]
fn channels_of_topics_in_order() {
    let ts = select_topics(&sections(), "");
    let cs = channels_of_topics(ts);
    let ids: Vec<String> = cs.iter().map(|c| c.id.clone()).collect();
    assert_eq!(ids, vec!["UCband", "UCbare", "UCnews"]);
}

fn config(text: &str) -> Ini {
    let mut ini = Ini::new_cs();
    ini.read(text.to_string()).unwrap();
    ini
}

#[test]
fn cli_reads_topics_and_switches() {
    let cli = YTCli::new(
        config("[default]\npreview.thumbnails.enable = false\n[music]\nBand = UCband\n[news]\nUCnews\n"),
        true,
    );
    assert!(!cli.thumbnails_enabled());
    assert!(cli.preview_enabled());
    let mut got = names(&cli.topics(""));
    got.sort();
    assert_eq!(got, vec!["music", "news"]);
    let music = cli.topics("music");
    assert_eq!(names(&music), vec!["music"]);
    assert_eq!(music[0].channels[0].id, "UCband");
}

#[test]
fn cli_switches_default_on() {
    let cli = YTCli::new(config("[music]\nBand = UCband\n"), true);
    assert!(cli.thumbnails_enabled());
    assert!(cli.preview_enabled());
    let no_overlay = YTCli::new(config("[default]\npreview.enable = no\n"), false);
    assert!(!no_overlay.thumbnails_enabled());
    assert!(!no_overlay.preview_enabled());
    let unreadable = YTCli::new(config("[default]\npreview.enable = maybe\n"), true);
    assert!(unreadable.preview_enabled());
}
