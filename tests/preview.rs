use yt_cli::feed::YTVideo;
use yt_cli::overlay::OverlayCommand;

fn abc() -> YTVideo {
    YTVideo {
        id: "abc".to_string(),
        title: "Title".to_string(),
        author: "Author".to_string(),
        description: "About it".to_string(),
        timestamp: 0,
    }
}

#[test]
fn uncached_thumbnail_removes_then_adds_after_download() {
    let v = abc();
    let start = v.thumbnail_start(80, false);
    assert!(start.download);
    assert_eq!(start.commands.len(), 1);
    assert!(matches!(start.commands[0], OverlayCommand::Remove));
    let done = v.thumbnail_done(80, true);
    assert_eq!(done.len(), 1);
    assert!(matches!(&done[0], OverlayCommand::Add(id, 80) if id == "abc"));
}

#[test]
fn cached_thumbnail_only_adds() {
    let v = abc();
    let start = v.thumbnail_start(80, true);
    assert!(!start.download);
    assert_eq!(start.commands.len(), 1);
    assert!(matches!(&start.commands[0], OverlayCommand::Add(id, 80) if id == "abc"));
}

#[test]
fn failed_download_adds_nothing() {
    assert!(abc().thumbnail_done(80, false).is_empty());
}

#[test]
fn preview_text_with_and_without_thumbnail_room() {
    let v = abc();
    let body = "\u{1b}[1mTitle\u{1b}[0m\n\u{1b}[1mAuthor\u{1b}[0m | 2024-01-01 00:00:00\n\nAbout it";
    assert_eq!(v.preview(80, false, "2024-01-01 00:00:00"), body);
    let with_room = v.preview(10, true, "2024-01-01 00:00:00");
    assert_eq!(with_room, format!("\n\n\n{}", body));
    assert_eq!(v.preview(0, true, "2024-01-01 00:00:00"), format!("\n{}", body));
}
