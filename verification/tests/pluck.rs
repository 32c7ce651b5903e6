use std::time::Duration;
use yt_grab::pluck::{
    archive_file_name, build_args, classify_line, finished_payload, numeric_text, DonePayload,
    throttle_due, OutputLine, Throttle, PROGRESS_TEMPLATE,
};

#[test]
fn names_the_archive_by_job() {
    assert_eq!(archive_file_name(42), "pluck-42.txt");
    assert_eq!(archive_file_name(0), "pluck-0.txt");
}

#[test]
fn builds_single_video_args() {
    let a = build_args("https://y/v", "720", "/dl", false, "/a/pluck-1.txt", "/bin/ffmpeg").unwrap();
    assert_eq!(a.len(), 28 + 3 + 4);
    assert_eq!(&a[0..5], &["https://y/v", "-P", "/dl", "--ffmpeg-location", "/bin/ffmpeg"]);
    assert_eq!(a[10], "/a/pluck-1.txt");
    assert_eq!(a[22], PROGRESS_TEMPLATE);
    assert_eq!(&a[28..31], &["--no-playlist", "-o", "%(title)s [%(id)s].%(ext)s"]);
    assert_eq!(
        &a[31..],
        &["-f", "bv*[height<=720]+ba/b[height<=720]", "--merge-output-format", "mp4"]
    );
}

#[test]
fn builds_playlist_audio_args() {
    let a = build_args("u", "mp3", "d", true, "ar", "ff").unwrap();
    assert_eq!(&a[28..30], &["--yes-playlist", "--ignore-errors"]);
    assert_eq!(
        &a[32..],
        &["-f", "ba/b", "-x", "--audio-format", "mp3", "--audio-quality", "0"]
    );
    let m = build_args("u", "m4a", "d", false, "ar", "ff").unwrap();
    assert_eq!(&m[31..], &["-f", "ba[ext=m4a]/ba/b", "-x", "--audio-format", "m4a"]);
    let b = build_args("u", "best", "d", false, "ar", "ff").unwrap();
    assert_eq!(&b[31..], &["-f", "bv*+ba/b", "--merge-output-format", "mp4"]);
}

#[test]
fn rejects_unknown_quality() {
    assert_eq!(
        build_args("u", "4320", "d", false, "a", "f"),
        Err("unknown quality option: 4320".to_string())
    );
}

#[test]
fn classifies_progress_lines() {
    match classify_line("PROG|2|1024|NA|2048|512.5|3\r\n") {
        OutputLine::Progress(p) => assert_eq!(p, vec!["2", "1024", "NA", "2048", "512.5", "3"]),
        _ => panic!(),
    }
    assert!(matches!(classify_line("PROG|1|2|3"), OutputLine::Other));
}

#[test]
fn classifies_item_lines() {
    match classify_line("  ITEM|1|3|A | B title\n") {
        OutputLine::ItemStart { index, count, title } => {
            assert_eq!((index.as_str(), count.as_str(), title.as_str()), ("1", "3", "A | B title"))
        }
        _ => panic!(),
    }
    match classify_line("DONE|NA|C:\\v\\a|b.mp4") {
        OutputLine::ItemDone { index, filepath } => {
            assert_eq!((index.as_str(), filepath.as_str()), ("NA", "C:\\v\\a|b.mp4"))
        }
        _ => panic!(),
    }
    assert!(matches!(classify_line("ITEM|1"), OutputLine::Other));
    assert!(matches!(classify_line("DONE|"), OutputLine::Other));
}

#[test]
fn classifies_errors_and_noise() {
    match classify_line("ERROR: [youtube] x: Video unavailable\r") {
        OutputLine::Error(l) => assert_eq!(l, "ERROR: [youtube] x: Video unavailable"),
        _ => panic!(),
    }
    assert!(matches!(classify_line("[download] 10%"), OutputLine::Other));
    assert!(matches!(classify_line(""), OutputLine::Other));
}

#[test]
fn reads_numeric_fields() {
    assert_eq!(numeric_text(" 12.5 ").as_deref(), Some("12.5"));
    assert_eq!(numeric_text("NA"), None);
    assert_eq!(numeric_text("None"), None);
    assert_eq!(numeric_text("  "), None);
    assert_eq!(numeric_text("NAN").as_deref(), Some("NAN"));
}

#[test]
fn reports_the_end_of_a_pluck() {
    assert_eq!(finished_payload(3, Some(0), false), DonePayload { job_id: 3, ok: true, cancelled: false });
    assert_eq!(finished_payload(3, Some(0), true), DonePayload { job_id: 3, ok: false, cancelled: true });
    assert_eq!(finished_payload(3, Some(1), false), DonePayload { job_id: 3, ok: false, cancelled: false });
    assert_eq!(finished_payload(3, None, false), DonePayload { job_id: 3, ok: false, cancelled: false });
}

#[test]
fn throttle_lets_the_first_event_through() {
    let mut t = Throttle::new(Duration::from_secs(3600));
    assert!(t.ready());
    assert!(!t.ready());
    let mut z = Throttle::new(Duration::from_secs(0));
    assert!(z.ready());
    assert!(z.ready());
}

#[test]
fn throttle_decides_on_the_elapsed_time() {
    assert!(throttle_due(false, 0, 150_000_000));
    assert!(!throttle_due(true, 149_999_999, 150_000_000));
    assert!(throttle_due(true, 150_000_000, 150_000_000));
    assert!(throttle_due(true, 2_000_000_000, 150_000_000));
    assert!(throttle_due(true, 0, 0));
}

#[test]
fn throttle_lets_an_event_through_after_the_interval() {
    let mut t = Throttle::new(Duration::from_millis(20));
    assert!(t.ready());
    assert!(!t.ready());
    let start = std::time::Instant::now();
    while start.elapsed() < Duration::from_millis(40) {}
    assert!(t.ready());
    assert!(!t.ready());
}
