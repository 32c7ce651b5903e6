use yt_grab::extractors::{ExtractError, StreamOption};
use yt_grab::search_commands::{
    pick_stream, sanitize, stream_out_name, BatchAction, BatchPhase, BatchState, EpisodeSel,
    StreamBatch,
};

fn option(height: Option<u32>, url: &str) -> StreamOption {
    StreamOption { height, url: url.to_string(), is_hls: false, referer: None, headers: vec![] }
}

fn batch(site: &str, n: usize) -> StreamBatch {
    StreamBatch {
        job_id: 9,
        site: site.to_string(),
        show_id: "show".to_string(),
        title: "T".to_string(),
        episodes: (1..=n)
            .map(|i| EpisodeSel { episode: i.to_string(), episode_id: None, title: None })
            .collect(),
        translation: "sub".to_string(),
        quality: "720".to_string(),
        dest_dir: "/dl".to_string(),
    }
}

#[test]
fn sanitizes_titles() {
    assert_eq!(sanitize("a/b:c?"), "a b c");
    assert_eq!(sanitize("  Name.  "), "Name");
    assert_eq!(sanitize("a. ."), "a.");
    assert_eq!(sanitize("..."), "video");
    assert_eq!(sanitize(""), "video");
    assert_eq!(sanitize("x\u{1}y"), "x y");
}

#[test]
fn names_output_files() {
    assert_eq!(stream_out_name("My: Show", "12.5", 3), "My  Show - E12.5");
    assert_eq!(stream_out_name("Film", "1", 1), "Film");
}

#[test]
fn picks_the_best_stream_within_the_target() {
    let v = vec![option(Some(480), "a"), option(Some(1080), "b"), option(Some(720), "c"), option(Some(720), "d")];
    let (o, q) = pick_stream(&v, "720").unwrap();
    assert_eq!((o.url.as_str(), q.as_str()), ("d", "best"));
    let (o, _) = pick_stream(&v, "2160").unwrap();
    assert_eq!(o.url, "b");
    let (o, q) = pick_stream(&v, "best").unwrap();
    assert_eq!((o.url.as_str(), q.as_str()), ("b", "best"));
    let (o, q) = pick_stream(&v, "mp3").unwrap();
    assert_eq!((o.url.as_str(), q.as_str()), ("b", "mp3"));
}

#[test]
fn falls_back_to_the_lowest_stream() {
    let v = vec![option(Some(720), "a"), option(None, "m"), option(Some(720), "b"), option(Some(1080), "c")];
    let (o, _) = pick_stream(&v, "480").unwrap();
    assert_eq!(o.url, "a");
}

#[test]
fn keeps_the_tier_for_master_playlists() {
    let v = vec![option(None, "m1"), option(None, "m2")];
    let (o, q) = pick_stream(&v, "1080").unwrap();
    assert_eq!((o.url.as_str(), q.as_str()), ("m1", "1080"));
    assert!(pick_stream(&vec![], "1080").is_none());
}

#[test]
fn unknown_site_ends_the_batch() {
    let b = batch("nowhere", 2);
    let mut s = BatchState::new();
    let a = s.begin(&b);
    assert_eq!(a.len(), 2);
    match &a[0] {
        BatchAction::EmitError(p) => assert_eq!((p.job_id, p.message.as_str()), (9, "unknown site: nowhere")),
        _ => panic!(),
    }
    match &a[1] {
        BatchAction::Finish(p) => assert!(!p.ok && !p.cancelled),
        _ => panic!(),
    }
    assert_eq!(s.phase, BatchPhase::Finished);
}

#[test]
fn batch_downloads_each_episode() {
    let b = batch("allanime", 2);
    let mut s = BatchState::new();
    assert!(matches!(s.begin(&b)[0], BatchAction::LocateArchive));
    let a = s.archive_located(&b, Ok("/arch".to_string()), false);
    match (&a[0], &a[1]) {
        (BatchAction::EmitItemStart(p), BatchAction::Resolve(r)) => {
            assert_eq!((p.item_index, p.item_count, p.title.as_str()), (1, 2, "Episode 1"));
            assert_eq!((r.episode.as_str(), r.episode_id.as_str(), r.show_id.as_str()), ("1", "1", "show"));
        }
        _ => panic!(),
    }
    let a = s.resolved(&b, Ok(vec![option(Some(1080), "u1"), option(Some(720), "u2")]), false);
    assert!(matches!(a[0], BatchAction::LocateFfmpeg));
    let a = s.ffmpeg_located(&b, Ok("/ff".to_string()), false);
    match &a[0] {
        BatchAction::Spawn(args) => {
            assert_eq!(args[0], "u2");
            assert_eq!(args[4], "/ff");
            assert_eq!(args[10], "/arch");
            assert_eq!(&args[31..], &["-f", "bv*+ba/b", "--merge-output-format", "mp4"]);
        }
        _ => panic!(),
    }
    assert!(s.spawned(&b, Ok(()), false).is_empty());
    let a = s.exited(&b, Some(0), false);
    assert!(matches!(a[1], BatchAction::Resolve(_)));
    let a = s.resolved(&b, Err(ExtractError::Network("down".into())), false);
    match &a[0] {
        BatchAction::EmitError(p) => assert_eq!(p.message, "Episode 2: network error: down"),
        _ => panic!(),
    }
    match (&a[1], &a[2]) {
        (BatchAction::RemoveArchive(x), BatchAction::Finish(p)) => {
            assert_eq!(x, "/arch");
            assert!(!p.ok && !p.cancelled);
        }
        _ => panic!(),
    }
}

#[test]
fn batch_succeeds_when_every_episode_does() {
    let b = batch("allanime", 1);
    let mut s = BatchState::new();
    s.begin(&b);
    s.archive_located(&b, Ok("/arch".to_string()), false);
    s.resolved(&b, Ok(vec![option(None, "m")]), false);
    s.ffmpeg_located(&b, Ok("/ff".to_string()), false);
    s.spawned(&b, Ok(()), false);
    let a = s.exited(&b, Some(0), false);
    match &a[1] {
        BatchAction::Finish(p) => assert!(p.ok && !p.cancelled),
        _ => panic!(),
    }
}

#[test]
fn cancellation_ends_the_batch() {
    let b = batch("allanime", 3);
    let mut s = BatchState::new();
    s.begin(&b);
    s.archive_located(&b, Ok("/arch".to_string()), false);
    s.resolved(&b, Ok(vec![option(Some(480), "x")]), false);
    s.ffmpeg_located(&b, Ok("/ff".to_string()), false);
    s.spawned(&b, Ok(()), false);
    let a = s.exited(&b, Some(0), true);
    match &a[1] {
        BatchAction::Finish(p) => assert!(!p.ok && p.cancelled),
        _ => panic!(),
    }
    assert_eq!(s.next, 0);
}

#[test]
fn failures_are_reported_per_episode() {
    let b = batch("allanime", 2);
    let mut s = BatchState::new();
    s.begin(&b);
    s.archive_located(&b, Ok("/arch".to_string()), false);
    let a = s.resolved(&b, Ok(vec![]), false);
    match &a[0] {
        BatchAction::EmitError(p) => assert_eq!(p.message, "Episode 1: no matching stream quality"),
        _ => panic!(),
    }
    s.resolved(&b, Ok(vec![option(None, "m")]), false);
    let a = s.ffmpeg_located(&b, Err("bundled ffmpeg not found".to_string()), false);
    match &a[0] {
        BatchAction::EmitError(p) => assert_eq!(p.message, "Episode 2: bundled ffmpeg not found"),
        _ => panic!(),
    }
    assert_eq!(s.phase, BatchPhase::Finished);
}

#[test]
fn archive_failure_ends_the_batch() {
    let b = batch("allanime", 1);
    let mut s = BatchState::new();
    s.begin(&b);
    let a = s.archive_located(&b, Err("no app dir".to_string()), false);
    match &a[0] {
        BatchAction::EmitError(p) => assert_eq!(p.message, "no app dir"),
        _ => panic!(),
    }
    assert!(s.resolved(&b, Ok(vec![]), false).is_empty());
}
