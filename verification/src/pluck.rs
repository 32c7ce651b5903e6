//! The downloader's command line, its progress output, and the events sent
//! to the interface while a download runs.

use std::time::{Duration, Instant};
use vstd::prelude::*;
use crate::text::{
    chars_of, concat_str, decimal, decimal_chars, seqs_of, split_chars, split_seq, starts_with_str,
    str_eq, string_of, strings_view, strip_end, to_strings, trim, trim_chars,
    trim_end_in, CharClass,
};

verus! {

/// Machine-readable progress line. `NA` appears for unknown fields.
pub const PROGRESS_TEMPLATE: &'static str = "PROG|%(info.playlist_index)s|%(progress.downloaded_bytes)s|%(progress.total_bytes)s|%(progress.total_bytes_estimate)s|%(progress.speed)s|%(progress.eta)s";

/// The name of a pluck's download archive, kept in the app data dir and
/// keyed by job id. The downloader records finished items there so a
/// resumed pluck skips them.
pub fn archive_file_name(job_id: u64) -> (r: String)
    ensures
        r@ == "pluck-"@ + decimal(job_id as nat) + ".txt"@,
{
    let digits = string_of(&decimal_chars(job_id));
    let head = concat_str("pluck-", digits.as_str());
    concat_str(head.as_str(), ".txt")
}

#[derive(Debug, Clone)]
pub struct ItemStartPayload {
    pub job_id: u64,
    pub item_index: u64,
    pub item_count: u64,
    pub title: String,
}

#[derive(Debug, Clone)]
pub struct ItemDonePayload {
    pub job_id: u64,
    pub item_index: u64,
    pub filepath: String,
}

#[derive(Debug, Clone)]
pub struct ErrorPayload {
    pub job_id: u64,
    pub message: String,
}

#[derive(Debug, Clone, Copy, PartialEq, Eq, Structural)]
pub struct DonePayload {
    pub job_id: u64,
    pub ok: bool,
    pub cancelled: bool,
}

/// The arguments that every download gets: the URL, destination, ffmpeg
/// location, resume support (keep partial files, skip finished items),
/// retries, progress reporting and the item start/finish lines. (`--print`
/// implies `--simulate`, so `--no-simulate` is mandatory.)
pub open spec fn base_args(url: Seq<char>, dest_dir: Seq<char>, ffmpeg: Seq<char>, archive: Seq<char>) -> Seq<Seq<char>> {
    seq![
        url,
        "-P"@,
        dest_dir,
        "--ffmpeg-location"@,
        ffmpeg,
        "--windows-filenames"@,
        "--trim-filenames"@,
        "180"@,
        "--continue"@,
        "--download-archive"@,
        archive,
        "--retries"@,
        "10"@,
        "--fragment-retries"@,
        "10"@,
        "--concurrent-fragments"@,
        "4"@,
        "--no-mtime"@,
        "--no-warnings"@,
        "--newline"@,
        "--progress"@,
        "--progress-template"@,
        PROGRESS_TEMPLATE@,
        "--no-simulate"@,
        "--print"@,
        "before_dl:ITEM|%(playlist_index)s|%(playlist_count)s|%(title)s"@,
        "--print"@,
        "after_move:DONE|%(playlist_index)s|%(filepath)s"@,
    ]
}

/// The arguments that choose between a whole playlist and a single video,
/// with their output templates.
pub open spec fn mode_args(playlist_mode: bool) -> Seq<Seq<char>> {
    if playlist_mode {
        seq![
            "--yes-playlist"@,
            "--ignore-errors"@,
            "-o"@,
            "%(playlist_title)s/%(playlist_index)03d - %(title)s [%(id)s].%(ext)s"@,
        ]
    } else {
        seq!["--no-playlist"@, "-o"@, "%(title)s [%(id)s].%(ext)s"@]
    }
}

/// The format selection for each quality option; `None` for an unknown one.
pub open spec fn quality_args(quality: Seq<char>) -> Option<Seq<Seq<char>>> {
    if quality == "best"@ {
        Some(seq!["-f"@, "bv*+ba/b"@, "--merge-output-format"@, "mp4"@])
    } else if quality == "2160"@ {
        Some(seq!["-f"@, "bv*[height<=2160]+ba/b[height<=2160]"@, "--merge-output-format"@, "mp4"@])
    } else if quality == "1440"@ {
        Some(seq!["-f"@, "bv*[height<=1440]+ba/b[height<=1440]"@, "--merge-output-format"@, "mp4"@])
    } else if quality == "1080"@ {
        Some(seq!["-f"@, "bv*[height<=1080]+ba/b[height<=1080]"@, "--merge-output-format"@, "mp4"@])
    } else if quality == "720"@ {
        Some(seq!["-f"@, "bv*[height<=720]+ba/b[height<=720]"@, "--merge-output-format"@, "mp4"@])
    } else if quality == "480"@ {
        Some(seq!["-f"@, "bv*[height<=480]+ba/b[height<=480]"@, "--merge-output-format"@, "mp4"@])
    } else if quality == "mp3"@ {
        Some(seq!["-f"@, "ba/b"@, "-x"@, "--audio-format"@, "mp3"@, "--audio-quality"@, "0"@])
    } else if quality == "m4a"@ {
        Some(seq!["-f"@, "ba[ext=m4a]/ba/b"@, "-x"@, "--audio-format"@, "m4a"@])
    } else {
        None
    }
}

/// The selector for a height `h` admits every format of height at most `h`,
/// `h` itself included: for each height option the downloader is asked for
/// `-f bv*[height<=h]+ba/b[height<=h] --merge-output-format mp4`.
pub proof fn lemma_height_selector(h: Seq<char>)
    requires
        h == "2160"@ || h == "1440"@ || h == "1080"@ || h == "720"@ || h == "480"@,
    ensures
        quality_args(h) == Some(
            seq![
                "-f"@,
                "bv*[height<="@ + h + "]+ba/b[height<="@ + h + "]"@,
                "--merge-output-format"@,
                "mp4"@,
            ],
        ),
{
    reveal_strlit("bv*[height<=");
    reveal_strlit("]+ba/b[height<=");
    reveal_strlit("]");
    reveal_strlit("best");
    reveal_strlit("2160");
    reveal_strlit("1440");
    reveal_strlit("1080");
    reveal_strlit("720");
    reveal_strlit("480");
    reveal_strlit("bv*[height<=2160]+ba/b[height<=2160]");
    reveal_strlit("bv*[height<=1440]+ba/b[height<=1440]");
    reveal_strlit("bv*[height<=1080]+ba/b[height<=1080]");
    reveal_strlit("bv*[height<=720]+ba/b[height<=720]");
    reveal_strlit("bv*[height<=480]+ba/b[height<=480]");
    let sel = "bv*[height<="@ + h + "]+ba/b[height<="@ + h + "]"@;
    assert(h[0] != "best"@[0]);
    assert(h != "best"@);
    if h == "2160"@ {
        assert(sel =~= "bv*[height<=2160]+ba/b[height<=2160]"@);
    } else if h == "1440"@ {
        assert(h[0] != "2160"@[0]);
        assert(sel =~= "bv*[height<=1440]+ba/b[height<=1440]"@);
    } else if h == "1080"@ {
        assert(h[0] != "2160"@[0] && h[1] != "1440"@[1]);
        assert(sel =~= "bv*[height<=1080]+ba/b[height<=1080]"@);
    } else if h == "720"@ {
        assert(h[0] != "2160"@[0] && h[0] != "1440"@[0] && h[0] != "1080"@[0]);
        assert(sel =~= "bv*[height<=720]+ba/b[height<=720]"@);
    } else {
        assert(h[0] != "2160"@[0] && h[0] != "1440"@[0] && h[0] != "1080"@[0] && h[0] != "720"@[0]);
        assert(sel =~= "bv*[height<=480]+ba/b[height<=480]"@);
    }
}

/// An audio option asks the downloader to extract the audio (`-x`) in that
/// very format: its arguments hold `--audio-format` followed by the option.
pub proof fn lemma_audio_extraction(a: Seq<char>)
    requires
        a == "mp3"@ || a == "m4a"@,
    ensures
        quality_args(a) matches Some(s) && s.contains("-x"@) && exists|k: int|
            0 <= k && k + 1 < s.len() && #[trigger] s[k] == "--audio-format"@ && s[k + 1] == a,
{
    reveal_strlit("mp3");
    reveal_strlit("m4a");
    reveal_strlit("best");
    reveal_strlit("2160");
    reveal_strlit("1440");
    reveal_strlit("1080");
    reveal_strlit("720");
    reveal_strlit("480");
    assert(a[0] != "best"@[0] && a[0] != "2160"@[0] && a[0] != "1440"@[0] && a[0] != "1080"@[0]
        && a[0] != "720"@[0] && a[0] != "480"@[0]);
    let s = quality_args(a).unwrap();
    if a == "mp3"@ {
        assert(s[2] == "-x"@);
        assert(s.contains("-x"@));
        assert(s[3] == "--audio-format"@ && s[3int + 1] == a);
    } else {
        assert(a[1] != "mp3"@[1]);
        assert(s[2] == "-x"@);
        assert(s.contains("-x"@));
        assert(s[3] == "--audio-format"@ && s[3int + 1] == a);
    }
}

fn quality_strs(quality: &str) -> (r: Option<Vec<String>>)
    ensures
        match quality_args(quality@) {
            Some(a) => r matches Some(v) && strings_view(v@) == a,
            None => r is None,
        },
{
    let a: Vec<String> = if str_eq(quality, "best") {
        to_strings(&["-f", "bv*+ba/b", "--merge-output-format", "mp4"])
    } else if str_eq(quality, "2160") {
        to_strings(&["-f", "bv*[height<=2160]+ba/b[height<=2160]", "--merge-output-format", "mp4"])
    } else if str_eq(quality, "1440") {
        to_strings(&["-f", "bv*[height<=1440]+ba/b[height<=1440]", "--merge-output-format", "mp4"])
    } else if str_eq(quality, "1080") {
        to_strings(&["-f", "bv*[height<=1080]+ba/b[height<=1080]", "--merge-output-format", "mp4"])
    } else if str_eq(quality, "720") {
        to_strings(&["-f", "bv*[height<=720]+ba/b[height<=720]", "--merge-output-format", "mp4"])
    } else if str_eq(quality, "480") {
        to_strings(&["-f", "bv*[height<=480]+ba/b[height<=480]", "--merge-output-format", "mp4"])
    } else if str_eq(quality, "mp3") {
        to_strings(&["-f", "ba/b", "-x", "--audio-format", "mp3", "--audio-quality", "0"])
    } else if str_eq(quality, "m4a") {
        to_strings(&["-f", "ba[ext=m4a]/ba/b", "-x", "--audio-format", "m4a"])
    } else {
        return None;
    };
    Some(a)
}

/// The downloader's argument list for one pluck: the common arguments,
/// the playlist or single-video arguments, then the format selection of
/// the quality option; an unknown quality option is an error. `ffmpeg` is
/// the location of the bundled ffmpeg.
pub fn build_args(
    url: &str,
    quality: &str,
    dest_dir: &str,
    playlist_mode: bool,
    archive: &str,
    ffmpeg: &str,
) -> (r: Result<Vec<String>, String>)
    ensures
        match quality_args(quality@) {
            Some(q) => r matches Ok(v) && strings_view(v@) == base_args(url@, dest_dir@, ffmpeg@, archive@)
                + mode_args(playlist_mode) + q,
            None => r matches Err(e) && e@ == "unknown quality option: "@ + quality@,
        },
{
    let mut args = to_strings(
        &[
            url,
            "-P",
            dest_dir,
            "--ffmpeg-location",
            ffmpeg,
            "--windows-filenames",
            "--trim-filenames",
            "180",
            "--continue",
            "--download-archive",
            archive,
            "--retries",
            "10",
            "--fragment-retries",
            "10",
            "--concurrent-fragments",
            "4",
            "--no-mtime",
            "--no-warnings",
            "--newline",
            "--progress",
            "--progress-template",
            PROGRESS_TEMPLATE,
            "--no-simulate",
            "--print",
            "before_dl:ITEM|%(playlist_index)s|%(playlist_count)s|%(title)s",
            "--print",
            "after_move:DONE|%(playlist_index)s|%(filepath)s",
        ],
    );
    let mut mode = if playlist_mode {
        to_strings(
            &[
                "--yes-playlist",
                "--ignore-errors",
                "-o",
                "%(playlist_title)s/%(playlist_index)03d - %(title)s [%(id)s].%(ext)s",
            ],
        )
    } else {
        to_strings(&["--no-playlist", "-o", "%(title)s [%(id)s].%(ext)s"])
    };
    let ghost a0 = strings_view(args@);
    let ghost m0 = strings_view(mode@);
    args.append(&mut mode);
    assert(strings_view(args@) =~= a0 + m0);
    let mut q = match quality_strs(quality) {
        Some(q) => q,
        None => {
            return Err(concat_str("unknown quality option: ", quality));
        },
    };
    let ghost a1 = strings_view(args@);
    let ghost q0 = strings_view(q@);
    args.append(&mut q);
    assert(strings_view(args@) =~= a1 + q0);
    Ok(args)
}


/// A line of the downloader's output, cut into the fields the interface
/// reads.
#[derive(Debug)]
pub enum OutputLine {
    /// `PROG|...`: the `|`-separated fields after the tag (at least six:
    /// item index, downloaded bytes, total bytes, estimated total, speed,
    /// ETA).
    Progress(Vec<String>),
    /// `ITEM|index|count|title`: an item starts (the title may hold `|`).
    ItemStart { index: String, count: String, title: String },
    /// `DONE|index|filepath`: an item was moved to its final place.
    ItemDone { index: String, filepath: String },
    /// A line starting with `ERROR`, in full.
    Error(String),
    /// Anything else, including tagged lines with too few fields.
    Other,
}

/// A raw output line without its line break and surrounding white space.
pub open spec fn clean_line(raw: Seq<char>) -> Seq<char> {
    trim(strip_end(raw, CharClass::LineBreak))
}

/// What a cleaned line is, as plain values: a tag (`0` progress, `1` item
/// start, `2` item done, `3` error, `4` other) and its fields.
pub open spec fn spec_classify(line: Seq<char>) -> (nat, Seq<Seq<char>>) {
    if line.len() >= 5 && line.subrange(0, 5) == "PROG|"@ {
        let p = split_seq(line.subrange(5, line.len() as int), '|', 0);
        if p.len() < 6 {
            (4, Seq::empty())
        } else {
            (0, p)
        }
    } else if line.len() >= 5 && line.subrange(0, 5) == "ITEM|"@ {
        let p = split_seq(line.subrange(5, line.len() as int), '|', 3);
        if p.len() < 3 {
            (4, Seq::empty())
        } else {
            (1, p)
        }
    } else if line.len() >= 5 && line.subrange(0, 5) == "DONE|"@ {
        let p = split_seq(line.subrange(5, line.len() as int), '|', 2);
        if p.len() < 2 {
            (4, Seq::empty())
        } else {
            (2, p)
        }
    } else if line.len() >= 5 && line.subrange(0, 5) == "ERROR"@ {
        (3, seq![line])
    } else {
        (4, Seq::empty())
    }
}

/// The plain values of a classified line.
pub open spec fn output_view(o: OutputLine) -> (nat, Seq<Seq<char>>) {
    match o {
        OutputLine::Progress(p) => (0, strings_view(p@)),
        OutputLine::ItemStart { index, count, title } => (1, seq![index@, count@, title@]),
        OutputLine::ItemDone { index, filepath } => (2, seq![index@, filepath@]),
        OutputLine::Error(l) => (3, seq![l@]),
        OutputLine::Other => (4, Seq::empty()),
    }
}

/// Classify one line of the downloader's output.
pub fn classify_line(raw: &str) -> (r: OutputLine)
    ensures
        output_view(r) == spec_classify(clean_line(raw@)),
{
    let v = chars_of(raw);
    let w = trim_end_in(&v, CharClass::LineBreak);
    let line = trim_chars(&w);
    let ghost l = line@;
    proof {
        reveal_strlit("PROG|");
        reveal_strlit("ITEM|");
        reveal_strlit("DONE|");
        reveal_strlit("ERROR");
    }
    if starts_with_str(&line, "PROG|") {
        let rest = crate::text::copy_range(&line, 5, line.len());
        let p = split_chars(&rest, '|', 0);
        if p.len() < 6 {
            return OutputLine::Other;
        }
        let fields = strings_of_pieces(&p);
        return OutputLine::Progress(fields);
    }
    if starts_with_str(&line, "ITEM|") {
        let rest = crate::text::copy_range(&line, 5, line.len());
        let p = split_chars(&rest, '|', 3);
        if p.len() < 3 {
            return OutputLine::Other;
        }
        assert(seqs_of(p@)[0] == p@[0]@ && seqs_of(p@)[1] == p@[1]@ && seqs_of(p@)[2] == p@[2]@);
        let index = string_of(&p[0]);
        let count = string_of(&p[1]);
        let title = string_of(&p[2]);
        proof {
            crate::text::lemma_split_seq_at_most(rest@, '|', 3);
        }
        assert(seq![index@, count@, title@] =~= seqs_of(p@));
        return OutputLine::ItemStart { index, count, title };
    }
    if starts_with_str(&line, "DONE|") {
        let rest = crate::text::copy_range(&line, 5, line.len());
        let p = split_chars(&rest, '|', 2);
        if p.len() < 2 {
            return OutputLine::Other;
        }
        assert(seqs_of(p@)[0] == p@[0]@ && seqs_of(p@)[1] == p@[1]@);
        let index = string_of(&p[0]);
        let filepath = string_of(&p[1]);
        proof {
            crate::text::lemma_split_seq_at_most(rest@, '|', 2);
        }
        assert(seq![index@, filepath@] =~= seqs_of(p@));
        return OutputLine::ItemDone { index, filepath };
    }
    if starts_with_str(&line, "ERROR") {
        return OutputLine::Error(string_of(&line));
    }
    OutputLine::Other
}

/// Strings made of the given pieces.
fn strings_of_pieces(p: &Vec<Vec<char>>) -> (r: Vec<String>)
    ensures
        strings_view(r@) == seqs_of(p@),
{
    let mut r: Vec<String> = Vec::new();
    let mut i: usize = 0;
    while i < p.len()
        invariant
            i <= p.len(),
            r@.len() == i,
            strings_view(r@) == seqs_of(p@).subrange(0, i as int),
        decreases p.len() - i,
    {
        let ghost before = r@;
        let s = string_of(&p[i]);
        r.push(s);
        assert(r@ == before.push(s));
        assert(strings_view(r@) =~= seqs_of(p@).subrange(0, i + 1));
        i += 1;
    }
    assert(seqs_of(p@).subrange(0, p@.len() as int) =~= seqs_of(p@));
    r
}

/// The downloader prints the literal string "NA" (or "None") for unknown
/// numeric fields: the trimmed text of a field, unless it is empty or one
/// of those.
pub open spec fn spec_numeric_text(s: Seq<char>) -> Option<Seq<char>> {
    let t = trim(s);
    if t.len() == 0 || t == "NA"@ || t == "None"@ {
        None
    } else {
        Some(t)
    }
}

/// The text of a numeric output field, or `None` when the field is unknown.
pub fn numeric_text(s: &str) -> (r: Option<String>)
    ensures
        match r {
            Some(x) => spec_numeric_text(s@) == Some(x@),
            None => spec_numeric_text(s@) is None,
        },
{
    let v = chars_of(s);
    let t = trim_chars(&v);
    let ts = string_of(&t);
    if t.len() == 0 || str_eq(ts.as_str(), "NA") || str_eq(ts.as_str(), "None") {
        None
    } else {
        Some(ts)
    }
}

/// What a finished download reports: it succeeded when the downloader
/// exited with code 0 and the pluck was not cancelled.
pub fn finished_payload(job_id: u64, exit_code: Option<i32>, was_cancelled: bool) -> (r: DonePayload)
    ensures
        r == (DonePayload {
            job_id,
            ok: exit_code == Some(0i32) && !was_cancelled,
            cancelled: was_cancelled,
        }),
{
    let ok = match exit_code {
        Some(c) => c == 0 && !was_cancelled,
        None => false,
    };
    DonePayload { job_id, ok, cancelled: was_cancelled }
}


/// A point of the monotonic clock (`std::time::Instant`).
#[verifier::external_type_specification]
#[verifier::external_body]
pub struct ExInstant(Instant);

/// `Instant::now`: the current time of the monotonic clock. Nothing is
/// stated of the value.
#[verifier::external_body]
fn instant_now() -> Instant {
    Instant::now()
}

/// `Instant::elapsed`: the time since `i`. Nothing is stated of the value,
/// which depends on the clock.
#[verifier::external_body]
fn elapsed_since(i: &Instant) -> Duration {
    i.elapsed()
}

/// The length of a duration in nanoseconds, as `Duration::as_nanos`
/// computes it from the duration alone.
pub uninterp spec fn duration_nanos(d: Duration) -> u128;

/// `Duration::as_nanos`: the length of `d` in whole nanoseconds. The
/// contract claims only that the result is `duration_nanos` of `d`, a value
/// that depends on `d` alone.
#[verifier::external_body]
fn nanos_of(d: &Duration) -> (r: u128)
    ensures
        r == duration_nanos(*d),
{
    d.as_nanos()
}

/// The throttle's decision: an event may go out when none has gone out
/// yet, or when at least the interval has passed since the last one.
pub open spec fn spec_throttle_due(fired: bool, elapsed_nanos: int, interval_nanos: int) -> bool {
    !fired || elapsed_nanos >= interval_nanos
}

/// Decides, from the time elapsed since the last event let through (in
/// nanoseconds, read from the clock by the caller), whether the next event
/// may go out.
pub fn throttle_due(fired: bool, elapsed_nanos: u128, interval_nanos: u128) -> (r: bool)
    ensures
        r == spec_throttle_due(fired, elapsed_nanos as int, interval_nanos as int),
{
    !fired || elapsed_nanos >= interval_nanos
}

/// Rate limiting: once an event has gone out, the throttle lets the next
/// one through only when at least the interval it was made with, in
/// nanoseconds, has elapsed since it.
pub proof fn lemma_throttle_spacing(elapsed_nanos: int, interval: Duration)
    requires
        spec_throttle_due(true, elapsed_nanos, duration_nanos(interval) as int),
    ensures
        elapsed_nanos >= duration_nanos(interval),
{
}

/// Rate limiter for progress events so the webview isn't flooded (the
/// downloader emits many progress lines per second per fragment).
pub struct Throttle {
    last: Option<Instant>,
    interval: Duration,
    interval_nanos: u128,
    reading: Ghost<u128>,
}

impl Throttle {
    /// The interval's length in nanoseconds is read once, from the interval.
    #[verifier::type_invariant]
    spec fn interval_read(&self) -> bool {
        self.interval_nanos == duration_nanos(self.interval)
    }

    /// The minimum time between two events.
    pub closed spec fn spec_interval(&self) -> Duration {
        self.interval
    }

    /// The minimum time between two events, in nanoseconds, as read from
    /// the interval when the throttle was made.
    pub closed spec fn interval_nanos(&self) -> u128 {
        self.interval_nanos
    }

    /// Whether the throttle has let an event through yet.
    pub closed spec fn has_fired(&self) -> bool {
        self.last is Some
    }

    /// The instant of the last event let through, if any.
    pub closed spec fn last_event(&self) -> Option<Instant> {
        self.last
    }

    /// The clock reading the last call of `ready` decided on: the
    /// nanoseconds elapsed since the last event let through before that call
    /// (0 when there was none).
    pub closed spec fn last_reading(&self) -> u128 {
        self.reading@
    }

    /// A throttle whose first request is always let through. It starts with
    /// no last event, so it does not read the clock and cannot fail, whatever
    /// the interval (one that reaches back before the clock's origin
    /// included).
    pub fn new(interval: Duration) -> (r: Self)
        ensures
            r.spec_interval() == interval,
            r.interval_nanos() == duration_nanos(interval),
            !r.has_fired(),
    {
        let interval_nanos = nanos_of(&interval);
        Self { last: None, interval, interval_nanos, reading: Ghost(0) }
    }

    /// Whether an event may go out now: the first time, and afterwards when
    /// at least the interval has passed since the last event let through,
    /// which then becomes the last one. The time elapsed is read from the
    /// clock and kept as `last_reading`.
    pub fn ready(&mut self) -> (r: bool)
        ensures
            final(self).spec_interval() == old(self).spec_interval(),
            final(self).interval_nanos() == old(self).interval_nanos(),
            !old(self).has_fired() ==> final(self).last_reading() == 0,
            r == spec_throttle_due(
                old(self).has_fired(),
                final(self).last_reading() as int,
                duration_nanos(old(self).spec_interval()) as int,
            ),
            r ==> final(self).has_fired(),
            !r ==> final(self).last_event() == old(self).last_event(),
    {
        proof {
            use_type_invariant(&*self);
        }
        let fired = self.last.is_some();
        let elapsed: u128 = match &self.last {
            None => 0,
            Some(last) => {
                let e = elapsed_since(last);
                nanos_of(&e)
            },
        };
        self.reading = Ghost(elapsed);
        let due = throttle_due(fired, elapsed, self.interval_nanos);
        if due {
            self.last = Some(instant_now());
        }
        due
    }
}

} // verus!
