//! Streaming-site search: choosing a stream for the requested quality,
//! naming the output file, and the resolve-then-download loop of a batch of
//! episodes.
//!
//! A batch resolves each chosen episode to a fresh stream URL (tokens
//! expire, so this must happen at download time — never from a persisted
//! URL) and drives a single job through the same event contract the
//! playlist UI already renders.

use vstd::prelude::*;
use crate::extractors::{
    error_text, get, option_view, spec_get, EpisodeRef, ExtractError, OptionView, StreamOption,
};
use crate::pluck::{base_args, build_args, mode_args, quality_args, DonePayload, ErrorPayload, ItemStartPayload};
use crate::text::{
    chars_of, concat_str, str_eq, string_of, strings_view, strip_end, strip_start, trim,
    trim_chars, trim_end_in, CharClass,
};

verus! {

/// One episode the user selected for download. `episode` is the site's own
/// label; `episode_id` is its unique key (e.g. page URL) when the label
/// alone can't locate it; `title` is what the per-item row displays.
#[derive(Debug, Clone)]
pub struct EpisodeSel {
    pub episode: String,
    pub episode_id: Option<String>,
    pub title: Option<String>,
}

/// Characters that are illegal in filenames or would spawn subdirectories.
pub open spec fn illegal_in_name(c: char) -> bool {
    c == '<' || c == '>' || c == ':' || c == '"' || c == '/' || c == '\\' || c == '|' || c == '?'
        || c == '*' || (c as u32) < 0x20
}

/// A character of a file name: illegal ones become spaces.
pub open spec fn name_char(c: char) -> char {
    if illegal_in_name(c) {
        ' '
    } else {
        c
    }
}

/// The file-name form of a title: illegal characters turned into spaces,
/// white space trimmed, trailing dots removed, trimmed again; `video` when
/// nothing is left.
pub open spec fn spec_sanitize(s: Seq<char>) -> Seq<char> {
    let cleaned = s.map_values(|c: char| name_char(c));
    let t = trim(strip_end(trim(cleaned), CharClass::Is('.')));
    if t.len() == 0 {
        "video"@
    } else {
        t
    }
}

/// Stripping keeps only characters of the input.
proof fn lemma_strip_keeps(s: Seq<char>, k: CharClass, p: spec_fn(char) -> bool)
    requires
        forall|i: int| 0 <= i < s.len() ==> p(#[trigger] s[i]),
    ensures
        forall|i: int| 0 <= i < strip_start(s, k).len() ==> p(#[trigger] strip_start(s, k)[i]),
        forall|i: int| 0 <= i < strip_end(s, k).len() ==> p(#[trigger] strip_end(s, k)[i]),
    decreases s.len(),
{
    if s.len() > 0 {
        assert forall|i: int| 0 <= i < s.drop_first().len() implies p(#[trigger] s.drop_first()[i]) by {
            assert(s.drop_first()[i] == s[i + 1]);
        }
        assert forall|i: int| 0 <= i < s.drop_last().len() implies p(#[trigger] s.drop_last()[i]) by {
            assert(s.drop_last()[i] == s[i]);
        }
        lemma_strip_keeps(s.drop_first(), k, p);
        lemma_strip_keeps(s.drop_last(), k, p);
        if crate::text::in_class(k, s[0]) {
            assert(strip_start(s, k) == strip_start(s.drop_first(), k));
        } else {
            assert(strip_start(s, k) == s);
        }
        if crate::text::in_class(k, s.last()) {
            assert(strip_end(s, k) == strip_end(s.drop_last(), k));
        } else {
            assert(strip_end(s, k) == s);
        }
    }
}

/// Strip characters that are illegal in filenames or would spawn
/// subdirectories. The result is never empty and holds no such character.
pub fn sanitize(s: &str) -> (r: String)
    ensures
        r@ == spec_sanitize(s@),
        r@.len() > 0,
        forall|i: int| 0 <= i < r@.len() ==> !illegal_in_name(#[trigger] r@[i]),
{
    let v = chars_of(s);
    let mut cleaned: Vec<char> = Vec::new();
    let mut i: usize = 0;
    while i < v.len()
        invariant
            i <= v.len(),
            cleaned@ == v@.subrange(0, i as int).map_values(|c: char| name_char(c)),
        decreases v.len() - i,
    {
        let c = v[i];
        let u = c as u32;
        let d = if c == '<' || c == '>' || c == ':' || c == '"' || c == '/' || c == '\\' || c == '|'
            || c == '?' || c == '*' || u < 0x20 {
            ' '
        } else {
            c
        };
        cleaned.push(d);
        assert(cleaned@ =~= v@.subrange(0, i + 1).map_values(|c: char| name_char(c)));
        i += 1;
    }
    assert(v@.subrange(0, v@.len() as int) =~= v@);
    let t1 = trim_chars(&cleaned);
    let t2 = trim_end_in(&t1, CharClass::Is('.'));
    let t3 = trim_chars(&t2);
    proof {
        let p = |c: char| !illegal_in_name(c);
        assert forall|j: int| 0 <= j < cleaned@.len() implies p(#[trigger] cleaned@[j]) by {
            assert(cleaned@[j] == name_char(v@[j]));
        }
        lemma_strip_keeps(cleaned@, CharClass::Space, p);
        let a = strip_start(cleaned@, CharClass::Space);
        lemma_strip_keeps(a, CharClass::Space, p);
        lemma_strip_keeps(t1@, CharClass::Is('.'), p);
        let b = strip_start(t2@, CharClass::Space);
        lemma_strip_keeps(t2@, CharClass::Space, p);
        lemma_strip_keeps(b, CharClass::Space, p);
        assert forall|j: int| 0 <= j < t3@.len() implies !illegal_in_name(#[trigger] t3@[j]) by {
            assert(p(t3@[j]));
        }
    }
    if t3.len() == 0 {
        proof {
            reveal_strlit("video");
        }
        String::from_str("video")
    } else {
        string_of(&t3)
    }
}

/// The output file name (the downloader appends the extension): movies get
/// the bare title; series episodes get `Title - E<ep>`.
pub open spec fn spec_stream_out_name(title: Seq<char>, episode: Seq<char>, total: u64) -> Seq<char> {
    if total > 1 {
        spec_sanitize(title) + " - E"@ + episode
    } else {
        spec_sanitize(title)
    }
}

/// Build the output filename (the downloader appends `.%(ext)s`).
pub fn stream_out_name(title: &str, episode: &str, total: u64) -> (r: String)
    ensures
        r@ == spec_stream_out_name(title@, episode@, total),
{
    let base = sanitize(title);
    if total > 1 {
        let head = concat_str(base.as_str(), " - E");
        concat_str(head.as_str(), episode)
    } else {
        base
    }
}


/// The height that a quality option asks for, if it names one.
pub open spec fn target_height(quality: Seq<char>) -> Option<nat> {
    if quality == "2160"@ {
        Some(2160)
    } else if quality == "1440"@ {
        Some(1440)
    } else if quality == "1080"@ {
        Some(1080)
    } else if quality == "720"@ {
        Some(720)
    } else if quality == "480"@ {
        Some(480)
    } else {
        None
    }
}

fn target_of(quality: &str) -> (r: Option<u32>)
    ensures
        match target_height(quality@) {
            Some(t) => r == Some(t as u32),
            None => r is None,
        },
{
    if str_eq(quality, "2160") {
        Some(2160)
    } else if str_eq(quality, "1440") {
        Some(1440)
    } else if str_eq(quality, "1080") {
        Some(1080)
    } else if str_eq(quality, "720") {
        Some(720)
    } else if str_eq(quality, "480") {
        Some(480)
    } else {
        None
    }
}

/// A fixed-resolution option, at most `cap` high when a cap is given.
pub open spec fn within(o: StreamOption, cap: Option<nat>) -> bool {
    match o.height {
        Some(h) => match cap {
            Some(c) => h <= c,
            None => true,
        },
        None => false,
    }
}

/// The height of a fixed-resolution option.
pub open spec fn fixed_height(o: StreamOption) -> nat {
    match o.height {
        Some(h) => h as nat,
        None => 0,
    }
}

/// `i` is the last of the highest options within `cap` (`max_by_key`
/// returns the last maximum).
pub open spec fn is_last_highest(v: Seq<StreamOption>, cap: Option<nat>, i: int) -> bool {
    &&& 0 <= i < v.len()
    &&& within(v[i], cap)
    &&& forall|j: int| 0 <= j < v.len() && within(#[trigger] v[j], cap) ==> fixed_height(v[j]) <= fixed_height(v[i])
    &&& forall|j: int| i < j < v.len() && within(#[trigger] v[j], cap) ==> fixed_height(v[j]) < fixed_height(v[i])
}

/// `i` is the first of the lowest fixed-resolution options (`min_by_key`
/// returns the first minimum).
pub open spec fn is_first_lowest(v: Seq<StreamOption>, i: int) -> bool {
    &&& 0 <= i < v.len()
    &&& within(v[i], None)
    &&& forall|j: int| 0 <= j < v.len() && within(#[trigger] v[j], None) ==> fixed_height(v[j]) >= fixed_height(v[i])
    &&& forall|j: int| 0 <= j < i && within(#[trigger] v[j], None) ==> fixed_height(v[j]) > fixed_height(v[i])
}

/// Whether some option is within `cap`.
pub open spec fn any_within(v: Seq<StreamOption>, cap: Option<nat>) -> bool {
    exists|j: int| 0 <= j < v.len() && within(#[trigger] v[j], cap)
}

/// Which option is chosen when some option has a fixed resolution: for a
/// quality that names a height, the highest option at most that high, or
/// failing that the lowest one; otherwise the highest one.
pub open spec fn is_chosen(v: Seq<StreamOption>, quality: Seq<char>, i: int) -> bool {
    match target_height(quality) {
        Some(t) => if any_within(v, Some(t)) {
            is_last_highest(v, Some(t), i)
        } else {
            is_first_lowest(v, i)
        },
        None => is_last_highest(v, None, i),
    }
}

/// The chosen option is unique.
pub proof fn lemma_chosen_unique(v: Seq<StreamOption>, quality: Seq<char>, i: int, j: int)
    requires
        is_chosen(v, quality, i),
        is_chosen(v, quality, j),
    ensures
        i == j,
{
    if i < j {
        assert(within(v[j], None) ==> within(v[j], None));
    } else if j < i {
    }
}

fn last_highest(v: &Vec<StreamOption>, cap: Option<u32>) -> (r: Option<usize>)
    ensures
        ({
            let c = match cap {
                Some(c) => Some(c as nat),
                None => None,
            };
            match r {
                Some(i) => is_last_highest(v@, c, i as int),
                None => !any_within(v@, c),
            }
        }),
{
    let ghost c: Option<nat> = match cap {
        Some(c) => Some(c as nat),
        None => None,
    };
    let mut best: Option<usize> = None;
    let mut i: usize = 0;
    while i < v.len()
        invariant
            i <= v.len(),
            c == (match cap {
                Some(c) => Some(c as nat),
                None => None::<nat>,
            }),
            match best {
                Some(b) => b < i && within(v@[b as int], c) && (forall|j: int|
                    0 <= j < i && within(#[trigger] v@[j], c) ==> fixed_height(v@[j])
                        <= fixed_height(v@[b as int])) && (forall|j: int|
                    b < j < i && within(#[trigger] v@[j], c) ==> fixed_height(v@[j]) < fixed_height(
                        v@[b as int],
                    )),
                None => forall|j: int| 0 <= j < i ==> !within(#[trigger] v@[j], c),
            },
        decreases v.len() - i,
    {
        let ok = match v[i].height {
            Some(h) => match cap {
                Some(cv) => h <= cv,
                None => true,
            },
            None => false,
        };
        assert(ok == within(v@[i as int], c));
        if ok {
            let h = match v[i].height {
                Some(h) => h,
                None => 0,
            };
            match best {
                Some(b) => {
                    let hb = match v[b].height {
                        Some(x) => x,
                        None => 0,
                    };
                    if h >= hb {
                        best = Some(i);
                    }
                },
                None => {
                    best = Some(i);
                },
            }
        }
        i += 1;
    }
    match best {
        Some(b) => Some(b),
        None => None,
    }
}

fn first_lowest(v: &Vec<StreamOption>) -> (r: Option<usize>)
    ensures
        match r {
            Some(i) => is_first_lowest(v@, i as int),
            None => !any_within(v@, None),
        },
{
    let mut best: Option<usize> = None;
    let mut i: usize = 0;
    while i < v.len()
        invariant
            i <= v.len(),
            match best {
                Some(b) => b < i && within(v@[b as int], None) && (forall|j: int|
                    0 <= j < i && within(#[trigger] v@[j], None) ==> fixed_height(v@[j])
                        >= fixed_height(v@[b as int])) && (forall|j: int|
                    0 <= j < b && within(#[trigger] v@[j], None) ==> fixed_height(v@[j]) > fixed_height(
                        v@[b as int],
                    )),
                None => forall|j: int| 0 <= j < i ==> !within(#[trigger] v@[j], None),
            },
        decreases v.len() - i,
    {
        match v[i].height {
            Some(h) => match best {
                Some(b) => {
                    let hb = match v[b].height {
                        Some(x) => x,
                        None => 0,
                    };
                    if h < hb {
                        best = Some(i);
                    }
                },
                None => {
                    best = Some(i);
                },
            },
            None => {},
        }
        i += 1;
    }
    best
}

/// The format tier handed to the downloader with a fixed-resolution
/// stream: the audio format when one was asked for, `best` otherwise.
pub open spec fn fixed_tier(quality: Seq<char>) -> Seq<char> {
    if quality == "mp3"@ || quality == "m4a"@ {
        quality
    } else {
        "best"@
    }
}

/// `(o, q)` is what `pick_stream` gives for a non-empty `opts`: with some
/// fixed-resolution option, the chosen one and its tier; otherwise the first
/// option and the requested quality.
pub open spec fn picks(opts: Seq<StreamOption>, quality: Seq<char>, o: OptionView, q: Seq<char>) -> bool {
    if any_within(opts, None) {
        (exists|i: int| is_chosen(opts, quality, i) && o == option_view(#[trigger] opts[i])) && q
            == fixed_tier(quality)
    } else {
        o == option_view(opts[0]) && q == quality
    }
}

/// The tier handed to the downloader keeps an audio request: whatever the
/// options, asking for `mp3` or `m4a` gives that format back as the tier.
/// The tier is always the requested quality or `best`, and `best` replaces
/// another request only for a fixed-resolution stream and a quality that is
/// not an audio format.
pub proof fn lemma_tier_keeps_audio(opts: Seq<StreamOption>, quality: Seq<char>, o: OptionView, q: Seq<char>)
    requires
        opts.len() > 0,
        picks(opts, quality, o, q),
    ensures
        quality == "mp3"@ || quality == "m4a"@ ==> q == quality,
        q == quality || q == "best"@,
        q != quality ==> any_within(opts, None) && quality != "mp3"@ && quality != "m4a"@,
{
}

/// For a quality that names a height `t`, when some option is at most `t`
/// high, the picked option is at most `t` high and no option at most `t`
/// high is higher than it; when every fixed option is higher than `t`, the
/// picked one is the lowest of them. Without a height in the quality, the
/// picked option is the highest.
pub proof fn lemma_pick_respects_height(opts: Seq<StreamOption>, quality: Seq<char>, o: OptionView, q: Seq<char>)
    requires
        opts.len() > 0,
        picks(opts, quality, o, q),
        exists|j: int| 0 <= j < opts.len() && (#[trigger] opts[j]).height is Some,
    ensures
        o.0 is Some,
        target_height(quality) matches Some(t) ==> {
            if exists|j: int| 0 <= j < opts.len() && (#[trigger] opts[j]).height is Some && opts[j].height.unwrap() <= t {
                &&& o.0.unwrap() <= t
                &&& forall|j: int| 0 <= j < opts.len() && (#[trigger] opts[j]).height is Some && opts[j].height.unwrap() <= t
                    ==> opts[j].height.unwrap() <= o.0.unwrap()
            } else {
                forall|j: int| 0 <= j < opts.len() && (#[trigger] opts[j]).height is Some ==> o.0.unwrap() <= opts[j].height.unwrap()
            }
        },
        target_height(quality) is None ==> forall|j: int| 0 <= j < opts.len()
            && (#[trigger] opts[j]).height is Some ==> opts[j].height.unwrap() <= o.0.unwrap(),
{
    let j0 = choose|j: int| 0 <= j < opts.len() && (#[trigger] opts[j]).height is Some;
    assert(within(opts[j0], None));
    let i = choose|i: int| is_chosen(opts, quality, i) && o == option_view(#[trigger] opts[i]);
    match target_height(quality) {
        Some(t) => {
            if exists|j: int| 0 <= j < opts.len() && (#[trigger] opts[j]).height is Some && opts[j].height.unwrap() <= t {
                let j1 = choose|j: int| 0 <= j < opts.len() && (#[trigger] opts[j]).height is Some && opts[j].height.unwrap() <= t;
                assert(within(opts[j1], Some(t)));
                assert forall|j: int| 0 <= j < opts.len() && (#[trigger] opts[j]).height is Some && opts[j].height.unwrap() <= t
                    implies opts[j].height.unwrap() <= o.0.unwrap() by {
                    assert(within(opts[j], Some(t)));
                }
            } else {
                assert(!any_within(opts, Some(t))) by {
                    if any_within(opts, Some(t)) {
                        let k = choose|k: int| 0 <= k < opts.len() && within(#[trigger] opts[k], Some(t));
                        assert(opts[k].height is Some && opts[k].height.unwrap() <= t);
                    }
                }
                assert forall|j: int| 0 <= j < opts.len() && (#[trigger] opts[j]).height is Some
                    implies o.0.unwrap() <= opts[j].height.unwrap() by {
                    assert(within(opts[j], None));
                }
            }
        },
        None => {
            assert forall|j: int| 0 <= j < opts.len() && (#[trigger] opts[j]).height is Some
                implies opts[j].height.unwrap() <= o.0.unwrap() by {
                assert(within(opts[j], None));
            }
        },
    }
}

/// Choose the stream variant for the requested quality and the format tier
/// to hand the downloader. Discrete variants (fixed-resolution URLs) are
/// matched here and downloaded as-is (tier `best`, or the audio format
/// when one was asked for); a master playlist keeps the requested tier so
/// the downloader's own height filter picks the variant. No options, no
/// choice.
pub fn pick_stream(opts: &Vec<StreamOption>, quality: &str) -> (r: Option<(StreamOption, String)>)
    ensures
        opts@.len() == 0 <==> r is None,
        r matches Some((o, q)) ==> picks(opts@, quality@, option_view(o), q@),
{
    if opts.len() == 0 {
        return None;
    }
    match last_highest(opts, None) {
        None => {
            return Some((opts[0].duplicate(), String::from_str(quality)));
        },
        Some(top) => {
            let idx = match target_of(quality) {
                Some(t) => match last_highest(opts, Some(t)) {
                    Some(i) => i,
                    None => match first_lowest(opts) {
                        Some(i) => i,
                        None => top,
                    },
                },
                None => top,
            };
            assert(is_chosen(opts@, quality@, idx as int));
            proof {
                reveal_strlit("mp3");
                reveal_strlit("m4a");
            }
            let q = if str_eq(quality, "mp3") || str_eq(quality, "m4a") {
                String::from_str(quality)
            } else {
                String::from_str("best")
            };
            let o = opts[idx].duplicate();
            assert(option_view(o) == option_view(opts@[idx as int]));
            Some((o, q))
        },
    }
}


/// A batch of episodes of one show to resolve and download as one job.
#[derive(Debug)]
pub struct StreamBatch {
    pub job_id: u64,
    pub site: String,
    pub show_id: String,
    pub title: String,
    pub episodes: Vec<EpisodeSel>,
    pub translation: String,
    pub quality: String,
    pub dest_dir: String,
}

/// Where a batch stands.
#[derive(Debug, Clone, Copy, PartialEq, Eq, Structural)]
pub enum BatchPhase {
    /// Not started.
    Start,
    /// Waiting for the location of the job's download archive.
    LocatingArchive,
    /// Waiting for the streams of the current episode.
    Resolving,
    /// Waiting for the location of ffmpeg.
    LocatingFfmpeg,
    /// Waiting for the downloader to start.
    Spawning,
    /// Waiting for the downloader to exit.
    Downloading,
    /// Done; the job's end was reported.
    Finished,
}

/// The progress of a batch.
#[derive(Debug)]
pub struct BatchState {
    pub phase: BatchPhase,
    /// Index of the current episode (the next one between episodes).
    pub next: usize,
    /// No episode has failed so far.
    pub ok_all: bool,
    /// Some episode has been downloaded.
    pub any_done: bool,
    /// The job's download archive.
    pub archive: String,
    /// The stream chosen for the current episode.
    pub stream_url: String,
    /// The format tier chosen for the current episode.
    pub stream_quality: String,
}

/// What the batch asks of its runner.
#[derive(Debug)]
pub enum BatchAction {
    /// Find the job's download archive; answer with `archive_located`.
    LocateArchive,
    /// Report an error to the interface.
    EmitError(ErrorPayload),
    /// Report that an item starts.
    EmitItemStart(ItemStartPayload),
    /// Resolve the episode's streams; answer with `resolved`.
    Resolve(EpisodeRef),
    /// Find ffmpeg; answer with `ffmpeg_located`.
    LocateFfmpeg,
    /// Start the downloader with these arguments; answer with `spawned`,
    /// then, when it exits, with `exited`.
    Spawn(Vec<String>),
    /// Delete the download archive: re-resolution is required on any
    /// resume, so the archive is disposable.
    RemoveArchive(String),
    /// Report the end of the job.
    Finish(DonePayload),
}

/// The row title of an episode: its own title, or `Episode <label>`.
pub open spec fn item_title(e: EpisodeSel) -> Seq<char> {
    match e.title {
        Some(t) => t@,
        None => "Episode "@ + e.episode@,
    }
}

/// The error text for a failed episode.
pub open spec fn episode_error(e: EpisodeSel, msg: Seq<char>) -> Seq<char> {
    "Episode "@ + e.episode@ + ": "@ + msg
}

/// An error report of the job.
pub open spec fn is_error_report(a: BatchAction, job_id: u64, msg: Seq<char>) -> bool {
    a matches BatchAction::EmitError(p) && p.job_id == job_id && p.message@ == msg
}

/// The end report of the job.
pub open spec fn is_finish(a: BatchAction, job_id: u64, ok: bool, cancelled: bool) -> bool {
    a matches BatchAction::Finish(p) && p == (DonePayload { job_id, ok, cancelled })
}

/// How the batch goes on from episode `next`, with the given outcome so
/// far: when cancelled or past the last episode it removes the archive and
/// reports the end (successful when every episode succeeded, one was
/// downloaded, and the job was not cancelled); otherwise it reports that
/// the episode starts and asks for its streams, keyed by its own id when it
/// has one and by its label otherwise.
pub open spec fn goes_on(
    batch: StreamBatch,
    prev: BatchState,
    next: int,
    ok_all: bool,
    any_done: bool,
    cancelled: bool,
    st: BatchState,
    acts: Seq<BatchAction>,
) -> bool {
    &&& st.next == next
    &&& st.ok_all == ok_all
    &&& st.any_done == any_done
    &&& st.archive == prev.archive
    &&& st.stream_url == prev.stream_url
    &&& st.stream_quality == prev.stream_quality
    &&& if cancelled || next >= batch.episodes@.len() {
        &&& st.phase == BatchPhase::Finished
        &&& acts.len() == 2
        &&& acts[0] matches BatchAction::RemoveArchive(a) && a@ == prev.archive@
        &&& is_finish(acts[1], batch.job_id, ok_all && any_done && !cancelled, cancelled)
    } else {
        let e = batch.episodes@[next];
        &&& st.phase == BatchPhase::Resolving
        &&& acts.len() == 2
        &&& acts[0] matches BatchAction::EmitItemStart(p) && p.job_id == batch.job_id
            && p.item_index == next + 1 && p.item_count == batch.episodes@.len() && p.title@
            == item_title(e)
        &&& acts[1] matches BatchAction::Resolve(r) && r.site@ == batch.site@ && r.show_id@
            == batch.show_id@ && r.episode@ == e.episode@ && r.episode_id@ == (match e.episode_id {
            Some(x) => x@,
            None => e.episode@,
        }) && r.translation@ == batch.translation@
    }
}

/// How the batch goes on after the current episode failed with `msg`: the
/// error is reported and the next episode follows.
pub open spec fn fails_episode(
    batch: StreamBatch,
    prev: BatchState,
    msg: Seq<char>,
    cancelled: bool,
    st: BatchState,
    acts: Seq<BatchAction>,
) -> bool {
    &&& acts.len() >= 1
    &&& is_error_report(acts[0], batch.job_id, episode_error(batch.episodes@[prev.next as int], msg))
    &&& goes_on(batch, prev, prev.next + 1, false, prev.any_done, cancelled, st, acts.drop_first())
}

/// Nothing happens: an answer that the batch is not waiting for.
pub open spec fn ignored(prev: BatchState, st: BatchState, acts: Seq<BatchAction>) -> bool {
    st == prev && acts.len() == 0
}

impl BatchState {
    /// A batch that has not started.
    pub fn new() -> (r: BatchState)
        ensures
            r.phase == BatchPhase::Start,
            r.next == 0,
            r.ok_all,
            !r.any_done,
            r.archive@.len() == 0 && r.stream_url@.len() == 0 && r.stream_quality@.len() == 0,
    {
        BatchState {
            phase: BatchPhase::Start,
            next: 0,
            ok_all: true,
            any_done: false,
            archive: String::new(),
            stream_url: String::new(),
            stream_quality: String::new(),
        }
    }

    /// Goes on from episode `self.next`.
    fn go_on(&mut self, batch: &StreamBatch, cancelled: bool) -> (r: Vec<BatchAction>)
        requires
            old(self).next <= batch.episodes@.len(),
        ensures
            goes_on(*batch, *old(self), old(self).next as int, old(self).ok_all, old(self).any_done, cancelled, *final(self), r@),
            final(self).next <= batch.episodes@.len(),
    {
        let mut acts: Vec<BatchAction> = Vec::new();
        if cancelled || self.next >= batch.episodes.len() {
            self.phase = BatchPhase::Finished;
            acts.push(BatchAction::RemoveArchive(self.archive.clone()));
            acts.push(
                BatchAction::Finish(
                    DonePayload {
                        job_id: batch.job_id,
                        ok: self.ok_all && self.any_done && !cancelled,
                        cancelled,
                    },
                ),
            );
        } else {
            let e = &batch.episodes[self.next];
            let title = match &e.title {
                Some(t) => t.clone(),
                None => concat_str("Episode ", e.episode.as_str()),
            };
            acts.push(
                BatchAction::EmitItemStart(
                    ItemStartPayload {
                        job_id: batch.job_id,
                        item_index: self.next as u64 + 1,
                        item_count: batch.episodes.len() as u64,
                        title,
                    },
                ),
            );
            let episode_id = match &e.episode_id {
                Some(x) => x.clone(),
                None => e.episode.clone(),
            };
            acts.push(
                BatchAction::Resolve(
                    EpisodeRef {
                        site: batch.site.clone(),
                        show_id: batch.show_id.clone(),
                        episode: e.episode.clone(),
                        episode_id,
                        translation: batch.translation.clone(),
                    },
                ),
            );
            self.phase = BatchPhase::Resolving;
        }
        acts
    }

    /// The current episode failed with `msg`.
    fn fail_episode(&mut self, batch: &StreamBatch, msg: &str, cancelled: bool) -> (r: Vec<BatchAction>)
        requires
            old(self).next < batch.episodes@.len(),
        ensures
            fails_episode(*batch, *old(self), msg@, cancelled, *final(self), r@),
            final(self).next <= batch.episodes@.len(),
    {
        let head = concat_str("Episode ", batch.episodes[self.next].episode.as_str());
        let head2 = concat_str(head.as_str(), ": ");
        let message = concat_str(head2.as_str(), msg);
        let mut acts: Vec<BatchAction> = Vec::new();
        acts.push(BatchAction::EmitError(ErrorPayload { job_id: batch.job_id, message }));
        let ghost prev = *self;
        let n = batch.episodes.len();
        self.ok_all = false;
        self.next = self.next + 1;
        let ghost mid = *self;
        let mut rest = self.go_on(batch, cancelled);
        let ghost ra = rest@;
        acts.append(&mut rest);
        assert(acts@.drop_first() =~= ra);
        acts
    }

    /// Starts the batch: an unknown site ends it with an error; otherwise the
    /// job's download archive is needed first.
    pub fn begin(&mut self, batch: &StreamBatch) -> (r: Vec<BatchAction>)
        ensures
            old(self).phase != BatchPhase::Start ==> ignored(*old(self), *final(self), r@),
            old(self).phase == BatchPhase::Start ==> {
                &&& final(self).next == old(self).next
                &&& final(self).ok_all == old(self).ok_all
                &&& final(self).any_done == old(self).any_done
                &&& final(self).archive == old(self).archive
                &&& final(self).stream_url == old(self).stream_url
                &&& final(self).stream_quality == old(self).stream_quality
                &&& if spec_get(batch.site@) is None {
                    &&& final(self).phase == BatchPhase::Finished
                    &&& r@.len() == 2
                    &&& is_error_report(r@[0], batch.job_id, "unknown site: "@ + batch.site@)
                    &&& is_finish(r@[1], batch.job_id, false, false)
                } else {
                    &&& final(self).phase == BatchPhase::LocatingArchive
                    &&& r@ == seq![BatchAction::LocateArchive]
                }
            },
    {
        let mut acts: Vec<BatchAction> = Vec::new();
        if self.phase != BatchPhase::Start {
            return acts;
        }
        match get(batch.site.as_str()) {
            None => {
                acts.push(
                    BatchAction::EmitError(
                        ErrorPayload {
                            job_id: batch.job_id,
                            message: concat_str("unknown site: ", batch.site.as_str()),
                        },
                    ),
                );
                acts.push(BatchAction::Finish(DonePayload { job_id: batch.job_id, ok: false, cancelled: false }));
                self.phase = BatchPhase::Finished;
            },
            Some(_) => {
                acts.push(BatchAction::LocateArchive);
                self.phase = BatchPhase::LocatingArchive;
                assert(acts@ =~= seq![BatchAction::LocateArchive]);
            },
        }
        acts
    }

    /// The archive was located (or not): without it the job ends with the
    /// error; with it the first episode starts (unless cancelled).
    pub fn archive_located(&mut self, batch: &StreamBatch, archive: Result<String, String>, cancelled: bool) -> (r: Vec<BatchAction>)
        ensures
            old(self).phase != BatchPhase::LocatingArchive ==> ignored(*old(self), *final(self), r@),
            old(self).phase == BatchPhase::LocatingArchive ==> match archive {
                Err(e) => {
                    &&& final(self).phase == BatchPhase::Finished
                    &&& final(self).next == old(self).next
                    &&& final(self).ok_all == old(self).ok_all
                    &&& final(self).any_done == old(self).any_done
                    &&& final(self).archive == old(self).archive
                    &&& final(self).stream_url == old(self).stream_url
                    &&& final(self).stream_quality == old(self).stream_quality
                    &&& r@.len() == 2
                    &&& is_error_report(r@[0], batch.job_id, e@)
                    &&& is_finish(r@[1], batch.job_id, false, false)
                },
                Ok(a) => goes_on(
                    *batch,
                    BatchState { archive: a, ..*old(self) },
                    0,
                    true,
                    false,
                    cancelled,
                    *final(self),
                    r@,
                ),
            },
            old(self).next <= batch.episodes@.len() ==> final(self).next <= batch.episodes@.len(),
    {
        if self.phase != BatchPhase::LocatingArchive {
            return Vec::new();
        }
        match archive {
            Err(e) => {
                let mut acts: Vec<BatchAction> = Vec::new();
                acts.push(BatchAction::EmitError(ErrorPayload { job_id: batch.job_id, message: e }));
                acts.push(BatchAction::Finish(DonePayload { job_id: batch.job_id, ok: false, cancelled: false }));
                self.phase = BatchPhase::Finished;
                acts
            },
            Ok(a) => {
                self.archive = a;
                let ghost prev = *self;
                self.next = 0;
                self.ok_all = true;
                self.any_done = false;
                self.go_on(batch, cancelled)
            },
        }
    }

    /// The current episode's streams were resolved (or not): a failure or
    /// no stream fails the episode; otherwise the stream and tier are chosen
    /// and ffmpeg is needed next.
    pub fn resolved(
        &mut self,
        batch: &StreamBatch,
        streams: Result<Vec<StreamOption>, ExtractError>,
        cancelled: bool,
    ) -> (r: Vec<BatchAction>)
        ensures
            !(old(self).phase == BatchPhase::Resolving && old(self).next < batch.episodes@.len())
                ==> ignored(*old(self), *final(self), r@),
            old(self).phase == BatchPhase::Resolving && old(self).next < batch.episodes@.len()
                ==> match streams {
                Err(e) => fails_episode(*batch, *old(self), error_text(e), cancelled, *final(self), r@),
                Ok(opts) => if opts@.len() == 0 {
                    fails_episode(*batch, *old(self), "no matching stream quality"@, cancelled, *final(self), r@)
                } else {
                    &&& final(self).phase == BatchPhase::LocatingFfmpeg
                    &&& r@ == seq![BatchAction::LocateFfmpeg]
                    &&& exists|o: OptionView| picks(opts@, batch.quality@, o, final(self).stream_quality@)
                        && o.1 == final(self).stream_url@
                    &&& final(self).next == old(self).next
                    &&& final(self).ok_all == old(self).ok_all
                    &&& final(self).any_done == old(self).any_done
                    &&& final(self).archive == old(self).archive
                },
            },
            old(self).next <= batch.episodes@.len() ==> final(self).next <= batch.episodes@.len(),
    {
        if !(self.phase == BatchPhase::Resolving && self.next < batch.episodes.len()) {
            return Vec::new();
        }
        match streams {
            Err(e) => {
                let m = e.message();
                self.fail_episode(batch, m.as_str(), cancelled)
            },
            Ok(opts) => match pick_stream(&opts, batch.quality.as_str()) {
                None => {
                    proof {
                        reveal_strlit("no matching stream quality");
                    }
                    self.fail_episode(batch, "no matching stream quality", cancelled)
                },
                Some((stream, q)) => {
                    let ghost ov = option_view(stream);
                    assert(picks(opts@, batch.quality@, ov, q@));
                    self.stream_url = stream.url;
                    self.stream_quality = q;
                    self.phase = BatchPhase::LocatingFfmpeg;
                    let mut acts: Vec<BatchAction> = Vec::new();
                    acts.push(BatchAction::LocateFfmpeg);
                    assert(acts@ =~= seq![BatchAction::LocateFfmpeg]);
                    assert(picks(opts@, batch.quality@, ov, self.stream_quality@) && ov.1 == self.stream_url@);
                    acts
                },
            },
        }
    }

    /// ffmpeg was located (or not): the downloader's arguments are built for
    /// the chosen stream (never in playlist mode); any failure fails the
    /// episode. The arguments are those of `build_args`: the stream's
    /// referer and headers and the episode's file name (`stream_out_name`)
    /// are not passed to the downloader, which names the file itself.
    pub fn ffmpeg_located(&mut self, batch: &StreamBatch, ffmpeg: Result<String, String>, cancelled: bool) -> (r: Vec<BatchAction>)
        ensures
            !(old(self).phase == BatchPhase::LocatingFfmpeg && old(self).next < batch.episodes@.len())
                ==> ignored(*old(self), *final(self), r@),
            old(self).phase == BatchPhase::LocatingFfmpeg && old(self).next < batch.episodes@.len()
                ==> match ffmpeg {
                Err(e) => fails_episode(*batch, *old(self), e@, cancelled, *final(self), r@),
                Ok(path) => match quality_args(old(self).stream_quality@) {
                    None => fails_episode(
                        *batch,
                        *old(self),
                        "unknown quality option: "@ + old(self).stream_quality@,
                        cancelled,
                        *final(self),
                        r@,
                    ),
                    Some(q) => {
                        &&& final(self).phase == BatchPhase::Spawning
                        &&& r@.len() == 1
                        &&& r@[0] matches BatchAction::Spawn(args) && strings_view(args@) == base_args(
                            old(self).stream_url@,
                            batch.dest_dir@,
                            path@,
                            old(self).archive@,
                        ) + mode_args(false) + q
                        &&& final(self).next == old(self).next
                        &&& final(self).ok_all == old(self).ok_all
                        &&& final(self).any_done == old(self).any_done
                        &&& final(self).archive == old(self).archive
                        &&& final(self).stream_url == old(self).stream_url
                        &&& final(self).stream_quality == old(self).stream_quality
                    },
                },
            },
            old(self).next <= batch.episodes@.len() ==> final(self).next <= batch.episodes@.len(),
    {
        if !(self.phase == BatchPhase::LocatingFfmpeg && self.next < batch.episodes.len()) {
            return Vec::new();
        }
        match ffmpeg {
            Err(e) => self.fail_episode(batch, e.as_str(), cancelled),
            Ok(path) => match build_args(
                self.stream_url.as_str(),
                self.stream_quality.as_str(),
                batch.dest_dir.as_str(),
                false,
                self.archive.as_str(),
                path.as_str(),
            ) {
                Err(e) => self.fail_episode(batch, e.as_str(), cancelled),
                Ok(args) => {
                    self.phase = BatchPhase::Spawning;
                    let mut acts: Vec<BatchAction> = Vec::new();
                    acts.push(BatchAction::Spawn(args));
                    acts
                },
            },
        }
    }

    /// The downloader started (or not): a failure to start fails the
    /// episode; otherwise the batch waits for it to exit.
    pub fn spawned(&mut self, batch: &StreamBatch, started: Result<(), String>, cancelled: bool) -> (r: Vec<BatchAction>)
        ensures
            !(old(self).phase == BatchPhase::Spawning && old(self).next < batch.episodes@.len())
                ==> ignored(*old(self), *final(self), r@),
            old(self).phase == BatchPhase::Spawning && old(self).next < batch.episodes@.len()
                ==> match started {
                Err(e) => fails_episode(*batch, *old(self), e@, cancelled, *final(self), r@),
                Ok(_) => {
                    &&& *final(self) == BatchState { phase: BatchPhase::Downloading, ..*old(self) }
                    &&& r@.len() == 0
                },
            },
            old(self).next <= batch.episodes@.len() ==> final(self).next <= batch.episodes@.len(),
    {
        if !(self.phase == BatchPhase::Spawning && self.next < batch.episodes.len()) {
            return Vec::new();
        }
        match started {
            Err(e) => self.fail_episode(batch, e.as_str(), cancelled),
            Ok(_) => {
                self.phase = BatchPhase::Downloading;
                Vec::new()
            },
        }
    }

    /// The downloader exited, with `exit_code` if it reported one: when the
    /// job was cancelled meanwhile it ends; otherwise the episode counts as
    /// downloaded when the code is 0 and as failed otherwise, and the next
    /// episode follows.
    pub fn exited(&mut self, batch: &StreamBatch, exit_code: Option<i32>, cancelled: bool) -> (r: Vec<BatchAction>)
        ensures
            !(old(self).phase == BatchPhase::Downloading && old(self).next < batch.episodes@.len())
                ==> ignored(*old(self), *final(self), r@),
            old(self).phase == BatchPhase::Downloading && old(self).next < batch.episodes@.len()
                ==> if cancelled {
                goes_on(
                    *batch,
                    *old(self),
                    old(self).next as int,
                    old(self).ok_all,
                    old(self).any_done,
                    true,
                    *final(self),
                    r@,
                )
            } else {
                goes_on(
                    *batch,
                    *old(self),
                    old(self).next + 1,
                    old(self).ok_all && exit_code == Some(0i32),
                    old(self).any_done || exit_code == Some(0i32),
                    false,
                    *final(self),
                    r@,
                )
            },
            old(self).next <= batch.episodes@.len() ==> final(self).next <= batch.episodes@.len(),
    {
        if !(self.phase == BatchPhase::Downloading && self.next < batch.episodes.len()) {
            return Vec::new();
        }
        if cancelled {
            return self.go_on(batch, true);
        }
        let ep_ok = match exit_code {
            Some(c) => c == 0,
            None => false,
        };
        if ep_ok {
            self.any_done = true;
        } else {
            self.ok_all = false;
        }
        let n = batch.episodes.len();
        self.next = self.next + 1;
        self.go_on(batch, false)
    }
}

} // verus!
