//! The app's own state: its settings, the downloads and HLS processes that
//! run, and the answers of the download and streaming commands.
use vstd::prelude::*;
use std::sync::Arc;
use std::sync::atomic::AtomicBool;
use crate::download::{DownloadError, user_message_spec};
use crate::registry::Registry;
use crate::text::{owned, cat, push_str};
use crate::ytdlp::{available_url_spec, default_quality_spec, views, choose_default_quality, player_qualities, player_quality_list, ProcessOutput, available_url};

verus! {

// ---------------------------------------------------------------------------
// Settings
// ---------------------------------------------------------------------------

/// Config for persistence
#[derive(Debug, Clone)]
pub struct AppConfig {
    pub download_dir: Option<String>,
}

impl AppConfig {
    /// The settings when none were saved, or they do not parse.
    pub fn unset() -> (r: Self)
        ensures
            r.download_dir is None,
    {
        AppConfig { download_dir: None }
    }

    /// The settings with `path` as the download folder.
    pub fn set_download_dir(&mut self, path: String)
        ensures
            final(self).download_dir == Some(path),
    {
        self.download_dir = Some(path);
    }
}

#[derive(Debug)]
pub struct DownloadOptions {
    pub id: String,
    pub url: String,
    pub quality: String,
    pub output_path: String,
    pub format_id: Option<String>,
}

impl Clone for DownloadOptions {
    fn clone(&self) -> (r: Self)
        ensures
            r == *self,
    {
        DownloadOptions {
            id: self.id.clone(),
            url: self.url.clone(),
            quality: self.quality.clone(),
            output_path: self.output_path.clone(),
            format_id: match &self.format_id {
                Some(f) => Some(f.clone()),
                None => None,
            },
        }
    }
}

/// The options of a download, with the configured download folder in place
/// of the one asked for, when one is configured.
pub fn apply_download_dir(config: &AppConfig, options: DownloadOptions) -> (r: DownloadOptions)
    ensures
        r.output_path == match config.download_dir {
            Some(d) => d,
            None => options.output_path,
        },
        r.id == options.id,
        r.url == options.url,
        r.quality == options.quality,
        r.format_id == options.format_id,
{
    let mut options = options;
    match &config.download_dir {
        Some(dir) => {
            options.output_path = dir.clone();
        },
        None => {},
    }
    options
}

// ---------------------------------------------------------------------------
// Downloads
// ---------------------------------------------------------------------------

/// A running download: its options, the flag that asks it to stop, and what
/// it is writing.
#[derive(Debug)]
pub struct DownloadState {
    pub options: DownloadOptions,
    pub should_cancel: Arc<AtomicBool>,
    pub paused: bool,
    pub current_filename: Option<String>,
}

/// The running downloads, by id.
pub type DownloadManager = Registry<DownloadState>;

/// A download event for the front end. `percent` is a numeral.
#[derive(Debug, Clone)]
pub struct DownloadProgress {
    pub id: String,
    pub percent: String,
    pub speed: String,
    pub eta: String,
    pub status: String,
    pub filename: String,
    pub error_message: Option<String>,
}

/// An event with the given id, percent, status and file name, no speed and
/// no time left.
pub open spec fn event_is(
    e: DownloadProgress,
    id: Seq<char>,
    percent: Seq<char>,
    status: Seq<char>,
    filename: Seq<char>,
) -> bool {
    &&& e.id@ == id
    &&& e.percent@ == percent
    &&& e.speed@.len() == 0
    &&& e.eta@.len() == 0
    &&& e.status@ == status
    &&& e.filename@ == filename
}

fn event(id: &String, percent: &str, status: &str, filename: String, error_message: Option<String>) -> (r: DownloadProgress)
    ensures
        event_is(r, id@, percent@, status@, filename@),
        r.error_message == error_message,
{
    DownloadProgress {
        id: id.clone(),
        percent: owned(percent),
        speed: String::new(),
        eta: String::new(),
        status: owned(status),
        filename,
        error_message,
    }
}

/// Records a download that starts, under its id.
pub fn register_download(manager: &mut DownloadManager, options: DownloadOptions, should_cancel: Arc<AtomicBool>)
    ensures
        final(manager)@ == old(manager)@.insert(
            options.id@,
            DownloadState { options, should_cancel, paused: false, current_filename: None },
        ),
{
    let id = options.id.clone();
    manager.insert(id, DownloadState { options, should_cancel, paused: false, current_filename: None });
}

/// What cancelling a download leaves to do: raise its flag, delete what it
/// left in its folder, and tell the front end.
#[derive(Debug)]
pub struct CancelPlan {
    pub should_cancel: Arc<AtomicBool>,
    pub output_path: String,
    pub leftover_files: Vec<String>,
    pub event: DownloadProgress,
    pub message: String,
}

/// The files a cancelled download may leave: the file, and yt-dlp's `.part`
/// and `.ytdl` files.
pub open spec fn leftover_files_spec(name: Option<String>) -> Seq<Seq<char>> {
    match name {
        Some(f) => seq![f@, f@ + ".part"@, f@ + ".ytdl"@],
        None => seq![],
    }
}

/// Stops tracking a download and says what cancelling it leaves to do; an
/// error when no download runs under `id`.
pub fn cancel_download(manager: &mut DownloadManager, id: &String) -> (r: Result<CancelPlan, String>)
    ensures
        final(manager)@ == old(manager)@.remove(id@),
        !old(manager)@.contains_key(id@) ==> (r matches Err(e) && e@ == "Download not active"@),
        old(manager)@.contains_key(id@) ==> (r matches Ok(p) && {
            let st = old(manager)@[id@];
            &&& p.should_cancel == st.should_cancel
            &&& p.output_path == st.options.output_path
            &&& views(p.leftover_files@) == leftover_files_spec(st.current_filename)
            &&& event_is(p.event, id@, "0"@, "cancelled"@, seq![])
            &&& p.event.error_message is None
            &&& p.message@ == "Download cancelled"@
        }),
{
    match manager.remove(id) {
        None => Err(owned("Download not active")),
        Some(st) => {
            let mut leftover_files: Vec<String> = Vec::new();
            match &st.current_filename {
                Some(f) => {
                    leftover_files.push(f.clone());
                    leftover_files.push(cat(f.as_str(), ".part"));
                    leftover_files.push(cat(f.as_str(), ".ytdl"));
                    assert(views(leftover_files@) =~= leftover_files_spec(st.current_filename));
                },
                None => {
                    assert(views(leftover_files@) =~= leftover_files_spec(st.current_filename));
                },
            }
            proof {
                reveal_strlit("");
            }
            Ok(CancelPlan {
                should_cancel: st.should_cancel,
                output_path: st.options.output_path,
                leftover_files,
                event: event(id, "0", "cancelled", String::new(), None),
                message: owned("Download cancelled"),
            })
        },
    }
}

/// The answer of a pause request, which cancels: the cancel message, or the
/// cancel error.
pub fn pause_answer(cancelled: Result<String, String>) -> (r: Result<String, String>)
    ensures
        match cancelled {
            Ok(_) => r matches Ok(m) && m@ == "Download cancelled (Pause not supported)"@,
            Err(e) => r == Err::<String, String>(e),
        },
{
    match cancelled {
        Ok(_) => Ok(owned("Download cancelled (Pause not supported)")),
        Err(e) => Err(e),
    }
}

/// The options to start a paused download again with, and the event that
/// says so; an error when it is unknown or not paused.
pub fn resume_download(manager: &DownloadManager, id: &String) -> (r: Result<(DownloadOptions, DownloadProgress), String>)
    ensures
        !manager@.contains_key(id@) ==> (r matches Err(e) && e@ == "Download not found in history"@),
        manager@.contains_key(id@) && !manager@[id@].paused ==> (r matches Err(e) && e@
            == "Download is not paused"@),
        manager@.contains_key(id@) && manager@[id@].paused ==> (r matches Ok((o, ev)) && {
            &&& o == manager@[id@].options
            &&& ev.id@ == id@
            &&& ev.percent@ == "0"@
            &&& ev.speed@ == "Resuming..."@
            &&& ev.eta@.len() == 0
            &&& ev.status@ == "downloading"@
            &&& ev.filename@.len() == 0
            &&& ev.error_message is None
        }),
{
    match manager.get(id) {
        None => Err(owned("Download not found in history")),
        Some(st) => {
            if !st.paused {
                return Err(owned("Download is not paused"));
            }
            let options = st.options.clone();
            let mut ev = event(id, "0", "downloading", String::new(), None);
            ev.speed = owned("Resuming...");
            Ok((options, ev))
        },
    }
}

/// What a finished download leaves: the event for the front end and the
/// command's answer; the download is no longer tracked.
pub fn finish_download(manager: &mut DownloadManager, id: &String, outcome: Result<String, DownloadError>) -> (r: (DownloadProgress, Result<String, String>))
    ensures
        final(manager)@ == old(manager)@.remove(id@),
        match outcome {
            Ok(path) => {
                &&& event_is(r.0, id@, "100"@, "complete"@, path@)
                &&& r.0.error_message is None
                &&& r.1 matches Ok(m) && m@ == "Download complete: "@ + path@
            },
            Err(DownloadError::Cancelled) => {
                &&& event_is(r.0, id@, "0"@, "cancelled"@, seq![])
                &&& r.0.error_message is None
                &&& r.1 matches Ok(m) && m@ == "Download cancelled"@
            },
            Err(e) => {
                &&& event_is(r.0, id@, "0"@, "error"@, seq![])
                &&& r.0.error_message matches Some(m) && m@ == user_message_spec(&e)
                &&& r.1 matches Err(m) && m@ == "Download failed: "@ + user_message_spec(&e)
            },
        },
{
    let _ = manager.remove(id);
    proof {
        reveal_strlit("");
    }
    match outcome {
        Ok(path) => {
            let answer = cat("Download complete: ", path.as_str());
            (event(id, "100", "complete", path, None), Ok(answer))
        },
        Err(DownloadError::Cancelled) => {
            (event(id, "0", "cancelled", String::new(), None), Ok(owned("Download cancelled")))
        },
        Err(e) => {
            let msg = e.user_message();
            let answer = cat("Download failed: ", msg.as_str());
            (event(id, "0", "error", String::new(), Some(msg)), Err(answer))
        },
    }
}

// ---------------------------------------------------------------------------
// HLS processes of local videos
// ---------------------------------------------------------------------------

/// An ffmpeg process that turns a local video into an HLS stream.
#[derive(Debug, Clone)]
pub struct PlaybackState {
    pub child_pid: u32,
    pub video_path: String,
    pub stream_hash: String,
}

/// The running HLS processes, by stream hash.
pub type PlaybackManager = Registry<PlaybackState>;

/// The answer of a request to stop the HLS process of a video, and the
/// process to stop; the process is no longer tracked.
pub fn cancel_stream(manager: &mut PlaybackManager, stream_hash: &String) -> (r: (Option<PlaybackState>, String))
    ensures
        final(manager)@ == old(manager)@.remove(stream_hash@),
        old(manager)@.contains_key(stream_hash@) ==> r.0 == Some(old(manager)@[stream_hash@]) && r.1@
            == "Stream cancelled"@,
        !old(manager)@.contains_key(stream_hash@) ==> r.0 is None && r.1@
            == "No active stream for this video"@,
{
    match manager.remove(stream_hash) {
        Some(st) => (Some(st), owned("Stream cancelled")),
        None => (None, owned("No active stream for this video")),
    }
}

// ---------------------------------------------------------------------------
// Streaming answers
// ---------------------------------------------------------------------------

/// Response for get_all_streaming_urls - contains URLs for all available qualities
#[derive(Debug)]
pub struct StreamingUrls {
    /// The URL of each available quality.
    pub urls: Vec<(String, String)>,
    pub available: Vec<String>,
    pub default_quality: String,
    pub proxy_url: String,
}

/// Response for start_streaming - immediate playback with single quality
#[derive(Debug, Clone)]
pub struct StartStreamingResponse {
    pub proxy_url: String,
    pub quality: String,
}

/// Response for quality availability event
#[derive(Debug, Clone)]
pub struct QualityAvailable {
    pub quality: String,
}

/// Response for the unified stream_video command
#[derive(Debug, Clone)]
pub struct StreamResponse {
    pub proxy_url: String,
    pub current_quality: String,
    pub available_qualities: Vec<String>,
}

/// The qualities (lowest first) whose yt-dlp run printed a URL, each with
/// that URL.
pub open spec fn found_urls(outs: Seq<ProcessOutput>, n: int) -> Seq<(Seq<char>, Seq<char>)>
    decreases n,
{
    if n <= 0 {
        seq![]
    } else {
        let prev = found_urls(outs, n - 1);
        match available_url_spec(&outs[n - 1]) {
            Some(u) => prev.push((player_qualities()[n - 1], u)),
            None => prev,
        }
    }
}

pub open spec fn url_pairs_view(v: Seq<(String, String)>) -> Seq<(Seq<char>, Seq<char>)> {
    v.map_values(|p: (String, String)| (p.0@, p.1@))
}

/// The streaming URLs of a video from the yt-dlp runs for 360p, 480p, 720p
/// and 1080p, in that order; an error when none printed a URL.
pub fn streaming_urls(outs: &Vec<ProcessOutput>, proxy_url: String) -> (r: Result<StreamingUrls, String>)
    requires
        outs.len() == 4,
    ensures
        found_urls(outs@, 4).len() == 0 ==> (r matches Err(e) && e@
            == "No streaming URLs available for any quality"@),
        found_urls(outs@, 4).len() > 0 ==> (r matches Ok(s) && {
            &&& url_pairs_view(s.urls@) == found_urls(outs@, 4)
            &&& views(s.available@) == found_urls(outs@, 4).map_values(
                |p: (Seq<char>, Seq<char>)| p.0,
            )
            &&& s.default_quality@ == default_quality_spec(views(s.available@))
            &&& s.proxy_url == proxy_url
        }),
{
    let names = player_quality_list();
    let mut urls: Vec<(String, String)> = Vec::new();
    let mut available: Vec<String> = Vec::new();
    let mut i: usize = 0;
    while i < 4
        invariant
            i <= 4,
            outs.len() == 4,
            names@.len() == 4,
            forall|j: int| 0 <= j < 4 ==> #[trigger] names@[j]@ == player_qualities()[j],
            url_pairs_view(urls@) == found_urls(outs@, i as int),
            views(available@) == found_urls(outs@, i as int).map_values(
                |p: (Seq<char>, Seq<char>)| p.0,
            ),
        decreases 4 - i,
    {
        let ghost prev_urls = urls@;
        let ghost prev_av = available@;
        match available_url(&outs[i]) {
            Some(u) => {
                urls.push((names[i].clone(), u));
                available.push(names[i].clone());
                proof {
                    assert(url_pairs_view(urls@) =~= url_pairs_view(prev_urls).push(
                        (names@[i as int]@, urls@.last().1@),
                    ));
                    assert(views(available@) =~= views(prev_av).push(names@[i as int]@));
                    assert(found_urls(outs@, i + 1) == found_urls(outs@, i as int).push(
                        (player_qualities()[i as int], urls@.last().1@),
                    ));
                    assert(found_urls(outs@, i + 1).map_values(|p: (Seq<char>, Seq<char>)| p.0)
                        =~= found_urls(outs@, i as int).map_values(
                        |p: (Seq<char>, Seq<char>)| p.0,
                    ).push(player_qualities()[i as int]));
                }
            },
            None => {},
        }
        i += 1;
    }
    if available.len() == 0 {
        assert(found_urls(outs@, 4).len() == 0) by {
            assert(views(available@).len() == 0);
        }
        return Err(owned("No streaming URLs available for any quality"));
    }
    let default_quality = choose_default_quality(&available);
    Ok(StreamingUrls { urls, available, default_quality, proxy_url })
}

/// The URL that the proxy streams first: the one of the default quality.
pub fn default_stream_url(s: &StreamingUrls) -> (r: Option<String>)
    ensures
        match r {
            Some(u) => exists|i: int|
                0 <= i < s.urls@.len() && s.urls@[i].0@ == s.default_quality@ && u@
                    == s.urls@[i].1@,
            None => forall|i: int| 0 <= i < s.urls@.len() ==> s.urls@[i].0@ != s.default_quality@,
        },
{
    let mut i: usize = 0;
    while i < s.urls.len()
        invariant
            i <= s.urls.len(),
            forall|j: int| 0 <= j < i ==> s.urls@[j].0@ != s.default_quality@,
        decreases s.urls.len() - i,
    {
        if s.urls[i].0 == s.default_quality {
            return Some(s.urls[i].1.clone());
        }
        i += 1;
    }
    None
}

/// The quality that `stream_video` plays, and whether the request switches
/// quality: 360p when none is asked for.
pub fn stream_target(quality: Option<String>) -> (r: (String, bool))
    ensures
        match quality {
            Some(q) => r.0 == q && r.1,
            None => r.0@ == "360p"@ && !r.1,
        },
{
    match quality {
        Some(q) => (q, true),
        None => (owned("360p"), false),
    }
}

/// The answer of `start_streaming`, which plays 360p.
pub fn start_streaming_response(proxy_url: String) -> (r: StartStreamingResponse)
    ensures
        r.proxy_url == proxy_url,
        r.quality@ == "360p"@,
{
    StartStreamingResponse { proxy_url, quality: owned("360p") }
}

/// The welcome of the `greet` command.
pub fn greet(name: &str) -> (r: String)
    ensures
        r@ == "Hello, "@ + name@ + "! You've been greeted from Rust!"@,
{
    let mut r = owned("Hello, ");
    push_str(&mut r, name);
    push_str(&mut r, "! You've been greeted from Rust!");
    r
}

} // verus!
