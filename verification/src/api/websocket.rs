//! Decisions of the WebSocket endpoints: viewer quality requests, WebRTC
//! signalling messages, and the ingest of segments written by the HLS encoder.

use vstd::prelude::*;
use crate::cdn::selection::views;
use crate::domain::quality::{quality_name, StreamQuality};
use crate::domain::stream::{SegmentView, VideoSegment};
use crate::ingest::transcoder::{push_arg, push_owned};
use crate::outside::{ascii_lower, ascii_lower_char, is_ascii_text, lowercase, to_lowercase};
use crate::streaming::webrtc::WebRTCSignal;
use crate::text::{ends_with, starts_with, str_ends_with, str_eq, str_starts_with};

verus! {

/// The quality a lowercase name stands for: a level name or a frame height.
pub open spec fn quality_from_lowercase(s: Seq<char>) -> Option<StreamQuality> {
    if s == "low"@ || s == "360p"@ {
        Some(StreamQuality::Low)
    } else if s == "medium"@ || s == "720p"@ {
        Some(StreamQuality::Medium)
    } else if s == "high"@ || s == "1080p"@ {
        Some(StreamQuality::High)
    } else if s == "ultra"@ || s == "4k"@ || s == "2160p"@ {
        Some(StreamQuality::Ultra)
    } else {
        None
    }
}

/// The quality an already lowercased name stands for.
pub fn quality_from_lowercase_name(s: &str) -> (q: Option<StreamQuality>)
    ensures
        q == quality_from_lowercase(s@),
{
    if str_eq(s, "low") || str_eq(s, "360p") {
        Some(StreamQuality::Low)
    } else if str_eq(s, "medium") || str_eq(s, "720p") {
        Some(StreamQuality::Medium)
    } else if str_eq(s, "high") || str_eq(s, "1080p") {
        Some(StreamQuality::High)
    } else if str_eq(s, "ultra") || str_eq(s, "4k") || str_eq(s, "2160p") {
        Some(StreamQuality::Ultra)
    } else {
        None
    }
}

/// The quality a viewer asked for, by name in any letter case.
pub fn parse_quality(quality_str: &str) -> (q: Option<StreamQuality>)
    ensures
        q == quality_from_lowercase(lowercase(quality_str@)),
        is_ascii_text(quality_str@) ==> q == quality_from_lowercase(ascii_lower(quality_str@)),
{
    let lower = to_lowercase(quality_str);
    quality_from_lowercase_name(lower.as_str())
}

/// A character with `a`..`z` mapped to `A`..`Z`.
pub open spec fn ascii_upper_char(c: char) -> char {
    if 'a' <= c && c <= 'z' { ((c as u32) - 32) as char } else { c }
}

/// A string with `a`..`z` mapped to `A`..`Z`, character by character.
pub open spec fn ascii_upper(s: Seq<char>) -> Seq<char> {
    s.map_values(|c: char| ascii_upper_char(c))
}

/// Lowercasing ASCII text twice is lowercasing it once, and keeps it ASCII; so a
/// name and its lowercase form parse to the same quality.
pub proof fn lemma_ascii_lower_idempotent(s: Seq<char>)
    requires
        is_ascii_text(s),
    ensures
        is_ascii_text(ascii_lower(s)),
        ascii_lower(ascii_lower(s)) == ascii_lower(s),
        quality_from_lowercase(ascii_lower(ascii_lower(s))) == quality_from_lowercase(ascii_lower(s)),
{
    assert forall|i: int| 0 <= i < s.len() implies (#[trigger] ascii_lower(s)[i] as u32) < 128 by {
        assert(ascii_lower(s)[i] == ascii_lower_char(s[i]));
        assert((s[i] as u32) < 128);
    }
    assert forall|i: int| 0 <= i < s.len() implies #[trigger] ascii_lower(ascii_lower(s))[i] == ascii_lower(s)[i] by {
        assert(ascii_lower(s)[i] == ascii_lower_char(s[i]));
        assert(ascii_lower(ascii_lower(s))[i] == ascii_lower_char(ascii_lower(s)[i]));
    }
    assert(ascii_lower(ascii_lower(s)) =~= ascii_lower(s));
}

/// Lowercasing the uppercase form of a lowercase ASCII name gives the name back.
proof fn lemma_lower_of_upper(s: Seq<char>)
    requires
        is_ascii_text(s),
        forall|i: int| 0 <= i < s.len() ==> !('A' <= #[trigger] s[i] && s[i] <= 'Z'),
    ensures
        ascii_lower(ascii_upper(s)) == s,
        ascii_lower(s) == s,
{
    assert forall|i: int| 0 <= i < s.len() implies #[trigger] ascii_lower(ascii_upper(s))[i] == s[i] by {
        assert(ascii_upper(s)[i] == ascii_upper_char(s[i]));
        assert(ascii_lower(ascii_upper(s))[i] == ascii_lower_char(ascii_upper(s)[i]));
    }
    assert(ascii_lower(ascii_upper(s)) =~= s);
    assert(ascii_lower(s) =~= s);
}

/// Every quality's display name, and that name in capitals, parses back to the
/// quality: `parse_quality(q.to_string()) == Some(q)`.
pub proof fn lemma_parse_quality_of_name(q: StreamQuality)
    ensures
        is_ascii_text(quality_name(q)),
        is_ascii_text(ascii_upper(quality_name(q))),
        quality_from_lowercase(ascii_lower(quality_name(q))) == Some(q),
        quality_from_lowercase(ascii_lower(ascii_upper(quality_name(q)))) == Some(q),
{
    reveal_strlit("360p");
    reveal_strlit("720p");
    reveal_strlit("1080p");
    reveal_strlit("2160p");
    reveal_strlit("low");
    reveal_strlit("medium");
    reveal_strlit("high");
    reveal_strlit("ultra");
    reveal_strlit("4k");
    let n = quality_name(q);
    assert(is_ascii_text(n));
    lemma_lower_of_upper(n);
    assert forall|i: int| 0 <= i < n.len() implies (#[trigger] ascii_upper(n)[i] as u32) < 128 by {
        assert(ascii_upper(n)[i] == ascii_upper_char(n[i]));
    }
    match q {
        StreamQuality::Low => {
            assert(n == "360p"@);
        },
        StreamQuality::Medium => {
            assert(n.len() != "low"@.len());
            assert(n[0] != "360p"@[0]);
        },
        StreamQuality::High => {
            assert(n.len() != "low"@.len() && n.len() != "360p"@.len() && n.len() != "720p"@.len());
            assert(n.len() != "medium"@.len());
        },
        StreamQuality::Ultra => {
            assert(n.len() != "low"@.len() && n.len() != "360p"@.len() && n.len() != "720p"@.len());
            assert(n.len() != "medium"@.len() && n.len() != "high"@.len() && n.len() != "4k"@.len());
            assert(n[0] != "1080p"@[0] && n[0] != "ultra"@[0]);
        },
    }
}

/// Reads a viewer's text message: `quality:<name>` is a request for that quality
/// (`Some(None)` when the name is not known); anything else is no request.
pub fn quality_request(text: &str) -> (r: Option<Option<StreamQuality>>)
    ensures
        !starts_with(text@, "quality:"@) ==> r is None,
        starts_with(text@, "quality:"@) ==> r == Some(quality_from_lowercase(lowercase(text@.skip(8)))),
{
    if str_starts_with(text, "quality:") {
        proof {
            reveal_strlit("quality:");
        }
        let rest = text.substring_char(8, text.unicode_len());
        assert(rest@ =~= text@.skip(8));
        Some(parse_quality(rest))
    } else {
        None
    }
}

/// What to do with a signalling message, by its type.
#[derive(Debug, Clone, Copy, PartialEq, Eq, Structural)]
pub enum SignalAction {
    /// Answer the SDP offer in the payload.
    Offer,
    /// Record the ICE candidate in the payload.
    Ice,
    /// An answer from the peer; nothing to do while this node never offers.
    Answer,
    /// Not a known type; logged and ignored.
    Unknown,
}

/// The action for a signal type.
pub open spec fn signal_action_of(t: Seq<char>) -> SignalAction {
    if t == "offer"@ {
        SignalAction::Offer
    } else if t == "ice"@ {
        SignalAction::Ice
    } else if t == "answer"@ {
        SignalAction::Answer
    } else {
        SignalAction::Unknown
    }
}

/// Classifies a signalling message by its type.
pub fn signal_action(signal_type: &str) -> (a: SignalAction)
    ensures
        a == signal_action_of(signal_type@),
{
    if str_eq(signal_type, "offer") {
        SignalAction::Offer
    } else if str_eq(signal_type, "ice") {
        SignalAction::Ice
    } else if str_eq(signal_type, "answer") {
        SignalAction::Answer
    } else {
        SignalAction::Unknown
    }
}

/// The message carrying this node's SDP answer back to the peer.
pub fn answer_signal(answer: String) -> (s: WebRTCSignal)
    ensures
        s.signal_type@ == "answer"@,
        s.payload@ == answer@,
{
    WebRTCSignal { signal_type: String::from_str("answer"), payload: answer }
}

/// The error ending a signalling session whose offer found no peer record.
pub fn no_answer_error(peer_id: &str) -> (e: String)
    ensures
        e@ == "Failed to generate answer for peer "@ + peer_id@,
{
    let mut e = String::from_str("Failed to generate answer for peer ");
    e.append(peer_id);
    e
}

/// The JSON text sent to a viewer whose subscription failed.
pub fn viewer_error_json(error: &str) -> (j: String)
    ensures
        j@ == "{\"error\": \""@ + error@ + "\"}"@,
{
    let mut j = String::from_str("{\"error\": \"");
    j.append(error);
    j.append("\"}");
    j
}

/// Directory the HLS encoder of a stream writes to.
pub fn hls_stream_dir(stream_id: &str) -> (d: String)
    ensures
        d@ == "../hls_output/"@ + stream_id@,
{
    let mut d = String::from_str("../hls_output/");
    d.append(stream_id);
    d
}

/// Directory of the single rendition the HLS encoder produces.
pub fn hls_quality_dir(stream_dir: &str) -> (d: String)
    ensures
        d@ == stream_dir@ + "/720p"@,
{
    let mut d = String::from_str(stream_dir);
    d.append("/720p");
    d
}

/// The fixed part of the encoder command line: read the stream from standard
/// input and encode 720p H.264/AAC as two-second HLS segments, five per playlist.
pub open spec fn hls_encoder_options() -> Seq<Seq<char>> {
    seq![
        "-loglevel"@, "error"@, "-re"@, "-i"@, "pipe:0"@, "-c:v"@, "libx264"@, "-preset"@, "ultrafast"@,
        "-tune"@, "zerolatency"@, "-profile:v"@, "baseline"@, "-level"@, "3.0"@, "-pix_fmt"@, "yuv420p"@,
        "-g"@, "60"@, "-sc_threshold"@, "0"@, "-b:v"@, "2500k"@, "-maxrate"@, "2800k"@, "-bufsize"@,
        "5600k"@, "-s"@, "1280x720"@, "-r"@, "30"@, "-c:a"@, "aac"@, "-b:a"@, "128k"@, "-ar"@, "48000"@,
        "-ac"@, "2"@, "-f"@, "hls"@, "-hls_time"@, "2"@, "-hls_list_size"@, "5"@, "-hls_flags"@,
        "delete_segments+append_list"@, "-hls_segment_type"@, "mpegts"@, "-hls_segment_filename"@
    ]
}

/// The full encoder command line for a rendition directory.
pub open spec fn hls_encoder_args(quality_dir: Seq<char>) -> Seq<Seq<char>> {
    hls_encoder_options() + seq![quality_dir + "/segment_%01d.ts"@, quality_dir + "/index.m3u8"@]
}

/// Arguments of the `ffmpeg` process that turns an ingested stream into HLS
/// segments in `quality_dir`.
pub fn hls_encoder_command(quality_dir: &str) -> (args: Vec<String>)
    ensures
        views(args@) == hls_encoder_args(quality_dir@),
{
    let mut args: Vec<String> = Vec::new();
    assert(views(args@) =~= Seq::<Seq<char>>::empty());
    push_arg(&mut args, "-loglevel");
    push_arg(&mut args, "error");
    push_arg(&mut args, "-re");
    push_arg(&mut args, "-i");
    push_arg(&mut args, "pipe:0");
    push_arg(&mut args, "-c:v");
    push_arg(&mut args, "libx264");
    push_arg(&mut args, "-preset");
    push_arg(&mut args, "ultrafast");
    push_arg(&mut args, "-tune");
    push_arg(&mut args, "zerolatency");
    push_arg(&mut args, "-profile:v");
    push_arg(&mut args, "baseline");
    push_arg(&mut args, "-level");
    push_arg(&mut args, "3.0");
    push_arg(&mut args, "-pix_fmt");
    push_arg(&mut args, "yuv420p");
    push_arg(&mut args, "-g");
    push_arg(&mut args, "60");
    push_arg(&mut args, "-sc_threshold");
    push_arg(&mut args, "0");
    push_arg(&mut args, "-b:v");
    push_arg(&mut args, "2500k");
    push_arg(&mut args, "-maxrate");
    push_arg(&mut args, "2800k");
    push_arg(&mut args, "-bufsize");
    push_arg(&mut args, "5600k");
    push_arg(&mut args, "-s");
    push_arg(&mut args, "1280x720");
    push_arg(&mut args, "-r");
    push_arg(&mut args, "30");
    push_arg(&mut args, "-c:a");
    push_arg(&mut args, "aac");
    push_arg(&mut args, "-b:a");
    push_arg(&mut args, "128k");
    push_arg(&mut args, "-ar");
    push_arg(&mut args, "48000");
    push_arg(&mut args, "-ac");
    push_arg(&mut args, "2");
    push_arg(&mut args, "-f");
    push_arg(&mut args, "hls");
    push_arg(&mut args, "-hls_time");
    push_arg(&mut args, "2");
    push_arg(&mut args, "-hls_list_size");
    push_arg(&mut args, "5");
    push_arg(&mut args, "-hls_flags");
    push_arg(&mut args, "delete_segments+append_list");
    push_arg(&mut args, "-hls_segment_type");
    push_arg(&mut args, "mpegts");
    push_arg(&mut args, "-hls_segment_filename");
    let mut pattern = String::from_str(quality_dir);
    pattern.append("/segment_%01d.ts");
    push_owned(&mut args, pattern);
    let mut playlist = String::from_str(quality_dir);
    playlist.append("/index.m3u8");
    push_owned(&mut args, playlist);
    assert(views(args@) =~= hls_encoder_args(quality_dir@));
    args
}

/// Whether a file written by the encoder is a media segment.
pub fn is_segment_file(filename: &str) -> (b: bool)
    ensures
        b == ends_with(filename@, ".ts"@),
{
    str_ends_with(filename, ".ts")
}

/// The segment the encoder's `sequence`-th file becomes: two seconds long, a
/// keyframe, stamped at two seconds per sequence number, of medium quality.
pub open spec fn watched_segment_view(sequence: u64, data: Seq<u8>) -> SegmentView {
    SegmentView {
        sequence,
        data,
        duration_ms: 2000,
        keyframe: true,
        timestamp: (sequence * 2000) as u64,
        quality: StreamQuality::Medium,
    }
}

/// Wraps the bytes of the encoder's `sequence`-th segment file as a segment.
pub fn watched_segment(sequence: u64, data: Vec<u8>) -> (s: VideoSegment)
    requires
        sequence * 2000 <= u64::MAX,
    ensures
        s.deep_view() == watched_segment_view(sequence, data@),
{
    VideoSegment {
        sequence,
        data,
        duration_ms: 2000,
        keyframe: true,
        timestamp: sequence * 2000,
        quality: StreamQuality::Medium,
    }
}

/// The encoder's segment files already ingested, in the order they were taken,
/// and the sequence number the next one gets.
pub struct SegmentWatcher {
    seen: Vec<String>,
    next_sequence: u64,
}

impl SegmentWatcher {
    /// Names of the files taken so far.
    pub closed spec fn seen_view(&self) -> Seq<Seq<char>> {
        views(self.seen@)
    }

    /// Sequence number of the next segment.
    pub closed spec fn next_sequence_view(&self) -> u64 {
        self.next_sequence
    }

    /// A watcher that has taken nothing yet.
    pub fn new() -> (w: Self)
        ensures
            w.seen_view() == Seq::<Seq<char>>::empty(),
            w.next_sequence_view() == 0,
    {
        let w = SegmentWatcher { seen: Vec::new(), next_sequence: 0 };
        assert(views(w.seen@) =~= Seq::<Seq<char>>::empty());
        w
    }

    /// Sequence number of the next segment.
    pub fn next_sequence(&self) -> (n: u64)
        ensures
            n == self.next_sequence_view(),
    {
        self.next_sequence
    }

    /// Whether `filename` is a media segment that has not been taken yet.
    pub fn wants(&self, filename: &str) -> (b: bool)
        ensures
            b == (ends_with(filename@, ".ts"@) && !self.seen_view().contains(filename@)),
    {
        if !is_segment_file(filename) {
            return false;
        }
        let mut i: usize = 0;
        while i < self.seen.len()
            invariant
                i <= self.seen@.len(),
                forall|j: int| 0 <= j < i ==> #[trigger] self.seen@[j]@ != filename@,
            decreases self.seen@.len() - i,
        {
            if str_eq(self.seen[i].as_str(), filename) {
                assert(self.seen_view()[i as int] == filename@);
                return false;
            }
            i = i + 1;
        }
        assert forall|j: int| 0 <= j < self.seen_view().len() implies #[trigger] self.seen_view()[j] != filename@ by {
            assert(self.seen_view()[j] == self.seen@[j]@);
        }
        true
    }

    /// Takes the bytes read from `filename` as the next segment: the file counts
    /// as taken and the sequence number moves on.
    pub fn take(&mut self, filename: String, data: Vec<u8>) -> (s: VideoSegment)
        requires
            old(self).next_sequence_view() * 2000 <= u64::MAX,
        ensures
            s.deep_view() == watched_segment_view(old(self).next_sequence_view(), data@),
            final(self).seen_view() == old(self).seen_view().push(filename@),
            final(self).next_sequence_view() == old(self).next_sequence_view() + 1,
    {
        let seg = watched_segment(self.next_sequence, data);
        push_owned(&mut self.seen, filename);
        self.next_sequence = self.next_sequence + 1;
        seg
    }
}

} // verus!
