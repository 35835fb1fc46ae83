//! Byte-level decisions of RTMP ingest: handshake reply, stream-key detection,
//! keyframe detection and the segmenting of incoming media.

use vstd::prelude::*;
use crate::domain::quality::StreamQuality;
use crate::domain::stream::VideoSegment;
use crate::outside::{instant_now, nanos_elapsed, now_nanos};
use crate::text::{bytes_contain, contains_seq};

verus! {

/// RTMP server errors.
#[derive(Debug)]
pub enum RtmpError {
    BindError(String),
    ConnectionError(String),
    InvalidHandshake,
    StreamNotFound(String),
    IoError(String),
}

/// An FLV video tag header announces a keyframe: at least five bytes, frame type
/// (high nibble of the first byte) 1.
pub open spec fn is_keyframe_tag(data: Seq<u8>) -> bool {
    data.len() >= 5 && data[0] / 16 == 1
}

/// Whether `data` starts an FLV keyframe tag.
pub fn is_keyframe_data(data: &[u8]) -> (b: bool)
    ensures
        b == is_keyframe_tag(data@),
{
    if data.len() < 5 {
        return false;
    }
    let first = data[0];
    let frame_type = (first & 0xF0) >> 4;
    assert((first & 0xF0) >> 4 == first / 16) by (bit_vector);
    frame_type == 1
}

/// Big-endian bytes of a 32-bit value.
pub open spec fn be_bytes(t: u32) -> Seq<u8> {
    seq![(t / 16777216) as u8, ((t / 65536) % 256) as u8, ((t / 256) % 256) as u8, (t % 256) as u8]
}

/// The server's reply S0+S1+S2 to a client's C0+C1: version 3, the timestamp, four
/// zero bytes, 1528 zero bytes, then an echo of C1.
pub open spec fn handshake_reply_bytes(c0c1: Seq<u8>, timestamp: u32) -> Seq<u8> {
    seq![3u8] + be_bytes(timestamp) + Seq::new(1532, |i: int| 0u8) + c0c1.subrange(1, c0c1.len() as int)
}

/// Answers a client's C0+C1 (1537 bytes) stamped with `timestamp` seconds; a client
/// speaking any version other than 3 is refused.
pub fn handshake_response(c0c1: &[u8], timestamp: u32) -> (r: Result<Vec<u8>, RtmpError>)
    requires
        c0c1@.len() == 1537,
    ensures
        c0c1@[0] != 3 <==> r is Err,
        r matches Err(e) ==> e is InvalidHandshake,
        r matches Ok(v) ==> v@ == handshake_reply_bytes(c0c1@, timestamp),
{
    if c0c1[0] != 3 {
        return Err(RtmpError::InvalidHandshake);
    }
    let mut out: Vec<u8> = Vec::new();
    out.push(3u8);
    out.push((timestamp / 16777216) as u8);
    out.push(((timestamp / 65536) % 256) as u8);
    out.push(((timestamp / 256) % 256) as u8);
    out.push((timestamp % 256) as u8);
    let mut k: usize = 0;
    while k < 1532
        invariant
            k <= 1532,
            out@ == seq![3u8] + be_bytes(timestamp) + Seq::new(k as nat, |i: int| 0u8),
        decreases 1532 - k,
    {
        out.push(0u8);
        k = k + 1;
        assert(out@ =~= seq![3u8] + be_bytes(timestamp) + Seq::new(k as nat, |i: int| 0u8));
    }
    let ghost prefix = out@;
    let mut j: usize = 1;
    while j < 1537
        invariant
            1 <= j <= 1537,
            c0c1@.len() == 1537,
            out@ == prefix + c0c1@.subrange(1, j as int),
        decreases 1537 - j,
    {
        out.push(c0c1[j]);
        j = j + 1;
        assert(out@ =~= prefix + c0c1@.subrange(1, j as int));
    }
    assert(out@ =~= handshake_reply_bytes(c0c1@, timestamp));
    Ok(out)
}

/// Answers a client's C0+C1, stamped with the current time in whole seconds.
pub fn handshake_reply(c0c1: &[u8]) -> (r: Result<Vec<u8>, RtmpError>)
    requires
        c0c1@.len() == 1537,
    ensures
        c0c1@[0] != 3 <==> r is Err,
        r matches Ok(v) ==> exists|t: u32| v@ == #[trigger] handshake_reply_bytes(c0c1@, t),
{
    let secs = now_nanos() / 1_000_000_000;
    let timestamp = (secs % 4294967296) as u32;
    handshake_response(c0c1, timestamp)
}

/// The bytes of "publish".
pub open spec fn publish_marker() -> Seq<u8> {
    seq![112u8, 117, 98, 108, 105, 115, 104]
}

/// The bytes of "rtmp://".
pub open spec fn url_marker() -> Seq<u8> {
    seq![114u8, 116, 109, 112, 58, 47, 47]
}

/// The stream key used for every publish command.
pub open spec fn demo_stream_key() -> Seq<char> {
    "demo-stream-id"@
}

/// The stream key announced by a chunk of RTMP command data, if it carries a publish
/// command or an RTMP URL. Every publish yields the demo stream key.
pub fn stream_key_from_chunk(data: &[u8]) -> (key: Option<String>)
    ensures
        key is Some <==> contains_seq(data@, publish_marker()) || contains_seq(data@, url_marker()),
        key matches Some(k) ==> k@ == demo_stream_key(),
{
    let publish: Vec<u8> = vec![112u8, 117, 98, 108, 105, 115, 104];
    let url: Vec<u8> = vec![114u8, 116, 109, 112, 58, 47, 47];
    assert(publish@ =~= publish_marker());
    assert(url@ =~= url_marker());
    if bytes_contain(data, publish.as_slice()) || bytes_contain(data, url.as_slice()) {
        Some(String::from_str("demo-stream-id"))
    } else {
        None
    }
}

/// Two seconds, in nanoseconds: the keyframe interval of ingested media.
pub const KEYFRAME_INTERVAL_NANOS: u64 = 2_000_000_000u64;

/// Cuts ingested media into numbered segments of about one frame (33 ms),
/// marking a keyframe at most every two seconds.
pub struct VideoIngest {
    sequence: u64,
    last_keyframe: std::time::Instant,
}

impl VideoIngest {
    /// Number of the next segment.
    pub closed spec fn next_sequence(&self) -> u64 {
        self.sequence
    }

    pub fn new() -> (v: Self)
        ensures
            v.next_sequence() == 0,
    {
        VideoIngest { sequence: 0, last_keyframe: instant_now() }
    }

    /// The segment carrying `data`: numbered in order, 33 ms long, stamped at
    /// `sequence * 33` ms, source quality (720p); a keyframe when two seconds have
    /// passed since the last one, by the monotonic clock.
    pub fn next_segment(&mut self, data: Vec<u8>) -> (seg: VideoSegment)
        requires
            old(self).next_sequence() < u64::MAX / 33,
        ensures
            seg.sequence == old(self).next_sequence(),
            seg.data@ == data@,
            seg.duration_ms == 33,
            seg.timestamp == old(self).next_sequence() * 33,
            seg.quality == StreamQuality::Medium,
            final(self).next_sequence() == old(self).next_sequence() + 1,
    {
        let elapsed = nanos_elapsed(&self.last_keyframe);
        self.next_segment_after(data, elapsed)
    }

    /// The segment carrying `data` when `elapsed` nanoseconds have passed since the
    /// last keyframe: a keyframe exactly when that is at least two seconds (the
    /// keyframe clock then restarts).
    pub fn next_segment_after(&mut self, data: Vec<u8>, elapsed: u64) -> (seg: VideoSegment)
        requires
            old(self).next_sequence() < u64::MAX / 33,
        ensures
            seg.sequence == old(self).next_sequence(),
            seg.data@ == data@,
            seg.duration_ms == 33,
            seg.keyframe == (elapsed >= KEYFRAME_INTERVAL_NANOS),
            seg.timestamp == old(self).next_sequence() * 33,
            seg.quality == StreamQuality::Medium,
            final(self).next_sequence() == old(self).next_sequence() + 1,
    {
        let keyframe = elapsed >= KEYFRAME_INTERVAL_NANOS;
        if keyframe {
            self.last_keyframe = instant_now();
        }
        let seg = VideoSegment {
            sequence: self.sequence,
            data,
            duration_ms: 33,
            keyframe,
            timestamp: self.sequence * 33,
            quality: StreamQuality::Medium,
        };
        self.sequence = self.sequence + 1;
        seg
    }
}

} // verus!
