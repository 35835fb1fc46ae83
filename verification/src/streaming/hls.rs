//! HLS master and media playlists.

use vstd::prelude::*;
use std::collections::VecDeque;
use vstd::std_specs::vecdeque::VecDequeAdditionalSpecFns;
use crate::domain::quality::{quality_bandwidth, quality_name, quality_resolution, StreamQuality};
use crate::domain::stream::{SegmentView, VideoSegment};
use crate::text::{
    all_digits, decimal, digits_value, lemma_decimal_reads_back, lemma_three_digits_reads_back, push_decimal,
    push_three_digits, starts_with, three_digits,
};

verus! {

/// The variant line pair of the master playlist for one quality.
pub open spec fn master_entry(q: StreamQuality) -> Seq<char> {
    "#EXT-X-STREAM-INF:BANDWIDTH="@ + decimal(quality_bandwidth(q) as nat) + ",RESOLUTION="@
        + decimal(quality_resolution(q).0 as nat) + "x"@ + decimal(quality_resolution(q).1 as nat)
        + ",NAME=\""@ + quality_name(q) + "\"\n"@ + quality_name(q) + "/index.m3u8\n\n"@
}

pub open spec fn master_entries(qs: Seq<StreamQuality>) -> Seq<char>
    decreases qs.len(),
{
    if qs.len() == 0 { Seq::empty() } else { master_entries(qs.drop_last()) + master_entry(qs.last()) }
}

/// The master playlist listing the given qualities, in order.
pub open spec fn master_playlist(qs: Seq<StreamQuality>) -> Seq<char> {
    "#EXTM3U\n#EXT-X-VERSION:3\n\n"@ + master_entries(qs)
}

/// A duration in milliseconds as seconds with exactly three decimals.
pub open spec fn seconds_text(ms: nat) -> Seq<char> {
    decimal(ms / 1000) + "."@ + three_digits(ms % 1000)
}

/// The two lines of a media playlist for one segment.
pub open spec fn media_entry(s: SegmentView) -> Seq<char> {
    "#EXTINF:"@ + seconds_text(s.duration_ms as nat) + ",\n"@ + "segment_"@ + decimal(s.sequence as nat) + ".ts\n"@
}

pub open spec fn media_entries(segs: Seq<SegmentView>) -> Seq<char>
    decreases segs.len(),
{
    if segs.len() == 0 { Seq::empty() } else { media_entries(segs.drop_last()) + media_entry(segs.last()) }
}

/// The media playlist of a segment window: header with the target duration and the
/// first segment's sequence number (0 for an empty window), then one entry per segment.
pub open spec fn media_playlist(target_duration: u32, segs: Seq<SegmentView>) -> Seq<char> {
    "#EXTM3U\n#EXT-X-VERSION:3\n#EXT-X-TARGETDURATION:"@ + decimal(target_duration as nat)
        + "\n#EXT-X-MEDIA-SEQUENCE:"@ + decimal((if segs.len() > 0 { segs[0].sequence } else { 0 }) as nat)
        + "\n\n"@ + media_entries(segs)
}

/// `t` is a number of seconds written with a point and three decimals that
/// reads as `ms` milliseconds.
pub open spec fn reads_as_millis(t: Seq<char>, ms: int) -> bool {
    &&& t.len() >= 5
    &&& t[t.len() - 4] == '.'
    &&& all_digits(t.take(t.len() - 4))
    &&& all_digits(t.skip(t.len() - 3))
    &&& digits_value(t.take(t.len() - 4)) * 1000 + digits_value(t.skip(t.len() - 3)) == ms
}

/// A segment's playlist entry opens with `#EXTINF:` and a duration, up to the
/// first comma, that reads back as exactly the segment's duration: whole
/// seconds, then the milliseconds as the three decimals.
pub proof fn lemma_extinf_reads_back(s: SegmentView)
    ensures
        starts_with(media_entry(s), "#EXTINF:"@),
        exists|k: int| 8 < k < media_entry(s).len() && #[trigger] media_entry(s)[k] == ','
            && reads_as_millis(media_entry(s).subrange(8, k), s.duration_ms as int),
{
    reveal_strlit("#EXTINF:");
    reveal_strlit(",\n");
    reveal_strlit(".");
    let ms = s.duration_ms as nat;
    let t = seconds_text(ms);
    let e = media_entry(s);
    lemma_decimal_reads_back(ms / 1000);
    lemma_three_digits_reads_back(ms % 1000);
    let w = decimal(ms / 1000);
    assert(t.len() == w.len() + 4);
    assert(t.take(t.len() - 4) =~= w);
    assert(t.skip(t.len() - 3) =~= three_digits(ms % 1000));
    assert(t[t.len() - 4] == '.');
    let k: int = 8 + t.len() as int;
    assert(e.subrange(0, 8) =~= "#EXTINF:"@);
    assert(e.subrange(8, k) =~= t);
    assert(e[k] == ',');
    assert(reads_as_millis(e.subrange(8, k), ms as int));
}

/// Writer of HLS playlists.
pub struct HLSManifestGenerator {
    target_duration: u32,
    playlist_type: String,
}

impl HLSManifestGenerator {
    /// Target duration of the playlists written, in seconds.
    pub closed spec fn target_duration_spec(&self) -> u32 {
        self.target_duration
    }

    /// A generator for 6-second EVENT playlists.
    pub fn new() -> (g: Self)
        ensures
            g.target_duration_spec() == 6,
    {
        HLSManifestGenerator { target_duration: 6, playlist_type: String::from_str("EVENT") }
    }

    /// The master playlist of a stream offering `qualities`.
    pub fn generate_master_playlist(&self, stream_id: &str, qualities: &[StreamQuality]) -> (m3u8: String)
        ensures
            m3u8@ == master_playlist(qualities@),
    {
        let mut m3u8 = String::from_str("#EXTM3U\n#EXT-X-VERSION:3\n\n");
        let mut i: usize = 0;
        while i < qualities.len()
            invariant
                i <= qualities@.len(),
                m3u8@ == "#EXTM3U\n#EXT-X-VERSION:3\n\n"@ + master_entries(qualities@.take(i as int)),
            decreases qualities@.len() - i,
        {
            let q = qualities[i];
            let (width, height) = q.resolution();
            let ghost before = m3u8@;
            m3u8.append("#EXT-X-STREAM-INF:BANDWIDTH=");
            push_decimal(&mut m3u8, q.bandwidth());
            m3u8.append(",RESOLUTION=");
            push_decimal(&mut m3u8, width as u64);
            m3u8.append("x");
            push_decimal(&mut m3u8, height as u64);
            m3u8.append(",NAME=\"");
            m3u8.append(q.to_string());
            m3u8.append("\"\n");
            m3u8.append(q.to_string());
            m3u8.append("/index.m3u8\n\n");
            proof {
                assert(qualities@.take(i + 1).drop_last() =~= qualities@.take(i as int));
                assert(m3u8@ =~= before + master_entry(q));
            }
            i = i + 1;
        }
        proof {
            assert(qualities@.take(i as int) =~= qualities@);
        }
        m3u8
    }

    /// The media playlist of one quality's segment window.
    pub fn generate_media_playlist(&self, stream_id: &str, quality: StreamQuality, segments: &VecDeque<VideoSegment>) -> (m3u8: String)
        ensures
            m3u8@ == media_playlist(self.target_duration_spec(), segments.deep_view()),
    {
        let mut m3u8 = String::from_str("#EXTM3U\n#EXT-X-VERSION:3\n#EXT-X-TARGETDURATION:");
        push_decimal(&mut m3u8, self.target_duration as u64);
        m3u8.append("\n#EXT-X-MEDIA-SEQUENCE:");
        let first: u64 = if segments.len() > 0 { segments[0].sequence } else { 0 };
        push_decimal(&mut m3u8, first);
        m3u8.append("\n\n");
        let ghost header = m3u8@;
        let ghost segs = segments.deep_view();
        let mut i: usize = 0;
        while i < segments.len()
            invariant
                i <= segments@.len(),
                segs == segments.deep_view(),
                m3u8@ == header + media_entries(segs.take(i as int)),
            decreases segments@.len() - i,
        {
            let seg = &segments[i];
            let ghost before = m3u8@;
            m3u8.append("#EXTINF:");
            push_decimal(&mut m3u8, (seg.duration_ms / 1000) as u64);
            m3u8.append(".");
            push_three_digits(&mut m3u8, (seg.duration_ms % 1000) as u64);
            m3u8.append(",\n");
            m3u8.append("segment_");
            push_decimal(&mut m3u8, seg.sequence);
            m3u8.append(".ts\n");
            proof {
                assert(segs.take(i + 1).drop_last() =~= segs.take(i as int));
                assert(segs[i as int] == segments@[i as int].deep_view());
                assert(m3u8@ =~= before + media_entry(segs[i as int]));
            }
            i = i + 1;
        }
        proof {
            assert(segs.take(i as int) =~= segs);
            assert(m3u8@ =~= media_playlist(self.target_duration_spec(), segs));
        }
        m3u8
    }
}

} // verus!
