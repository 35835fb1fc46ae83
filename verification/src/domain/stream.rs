use vstd::prelude::*;
use std::collections::VecDeque;
use vstd::std_specs::vecdeque::VecDequeAdditionalSpecFns;
use crate::domain::quality::StreamQuality;

verus! {

/// Descriptive data of a live stream. `started_at` is in nanoseconds since the UNIX epoch.
#[derive(Debug)]
pub struct StreamMetadata {
    pub stream_id: String,
    pub broadcaster_id: String,
    pub title: String,
    pub viewers: usize,
    pub started_at: u64,
    pub bitrate_kbps: u32,
    pub resolution: String,
    pub codec: String,
}

impl Clone for StreamMetadata {
    fn clone(&self) -> (r: Self)
        ensures
            r == *self,
    {
        StreamMetadata {
            stream_id: self.stream_id.clone(),
            broadcaster_id: self.broadcaster_id.clone(),
            title: self.title.clone(),
            viewers: self.viewers,
            started_at: self.started_at,
            bitrate_kbps: self.bitrate_kbps,
            resolution: self.resolution.clone(),
            codec: self.codec.clone(),
        }
    }
}

/// The value of a segment: its fields, with the payload as a byte sequence.
pub ghost struct SegmentView {
    pub sequence: u64,
    pub data: Seq<u8>,
    pub duration_ms: u32,
    pub keyframe: bool,
    pub timestamp: u64,
    pub quality: StreamQuality,
}

/// The value of a rendition: its fields, with the window as a sequence of segment values.
pub ghost struct AdaptiveStreamView {
    pub quality: StreamQuality,
    pub bitrate_kbps: u32,
    pub resolution: (u32, u32),
    pub segments: Seq<SegmentView>,
    pub max_segments: usize,
}

/// A chunk of media of one quality.
#[derive(Debug)]
pub struct VideoSegment {
    pub sequence: u64,
    pub data: Vec<u8>,
    pub duration_ms: u32,
    pub keyframe: bool,
    pub timestamp: u64,
    pub quality: StreamQuality,
}

impl DeepView for VideoSegment {
    type V = SegmentView;

    open spec fn deep_view(&self) -> SegmentView {
        SegmentView {
            sequence: self.sequence,
            data: self.data@,
            duration_ms: self.duration_ms,
            keyframe: self.keyframe,
            timestamp: self.timestamp,
            quality: self.quality,
        }
    }
}

impl Clone for VideoSegment {
    fn clone(&self) -> (r: Self)
        ensures
            r.deep_view() == self.deep_view(),
    {
        let data = self.data.clone();
        assert(data@ =~= self.data@);
        VideoSegment {
            sequence: self.sequence,
            data,
            duration_ms: self.duration_ms,
            keyframe: self.keyframe,
            timestamp: self.timestamp,
            quality: self.quality,
        }
    }
}

/// One rendition of a stream with its window of recent segments.
#[derive(Debug)]
pub struct AdaptiveStream {
    pub quality: StreamQuality,
    pub bitrate_kbps: u32,
    pub resolution: (u32, u32),
    pub segments: VecDeque<VideoSegment>,
    pub max_segments: usize,
}

impl DeepView for AdaptiveStream {
    type V = AdaptiveStreamView;

    open spec fn deep_view(&self) -> AdaptiveStreamView {
        AdaptiveStreamView {
            quality: self.quality,
            bitrate_kbps: self.bitrate_kbps,
            resolution: self.resolution,
            segments: self.segments.deep_view(),
            max_segments: self.max_segments,
        }
    }
}

impl Clone for AdaptiveStream {
    fn clone(&self) -> (r: Self)
        ensures
            r.deep_view() == self.deep_view(),
    {
        let segments = self.segments.clone();
        assert(segments.deep_view() =~= self.segments.deep_view()) by {
            assert forall|i: int| 0 <= i < segments@.len() implies #[trigger] segments@[i].deep_view() == self.segments@[i].deep_view() by {
                assert(cloned::<VideoSegment>(self.segments[i], segments[i]));
            }
        }
        AdaptiveStream {
            quality: self.quality,
            bitrate_kbps: self.bitrate_kbps,
            resolution: self.resolution,
            segments,
            max_segments: self.max_segments,
        }
    }
}

} // verus!
