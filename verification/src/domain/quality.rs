use vstd::prelude::*;

verus! {

/// Rendition ladder of a live stream.
#[derive(Debug, Clone, Copy, PartialEq, Eq, Hash, Structural)]
pub enum StreamQuality {
    /// 360p
    Low,
    /// 720p
    Medium,
    /// 1080p
    High,
    /// 4K
    Ultra,
}

/// Display name of a quality, as used in playlists, URLs and cache keys.
pub open spec fn quality_name(q: StreamQuality) -> Seq<char> {
    match q {
        StreamQuality::Low => "360p"@,
        StreamQuality::Medium => "720p"@,
        StreamQuality::High => "1080p"@,
        StreamQuality::Ultra => "2160p"@,
    }
}

/// Nominal video bitrate in kbit/s.
pub open spec fn quality_bitrate_kbps(q: StreamQuality) -> u32 {
    match q {
        StreamQuality::Low => 1000,
        StreamQuality::Medium => 3000,
        StreamQuality::High => 6000,
        StreamQuality::Ultra => 12000,
    }
}

/// Frame size (width, height) in pixels.
pub open spec fn quality_resolution(q: StreamQuality) -> (u32, u32) {
    match q {
        StreamQuality::Low => (640, 360),
        StreamQuality::Medium => (1280, 720),
        StreamQuality::High => (1920, 1080),
        StreamQuality::Ultra => (3840, 2160),
    }
}

/// Advertised bandwidth in bit/s (the kbit/s bitrate times 1000).
pub open spec fn quality_bandwidth(q: StreamQuality) -> u64 {
    (quality_bitrate_kbps(q) * 1000) as u64
}

/// All qualities, lowest first.
pub open spec fn all_qualities() -> Seq<StreamQuality> {
    seq![StreamQuality::Low, StreamQuality::Medium, StreamQuality::High, StreamQuality::Ultra]
}

/// Position of a quality in `all_qualities()`.
pub open spec fn quality_index(q: StreamQuality) -> int {
    match q {
        StreamQuality::Low => 0,
        StreamQuality::Medium => 1,
        StreamQuality::High => 2,
        StreamQuality::Ultra => 3,
    }
}

impl StreamQuality {
    pub fn to_string(&self) -> (s: &'static str)
        ensures
            s@ == quality_name(*self),
    {
        match self {
            StreamQuality::Low => "360p",
            StreamQuality::Medium => "720p",
            StreamQuality::High => "1080p",
            StreamQuality::Ultra => "2160p",
        }
    }

    pub fn bitrate_kbps(&self) -> (kbps: u32)
        ensures
            kbps == quality_bitrate_kbps(*self),
    {
        match self {
            StreamQuality::Low => 1000,
            StreamQuality::Medium => 3000,
            StreamQuality::High => 6000,
            StreamQuality::Ultra => 12000,
        }
    }

    pub fn resolution(&self) -> (wh: (u32, u32))
        ensures
            wh == quality_resolution(*self),
    {
        match self {
            StreamQuality::Low => (640, 360),
            StreamQuality::Medium => (1280, 720),
            StreamQuality::High => (1920, 1080),
            StreamQuality::Ultra => (3840, 2160),
        }
    }

    /// Advertised bandwidth in bit/s, as written into HLS and DASH manifests.
    pub fn bandwidth(&self) -> (bps: u64)
        ensures
            bps == quality_bandwidth(*self),
    {
        match self {
            StreamQuality::Low => 1000000,
            StreamQuality::Medium => 3000000,
            StreamQuality::High => 6000000,
            StreamQuality::Ultra => 12000000,
        }
    }

    /// The four qualities, lowest first.
    pub fn all() -> (qs: Vec<StreamQuality>)
        ensures
            qs@ == all_qualities(),
    {
        let qs = vec![StreamQuality::Low, StreamQuality::Medium, StreamQuality::High, StreamQuality::Ultra];
        assert(qs@ =~= all_qualities());
        qs
    }
}

/// Distinct qualities have distinct names.
pub proof fn lemma_quality_name_injective(a: StreamQuality, b: StreamQuality)
    ensures
        quality_name(a) == quality_name(b) <==> a == b,
{
    reveal_strlit("360p");
    reveal_strlit("720p");
    reveal_strlit("1080p");
    reveal_strlit("2160p");
    if quality_name(a) == quality_name(b) && a != b {
        match a {
            StreamQuality::Low => { assert(quality_name(a)[1] != quality_name(b)[1] || quality_name(a).len() != quality_name(b).len()); }
            StreamQuality::Medium => { assert(quality_name(a)[0] != quality_name(b)[0] || quality_name(a).len() != quality_name(b).len()); }
            StreamQuality::High => { assert(quality_name(a)[0] != quality_name(b)[0] || quality_name(a).len() != quality_name(b).len()); }
            StreamQuality::Ultra => { assert(quality_name(a)[0] != quality_name(b)[0] || quality_name(a).len() != quality_name(b).len()); }
        }
    }
}

} // verus!
