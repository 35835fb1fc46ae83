//! Transcoding decisions: hardware acceleration, encoder arguments, profile
//! mapping, and the simulated transcoder used without FFmpeg.

use vstd::prelude::*;
use crate::config::settings::TranscodingProfile;
use crate::domain::quality::StreamQuality;
use crate::cdn::selection::views;
use crate::text::{all_digits, decimal, decimal_string, digits_value, lemma_decimal_reads_back, push_decimal};
use crate::tables::{is_index_snapshot, load_table, load_table_entries, load_table_get, load_table_insert, load_table_new};
use dashmap::DashMap;

verus! {

/// Hardware acceleration configuration.
#[derive(Debug, Clone, Copy)]
pub struct HardwareAcceleration {
    pub enabled: bool,
    pub accel_type: AccelType,
}

#[derive(Debug, Clone, Copy, PartialEq, Eq, Structural)]
pub enum AccelType {
    /// software encoding
    Software,
    /// NVENC
    Nvidia,
    /// QSV
    Intel,
    /// AMF
    Amd,
    /// macOS
    VideoToolbox,
}

/// A transcoded chunk of one quality.
#[derive(Debug)]
pub struct TranscodedSegment {
    pub quality: StreamQuality,
    pub data: Vec<u8>,
    pub sequence: u64,
    pub duration_ms: u32,
    pub keyframe: bool,
}

#[derive(Debug)]
pub enum TranscoderError {
    FfmpegNotFound,
    ProcessSpawnError(String),
    WriteError(String),
    ReadError(String),
    SessionNotFound(String),
    InvalidVideoData,
    JobLimitReached,
}

/// The acceleration chosen from what was found: NVIDIA first, then Intel, then
/// VideoToolbox on macOS, else software encoding.
pub open spec fn chosen_acceleration(nvidia: bool, intel: bool, macos: bool) -> HardwareAcceleration {
    if nvidia {
        HardwareAcceleration { enabled: true, accel_type: AccelType::Nvidia }
    } else if intel {
        HardwareAcceleration { enabled: true, accel_type: AccelType::Intel }
    } else if macos {
        HardwareAcceleration { enabled: true, accel_type: AccelType::VideoToolbox }
    } else {
        HardwareAcceleration { enabled: false, accel_type: AccelType::Software }
    }
}

impl HardwareAcceleration {
    /// The acceleration to use given which accelerators were detected.
    pub fn from_detection(nvidia: bool, intel: bool, macos: bool) -> (h: Self)
        ensures
            h == chosen_acceleration(nvidia, intel, macos),
    {
        if nvidia {
            HardwareAcceleration { enabled: true, accel_type: AccelType::Nvidia }
        } else if intel {
            HardwareAcceleration { enabled: true, accel_type: AccelType::Intel }
        } else if macos {
            HardwareAcceleration { enabled: true, accel_type: AccelType::VideoToolbox }
        } else {
            HardwareAcceleration { enabled: false, accel_type: AccelType::Software }
        }
    }
}

/// FFmpeg decoder flags for the acceleration in use.
pub open spec fn hw_accel_args(hw: HardwareAcceleration) -> Seq<Seq<char>> {
    if !hw.enabled {
        Seq::empty()
    } else {
        match hw.accel_type {
            AccelType::Nvidia => seq!["-hwaccel"@, "cuda"@, "-hwaccel_output_format"@, "cuda"@],
            AccelType::Intel => seq!["-hwaccel"@, "qsv"@, "-hwaccel_output_format"@, "qsv"@],
            AccelType::VideoToolbox => seq!["-hwaccel"@, "videotoolbox"@],
            AccelType::Amd => seq!["-hwaccel"@, "amf"@],
            AccelType::Software => Seq::empty(),
        }
    }
}

/// The H.264 encoder for the acceleration in use.
pub open spec fn video_codec_name(hw: HardwareAcceleration) -> Seq<char> {
    if !hw.enabled {
        "libx264"@
    } else {
        match hw.accel_type {
            AccelType::Nvidia => "h264_nvenc"@,
            AccelType::Intel => "h264_qsv"@,
            AccelType::VideoToolbox => "h264_videotoolbox"@,
            AccelType::Amd => "h264_amf"@,
            AccelType::Software => "libx264"@,
        }
    }
}

/// Input flags: raw H.264 on stdin.
pub open spec fn input_args() -> Seq<Seq<char>> {
    seq!["-i"@, "pipe:0"@, "-f"@, "h264"@]
}

/// Encoder and rate flags: target bitrate, 1.2x max rate, 2x buffer.
pub open spec fn rate_args(hw: HardwareAcceleration, p: TranscodingProfile) -> Seq<Seq<char>> {
    seq![
        "-c:v"@, video_codec_name(hw), "-preset"@, "veryfast"@,
        "-b:v"@, decimal(p.bitrate_kbps as nat) + "k"@,
        "-maxrate"@, decimal((p.bitrate_kbps * 12 / 10) as nat) + "k"@,
        "-bufsize"@, decimal((p.bitrate_kbps * 2) as nat) + "k"@
    ]
}

/// Frame size, frame rate and a 2-second GOP.
pub open spec fn picture_args(p: TranscodingProfile) -> Seq<Seq<char>> {
    seq![
        "-s"@, decimal(p.width as nat) + "x"@ + decimal(p.height as nat),
        "-r"@, decimal(p.fps as nat),
        "-g"@, decimal((p.fps * 2) as nat),
        "-keyint_min"@, decimal((p.fps * 2) as nat)
    ]
}

/// Output flags: FLV on stdout, quiet.
pub open spec fn output_args() -> Seq<Seq<char>> {
    seq!["-f"@, "flv"@, "pipe:1"@, "-hide_banner"@, "-loglevel"@, "error"@]
}

/// The FFmpeg arguments transcoding raw H.264 on stdin to FLV on stdout for one profile.
pub open spec fn transcode_args(hw: HardwareAcceleration, p: TranscodingProfile) -> Seq<Seq<char>> {
    input_args() + hw_accel_args(hw) + rate_args(hw, p) + picture_args(p) + output_args()
}

/// The command asks for a keyframe every two seconds: `-g` and `-keyint_min` are
/// each followed by a decimal number of frames equal to twice the frame rate.
pub proof fn lemma_two_second_gop(hw: HardwareAcceleration, p: TranscodingProfile)
    ensures
        exists|k: int| {
            &&& 0 <= k && k + 3 < transcode_args(hw, p).len()
            &&& #[trigger] transcode_args(hw, p)[k] == "-g"@
            &&& all_digits(transcode_args(hw, p)[k + 1])
            &&& digits_value(transcode_args(hw, p)[k + 1]) == 2 * p.fps
            &&& transcode_args(hw, p)[k + 2] == "-keyint_min"@
            &&& all_digits(transcode_args(hw, p)[k + 3])
            &&& digits_value(transcode_args(hw, p)[k + 3]) == 2 * p.fps
        },
{
    let a = transcode_args(hw, p);
    let pre = input_args() + hw_accel_args(hw) + rate_args(hw, p);
    let pic = picture_args(p);
    let k = pre.len() as int + 4;
    lemma_decimal_reads_back((p.fps * 2) as nat);
    assert(a == pre + pic + output_args());
    assert(a[k] == pic[4]);
    assert(a[k + 1] == pic[5]);
    assert(a[k + 2] == pic[6]);
    assert(a[k + 3] == pic[7]);
}

/// The encoder name for the acceleration in use.
pub fn get_video_codec(hw: &HardwareAcceleration) -> (c: &'static str)
    ensures
        c@ == video_codec_name(*hw),
{
    if !hw.enabled {
        return "libx264";
    }
    match hw.accel_type {
        AccelType::Nvidia => "h264_nvenc",
        AccelType::Intel => "h264_qsv",
        AccelType::VideoToolbox => "h264_videotoolbox",
        AccelType::Amd => "h264_amf",
        AccelType::Software => "libx264",
    }
}

pub(crate) fn push_arg(args: &mut Vec<String>, a: &str)
    ensures
        views(final(args)@) == views(old(args)@).push(a@),
{
    args.push(String::from_str(a));
    assert(views(final(args)@) =~= views(old(args)@).push(a@));
}

pub(crate) fn push_owned(args: &mut Vec<String>, a: String)
    ensures
        views(final(args)@) == views(old(args)@).push(a@),
{
    let ghost v = a@;
    args.push(a);
    assert(views(final(args)@) =~= views(old(args)@).push(v));
}

/// Appends the decoder flags for the acceleration in use.
pub fn add_hw_accel_args(hw: &HardwareAcceleration, args: &mut Vec<String>)
    ensures
        views(final(args)@) == views(old(args)@) + hw_accel_args(*hw),
{
    if !hw.enabled {
        assert(views(old(args)@) + hw_accel_args(*hw) =~= views(old(args)@));
        return;
    }
    match hw.accel_type {
        AccelType::Nvidia => {
            push_arg(args, "-hwaccel");
            push_arg(args, "cuda");
            push_arg(args, "-hwaccel_output_format");
            push_arg(args, "cuda");
        },
        AccelType::Intel => {
            push_arg(args, "-hwaccel");
            push_arg(args, "qsv");
            push_arg(args, "-hwaccel_output_format");
            push_arg(args, "qsv");
        },
        AccelType::VideoToolbox => {
            push_arg(args, "-hwaccel");
            push_arg(args, "videotoolbox");
        },
        AccelType::Amd => {
            push_arg(args, "-hwaccel");
            push_arg(args, "amf");
        },
        AccelType::Software => {},
    }
    assert(views(final(args)@) =~= views(old(args)@) + hw_accel_args(*hw));
}

/// `n` in decimal followed by `suffix`.
fn number_with(n: u64, suffix: &str) -> (s: String)
    ensures
        s@ == decimal(n as nat) + suffix@,
{
    let mut s = String::new();
    push_decimal(&mut s, n);
    s.append(suffix);
    assert(s@ =~= decimal(n as nat) + suffix@);
    s
}

fn push_input_args(args: &mut Vec<String>)
    ensures
        views(final(args)@) == views(old(args)@) + input_args(),
{
    push_arg(args, "-i");
    push_arg(args, "pipe:0");
    push_arg(args, "-f");
    push_arg(args, "h264");
    assert(views(final(args)@) =~= views(old(args)@) + input_args());
}

fn push_rate_args(args: &mut Vec<String>, hw: &HardwareAcceleration, profile: &TranscodingProfile)
    requires
        profile.bitrate_kbps * 12 <= u32::MAX,
    ensures
        views(final(args)@) == views(old(args)@) + rate_args(*hw, *profile),
{
    push_arg(args, "-c:v");
    push_arg(args, get_video_codec(hw));
    push_arg(args, "-preset");
    push_arg(args, "veryfast");
    push_arg(args, "-b:v");
    push_owned(args, number_with(profile.bitrate_kbps as u64, "k"));
    push_arg(args, "-maxrate");
    push_owned(args, number_with((profile.bitrate_kbps * 12 / 10) as u64, "k"));
    push_arg(args, "-bufsize");
    push_owned(args, number_with((profile.bitrate_kbps * 2) as u64, "k"));
    assert(views(final(args)@) =~= views(old(args)@) + rate_args(*hw, *profile));
}

fn push_picture_args(args: &mut Vec<String>, profile: &TranscodingProfile)
    requires
        profile.fps * 2 <= u32::MAX,
    ensures
        views(final(args)@) == views(old(args)@) + picture_args(*profile),
{
    push_arg(args, "-s");
    let mut size = number_with(profile.width as u64, "x");
    push_decimal(&mut size, profile.height as u64);
    push_owned(args, size);
    push_arg(args, "-r");
    push_owned(args, decimal_string(profile.fps as u64));
    push_arg(args, "-g");
    push_owned(args, decimal_string((profile.fps * 2) as u64));
    push_arg(args, "-keyint_min");
    push_owned(args, decimal_string((profile.fps * 2) as u64));
    assert(views(final(args)@) =~= views(old(args)@) + picture_args(*profile));
}

fn push_output_args(args: &mut Vec<String>)
    ensures
        views(final(args)@) == views(old(args)@) + output_args(),
{
    push_arg(args, "-f");
    push_arg(args, "flv");
    push_arg(args, "pipe:1");
    push_arg(args, "-hide_banner");
    push_arg(args, "-loglevel");
    push_arg(args, "error");
    assert(views(final(args)@) =~= views(old(args)@) + output_args());
}

/// The FFmpeg command line transcoding one profile.
pub fn build_transcode_args(hw: &HardwareAcceleration, profile: &TranscodingProfile) -> (args: Vec<String>)
    requires
        profile.bitrate_kbps * 12 <= u32::MAX,
        profile.fps * 2 <= u32::MAX,
    ensures
        views(args@) == transcode_args(*hw, *profile),
{
    let mut args: Vec<String> = Vec::new();
    assert(views(args@) =~= Seq::empty());
    push_input_args(&mut args);
    add_hw_accel_args(hw, &mut args);
    push_rate_args(&mut args, hw, profile);
    push_picture_args(&mut args, profile);
    push_output_args(&mut args);
    assert(views(args@) =~= transcode_args(*hw, *profile));
    args
}

/// The quality a profile produces, by its frame height (720p for unknown heights).
pub open spec fn quality_of_height(h: u32) -> StreamQuality {
    if h == 360 {
        StreamQuality::Low
    } else if h == 720 {
        StreamQuality::Medium
    } else if h == 1080 {
        StreamQuality::High
    } else if h == 2160 {
        StreamQuality::Ultra
    } else {
        StreamQuality::Medium
    }
}

/// Maps a transcoding profile to the quality it produces.
pub fn profile_to_quality(profile: &TranscodingProfile) -> (q: StreamQuality)
    ensures
        q == quality_of_height(profile.height),
{
    match profile.height {
        360 => StreamQuality::Low,
        720 => StreamQuality::Medium,
        1080 => StreamQuality::High,
        2160 => StreamQuality::Ultra,
        _ => StreamQuality::Medium,
    }
}

/// Size a simulated transcode keeps of `len` bytes: 30%, 50%, 80% or all of them,
/// rounded down.
pub open spec fn scaled_len(len: nat, q: StreamQuality) -> nat {
    match q {
        StreamQuality::Low => len * 3 / 10,
        StreamQuality::Medium => len / 2,
        StreamQuality::High => len * 8 / 10,
        StreamQuality::Ultra => len,
    }
}

/// The prefix of `data` a simulated transcode to quality `q` keeps.
pub fn scaled_prefix(data: &[u8], q: StreamQuality) -> (out: Vec<u8>)
    ensures
        out@ == data@.take(scaled_len(data@.len() as nat, q) as int),
{
    let len = data.len();
    let n: usize = match q {
        StreamQuality::Low => ((len as u128) * 3 / 10) as usize,
        StreamQuality::Medium => len / 2,
        StreamQuality::High => ((len as u128) * 8 / 10) as usize,
        StreamQuality::Ultra => len,
    };
    let mut out: Vec<u8> = Vec::new();
    let mut i: usize = 0;
    while i < n
        invariant
            n <= len,
            len == data@.len(),
            i <= n,
            n == scaled_len(len as nat, q),
            out@ == data@.take(i as int),
        decreases n - i,
    {
        out.push(data[i]);
        i = i + 1;
        assert(out@ =~= data@.take(i as int));
    }
    out
}

/// Simulates transcoding by keeping a quality-dependent share of the input.
pub struct SimpleTranscoder;

impl SimpleTranscoder {
    pub fn transcode(data: &[u8], quality: StreamQuality) -> (out: Vec<u8>)
        ensures
            out@ == data@.take(scaled_len(data@.len() as nat, quality) as int),
    {
        scaled_prefix(data, quality)
    }
}

/// Scanning `s` in order from no worker (index 0) at load `usize::MAX`, the
/// worker of the first entry whose load is strictly below the least seen so
/// far, with that load.
pub open spec fn scan_least(s: Seq<(usize, usize)>) -> (usize, usize)
    decreases s.len(),
{
    if s.len() == 0 {
        (0usize, usize::MAX)
    } else {
        let best = scan_least(s.drop_last());
        if s.last().1 < best.1 { s.last() } else { best }
    }
}

/// The load `scan_least` settles on is no more than any entry's, and unless it is
/// `usize::MAX` it is an entry of `s`.
pub proof fn lemma_scan_least(s: Seq<(usize, usize)>)
    ensures
        forall|j: int| 0 <= j < s.len() ==> scan_least(s).1 <= (#[trigger] s[j]).1,
        scan_least(s).1 < usize::MAX ==> exists|j: int| 0 <= j < s.len() && #[trigger] s[j] == scan_least(s),
    decreases s.len(),
{
    if s.len() > 0 {
        let t = s.drop_last();
        lemma_scan_least(t);
        assert forall|j: int| 0 <= j < s.len() implies scan_least(s).1 <= (#[trigger] s[j]).1 by {
            if j < t.len() {
                assert(t[j] == s[j]);
            }
        }
        if scan_least(s).1 < usize::MAX && scan_least(s) == scan_least(t) {
            let j = choose|j: int| 0 <= j < t.len() && #[trigger] t[j] == scan_least(t);
            assert(s[j] == t[j]);
        }
        if scan_least(s) != scan_least(t) {
            assert(s[s.len() - 1] == scan_least(s));
        }
    }
}

/// Sessions assigned to each worker of a transcoder pool, by worker index.
pub struct WorkerLoads {
    loads: DashMap<usize, usize>,
}

impl WorkerLoads {
    /// Sessions assigned to each worker, keyed by worker index.
    pub closed spec fn loads_view(&self) -> Map<usize, usize> {
        load_table(self.loads)
    }

    /// A pool of `pool_size` idle workers.
    pub fn new(pool_size: usize) -> (w: Self)
        ensures
            w.loads_view() == Map::new(|k: usize| k < pool_size, |k: usize| 0usize),
    {
        let mut loads = load_table_new();
        let mut i: usize = 0;
        while i < pool_size
            invariant
                i <= pool_size,
                load_table(loads) == Map::new(|k: usize| k < i, |k: usize| 0usize),
            decreases pool_size - i,
        {
            load_table_insert(&mut loads, i, 0);
            i = i + 1;
            assert(load_table(loads) =~= Map::new(|k: usize| k < i, |k: usize| 0usize));
        }
        assert(load_table(loads) =~= Map::new(|k: usize| k < pool_size, |k: usize| 0usize));
        WorkerLoads { loads }
    }

    /// Picks the worker for a new session, the first of least load in the table's
    /// iteration order, and counts the session against it.
    pub fn assign(&mut self) -> (i: usize)
        requires
            exists|k: usize| #[trigger] old(self).loads_view().contains_key(k) && old(self).loads_view()[k] < usize::MAX,
        ensures
            exists|s: Seq<(usize, usize)>| #[trigger] is_index_snapshot(old(self).loads_view(), s) && i == scan_least(s).0,
            old(self).loads_view().contains_key(i),
            forall|k: usize| #[trigger] old(self).loads_view().contains_key(k) ==> old(self).loads_view()[i] <= old(self).loads_view()[k],
            final(self).loads_view() == old(self).loads_view().insert(i, (old(self).loads_view()[i] + 1) as usize),
    {
        let entries = load_table_entries(&self.loads);
        let ghost m = load_table(self.loads);
        let ghost s = entries@;
        let mut best: usize = 0;
        let mut best_load: usize = usize::MAX;
        let mut j: usize = 0;
        while j < entries.len()
            invariant
                j <= s.len(),
                s == entries@,
                (best, best_load) == scan_least(s.take(j as int)),
            decreases s.len() - j,
        {
            proof {
                assert(s.take(j + 1).drop_last() =~= s.take(j as int));
            }
            let (k, l) = entries[j];
            if l < best_load {
                best = k;
                best_load = l;
            }
            j = j + 1;
        }
        proof {
            assert(s.take(j as int) =~= s);
            lemma_scan_least(s);
            let k = choose|k: usize| #[trigger] m.contains_key(k) && m[k] < usize::MAX;
            let jk = choose|jk: int| 0 <= jk < s.len() && #[trigger] s[jk].0 == k;
            assert(scan_least(s).1 <= s[jk].1);
            let jb = choose|jb: int| 0 <= jb < s.len() && #[trigger] s[jb] == scan_least(s);
            assert(m.contains_key(s[jb].0));
            assert forall|q: usize| #[trigger] m.contains_key(q) implies m[best] <= m[q] by {
                let jq = choose|jq: int| 0 <= jq < s.len() && #[trigger] s[jq].0 == q;
                assert(scan_least(s).1 <= s[jq].1);
            }
        }
        load_table_insert(&mut self.loads, best, best_load + 1);
        best
    }

    /// Counts a session of worker `i` as finished; a worker with no session
    /// stays at zero, and an unknown index changes nothing.
    pub fn release(&mut self, i: usize)
        ensures
            old(self).loads_view().contains_key(i) ==> final(self).loads_view() == old(self).loads_view().insert(
                i,
                if old(self).loads_view()[i] > 0 { (old(self).loads_view()[i] - 1) as usize } else { 0usize },
            ),
            !old(self).loads_view().contains_key(i) ==> final(self).loads_view() == old(self).loads_view(),
    {
        match load_table_get(&self.loads, i) {
            Some(cur) => {
                let n = if cur > 0 { cur - 1 } else { 0 };
                load_table_insert(&mut self.loads, i, n);
            },
            None => {},
        }
    }

    /// Statistics of the pool, given its worker count and open sessions; the
    /// loads come in the table's iteration order.
    pub fn stats(&self, worker_count: usize, total_sessions: usize) -> (st: PoolStats)
        ensures
            st.worker_count == worker_count,
            st.total_sessions == total_sessions,
            exists|s: Seq<(usize, usize)>| #[trigger] is_index_snapshot(self.loads_view(), s)
                && st.worker_loads@ == s.map_values(|e: (usize, usize)| e.1),
    {
        let entries = load_table_entries(&self.loads);
        let mut loads: Vec<usize> = Vec::new();
        let mut j: usize = 0;
        while j < entries.len()
            invariant
                j <= entries@.len(),
                loads@ == entries@.take(j as int).map_values(|e: (usize, usize)| e.1),
            decreases entries@.len() - j,
        {
            loads.push(entries[j].1);
            j = j + 1;
            assert(loads@ =~= entries@.take(j as int).map_values(|e: (usize, usize)| e.1));
        }
        assert(entries@.take(j as int) =~= entries@);
        assert(is_index_snapshot(self.loads_view(), entries@));
        assert(loads@ == entries@.map_values(|e: (usize, usize)| e.1));
        PoolStats { worker_count, total_sessions, worker_loads: loads }
    }
}

/// Finishing a session on the worker it was assigned to gives back the loads as
/// they were before the assignment.
pub proof fn lemma_release_undoes_assign(before: Map<usize, usize>, i: usize)
    requires
        before.contains_key(i),
        before[i] < usize::MAX,
    ensures
        ({
            let assigned = before.insert(i, (before[i] + 1) as usize);
            assigned.insert(i, if assigned[i] > 0 { (assigned[i] - 1) as usize } else { 0usize }) == before
        }),
{
    let assigned = before.insert(i, (before[i] + 1) as usize);
    assert(assigned.insert(i, (assigned[i] - 1) as usize) =~= before);
}

/// Sessions and per-worker loads of a transcoder pool.
#[derive(Debug)]
pub struct PoolStats {
    pub worker_count: usize,
    pub total_sessions: usize,
    pub worker_loads: Vec<usize>,
}

impl Clone for PoolStats {
    fn clone(&self) -> (r: Self)
        ensures
            r.worker_count == self.worker_count,
            r.total_sessions == self.total_sessions,
            r.worker_loads@ == self.worker_loads@,
    {
        let worker_loads = self.worker_loads.clone();
        assert(worker_loads@ =~= self.worker_loads@);
        PoolStats { worker_count: self.worker_count, total_sessions: self.total_sessions, worker_loads }
    }
}

} // verus!
