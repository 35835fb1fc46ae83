//! DASH MPD manifests.

use vstd::prelude::*;
use std::collections::{HashMap, VecDeque};
use crate::domain::quality::{quality_bandwidth, quality_bitrate_kbps, quality_name, quality_resolution, StreamQuality};
use crate::domain::stream::VideoSegment;
use crate::text::{all_digits, decimal, digits_value, lemma_decimal_reads_back, push_decimal, starts_with};

verus! {

/// The MPD preamble up to the opening of the adaptation set.
pub open spec fn mpd_header() -> Seq<char> {
    "<?xml version=\"1.0\" encoding=\"UTF-8\"?>\n<MPD xmlns=\"urn:mpeg:dash:schema:mpd:2011\" type=\"dynamic\" minBufferTime=\"PT2S\">\n  <Period id=\"0\">\n    <AdaptationSet mimeType=\"video/mp4\" codecs=\"avc1.4d401f\" startWithSAP=\"1\">\n"@
}

/// The closing of the adaptation set, period and MPD.
pub open spec fn mpd_footer() -> Seq<char> {
    "    </AdaptationSet>\n  </Period>\n</MPD>"@
}

/// The representation of one quality of stream `stream_id`.
pub open spec fn representation(stream_id: Seq<char>, q: StreamQuality) -> Seq<char> {
    "      <Representation id=\""@ + quality_name(q) + "\" bandwidth=\""@ + decimal(quality_bandwidth(q) as nat)
        + "\" width=\""@ + decimal(quality_resolution(q).0 as nat) + "\" height=\""@
        + decimal(quality_resolution(q).1 as nat) + "\">\n        <SegmentTemplate media=\""@ + stream_id + "/"@
        + quality_name(q) + "/segment_$Number$.m4s\" startNumber=\"1\"/>\n      </Representation>\n"@
}

pub open spec fn representations(stream_id: Seq<char>, qs: Seq<StreamQuality>) -> Seq<char>
    decreases qs.len(),
{
    if qs.len() == 0 {
        Seq::empty()
    } else {
        representations(stream_id, qs.drop_last()) + representation(stream_id, qs.last())
    }
}

/// The MPD of stream `stream_id` offering `qs`, in order.
pub open spec fn mpd(stream_id: Seq<char>, qs: Seq<StreamQuality>) -> Seq<char> {
    mpd_header() + representations(stream_id, qs) + mpd_footer()
}

/// Each representation announces its quality's bitrate in bit/s: after the id,
/// `bandwidth="` is followed, up to the next quote, by a decimal number equal to
/// the quality's bitrate in kbit/s times 1000.
pub proof fn lemma_representation_bandwidth(stream_id: Seq<char>, q: StreamQuality)
    ensures
        ({
            let r = representation(stream_id, q);
            let head = "      <Representation id=\""@ + quality_name(q) + "\" bandwidth=\""@;
            &&& starts_with(r, head)
            &&& exists|j: int| head.len() < j < r.len() && #[trigger] r[j] == '"'
                && all_digits(r.subrange(head.len() as int, j))
                && digits_value(r.subrange(head.len() as int, j)) == quality_bitrate_kbps(q) * 1000
        }),
{
    reveal_strlit("\" width=\"");
    let r = representation(stream_id, q);
    let head = "      <Representation id=\""@ + quality_name(q) + "\" bandwidth=\""@;
    let bw = decimal(quality_bandwidth(q) as nat);
    lemma_decimal_reads_back(quality_bandwidth(q) as nat);
    let j: int = (head.len() + bw.len()) as int;
    assert(r.subrange(0, head.len() as int) =~= head);
    assert(r.subrange(head.len() as int, j) =~= bw);
    assert(r[j] == '"');
}

/// Writer of DASH manifests.
pub struct DASHManifestGenerator;

impl DASHManifestGenerator {
    pub fn new() -> (g: Self) {
        DASHManifestGenerator
    }

    /// The MPD of a stream offering `qualities`; segment URLs follow a template,
    /// so the current segments do not enter the text.
    pub fn generate_mpd(
        &self,
        stream_id: &str,
        qualities: &[StreamQuality],
        segments: &HashMap<StreamQuality, VecDeque<VideoSegment>>,
    ) -> (out: String)
        ensures
            out@ == mpd(stream_id@, qualities@),
    {
        let mut out = String::from_str("<?xml version=\"1.0\" encoding=\"UTF-8\"?>\n<MPD xmlns=\"urn:mpeg:dash:schema:mpd:2011\" type=\"dynamic\" minBufferTime=\"PT2S\">\n  <Period id=\"0\">\n    <AdaptationSet mimeType=\"video/mp4\" codecs=\"avc1.4d401f\" startWithSAP=\"1\">\n");
        let mut i: usize = 0;
        while i < qualities.len()
            invariant
                i <= qualities@.len(),
                out@ == mpd_header() + representations(stream_id@, qualities@.take(i as int)),
            decreases qualities@.len() - i,
        {
            let q = qualities[i];
            let (width, height) = q.resolution();
            let ghost before = out@;
            out.append("      <Representation id=\"");
            out.append(q.to_string());
            out.append("\" bandwidth=\"");
            push_decimal(&mut out, q.bandwidth());
            out.append("\" width=\"");
            push_decimal(&mut out, width as u64);
            out.append("\" height=\"");
            push_decimal(&mut out, height as u64);
            out.append("\">\n        <SegmentTemplate media=\"");
            out.append(stream_id);
            out.append("/");
            out.append(q.to_string());
            out.append("/segment_$Number$.m4s\" startNumber=\"1\"/>\n      </Representation>\n");
            proof {
                assert(qualities@.take(i + 1).drop_last() =~= qualities@.take(i as int));
                assert(out@ =~= before + representation(stream_id@, q));
            }
            i = i + 1;
        }
        out.append("    </AdaptationSet>\n  </Period>\n</MPD>");
        proof {
            assert(qualities@.take(i as int) =~= qualities@);
            assert(out@ =~= mpd(stream_id@, qualities@));
        }
        out
    }
}

} // verus!
