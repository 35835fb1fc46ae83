//! Decisions of the HLS endpoints: which playlist to serve, which quality a
//! path names, which segment files may be read and how they are labelled.

use vstd::prelude::*;
use crate::domain::quality::StreamQuality;
use crate::text::{contains_seq, ends_with, str_contains, str_eq, str_ends_with};

verus! {

/// HTTP status: success.
pub const STATUS_OK: u16 = 200;
/// HTTP status: the request is malformed.
pub const STATUS_BAD_REQUEST: u16 = 400;
/// HTTP status: no such stream or file.
pub const STATUS_NOT_FOUND: u16 = 404;
/// HTTP status: the service cannot serve the request now.
pub const STATUS_SERVICE_UNAVAILABLE: u16 = 503;

/// The quality a playlist path names by its frame height.
pub open spec fn quality_from_path(s: Seq<char>) -> Option<StreamQuality> {
    if s == "360p"@ {
        Some(StreamQuality::Low)
    } else if s == "720p"@ {
        Some(StreamQuality::Medium)
    } else if s == "1080p"@ {
        Some(StreamQuality::High)
    } else if s == "2160p"@ {
        Some(StreamQuality::Ultra)
    } else {
        None
    }
}

/// The quality of a media playlist request; an unknown name is a bad request.
pub fn media_playlist_quality(quality_str: &str) -> (r: Result<StreamQuality, u16>)
    ensures
        quality_from_path(quality_str@) matches Some(q) ==> r == Ok::<StreamQuality, u16>(q),
        quality_from_path(quality_str@) is None ==> r == Err::<StreamQuality, u16>(STATUS_BAD_REQUEST),
{
    if str_eq(quality_str, "360p") {
        Ok(StreamQuality::Low)
    } else if str_eq(quality_str, "720p") {
        Ok(StreamQuality::Medium)
    } else if str_eq(quality_str, "1080p") {
        Ok(StreamQuality::High)
    } else if str_eq(quality_str, "2160p") {
        Ok(StreamQuality::Ultra)
    } else {
        Err(STATUS_BAD_REQUEST)
    }
}

/// The master playlist served while the encoder has not written one: a single
/// 720p variant.
pub open spec fn fallback_master() -> Seq<char> {
    "#EXTM3U\n#EXT-X-VERSION:3\n#EXT-X-STREAM-INF:BANDWIDTH=2800000,RESOLUTION=1280x720,NAME=\"720p\"\n720p/index.m3u8\n"@
}

/// The master playlist to serve: not found for an unknown stream; else the one
/// the encoder wrote, if it could be read; else the fallback.
pub fn choose_master_playlist(stream_known: bool, from_disk: Option<String>) -> (r: Result<String, u16>)
    ensures
        !stream_known ==> r == Err::<String, u16>(STATUS_NOT_FOUND),
        stream_known && from_disk is Some ==> r is Ok && r->Ok_0@ == from_disk->Some_0@,
        stream_known && from_disk is None ==> r is Ok && r->Ok_0@ == fallback_master(),
{
    if !stream_known {
        return Err(STATUS_NOT_FOUND);
    }
    match from_disk {
        Some(content) => Ok(content),
        None => Ok(String::from_str("#EXTM3U\n#EXT-X-VERSION:3\n#EXT-X-STREAM-INF:BANDWIDTH=2800000,RESOLUTION=1280x720,NAME=\"720p\"\n720p/index.m3u8\n")),
    }
}

/// Where the encoder writes the master playlist of a stream.
pub fn master_playlist_path(stream_id: &str) -> (p: String)
    ensures
        p@ == "./hls_output/"@ + stream_id@ + "/master.m3u8"@,
{
    let mut p = String::from_str("./hls_output/");
    p.append(stream_id);
    p.append("/master.m3u8");
    p
}

/// A segment file name may be served only if it cannot leave its directory.
pub fn is_safe_segment_name(filename: &str) -> (b: bool)
    ensures
        b == (!contains_seq(filename@, ".."@) && !contains_seq(filename@, "/"@)),
{
    !str_contains(filename, "..") && !str_contains(filename, "/")
}

/// Where the encoder writes a file of one rendition of a stream.
pub fn segment_file_path(stream_id: &str, quality: &str, filename: &str) -> (p: String)
    ensures
        p@ == "./hls_output/"@ + stream_id@ + "/"@ + quality@ + "/"@ + filename@,
{
    let mut p = String::from_str("./hls_output/");
    p.append(stream_id);
    p.append("/");
    p.append(quality);
    p.append("/");
    p.append(filename);
    p
}

/// The content type of an HLS file, by its extension.
pub open spec fn content_type_of(filename: Seq<char>) -> Seq<char> {
    if ends_with(filename, ".m3u8"@) {
        "application/vnd.apple.mpegurl"@
    } else if ends_with(filename, ".ts"@) {
        "video/MP2T"@
    } else {
        "application/octet-stream"@
    }
}

/// The content type to serve an HLS file with.
pub fn segment_content_type(filename: &str) -> (t: &'static str)
    ensures
        t@ == content_type_of(filename@),
{
    if str_ends_with(filename, ".m3u8") {
        "application/vnd.apple.mpegurl"
    } else if str_ends_with(filename, ".ts") {
        "video/MP2T"
    } else {
        "application/octet-stream"
    }
}

} // verus!
