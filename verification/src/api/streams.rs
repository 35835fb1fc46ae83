//! Stream creation as the HTTP API offers it: a fresh stream id and the URLs a
//! broadcaster and viewers use for it.

use vstd::prelude::*;
use crate::manager::stream_manager::{created, StreamManager};
use crate::outside::{is_uuid_text, new_uuid_v4_string};

verus! {

/// Body of a stream creation request.
#[derive(Debug)]
pub struct CreateStreamRequest {
    pub broadcaster_id: String,
    pub title: String,
}

/// Answer to a stream creation request.
#[derive(Debug)]
pub struct CreateStreamResponse {
    pub stream_id: String,
    pub rtmp_url: String,
    pub stream_key: String,
    pub hls_url: String,
    pub dash_url: String,
    pub webrtc_url: String,
}

/// The URLs of a stream: RTMP ingest with the id as stream key, the HLS master
/// playlist, the DASH manifest and the WebRTC signalling endpoint.
pub open spec fn is_response_for(r: CreateStreamResponse, stream_id: Seq<char>) -> bool {
    &&& r.stream_id@ == stream_id
    &&& r.rtmp_url@ == "rtmp://localhost:1935/live"@
    &&& r.stream_key@ == stream_id
    &&& r.hls_url@ == "http://localhost:3000/hls/"@ + stream_id + "/master.m3u8"@
    &&& r.dash_url@ == "http://localhost:3000/dash/"@ + stream_id + "/manifest.mpd"@
    &&& r.webrtc_url@ == "ws://localhost:3000/webrtc/"@ + stream_id
}

impl CreateStreamResponse {
    /// The answer for a stream just created under `stream_id`.
    pub fn for_stream(stream_id: &str) -> (r: Self)
        ensures
            is_response_for(r, stream_id@),
    {
        let mut hls_url = String::from_str("http://localhost:3000/hls/");
        hls_url.append(stream_id);
        hls_url.append("/master.m3u8");
        let mut dash_url = String::from_str("http://localhost:3000/dash/");
        dash_url.append(stream_id);
        dash_url.append("/manifest.mpd");
        let mut webrtc_url = String::from_str("ws://localhost:3000/webrtc/");
        webrtc_url.append(stream_id);
        CreateStreamResponse {
            stream_id: String::from_str(stream_id),
            rtmp_url: String::from_str("rtmp://localhost:1935/live"),
            stream_key: String::from_str(stream_id),
            hls_url,
            dash_url,
            webrtc_url,
        }
    }
}

/// Creates a stream under a fresh random UUID and returns its URLs; fails, with
/// the manager's message, if that id is taken.
pub fn create_stream(manager: &mut StreamManager, req: CreateStreamRequest) -> (r: Result<CreateStreamResponse, String>)
    requires
        old(manager).wf(),
    ensures
        final(manager).wf(),
        final(manager).same_cdn(&*old(manager)),
        r matches Err(e) ==> e@ == "Stream already exists"@ && final(manager).same_streams(&*old(manager)),
        r matches Ok(resp) ==> is_uuid_text(resp.stream_id@) && is_response_for(resp, resp.stream_id@)
            && !old(manager).streams_view().contains_key(resp.stream_id@)
            && created(&*old(manager), &*final(manager), resp.stream_id@, req.broadcaster_id@, req.title@,
                final(manager).streams_view()[resp.stream_id@].started_at),
{
    let stream_id = new_uuid_v4_string();
    match manager.create_stream(stream_id.clone(), req.broadcaster_id, req.title) {
        Err(e) => Err(e),
        Ok(()) => Ok(CreateStreamResponse::for_stream(stream_id.as_str())),
    }
}

/// The confirmation sent when a stream ended.
pub fn stream_ended_message() -> (m: String)
    ensures
        m@ == "Stream ended"@,
{
    String::from_str("Stream ended")
}

} // verus!
