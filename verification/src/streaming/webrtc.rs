//! WebRTC signalling state: one connection record per peer, the SDP offer it
//! sent and the answer this node returned.

use vstd::prelude::*;
use dashmap::DashMap;
use vstd::string::StringSliceAdditionalSpecFns;
use vstd::utf8::encode_utf8;
use crate::outside::{hex_encode, hex_lower, is_uuid_text, new_uuid_v4_string, now_nanos, sha256, sha256_digest};
use crate::tables::{connection_table, connection_table_get, connection_table_insert, connection_table_new};
use crate::text::{decimal, push_decimal};

verus! {

/// Signalling state of one peer.
#[derive(Debug)]
pub struct WebRTCConnection {
    pub peer_id: String,
    pub stream_id: String,
    pub ice_candidates: Vec<String>,
    pub sdp_offer: Option<String>,
    pub sdp_answer: Option<String>,
}

/// The value of a connection record, with every string taken by its characters.
pub ghost struct ConnectionView {
    pub peer_id: Seq<char>,
    pub stream_id: Seq<char>,
    pub ice_candidates: Seq<Seq<char>>,
    pub sdp_offer: Option<Seq<char>>,
    pub sdp_answer: Option<Seq<char>>,
}

/// The characters of an optional string.
pub open spec fn opt_view(o: Option<String>) -> Option<Seq<char>> {
    match o {
        Some(s) => Some(s@),
        None => None,
    }
}

impl View for WebRTCConnection {
    type V = ConnectionView;

    open spec fn view(&self) -> ConnectionView {
        ConnectionView {
            peer_id: self.peer_id@,
            stream_id: self.stream_id@,
            ice_candidates: self.ice_candidates@.map_values(|c: String| c@),
            sdp_offer: opt_view(self.sdp_offer),
            sdp_answer: opt_view(self.sdp_answer),
        }
    }
}

fn clone_opt(o: &Option<String>) -> (r: Option<String>)
    ensures
        opt_view(r) == opt_view(*o),
{
    match o {
        Some(s) => Some(s.clone()),
        None => None,
    }
}

impl Clone for WebRTCConnection {
    fn clone(&self) -> (r: Self)
        ensures
            r@ == self@,
    {
        let mut cands: Vec<String> = Vec::new();
        let mut i: usize = 0;
        while i < self.ice_candidates.len()
            invariant
                i <= self.ice_candidates@.len(),
                cands@.len() == i,
                forall|j: int| 0 <= j < i ==> #[trigger] cands@[j]@ == self.ice_candidates@[j]@,
            decreases self.ice_candidates@.len() - i,
        {
            cands.push(self.ice_candidates[i].clone());
            i = i + 1;
        }
        let r = WebRTCConnection {
            peer_id: self.peer_id.clone(),
            stream_id: self.stream_id.clone(),
            ice_candidates: cands,
            sdp_offer: clone_opt(&self.sdp_offer),
            sdp_answer: clone_opt(&self.sdp_answer),
        };
        assert(r@.ice_candidates =~= self@.ice_candidates);
        r
    }
}

/// A signalling message: its type (`offer`, `answer`, `ice`, ...) and payload.
#[derive(Debug)]
pub struct WebRTCSignal {
    pub signal_type: String,
    pub payload: String,
}

/// The SDP answer this node returns, given the clock reading in seconds, the ICE
/// user fragment and password, and the fingerprint text.
pub open spec fn sdp_answer(secs: nat, ufrag: Seq<char>, pwd: Seq<char>, fingerprint: Seq<char>) -> Seq<char> {
    "v=0\no=- "@ + decimal(secs) + " 2 IN IP4 127.0.0.1\ns=-\nt=0 0\na=group:BUNDLE 0\nm=video 9 UDP/TLS/RTP/SAVPF 96\nc=IN IP4 0.0.0.0\na=rtcp:9 IN IP4 0.0.0.0\na=ice-ufrag:"@
        + ufrag + "\na=ice-pwd:"@ + pwd + "\na=fingerprint:sha-256 "@ + fingerprint
        + "\na=setup:active\na=mid:0\na=sendrecv\na=rtcp-mux\na=rtpmap:96 VP8/90000\n"@
}

/// `answer` is an SDP answer to an offer with these bytes: some clock reading,
/// the first eight characters of one random UUID as user fragment, another
/// random UUID as password, and the hex SHA-256 of the offer as fingerprint.
pub open spec fn answers_offer(answer: Seq<char>, offer_bytes: Seq<u8>) -> bool {
    exists|secs: nat, u1: Seq<char>, u2: Seq<char>|
        is_uuid_text(u1) && is_uuid_text(u2)
            && answer == #[trigger] sdp_answer(secs, u1.take(8), u2, hex_lower(sha256(offer_bytes)))
}

/// Writes the SDP answer text for the given parts.
pub fn sdp_answer_text(secs: u64, ufrag: &str, pwd: &str, fingerprint: &str) -> (s: String)
    ensures
        s@ == sdp_answer(secs as nat, ufrag@, pwd@, fingerprint@),
{
    let mut s = String::from_str("v=0\no=- ");
    push_decimal(&mut s, secs);
    s.append(" 2 IN IP4 127.0.0.1\ns=-\nt=0 0\na=group:BUNDLE 0\nm=video 9 UDP/TLS/RTP/SAVPF 96\nc=IN IP4 0.0.0.0\na=rtcp:9 IN IP4 0.0.0.0\na=ice-ufrag:");
    s.append(ufrag);
    s.append("\na=ice-pwd:");
    s.append(pwd);
    s.append("\na=fingerprint:sha-256 ");
    s.append(fingerprint);
    s.append("\na=setup:active\na=mid:0\na=sendrecv\na=rtcp-mux\na=rtpmap:96 VP8/90000\n");
    assert(s@ =~= sdp_answer(secs as nat, ufrag@, pwd@, fingerprint@));
    s
}

/// A fresh record for a peer of a stream: no candidates, no offer, no answer.
pub open spec fn fresh_connection(peer_id: Seq<char>, stream_id: Seq<char>) -> ConnectionView {
    ConnectionView {
        peer_id,
        stream_id,
        ice_candidates: Seq::empty(),
        sdp_offer: None,
        sdp_answer: None,
    }
}

/// Signalling records of all peers, keyed by peer id.
pub struct WebRTCManager {
    connections: DashMap<String, WebRTCConnection>,
}

impl WebRTCManager {
    /// The records, keyed by peer id.
    pub closed spec fn connections_view(&self) -> Map<Seq<char>, ConnectionView> {
        connection_table(self.connections)
    }

    /// A manager with no peers.
    pub fn new() -> (m: Self)
        ensures
            m.connections_view().dom() == Set::<Seq<char>>::empty(),
    {
        WebRTCManager { connections: connection_table_new() }
    }

    /// Registers a fresh record for `peer_id` (replacing any earlier one) and
    /// returns the peer id.
    pub fn create_connection(&mut self, peer_id: String, stream_id: String) -> (id: String)
        ensures
            id@ == peer_id@,
            final(self).connections_view() == old(self).connections_view().insert(
                peer_id@,
                fresh_connection(peer_id@, stream_id@),
            ),
    {
        let conn = WebRTCConnection {
            peer_id: peer_id.clone(),
            stream_id,
            ice_candidates: Vec::new(),
            sdp_offer: None,
            sdp_answer: None,
        };
        assert(conn@.ice_candidates =~= Seq::<Seq<char>>::empty());
        connection_table_insert(&mut self.connections, peer_id.clone(), conn);
        peer_id
    }

    /// Records the peer's SDP offer and returns the answer, which is recorded too;
    /// `None`, with nothing changed, for an unknown peer.
    pub fn set_offer(&mut self, peer_id: &str, offer: String) -> (r: Option<String>)
        ensures
            r is None <==> !old(self).connections_view().contains_key(peer_id@),
            r is None ==> final(self).connections_view() == old(self).connections_view(),
            r matches Some(a) ==> answers_offer(a@, encode_utf8(offer@)) && final(self).connections_view()
                == old(self).connections_view().insert(peer_id@, with_offer(old(self).connections_view()[peer_id@], offer@, a@)),
    {
        match connection_table_get(&self.connections, peer_id) {
            None => None,
            Some(mut conn) => {
                let answer = generate_sdp_answer(offer.as_str());
                conn.sdp_offer = Some(offer);
                conn.sdp_answer = Some(answer.clone());
                connection_table_insert(&mut self.connections, String::from_str(peer_id), conn);
                Some(answer)
            },
        }
    }

    /// Appends an ICE candidate to the peer's record; does nothing for an unknown peer.
    pub fn add_ice_candidate(&mut self, peer_id: &str, candidate: String)
        ensures
            old(self).connections_view().contains_key(peer_id@) ==> final(self).connections_view()
                == old(self).connections_view().insert(peer_id@, with_candidate(old(self).connections_view()[peer_id@], candidate@)),
            !old(self).connections_view().contains_key(peer_id@) ==> final(self).connections_view() == old(self).connections_view(),
    {
        match connection_table_get(&self.connections, peer_id) {
            None => {},
            Some(mut conn) => {
                let ghost before = conn@;
                conn.ice_candidates.push(candidate);
                assert(conn@.ice_candidates =~= before.ice_candidates.push(candidate@));
                connection_table_insert(&mut self.connections, String::from_str(peer_id), conn);
            },
        }
    }
}

/// A record after the peer's offer and this node's answer.
pub open spec fn with_offer(c: ConnectionView, offer: Seq<char>, answer: Seq<char>) -> ConnectionView {
    ConnectionView { sdp_offer: Some(offer), sdp_answer: Some(answer), ..c }
}

/// A record with one more ICE candidate.
pub open spec fn with_candidate(c: ConnectionView, candidate: Seq<char>) -> ConnectionView {
    ConnectionView { ice_candidates: c.ice_candidates.push(candidate), ..c }
}

/// An SDP answer to `offer`: the current time in seconds, a fresh ICE user
/// fragment and password, and the SHA-256 fingerprint of the offer.
pub fn generate_sdp_answer(offer: &str) -> (answer: String)
    ensures
        answers_offer(answer@, encode_utf8(offer@)),
{
    let secs = now_nanos() / 1_000_000_000;
    let u1 = new_uuid_v4_string();
    let ufrag = u1.as_str().substring_char(0, 8);
    let u2 = new_uuid_v4_string();
    let digest = sha256_digest(offer.as_bytes());
    let fingerprint = hex_encode(digest.as_slice());
    let answer = sdp_answer_text(secs, ufrag, u2.as_str(), fingerprint.as_str());
    proof {
        assert(ufrag@ =~= u1@.take(8));
        assert(answer@ == sdp_answer(secs as nat, u1@.take(8), u2@, hex_lower(sha256(encode_utf8(offer@)))));
    }
    answer
}

} // verus!
