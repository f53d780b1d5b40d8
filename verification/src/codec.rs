use vstd::prelude::*;

use crate::error::{ErrorKind, RadioError};

verus! {

/// Number of bytes in the fixed part of the on-air layout: version/flags,
/// frame id, message-type tag, sender id, route length.
pub const HEADER_LEN: usize = 5;

/// The mathematical value of a frame: the five fixed header bytes together
/// with the route and payload byte sequences.
#[verifier::ext_equal]
pub ghost struct FrameModel {
    pub version: u8,
    pub frameid: u8,
    pub msgtype: u8,
    pub sender: u8,
    pub routeoffset: u8,
    pub route: Seq<u8>,
    pub payload: Seq<u8>,
}

impl FrameModel {
    /// The route-length byte always equals the route's length.
    pub open spec fn wf(self) -> bool {
        self.routeoffset == self.route.len()
    }
}

/// The on-air byte layout: fixed header, then the route bytes in order, then
/// the payload bytes in order, with no padding and no other length prefix.
pub open spec fn encode_bytes(m: FrameModel) -> Seq<u8> {
    seq![m.version, m.frameid, m.msgtype, m.sender, m.routeoffset] + m.route + m.payload
}

/// The inverse layout reading: fails exactly when the record is shorter than
/// the fixed header plus the declared route length; otherwise the payload is
/// everything after the route.
pub open spec fn decode_bytes(b: Seq<u8>) -> Option<FrameModel> {
    if b.len() >= HEADER_LEN as int && b.len() >= HEADER_LEN as int + b[4] {
        Some(
            FrameModel {
                version: b[0],
                frameid: b[1],
                msgtype: b[2],
                sender: b[3],
                routeoffset: b[4],
                route: b.subrange(HEADER_LEN as int, HEADER_LEN as int + b[4]),
                payload: b.subrange(HEADER_LEN as int + b[4], b.len() as int),
            },
        )
    } else {
        None
    }
}

/// The header subset of a frame, exposed read-only to message variants so
/// they can reason about addressing without touching payload bytes.
#[derive(Debug)]
pub struct FrameHeader {
    pub frameid: u8,
    pub msgtype: u8,
    pub sender: u8,
    pub route: Vec<u8>,
}

impl FrameHeader {
    /// The sender id carried by this header.
    pub fn sender(&self) -> (s: u8)
        ensures
            s == self.sender,
    {
        self.sender
    }
}

/// One on-air record: version/flags byte, frame id, message-type tag byte,
/// sender id byte, route-length byte, route, payload.
#[derive(Debug)]
pub struct Frame {
    pub version: u8,
    pub frameid: u8,
    pub msgtype: u8,
    pub sender: u8,
    pub routeoffset: u8,
    pub route: Vec<u8>,
    pub payload: Vec<u8>,
}

impl View for Frame {
    type V = FrameModel;

    open spec fn view(&self) -> FrameModel {
        FrameModel {
            version: self.version,
            frameid: self.frameid,
            msgtype: self.msgtype,
            sender: self.sender,
            routeoffset: self.routeoffset,
            route: self.route@,
            payload: self.payload@,
        }
    }
}

/// Copy a byte vector.
pub fn copy_bytes(v: &Vec<u8>) -> (r: Vec<u8>)
    ensures
        r@ == v@,
{
    let mut r: Vec<u8> = Vec::new();
    let mut i: usize = 0;
    while i < v.len()
        invariant
            i <= v.len(),
            r@ =~= v@.subrange(0, i as int),
        decreases v.len() - i,
    {
        r.push(v[i]);
        i = i + 1;
    }
    proof {
        assert(r@ =~= v@);
    }
    r
}

impl Frame {
    /// Assemble a frame from its fields; the route-length byte must match the
    /// route handed in.
    pub fn new(
        version: u8,
        frameid: u8,
        msgtype: u8,
        sender: u8,
        routeoffset: u8,
        route: Vec<u8>,
        payload: Vec<u8>,
    ) -> (f: Frame)
        requires
            routeoffset == route@.len(),
        ensures
            f@ == (FrameModel {
                version,
                frameid,
                msgtype,
                sender,
                routeoffset,
                route: route@,
                payload: payload@,
            }),
            f@.wf(),
    {
        Frame { version, frameid, msgtype, sender, routeoffset, route, payload }
    }

    /// The sender id of this frame.
    pub fn sender(&self) -> (s: u8)
        ensures
            s == self@.sender,
    {
        self.sender
    }

    /// The payload bytes of this frame.
    pub fn payload(&self) -> (p: &Vec<u8>)
        ensures
            p@ == self@.payload,
    {
        &self.payload
    }

    /// The header fields of this frame, with a copy of the route.
    pub fn header(&self) -> (h: FrameHeader)
        ensures
            h.frameid == self@.frameid,
            h.msgtype == self@.msgtype,
            h.sender == self@.sender,
            h.route@ == self@.route,
    {
        FrameHeader {
            frameid: self.frameid,
            msgtype: self.msgtype,
            sender: self.sender,
            route: copy_bytes(&self.route),
        }
    }

    /// Serialize this frame into the on-air byte layout.
    pub fn to_bytes(&self) -> (b: Vec<u8>)
        requires
            self@.wf(),
        ensures
            b@ == encode_bytes(self@),
    {
        let mut b: Vec<u8> = Vec::new();
        b.push(self.version);
        b.push(self.frameid);
        b.push(self.msgtype);
        b.push(self.sender);
        b.push(self.routeoffset);
        let mut i: usize = 0;
        while i < self.route.len()
            invariant
                i <= self.route@.len(),
                b@ =~= seq![
                    self.version,
                    self.frameid,
                    self.msgtype,
                    self.sender,
                    self.routeoffset,
                ] + self.route@.subrange(0, i as int),
            decreases self.route.len() - i,
        {
            b.push(self.route[i]);
            i = i + 1;
        }
        let mut j: usize = 0;
        while j < self.payload.len()
            invariant
                j <= self.payload@.len(),
                b@ =~= seq![
                    self.version,
                    self.frameid,
                    self.msgtype,
                    self.sender,
                    self.routeoffset,
                ] + self.route@ + self.payload@.subrange(0, j as int),
            decreases self.payload.len() - j,
        {
            b.push(self.payload[j]);
            j = j + 1;
        }
        proof {
            assert(b@ =~= encode_bytes(self@));
        }
        b
    }

    /// Parse a frame out of raw received bytes.  Returns a framing error
    /// exactly when the bytes are shorter than the fixed header plus the
    /// declared route length.
    pub fn from_bytes(bytes: &Vec<u8>) -> (r: Result<Frame, RadioError>)
        ensures
            r is Ok <==> decode_bytes(bytes@) is Some,
            r matches Ok(f) ==> decode_bytes(bytes@) == Some(f@) && f@.wf(),
            r matches Err(e) ==> e.kind == ErrorKind::Framing,
    {
        if bytes.len() < HEADER_LEN {
            return Err(RadioError::new(ErrorKind::Framing, "frame shorter than header"));
        }
        let routeoffset = bytes[4];
        if bytes.len() - HEADER_LEN < routeoffset as usize {
            return Err(RadioError::new(ErrorKind::Framing, "frame shorter than declared route"));
        }
        let route_end: usize = HEADER_LEN + routeoffset as usize;
        let mut route: Vec<u8> = Vec::new();
        let mut i: usize = HEADER_LEN;
        while i < route_end
            invariant
                HEADER_LEN <= i <= route_end,
                route_end == HEADER_LEN as int + routeoffset,
                route_end <= bytes@.len(),
                route@ =~= bytes@.subrange(HEADER_LEN as int, i as int),
            decreases route_end - i,
        {
            route.push(bytes[i]);
            i = i + 1;
        }
        let mut payload: Vec<u8> = Vec::new();
        let mut j: usize = route_end;
        while j < bytes.len()
            invariant
                route_end <= j <= bytes@.len(),
                payload@ =~= bytes@.subrange(route_end as int, j as int),
            decreases bytes.len() - j,
        {
            payload.push(bytes[j]);
            j = j + 1;
        }
        let f = Frame {
            version: bytes[0],
            frameid: bytes[1],
            msgtype: bytes[2],
            sender: bytes[3],
            routeoffset,
            route,
            payload,
        };
        proof {
            assert(decode_bytes(bytes@) == Some(f@)) by {
                assert(f@.route =~= bytes@.subrange(
                    HEADER_LEN as int,
                    HEADER_LEN as int + bytes@[4],
                ));
                assert(f@.payload =~= bytes@.subrange(
                    HEADER_LEN as int + bytes@[4],
                    bytes@.len() as int,
                ));
                assert(decode_bytes(bytes@).unwrap() =~= f@);
            }
        }
        Ok(f)
    }
}

/// Serializing a well-formed frame and parsing the bytes back reproduces the
/// original fields exactly, for every route and payload.
pub proof fn lemma_frame_round_trip(m: FrameModel)
    requires
        m.wf(),
    ensures
        decode_bytes(encode_bytes(m)) == Some(m),
{
    let b = encode_bytes(m);
    assert(b.len() == 5 + m.route.len() + m.payload.len());
    assert(b[4] == m.routeoffset);
    assert(b.subrange(5, 5 + b[4] as int) =~= m.route);
    assert(b.subrange(5 + b[4] as int, b.len() as int) =~= m.payload);
    assert(decode_bytes(b).unwrap() =~= m);
}

} // verus!
