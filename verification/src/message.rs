use vstd::prelude::*;

use crate::codec::{Frame, FrameHeader, FrameModel};
use crate::error::{ErrorKind, RadioError};

verus! {

/// The message-type tags carried in a frame's type byte.  Dispatch by tag is
/// open-ended; the broadcast variant is the one defined here.
#[derive(Clone, Copy, PartialEq, Eq, Structural, Debug)]
pub enum MessageType {
    Broadcast,
}

impl MessageType {
    /// The tag byte written into a frame for this message type.
    pub open spec fn spec_tag(self) -> u8 {
        match self {
            MessageType::Broadcast => 1u8,
        }
    }

    /// Executable form of [`Self::spec_tag`].
    pub fn tag(self) -> (t: u8)
        ensures
            t == self.spec_tag(),
    {
        match self {
            MessageType::Broadcast => 1u8,
        }
    }
}

/// An IPv4 address as four plain octets.
#[derive(Clone, Copy, PartialEq, Eq, Structural, Debug)]
pub struct Ipv4Address {
    pub o0: u8,
    pub o1: u8,
    pub o2: u8,
    pub o3: u8,
}

impl Ipv4Address {
    /// Build an address from its octets, highest first.
    pub fn new(o0: u8, o1: u8, o2: u8, o3: u8) -> (a: Ipv4Address)
        ensures
            a == (Ipv4Address { o0, o1, o2, o3 }),
    {
        Ipv4Address { o0, o1, o2, o3 }
    }
}

/// Read a payload boolean byte: 0 is false, 1 is true, anything else is a
/// payload parse error.
pub fn parse_bool(b: u8) -> (r: Result<bool, RadioError>)
    ensures
        b == 0 ==> r == Result::<bool, RadioError>::Ok(false),
        b == 1 ==> r == Result::<bool, RadioError>::Ok(true),
        b > 1 ==> r is Err && r->Err_0.kind == ErrorKind::PayloadParse,
{
    if b == 0 {
        Ok(false)
    } else if b == 1 {
        Ok(true)
    } else {
        Err(RadioError::new(ErrorKind::PayloadParse, "invalid boolean byte"))
    }
}

/// Write a boolean as its payload byte.
pub fn parse_byte(b: bool) -> (r: u8)
    ensures
        r == (if b { 1u8 } else { 0u8 }),
{
    if b {
        1
    } else {
        0
    }
}

/// Read an IPv4 address out of four octet bytes.
pub fn parse_ipv4(octets: &[u8]) -> (a: Ipv4Address)
    requires
        octets@.len() == 4,
    ensures
        a == (Ipv4Address { o0: octets@[0], o1: octets@[1], o2: octets@[2], o3: octets@[3] }),
{
    Ipv4Address { o0: octets[0], o1: octets[1], o2: octets[2], o3: octets[3] }
}

/// Announces this node to nearby devices: whether it is a gateway, and its
/// IPv4 address if it has one.
#[allow(non_snake_case)]
#[derive(Debug)]
pub struct BroadcastMessage {
    pub header: Option<FrameHeader>,
    pub isgateway: bool,
    pub ipOffset: usize,
    pub ipaddr: Option<Ipv4Address>,
}

/// The payload layout of a broadcast message: byte 0 is the gateway flag,
/// byte 1 the address offset (0 when no address follows, 4 when the four
/// octets follow).
pub open spec fn broadcast_payload(isgateway: bool, ipaddr: Option<Ipv4Address>) -> Seq<u8> {
    let flag: u8 = if isgateway { 1u8 } else { 0u8 };
    match ipaddr {
        Some(a) => seq![flag, 4u8, a.o0, a.o1, a.o2, a.o3],
        None => seq![flag, 0u8],
    }
}

/// Reading a broadcast payload: fails on a payload shorter than the two fixed
/// bytes, on a gateway flag that is not 0 or 1, on an address offset other
/// than 0 or the address's fixed byte width 4, and on an offset that
/// promises octets the payload does not hold.
pub open spec fn parse_broadcast_payload(p: Seq<u8>) -> Option<(bool, u8, Option<Ipv4Address>)> {
    if p.len() < 2 || p[0] > 1 {
        None
    } else if p[1] == 0 {
        Some((p[0] == 1, 0u8, None))
    } else if p[1] != 4 || p.len() < 6 {
        None
    } else {
        Some(
            (p[0] == 1, 4u8, Some(Ipv4Address { o0: p[2], o1: p[3], o2: p[4], o3: p[5] })),
        )
    }
}

impl BroadcastMessage {
    /// The value's own invariant: the offset is 0 exactly when the address is
    /// absent, and 4 (the address's byte width) when it is present.
    pub open spec fn wf(self) -> bool {
        self.ipOffset == if self.ipaddr is Some {
            4int
        } else {
            0int
        }
    }

    /// Decode a broadcast message from a frame's payload, keeping the frame's
    /// header for addressing.  Every decoded value satisfies the variant
    /// invariant [`Self::wf`].
    pub fn from_frame(f: &Frame) -> (r: Result<Box<BroadcastMessage>, RadioError>)
        ensures
            r is Ok <==> parse_broadcast_payload(f@.payload) is Some,
            r matches Ok(m) ==> m.wf(),
            r matches Ok(m) ==> {
                let (isgateway, offset, ipaddr) = parse_broadcast_payload(f@.payload)->Some_0;
                &&& m.isgateway == isgateway
                &&& m.ipOffset == offset
                &&& m.ipaddr == ipaddr
                &&& m.header matches Some(h) && h.frameid == f@.frameid && h.msgtype == f@.msgtype
                    && h.sender == f@.sender && h.route@ == f@.route
            },
            r matches Err(e) ==> e.kind == ErrorKind::PayloadParse,
    {
        let header = f.header();
        let data = f.payload();
        if data.len() < 2 {
            return Err(RadioError::new(ErrorKind::PayloadParse, "broadcast payload too short"));
        }
        let isgateway = match parse_bool(data[0]) {
            Ok(b) => b,
            Err(e) => {
                return Err(e);
            },
        };
        let offset = data[1];
        let mut ipaddr: Option<Ipv4Address> = None;
        if offset > 0 {
            if offset != 4 {
                return Err(
                    RadioError::new(ErrorKind::PayloadParse, "invalid address offset byte"),
                );
            }
            if data.len() < 6 {
                return Err(
                    RadioError::new(ErrorKind::PayloadParse, "broadcast payload missing address"),
                );
            }
            let octets = &data.as_slice()[2..6];
            ipaddr = Some(parse_ipv4(octets));
        }
        Ok(
            Box::new(
                BroadcastMessage {
                    header: Some(header),
                    isgateway,
                    ipOffset: offset as usize,
                    ipaddr,
                },
            ),
        )
    }

    /// Encode this message into a frame addressed with the given frame id,
    /// sender id and route.  The payload follows [`broadcast_payload`].
    pub fn to_frame(&self, frameid: u8, sender: u8, route: Vec<u8>) -> (f: Frame)
        requires
            route@.len() <= 255,
        ensures
            f@ == (FrameModel {
                version: 0u8,
                frameid,
                msgtype: MessageType::Broadcast.spec_tag(),
                sender,
                routeoffset: route@.len() as u8,
                route: route@,
                payload: broadcast_payload(self.isgateway, self.ipaddr),
            }),
            f@.wf(),
    {
        let mut payload: Vec<u8> = Vec::new();
        payload.push(parse_byte(self.isgateway));
        match &self.ipaddr {
            Some(ip) => {
                payload.push(4u8);
                payload.push(ip.o0);
                payload.push(ip.o1);
                payload.push(ip.o2);
                payload.push(ip.o3);
            },
            None => {
                payload.push(0u8);
            },
        }
        proof {
            assert(payload@ =~= broadcast_payload(self.isgateway, self.ipaddr));
        }
        let routeoffset = route.len() as u8;
        Frame::new(
            0u8,
            frameid,
            MessageType::Broadcast.tag(),
            sender,
            routeoffset,
            route,
            payload,
        )
    }
}

/// Encoding a well-formed broadcast value as a frame and decoding that
/// frame's payload reproduces the gateway flag, the address offset and the
/// address exactly.
pub proof fn lemma_broadcast_round_trip(isgateway: bool, ipaddr: Option<Ipv4Address>)
    ensures
        parse_broadcast_payload(broadcast_payload(isgateway, ipaddr)) == Some(
            (isgateway, (if ipaddr is Some { 4u8 } else { 0u8 }), ipaddr),
        ),
{
    let p = broadcast_payload(isgateway, ipaddr);
    match ipaddr {
        Some(a) => {
            assert(p.len() == 6);
            assert(p[0] == if isgateway { 1u8 } else { 0u8 });
            assert(parse_broadcast_payload(p) == Some((isgateway, 4u8, ipaddr)));
        },
        None => {
            assert(p.len() == 2);
            assert(parse_broadcast_payload(p) == Some((isgateway, 0u8, ipaddr)));
        },
    }
}

} // verus!
