//! Netlink frames: the sixteen-byte header, the fixed family payloads that
//! follow it, and the splitting of a receive buffer into frames.

use vstd::prelude::*;
use crate::consts::{
    IF_ADDR_MSG_SIZE, IF_INFO_MSG_SIZE, NLMSG_HDRLEN, NLM_F_REQUEST, ROUTE_MSG_SIZE,
};
use crate::error::NetlinkError;
use crate::utils::{align4, frame_step, lemma_align4, lemma_pad4, pad4};
use crate::wire::{
    encode_u16, encode_u32, i32_of_le, le_i32, le_u16, le_u32, lemma_le_roundtrip, read_i32,
    read_u16, read_u32, u16_of_le, u32_of_le,
};

verus! {

/// The header that starts every netlink frame.
#[derive(Clone, Copy, Debug, PartialEq, Eq)]
pub struct NetlinkMessageHeader {
    pub nlmsg_len: u32,
    pub nlmsg_type: u16,
    pub nlmsg_flags: u16,
    pub nlmsg_seq: u32,
    pub nlmsg_pid: u32,
}

impl NetlinkMessageHeader {
    /// The sixteen bytes of the header on the wire.
    pub open spec fn emit(self) -> Seq<u8> {
        le_u32(self.nlmsg_len) + le_u16(self.nlmsg_type) + le_u16(self.nlmsg_flags) + le_u32(
            self.nlmsg_seq,
        ) + le_u32(self.nlmsg_pid)
    }

    /// The header that the first sixteen bytes of `s` spell.
    pub open spec fn decode(s: Seq<u8>) -> NetlinkMessageHeader
        recommends
            s.len() >= NLMSG_HDRLEN,
    {
        NetlinkMessageHeader {
            nlmsg_len: u32_of_le(s.subrange(0, 4)),
            nlmsg_type: u16_of_le(s.subrange(4, 6)),
            nlmsg_flags: u16_of_le(s.subrange(6, 8)),
            nlmsg_seq: u32_of_le(s.subrange(8, 12)),
            nlmsg_pid: u32_of_le(s.subrange(12, 16)),
        }
    }

    /// Decoding the header's bytes gives the header, whatever follows them.
    pub proof fn lemma_decode_emit(self, tail: Seq<u8>)
        ensures
            self.emit().len() == NLMSG_HDRLEN,
            Self::decode(self.emit() + tail) == self,
    {
        let s = self.emit() + tail;
        lemma_le_roundtrip(self.nlmsg_type, self.nlmsg_len, 0);
        lemma_le_roundtrip(self.nlmsg_flags, self.nlmsg_seq, 0);
        lemma_le_roundtrip(0, self.nlmsg_pid, 0);
        assert(s.subrange(0, 4) =~= le_u32(self.nlmsg_len));
        assert(s.subrange(4, 6) =~= le_u16(self.nlmsg_type));
        assert(s.subrange(6, 8) =~= le_u16(self.nlmsg_flags));
        assert(s.subrange(8, 12) =~= le_u32(self.nlmsg_seq));
        assert(s.subrange(12, 16) =~= le_u32(self.nlmsg_pid));
    }

    /// The header of a request of type `proto`: the request flag is set
    /// beside `flags`, the length is that of the header alone, sequence
    /// number and port are zero.
    pub fn new(proto: u16, flags: i32) -> (r: Self)
        ensures
            r.nlmsg_len == NLMSG_HDRLEN,
            r.nlmsg_type == proto,
            r.nlmsg_flags == ((NLM_F_REQUEST | flags) as u16),
            r.nlmsg_seq == 0,
            r.nlmsg_pid == 0,
    {
        Self {
            nlmsg_len: NLMSG_HDRLEN as u32,
            nlmsg_type: proto,
            nlmsg_flags: (NLM_F_REQUEST | flags) as u16,
            nlmsg_seq: 0,
            nlmsg_pid: 0,
        }
    }

    /// The header on the wire.
    pub fn serialize(&self) -> (buf: Vec<u8>)
        ensures
            buf@ == self.emit(),
    {
        let mut buf = encode_u32(self.nlmsg_len).unwrap();
        let mut part = encode_u16(self.nlmsg_type).unwrap();
        buf.append(&mut part);
        let mut part = encode_u16(self.nlmsg_flags).unwrap();
        buf.append(&mut part);
        let mut part = encode_u32(self.nlmsg_seq).unwrap();
        buf.append(&mut part);
        let mut part = encode_u32(self.nlmsg_pid).unwrap();
        buf.append(&mut part);
        buf
    }

    /// Reads the header that begins at `pos`.
    pub fn read_at(buf: &[u8], pos: usize) -> (r: Self)
        requires
            pos + NLMSG_HDRLEN <= buf@.len(),
        ensures
            r == Self::decode(buf@.skip(pos as int)),
    {
        let ghost rest = buf@.skip(pos as int);
        let total: usize = buf.len();
        proof {
            assert(pos + NLMSG_HDRLEN <= total);
            assert(rest.subrange(0, 4) =~= buf@.subrange(pos as int, pos + 4));
            assert(rest.subrange(4, 6) =~= buf@.subrange(pos + 4, pos + 6));
            assert(rest.subrange(6, 8) =~= buf@.subrange(pos + 6, pos + 8));
            assert(rest.subrange(8, 12) =~= buf@.subrange(pos + 8, pos + 12));
            assert(rest.subrange(12, 16) =~= buf@.subrange(pos + 12, pos + 16));
        }
        Self {
            nlmsg_len: read_u32(buf, pos),
            nlmsg_type: read_u16(buf, pos + 4),
            nlmsg_flags: read_u16(buf, pos + 6),
            nlmsg_seq: read_u32(buf, pos + 8),
            nlmsg_pid: read_u32(buf, pos + 12),
        }
    }

    /// Reads the header at the start of `buf`; a buffer of fewer than sixteen
    /// bytes holds none.
    pub fn deserialize(buf: &[u8]) -> (r: Result<Self, NetlinkError>)
        ensures
            buf@.len() >= NLMSG_HDRLEN ==> r == Ok::<Self, NetlinkError>(Self::decode(buf@)),
            buf@.len() < NLMSG_HDRLEN ==> r == Err::<Self, NetlinkError>(
                NetlinkError::MalformedMessage,
            ),
    {
        if buf.len() < NLMSG_HDRLEN {
            return Err(NetlinkError::MalformedMessage);
        }
        assert(buf@.skip(0) =~= buf@);
        Ok(Self::read_at(buf, 0))
    }
}

/// A frame as a mathematical value: its header and the bytes of its body.
pub struct Frame {
    pub header: NetlinkMessageHeader,
    pub data: Seq<u8>,
}

impl Frame {
    /// Whether the header states the length of header and body.
    pub open spec fn wf(self) -> bool {
        self.header.nlmsg_len == NLMSG_HDRLEN + self.data.len()
    }

    /// The frame on the wire: header, body, padding to a multiple of four.
    pub open spec fn emit(self) -> Seq<u8> {
        pad4(self.header.emit() + self.data)
    }
}

/// The frames of `s` on the wire, one after the other.
pub open spec fn concat(s: Seq<Frame>) -> Seq<u8>
    decreases s.len(),
{
    if s.len() == 0 {
        Seq::empty()
    } else {
        s.first().emit() + concat(s.drop_first())
    }
}

/// The frames that stand in `buf`. `None` where a header states a length
/// below its own size or beyond the buffer. Fewer than sixteen bytes at the
/// end are left unread.
pub open spec fn demux(buf: Seq<u8>) -> Option<Seq<Frame>>
    decreases buf.len(),
{
    if buf.len() < NLMSG_HDRLEN {
        Some(Seq::empty())
    } else {
        let header = NetlinkMessageHeader::decode(buf);
        let len = header.nlmsg_len as int;
        if len < NLMSG_HDRLEN || len > buf.len() {
            None
        } else {
            let first = Frame { header, data: buf.subrange(NLMSG_HDRLEN as int, len) };
            match demux(buf.skip(frame_step(len, buf.len() as int))) {
                Some(rest) => Some(seq![first] + rest),
                None => None,
            }
        }
    }
}

/// Splitting what was joined gives back the frames.
pub proof fn lemma_demux_concat(s: Seq<Frame>)
    requires
        forall|i: int| 0 <= i < s.len() ==> (#[trigger] s[i]).wf(),
    ensures
        demux(concat(s)) == Some(s),
    decreases s.len(),
{
    if s.len() > 0 {
        let f = s.first();
        let rest = s.drop_first();
        let buf = concat(s);
        assert(f.wf());
        f.header.lemma_decode_emit(f.data);
        lemma_pad4(f.header.emit() + f.data);
        lemma_align4(f.header.nlmsg_len as int);
        assert forall|i: int| 0 <= i < rest.len() implies (#[trigger] rest[i]).wf() by {
            assert(rest[i] == s[i + 1]);
        }
        lemma_demux_concat(rest);
        let tail = f.emit().skip(f.header.nlmsg_len as int) + concat(rest);
        assert(buf =~= (f.header.emit() + f.data) + tail);
        assert(buf =~= f.header.emit() + (f.data + tail));
        f.header.lemma_decode_emit(f.data + tail);
        assert(buf.subrange(NLMSG_HDRLEN as int, f.header.nlmsg_len as int) =~= f.data);
        assert(buf.skip(align4(f.header.nlmsg_len as int)) =~= concat(rest));
        assert(seq![f] + rest =~= s);
    }
}

/// How far to move over a frame of `len` bytes when `left` bytes are left.
pub fn step_over(len: usize, left: usize) -> (step: usize)
    requires
        len <= left,
    ensures
        step == frame_step(len as int, left as int),
        len <= step <= left,
{
    let pad: usize = (4 - len % 4) % 4;
    if pad <= left - len {
        len + pad
    } else {
        left
    }
}

/// One frame of a receive buffer: the header and the body without padding.
#[derive(Debug, Clone, PartialEq, Eq)]
pub struct NetlinkMessage {
    pub header: NetlinkMessageHeader,
    pub data: Vec<u8>,
}

impl View for NetlinkMessage {
    type V = Frame;

    open spec fn view(&self) -> Frame {
        Frame { header: self.header, data: self.data@ }
    }
}

/// The frames of a list of messages.
pub open spec fn frames(v: Seq<NetlinkMessage>) -> Seq<Frame> {
    Seq::new(v.len(), |i: int| v[i]@)
}

impl NetlinkMessage {
    /// Splits a receive buffer into its frames.
    pub fn from(buf: &[u8]) -> (r: Result<Vec<NetlinkMessage>, NetlinkError>)
        ensures
            match demux(buf@) {
                Some(s) => r is Ok && frames(r->Ok_0@) == s,
                None => r == Err::<Vec<NetlinkMessage>, NetlinkError>(
                    NetlinkError::MalformedMessage,
                ),
            },
    {
        let mut msgs: Vec<NetlinkMessage> = Vec::new();
        let mut pos: usize = 0;
        assert(buf@.skip(0) =~= buf@);
        assert(frames(msgs@) =~= Seq::empty());
        while buf.len() - pos >= NLMSG_HDRLEN
            invariant
                0 <= pos <= buf@.len(),
                demux(buf@) == match demux(buf@.skip(pos as int)) {
                    Some(rest) => Some(frames(msgs@) + rest),
                    None => None,
                },
            decreases buf@.len() - pos,
        {
            let ghost rest = buf@.skip(pos as int);
            let left: usize = buf.len() - pos;
            let header = NetlinkMessageHeader::read_at(buf, pos);
            if header.nlmsg_len < NLMSG_HDRLEN as u32 || header.nlmsg_len as usize > left {
                return Err(NetlinkError::MalformedMessage);
            }
            let len: usize = header.nlmsg_len as usize;
            let data = vstd::slice::slice_to_vec(
                vstd::slice::slice_subrange(buf, pos + NLMSG_HDRLEN, pos + len),
            );
            let step: usize = step_over(len, left);
            let msg = NetlinkMessage { header, data };
            proof {
                assert(rest.subrange(NLMSG_HDRLEN as int, len as int) =~= data@);
                assert(rest.skip(step as int) =~= buf@.skip(pos + step));
                let ghost tail = demux(buf@.skip(pos + step));
                if tail is Some {
                    assert(frames(msgs@.push(msg)) + tail->Some_0 =~= frames(msgs@) + (seq![
                        msg@,
                    ] + tail->Some_0));
                }
            }
            msgs.push(msg);
            pos = pos + step;
        }
        proof {
            assert(frames(msgs@) + Seq::<Frame>::empty() =~= frames(msgs@));
        }
        Ok(msgs)
    }
}

/// The fixed payload of link frames.
#[derive(Clone, Copy, Debug, PartialEq, Eq)]
pub struct IfInfoMessage {
    pub ifi_family: u8,
    pub _ifi_pad: u8,
    pub ifi_type: u16,
    pub ifi_index: i32,
    pub ifi_flags: u32,
    pub ifi_change: u32,
}

impl Default for IfInfoMessage {
    fn default() -> (r: Self)
        ensures
            r == (IfInfoMessage {
                ifi_family: 0,
                _ifi_pad: 0,
                ifi_type: 0,
                ifi_index: 0,
                ifi_flags: 0,
                ifi_change: 0,
            }),
    {
        IfInfoMessage {
            ifi_family: 0,
            _ifi_pad: 0,
            ifi_type: 0,
            ifi_index: 0,
            ifi_flags: 0,
            ifi_change: 0,
        }
    }
}

impl IfInfoMessage {
    /// The sixteen bytes of the payload on the wire.
    pub open spec fn emit(self) -> Seq<u8> {
        seq![self.ifi_family, self._ifi_pad] + le_u16(self.ifi_type) + le_i32(self.ifi_index)
            + le_u32(self.ifi_flags) + le_u32(self.ifi_change)
    }

    /// The payload that the first sixteen bytes of `s` spell.
    pub open spec fn decode(s: Seq<u8>) -> IfInfoMessage
        recommends
            s.len() >= IF_INFO_MSG_SIZE,
    {
        IfInfoMessage {
            ifi_family: s[0],
            _ifi_pad: s[1],
            ifi_type: u16_of_le(s.subrange(2, 4)),
            ifi_index: i32_of_le(s.subrange(4, 8)),
            ifi_flags: u32_of_le(s.subrange(8, 12)),
            ifi_change: u32_of_le(s.subrange(12, 16)),
        }
    }

    /// Decoding the payload's bytes gives the payload, whatever follows them.
    pub proof fn lemma_decode_emit(self, tail: Seq<u8>)
        ensures
            self.emit().len() == IF_INFO_MSG_SIZE,
            Self::decode(self.emit() + tail) == self,
    {
        let s = self.emit() + tail;
        lemma_le_roundtrip(self.ifi_type, self.ifi_flags, self.ifi_index);
        lemma_le_roundtrip(0, self.ifi_change, 0);
        assert(s.subrange(2, 4) =~= le_u16(self.ifi_type));
        assert(s.subrange(4, 8) =~= le_i32(self.ifi_index));
        assert(s.subrange(8, 12) =~= le_u32(self.ifi_flags));
        assert(s.subrange(12, 16) =~= le_u32(self.ifi_change));
    }

    /// A payload of the given address family, all else zero.
    pub fn new(family: i32) -> (r: Self)
        ensures
            r == (IfInfoMessage {
                ifi_family: family as u8,
                _ifi_pad: 0,
                ifi_type: 0,
                ifi_index: 0,
                ifi_flags: 0,
                ifi_change: 0,
            }),
    {
        IfInfoMessage {
            ifi_family: family as u8,
            _ifi_pad: 0,
            ifi_type: 0,
            ifi_index: 0,
            ifi_flags: 0,
            ifi_change: 0,
        }
    }

    /// The size of the payload on the wire.
    pub fn len(&self) -> (n: usize)
        ensures
            n == IF_INFO_MSG_SIZE,
    {
        IF_INFO_MSG_SIZE
    }

    /// Whether the address family is unspecified.
    pub fn is_empty(&self) -> (b: bool)
        ensures
            b == (self.ifi_family == 0),
    {
        self.ifi_family == 0
    }

    /// The payload on the wire.
    pub fn serialize(&self) -> (buf: Vec<u8>)
        ensures
            buf@ == self.emit(),
    {
        let mut buf: Vec<u8> = Vec::new();
        buf.push(self.ifi_family);
        buf.push(self._ifi_pad);
        let mut part = encode_u16(self.ifi_type).unwrap();
        buf.append(&mut part);
        let mut part = encode_u32(self.ifi_index as u32).unwrap();
        buf.append(&mut part);
        let mut part = encode_u32(self.ifi_flags).unwrap();
        buf.append(&mut part);
        let mut part = encode_u32(self.ifi_change).unwrap();
        buf.append(&mut part);
        assert(buf@ =~= self.emit());
        buf
    }

    /// Reads the payload at the start of `buf`; a buffer of fewer than sixteen
    /// bytes holds none.
    pub fn deserialize(buf: &[u8]) -> (r: Result<Self, NetlinkError>)
        ensures
            buf@.len() >= IF_INFO_MSG_SIZE ==> r == Ok::<Self, NetlinkError>(Self::decode(buf@)),
            buf@.len() < IF_INFO_MSG_SIZE ==> r == Err::<Self, NetlinkError>(
                NetlinkError::MalformedMessage,
            ),
    {
        if buf.len() < IF_INFO_MSG_SIZE {
            return Err(NetlinkError::MalformedMessage);
        }
        Ok(
            IfInfoMessage {
                ifi_family: buf[0],
                _ifi_pad: buf[1],
                ifi_type: read_u16(buf, 2),
                ifi_index: read_i32(buf, 4),
                ifi_flags: read_u32(buf, 8),
                ifi_change: read_u32(buf, 12),
            },
        )
    }
}

/// The fixed payload of address frames.
#[derive(Clone, Copy, Debug, PartialEq, Eq)]
pub struct IfAddrMessage {
    pub ifa_family: u8,
    pub ifa_prefix_len: u8,
    pub ifa_flags: u8,
    pub ifa_scope: u8,
    pub ifa_index: u32,
}

impl Default for IfAddrMessage {
    fn default() -> (r: Self)
        ensures
            r == (IfAddrMessage {
                ifa_family: 0,
                ifa_prefix_len: 0,
                ifa_flags: 0,
                ifa_scope: 0,
                ifa_index: 0,
            }),
    {
        IfAddrMessage { ifa_family: 0, ifa_prefix_len: 0, ifa_flags: 0, ifa_scope: 0, ifa_index: 0 }
    }
}

impl IfAddrMessage {
    /// The eight bytes of the payload on the wire.
    pub open spec fn emit(self) -> Seq<u8> {
        seq![self.ifa_family, self.ifa_prefix_len, self.ifa_flags, self.ifa_scope] + le_u32(
            self.ifa_index,
        )
    }

    /// The payload that the first eight bytes of `s` spell.
    pub open spec fn decode(s: Seq<u8>) -> IfAddrMessage
        recommends
            s.len() >= IF_ADDR_MSG_SIZE,
    {
        IfAddrMessage {
            ifa_family: s[0],
            ifa_prefix_len: s[1],
            ifa_flags: s[2],
            ifa_scope: s[3],
            ifa_index: u32_of_le(s.subrange(4, 8)),
        }
    }

    /// Decoding the payload's bytes gives the payload, whatever follows them.
    pub proof fn lemma_decode_emit(self, tail: Seq<u8>)
        ensures
            self.emit().len() == IF_ADDR_MSG_SIZE,
            Self::decode(self.emit() + tail) == self,
    {
        let s = self.emit() + tail;
        lemma_le_roundtrip(0, self.ifa_index, 0);
        assert(s.subrange(4, 8) =~= le_u32(self.ifa_index));
    }

    /// A payload of the given address family, all else zero.
    pub fn new(family: i32) -> (r: Self)
        ensures
            r == (IfAddrMessage {
                ifa_family: family as u8,
                ifa_prefix_len: 0,
                ifa_flags: 0,
                ifa_scope: 0,
                ifa_index: 0,
            }),
    {
        IfAddrMessage {
            ifa_family: family as u8,
            ifa_prefix_len: 0,
            ifa_flags: 0,
            ifa_scope: 0,
            ifa_index: 0,
        }
    }

    /// The size of the payload on the wire.
    pub fn len(&self) -> (n: usize)
        ensures
            n == IF_ADDR_MSG_SIZE,
    {
        IF_ADDR_MSG_SIZE
    }

    /// Whether the address family is unspecified.
    pub fn is_empty(&self) -> (b: bool)
        ensures
            b == (self.ifa_family == 0),
    {
        self.ifa_family == 0
    }

    /// The payload on the wire.
    pub fn serialize(&self) -> (buf: Vec<u8>)
        ensures
            buf@ == self.emit(),
    {
        let mut buf: Vec<u8> = Vec::new();
        buf.push(self.ifa_family);
        buf.push(self.ifa_prefix_len);
        buf.push(self.ifa_flags);
        buf.push(self.ifa_scope);
        let mut part = encode_u32(self.ifa_index).unwrap();
        buf.append(&mut part);
        assert(buf@ =~= self.emit());
        buf
    }

    /// Reads the payload at the start of `buf`; a buffer of fewer than eight
    /// bytes holds none.
    pub fn deserialize(buf: &[u8]) -> (r: Result<Self, NetlinkError>)
        ensures
            buf@.len() >= IF_ADDR_MSG_SIZE ==> r == Ok::<Self, NetlinkError>(Self::decode(buf@)),
            buf@.len() < IF_ADDR_MSG_SIZE ==> r == Err::<Self, NetlinkError>(
                NetlinkError::MalformedMessage,
            ),
    {
        if buf.len() < IF_ADDR_MSG_SIZE {
            return Err(NetlinkError::MalformedMessage);
        }
        Ok(
            IfAddrMessage {
                ifa_family: buf[0],
                ifa_prefix_len: buf[1],
                ifa_flags: buf[2],
                ifa_scope: buf[3],
                ifa_index: read_u32(buf, 4),
            },
        )
    }
}

/// The fixed payload of route frames.
#[derive(Clone, Copy, Debug, PartialEq, Eq)]
pub struct RouteMessage {
    pub family: u8,
    pub dst_len: u8,
    pub src_len: u8,
    pub tos: u8,
    pub table: u8,
    pub protocol: u8,
    pub scope: u8,
    pub rtm_type: u8,
    pub flags: u32,
}

impl Default for RouteMessage {
    fn default() -> (r: Self)
        ensures
            r == RouteMessage::zero(),
    {
        RouteMessage {
            family: 0,
            dst_len: 0,
            src_len: 0,
            tos: 0,
            table: 0,
            protocol: 0,
            scope: 0,
            rtm_type: 0,
            flags: 0,
        }
    }
}

impl RouteMessage {
    /// The payload whose fields are all zero.
    pub open spec fn zero() -> RouteMessage {
        RouteMessage {
            family: 0,
            dst_len: 0,
            src_len: 0,
            tos: 0,
            table: 0,
            protocol: 0,
            scope: 0,
            rtm_type: 0,
            flags: 0,
        }
    }

    /// The twelve bytes of the payload on the wire.
    pub open spec fn emit(self) -> Seq<u8> {
        seq![
            self.family,
            self.dst_len,
            self.src_len,
            self.tos,
            self.table,
            self.protocol,
            self.scope,
            self.rtm_type,
        ] + le_u32(self.flags)
    }

    /// The payload that the first twelve bytes of `s` spell.
    pub open spec fn decode(s: Seq<u8>) -> RouteMessage
        recommends
            s.len() >= ROUTE_MSG_SIZE,
    {
        RouteMessage {
            family: s[0],
            dst_len: s[1],
            src_len: s[2],
            tos: s[3],
            table: s[4],
            protocol: s[5],
            scope: s[6],
            rtm_type: s[7],
            flags: u32_of_le(s.subrange(8, 12)),
        }
    }

    /// Decoding the payload's bytes gives the payload, whatever follows them.
    pub proof fn lemma_decode_emit(self, tail: Seq<u8>)
        ensures
            self.emit().len() == ROUTE_MSG_SIZE,
            Self::decode(self.emit() + tail) == self,
    {
        let s = self.emit() + tail;
        lemma_le_roundtrip(0, self.flags, 0);
        assert(s.subrange(8, 12) =~= le_u32(self.flags));
    }

    /// The payload of a request that adds or changes a route: main table,
    /// boot protocol, universe scope, unicast type.
    pub fn new_rt_msg() -> (r: Self)
        ensures
            r == (RouteMessage {
                table: crate::consts::RT_TABLE_MAIN,
                protocol: crate::consts::RTPROT_BOOT,
                scope: crate::consts::RT_SCOPE_UNIVERSE,
                rtm_type: crate::consts::RTN_UNICAST,
                ..RouteMessage::zero()
            }),
    {
        RouteMessage {
            family: 0,
            dst_len: 0,
            src_len: 0,
            tos: 0,
            table: crate::consts::RT_TABLE_MAIN,
            protocol: crate::consts::RTPROT_BOOT,
            scope: crate::consts::RT_SCOPE_UNIVERSE,
            rtm_type: crate::consts::RTN_UNICAST,
            flags: 0,
        }
    }

    /// The payload of a request that deletes a route: no table, protocol or
    /// type is named, so that the kernel matches on what the request holds.
    pub fn new_rt_del_msg() -> (r: Self)
        ensures
            r == RouteMessage::zero(),
    {
        RouteMessage {
            family: 0,
            dst_len: 0,
            src_len: 0,
            tos: 0,
            table: 0,
            protocol: 0,
            scope: 0,
            rtm_type: 0,
            flags: 0,
        }
    }

    /// The size of the payload on the wire.
    pub fn len(&self) -> (n: usize)
        ensures
            n == ROUTE_MSG_SIZE,
    {
        ROUTE_MSG_SIZE
    }

    /// Whether the address family is unspecified.
    pub fn is_empty(&self) -> (b: bool)
        ensures
            b == (self.family == 0),
    {
        self.family == 0
    }

    /// The payload on the wire.
    pub fn serialize(&self) -> (buf: Vec<u8>)
        ensures
            buf@ == self.emit(),
    {
        let mut buf: Vec<u8> = Vec::new();
        buf.push(self.family);
        buf.push(self.dst_len);
        buf.push(self.src_len);
        buf.push(self.tos);
        buf.push(self.table);
        buf.push(self.protocol);
        buf.push(self.scope);
        buf.push(self.rtm_type);
        let mut part = encode_u32(self.flags).unwrap();
        buf.append(&mut part);
        assert(buf@ =~= self.emit());
        buf
    }

    /// Reads the payload at the start of `buf`; a buffer of fewer than twelve
    /// bytes holds none.
    pub fn deserialize(buf: &[u8]) -> (r: Result<Self, NetlinkError>)
        ensures
            buf@.len() >= ROUTE_MSG_SIZE ==> r == Ok::<Self, NetlinkError>(Self::decode(buf@)),
            buf@.len() < ROUTE_MSG_SIZE ==> r == Err::<Self, NetlinkError>(
                NetlinkError::MalformedMessage,
            ),
    {
        if buf.len() < ROUTE_MSG_SIZE {
            return Err(NetlinkError::MalformedMessage);
        }
        Ok(
            RouteMessage {
                family: buf[0],
                dst_len: buf[1],
                src_len: buf[2],
                tos: buf[3],
                table: buf[4],
                protocol: buf[5],
                scope: buf[6],
                rtm_type: buf[7],
                flags: read_u32(buf, 8),
            },
        )
    }
}

} // verus!
