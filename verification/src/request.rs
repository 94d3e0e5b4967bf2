//! A request as it is put together: a header, the parts of its payload in
//! the order in which they are written, and its rendering on the wire.

use vstd::prelude::*;
use crate::attr::{emit_all, lemma_emit_len, AttrTree, NetlinkRouteAttr};
use crate::consts::NLMSG_HDRLEN;
use crate::message::{IfAddrMessage, IfInfoMessage, NetlinkMessageHeader, RouteMessage};
use crate::utils::{append_bytes, lemma_align4};

verus! {

/// One part of a request's payload as a mathematical value.
pub enum Part {
    Info(IfInfoMessage),
    Addr(IfAddrMessage),
    Route(RouteMessage),
    Attr(AttrTree),
}

impl Part {
    /// The part on the wire.
    pub open spec fn emit(self) -> Seq<u8> {
        match self {
            Part::Info(m) => m.emit(),
            Part::Addr(m) => m.emit(),
            Part::Route(m) => m.emit(),
            Part::Attr(t) => t.emit(),
        }
    }

    /// Whether every length field of the part can hold its value.
    pub open spec fn fits(self) -> bool {
        match self {
            Part::Attr(t) => t.fits(),
            _ => true,
        }
    }
}

/// The parts of `s` on the wire, one after the other.
pub open spec fn emit_parts(s: Seq<Part>) -> Seq<u8>
    decreases s.len(),
{
    if s.len() == 0 {
        Seq::empty()
    } else {
        emit_parts(s.drop_last()) + s.last().emit()
    }
}

/// Every part takes a multiple of four bytes, and so does a list of parts.
pub proof fn lemma_emit_parts_len(s: Seq<Part>)
    ensures
        emit_parts(s).len() % 4 == 0,
        forall|i: int| 0 <= i < s.len() ==> (#[trigger] s[i]).emit().len() % 4 == 0,
    decreases s.len(),
{
    assert forall|i: int| 0 <= i < s.len() implies (#[trigger] s[i]).emit().len() % 4 == 0 by {
        match s[i] {
            Part::Attr(t) => {
                lemma_emit_len(t);
            },
            _ => {},
        }
    }
    if s.len() > 0 {
        lemma_emit_parts_len(s.drop_last());
    }
}

/// One part of a request's payload: a family payload or an attribute.
#[derive(Debug, PartialEq, Eq)]
pub enum NetlinkRequestData {
    Info(IfInfoMessage),
    Addr(IfAddrMessage),
    Route(RouteMessage),
    Attr(NetlinkRouteAttr),
}

impl View for NetlinkRequestData {
    type V = Part;

    open spec fn view(&self) -> Part {
        match self {
            NetlinkRequestData::Info(m) => Part::Info(*m),
            NetlinkRequestData::Addr(m) => Part::Addr(*m),
            NetlinkRequestData::Route(m) => Part::Route(*m),
            NetlinkRequestData::Attr(a) => Part::Attr(a@),
        }
    }
}

/// The mathematical values of a list of parts.
pub open spec fn parts(v: Seq<NetlinkRequestData>) -> Seq<Part> {
    Seq::new(v.len(), |i: int| v[i]@)
}

impl NetlinkRequestData {
    /// Whether an attribute's stored lengths are those of its tree.
    pub open spec fn wf(&self) -> bool {
        match self {
            NetlinkRequestData::Attr(a) => a.wf(),
            _ => true,
        }
    }

    /// The length that the part states of itself: the size of a family
    /// payload, or the unpadded length of an attribute.
    pub fn len(&self) -> (n: usize)
        ensures
            n == match self@ {
                Part::Info(_) => crate::consts::IF_INFO_MSG_SIZE as int,
                Part::Addr(_) => crate::consts::IF_ADDR_MSG_SIZE as int,
                Part::Route(_) => crate::consts::ROUTE_MSG_SIZE as int,
                Part::Attr(_) => self->Attr_0.rt_attr.rta_len as int,
            },
    {
        match self {
            NetlinkRequestData::Info(m) => m.len(),
            NetlinkRequestData::Addr(m) => m.len(),
            NetlinkRequestData::Route(m) => m.len(),
            NetlinkRequestData::Attr(a) => a.len(),
        }
    }

    /// The part on the wire.
    pub fn serialize(&self) -> (buf: Vec<u8>)
        requires
            self.wf(),
        ensures
            buf@ == self@.emit(),
    {
        match self {
            NetlinkRequestData::Info(m) => m.serialize(),
            NetlinkRequestData::Addr(m) => m.serialize(),
            NetlinkRequestData::Route(m) => m.serialize(),
            NetlinkRequestData::Attr(a) => a.serialize(),
        }
    }
}

/// A request as a mathematical value.
pub struct RequestView {
    pub header: NetlinkMessageHeader,
    pub data: Seq<Part>,
    pub raw_data: Option<Seq<u8>>,
}

impl RequestView {
    /// What follows the header: the parts in order, then the raw bytes.
    pub open spec fn payload(self) -> Seq<u8> {
        emit_parts(self.data) + match self.raw_data {
            Some(raw) => raw,
            None => Seq::empty(),
        }
    }

    /// The number of bytes of the whole request.
    pub open spec fn total_len(self) -> int {
        NLMSG_HDRLEN + self.payload().len()
    }

    /// Whether every length field of the request can hold its value.
    pub open spec fn fits(self) -> bool {
        &&& self.total_len() <= u32::MAX
        &&& forall|i: int| 0 <= i < self.data.len() ==> (#[trigger] self.data[i]).fits()
    }

    /// The header as it is sent: with the total length filled in.
    pub open spec fn sent_header(self) -> NetlinkMessageHeader {
        NetlinkMessageHeader { nlmsg_len: self.total_len() as u32, ..self.header }
    }

    /// The request on the wire.
    pub open spec fn emit(self) -> Seq<u8> {
        self.sent_header().emit() + self.payload()
    }

    /// This request with one more part at the end.
    pub open spec fn with_part(self, part: Part) -> RequestView {
        RequestView { data: self.data.push(part), ..self }
    }
}

/// The length that a request states is the number of bytes it takes, and
/// without raw bytes of another length that number is a multiple of four.
pub proof fn lemma_request_length(r: RequestView)
    requires
        r.total_len() <= u32::MAX,
    ensures
        NetlinkMessageHeader::decode(r.emit()).nlmsg_len == r.emit().len(),
        (r.raw_data is None || r.raw_data->Some_0.len() % 4 == 0) ==> r.emit().len() % 4 == 0,
{
    r.sent_header().lemma_decode_emit(r.payload());
    lemma_emit_parts_len(r.data);
}

/// A request under construction.
#[derive(Debug, PartialEq, Eq)]
pub struct NetlinkRequest {
    pub header: NetlinkMessageHeader,
    pub data: Vec<NetlinkRequestData>,
    pub raw_data: Option<Vec<u8>>,
}

impl View for NetlinkRequest {
    type V = RequestView;

    open spec fn view(&self) -> RequestView {
        RequestView {
            header: self.header,
            data: parts(self.data@),
            raw_data: match self.raw_data {
                Some(raw) => Some(raw@),
                None => None,
            },
        }
    }
}

impl NetlinkRequest {
    /// Whether the request can be written: every attribute's stored lengths
    /// are those of its tree, and the total length fits its field.
    pub open spec fn wf(&self) -> bool {
        &&& self@.total_len() <= u32::MAX
        &&& forall|i: int| 0 <= i < self.data@.len() ==> (#[trigger] self.data@[i]).wf()
    }

    /// A request of type `proto` with the request flag set beside `flags`,
    /// and no payload yet.
    pub fn new(proto: u16, flags: i32) -> (r: Self)
        ensures
            r.header.nlmsg_type == proto,
            r.header.nlmsg_flags == ((crate::consts::NLM_F_REQUEST | flags) as u16),
            r.header.nlmsg_len == NLMSG_HDRLEN,
            r.header.nlmsg_seq == 0,
            r.header.nlmsg_pid == 0,
            r@.data == Seq::<Part>::empty(),
            r@.raw_data is None,
            r@.total_len() == NLMSG_HDRLEN,
            r.wf(),
    {
        let r = Self {
            header: NetlinkMessageHeader::new(proto, flags),
            data: Vec::new(),
            raw_data: None,
        };
        assert(r@.data =~= Seq::<Part>::empty());
        r
    }

    /// Puts `data` behind the parts that the request holds.
    pub fn add_data(&mut self, data: NetlinkRequestData)
        requires
            old(self).wf(),
            data.wf(),
            old(self)@.total_len() + data@.emit().len() <= u32::MAX,
        ensures
            final(self)@ == old(self)@.with_part(data@),
            final(self)@.total_len() == old(self)@.total_len() + data@.emit().len(),
            final(self).wf(),
    {
        self.data.push(data);
        proof {
            assert(self@.data =~= old(self)@.data.push(data@));
            assert(self@.data.drop_last() =~= old(self)@.data);
        }
    }

    /// Sets the bytes that are written behind all parts, as they are.
    pub fn add_raw_data(&mut self, data: Vec<u8>)
        requires
            old(self).wf(),
            NLMSG_HDRLEN + emit_parts(old(self)@.data).len() + data@.len() <= u32::MAX,
        ensures
            final(self)@ == (RequestView { raw_data: Some(data@), ..old(self)@ }),
            final(self).wf(),
    {
        self.raw_data = Some(data);
    }

    /// Writes the request and stores its total length in the header.
    pub fn serialize(&mut self) -> (buf: Vec<u8>)
        requires
            old(self).wf(),
        ensures
            buf@ == old(self)@.emit(),
            buf@.len() == old(self)@.total_len(),
            final(self).header == old(self)@.sent_header(),
            final(self).data == old(self).data,
            final(self).raw_data == old(self).raw_data,
            final(self).wf(),
    {
        let mut body: Vec<u8> = Vec::new();
        let mut i: usize = 0;
        assert(parts(self.data@).take(0) =~= Seq::<Part>::empty());
        while i < self.data.len()
            invariant
                0 <= i <= self.data@.len(),
                *self == *old(self),
                self.wf(),
                body@ == emit_parts(parts(self.data@).take(i as int)),
            decreases self.data@.len() - i,
        {
            let mut part = self.data[i].serialize();
            proof {
                assert(parts(self.data@).take(i + 1).drop_last() =~= parts(self.data@).take(
                    i as int,
                ));
            }
            body.append(&mut part);
            i += 1;
        }
        assert(parts(self.data@).take(i as int) =~= parts(self.data@));
        match &self.raw_data {
            Some(raw) => {
                append_bytes(&mut body, raw.as_slice());
            },
            None => {
                assert(body@ + Seq::<u8>::empty() =~= body@);
            },
        }
        assert(body@ == self@.payload());
        self.header.nlmsg_len = (NLMSG_HDRLEN + body.len()) as u32;
        let mut buf = self.header.serialize();
        buf.append(&mut body);
        buf
    }
}

/// The parts that a list of attributes makes.
pub open spec fn attr_parts(s: Seq<AttrTree>) -> Seq<Part> {
    Seq::new(s.len(), |i: int| Part::Attr(s[i]))
}

/// The header of a request of type `proto` before it is sent: the request
/// flag beside `flags`, the length of the header alone, no sequence number
/// and no port yet.
pub open spec fn request_header(proto: u16, flags: i32) -> NetlinkMessageHeader {
    NetlinkMessageHeader {
        nlmsg_len: NLMSG_HDRLEN as u32,
        nlmsg_type: proto,
        nlmsg_flags: (crate::consts::NLM_F_REQUEST | flags) as u16,
        nlmsg_seq: 0,
        nlmsg_pid: 0,
    }
}

/// The request of type `proto` whose payload is the family payload `first`
/// and then the attributes `attrs`.
pub open spec fn request_view(
    proto: u16,
    flags: i32,
    first: Part,
    attrs: Seq<AttrTree>,
) -> RequestView {
    RequestView {
        header: request_header(proto, flags),
        data: seq![first] + attr_parts(attrs),
        raw_data: None,
    }
}

/// A part that fits takes at most 65536 bytes, and so a list of parts that
/// fit takes at most that many bytes for each part.
pub proof fn lemma_emit_parts_bound(s: Seq<Part>)
    requires
        forall|i: int| 0 <= i < s.len() ==> (#[trigger] s[i]).fits(),
    ensures
        emit_parts(s).len() <= s.len() * 65536,
    decreases s.len(),
{
    if s.len() > 0 {
        let shorter = s.drop_last();
        assert forall|i: int| 0 <= i < shorter.len() implies (#[trigger] shorter[i]).fits() by {
            assert(shorter[i] == s[i]);
        }
        lemma_emit_parts_bound(shorter);
        assert(s.last().fits());
        match s.last() {
            Part::Attr(t) => {
                lemma_emit_len(t);
                lemma_align4(t.len());
            },
            _ => {},
        }
    }
}

impl NetlinkRequest {
    /// The request of type `proto` whose payload is `first` and then the
    /// attributes of `attrs`.
    pub(crate) fn with_attrs(
        proto: u16,
        flags: i32,
        first: NetlinkRequestData,
        attrs: Vec<NetlinkRouteAttr>,
    ) -> (r: Self)
        requires
            !(first is Attr),
            attrs@.len() <= 1024,
            forall|i: int| 0 <= i < attrs@.len() ==> (#[trigger] attrs@[i]).wf(),
        ensures
            r@ == request_view(proto, flags, first@, crate::attr::trees(attrs@)),
            r.wf(),
            r@.fits(),
    {
        let ghost all = crate::attr::trees(attrs@);
        let ghost want = request_view(proto, flags, first@, all);
        let mut attrs = attrs;
        let mut data: Vec<NetlinkRequestData> = Vec::new();
        data.push(first);
        assert(parts(data@) =~= seq![first@] + attr_parts(all.take(0)));
        assert(all.skip(0) =~= all);
        while attrs.len() > 0
            invariant
                all.len() <= 1024,
                data@.len() + attrs@.len() == all.len() + 1,
                data@.len() >= 1,
                parts(data@) == seq![first@] + attr_parts(all.take(data@.len() - 1)),
                crate::attr::trees(attrs@) == all.skip(data@.len() - 1),
                forall|i: int| 0 <= i < attrs@.len() ==> (#[trigger] attrs@[i]).wf(),
                forall|i: int| 0 <= i < data@.len() ==> (#[trigger] data@[i]).wf(),
                !(first is Attr),
            decreases attrs@.len(),
        {
            let ghost k = data@.len() - 1;
            let ghost before = attrs@;
            let attr = attrs.remove(0);
            proof {
                assert(before[0].wf());
                assert(attr@ == all.skip(k)[0]);
                assert forall|i: int| 0 <= i < attrs@.len() implies (#[trigger] attrs@[i]).wf() by {
                    assert(attrs@[i] == before[i + 1]);
                }
                assert forall|i: int| 0 <= i < attrs@.len() implies crate::attr::trees(attrs@)[i]
                    == all.skip(k + 1)[i] by {
                    assert(attrs@[i] == before[i + 1]);
                    assert(crate::attr::trees(before)[i + 1] == all.skip(k)[i + 1]);
                }
                assert(crate::attr::trees(attrs@) =~= all.skip(k + 1));
            }
            let ghost old_parts = parts(data@);
            data.push(NetlinkRequestData::Attr(attr));
            proof {
                assert(parts(data@) =~= old_parts.push(Part::Attr(attr@)));
                assert(attr_parts(all.take(k + 1)) =~= attr_parts(all.take(k)).push(
                    Part::Attr(all[k]),
                ));
                assert(parts(data@) =~= seq![first@] + attr_parts(all.take(k + 1)));
            }
        }
        assert(all.take(all.len() as int) =~= all);
        let r = NetlinkRequest {
            header: NetlinkMessageHeader::new(proto, flags),
            data,
            raw_data: None,
        };
        proof {
            assert(r@.data == want.data);
            assert forall|i: int| 0 <= i < r@.data.len() implies (#[trigger] r@.data[i]).fits() by {
                assert(r@.data[i] == r.data@[i]@);
                if i > 0 {
                    assert(r@.data[i] == attr_parts(all)[i - 1]);
                    assert(r.data@[i].wf());
                    crate::attr::lemma_wf_fits(r.data@[i]->Attr_0);
                }
            }
            lemma_emit_parts_bound(r@.data);
            assert(r@.payload() =~= emit_parts(r@.data));
            assert(r@.data.len() * 65536 <= 1025 * 65536) by (nonlinear_arith)
                requires
                    r@.data.len() <= 1025,
            ;
        }
        r
    }
}

/// The payload of a request made of a family payload and attributes is the
/// family payload's bytes followed by the bytes of the attributes.
pub proof fn lemma_request_payload(proto: u16, flags: i32, first: Part, attrs: Seq<AttrTree>)
    ensures
        request_view(proto, flags, first, attrs).payload() == first.emit() + emit_all(attrs),
    decreases attrs.len(),
{
    let v = request_view(proto, flags, first, attrs);
    assert(v.payload() =~= emit_parts(v.data));
    if attrs.len() == 0 {
        assert(v.data =~= seq![first]);
        assert(v.data.drop_last() =~= Seq::<Part>::empty());
        assert(emit_parts(v.data.drop_last()) =~= Seq::<u8>::empty());
        assert(emit_all(attrs) =~= Seq::<u8>::empty());
        assert(emit_parts(v.data) =~= first.emit() + emit_all(attrs));
    } else {
        let shorter = request_view(proto, flags, first, attrs.drop_last());
        lemma_request_payload(proto, flags, first, attrs.drop_last());
        assert(shorter.payload() =~= emit_parts(shorter.data));
        assert(v.data.drop_last() =~= shorter.data);
        assert(v.data.last() == Part::Attr(attrs.last()));
        assert(emit_parts(v.data) =~= first.emit() + emit_all(attrs));
    }
}

/// In a request made of a family payload and attributes, every attribute
/// begins at a multiple of four, and its bytes stand there unchanged. With
/// the layout of one attribute and the places of its children this holds of
/// every attribute of the request, however deep it is nested.
pub proof fn lemma_request_attr_offset(
    proto: u16,
    flags: i32,
    first: Part,
    attrs: Seq<AttrTree>,
    i: int,
)
    requires
        !(first is Attr),
        0 <= i < attrs.len(),
    ensures
        ({
            let at = NLMSG_HDRLEN + first.emit().len() + crate::attr::offset_of(attrs, i);
            let bytes = request_view(proto, flags, first, attrs).emit();
            &&& at % 4 == 0
            &&& at + attrs[i].emit().len() <= bytes.len()
            &&& bytes.subrange(at, at + attrs[i].emit().len()) == attrs[i].emit()
        }),
{
    let v = request_view(proto, flags, first, attrs);
    lemma_request_payload(proto, flags, first, attrs);
    crate::attr::lemma_emit_all_offset(attrs, i);
    v.sent_header().lemma_decode_emit(v.payload());
    match first {
        Part::Info(m) => {
            m.lemma_decode_emit(Seq::empty());
        },
        Part::Addr(m) => {
            m.lemma_decode_emit(Seq::empty());
        },
        Part::Route(m) => {
            m.lemma_decode_emit(Seq::empty());
        },
        Part::Attr(_) => {},
    }
    let at = NLMSG_HDRLEN + first.emit().len() + crate::attr::offset_of(attrs, i);
    let off = crate::attr::offset_of(attrs, i);
    assert(v.emit().subrange(at, at + attrs[i].emit().len()) =~= emit_all(attrs).subrange(
        off,
        off + attrs[i].emit().len(),
    ));
}

} // verus!
