//! Route attributes: type-length-value records that nest, each padded to a
//! four-byte boundary.

use std::collections::HashMap;
use vstd::prelude::*;
use crate::consts::RT_ATTR_SIZE;
use crate::error::NetlinkError;
use crate::utils::{
    align4, align_of, append_bytes, frame_step, lemma_align4, lemma_alignment_four, lemma_pad4,
    pad4, pad_to4,
};
use crate::wire::{le_u16, read_u16, u16_of_le, u16_to_bytes};

verus! {

/// The largest value the length field of an attribute can hold.
pub const RT_ATTR_MAX_LEN: usize = 0xffff;

/// An attribute as a mathematical tree: a type, an inline payload and the
/// attributes nested below it, in the order in which they are written.
pub struct AttrTree {
    pub rta_type: u16,
    pub value: Seq<u8>,
    pub children: Seq<AttrTree>,
}

impl AttrTree {
    /// A tree without children.
    pub open spec fn leaf(rta_type: u16, value: Seq<u8>) -> AttrTree {
        AttrTree { rta_type, value, children: Seq::empty() }
    }

    /// This tree with one more child at the end.
    pub open spec fn with_child(self, child: AttrTree) -> AttrTree {
        AttrTree { children: self.children.push(child), ..self }
    }

    /// What follows the attribute's header up to its stated length: the
    /// payload alone, or the padded payload and then every child, padded.
    pub open spec fn body(self) -> Seq<u8>
        decreases self, 0int,
    {
        if self.children.len() == 0 {
            self.value
        } else {
            pad4(self.value) + emit_all(self.children)
        }
    }

    /// The value of the length field: header and body, without the padding
    /// that follows the attribute itself.
    pub open spec fn len(self) -> int
        decreases self, 1int,
    {
        RT_ATTR_SIZE + self.body().len()
    }

    /// Whether every length field in the tree can hold its value.
    pub open spec fn fits(self) -> bool
        decreases self,
    {
        &&& self.len() <= RT_ATTR_MAX_LEN
        &&& forall|i: int| 0 <= i < self.children.len() ==> (#[trigger] self.children[i]).fits()
    }

    /// The attribute on the wire: length, type, body, padding.
    pub open spec fn emit(self) -> Seq<u8>
        decreases self, 2int,
    {
        pad4(le_u16(self.len() as u16) + le_u16(self.rta_type) + self.body())
    }

    /// The attribute as a reader sees it before it looks into the body: the
    /// type, and the whole body as payload.
    pub open spec fn flat(self) -> AttrTree {
        AttrTree::leaf(self.rta_type, self.body())
    }

    /// What a reader makes of the attribute `seen`, which it has read one
    /// level deep, when it knows that the attribute nests as `self` does: it
    /// takes the inline payload off the body and reads the children from
    /// what follows the padded payload.
    pub open spec fn reread(self, seen: AttrTree) -> Option<AttrTree>
        decreases self, 0nat, 0nat,
    {
        if self.children.len() == 0 {
            Some(seen)
        } else if seen.value.len() < align4(self.value.len() as int) {
            None
        } else {
            match reread_all(self.children, seen.value.skip(align4(self.value.len() as int))) {
                Some(children) => Some(
                    AttrTree {
                        rta_type: seen.rta_type,
                        value: seen.value.take(self.value.len() as int),
                        children,
                    },
                ),
                None => None,
            }
        }
    }
}

/// The attributes of `s` on the wire, one after the other.
pub open spec fn emit_all(s: Seq<AttrTree>) -> Seq<u8>
    decreases s, 3int,
{
    if s.len() == 0 {
        Seq::empty()
    } else {
        emit_all(s.drop_last()) + s.last().emit()
    }
}

/// Every tree of a list fits, and so do the trees below them.
pub open spec fn all_fit(s: Seq<AttrTree>) -> bool {
    forall|i: int| 0 <= i < s.len() ==> (#[trigger] s[i]).fits()
}

/// Each attribute of `s` as a reader sees it, one level deep.
pub open spec fn flat_all(s: Seq<AttrTree>) -> Seq<AttrTree> {
    Seq::new(s.len(), |i: int| s[i].flat())
}

/// Where the attribute at index `i` of `s` begins among the bytes of `s`.
pub open spec fn offset_of(s: Seq<AttrTree>, i: int) -> int {
    emit_all(s.take(i)).len() as int
}

/// The attributes that stand in `buf`, one level deep: each with its type
/// and the bytes of its body. `None` where a stated length is below the
/// header's size or beyond the buffer. Fewer than four bytes at the end are
/// left unread.
pub open spec fn parse_attrs(buf: Seq<u8>) -> Option<Seq<AttrTree>>
    decreases buf.len(),
{
    if buf.len() < RT_ATTR_SIZE {
        Some(Seq::empty())
    } else {
        let len = u16_of_le(buf.subrange(0, 2)) as int;
        if len < RT_ATTR_SIZE || len > buf.len() {
            None
        } else {
            let first = AttrTree::leaf(u16_of_le(buf.subrange(2, 4)), buf.subrange(4, len));
            match parse_attrs(buf.skip(frame_step(len, buf.len() as int))) {
                Some(rest) => Some(seq![first] + rest),
                None => None,
            }
        }
    }
}

/// The payloads of `attrs` by type; of two attributes of one type the later
/// one stays.
pub open spec fn attr_map(attrs: Seq<AttrTree>) -> Map<u16, Seq<u8>>
    decreases attrs.len(),
{
    if attrs.len() == 0 {
        Map::empty()
    } else {
        attr_map(attrs.drop_last()).insert(attrs.last().rta_type, attrs.last().value)
    }
}

/// What a reader makes of the first `n` attributes of `seen`, when it knows
/// that they nest as the trees of `shape` do.
pub open spec fn reread_each(shape: Seq<AttrTree>, seen: Seq<AttrTree>, n: nat) -> Option<
    Seq<AttrTree>,
>
    decreases shape, 0nat, n,
{
    if n == 0 {
        Some(Seq::empty())
    } else if n > shape.len() || n > seen.len() {
        None
    } else {
        match (reread_each(shape, seen, (n - 1) as nat), shape[n - 1].reread(seen[n - 1])) {
            (Some(before), Some(last)) => Some(before.push(last)),
            _ => None,
        }
    }
}

/// What a reader makes of `bytes` when it knows that they hold as many
/// attributes as `shape` has trees, nested as those trees are: it reads
/// every level with `parse_attrs`.
pub open spec fn reread_all(shape: Seq<AttrTree>, bytes: Seq<u8>) -> Option<Seq<AttrTree>>
    decreases shape, 1nat, 0nat,
{
    match parse_attrs(bytes) {
        Some(seen) => if seen.len() == shape.len() {
            reread_each(shape, seen, shape.len())
        } else {
            None
        },
        None => None,
    }
}

/// Writing one more attribute appends its bytes to those of the others.
pub proof fn lemma_emit_all_push(s: Seq<AttrTree>, c: AttrTree)
    ensures
        emit_all(s.push(c)) == emit_all(s) + c.emit(),
{
    assert(s.push(c).drop_last() =~= s);
}

/// The bytes of a list begin with the bytes of its first attribute.
pub proof fn lemma_emit_all_front(s: Seq<AttrTree>)
    requires
        s.len() > 0,
    ensures
        emit_all(s) == s.first().emit() + emit_all(s.drop_first()),
    decreases s.len(),
{
    if s.len() == 1 {
        assert(s.drop_last() =~= Seq::empty());
        assert(s.drop_first() =~= Seq::empty());
        assert(emit_all(s) =~= s.first().emit() + emit_all(s.drop_first()));
    } else {
        lemma_emit_all_front(s.drop_last());
        assert(s.drop_last().drop_first() =~= s.drop_first().drop_last());
        assert(emit_all(s) =~= s.first().emit() + emit_all(s.drop_first()));
    }
}

/// An attribute takes its stated length, rounded up to a multiple of four.
pub proof fn lemma_emit_len(t: AttrTree)
    ensures
        t.len() >= RT_ATTR_SIZE,
        t.emit().len() == align4(t.len()),
        t.emit().len() % 4 == 0,
{
    lemma_pad4(le_u16(t.len() as u16) + le_u16(t.rta_type) + t.body());
}

/// A list of attributes takes a multiple of four bytes.
pub proof fn lemma_emit_all_len(s: Seq<AttrTree>)
    ensures
        emit_all(s).len() % 4 == 0,
    decreases s.len(),
{
    if s.len() > 0 {
        lemma_emit_all_len(s.drop_last());
        lemma_emit_len(s.last());
    }
}

/// The bytes of the first `n` attributes of a list are no more than the
/// bytes of all of them.
pub proof fn lemma_emit_all_grows(s: Seq<AttrTree>, n: int)
    requires
        0 <= n <= s.len(),
    ensures
        emit_all(s.take(n)).len() <= emit_all(s).len(),
    decreases s.len() - n,
{
    if n < s.len() {
        lemma_emit_all_grows(s, n + 1);
        lemma_emit_all_push(s.take(n), s[n]);
        assert(s.take(n + 1) =~= s.take(n).push(s[n]));
    } else {
        assert(s.take(n) =~= s);
    }
}

/// The stated length of a tree that gets one more child: the first child
/// brings the padding of the payload with it, every child its padded length.
pub proof fn lemma_with_child_len(t: AttrTree, c: AttrTree)
    ensures
        t.children.len() == 0 ==> t.with_child(c).len() == RT_ATTR_SIZE + align4(
            t.value.len() as int,
        ) + align4(c.len()),
        t.children.len() > 0 ==> t.with_child(c).len() == t.len() + align4(c.len()),
        t.with_child(c).len() >= t.len(),
{
    lemma_emit_all_push(t.children, c);
    lemma_emit_len(c);
    lemma_pad4(t.value);
    lemma_align4(c.len());
    if t.children.len() == 0 {
        assert(emit_all(t.children) =~= Seq::empty());
    }
}

/// A tree with one more child fits exactly when it was fitting, the child
/// fits and the new length does.
pub proof fn lemma_with_child_fits(t: AttrTree, c: AttrTree)
    requires
        all_fit(t.children),
    ensures
        t.with_child(c).fits() <==> c.fits() && t.with_child(c).len() <= RT_ATTR_MAX_LEN,
{
    let u = t.with_child(c);
    if c.fits() && u.len() <= RT_ATTR_MAX_LEN {
        assert forall|i: int| 0 <= i < u.children.len() implies (#[trigger] u.children[i]).fits() by {
            if i < t.children.len() {
                assert(u.children[i] == t.children[i]);
            }
        }
    }
    if u.fits() {
        assert(u.children[t.children.len() as int] == c);
    }
}

/// The layout of one attribute on the wire: the length field holds four plus
/// the length of the body, the type follows, then the body, then zero bytes
/// up to the next multiple of four.
pub proof fn lemma_emit_layout(t: AttrTree)
    requires
        t.len() <= RT_ATTR_MAX_LEN,
    ensures
        t.len() == RT_ATTR_SIZE + t.body().len(),
        t.emit().len() == align4(t.len()),
        u16_of_le(t.emit().subrange(0, 2)) == t.len(),
        u16_of_le(t.emit().subrange(2, 4)) == t.rta_type,
        t.emit().subrange(4, t.len()) == t.body(),
        forall|i: int| t.len() <= i < align4(t.len()) ==> t.emit()[i] == 0u8,
{
    let raw = le_u16(t.len() as u16) + le_u16(t.rta_type) + t.body();
    lemma_pad4(raw);
    crate::wire::lemma_le_roundtrip(t.len() as u16, 0, 0);
    crate::wire::lemma_le_roundtrip(t.rta_type, 0, 0);
    assert(t.emit().subrange(0, 2) =~= le_u16(t.len() as u16));
    assert(t.emit().subrange(2, 4) =~= le_u16(t.rta_type));
    assert(t.emit().subrange(4, t.len()) =~= t.body());
}

/// Every attribute of a list begins at a multiple of four, and its bytes
/// stand there unchanged.
pub proof fn lemma_emit_all_offset(s: Seq<AttrTree>, i: int)
    requires
        0 <= i < s.len(),
    ensures
        offset_of(s, i) % 4 == 0,
        offset_of(s, i) + s[i].emit().len() <= emit_all(s).len(),
        emit_all(s).subrange(offset_of(s, i), offset_of(s, i) + s[i].emit().len()) == s[i].emit(),
    decreases s.len(),
{
    lemma_emit_all_len(s.take(i));
    if i == s.len() - 1 {
        assert(s.take(i) =~= s.drop_last());
        assert(emit_all(s).subrange(offset_of(s, i), offset_of(s, i) + s[i].emit().len())
            =~= s[i].emit());
    } else {
        lemma_emit_all_offset(s.drop_last(), i);
        assert(s.drop_last().take(i) =~= s.take(i));
        assert(emit_all(s).subrange(offset_of(s, i), offset_of(s, i) + s[i].emit().len())
            =~= s[i].emit());
    }
}

/// Inside an attribute with children, the child at index `i` begins at a
/// multiple of four behind the header and the padded payload.
pub proof fn lemma_child_offset(t: AttrTree, i: int)
    requires
        0 <= i < t.children.len(),
    ensures
        (RT_ATTR_SIZE + align4(t.value.len() as int) + offset_of(t.children, i)) % 4 == 0,
        t.emit().subrange(
            RT_ATTR_SIZE + align4(t.value.len() as int) + offset_of(t.children, i),
            RT_ATTR_SIZE + align4(t.value.len() as int) + offset_of(t.children, i)
                + t.children[i].emit().len(),
        ) == t.children[i].emit(),
{
    lemma_emit_all_offset(t.children, i);
    lemma_pad4(t.value);
    lemma_align4(t.value.len() as int);
    let raw = le_u16(t.len() as u16) + le_u16(t.rta_type) + t.body();
    lemma_pad4(raw);
    let start = RT_ATTR_SIZE + align4(t.value.len() as int) + offset_of(t.children, i);
    assert(t.emit().subrange(start, start + t.children[i].emit().len()) =~= emit_all(
        t.children,
    ).subrange(offset_of(t.children, i), offset_of(t.children, i) + t.children[i].emit().len()));
}

/// Reading what was written gives back every attribute, one level deep, with
/// its type and the bytes of its body.
pub proof fn lemma_parse_emit(s: Seq<AttrTree>)
    requires
        forall|i: int| 0 <= i < s.len() ==> (#[trigger] s[i]).len() <= RT_ATTR_MAX_LEN,
    ensures
        parse_attrs(emit_all(s)) == Some(flat_all(s)),
    decreases s.len(),
{
    if s.len() == 0 {
        assert(flat_all(s) =~= Seq::empty());
    } else {
        let t = s.first();
        let rest = s.drop_first();
        let buf = emit_all(s);
        lemma_emit_all_front(s);
        lemma_emit_layout(t);
        lemma_align4(t.len());
        lemma_parse_emit(rest);
        assert(buf.subrange(0, 2) =~= t.emit().subrange(0, 2));
        assert(buf.subrange(2, 4) =~= t.emit().subrange(2, 4));
        assert(buf.subrange(4, t.len()) =~= t.emit().subrange(4, t.len()));
        assert(buf.skip(align4(t.len())) =~= emit_all(rest));
        assert(seq![t.flat()] + flat_all(rest) =~= flat_all(s));
    }
}

/// An attribute without children comes back from the wire as it went.
pub proof fn lemma_parse_emit_leaves(s: Seq<AttrTree>)
    requires
        forall|i: int|
            0 <= i < s.len() ==> (#[trigger] s[i]).len() <= RT_ATTR_MAX_LEN
                && s[i].children.len() == 0,
    ensures
        parse_attrs(emit_all(s)) == Some(s),
{
    lemma_parse_emit(s);
    assert(flat_all(s) =~= s) by {
        assert forall|i: int| 0 <= i < s.len() implies flat_all(s)[i] == s[i] by {
            assert(s[i].children =~= Seq::empty());
        }
    }
}

/// The children of an attribute come back from its body, behind the padded
/// payload.
pub proof fn lemma_parse_body(t: AttrTree)
    requires
        t.fits(),
        t.children.len() > 0,
    ensures
        parse_attrs(t.body().skip(align4(t.value.len() as int))) == Some(flat_all(t.children)),
{
    lemma_pad4(t.value);
    assert(t.body().skip(align4(t.value.len() as int)) =~= emit_all(t.children));
    assert forall|i: int| 0 <= i < t.children.len() implies (#[trigger] t.children[i]).len()
        <= RT_ATTR_MAX_LEN by {
        assert(t.children[i].fits());
    }
    lemma_parse_emit(t.children);
}

/// The children of an attribute without inline payload come back from its
/// body, be there any or none.
pub proof fn lemma_parse_nested(t: AttrTree)
    requires
        t.fits(),
        t.value.len() == 0,
    ensures
        parse_attrs(t.body()) == Some(flat_all(t.children)),
{
    if t.children.len() > 0 {
        lemma_parse_body(t);
        assert(t.body().skip(0) =~= t.body());
    } else {
        assert(flat_all(t.children) =~= Seq::<AttrTree>::empty());
    }
}

/// A reader that knows how a tree nests reads the tree back from the tree's
/// body as it was written.
pub proof fn lemma_reread(t: AttrTree)
    requires
        t.fits(),
    ensures
        t.reread(t.flat()) == Some(t),
    decreases t, 0nat, 0nat,
{
    if t.children.len() == 0 {
        assert(t.children =~= Seq::<AttrTree>::empty());
    } else {
        lemma_pad4(t.value);
        assert(t.body().skip(align4(t.value.len() as int)) =~= emit_all(t.children));
        assert(t.body().take(t.value.len() as int) =~= t.value);
        assert(all_fit(t.children));
        lemma_reread_all(t.children);
    }
}

/// A reader that knows how the trees of a list nest reads the first `n` of
/// them back from what it has read one level deep.
pub proof fn lemma_reread_each(s: Seq<AttrTree>, n: nat)
    requires
        all_fit(s),
        n <= s.len(),
    ensures
        reread_each(s, flat_all(s), n) == Some(s.take(n as int)),
    decreases s, 0nat, n,
{
    if n == 0 {
        assert(s.take(0) =~= Seq::<AttrTree>::empty());
    } else {
        lemma_reread_each(s, (n - 1) as nat);
        assert(s[n - 1].fits());
        lemma_reread(s[n - 1]);
        assert(s.take(n - 1).push(s[n - 1]) =~= s.take(n as int));
    }
}

/// Reading brings back what was written: a reader that knows how the trees
/// of a list nest reads the list back from its bytes, tree for tree.
pub proof fn lemma_reread_all(s: Seq<AttrTree>)
    requires
        all_fit(s),
    ensures
        reread_all(s, emit_all(s)) == Some(s),
    decreases s, 1nat, 0nat,
{
    assert forall|i: int| 0 <= i < s.len() implies (#[trigger] s[i]).len() <= RT_ATTR_MAX_LEN by {
        assert(s[i].fits());
    }
    lemma_parse_emit(s);
    lemma_reread_each(s, s.len());
    assert(s.take(s.len() as int) =~= s);
}

/// The table of a list that gets one more attribute holds that attribute's
/// payload under its type, and else what it held.
pub proof fn lemma_attr_map_push(s: Seq<AttrTree>, t: AttrTree)
    ensures
        attr_map(s.push(t)) == attr_map(s).insert(t.rta_type, t.value),
{
    assert(s.push(t).drop_last() =~= s);
}

/// The header of an attribute as it stands on the wire.
#[derive(Clone, Copy, Debug, PartialEq, Eq)]
pub struct RtAttr {
    pub rta_len: u16,
    pub rta_type: u16,
}

/// An attribute with its payload and the attributes nested in it.
#[derive(Debug, PartialEq, Eq)]
pub struct NetlinkRouteAttr {
    pub rt_attr: RtAttr,
    pub value: Vec<u8>,
    pub children: Vec<NetlinkRouteAttr>,
}

impl NetlinkRouteAttr {
    /// The mathematical tree of this attribute.
    pub open spec fn tree(&self) -> AttrTree
        decreases self,
    {
        AttrTree {
            rta_type: self.rt_attr.rta_type,
            value: self.value@,
            children: Seq::new(
                self.children@.len(),
                |i: int|
                    if 0 <= i < self.children@.len() {
                        self.children[i].tree()
                    } else {
                        AttrTree::leaf(0, Seq::empty())
                    },
            ),
        }
    }
}

impl View for NetlinkRouteAttr {
    type V = AttrTree;

    open spec fn view(&self) -> AttrTree {
        self.tree()
    }
}

/// The trees of a list of attributes.
pub open spec fn trees(v: Seq<NetlinkRouteAttr>) -> Seq<AttrTree> {
    Seq::new(v.len(), |i: int| v[i]@)
}

/// What a table of payloads holds, as a mathematical map from type to bytes.
pub open spec fn payloads(m: HashMap<u16, Vec<u8>>) -> Map<u16, Seq<u8>> {
    Map::new(|k: u16| m@.contains_key(k), |k: u16| m@[k]@)
}

/// The tree of an attribute, field by field.
pub proof fn lemma_view(a: NetlinkRouteAttr)
    ensures
        a@.rta_type == a.rt_attr.rta_type,
        a@.value == a.value@,
        a@.children.len() == a.children@.len(),
        forall|i: int| 0 <= i < a.children@.len() ==> a@.children[i] == (#[trigger] a.children@[i])@,
        a@.children == trees(a.children@),
{
    assert(a@.children =~= trees(a.children@));
}

/// An attribute whose stored lengths are right has a tree that fits.
pub proof fn lemma_wf_fits(a: NetlinkRouteAttr)
    requires
        a.wf(),
    ensures
        a@.fits(),
    decreases a,
{
    lemma_view(a);
    assert forall|i: int| 0 <= i < a@.children.len() implies (#[trigger] a@.children[i]).fits() by {
        assert(a.children@[i].wf());
        lemma_wf_fits(a.children@[i]);
    }
}

impl NetlinkRouteAttr {
    /// Whether every stored length is the length of the tree below it.
    pub open spec fn wf(&self) -> bool
        decreases self,
    {
        &&& self.rt_attr.rta_len as int == self@.len()
        &&& forall|i: int|
            0 <= i < self.children@.len() ==> (#[trigger] self.children[i]).wf()
    }

    /// An attribute of type `rta_type` that holds `value` and no children.
    pub fn new(rta_type: u16, value: Vec<u8>) -> (r: Self)
        requires
            RT_ATTR_SIZE + value@.len() <= RT_ATTR_MAX_LEN,
        ensures
            r@ == AttrTree::leaf(rta_type, value@),
            r.wf(),
            r.value == value,
    {
        let len: usize = RT_ATTR_SIZE + value.len();
        let r = Self {
            rt_attr: RtAttr { rta_len: len as u16, rta_type },
            value,
            children: Vec::new(),
        };
        assert(r@.children =~= Seq::empty());
        r
    }

    /// An attribute of type `rta_type` that holds `value` and no children,
    /// if its length fits the length field.
    pub fn try_new(rta_type: u16, value: Vec<u8>) -> (r: Option<Self>)
        ensures
            r is Some <==> AttrTree::leaf(rta_type, value@).fits(),
            r is Some ==> r->Some_0@ == AttrTree::leaf(rta_type, value@) && r->Some_0.wf(),
    {
        if value.len() > RT_ATTR_MAX_LEN - RT_ATTR_SIZE {
            None
        } else {
            Some(NetlinkRouteAttr::new(rta_type, value))
        }
    }

    /// An attribute of type `rta_type` with the inline payload `value` and
    /// the given children, if its length fits the length field.
    pub fn with_children(rta_type: u16, value: Vec<u8>, children: Vec<NetlinkRouteAttr>) -> (r:
        Option<Self>)
        requires
            forall|i: int| 0 <= i < children@.len() ==> (#[trigger] children@[i]).wf(),
        ensures
            r is Some <==> (AttrTree { rta_type, value: value@, children: trees(children@) }).fits(),
            r is Some ==> r->Some_0@ == (AttrTree {
                rta_type,
                value: value@,
                children: trees(children@),
            }) && r->Some_0.wf(),
    {
        let ghost tree = AttrTree { rta_type, value: value@, children: trees(children@) };
        proof {
            assert forall|i: int| 0 <= i < tree.children.len() implies (
            #[trigger] tree.children[i]).fits() by {
                assert(children@[i].wf());
                lemma_wf_fits(children@[i]);
            }
            lemma_alignment_four();
        }
        if value.len() > RT_ATTR_MAX_LEN - RT_ATTR_SIZE {
            proof {
                lemma_pad4(value@);
                lemma_align4(value@.len() as int);
            }
            return None;
        }
        if children.len() == 0 {
            assert(tree.children =~= Seq::<AttrTree>::empty());
            return Some(NetlinkRouteAttr::new(rta_type, value));
        }
        let mut total: usize = RT_ATTR_SIZE + align_of(value.len(), 4);
        let mut i: usize = 0;
        proof {
            lemma_pad4(value@);
            lemma_align4(value@.len() as int);
            assert(tree.children.take(0) =~= Seq::<AttrTree>::empty());
        }
        while i < children.len()
            invariant
                0 <= i <= children@.len(),
                children@.len() > 0,
                tree == (AttrTree { rta_type, value: value@, children: trees(children@) }),
                forall|j: int| 0 <= j < children@.len() ==> (#[trigger] children@[j]).wf(),
                total == RT_ATTR_SIZE + align4(value@.len() as int) + emit_all(
                    tree.children.take(i as int),
                ).len(),
                total <= RT_ATTR_MAX_LEN + 3,
            decreases children@.len() - i,
        {
            let ghost c = tree.children[i as int];
            proof {
                assert(children@[i as int].wf());
                assert(tree.children.take(i + 1) =~= tree.children.take(i as int).push(c));
                lemma_emit_all_push(tree.children.take(i as int), c);
                lemma_emit_len(c);
                lemma_align4(c.len());
                lemma_emit_all_grows(tree.children, i + 1);
                lemma_alignment_four();
                lemma_pad4(value@);
            }
            let next: usize = total + align_of(children[i].len(), 4);
            assert(next <= tree.len());
            if next > RT_ATTR_MAX_LEN {
                return None;
            }
            total = next;
            i += 1;
        }
        proof {
            assert(tree.children.take(i as int) =~= tree.children);
            lemma_pad4(value@);
            assert(total == tree.len());
        }
        if total > RT_ATTR_MAX_LEN {
            return None;
        }
        let r = NetlinkRouteAttr {
            rt_attr: RtAttr { rta_len: total as u16, rta_type },
            value,
            children,
        };
        proof {
            lemma_view(r);
        }
        Some(r)
    }

    /// The stored length: header and body, unpadded.
    pub fn len(&self) -> (n: usize)
        ensures
            n == self.rt_attr.rta_len,
    {
        self.rt_attr.rta_len as usize
    }

    /// Whether the stored length is zero, as it is of no attribute that was
    /// built or read.
    pub fn is_empty(&self) -> (b: bool)
        ensures
            b == (self.rt_attr.rta_len == 0),
            self.wf() ==> !b,
    {
        proof {
            lemma_emit_len(self@);
        }
        self.rt_attr.rta_len == 0
    }

    /// Whether this attribute can take `attr` as one more child without its
    /// length leaving the length field.
    pub fn can_hold(&self, attr: &NetlinkRouteAttr) -> (b: bool)
        requires
            self.wf(),
            attr.wf(),
        ensures
            b == (self@.with_child(attr@).len() <= RT_ATTR_MAX_LEN),
    {
        proof {
            lemma_with_child_len(self@, attr@);
            lemma_align4(attr@.len());
            lemma_align4(self.value@.len() as int);
            lemma_alignment_four();
            lemma_pad4(self.value@);
        }
        let add: usize = align_of(attr.len(), 4);
        let own: usize = if self.children.len() == 0 {
            RT_ATTR_SIZE + align_of(self.value.len(), 4)
        } else {
            self.len()
        };
        own + add <= RT_ATTR_MAX_LEN
    }

    /// Nests a new attribute of type `rta_type` with payload `value` below
    /// this one, after the children it has.
    pub fn add_child(&mut self, rta_type: u16, value: Vec<u8>)
        requires
            old(self).wf(),
            RT_ATTR_SIZE + value@.len() <= RT_ATTR_MAX_LEN,
            old(self)@.with_child(AttrTree::leaf(rta_type, value@)).len() <= RT_ATTR_MAX_LEN,
        ensures
            final(self)@ == old(self)@.with_child(AttrTree::leaf(rta_type, value@)),
            final(self).wf(),
    {
        let attr = NetlinkRouteAttr::new(rta_type, value);
        self.add_child_from_attr(attr);
    }

    /// Nests `attr` below this attribute, after the children it has.
    pub fn add_child_from_attr(&mut self, attr: NetlinkRouteAttr)
        requires
            old(self).wf(),
            attr.wf(),
            old(self)@.with_child(attr@).len() <= RT_ATTR_MAX_LEN,
        ensures
            final(self)@ == old(self)@.with_child(attr@),
            final(self).wf(),
    {
        proof {
            lemma_with_child_len(self@, attr@);
            lemma_align4(attr@.len());
            lemma_align4(self.value@.len() as int);
            lemma_alignment_four();
        }
        let add: usize = align_of(attr.len(), 4);
        if self.children.len() == 0 {
            let own: usize = align_of(self.value.len(), 4);
            self.rt_attr.rta_len = (RT_ATTR_SIZE + own + add) as u16;
        } else {
            self.rt_attr.rta_len = (self.rt_attr.rta_len as usize + add) as u16;
        }
        self.children.push(attr);
        assert(self@.children =~= old(self)@.children.push(attr@));
        assert(self@ == old(self)@.with_child(attr@));
    }

    /// The attribute on the wire, its children included.
    pub fn serialize(&self) -> (buf: Vec<u8>)
        requires
            self.wf(),
        ensures
            buf@ == self@.emit(),
        decreases self,
    {
        let mut buf = u16_to_bytes(self.rt_attr.rta_len);
        let mut ty = u16_to_bytes(self.rt_attr.rta_type);
        buf.append(&mut ty);
        append_bytes(&mut buf, self.value.as_slice());
        let ghost head = le_u16(self@.len() as u16) + le_u16(self.rt_attr.rta_type);
        assert(buf@ =~= head + self.value@);
        if self.children.len() > 0 {
            pad_to4(&mut buf);
            proof {
                lemma_pad4(self.value@);
                lemma_pad4(head + self.value@);
                assert(buf@ =~= head + pad4(self.value@));
            }
            let mut i: usize = 0;
            while i < self.children.len()
                invariant
                    0 <= i <= self.children@.len(),
                    self.wf(),
                    buf@ == head + pad4(self.value@) + emit_all(self@.children.take(i as int)),
                decreases self.children@.len() - i,
            {
                let mut part = self.children[i].serialize();
                proof {
                    assert(self@.children[i as int] == self.children[i as int]@);
                    lemma_emit_all_push(self@.children.take(i as int), self.children[i as int]@);
                    assert(self@.children.take(i as int).push(self.children[i as int]@)
                        =~= self@.children.take(i + 1));
                }
                buf.append(&mut part);
                i += 1;
            }
            assert(self@.children.take(i as int) =~= self@.children);
            assert(buf@ =~= head + self@.body());
        }
        pad_to4(&mut buf);
        buf
    }

    /// Reads the attributes that stand in `buf`, one level deep.
    pub fn from(buf: &[u8]) -> (r: Result<Vec<NetlinkRouteAttr>, NetlinkError>)
        ensures
            match parse_attrs(buf@) {
                Some(s) => r is Ok && trees(r->Ok_0@) == s && forall|i: int|
                    0 <= i < r->Ok_0@.len() ==> (#[trigger] r->Ok_0@[i]).wf(),
                None => r == Err::<Vec<NetlinkRouteAttr>, NetlinkError>(
                    NetlinkError::MalformedMessage,
                ),
            },
    {
        let mut attrs: Vec<NetlinkRouteAttr> = Vec::new();
        let mut pos: usize = 0;
        assert(buf@.skip(0) =~= buf@);
        assert(trees(attrs@) =~= Seq::empty());
        while buf.len() - pos >= RT_ATTR_SIZE
            invariant
                0 <= pos <= buf@.len(),
                forall|i: int| 0 <= i < attrs@.len() ==> (#[trigger] attrs@[i]).wf(),
                parse_attrs(buf@) == match parse_attrs(buf@.skip(pos as int)) {
                    Some(rest) => Some(trees(attrs@) + rest),
                    None => None,
                },
            decreases buf@.len() - pos,
        {
            let ghost rest = buf@.skip(pos as int);
            let len: usize = read_u16(buf, pos) as usize;
            let rta_type = read_u16(buf, pos + 2);
            proof {
                assert(rest.subrange(0, 2) =~= buf@.subrange(pos as int, pos + 2));
                assert(rest.subrange(2, 4) =~= buf@.subrange(pos + 2, pos + 4));
            }
            if len < RT_ATTR_SIZE || len > buf.len() - pos {
                return Err(NetlinkError::MalformedMessage);
            }
            let value = vstd::slice::slice_to_vec(
                vstd::slice::slice_subrange(buf, pos + RT_ATTR_SIZE, pos + len),
            );
            proof {
                lemma_alignment_four();
                lemma_align4(len as int);
                assert(rest.subrange(4, len as int) =~= value@);
            }
            let padded: usize = align_of(len, 4);
            let step: usize = if padded <= buf.len() - pos {
                padded
            } else {
                buf.len() - pos
            };
            let attr = NetlinkRouteAttr::new(rta_type, value);
            proof {
                assert(rest.skip(step as int) =~= buf@.skip(pos + step));
                let ghost tail = parse_attrs(buf@.skip(pos + step));
                if tail is Some {
                    assert(trees(attrs@.push(attr)) + tail->Some_0 =~= trees(attrs@) + (seq![
                        attr@,
                    ] + tail->Some_0));
                }
            }
            attrs.push(attr);
            pos = pos + step;
        }
        proof {
            assert(trees(attrs@) + Seq::<AttrTree>::empty() =~= trees(attrs@));
        }
        Ok(attrs)
    }

    /// Reads the attributes that stand in `buf`, one level deep, into a table
    /// from type to payload. Of two attributes of one type the later one
    /// stays.
    pub fn map(buf: &[u8]) -> (r: Result<HashMap<u16, Vec<u8>>, NetlinkError>)
        ensures
            match parse_attrs(buf@) {
                Some(s) => r is Ok && payloads(r->Ok_0) == attr_map(s),
                None => r is Err && r->Err_0 == NetlinkError::MalformedMessage,
            },
    {
        let attrs = match NetlinkRouteAttr::from(buf) {
            Ok(attrs) => attrs,
            Err(e) => { return Err(e); },
        };
        let mut table: HashMap<u16, Vec<u8>> = HashMap::new();
        let mut i: usize = 0;
        assert(payloads(table) =~= attr_map(trees(attrs@).take(0)));
        while i < attrs.len()
            invariant
                0 <= i <= attrs@.len(),
                payloads(table) == attr_map(trees(attrs@).take(i as int)),
            decreases attrs@.len() - i,
        {
            let attr = &attrs[i];
            let value = vstd::slice::slice_to_vec(attr.value.as_slice());
            proof {
                assert(trees(attrs@).take(i + 1).drop_last() =~= trees(attrs@).take(i as int));
            }
            let ghost before = payloads(table);
            table.insert(attr.rt_attr.rta_type, value);
            assert(payloads(table) =~= before.insert(attr.rt_attr.rta_type, value@));
            i += 1;
        }
        assert(trees(attrs@).take(i as int) =~= trees(attrs@));
        Ok(table)
    }
}

} // verus!
