use vstd::prelude::*;
use crate::objects::{type_id_of, new_id, object, Dyn, ObjMeta, Object, Msg, Request};
use crate::wire::{ser_at, write_at, lemma_write_then, lemma_reverse_add, lemma_skip_step, fixed, Codec, Decoded, Dsr, Fd, Ser};
use super::Obj;

verus! {

/// sets the size of the surface
///
/// Sets the size of the surface in surface-local coordinates. The
/// compositor will display the surface centered with respect to its
/// anchors.
///
/// If you pass 0 for either value, the compositor will assign it and
/// inform you of the assignment in the configure event. You must set your
/// anchor to opposite edges in the dimensions you omit; not doing so is a
/// protocol error. Both values are 0 by default.
///
/// Size is double-buffered, see wl_surface.commit.
///
#[derive(Debug)]
pub struct set_size {
    //
    pub width: u32,
    //
    pub height: u32,
}

impl Ser for set_size {
    open spec fn ser_ok(&self) -> bool {
        &&& self.width.ser_ok()
        &&& self.height.ser_ok()
        &&& self.ser_bytes().len() <= usize::MAX
    }

    open spec fn ser_bytes(&self) -> Seq<u8> {
        self.width.ser_bytes() + self.height.ser_bytes()
    }

    open spec fn ser_fds(&self) -> Seq<Fd> {
        self.width.ser_fds() + self.height.ser_fds()
    }

    fn wire_len(&self) -> (n: usize) {
        self.width.wire_len() + self.height.wire_len()
    }

    fn checked_len(&self) -> (r: Option<usize>) {
        let n0 = match self.width.checked_len() {
            Some(m) => m,
            None => return None,
        };
        let n1 = match self.height.checked_len() {
            Some(m) => match n0.checked_add(m) {
                Some(t) => t,
                None => return None,
            },
            None => return None,
        };
        Some(n1)
    }

    open spec fn ser_fits(&self, cap: int) -> bool {
        &&& 0 <= cap && self.width.ser_fits(cap - (0))
        &&& self.width.ser_bytes().len() <= cap && self.height.ser_fits(cap - (self.width.ser_bytes().len()))
    }

    fn serialize(self, buf: &mut [u8], fds: &mut Vec<Fd>) -> (r: Result<usize, &'static str>) {
        let ghost me = self;
        let ghost b0 = buf@;
        let mut n: usize = 0;
        n = n + ser_at(self.width, buf, n, fds);
        assert(fds@ =~= old(fds)@ + me.width.ser_fds());
        n = n + ser_at(self.height, buf, n, fds);
        proof {
            lemma_write_then(b0, 0, me.width.ser_bytes(), me.height.ser_bytes());
        }
        assert(fds@ =~= old(fds)@ + me.ser_fds());
        Ok(n)
    }

    proof fn lemma_fits(&self, cap: int) {
        self.width.lemma_fits(cap - (0));
        self.height.lemma_fits(cap - (self.width.ser_bytes().len()));
    }
}

impl DeepView for set_size {
    type V = (<u32 as DeepView>::V, <u32 as DeepView>::V,);

    open spec fn deep_view(&self) -> (<u32 as DeepView>::V, <u32 as DeepView>::V,) {
        (self.width.deep_view(), self.height.deep_view(),)
    }
}

impl Dsr for set_size {
    open spec fn dsr_spec(buf: Seq<u8>, fds: Seq<Fd>) -> Decoded<(<u32 as DeepView>::V, <u32 as DeepView>::V,)> {
        match <u32>::dsr_spec(buf, fds) {
            Decoded::Value(width, n0, q0) => {
                match <u32>::dsr_spec(buf.skip(n0 as int), q0) {
                    Decoded::Value(height, m1, q1) => {
                        let n1 = n0 + m1;
                        Decoded::Value((width, height,), n1, q1)
                    },
                    d => d.fail(),
                }
            },
            d => d.fail(),
        }
    }

    fn try_deserialize(buf: &[u8], fds: &mut Vec<Fd>) -> (r: Option<Result<(set_size, usize), &'static str>>) {
        let mut n: usize = 0;
        let rest = &buf[n..buf.len()];
        assert(rest@ =~= buf@.skip(n as int));
        assert(n == 0 ==> rest@ =~= buf@);
        let (width, m) = match <u32>::try_deserialize(rest, fds) {
            Some(Ok(p)) => p,
            Some(Err(e)) => return Some(Err(e)),
            None => return None,
        };
        n = n + m;
        let rest = &buf[n..buf.len()];
        assert(rest@ =~= buf@.skip(n as int));
        assert(n == 0 ==> rest@ =~= buf@);
        let (height, m) = match <u32>::try_deserialize(rest, fds) {
            Some(Ok(p)) => p,
            Some(Err(e)) => return Some(Err(e)),
            None => return None,
        };
        n = n + m;
        Some(Ok((set_size { width, height }, n)))
    }
}

impl Codec for set_size {
    open spec fn rt_ok(&self) -> bool {
        &&& self.width.rt_ok()
        &&& self.height.rt_ok()
    }

    proof fn lemma_roundtrip(&self, tail: Seq<u8>, base: Seq<Fd>) {
        let b0 = self.width.ser_bytes();
        let b1 = self.height.ser_bytes();
        let d0 = self.width.ser_fds();
        let d1 = self.height.ser_fds();
        let s2 = tail;
        let s1 = b1 + s2;
        let s0 = b0 + s1;
        let buf = self.ser_bytes() + tail;
        assert(buf =~= s0);
        assert(buf.skip(0) =~= s0);
        assert(self.ser_fds() =~= Seq::<Fd>::empty());
        assert(base + self.ser_fds().reverse() =~= base);
        assert(d0 =~= Seq::<Fd>::empty());
        assert(base + d0.reverse() =~= base);
        self.width.lemma_roundtrip(s1, base);
        assert(buf.skip((b0.len()) as int) == s1) by {
            lemma_skip_step(buf, (0) as int, b0, s1);
        }
        assert(d1 =~= Seq::<Fd>::empty());
        assert(base + d1.reverse() =~= base);
        self.height.lemma_roundtrip(s2, base);
    }
}

impl set_size {
    /// The arguments are read in the protocol's order, `width`, then `height`: the bytes
    /// and descriptors written for such arguments, one after the other,
    /// decode to exactly those arguments.
    pub proof fn lemma_layout(width: u32, height: u32, rest: Seq<u8>, queue: Seq<Fd>)
        requires
            width.ser_ok(),
            width.rt_ok(),
            height.ser_ok(),
            height.rt_ok(),
            width.ser_bytes().len() + height.ser_bytes().len() <= usize::MAX,
        ensures
            ({
                let bytes = width.ser_bytes() + height.ser_bytes();
                let fds = width.ser_fds() + height.ser_fds();
                set_size::dsr_spec(bytes + rest, queue + fds.reverse()) == Decoded::Value(
                    (width.deep_view(), height.deep_view(),),
                    bytes.len(),
                    queue,
                )
            }),
    {
        let m = set_size { width, height };
        m.lemma_roundtrip(rest, queue);
    }

    /// The message creates no object.
    pub proof fn lemma_creates(&self)
        ensures
            self.created_id() is None,
    {
    }
}

impl Msg<Obj> for set_size {
    open spec fn opcode() -> u16 {
        0
    }

    open spec fn since_version() -> u32 {
        1
    }

    open spec fn created_id(&self) -> Option<u32> {
        None
    }

    open spec fn created_destructor(&self) -> Option<u16> {
        None
    }

    fn op() -> (r: u16) {
        0
    }

    fn since() -> u32 {
        1
    }

    fn new_id(&self) -> (r: Option<(u32, ObjMeta)>) {
        None
    }
}

impl Request<Obj> for set_size {

}

/// configures the anchor point of the surface
///
/// Requests that the compositor anchor the surface to the specified edges
/// and corners. If two orthogonal edges are specified (e.g. 'top' and
/// 'left'), then the anchor point will be the intersection of the edges
/// (e.g. the top left corner of the output); otherwise the anchor point
/// will be centered on that edge, or in the center if none is specified.
///
/// Anchor is double-buffered, see wl_surface.commit.
///
#[derive(Debug)]
pub struct set_anchor {
    //
    pub anchor: super::anchor,
}

impl Ser for set_anchor {
    open spec fn ser_ok(&self) -> bool {
        &&& self.anchor.ser_ok()
        &&& self.ser_bytes().len() <= usize::MAX
    }

    open spec fn ser_bytes(&self) -> Seq<u8> {
        self.anchor.ser_bytes()
    }

    open spec fn ser_fds(&self) -> Seq<Fd> {
        self.anchor.ser_fds()
    }

    fn wire_len(&self) -> (n: usize) {
        self.anchor.wire_len()
    }

    fn checked_len(&self) -> (r: Option<usize>) {
        let n0 = match self.anchor.checked_len() {
            Some(m) => m,
            None => return None,
        };
        Some(n0)
    }

    open spec fn ser_fits(&self, cap: int) -> bool {
        &&& 0 <= cap && self.anchor.ser_fits(cap - (0))
    }

    fn serialize(self, buf: &mut [u8], fds: &mut Vec<Fd>) -> (r: Result<usize, &'static str>) {
        let ghost me = self;
        let ghost b0 = buf@;
        let mut n: usize = 0;
        n = n + ser_at(self.anchor, buf, n, fds);
        assert(fds@ =~= old(fds)@ + me.ser_fds());
        Ok(n)
    }

    proof fn lemma_fits(&self, cap: int) {
        self.anchor.lemma_fits(cap - (0));
    }
}

impl DeepView for set_anchor {
    type V = (<super::anchor as DeepView>::V,);

    open spec fn deep_view(&self) -> (<super::anchor as DeepView>::V,) {
        (self.anchor.deep_view(),)
    }
}

impl Dsr for set_anchor {
    open spec fn dsr_spec(buf: Seq<u8>, fds: Seq<Fd>) -> Decoded<(<super::anchor as DeepView>::V,)> {
        match <super::anchor>::dsr_spec(buf, fds) {
            Decoded::Value(anchor, n0, q0) => Decoded::Value((anchor,), n0, q0),
            d => d.fail(),
        }
    }

    fn try_deserialize(buf: &[u8], fds: &mut Vec<Fd>) -> (r: Option<Result<(set_anchor, usize), &'static str>>) {
        let mut n: usize = 0;
        let rest = &buf[n..buf.len()];
        assert(rest@ =~= buf@.skip(n as int));
        assert(n == 0 ==> rest@ =~= buf@);
        let (anchor, m) = match <super::anchor>::try_deserialize(rest, fds) {
            Some(Ok(p)) => p,
            Some(Err(e)) => return Some(Err(e)),
            None => return None,
        };
        n = n + m;
        Some(Ok((set_anchor { anchor }, n)))
    }
}

impl Codec for set_anchor {
    open spec fn rt_ok(&self) -> bool {
        &&& self.anchor.rt_ok()
    }

    proof fn lemma_roundtrip(&self, tail: Seq<u8>, base: Seq<Fd>) {
        let b0 = self.anchor.ser_bytes();
        let d0 = self.anchor.ser_fds();
        let s1 = tail;
        let s0 = b0 + s1;
        let buf = self.ser_bytes() + tail;
        assert(buf =~= s0);
        assert(buf.skip(0) =~= s0);
        assert(self.ser_fds() =~= Seq::<Fd>::empty());
        assert(base + self.ser_fds().reverse() =~= base);
        assert(d0 =~= Seq::<Fd>::empty());
        assert(base + d0.reverse() =~= base);
        self.anchor.lemma_roundtrip(s1, base);
    }
}

impl set_anchor {
    /// The arguments are read in the protocol's order, `anchor`: the bytes
    /// and descriptors written for such arguments, one after the other,
    /// decode to exactly those arguments.
    pub proof fn lemma_layout(anchor: super::anchor, rest: Seq<u8>, queue: Seq<Fd>)
        requires
            anchor.ser_ok(),
            anchor.rt_ok(),
            anchor.ser_bytes().len() <= usize::MAX,
        ensures
            ({
                let bytes = anchor.ser_bytes();
                let fds = anchor.ser_fds();
                set_anchor::dsr_spec(bytes + rest, queue + fds.reverse()) == Decoded::Value(
                    (anchor.deep_view(),),
                    bytes.len(),
                    queue,
                )
            }),
    {
        let m = set_anchor { anchor };
        m.lemma_roundtrip(rest, queue);
    }

    /// The message creates no object.
    pub proof fn lemma_creates(&self)
        ensures
            self.created_id() is None,
    {
    }
}

impl Msg<Obj> for set_anchor {
    open spec fn opcode() -> u16 {
        1
    }

    open spec fn since_version() -> u32 {
        1
    }

    open spec fn created_id(&self) -> Option<u32> {
        None
    }

    open spec fn created_destructor(&self) -> Option<u16> {
        None
    }

    fn op() -> (r: u16) {
        1
    }

    fn since() -> u32 {
        1
    }

    fn new_id(&self) -> (r: Option<(u32, ObjMeta)>) {
        None
    }
}

impl Request<Obj> for set_anchor {

}

/// configures the exclusive geometry of this surface
///
/// Requests that the compositor avoids occluding an area with other
/// surfaces. The compositor's use of this information is
/// implementation-dependent - do not assume that this region will not
/// actually be occluded.
///
/// A positive value is only meaningful if the surface is anchored to one
/// edge or an edge and both perpendicular edges. If the surface is not
/// anchored, anchored to only two perpendicular edges (a corner), anchored
/// to only two parallel edges or anchored to all edges, a positive value
/// will be treated the same as zero.
///
/// A positive zone is the distance from the edge in surface-local
/// coordinates to consider exclusive.
///
/// Surfaces that do not wish to have an exclusive zone may instead specify
/// how they should interact with surfaces that do. If set to zero, the
/// surface indicates that it would like to be moved to avoid occluding
/// surfaces with a positive exclusive zone. If set to -1, the surface
/// indicates that it would not like to be moved to accommodate for other
/// surfaces, and the compositor should extend it all the way to the edges
/// it is anchored to.
///
/// For example, a panel might set its exclusive zone to 10, so that
/// maximized shell surfaces are not shown on top of it. A notification
/// might set its exclusive zone to 0, so that it is moved to avoid
/// occluding the panel, but shell surfaces are shown underneath it. A
/// wallpaper or lock screen might set their exclusive zone to -1, so that
/// they stretch below or over the panel.
///
/// The default value is 0.
///
/// Exclusive zone is double-buffered, see wl_surface.commit.
///
#[derive(Debug)]
pub struct set_exclusive_zone {
    //
    pub zone: i32,
}

impl Ser for set_exclusive_zone {
    open spec fn ser_ok(&self) -> bool {
        &&& self.zone.ser_ok()
        &&& self.ser_bytes().len() <= usize::MAX
    }

    open spec fn ser_bytes(&self) -> Seq<u8> {
        self.zone.ser_bytes()
    }

    open spec fn ser_fds(&self) -> Seq<Fd> {
        self.zone.ser_fds()
    }

    fn wire_len(&self) -> (n: usize) {
        self.zone.wire_len()
    }

    fn checked_len(&self) -> (r: Option<usize>) {
        let n0 = match self.zone.checked_len() {
            Some(m) => m,
            None => return None,
        };
        Some(n0)
    }

    open spec fn ser_fits(&self, cap: int) -> bool {
        &&& 0 <= cap && self.zone.ser_fits(cap - (0))
    }

    fn serialize(self, buf: &mut [u8], fds: &mut Vec<Fd>) -> (r: Result<usize, &'static str>) {
        let ghost me = self;
        let ghost b0 = buf@;
        let mut n: usize = 0;
        n = n + ser_at(self.zone, buf, n, fds);
        assert(fds@ =~= old(fds)@ + me.ser_fds());
        Ok(n)
    }

    proof fn lemma_fits(&self, cap: int) {
        self.zone.lemma_fits(cap - (0));
    }
}

impl DeepView for set_exclusive_zone {
    type V = (<i32 as DeepView>::V,);

    open spec fn deep_view(&self) -> (<i32 as DeepView>::V,) {
        (self.zone.deep_view(),)
    }
}

impl Dsr for set_exclusive_zone {
    open spec fn dsr_spec(buf: Seq<u8>, fds: Seq<Fd>) -> Decoded<(<i32 as DeepView>::V,)> {
        match <i32>::dsr_spec(buf, fds) {
            Decoded::Value(zone, n0, q0) => Decoded::Value((zone,), n0, q0),
            d => d.fail(),
        }
    }

    fn try_deserialize(buf: &[u8], fds: &mut Vec<Fd>) -> (r: Option<Result<(set_exclusive_zone, usize), &'static str>>) {
        let mut n: usize = 0;
        let rest = &buf[n..buf.len()];
        assert(rest@ =~= buf@.skip(n as int));
        assert(n == 0 ==> rest@ =~= buf@);
        let (zone, m) = match <i32>::try_deserialize(rest, fds) {
            Some(Ok(p)) => p,
            Some(Err(e)) => return Some(Err(e)),
            None => return None,
        };
        n = n + m;
        Some(Ok((set_exclusive_zone { zone }, n)))
    }
}

impl Codec for set_exclusive_zone {
    open spec fn rt_ok(&self) -> bool {
        &&& self.zone.rt_ok()
    }

    proof fn lemma_roundtrip(&self, tail: Seq<u8>, base: Seq<Fd>) {
        let b0 = self.zone.ser_bytes();
        let d0 = self.zone.ser_fds();
        let s1 = tail;
        let s0 = b0 + s1;
        let buf = self.ser_bytes() + tail;
        assert(buf =~= s0);
        assert(buf.skip(0) =~= s0);
        assert(self.ser_fds() =~= Seq::<Fd>::empty());
        assert(base + self.ser_fds().reverse() =~= base);
        assert(d0 =~= Seq::<Fd>::empty());
        assert(base + d0.reverse() =~= base);
        self.zone.lemma_roundtrip(s1, base);
    }
}

impl set_exclusive_zone {
    /// The arguments are read in the protocol's order, `zone`: the bytes
    /// and descriptors written for such arguments, one after the other,
    /// decode to exactly those arguments.
    pub proof fn lemma_layout(zone: i32, rest: Seq<u8>, queue: Seq<Fd>)
        requires
            zone.ser_ok(),
            zone.rt_ok(),
            zone.ser_bytes().len() <= usize::MAX,
        ensures
            ({
                let bytes = zone.ser_bytes();
                let fds = zone.ser_fds();
                set_exclusive_zone::dsr_spec(bytes + rest, queue + fds.reverse()) == Decoded::Value(
                    (zone.deep_view(),),
                    bytes.len(),
                    queue,
                )
            }),
    {
        let m = set_exclusive_zone { zone };
        m.lemma_roundtrip(rest, queue);
    }

    /// The message creates no object.
    pub proof fn lemma_creates(&self)
        ensures
            self.created_id() is None,
    {
    }
}

impl Msg<Obj> for set_exclusive_zone {
    open spec fn opcode() -> u16 {
        2
    }

    open spec fn since_version() -> u32 {
        1
    }

    open spec fn created_id(&self) -> Option<u32> {
        None
    }

    open spec fn created_destructor(&self) -> Option<u16> {
        None
    }

    fn op() -> (r: u16) {
        2
    }

    fn since() -> u32 {
        1
    }

    fn new_id(&self) -> (r: Option<(u32, ObjMeta)>) {
        None
    }
}

impl Request<Obj> for set_exclusive_zone {

}

/// sets a margin from the anchor point
///
/// Requests that the surface be placed some distance away from the anchor
/// point on the output, in surface-local coordinates. Setting this value
/// for edges you are not anchored to has no effect.
///
/// The exclusive zone includes the margin.
///
/// Margin is double-buffered, see wl_surface.commit.
///
#[derive(Debug)]
pub struct set_margin {
    //
    pub top: i32,
    //
    pub right: i32,
    //
    pub bottom: i32,
    //
    pub left: i32,
}

impl Ser for set_margin {
    open spec fn ser_ok(&self) -> bool {
        &&& self.top.ser_ok()
        &&& self.right.ser_ok()
        &&& self.bottom.ser_ok()
        &&& self.left.ser_ok()
        &&& self.ser_bytes().len() <= usize::MAX
    }

    open spec fn ser_bytes(&self) -> Seq<u8> {
        self.top.ser_bytes() + self.right.ser_bytes() + self.bottom.ser_bytes() + self.left.ser_bytes()
    }

    open spec fn ser_fds(&self) -> Seq<Fd> {
        self.top.ser_fds() + self.right.ser_fds() + self.bottom.ser_fds() + self.left.ser_fds()
    }

    fn wire_len(&self) -> (n: usize) {
        self.top.wire_len() + self.right.wire_len() + self.bottom.wire_len() + self.left.wire_len()
    }

    fn checked_len(&self) -> (r: Option<usize>) {
        let n0 = match self.top.checked_len() {
            Some(m) => m,
            None => return None,
        };
        let n1 = match self.right.checked_len() {
            Some(m) => match n0.checked_add(m) {
                Some(t) => t,
                None => return None,
            },
            None => return None,
        };
        let n2 = match self.bottom.checked_len() {
            Some(m) => match n1.checked_add(m) {
                Some(t) => t,
                None => return None,
            },
            None => return None,
        };
        let n3 = match self.left.checked_len() {
            Some(m) => match n2.checked_add(m) {
                Some(t) => t,
                None => return None,
            },
            None => return None,
        };
        Some(n3)
    }

    open spec fn ser_fits(&self, cap: int) -> bool {
        &&& 0 <= cap && self.top.ser_fits(cap - (0))
        &&& self.top.ser_bytes().len() <= cap && self.right.ser_fits(cap - (self.top.ser_bytes().len()))
        &&& self.top.ser_bytes().len() + self.right.ser_bytes().len() <= cap && self.bottom.ser_fits(cap - (self.top.ser_bytes().len() + self.right.ser_bytes().len()))
        &&& self.top.ser_bytes().len() + self.right.ser_bytes().len() + self.bottom.ser_bytes().len() <= cap && self.left.ser_fits(cap - (self.top.ser_bytes().len() + self.right.ser_bytes().len() + self.bottom.ser_bytes().len()))
    }

    fn serialize(self, buf: &mut [u8], fds: &mut Vec<Fd>) -> (r: Result<usize, &'static str>) {
        let ghost me = self;
        let ghost b0 = buf@;
        let mut n: usize = 0;
        n = n + ser_at(self.top, buf, n, fds);
        assert(fds@ =~= old(fds)@ + me.top.ser_fds());
        n = n + ser_at(self.right, buf, n, fds);
        proof {
            lemma_write_then(b0, 0, me.top.ser_bytes(), me.right.ser_bytes());
        }
        assert(fds@ =~= old(fds)@ + me.top.ser_fds() + me.right.ser_fds());
        n = n + ser_at(self.bottom, buf, n, fds);
        proof {
            lemma_write_then(b0, 0, me.top.ser_bytes() + me.right.ser_bytes(), me.bottom.ser_bytes());
        }
        assert(fds@ =~= old(fds)@ + me.top.ser_fds() + me.right.ser_fds() + me.bottom.ser_fds());
        n = n + ser_at(self.left, buf, n, fds);
        proof {
            lemma_write_then(b0, 0, me.top.ser_bytes() + me.right.ser_bytes() + me.bottom.ser_bytes(), me.left.ser_bytes());
        }
        assert(fds@ =~= old(fds)@ + me.ser_fds());
        Ok(n)
    }

    proof fn lemma_fits(&self, cap: int) {
        self.top.lemma_fits(cap - (0));
        self.right.lemma_fits(cap - (self.top.ser_bytes().len()));
        self.bottom.lemma_fits(cap - (self.top.ser_bytes().len() + self.right.ser_bytes().len()));
        self.left.lemma_fits(cap - (self.top.ser_bytes().len() + self.right.ser_bytes().len() + self.bottom.ser_bytes().len()));
    }
}

impl DeepView for set_margin {
    type V = (<i32 as DeepView>::V, <i32 as DeepView>::V, <i32 as DeepView>::V, <i32 as DeepView>::V,);

    open spec fn deep_view(&self) -> (<i32 as DeepView>::V, <i32 as DeepView>::V, <i32 as DeepView>::V, <i32 as DeepView>::V,) {
        (self.top.deep_view(), self.right.deep_view(), self.bottom.deep_view(), self.left.deep_view(),)
    }
}

impl Dsr for set_margin {
    open spec fn dsr_spec(buf: Seq<u8>, fds: Seq<Fd>) -> Decoded<(<i32 as DeepView>::V, <i32 as DeepView>::V, <i32 as DeepView>::V, <i32 as DeepView>::V,)> {
        match <i32>::dsr_spec(buf, fds) {
            Decoded::Value(top, n0, q0) => {
                match <i32>::dsr_spec(buf.skip(n0 as int), q0) {
                    Decoded::Value(right, m1, q1) => {
                        let n1 = n0 + m1;
                        match <i32>::dsr_spec(buf.skip(n1 as int), q1) {
                            Decoded::Value(bottom, m2, q2) => {
                                let n2 = n1 + m2;
                                match <i32>::dsr_spec(buf.skip(n2 as int), q2) {
                                    Decoded::Value(left, m3, q3) => {
                                        let n3 = n2 + m3;
                                        Decoded::Value((top, right, bottom, left,), n3, q3)
                                    },
                                    d => d.fail(),
                                }
                            },
                            d => d.fail(),
                        }
                    },
                    d => d.fail(),
                }
            },
            d => d.fail(),
        }
    }

    fn try_deserialize(buf: &[u8], fds: &mut Vec<Fd>) -> (r: Option<Result<(set_margin, usize), &'static str>>) {
        let mut n: usize = 0;
        let rest = &buf[n..buf.len()];
        assert(rest@ =~= buf@.skip(n as int));
        assert(n == 0 ==> rest@ =~= buf@);
        let (top, m) = match <i32>::try_deserialize(rest, fds) {
            Some(Ok(p)) => p,
            Some(Err(e)) => return Some(Err(e)),
            None => return None,
        };
        n = n + m;
        let rest = &buf[n..buf.len()];
        assert(rest@ =~= buf@.skip(n as int));
        assert(n == 0 ==> rest@ =~= buf@);
        let (right, m) = match <i32>::try_deserialize(rest, fds) {
            Some(Ok(p)) => p,
            Some(Err(e)) => return Some(Err(e)),
            None => return None,
        };
        n = n + m;
        let rest = &buf[n..buf.len()];
        assert(rest@ =~= buf@.skip(n as int));
        assert(n == 0 ==> rest@ =~= buf@);
        let (bottom, m) = match <i32>::try_deserialize(rest, fds) {
            Some(Ok(p)) => p,
            Some(Err(e)) => return Some(Err(e)),
            None => return None,
        };
        n = n + m;
        let rest = &buf[n..buf.len()];
        assert(rest@ =~= buf@.skip(n as int));
        assert(n == 0 ==> rest@ =~= buf@);
        let (left, m) = match <i32>::try_deserialize(rest, fds) {
            Some(Ok(p)) => p,
            Some(Err(e)) => return Some(Err(e)),
            None => return None,
        };
        n = n + m;
        Some(Ok((set_margin { top, right, bottom, left }, n)))
    }
}

impl Codec for set_margin {
    open spec fn rt_ok(&self) -> bool {
        &&& self.top.rt_ok()
        &&& self.right.rt_ok()
        &&& self.bottom.rt_ok()
        &&& self.left.rt_ok()
    }

    proof fn lemma_roundtrip(&self, tail: Seq<u8>, base: Seq<Fd>) {
        let b0 = self.top.ser_bytes();
        let b1 = self.right.ser_bytes();
        let b2 = self.bottom.ser_bytes();
        let b3 = self.left.ser_bytes();
        let d0 = self.top.ser_fds();
        let d1 = self.right.ser_fds();
        let d2 = self.bottom.ser_fds();
        let d3 = self.left.ser_fds();
        let s4 = tail;
        let s3 = b3 + s4;
        let s2 = b2 + s3;
        let s1 = b1 + s2;
        let s0 = b0 + s1;
        let buf = self.ser_bytes() + tail;
        assert(buf =~= s0);
        assert(buf.skip(0) =~= s0);
        assert(self.ser_fds() =~= Seq::<Fd>::empty());
        assert(base + self.ser_fds().reverse() =~= base);
        assert(d0 =~= Seq::<Fd>::empty());
        assert(base + d0.reverse() =~= base);
        self.top.lemma_roundtrip(s1, base);
        assert(buf.skip((b0.len()) as int) == s1) by {
            lemma_skip_step(buf, (0) as int, b0, s1);
        }
        assert(d1 =~= Seq::<Fd>::empty());
        assert(base + d1.reverse() =~= base);
        self.right.lemma_roundtrip(s2, base);
        assert(buf.skip((b0.len() + b1.len()) as int) == s2) by {
            lemma_skip_step(buf, (b0.len()) as int, b1, s2);
        }
        assert(d2 =~= Seq::<Fd>::empty());
        assert(base + d2.reverse() =~= base);
        self.bottom.lemma_roundtrip(s3, base);
        assert(buf.skip((b0.len() + b1.len() + b2.len()) as int) == s3) by {
            lemma_skip_step(buf, (b0.len() + b1.len()) as int, b2, s3);
        }
        assert(d3 =~= Seq::<Fd>::empty());
        assert(base + d3.reverse() =~= base);
        self.left.lemma_roundtrip(s4, base);
    }
}

impl set_margin {
    /// The arguments are read in the protocol's order, `top`, then `right`, then `bottom`, then `left`: the bytes
    /// and descriptors written for such arguments, one after the other,
    /// decode to exactly those arguments.
    pub proof fn lemma_layout(top: i32, right: i32, bottom: i32, left: i32, rest: Seq<u8>, queue: Seq<Fd>)
        requires
            top.ser_ok(),
            top.rt_ok(),
            right.ser_ok(),
            right.rt_ok(),
            bottom.ser_ok(),
            bottom.rt_ok(),
            left.ser_ok(),
            left.rt_ok(),
            top.ser_bytes().len() + right.ser_bytes().len() + bottom.ser_bytes().len() + left.ser_bytes().len() <= usize::MAX,
        ensures
            ({
                let bytes = top.ser_bytes() + right.ser_bytes() + bottom.ser_bytes() + left.ser_bytes();
                let fds = top.ser_fds() + right.ser_fds() + bottom.ser_fds() + left.ser_fds();
                set_margin::dsr_spec(bytes + rest, queue + fds.reverse()) == Decoded::Value(
                    (top.deep_view(), right.deep_view(), bottom.deep_view(), left.deep_view(),),
                    bytes.len(),
                    queue,
                )
            }),
    {
        let m = set_margin { top, right, bottom, left };
        m.lemma_roundtrip(rest, queue);
    }

    /// The message creates no object.
    pub proof fn lemma_creates(&self)
        ensures
            self.created_id() is None,
    {
    }
}

impl Msg<Obj> for set_margin {
    open spec fn opcode() -> u16 {
        3
    }

    open spec fn since_version() -> u32 {
        1
    }

    open spec fn created_id(&self) -> Option<u32> {
        None
    }

    open spec fn created_destructor(&self) -> Option<u16> {
        None
    }

    fn op() -> (r: u16) {
        3
    }

    fn since() -> u32 {
        1
    }

    fn new_id(&self) -> (r: Option<(u32, ObjMeta)>) {
        None
    }
}

impl Request<Obj> for set_margin {

}

/// requests keyboard events
///
/// Set how keyboard events are delivered to this surface. By default,
/// layer shell surfaces do not receive keyboard events; this request can
/// be used to change this.
///
/// This setting is inherited by child surfaces set by the get_popup
/// request.
///
/// Layer surfaces receive pointer, touch, and tablet events normally. If
/// you do not want to receive them, set the input region on your surface
/// to an empty region.
///
/// Keyboard interactivity is double-buffered, see wl_surface.commit.
///
#[derive(Debug)]
pub struct set_keyboard_interactivity {
    //
    pub keyboard_interactivity: super::keyboard_interactivity,
}

impl Ser for set_keyboard_interactivity {
    open spec fn ser_ok(&self) -> bool {
        &&& self.keyboard_interactivity.ser_ok()
        &&& self.ser_bytes().len() <= usize::MAX
    }

    open spec fn ser_bytes(&self) -> Seq<u8> {
        self.keyboard_interactivity.ser_bytes()
    }

    open spec fn ser_fds(&self) -> Seq<Fd> {
        self.keyboard_interactivity.ser_fds()
    }

    fn wire_len(&self) -> (n: usize) {
        self.keyboard_interactivity.wire_len()
    }

    fn checked_len(&self) -> (r: Option<usize>) {
        let n0 = match self.keyboard_interactivity.checked_len() {
            Some(m) => m,
            None => return None,
        };
        Some(n0)
    }

    open spec fn ser_fits(&self, cap: int) -> bool {
        &&& 0 <= cap && self.keyboard_interactivity.ser_fits(cap - (0))
    }

    fn serialize(self, buf: &mut [u8], fds: &mut Vec<Fd>) -> (r: Result<usize, &'static str>) {
        let ghost me = self;
        let ghost b0 = buf@;
        let mut n: usize = 0;
        n = n + ser_at(self.keyboard_interactivity, buf, n, fds);
        assert(fds@ =~= old(fds)@ + me.ser_fds());
        Ok(n)
    }

    proof fn lemma_fits(&self, cap: int) {
        self.keyboard_interactivity.lemma_fits(cap - (0));
    }
}

impl DeepView for set_keyboard_interactivity {
    type V = (<super::keyboard_interactivity as DeepView>::V,);

    open spec fn deep_view(&self) -> (<super::keyboard_interactivity as DeepView>::V,) {
        (self.keyboard_interactivity.deep_view(),)
    }
}

impl Dsr for set_keyboard_interactivity {
    open spec fn dsr_spec(buf: Seq<u8>, fds: Seq<Fd>) -> Decoded<(<super::keyboard_interactivity as DeepView>::V,)> {
        match <super::keyboard_interactivity>::dsr_spec(buf, fds) {
            Decoded::Value(keyboard_interactivity, n0, q0) => Decoded::Value((keyboard_interactivity,), n0, q0),
            d => d.fail(),
        }
    }

    fn try_deserialize(buf: &[u8], fds: &mut Vec<Fd>) -> (r: Option<Result<(set_keyboard_interactivity, usize), &'static str>>) {
        let mut n: usize = 0;
        let rest = &buf[n..buf.len()];
        assert(rest@ =~= buf@.skip(n as int));
        assert(n == 0 ==> rest@ =~= buf@);
        let (keyboard_interactivity, m) = match <super::keyboard_interactivity>::try_deserialize(rest, fds) {
            Some(Ok(p)) => p,
            Some(Err(e)) => return Some(Err(e)),
            None => return None,
        };
        n = n + m;
        Some(Ok((set_keyboard_interactivity { keyboard_interactivity }, n)))
    }
}

impl Codec for set_keyboard_interactivity {
    open spec fn rt_ok(&self) -> bool {
        &&& self.keyboard_interactivity.rt_ok()
    }

    proof fn lemma_roundtrip(&self, tail: Seq<u8>, base: Seq<Fd>) {
        let b0 = self.keyboard_interactivity.ser_bytes();
        let d0 = self.keyboard_interactivity.ser_fds();
        let s1 = tail;
        let s0 = b0 + s1;
        let buf = self.ser_bytes() + tail;
        assert(buf =~= s0);
        assert(buf.skip(0) =~= s0);
        assert(self.ser_fds() =~= Seq::<Fd>::empty());
        assert(base + self.ser_fds().reverse() =~= base);
        assert(d0 =~= Seq::<Fd>::empty());
        assert(base + d0.reverse() =~= base);
        self.keyboard_interactivity.lemma_roundtrip(s1, base);
    }
}

impl set_keyboard_interactivity {
    /// The arguments are read in the protocol's order, `keyboard_interactivity`: the bytes
    /// and descriptors written for such arguments, one after the other,
    /// decode to exactly those arguments.
    pub proof fn lemma_layout(keyboard_interactivity: super::keyboard_interactivity, rest: Seq<u8>, queue: Seq<Fd>)
        requires
            keyboard_interactivity.ser_ok(),
            keyboard_interactivity.rt_ok(),
            keyboard_interactivity.ser_bytes().len() <= usize::MAX,
        ensures
            ({
                let bytes = keyboard_interactivity.ser_bytes();
                let fds = keyboard_interactivity.ser_fds();
                set_keyboard_interactivity::dsr_spec(bytes + rest, queue + fds.reverse()) == Decoded::Value(
                    (keyboard_interactivity.deep_view(),),
                    bytes.len(),
                    queue,
                )
            }),
    {
        let m = set_keyboard_interactivity { keyboard_interactivity };
        m.lemma_roundtrip(rest, queue);
    }

    /// The message creates no object.
    pub proof fn lemma_creates(&self)
        ensures
            self.created_id() is None,
    {
    }
}

impl Msg<Obj> for set_keyboard_interactivity {
    open spec fn opcode() -> u16 {
        4
    }

    open spec fn since_version() -> u32 {
        1
    }

    open spec fn created_id(&self) -> Option<u32> {
        None
    }

    open spec fn created_destructor(&self) -> Option<u16> {
        None
    }

    fn op() -> (r: u16) {
        4
    }

    fn since() -> u32 {
        1
    }

    fn new_id(&self) -> (r: Option<(u32, ObjMeta)>) {
        None
    }
}

impl Request<Obj> for set_keyboard_interactivity {

}

/// assign this layer_surface as an xdg_popup parent
///
/// This assigns an xdg_popup's parent to this layer_surface.  This popup
/// should have been created via xdg_surface::get_popup with the parent set
/// to NULL, and this request must be invoked before committing the popup's
/// initial state.
///
/// See the documentation of xdg_popup for more details about what an
/// xdg_popup is and how it is used.
///
#[derive(Debug)]
pub struct get_popup {
    //
    pub popup: object<crate::xdg_popup::Obj>,
}

impl Ser for get_popup {
    open spec fn ser_ok(&self) -> bool {
        &&& self.popup.ser_ok()
        &&& self.ser_bytes().len() <= usize::MAX
    }

    open spec fn ser_bytes(&self) -> Seq<u8> {
        self.popup.ser_bytes()
    }

    open spec fn ser_fds(&self) -> Seq<Fd> {
        self.popup.ser_fds()
    }

    fn wire_len(&self) -> (n: usize) {
        self.popup.wire_len()
    }

    fn checked_len(&self) -> (r: Option<usize>) {
        let n0 = match self.popup.checked_len() {
            Some(m) => m,
            None => return None,
        };
        Some(n0)
    }

    open spec fn ser_fits(&self, cap: int) -> bool {
        &&& 0 <= cap && self.popup.ser_fits(cap - (0))
    }

    fn serialize(self, buf: &mut [u8], fds: &mut Vec<Fd>) -> (r: Result<usize, &'static str>) {
        let ghost me = self;
        let ghost b0 = buf@;
        let mut n: usize = 0;
        n = n + ser_at(self.popup, buf, n, fds);
        assert(fds@ =~= old(fds)@ + me.ser_fds());
        Ok(n)
    }

    proof fn lemma_fits(&self, cap: int) {
        self.popup.lemma_fits(cap - (0));
    }
}

impl DeepView for get_popup {
    type V = (<object<crate::xdg_popup::Obj> as DeepView>::V,);

    open spec fn deep_view(&self) -> (<object<crate::xdg_popup::Obj> as DeepView>::V,) {
        (self.popup.deep_view(),)
    }
}

impl Dsr for get_popup {
    open spec fn dsr_spec(buf: Seq<u8>, fds: Seq<Fd>) -> Decoded<(<object<crate::xdg_popup::Obj> as DeepView>::V,)> {
        match <object<crate::xdg_popup::Obj>>::dsr_spec(buf, fds) {
            Decoded::Value(popup, n0, q0) => Decoded::Value((popup,), n0, q0),
            d => d.fail(),
        }
    }

    fn try_deserialize(buf: &[u8], fds: &mut Vec<Fd>) -> (r: Option<Result<(get_popup, usize), &'static str>>) {
        let mut n: usize = 0;
        let rest = &buf[n..buf.len()];
        assert(rest@ =~= buf@.skip(n as int));
        assert(n == 0 ==> rest@ =~= buf@);
        let (popup, m) = match <object<crate::xdg_popup::Obj>>::try_deserialize(rest, fds) {
            Some(Ok(p)) => p,
            Some(Err(e)) => return Some(Err(e)),
            None => return None,
        };
        n = n + m;
        Some(Ok((get_popup { popup }, n)))
    }
}

impl Codec for get_popup {
    open spec fn rt_ok(&self) -> bool {
        &&& self.popup.rt_ok()
    }

    proof fn lemma_roundtrip(&self, tail: Seq<u8>, base: Seq<Fd>) {
        let b0 = self.popup.ser_bytes();
        let d0 = self.popup.ser_fds();
        let s1 = tail;
        let s0 = b0 + s1;
        let buf = self.ser_bytes() + tail;
        assert(buf =~= s0);
        assert(buf.skip(0) =~= s0);
        assert(self.ser_fds() =~= Seq::<Fd>::empty());
        assert(base + self.ser_fds().reverse() =~= base);
        assert(d0 =~= Seq::<Fd>::empty());
        assert(base + d0.reverse() =~= base);
        self.popup.lemma_roundtrip(s1, base);
    }
}

impl get_popup {
    /// The arguments are read in the protocol's order, `popup`: the bytes
    /// and descriptors written for such arguments, one after the other,
    /// decode to exactly those arguments.
    pub proof fn lemma_layout(popup: object<crate::xdg_popup::Obj>, rest: Seq<u8>, queue: Seq<Fd>)
        requires
            popup.ser_ok(),
            popup.rt_ok(),
            popup.ser_bytes().len() <= usize::MAX,
        ensures
            ({
                let bytes = popup.ser_bytes();
                let fds = popup.ser_fds();
                get_popup::dsr_spec(bytes + rest, queue + fds.reverse()) == Decoded::Value(
                    (popup.deep_view(),),
                    bytes.len(),
                    queue,
                )
            }),
    {
        let m = get_popup { popup };
        m.lemma_roundtrip(rest, queue);
    }

    /// The message creates no object.
    pub proof fn lemma_creates(&self)
        ensures
            self.created_id() is None,
    {
    }
}

impl Msg<Obj> for get_popup {
    open spec fn opcode() -> u16 {
        5
    }

    open spec fn since_version() -> u32 {
        1
    }

    open spec fn created_id(&self) -> Option<u32> {
        None
    }

    open spec fn created_destructor(&self) -> Option<u16> {
        None
    }

    fn op() -> (r: u16) {
        5
    }

    fn since() -> u32 {
        1
    }

    fn new_id(&self) -> (r: Option<(u32, ObjMeta)>) {
        None
    }
}

impl Request<Obj> for get_popup {

}

/// ack a configure event
///
/// When a configure event is received, if a client commits the
/// surface in response to the configure event, then the client
/// must make an ack_configure request sometime before the commit
/// request, passing along the serial of the configure event.
///
/// If the client receives multiple configure events before it
/// can respond to one, it only has to ack the last configure event.
///
/// A client is not required to commit immediately after sending
/// an ack_configure request - it may even ack_configure several times
/// before its next surface commit.
///
/// A client may send multiple ack_configure requests before committing, but
/// only the last request sent before a commit indicates which configure
/// event the client really is responding to.
///
#[derive(Debug)]
pub struct ack_configure {
    // the serial from the configure event
    pub serial: u32,
}

impl Ser for ack_configure {
    open spec fn ser_ok(&self) -> bool {
        &&& self.serial.ser_ok()
        &&& self.ser_bytes().len() <= usize::MAX
    }

    open spec fn ser_bytes(&self) -> Seq<u8> {
        self.serial.ser_bytes()
    }

    open spec fn ser_fds(&self) -> Seq<Fd> {
        self.serial.ser_fds()
    }

    fn wire_len(&self) -> (n: usize) {
        self.serial.wire_len()
    }

    fn checked_len(&self) -> (r: Option<usize>) {
        let n0 = match self.serial.checked_len() {
            Some(m) => m,
            None => return None,
        };
        Some(n0)
    }

    open spec fn ser_fits(&self, cap: int) -> bool {
        &&& 0 <= cap && self.serial.ser_fits(cap - (0))
    }

    fn serialize(self, buf: &mut [u8], fds: &mut Vec<Fd>) -> (r: Result<usize, &'static str>) {
        let ghost me = self;
        let ghost b0 = buf@;
        let mut n: usize = 0;
        n = n + ser_at(self.serial, buf, n, fds);
        assert(fds@ =~= old(fds)@ + me.ser_fds());
        Ok(n)
    }

    proof fn lemma_fits(&self, cap: int) {
        self.serial.lemma_fits(cap - (0));
    }
}

impl DeepView for ack_configure {
    type V = (<u32 as DeepView>::V,);

    open spec fn deep_view(&self) -> (<u32 as DeepView>::V,) {
        (self.serial.deep_view(),)
    }
}

impl Dsr for ack_configure {
    open spec fn dsr_spec(buf: Seq<u8>, fds: Seq<Fd>) -> Decoded<(<u32 as DeepView>::V,)> {
        match <u32>::dsr_spec(buf, fds) {
            Decoded::Value(serial, n0, q0) => Decoded::Value((serial,), n0, q0),
            d => d.fail(),
        }
    }

    fn try_deserialize(buf: &[u8], fds: &mut Vec<Fd>) -> (r: Option<Result<(ack_configure, usize), &'static str>>) {
        let mut n: usize = 0;
        let rest = &buf[n..buf.len()];
        assert(rest@ =~= buf@.skip(n as int));
        assert(n == 0 ==> rest@ =~= buf@);
        let (serial, m) = match <u32>::try_deserialize(rest, fds) {
            Some(Ok(p)) => p,
            Some(Err(e)) => return Some(Err(e)),
            None => return None,
        };
        n = n + m;
        Some(Ok((ack_configure { serial }, n)))
    }
}

impl Codec for ack_configure {
    open spec fn rt_ok(&self) -> bool {
        &&& self.serial.rt_ok()
    }

    proof fn lemma_roundtrip(&self, tail: Seq<u8>, base: Seq<Fd>) {
        let b0 = self.serial.ser_bytes();
        let d0 = self.serial.ser_fds();
        let s1 = tail;
        let s0 = b0 + s1;
        let buf = self.ser_bytes() + tail;
        assert(buf =~= s0);
        assert(buf.skip(0) =~= s0);
        assert(self.ser_fds() =~= Seq::<Fd>::empty());
        assert(base + self.ser_fds().reverse() =~= base);
        assert(d0 =~= Seq::<Fd>::empty());
        assert(base + d0.reverse() =~= base);
        self.serial.lemma_roundtrip(s1, base);
    }
}

impl ack_configure {
    /// The arguments are read in the protocol's order, `serial`: the bytes
    /// and descriptors written for such arguments, one after the other,
    /// decode to exactly those arguments.
    pub proof fn lemma_layout(serial: u32, rest: Seq<u8>, queue: Seq<Fd>)
        requires
            serial.ser_ok(),
            serial.rt_ok(),
            serial.ser_bytes().len() <= usize::MAX,
        ensures
            ({
                let bytes = serial.ser_bytes();
                let fds = serial.ser_fds();
                ack_configure::dsr_spec(bytes + rest, queue + fds.reverse()) == Decoded::Value(
                    (serial.deep_view(),),
                    bytes.len(),
                    queue,
                )
            }),
    {
        let m = ack_configure { serial };
        m.lemma_roundtrip(rest, queue);
    }

    /// The message creates no object.
    pub proof fn lemma_creates(&self)
        ensures
            self.created_id() is None,
    {
    }
}

impl Msg<Obj> for ack_configure {
    open spec fn opcode() -> u16 {
        6
    }

    open spec fn since_version() -> u32 {
        1
    }

    open spec fn created_id(&self) -> Option<u32> {
        None
    }

    open spec fn created_destructor(&self) -> Option<u16> {
        None
    }

    fn op() -> (r: u16) {
        6
    }

    fn since() -> u32 {
        1
    }

    fn new_id(&self) -> (r: Option<(u32, ObjMeta)>) {
        None
    }
}

impl Request<Obj> for ack_configure {

}

/// destroy the layer_surface
///
/// This request destroys the layer surface.
///
#[derive(Debug)]
pub struct destroy {}

impl Ser for destroy {
    open spec fn ser_ok(&self) -> bool {
        true
    }

    open spec fn ser_bytes(&self) -> Seq<u8> {
        Seq::empty()
    }

    open spec fn ser_fds(&self) -> Seq<Fd> {
        Seq::empty()
    }

    fn wire_len(&self) -> (n: usize) {
        0
    }

    fn checked_len(&self) -> (r: Option<usize>) {
        Some(0)
    }

    open spec fn ser_fits(&self, cap: int) -> bool {
        true
    }

    fn serialize(self, buf: &mut [u8], fds: &mut Vec<Fd>) -> (r: Result<usize, &'static str>) {
        assert(buf@ =~= write_at(old(buf)@, 0, Seq::<u8>::empty()));
        assert(fds@ =~= old(fds)@ + Seq::<Fd>::empty());
        Ok(0)
    }

    proof fn lemma_fits(&self, cap: int) {
    }
}

impl DeepView for destroy {
    type V = ();

    open spec fn deep_view(&self) -> () {
        ()
    }
}

impl Dsr for destroy {
    open spec fn dsr_spec(buf: Seq<u8>, fds: Seq<Fd>) -> Decoded<()> {
        Decoded::Value((), 0, fds)
    }

    fn try_deserialize(buf: &[u8], fds: &mut Vec<Fd>) -> (r: Option<Result<(destroy, usize), &'static str>>) {
        Some(Ok((destroy {}, 0)))
    }
}

impl Codec for destroy {
    open spec fn rt_ok(&self) -> bool {
        true
    }

    proof fn lemma_roundtrip(&self, tail: Seq<u8>, base: Seq<Fd>) {
        assert(Seq::<Fd>::empty().reverse() =~= Seq::<Fd>::empty());
        assert(base + Seq::<Fd>::empty() =~= base);
    }
}

impl destroy {
    /// The arguments are read in the protocol's order, no arguments: the bytes
    /// and descriptors written for such arguments, one after the other,
    /// decode to exactly those arguments.
    pub proof fn lemma_layout(rest: Seq<u8>, queue: Seq<Fd>)
        ensures
            ({
                let bytes = Seq::<u8>::empty();
                let fds = Seq::<Fd>::empty();
                destroy::dsr_spec(bytes + rest, queue + fds.reverse()) == Decoded::Value(
                    (),
                    bytes.len(),
                    queue,
                )
            }),
    {
        let m = destroy {};
        m.lemma_roundtrip(rest, queue);
    }

    /// The message creates no object.
    pub proof fn lemma_creates(&self)
        ensures
            self.created_id() is None,
    {
    }
}

impl Msg<Obj> for destroy {
    open spec fn opcode() -> u16 {
        7
    }

    open spec fn since_version() -> u32 {
        1
    }

    open spec fn created_id(&self) -> Option<u32> {
        None
    }

    open spec fn created_destructor(&self) -> Option<u16> {
        None
    }

    fn op() -> (r: u16) {
        7
    }

    fn since() -> u32 {
        1
    }

    fn new_id(&self) -> (r: Option<(u32, ObjMeta)>) {
        None
    }
}

impl Request<Obj> for destroy {

}

/// change the layer of the surface
///
/// Change the layer that the surface is rendered on.
///
/// Layer is double-buffered, see wl_surface.commit.
///
#[derive(Debug)]
pub struct set_layer {
    // layer to move this surface to
    pub layer: crate::zwlr_layer_shell_v1::layer,
}

impl Ser for set_layer {
    open spec fn ser_ok(&self) -> bool {
        &&& self.layer.ser_ok()
        &&& self.ser_bytes().len() <= usize::MAX
    }

    open spec fn ser_bytes(&self) -> Seq<u8> {
        self.layer.ser_bytes()
    }

    open spec fn ser_fds(&self) -> Seq<Fd> {
        self.layer.ser_fds()
    }

    fn wire_len(&self) -> (n: usize) {
        self.layer.wire_len()
    }

    fn checked_len(&self) -> (r: Option<usize>) {
        let n0 = match self.layer.checked_len() {
            Some(m) => m,
            None => return None,
        };
        Some(n0)
    }

    open spec fn ser_fits(&self, cap: int) -> bool {
        &&& 0 <= cap && self.layer.ser_fits(cap - (0))
    }

    fn serialize(self, buf: &mut [u8], fds: &mut Vec<Fd>) -> (r: Result<usize, &'static str>) {
        let ghost me = self;
        let ghost b0 = buf@;
        let mut n: usize = 0;
        n = n + ser_at(self.layer, buf, n, fds);
        assert(fds@ =~= old(fds)@ + me.ser_fds());
        Ok(n)
    }

    proof fn lemma_fits(&self, cap: int) {
        self.layer.lemma_fits(cap - (0));
    }
}

impl DeepView for set_layer {
    type V = (<crate::zwlr_layer_shell_v1::layer as DeepView>::V,);

    open spec fn deep_view(&self) -> (<crate::zwlr_layer_shell_v1::layer as DeepView>::V,) {
        (self.layer.deep_view(),)
    }
}

impl Dsr for set_layer {
    open spec fn dsr_spec(buf: Seq<u8>, fds: Seq<Fd>) -> Decoded<(<crate::zwlr_layer_shell_v1::layer as DeepView>::V,)> {
        match <crate::zwlr_layer_shell_v1::layer>::dsr_spec(buf, fds) {
            Decoded::Value(layer, n0, q0) => Decoded::Value((layer,), n0, q0),
            d => d.fail(),
        }
    }

    fn try_deserialize(buf: &[u8], fds: &mut Vec<Fd>) -> (r: Option<Result<(set_layer, usize), &'static str>>) {
        let mut n: usize = 0;
        let rest = &buf[n..buf.len()];
        assert(rest@ =~= buf@.skip(n as int));
        assert(n == 0 ==> rest@ =~= buf@);
        let (layer, m) = match <crate::zwlr_layer_shell_v1::layer>::try_deserialize(rest, fds) {
            Some(Ok(p)) => p,
            Some(Err(e)) => return Some(Err(e)),
            None => return None,
        };
        n = n + m;
        Some(Ok((set_layer { layer }, n)))
    }
}

impl Codec for set_layer {
    open spec fn rt_ok(&self) -> bool {
        &&& self.layer.rt_ok()
    }

    proof fn lemma_roundtrip(&self, tail: Seq<u8>, base: Seq<Fd>) {
        let b0 = self.layer.ser_bytes();
        let d0 = self.layer.ser_fds();
        let s1 = tail;
        let s0 = b0 + s1;
        let buf = self.ser_bytes() + tail;
        assert(buf =~= s0);
        assert(buf.skip(0) =~= s0);
        assert(self.ser_fds() =~= Seq::<Fd>::empty());
        assert(base + self.ser_fds().reverse() =~= base);
        assert(d0 =~= Seq::<Fd>::empty());
        assert(base + d0.reverse() =~= base);
        self.layer.lemma_roundtrip(s1, base);
    }
}

impl set_layer {
    /// The arguments are read in the protocol's order, `layer`: the bytes
    /// and descriptors written for such arguments, one after the other,
    /// decode to exactly those arguments.
    pub proof fn lemma_layout(layer: crate::zwlr_layer_shell_v1::layer, rest: Seq<u8>, queue: Seq<Fd>)
        requires
            layer.ser_ok(),
            layer.rt_ok(),
            layer.ser_bytes().len() <= usize::MAX,
        ensures
            ({
                let bytes = layer.ser_bytes();
                let fds = layer.ser_fds();
                set_layer::dsr_spec(bytes + rest, queue + fds.reverse()) == Decoded::Value(
                    (layer.deep_view(),),
                    bytes.len(),
                    queue,
                )
            }),
    {
        let m = set_layer { layer };
        m.lemma_roundtrip(rest, queue);
    }

    /// The message creates no object.
    pub proof fn lemma_creates(&self)
        ensures
            self.created_id() is None,
    {
    }
}

impl Msg<Obj> for set_layer {
    open spec fn opcode() -> u16 {
        8
    }

    open spec fn since_version() -> u32 {
        1
    }

    open spec fn created_id(&self) -> Option<u32> {
        None
    }

    open spec fn created_destructor(&self) -> Option<u16> {
        None
    }

    fn op() -> (r: u16) {
        8
    }

    fn since() -> u32 {
        1
    }

    fn new_id(&self) -> (r: Option<(u32, ObjMeta)>) {
        None
    }
}

impl Request<Obj> for set_layer {

}

/// The opcode of each request: its index in the protocol's list of the
/// interface's requests, so that no two requests share one.
pub proof fn lemma_opcodes()
    ensures
        <set_size as Msg<Obj>>::opcode() == 0,
        <set_anchor as Msg<Obj>>::opcode() == 1,
        <set_exclusive_zone as Msg<Obj>>::opcode() == 2,
        <set_margin as Msg<Obj>>::opcode() == 3,
        <set_keyboard_interactivity as Msg<Obj>>::opcode() == 4,
        <get_popup as Msg<Obj>>::opcode() == 5,
        <ack_configure as Msg<Obj>>::opcode() == 6,
        <destroy as Msg<Obj>>::opcode() == 7,
        <set_layer as Msg<Obj>>::opcode() == 8,
        <set_size as Msg<Obj>>::opcode() != <set_anchor as Msg<Obj>>::opcode(),
        <set_size as Msg<Obj>>::opcode() != <set_exclusive_zone as Msg<Obj>>::opcode(),
        <set_size as Msg<Obj>>::opcode() != <set_margin as Msg<Obj>>::opcode(),
        <set_size as Msg<Obj>>::opcode() != <set_keyboard_interactivity as Msg<Obj>>::opcode(),
        <set_size as Msg<Obj>>::opcode() != <get_popup as Msg<Obj>>::opcode(),
        <set_size as Msg<Obj>>::opcode() != <ack_configure as Msg<Obj>>::opcode(),
        <set_size as Msg<Obj>>::opcode() != <destroy as Msg<Obj>>::opcode(),
        <set_size as Msg<Obj>>::opcode() != <set_layer as Msg<Obj>>::opcode(),
        <set_anchor as Msg<Obj>>::opcode() != <set_exclusive_zone as Msg<Obj>>::opcode(),
        <set_anchor as Msg<Obj>>::opcode() != <set_margin as Msg<Obj>>::opcode(),
        <set_anchor as Msg<Obj>>::opcode() != <set_keyboard_interactivity as Msg<Obj>>::opcode(),
        <set_anchor as Msg<Obj>>::opcode() != <get_popup as Msg<Obj>>::opcode(),
        <set_anchor as Msg<Obj>>::opcode() != <ack_configure as Msg<Obj>>::opcode(),
        <set_anchor as Msg<Obj>>::opcode() != <destroy as Msg<Obj>>::opcode(),
        <set_anchor as Msg<Obj>>::opcode() != <set_layer as Msg<Obj>>::opcode(),
        <set_exclusive_zone as Msg<Obj>>::opcode() != <set_margin as Msg<Obj>>::opcode(),
        <set_exclusive_zone as Msg<Obj>>::opcode() != <set_keyboard_interactivity as Msg<Obj>>::opcode(),
        <set_exclusive_zone as Msg<Obj>>::opcode() != <get_popup as Msg<Obj>>::opcode(),
        <set_exclusive_zone as Msg<Obj>>::opcode() != <ack_configure as Msg<Obj>>::opcode(),
        <set_exclusive_zone as Msg<Obj>>::opcode() != <destroy as Msg<Obj>>::opcode(),
        <set_exclusive_zone as Msg<Obj>>::opcode() != <set_layer as Msg<Obj>>::opcode(),
        <set_margin as Msg<Obj>>::opcode() != <set_keyboard_interactivity as Msg<Obj>>::opcode(),
        <set_margin as Msg<Obj>>::opcode() != <get_popup as Msg<Obj>>::opcode(),
        <set_margin as Msg<Obj>>::opcode() != <ack_configure as Msg<Obj>>::opcode(),
        <set_margin as Msg<Obj>>::opcode() != <destroy as Msg<Obj>>::opcode(),
        <set_margin as Msg<Obj>>::opcode() != <set_layer as Msg<Obj>>::opcode(),
        <set_keyboard_interactivity as Msg<Obj>>::opcode() != <get_popup as Msg<Obj>>::opcode(),
        <set_keyboard_interactivity as Msg<Obj>>::opcode() != <ack_configure as Msg<Obj>>::opcode(),
        <set_keyboard_interactivity as Msg<Obj>>::opcode() != <destroy as Msg<Obj>>::opcode(),
        <set_keyboard_interactivity as Msg<Obj>>::opcode() != <set_layer as Msg<Obj>>::opcode(),
        <get_popup as Msg<Obj>>::opcode() != <ack_configure as Msg<Obj>>::opcode(),
        <get_popup as Msg<Obj>>::opcode() != <destroy as Msg<Obj>>::opcode(),
        <get_popup as Msg<Obj>>::opcode() != <set_layer as Msg<Obj>>::opcode(),
        <ack_configure as Msg<Obj>>::opcode() != <destroy as Msg<Obj>>::opcode(),
        <ack_configure as Msg<Obj>>::opcode() != <set_layer as Msg<Obj>>::opcode(),
        <destroy as Msg<Obj>>::opcode() != <set_layer as Msg<Obj>>::opcode(),
        <Obj as Object>::destructor_op() == Some(<destroy as Msg<Obj>>::opcode()),
{
}

} // verus!
