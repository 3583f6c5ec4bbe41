use vstd::prelude::*;
use crate::objects::{type_id_of, new_id, object, Dyn, ObjMeta, Object, Msg, Request};
use crate::wire::{ser_at, write_at, lemma_write_then, lemma_reverse_add, lemma_skip_step, fixed, Codec, Decoded, Dsr, Fd, Ser};
use super::Obj;

verus! {

/// destroy the xdg_positioner object
///
/// Notify the compositor that the xdg_positioner will no longer be used.
///
#[derive(Debug)]
pub struct destroy {}

impl Ser for destroy {
    open spec fn ser_ok(&self) -> bool {
        true
    }

    open spec fn ser_bytes(&self) -> Seq<u8> {
        Seq::empty()
    }

    open spec fn ser_fds(&self) -> Seq<Fd> {
        Seq::empty()
    }

    fn wire_len(&self) -> (n: usize) {
        0
    }

    fn checked_len(&self) -> (r: Option<usize>) {
        Some(0)
    }

    open spec fn ser_fits(&self, cap: int) -> bool {
        true
    }

    fn serialize(self, buf: &mut [u8], fds: &mut Vec<Fd>) -> (r: Result<usize, &'static str>) {
        assert(buf@ =~= write_at(old(buf)@, 0, Seq::<u8>::empty()));
        assert(fds@ =~= old(fds)@ + Seq::<Fd>::empty());
        Ok(0)
    }

    proof fn lemma_fits(&self, cap: int) {
    }
}

impl DeepView for destroy {
    type V = ();

    open spec fn deep_view(&self) -> () {
        ()
    }
}

impl Dsr for destroy {
    open spec fn dsr_spec(buf: Seq<u8>, fds: Seq<Fd>) -> Decoded<()> {
        Decoded::Value((), 0, fds)
    }

    fn try_deserialize(buf: &[u8], fds: &mut Vec<Fd>) -> (r: Option<Result<(destroy, usize), &'static str>>) {
        Some(Ok((destroy {}, 0)))
    }
}

impl Codec for destroy {
    open spec fn rt_ok(&self) -> bool {
        true
    }

    proof fn lemma_roundtrip(&self, tail: Seq<u8>, base: Seq<Fd>) {
        assert(Seq::<Fd>::empty().reverse() =~= Seq::<Fd>::empty());
        assert(base + Seq::<Fd>::empty() =~= base);
    }
}

impl destroy {
    /// The arguments are read in the protocol's order, no arguments: the bytes
    /// and descriptors written for such arguments, one after the other,
    /// decode to exactly those arguments.
    pub proof fn lemma_layout(rest: Seq<u8>, queue: Seq<Fd>)
        ensures
            ({
                let bytes = Seq::<u8>::empty();
                let fds = Seq::<Fd>::empty();
                destroy::dsr_spec(bytes + rest, queue + fds.reverse()) == Decoded::Value(
                    (),
                    bytes.len(),
                    queue,
                )
            }),
    {
        let m = destroy {};
        m.lemma_roundtrip(rest, queue);
    }

    /// The message creates no object.
    pub proof fn lemma_creates(&self)
        ensures
            self.created_id() is None,
    {
    }
}

impl Msg<Obj> for destroy {
    open spec fn opcode() -> u16 {
        0
    }

    open spec fn since_version() -> u32 {
        1
    }

    open spec fn created_id(&self) -> Option<u32> {
        None
    }

    open spec fn created_destructor(&self) -> Option<u16> {
        None
    }

    fn op() -> (r: u16) {
        0
    }

    fn since() -> u32 {
        1
    }

    fn new_id(&self) -> (r: Option<(u32, ObjMeta)>) {
        None
    }
}

impl Request<Obj> for destroy {

}

/// set the size of the to-be positioned rectangle
///
/// Set the size of the surface that is to be positioned with the positioner
/// object. The size is in surface-local coordinates and corresponds to the
/// window geometry. See xdg_surface.set_window_geometry.
///
/// If a zero or negative size is set the invalid_input error is raised.
///
#[derive(Debug)]
pub struct set_size {
    // width of positioned rectangle
    pub width: i32,
    // height of positioned rectangle
    pub height: i32,
}

impl Ser for set_size {
    open spec fn ser_ok(&self) -> bool {
        &&& self.width.ser_ok()
        &&& self.height.ser_ok()
        &&& self.ser_bytes().len() <= usize::MAX
    }

    open spec fn ser_bytes(&self) -> Seq<u8> {
        self.width.ser_bytes() + self.height.ser_bytes()
    }

    open spec fn ser_fds(&self) -> Seq<Fd> {
        self.width.ser_fds() + self.height.ser_fds()
    }

    fn wire_len(&self) -> (n: usize) {
        self.width.wire_len() + self.height.wire_len()
    }

    fn checked_len(&self) -> (r: Option<usize>) {
        let n0 = match self.width.checked_len() {
            Some(m) => m,
            None => return None,
        };
        let n1 = match self.height.checked_len() {
            Some(m) => match n0.checked_add(m) {
                Some(t) => t,
                None => return None,
            },
            None => return None,
        };
        Some(n1)
    }

    open spec fn ser_fits(&self, cap: int) -> bool {
        &&& 0 <= cap && self.width.ser_fits(cap - (0))
        &&& self.width.ser_bytes().len() <= cap && self.height.ser_fits(cap - (self.width.ser_bytes().len()))
    }

    fn serialize(self, buf: &mut [u8], fds: &mut Vec<Fd>) -> (r: Result<usize, &'static str>) {
        let ghost me = self;
        let ghost b0 = buf@;
        let mut n: usize = 0;
        n = n + ser_at(self.width, buf, n, fds);
        assert(fds@ =~= old(fds)@ + me.width.ser_fds());
        n = n + ser_at(self.height, buf, n, fds);
        proof {
            lemma_write_then(b0, 0, me.width.ser_bytes(), me.height.ser_bytes());
        }
        assert(fds@ =~= old(fds)@ + me.ser_fds());
        Ok(n)
    }

    proof fn lemma_fits(&self, cap: int) {
        self.width.lemma_fits(cap - (0));
        self.height.lemma_fits(cap - (self.width.ser_bytes().len()));
    }
}

impl DeepView for set_size {
    type V = (<i32 as DeepView>::V, <i32 as DeepView>::V,);

    open spec fn deep_view(&self) -> (<i32 as DeepView>::V, <i32 as DeepView>::V,) {
        (self.width.deep_view(), self.height.deep_view(),)
    }
}

impl Dsr for set_size {
    open spec fn dsr_spec(buf: Seq<u8>, fds: Seq<Fd>) -> Decoded<(<i32 as DeepView>::V, <i32 as DeepView>::V,)> {
        match <i32>::dsr_spec(buf, fds) {
            Decoded::Value(width, n0, q0) => {
                match <i32>::dsr_spec(buf.skip(n0 as int), q0) {
                    Decoded::Value(height, m1, q1) => {
                        let n1 = n0 + m1;
                        Decoded::Value((width, height,), n1, q1)
                    },
                    d => d.fail(),
                }
            },
            d => d.fail(),
        }
    }

    fn try_deserialize(buf: &[u8], fds: &mut Vec<Fd>) -> (r: Option<Result<(set_size, usize), &'static str>>) {
        let mut n: usize = 0;
        let rest = &buf[n..buf.len()];
        assert(rest@ =~= buf@.skip(n as int));
        assert(n == 0 ==> rest@ =~= buf@);
        let (width, m) = match <i32>::try_deserialize(rest, fds) {
            Some(Ok(p)) => p,
            Some(Err(e)) => return Some(Err(e)),
            None => return None,
        };
        n = n + m;
        let rest = &buf[n..buf.len()];
        assert(rest@ =~= buf@.skip(n as int));
        assert(n == 0 ==> rest@ =~= buf@);
        let (height, m) = match <i32>::try_deserialize(rest, fds) {
            Some(Ok(p)) => p,
            Some(Err(e)) => return Some(Err(e)),
            None => return None,
        };
        n = n + m;
        Some(Ok((set_size { width, height }, n)))
    }
}

impl Codec for set_size {
    open spec fn rt_ok(&self) -> bool {
        &&& self.width.rt_ok()
        &&& self.height.rt_ok()
    }

    proof fn lemma_roundtrip(&self, tail: Seq<u8>, base: Seq<Fd>) {
        let b0 = self.width.ser_bytes();
        let b1 = self.height.ser_bytes();
        let d0 = self.width.ser_fds();
        let d1 = self.height.ser_fds();
        let s2 = tail;
        let s1 = b1 + s2;
        let s0 = b0 + s1;
        let buf = self.ser_bytes() + tail;
        assert(buf =~= s0);
        assert(buf.skip(0) =~= s0);
        assert(self.ser_fds() =~= Seq::<Fd>::empty());
        assert(base + self.ser_fds().reverse() =~= base);
        assert(d0 =~= Seq::<Fd>::empty());
        assert(base + d0.reverse() =~= base);
        self.width.lemma_roundtrip(s1, base);
        assert(buf.skip((b0.len()) as int) == s1) by {
            lemma_skip_step(buf, (0) as int, b0, s1);
        }
        assert(d1 =~= Seq::<Fd>::empty());
        assert(base + d1.reverse() =~= base);
        self.height.lemma_roundtrip(s2, base);
    }
}

impl set_size {
    /// The arguments are read in the protocol's order, `width`, then `height`: the bytes
    /// and descriptors written for such arguments, one after the other,
    /// decode to exactly those arguments.
    pub proof fn lemma_layout(width: i32, height: i32, rest: Seq<u8>, queue: Seq<Fd>)
        requires
            width.ser_ok(),
            width.rt_ok(),
            height.ser_ok(),
            height.rt_ok(),
            width.ser_bytes().len() + height.ser_bytes().len() <= usize::MAX,
        ensures
            ({
                let bytes = width.ser_bytes() + height.ser_bytes();
                let fds = width.ser_fds() + height.ser_fds();
                set_size::dsr_spec(bytes + rest, queue + fds.reverse()) == Decoded::Value(
                    (width.deep_view(), height.deep_view(),),
                    bytes.len(),
                    queue,
                )
            }),
    {
        let m = set_size { width, height };
        m.lemma_roundtrip(rest, queue);
    }

    /// The message creates no object.
    pub proof fn lemma_creates(&self)
        ensures
            self.created_id() is None,
    {
    }
}

impl Msg<Obj> for set_size {
    open spec fn opcode() -> u16 {
        1
    }

    open spec fn since_version() -> u32 {
        1
    }

    open spec fn created_id(&self) -> Option<u32> {
        None
    }

    open spec fn created_destructor(&self) -> Option<u16> {
        None
    }

    fn op() -> (r: u16) {
        1
    }

    fn since() -> u32 {
        1
    }

    fn new_id(&self) -> (r: Option<(u32, ObjMeta)>) {
        None
    }
}

impl Request<Obj> for set_size {

}

/// set the anchor rectangle within the parent surface
///
/// Specify the anchor rectangle within the parent surface that the child
/// surface will be placed relative to. The rectangle is relative to the
/// window geometry as defined by xdg_surface.set_window_geometry of the
/// parent surface.
///
/// When the xdg_positioner object is used to position a child surface, the
/// anchor rectangle may not extend outside the window geometry of the
/// positioned child's parent surface.
///
/// If a negative size is set the invalid_input error is raised.
///
#[derive(Debug)]
pub struct set_anchor_rect {
    // x position of anchor rectangle
    pub x: i32,
    // y position of anchor rectangle
    pub y: i32,
    // width of anchor rectangle
    pub width: i32,
    // height of anchor rectangle
    pub height: i32,
}

impl Ser for set_anchor_rect {
    open spec fn ser_ok(&self) -> bool {
        &&& self.x.ser_ok()
        &&& self.y.ser_ok()
        &&& self.width.ser_ok()
        &&& self.height.ser_ok()
        &&& self.ser_bytes().len() <= usize::MAX
    }

    open spec fn ser_bytes(&self) -> Seq<u8> {
        self.x.ser_bytes() + self.y.ser_bytes() + self.width.ser_bytes() + self.height.ser_bytes()
    }

    open spec fn ser_fds(&self) -> Seq<Fd> {
        self.x.ser_fds() + self.y.ser_fds() + self.width.ser_fds() + self.height.ser_fds()
    }

    fn wire_len(&self) -> (n: usize) {
        self.x.wire_len() + self.y.wire_len() + self.width.wire_len() + self.height.wire_len()
    }

    fn checked_len(&self) -> (r: Option<usize>) {
        let n0 = match self.x.checked_len() {
            Some(m) => m,
            None => return None,
        };
        let n1 = match self.y.checked_len() {
            Some(m) => match n0.checked_add(m) {
                Some(t) => t,
                None => return None,
            },
            None => return None,
        };
        let n2 = match self.width.checked_len() {
            Some(m) => match n1.checked_add(m) {
                Some(t) => t,
                None => return None,
            },
            None => return None,
        };
        let n3 = match self.height.checked_len() {
            Some(m) => match n2.checked_add(m) {
                Some(t) => t,
                None => return None,
            },
            None => return None,
        };
        Some(n3)
    }

    open spec fn ser_fits(&self, cap: int) -> bool {
        &&& 0 <= cap && self.x.ser_fits(cap - (0))
        &&& self.x.ser_bytes().len() <= cap && self.y.ser_fits(cap - (self.x.ser_bytes().len()))
        &&& self.x.ser_bytes().len() + self.y.ser_bytes().len() <= cap && self.width.ser_fits(cap - (self.x.ser_bytes().len() + self.y.ser_bytes().len()))
        &&& self.x.ser_bytes().len() + self.y.ser_bytes().len() + self.width.ser_bytes().len() <= cap && self.height.ser_fits(cap - (self.x.ser_bytes().len() + self.y.ser_bytes().len() + self.width.ser_bytes().len()))
    }

    fn serialize(self, buf: &mut [u8], fds: &mut Vec<Fd>) -> (r: Result<usize, &'static str>) {
        let ghost me = self;
        let ghost b0 = buf@;
        let mut n: usize = 0;
        n = n + ser_at(self.x, buf, n, fds);
        assert(fds@ =~= old(fds)@ + me.x.ser_fds());
        n = n + ser_at(self.y, buf, n, fds);
        proof {
            lemma_write_then(b0, 0, me.x.ser_bytes(), me.y.ser_bytes());
        }
        assert(fds@ =~= old(fds)@ + me.x.ser_fds() + me.y.ser_fds());
        n = n + ser_at(self.width, buf, n, fds);
        proof {
            lemma_write_then(b0, 0, me.x.ser_bytes() + me.y.ser_bytes(), me.width.ser_bytes());
        }
        assert(fds@ =~= old(fds)@ + me.x.ser_fds() + me.y.ser_fds() + me.width.ser_fds());
        n = n + ser_at(self.height, buf, n, fds);
        proof {
            lemma_write_then(b0, 0, me.x.ser_bytes() + me.y.ser_bytes() + me.width.ser_bytes(), me.height.ser_bytes());
        }
        assert(fds@ =~= old(fds)@ + me.ser_fds());
        Ok(n)
    }

    proof fn lemma_fits(&self, cap: int) {
        self.x.lemma_fits(cap - (0));
        self.y.lemma_fits(cap - (self.x.ser_bytes().len()));
        self.width.lemma_fits(cap - (self.x.ser_bytes().len() + self.y.ser_bytes().len()));
        self.height.lemma_fits(cap - (self.x.ser_bytes().len() + self.y.ser_bytes().len() + self.width.ser_bytes().len()));
    }
}

impl DeepView for set_anchor_rect {
    type V = (<i32 as DeepView>::V, <i32 as DeepView>::V, <i32 as DeepView>::V, <i32 as DeepView>::V,);

    open spec fn deep_view(&self) -> (<i32 as DeepView>::V, <i32 as DeepView>::V, <i32 as DeepView>::V, <i32 as DeepView>::V,) {
        (self.x.deep_view(), self.y.deep_view(), self.width.deep_view(), self.height.deep_view(),)
    }
}

impl Dsr for set_anchor_rect {
    open spec fn dsr_spec(buf: Seq<u8>, fds: Seq<Fd>) -> Decoded<(<i32 as DeepView>::V, <i32 as DeepView>::V, <i32 as DeepView>::V, <i32 as DeepView>::V,)> {
        match <i32>::dsr_spec(buf, fds) {
            Decoded::Value(x, n0, q0) => {
                match <i32>::dsr_spec(buf.skip(n0 as int), q0) {
                    Decoded::Value(y, m1, q1) => {
                        let n1 = n0 + m1;
                        match <i32>::dsr_spec(buf.skip(n1 as int), q1) {
                            Decoded::Value(width, m2, q2) => {
                                let n2 = n1 + m2;
                                match <i32>::dsr_spec(buf.skip(n2 as int), q2) {
                                    Decoded::Value(height, m3, q3) => {
                                        let n3 = n2 + m3;
                                        Decoded::Value((x, y, width, height,), n3, q3)
                                    },
                                    d => d.fail(),
                                }
                            },
                            d => d.fail(),
                        }
                    },
                    d => d.fail(),
                }
            },
            d => d.fail(),
        }
    }

    fn try_deserialize(buf: &[u8], fds: &mut Vec<Fd>) -> (r: Option<Result<(set_anchor_rect, usize), &'static str>>) {
        let mut n: usize = 0;
        let rest = &buf[n..buf.len()];
        assert(rest@ =~= buf@.skip(n as int));
        assert(n == 0 ==> rest@ =~= buf@);
        let (x, m) = match <i32>::try_deserialize(rest, fds) {
            Some(Ok(p)) => p,
            Some(Err(e)) => return Some(Err(e)),
            None => return None,
        };
        n = n + m;
        let rest = &buf[n..buf.len()];
        assert(rest@ =~= buf@.skip(n as int));
        assert(n == 0 ==> rest@ =~= buf@);
        let (y, m) = match <i32>::try_deserialize(rest, fds) {
            Some(Ok(p)) => p,
            Some(Err(e)) => return Some(Err(e)),
            None => return None,
        };
        n = n + m;
        let rest = &buf[n..buf.len()];
        assert(rest@ =~= buf@.skip(n as int));
        assert(n == 0 ==> rest@ =~= buf@);
        let (width, m) = match <i32>::try_deserialize(rest, fds) {
            Some(Ok(p)) => p,
            Some(Err(e)) => return Some(Err(e)),
            None => return None,
        };
        n = n + m;
        let rest = &buf[n..buf.len()];
        assert(rest@ =~= buf@.skip(n as int));
        assert(n == 0 ==> rest@ =~= buf@);
        let (height, m) = match <i32>::try_deserialize(rest, fds) {
            Some(Ok(p)) => p,
            Some(Err(e)) => return Some(Err(e)),
            None => return None,
        };
        n = n + m;
        Some(Ok((set_anchor_rect { x, y, width, height }, n)))
    }
}

impl Codec for set_anchor_rect {
    open spec fn rt_ok(&self) -> bool {
        &&& self.x.rt_ok()
        &&& self.y.rt_ok()
        &&& self.width.rt_ok()
        &&& self.height.rt_ok()
    }

    proof fn lemma_roundtrip(&self, tail: Seq<u8>, base: Seq<Fd>) {
        let b0 = self.x.ser_bytes();
        let b1 = self.y.ser_bytes();
        let b2 = self.width.ser_bytes();
        let b3 = self.height.ser_bytes();
        let d0 = self.x.ser_fds();
        let d1 = self.y.ser_fds();
        let d2 = self.width.ser_fds();
        let d3 = self.height.ser_fds();
        let s4 = tail;
        let s3 = b3 + s4;
        let s2 = b2 + s3;
        let s1 = b1 + s2;
        let s0 = b0 + s1;
        let buf = self.ser_bytes() + tail;
        assert(buf =~= s0);
        assert(buf.skip(0) =~= s0);
        assert(self.ser_fds() =~= Seq::<Fd>::empty());
        assert(base + self.ser_fds().reverse() =~= base);
        assert(d0 =~= Seq::<Fd>::empty());
        assert(base + d0.reverse() =~= base);
        self.x.lemma_roundtrip(s1, base);
        assert(buf.skip((b0.len()) as int) == s1) by {
            lemma_skip_step(buf, (0) as int, b0, s1);
        }
        assert(d1 =~= Seq::<Fd>::empty());
        assert(base + d1.reverse() =~= base);
        self.y.lemma_roundtrip(s2, base);
        assert(buf.skip((b0.len() + b1.len()) as int) == s2) by {
            lemma_skip_step(buf, (b0.len()) as int, b1, s2);
        }
        assert(d2 =~= Seq::<Fd>::empty());
        assert(base + d2.reverse() =~= base);
        self.width.lemma_roundtrip(s3, base);
        assert(buf.skip((b0.len() + b1.len() + b2.len()) as int) == s3) by {
            lemma_skip_step(buf, (b0.len() + b1.len()) as int, b2, s3);
        }
        assert(d3 =~= Seq::<Fd>::empty());
        assert(base + d3.reverse() =~= base);
        self.height.lemma_roundtrip(s4, base);
    }
}

impl set_anchor_rect {
    /// The arguments are read in the protocol's order, `x`, then `y`, then `width`, then `height`: the bytes
    /// and descriptors written for such arguments, one after the other,
    /// decode to exactly those arguments.
    pub proof fn lemma_layout(x: i32, y: i32, width: i32, height: i32, rest: Seq<u8>, queue: Seq<Fd>)
        requires
            x.ser_ok(),
            x.rt_ok(),
            y.ser_ok(),
            y.rt_ok(),
            width.ser_ok(),
            width.rt_ok(),
            height.ser_ok(),
            height.rt_ok(),
            x.ser_bytes().len() + y.ser_bytes().len() + width.ser_bytes().len() + height.ser_bytes().len() <= usize::MAX,
        ensures
            ({
                let bytes = x.ser_bytes() + y.ser_bytes() + width.ser_bytes() + height.ser_bytes();
                let fds = x.ser_fds() + y.ser_fds() + width.ser_fds() + height.ser_fds();
                set_anchor_rect::dsr_spec(bytes + rest, queue + fds.reverse()) == Decoded::Value(
                    (x.deep_view(), y.deep_view(), width.deep_view(), height.deep_view(),),
                    bytes.len(),
                    queue,
                )
            }),
    {
        let m = set_anchor_rect { x, y, width, height };
        m.lemma_roundtrip(rest, queue);
    }

    /// The message creates no object.
    pub proof fn lemma_creates(&self)
        ensures
            self.created_id() is None,
    {
    }
}

impl Msg<Obj> for set_anchor_rect {
    open spec fn opcode() -> u16 {
        2
    }

    open spec fn since_version() -> u32 {
        1
    }

    open spec fn created_id(&self) -> Option<u32> {
        None
    }

    open spec fn created_destructor(&self) -> Option<u16> {
        None
    }

    fn op() -> (r: u16) {
        2
    }

    fn since() -> u32 {
        1
    }

    fn new_id(&self) -> (r: Option<(u32, ObjMeta)>) {
        None
    }
}

impl Request<Obj> for set_anchor_rect {

}

/// set anchor rectangle anchor
///
/// Defines the anchor point for the anchor rectangle. The specified anchor
/// is used derive an anchor point that the child surface will be
/// positioned relative to. If a corner anchor is set (e.g. 'top_left' or
/// 'bottom_right'), the anchor point will be at the specified corner;
/// otherwise, the derived anchor point will be centered on the specified
/// edge, or in the center of the anchor rectangle if no edge is specified.
///
#[derive(Debug)]
pub struct set_anchor {
    // anchor
    pub anchor: super::anchor,
}

impl Ser for set_anchor {
    open spec fn ser_ok(&self) -> bool {
        &&& self.anchor.ser_ok()
        &&& self.ser_bytes().len() <= usize::MAX
    }

    open spec fn ser_bytes(&self) -> Seq<u8> {
        self.anchor.ser_bytes()
    }

    open spec fn ser_fds(&self) -> Seq<Fd> {
        self.anchor.ser_fds()
    }

    fn wire_len(&self) -> (n: usize) {
        self.anchor.wire_len()
    }

    fn checked_len(&self) -> (r: Option<usize>) {
        let n0 = match self.anchor.checked_len() {
            Some(m) => m,
            None => return None,
        };
        Some(n0)
    }

    open spec fn ser_fits(&self, cap: int) -> bool {
        &&& 0 <= cap && self.anchor.ser_fits(cap - (0))
    }

    fn serialize(self, buf: &mut [u8], fds: &mut Vec<Fd>) -> (r: Result<usize, &'static str>) {
        let ghost me = self;
        let ghost b0 = buf@;
        let mut n: usize = 0;
        n = n + ser_at(self.anchor, buf, n, fds);
        assert(fds@ =~= old(fds)@ + me.ser_fds());
        Ok(n)
    }

    proof fn lemma_fits(&self, cap: int) {
        self.anchor.lemma_fits(cap - (0));
    }
}

impl DeepView for set_anchor {
    type V = (<super::anchor as DeepView>::V,);

    open spec fn deep_view(&self) -> (<super::anchor as DeepView>::V,) {
        (self.anchor.deep_view(),)
    }
}

impl Dsr for set_anchor {
    open spec fn dsr_spec(buf: Seq<u8>, fds: Seq<Fd>) -> Decoded<(<super::anchor as DeepView>::V,)> {
        match <super::anchor>::dsr_spec(buf, fds) {
            Decoded::Value(anchor, n0, q0) => Decoded::Value((anchor,), n0, q0),
            d => d.fail(),
        }
    }

    fn try_deserialize(buf: &[u8], fds: &mut Vec<Fd>) -> (r: Option<Result<(set_anchor, usize), &'static str>>) {
        let mut n: usize = 0;
        let rest = &buf[n..buf.len()];
        assert(rest@ =~= buf@.skip(n as int));
        assert(n == 0 ==> rest@ =~= buf@);
        let (anchor, m) = match <super::anchor>::try_deserialize(rest, fds) {
            Some(Ok(p)) => p,
            Some(Err(e)) => return Some(Err(e)),
            None => return None,
        };
        n = n + m;
        Some(Ok((set_anchor { anchor }, n)))
    }
}

impl Codec for set_anchor {
    open spec fn rt_ok(&self) -> bool {
        &&& self.anchor.rt_ok()
    }

    proof fn lemma_roundtrip(&self, tail: Seq<u8>, base: Seq<Fd>) {
        let b0 = self.anchor.ser_bytes();
        let d0 = self.anchor.ser_fds();
        let s1 = tail;
        let s0 = b0 + s1;
        let buf = self.ser_bytes() + tail;
        assert(buf =~= s0);
        assert(buf.skip(0) =~= s0);
        assert(self.ser_fds() =~= Seq::<Fd>::empty());
        assert(base + self.ser_fds().reverse() =~= base);
        assert(d0 =~= Seq::<Fd>::empty());
        assert(base + d0.reverse() =~= base);
        self.anchor.lemma_roundtrip(s1, base);
    }
}

impl set_anchor {
    /// The arguments are read in the protocol's order, `anchor`: the bytes
    /// and descriptors written for such arguments, one after the other,
    /// decode to exactly those arguments.
    pub proof fn lemma_layout(anchor: super::anchor, rest: Seq<u8>, queue: Seq<Fd>)
        requires
            anchor.ser_ok(),
            anchor.rt_ok(),
            anchor.ser_bytes().len() <= usize::MAX,
        ensures
            ({
                let bytes = anchor.ser_bytes();
                let fds = anchor.ser_fds();
                set_anchor::dsr_spec(bytes + rest, queue + fds.reverse()) == Decoded::Value(
                    (anchor.deep_view(),),
                    bytes.len(),
                    queue,
                )
            }),
    {
        let m = set_anchor { anchor };
        m.lemma_roundtrip(rest, queue);
    }

    /// The message creates no object.
    pub proof fn lemma_creates(&self)
        ensures
            self.created_id() is None,
    {
    }
}

impl Msg<Obj> for set_anchor {
    open spec fn opcode() -> u16 {
        3
    }

    open spec fn since_version() -> u32 {
        1
    }

    open spec fn created_id(&self) -> Option<u32> {
        None
    }

    open spec fn created_destructor(&self) -> Option<u16> {
        None
    }

    fn op() -> (r: u16) {
        3
    }

    fn since() -> u32 {
        1
    }

    fn new_id(&self) -> (r: Option<(u32, ObjMeta)>) {
        None
    }
}

impl Request<Obj> for set_anchor {

}

/// set child surface gravity
///
/// Defines in what direction a surface should be positioned, relative to
/// the anchor point of the parent surface. If a corner gravity is
/// specified (e.g. 'bottom_right' or 'top_left'), then the child surface
/// will be placed towards the specified gravity; otherwise, the child
/// surface will be centered over the anchor point on any axis that had no
/// gravity specified. If the gravity is not in the ‘gravity’ enum, an
/// invalid_input error is raised.
///
#[derive(Debug)]
pub struct set_gravity {
    // gravity direction
    pub gravity: super::gravity,
}

impl Ser for set_gravity {
    open spec fn ser_ok(&self) -> bool {
        &&& self.gravity.ser_ok()
        &&& self.ser_bytes().len() <= usize::MAX
    }

    open spec fn ser_bytes(&self) -> Seq<u8> {
        self.gravity.ser_bytes()
    }

    open spec fn ser_fds(&self) -> Seq<Fd> {
        self.gravity.ser_fds()
    }

    fn wire_len(&self) -> (n: usize) {
        self.gravity.wire_len()
    }

    fn checked_len(&self) -> (r: Option<usize>) {
        let n0 = match self.gravity.checked_len() {
            Some(m) => m,
            None => return None,
        };
        Some(n0)
    }

    open spec fn ser_fits(&self, cap: int) -> bool {
        &&& 0 <= cap && self.gravity.ser_fits(cap - (0))
    }

    fn serialize(self, buf: &mut [u8], fds: &mut Vec<Fd>) -> (r: Result<usize, &'static str>) {
        let ghost me = self;
        let ghost b0 = buf@;
        let mut n: usize = 0;
        n = n + ser_at(self.gravity, buf, n, fds);
        assert(fds@ =~= old(fds)@ + me.ser_fds());
        Ok(n)
    }

    proof fn lemma_fits(&self, cap: int) {
        self.gravity.lemma_fits(cap - (0));
    }
}

impl DeepView for set_gravity {
    type V = (<super::gravity as DeepView>::V,);

    open spec fn deep_view(&self) -> (<super::gravity as DeepView>::V,) {
        (self.gravity.deep_view(),)
    }
}

impl Dsr for set_gravity {
    open spec fn dsr_spec(buf: Seq<u8>, fds: Seq<Fd>) -> Decoded<(<super::gravity as DeepView>::V,)> {
        match <super::gravity>::dsr_spec(buf, fds) {
            Decoded::Value(gravity, n0, q0) => Decoded::Value((gravity,), n0, q0),
            d => d.fail(),
        }
    }

    fn try_deserialize(buf: &[u8], fds: &mut Vec<Fd>) -> (r: Option<Result<(set_gravity, usize), &'static str>>) {
        let mut n: usize = 0;
        let rest = &buf[n..buf.len()];
        assert(rest@ =~= buf@.skip(n as int));
        assert(n == 0 ==> rest@ =~= buf@);
        let (gravity, m) = match <super::gravity>::try_deserialize(rest, fds) {
            Some(Ok(p)) => p,
            Some(Err(e)) => return Some(Err(e)),
            None => return None,
        };
        n = n + m;
        Some(Ok((set_gravity { gravity }, n)))
    }
}

impl Codec for set_gravity {
    open spec fn rt_ok(&self) -> bool {
        &&& self.gravity.rt_ok()
    }

    proof fn lemma_roundtrip(&self, tail: Seq<u8>, base: Seq<Fd>) {
        let b0 = self.gravity.ser_bytes();
        let d0 = self.gravity.ser_fds();
        let s1 = tail;
        let s0 = b0 + s1;
        let buf = self.ser_bytes() + tail;
        assert(buf =~= s0);
        assert(buf.skip(0) =~= s0);
        assert(self.ser_fds() =~= Seq::<Fd>::empty());
        assert(base + self.ser_fds().reverse() =~= base);
        assert(d0 =~= Seq::<Fd>::empty());
        assert(base + d0.reverse() =~= base);
        self.gravity.lemma_roundtrip(s1, base);
    }
}

impl set_gravity {
    /// The arguments are read in the protocol's order, `gravity`: the bytes
    /// and descriptors written for such arguments, one after the other,
    /// decode to exactly those arguments.
    pub proof fn lemma_layout(gravity: super::gravity, rest: Seq<u8>, queue: Seq<Fd>)
        requires
            gravity.ser_ok(),
            gravity.rt_ok(),
            gravity.ser_bytes().len() <= usize::MAX,
        ensures
            ({
                let bytes = gravity.ser_bytes();
                let fds = gravity.ser_fds();
                set_gravity::dsr_spec(bytes + rest, queue + fds.reverse()) == Decoded::Value(
                    (gravity.deep_view(),),
                    bytes.len(),
                    queue,
                )
            }),
    {
        let m = set_gravity { gravity };
        m.lemma_roundtrip(rest, queue);
    }

    /// The message creates no object.
    pub proof fn lemma_creates(&self)
        ensures
            self.created_id() is None,
    {
    }
}

impl Msg<Obj> for set_gravity {
    open spec fn opcode() -> u16 {
        4
    }

    open spec fn since_version() -> u32 {
        1
    }

    open spec fn created_id(&self) -> Option<u32> {
        None
    }

    open spec fn created_destructor(&self) -> Option<u16> {
        None
    }

    fn op() -> (r: u16) {
        4
    }

    fn since() -> u32 {
        1
    }

    fn new_id(&self) -> (r: Option<(u32, ObjMeta)>) {
        None
    }
}

impl Request<Obj> for set_gravity {

}

/// set the adjustment to be done when constrained
///
/// Specify how the window should be positioned if the originally intended
/// position caused the surface to be constrained, meaning at least
/// partially outside positioning boundaries set by the compositor. The
/// adjustment is set by constructing a bitmask describing the adjustment to
/// be made when the surface is constrained on that axis.
///
/// If no bit for one axis is set, the compositor will assume that the child
/// surface should not change its position on that axis when constrained.
///
/// If more than one bit for one axis is set, the order of how adjustments
/// are applied is specified in the corresponding adjustment descriptions.
///
/// The default adjustment is none.
///
#[derive(Debug)]
pub struct set_constraint_adjustment {
    // bit mask of constraint adjustments
    pub constraint_adjustment: u32,
}

impl Ser for set_constraint_adjustment {
    open spec fn ser_ok(&self) -> bool {
        &&& self.constraint_adjustment.ser_ok()
        &&& self.ser_bytes().len() <= usize::MAX
    }

    open spec fn ser_bytes(&self) -> Seq<u8> {
        self.constraint_adjustment.ser_bytes()
    }

    open spec fn ser_fds(&self) -> Seq<Fd> {
        self.constraint_adjustment.ser_fds()
    }

    fn wire_len(&self) -> (n: usize) {
        self.constraint_adjustment.wire_len()
    }

    fn checked_len(&self) -> (r: Option<usize>) {
        let n0 = match self.constraint_adjustment.checked_len() {
            Some(m) => m,
            None => return None,
        };
        Some(n0)
    }

    open spec fn ser_fits(&self, cap: int) -> bool {
        &&& 0 <= cap && self.constraint_adjustment.ser_fits(cap - (0))
    }

    fn serialize(self, buf: &mut [u8], fds: &mut Vec<Fd>) -> (r: Result<usize, &'static str>) {
        let ghost me = self;
        let ghost b0 = buf@;
        let mut n: usize = 0;
        n = n + ser_at(self.constraint_adjustment, buf, n, fds);
        assert(fds@ =~= old(fds)@ + me.ser_fds());
        Ok(n)
    }

    proof fn lemma_fits(&self, cap: int) {
        self.constraint_adjustment.lemma_fits(cap - (0));
    }
}

impl DeepView for set_constraint_adjustment {
    type V = (<u32 as DeepView>::V,);

    open spec fn deep_view(&self) -> (<u32 as DeepView>::V,) {
        (self.constraint_adjustment.deep_view(),)
    }
}

impl Dsr for set_constraint_adjustment {
    open spec fn dsr_spec(buf: Seq<u8>, fds: Seq<Fd>) -> Decoded<(<u32 as DeepView>::V,)> {
        match <u32>::dsr_spec(buf, fds) {
            Decoded::Value(constraint_adjustment, n0, q0) => Decoded::Value((constraint_adjustment,), n0, q0),
            d => d.fail(),
        }
    }

    fn try_deserialize(buf: &[u8], fds: &mut Vec<Fd>) -> (r: Option<Result<(set_constraint_adjustment, usize), &'static str>>) {
        let mut n: usize = 0;
        let rest = &buf[n..buf.len()];
        assert(rest@ =~= buf@.skip(n as int));
        assert(n == 0 ==> rest@ =~= buf@);
        let (constraint_adjustment, m) = match <u32>::try_deserialize(rest, fds) {
            Some(Ok(p)) => p,
            Some(Err(e)) => return Some(Err(e)),
            None => return None,
        };
        n = n + m;
        Some(Ok((set_constraint_adjustment { constraint_adjustment }, n)))
    }
}

impl Codec for set_constraint_adjustment {
    open spec fn rt_ok(&self) -> bool {
        &&& self.constraint_adjustment.rt_ok()
    }

    proof fn lemma_roundtrip(&self, tail: Seq<u8>, base: Seq<Fd>) {
        let b0 = self.constraint_adjustment.ser_bytes();
        let d0 = self.constraint_adjustment.ser_fds();
        let s1 = tail;
        let s0 = b0 + s1;
        let buf = self.ser_bytes() + tail;
        assert(buf =~= s0);
        assert(buf.skip(0) =~= s0);
        assert(self.ser_fds() =~= Seq::<Fd>::empty());
        assert(base + self.ser_fds().reverse() =~= base);
        assert(d0 =~= Seq::<Fd>::empty());
        assert(base + d0.reverse() =~= base);
        self.constraint_adjustment.lemma_roundtrip(s1, base);
    }
}

impl set_constraint_adjustment {
    /// The arguments are read in the protocol's order, `constraint_adjustment`: the bytes
    /// and descriptors written for such arguments, one after the other,
    /// decode to exactly those arguments.
    pub proof fn lemma_layout(constraint_adjustment: u32, rest: Seq<u8>, queue: Seq<Fd>)
        requires
            constraint_adjustment.ser_ok(),
            constraint_adjustment.rt_ok(),
            constraint_adjustment.ser_bytes().len() <= usize::MAX,
        ensures
            ({
                let bytes = constraint_adjustment.ser_bytes();
                let fds = constraint_adjustment.ser_fds();
                set_constraint_adjustment::dsr_spec(bytes + rest, queue + fds.reverse()) == Decoded::Value(
                    (constraint_adjustment.deep_view(),),
                    bytes.len(),
                    queue,
                )
            }),
    {
        let m = set_constraint_adjustment { constraint_adjustment };
        m.lemma_roundtrip(rest, queue);
    }

    /// The message creates no object.
    pub proof fn lemma_creates(&self)
        ensures
            self.created_id() is None,
    {
    }
}

impl Msg<Obj> for set_constraint_adjustment {
    open spec fn opcode() -> u16 {
        5
    }

    open spec fn since_version() -> u32 {
        1
    }

    open spec fn created_id(&self) -> Option<u32> {
        None
    }

    open spec fn created_destructor(&self) -> Option<u16> {
        None
    }

    fn op() -> (r: u16) {
        5
    }

    fn since() -> u32 {
        1
    }

    fn new_id(&self) -> (r: Option<(u32, ObjMeta)>) {
        None
    }
}

impl Request<Obj> for set_constraint_adjustment {

}

/// set surface position offset
///
/// Specify the surface position offset relative to the position of the
/// anchor on the anchor rectangle and the anchor on the surface. For
/// example if the anchor of the anchor rectangle is at (x, y), the surface
/// has the gravity bottom|right, and the offset is (ox, oy), the calculated
/// surface position will be (x + ox, y + oy). The offset position of the
/// surface is the one used for constraint testing. See
/// set_constraint_adjustment.
///
/// An example use case is placing a popup menu on top of a user interface
/// element, while aligning the user interface element of the parent surface
/// with some user interface element placed somewhere in the popup surface.
///
#[derive(Debug)]
pub struct set_offset {
    // surface position x offset
    pub x: i32,
    // surface position y offset
    pub y: i32,
}

impl Ser for set_offset {
    open spec fn ser_ok(&self) -> bool {
        &&& self.x.ser_ok()
        &&& self.y.ser_ok()
        &&& self.ser_bytes().len() <= usize::MAX
    }

    open spec fn ser_bytes(&self) -> Seq<u8> {
        self.x.ser_bytes() + self.y.ser_bytes()
    }

    open spec fn ser_fds(&self) -> Seq<Fd> {
        self.x.ser_fds() + self.y.ser_fds()
    }

    fn wire_len(&self) -> (n: usize) {
        self.x.wire_len() + self.y.wire_len()
    }

    fn checked_len(&self) -> (r: Option<usize>) {
        let n0 = match self.x.checked_len() {
            Some(m) => m,
            None => return None,
        };
        let n1 = match self.y.checked_len() {
            Some(m) => match n0.checked_add(m) {
                Some(t) => t,
                None => return None,
            },
            None => return None,
        };
        Some(n1)
    }

    open spec fn ser_fits(&self, cap: int) -> bool {
        &&& 0 <= cap && self.x.ser_fits(cap - (0))
        &&& self.x.ser_bytes().len() <= cap && self.y.ser_fits(cap - (self.x.ser_bytes().len()))
    }

    fn serialize(self, buf: &mut [u8], fds: &mut Vec<Fd>) -> (r: Result<usize, &'static str>) {
        let ghost me = self;
        let ghost b0 = buf@;
        let mut n: usize = 0;
        n = n + ser_at(self.x, buf, n, fds);
        assert(fds@ =~= old(fds)@ + me.x.ser_fds());
        n = n + ser_at(self.y, buf, n, fds);
        proof {
            lemma_write_then(b0, 0, me.x.ser_bytes(), me.y.ser_bytes());
        }
        assert(fds@ =~= old(fds)@ + me.ser_fds());
        Ok(n)
    }

    proof fn lemma_fits(&self, cap: int) {
        self.x.lemma_fits(cap - (0));
        self.y.lemma_fits(cap - (self.x.ser_bytes().len()));
    }
}

impl DeepView for set_offset {
    type V = (<i32 as DeepView>::V, <i32 as DeepView>::V,);

    open spec fn deep_view(&self) -> (<i32 as DeepView>::V, <i32 as DeepView>::V,) {
        (self.x.deep_view(), self.y.deep_view(),)
    }
}

impl Dsr for set_offset {
    open spec fn dsr_spec(buf: Seq<u8>, fds: Seq<Fd>) -> Decoded<(<i32 as DeepView>::V, <i32 as DeepView>::V,)> {
        match <i32>::dsr_spec(buf, fds) {
            Decoded::Value(x, n0, q0) => {
                match <i32>::dsr_spec(buf.skip(n0 as int), q0) {
                    Decoded::Value(y, m1, q1) => {
                        let n1 = n0 + m1;
                        Decoded::Value((x, y,), n1, q1)
                    },
                    d => d.fail(),
                }
            },
            d => d.fail(),
        }
    }

    fn try_deserialize(buf: &[u8], fds: &mut Vec<Fd>) -> (r: Option<Result<(set_offset, usize), &'static str>>) {
        let mut n: usize = 0;
        let rest = &buf[n..buf.len()];
        assert(rest@ =~= buf@.skip(n as int));
        assert(n == 0 ==> rest@ =~= buf@);
        let (x, m) = match <i32>::try_deserialize(rest, fds) {
            Some(Ok(p)) => p,
            Some(Err(e)) => return Some(Err(e)),
            None => return None,
        };
        n = n + m;
        let rest = &buf[n..buf.len()];
        assert(rest@ =~= buf@.skip(n as int));
        assert(n == 0 ==> rest@ =~= buf@);
        let (y, m) = match <i32>::try_deserialize(rest, fds) {
            Some(Ok(p)) => p,
            Some(Err(e)) => return Some(Err(e)),
            None => return None,
        };
        n = n + m;
        Some(Ok((set_offset { x, y }, n)))
    }
}

impl Codec for set_offset {
    open spec fn rt_ok(&self) -> bool {
        &&& self.x.rt_ok()
        &&& self.y.rt_ok()
    }

    proof fn lemma_roundtrip(&self, tail: Seq<u8>, base: Seq<Fd>) {
        let b0 = self.x.ser_bytes();
        let b1 = self.y.ser_bytes();
        let d0 = self.x.ser_fds();
        let d1 = self.y.ser_fds();
        let s2 = tail;
        let s1 = b1 + s2;
        let s0 = b0 + s1;
        let buf = self.ser_bytes() + tail;
        assert(buf =~= s0);
        assert(buf.skip(0) =~= s0);
        assert(self.ser_fds() =~= Seq::<Fd>::empty());
        assert(base + self.ser_fds().reverse() =~= base);
        assert(d0 =~= Seq::<Fd>::empty());
        assert(base + d0.reverse() =~= base);
        self.x.lemma_roundtrip(s1, base);
        assert(buf.skip((b0.len()) as int) == s1) by {
            lemma_skip_step(buf, (0) as int, b0, s1);
        }
        assert(d1 =~= Seq::<Fd>::empty());
        assert(base + d1.reverse() =~= base);
        self.y.lemma_roundtrip(s2, base);
    }
}

impl set_offset {
    /// The arguments are read in the protocol's order, `x`, then `y`: the bytes
    /// and descriptors written for such arguments, one after the other,
    /// decode to exactly those arguments.
    pub proof fn lemma_layout(x: i32, y: i32, rest: Seq<u8>, queue: Seq<Fd>)
        requires
            x.ser_ok(),
            x.rt_ok(),
            y.ser_ok(),
            y.rt_ok(),
            x.ser_bytes().len() + y.ser_bytes().len() <= usize::MAX,
        ensures
            ({
                let bytes = x.ser_bytes() + y.ser_bytes();
                let fds = x.ser_fds() + y.ser_fds();
                set_offset::dsr_spec(bytes + rest, queue + fds.reverse()) == Decoded::Value(
                    (x.deep_view(), y.deep_view(),),
                    bytes.len(),
                    queue,
                )
            }),
    {
        let m = set_offset { x, y };
        m.lemma_roundtrip(rest, queue);
    }

    /// The message creates no object.
    pub proof fn lemma_creates(&self)
        ensures
            self.created_id() is None,
    {
    }
}

impl Msg<Obj> for set_offset {
    open spec fn opcode() -> u16 {
        6
    }

    open spec fn since_version() -> u32 {
        1
    }

    open spec fn created_id(&self) -> Option<u32> {
        None
    }

    open spec fn created_destructor(&self) -> Option<u16> {
        None
    }

    fn op() -> (r: u16) {
        6
    }

    fn since() -> u32 {
        1
    }

    fn new_id(&self) -> (r: Option<(u32, ObjMeta)>) {
        None
    }
}

impl Request<Obj> for set_offset {

}

/// continuously reconstrain the surface
///
/// When set reactive, the surface is reconstrained if the conditions used
/// for constraining changed, e.g. the parent window moved.
///
/// If the conditions changed and the popup was reconstrained, an
/// xdg_popup.configure event is sent with updated geometry, followed by an
/// xdg_surface.configure event.
///
#[derive(Debug)]
pub struct set_reactive {}

impl Ser for set_reactive {
    open spec fn ser_ok(&self) -> bool {
        true
    }

    open spec fn ser_bytes(&self) -> Seq<u8> {
        Seq::empty()
    }

    open spec fn ser_fds(&self) -> Seq<Fd> {
        Seq::empty()
    }

    fn wire_len(&self) -> (n: usize) {
        0
    }

    fn checked_len(&self) -> (r: Option<usize>) {
        Some(0)
    }

    open spec fn ser_fits(&self, cap: int) -> bool {
        true
    }

    fn serialize(self, buf: &mut [u8], fds: &mut Vec<Fd>) -> (r: Result<usize, &'static str>) {
        assert(buf@ =~= write_at(old(buf)@, 0, Seq::<u8>::empty()));
        assert(fds@ =~= old(fds)@ + Seq::<Fd>::empty());
        Ok(0)
    }

    proof fn lemma_fits(&self, cap: int) {
    }
}

impl DeepView for set_reactive {
    type V = ();

    open spec fn deep_view(&self) -> () {
        ()
    }
}

impl Dsr for set_reactive {
    open spec fn dsr_spec(buf: Seq<u8>, fds: Seq<Fd>) -> Decoded<()> {
        Decoded::Value((), 0, fds)
    }

    fn try_deserialize(buf: &[u8], fds: &mut Vec<Fd>) -> (r: Option<Result<(set_reactive, usize), &'static str>>) {
        Some(Ok((set_reactive {}, 0)))
    }
}

impl Codec for set_reactive {
    open spec fn rt_ok(&self) -> bool {
        true
    }

    proof fn lemma_roundtrip(&self, tail: Seq<u8>, base: Seq<Fd>) {
        assert(Seq::<Fd>::empty().reverse() =~= Seq::<Fd>::empty());
        assert(base + Seq::<Fd>::empty() =~= base);
    }
}

impl set_reactive {
    /// The arguments are read in the protocol's order, no arguments: the bytes
    /// and descriptors written for such arguments, one after the other,
    /// decode to exactly those arguments.
    pub proof fn lemma_layout(rest: Seq<u8>, queue: Seq<Fd>)
        ensures
            ({
                let bytes = Seq::<u8>::empty();
                let fds = Seq::<Fd>::empty();
                set_reactive::dsr_spec(bytes + rest, queue + fds.reverse()) == Decoded::Value(
                    (),
                    bytes.len(),
                    queue,
                )
            }),
    {
        let m = set_reactive {};
        m.lemma_roundtrip(rest, queue);
    }

    /// The message creates no object.
    pub proof fn lemma_creates(&self)
        ensures
            self.created_id() is None,
    {
    }
}

impl Msg<Obj> for set_reactive {
    open spec fn opcode() -> u16 {
        7
    }

    open spec fn since_version() -> u32 {
        1
    }

    open spec fn created_id(&self) -> Option<u32> {
        None
    }

    open spec fn created_destructor(&self) -> Option<u16> {
        None
    }

    fn op() -> (r: u16) {
        7
    }

    fn since() -> u32 {
        1
    }

    fn new_id(&self) -> (r: Option<(u32, ObjMeta)>) {
        None
    }
}

impl Request<Obj> for set_reactive {

}

///
/// Set the parent window geometry the compositor should use when
/// positioning the popup. The compositor may use this information to
/// determine the future state the popup should be constrained using. If
/// this doesn't match the dimension of the parent the popup is eventually
/// positioned against, the behavior is undefined.
///
/// The arguments are given in the surface-local coordinate space.
///
#[derive(Debug)]
pub struct set_parent_size {
    // future window geometry width of parent
    pub parent_width: i32,
    // future window geometry height of parent
    pub parent_height: i32,
}

impl Ser for set_parent_size {
    open spec fn ser_ok(&self) -> bool {
        &&& self.parent_width.ser_ok()
        &&& self.parent_height.ser_ok()
        &&& self.ser_bytes().len() <= usize::MAX
    }

    open spec fn ser_bytes(&self) -> Seq<u8> {
        self.parent_width.ser_bytes() + self.parent_height.ser_bytes()
    }

    open spec fn ser_fds(&self) -> Seq<Fd> {
        self.parent_width.ser_fds() + self.parent_height.ser_fds()
    }

    fn wire_len(&self) -> (n: usize) {
        self.parent_width.wire_len() + self.parent_height.wire_len()
    }

    fn checked_len(&self) -> (r: Option<usize>) {
        let n0 = match self.parent_width.checked_len() {
            Some(m) => m,
            None => return None,
        };
        let n1 = match self.parent_height.checked_len() {
            Some(m) => match n0.checked_add(m) {
                Some(t) => t,
                None => return None,
            },
            None => return None,
        };
        Some(n1)
    }

    open spec fn ser_fits(&self, cap: int) -> bool {
        &&& 0 <= cap && self.parent_width.ser_fits(cap - (0))
        &&& self.parent_width.ser_bytes().len() <= cap && self.parent_height.ser_fits(cap - (self.parent_width.ser_bytes().len()))
    }

    fn serialize(self, buf: &mut [u8], fds: &mut Vec<Fd>) -> (r: Result<usize, &'static str>) {
        let ghost me = self;
        let ghost b0 = buf@;
        let mut n: usize = 0;
        n = n + ser_at(self.parent_width, buf, n, fds);
        assert(fds@ =~= old(fds)@ + me.parent_width.ser_fds());
        n = n + ser_at(self.parent_height, buf, n, fds);
        proof {
            lemma_write_then(b0, 0, me.parent_width.ser_bytes(), me.parent_height.ser_bytes());
        }
        assert(fds@ =~= old(fds)@ + me.ser_fds());
        Ok(n)
    }

    proof fn lemma_fits(&self, cap: int) {
        self.parent_width.lemma_fits(cap - (0));
        self.parent_height.lemma_fits(cap - (self.parent_width.ser_bytes().len()));
    }
}

impl DeepView for set_parent_size {
    type V = (<i32 as DeepView>::V, <i32 as DeepView>::V,);

    open spec fn deep_view(&self) -> (<i32 as DeepView>::V, <i32 as DeepView>::V,) {
        (self.parent_width.deep_view(), self.parent_height.deep_view(),)
    }
}

impl Dsr for set_parent_size {
    open spec fn dsr_spec(buf: Seq<u8>, fds: Seq<Fd>) -> Decoded<(<i32 as DeepView>::V, <i32 as DeepView>::V,)> {
        match <i32>::dsr_spec(buf, fds) {
            Decoded::Value(parent_width, n0, q0) => {
                match <i32>::dsr_spec(buf.skip(n0 as int), q0) {
                    Decoded::Value(parent_height, m1, q1) => {
                        let n1 = n0 + m1;
                        Decoded::Value((parent_width, parent_height,), n1, q1)
                    },
                    d => d.fail(),
                }
            },
            d => d.fail(),
        }
    }

    fn try_deserialize(buf: &[u8], fds: &mut Vec<Fd>) -> (r: Option<Result<(set_parent_size, usize), &'static str>>) {
        let mut n: usize = 0;
        let rest = &buf[n..buf.len()];
        assert(rest@ =~= buf@.skip(n as int));
        assert(n == 0 ==> rest@ =~= buf@);
        let (parent_width, m) = match <i32>::try_deserialize(rest, fds) {
            Some(Ok(p)) => p,
            Some(Err(e)) => return Some(Err(e)),
            None => return None,
        };
        n = n + m;
        let rest = &buf[n..buf.len()];
        assert(rest@ =~= buf@.skip(n as int));
        assert(n == 0 ==> rest@ =~= buf@);
        let (parent_height, m) = match <i32>::try_deserialize(rest, fds) {
            Some(Ok(p)) => p,
            Some(Err(e)) => return Some(Err(e)),
            None => return None,
        };
        n = n + m;
        Some(Ok((set_parent_size { parent_width, parent_height }, n)))
    }
}

impl Codec for set_parent_size {
    open spec fn rt_ok(&self) -> bool {
        &&& self.parent_width.rt_ok()
        &&& self.parent_height.rt_ok()
    }

    proof fn lemma_roundtrip(&self, tail: Seq<u8>, base: Seq<Fd>) {
        let b0 = self.parent_width.ser_bytes();
        let b1 = self.parent_height.ser_bytes();
        let d0 = self.parent_width.ser_fds();
        let d1 = self.parent_height.ser_fds();
        let s2 = tail;
        let s1 = b1 + s2;
        let s0 = b0 + s1;
        let buf = self.ser_bytes() + tail;
        assert(buf =~= s0);
        assert(buf.skip(0) =~= s0);
        assert(self.ser_fds() =~= Seq::<Fd>::empty());
        assert(base + self.ser_fds().reverse() =~= base);
        assert(d0 =~= Seq::<Fd>::empty());
        assert(base + d0.reverse() =~= base);
        self.parent_width.lemma_roundtrip(s1, base);
        assert(buf.skip((b0.len()) as int) == s1) by {
            lemma_skip_step(buf, (0) as int, b0, s1);
        }
        assert(d1 =~= Seq::<Fd>::empty());
        assert(base + d1.reverse() =~= base);
        self.parent_height.lemma_roundtrip(s2, base);
    }
}

impl set_parent_size {
    /// The arguments are read in the protocol's order, `parent_width`, then `parent_height`: the bytes
    /// and descriptors written for such arguments, one after the other,
    /// decode to exactly those arguments.
    pub proof fn lemma_layout(parent_width: i32, parent_height: i32, rest: Seq<u8>, queue: Seq<Fd>)
        requires
            parent_width.ser_ok(),
            parent_width.rt_ok(),
            parent_height.ser_ok(),
            parent_height.rt_ok(),
            parent_width.ser_bytes().len() + parent_height.ser_bytes().len() <= usize::MAX,
        ensures
            ({
                let bytes = parent_width.ser_bytes() + parent_height.ser_bytes();
                let fds = parent_width.ser_fds() + parent_height.ser_fds();
                set_parent_size::dsr_spec(bytes + rest, queue + fds.reverse()) == Decoded::Value(
                    (parent_width.deep_view(), parent_height.deep_view(),),
                    bytes.len(),
                    queue,
                )
            }),
    {
        let m = set_parent_size { parent_width, parent_height };
        m.lemma_roundtrip(rest, queue);
    }

    /// The message creates no object.
    pub proof fn lemma_creates(&self)
        ensures
            self.created_id() is None,
    {
    }
}

impl Msg<Obj> for set_parent_size {
    open spec fn opcode() -> u16 {
        8
    }

    open spec fn since_version() -> u32 {
        1
    }

    open spec fn created_id(&self) -> Option<u32> {
        None
    }

    open spec fn created_destructor(&self) -> Option<u16> {
        None
    }

    fn op() -> (r: u16) {
        8
    }

    fn since() -> u32 {
        1
    }

    fn new_id(&self) -> (r: Option<(u32, ObjMeta)>) {
        None
    }
}

impl Request<Obj> for set_parent_size {

}

/// set parent configure this is a response to
///
/// Set the serial of an xdg_surface.configure event this positioner will be
/// used in response to. The compositor may use this information together
/// with set_parent_size to determine what future state the popup should be
/// constrained using.
///
#[derive(Debug)]
pub struct set_parent_configure {
    // serial of parent configure event
    pub serial: u32,
}

impl Ser for set_parent_configure {
    open spec fn ser_ok(&self) -> bool {
        &&& self.serial.ser_ok()
        &&& self.ser_bytes().len() <= usize::MAX
    }

    open spec fn ser_bytes(&self) -> Seq<u8> {
        self.serial.ser_bytes()
    }

    open spec fn ser_fds(&self) -> Seq<Fd> {
        self.serial.ser_fds()
    }

    fn wire_len(&self) -> (n: usize) {
        self.serial.wire_len()
    }

    fn checked_len(&self) -> (r: Option<usize>) {
        let n0 = match self.serial.checked_len() {
            Some(m) => m,
            None => return None,
        };
        Some(n0)
    }

    open spec fn ser_fits(&self, cap: int) -> bool {
        &&& 0 <= cap && self.serial.ser_fits(cap - (0))
    }

    fn serialize(self, buf: &mut [u8], fds: &mut Vec<Fd>) -> (r: Result<usize, &'static str>) {
        let ghost me = self;
        let ghost b0 = buf@;
        let mut n: usize = 0;
        n = n + ser_at(self.serial, buf, n, fds);
        assert(fds@ =~= old(fds)@ + me.ser_fds());
        Ok(n)
    }

    proof fn lemma_fits(&self, cap: int) {
        self.serial.lemma_fits(cap - (0));
    }
}

impl DeepView for set_parent_configure {
    type V = (<u32 as DeepView>::V,);

    open spec fn deep_view(&self) -> (<u32 as DeepView>::V,) {
        (self.serial.deep_view(),)
    }
}

impl Dsr for set_parent_configure {
    open spec fn dsr_spec(buf: Seq<u8>, fds: Seq<Fd>) -> Decoded<(<u32 as DeepView>::V,)> {
        match <u32>::dsr_spec(buf, fds) {
            Decoded::Value(serial, n0, q0) => Decoded::Value((serial,), n0, q0),
            d => d.fail(),
        }
    }

    fn try_deserialize(buf: &[u8], fds: &mut Vec<Fd>) -> (r: Option<Result<(set_parent_configure, usize), &'static str>>) {
        let mut n: usize = 0;
        let rest = &buf[n..buf.len()];
        assert(rest@ =~= buf@.skip(n as int));
        assert(n == 0 ==> rest@ =~= buf@);
        let (serial, m) = match <u32>::try_deserialize(rest, fds) {
            Some(Ok(p)) => p,
            Some(Err(e)) => return Some(Err(e)),
            None => return None,
        };
        n = n + m;
        Some(Ok((set_parent_configure { serial }, n)))
    }
}

impl Codec for set_parent_configure {
    open spec fn rt_ok(&self) -> bool {
        &&& self.serial.rt_ok()
    }

    proof fn lemma_roundtrip(&self, tail: Seq<u8>, base: Seq<Fd>) {
        let b0 = self.serial.ser_bytes();
        let d0 = self.serial.ser_fds();
        let s1 = tail;
        let s0 = b0 + s1;
        let buf = self.ser_bytes() + tail;
        assert(buf =~= s0);
        assert(buf.skip(0) =~= s0);
        assert(self.ser_fds() =~= Seq::<Fd>::empty());
        assert(base + self.ser_fds().reverse() =~= base);
        assert(d0 =~= Seq::<Fd>::empty());
        assert(base + d0.reverse() =~= base);
        self.serial.lemma_roundtrip(s1, base);
    }
}

impl set_parent_configure {
    /// The arguments are read in the protocol's order, `serial`: the bytes
    /// and descriptors written for such arguments, one after the other,
    /// decode to exactly those arguments.
    pub proof fn lemma_layout(serial: u32, rest: Seq<u8>, queue: Seq<Fd>)
        requires
            serial.ser_ok(),
            serial.rt_ok(),
            serial.ser_bytes().len() <= usize::MAX,
        ensures
            ({
                let bytes = serial.ser_bytes();
                let fds = serial.ser_fds();
                set_parent_configure::dsr_spec(bytes + rest, queue + fds.reverse()) == Decoded::Value(
                    (serial.deep_view(),),
                    bytes.len(),
                    queue,
                )
            }),
    {
        let m = set_parent_configure { serial };
        m.lemma_roundtrip(rest, queue);
    }

    /// The message creates no object.
    pub proof fn lemma_creates(&self)
        ensures
            self.created_id() is None,
    {
    }
}

impl Msg<Obj> for set_parent_configure {
    open spec fn opcode() -> u16 {
        9
    }

    open spec fn since_version() -> u32 {
        1
    }

    open spec fn created_id(&self) -> Option<u32> {
        None
    }

    open spec fn created_destructor(&self) -> Option<u16> {
        None
    }

    fn op() -> (r: u16) {
        9
    }

    fn since() -> u32 {
        1
    }

    fn new_id(&self) -> (r: Option<(u32, ObjMeta)>) {
        None
    }
}

impl Request<Obj> for set_parent_configure {

}

/// The opcode of each request: its index in the protocol's list of the
/// interface's requests, so that no two requests share one.
pub proof fn lemma_opcodes()
    ensures
        <destroy as Msg<Obj>>::opcode() == 0,
        <set_size as Msg<Obj>>::opcode() == 1,
        <set_anchor_rect as Msg<Obj>>::opcode() == 2,
        <set_anchor as Msg<Obj>>::opcode() == 3,
        <set_gravity as Msg<Obj>>::opcode() == 4,
        <set_constraint_adjustment as Msg<Obj>>::opcode() == 5,
        <set_offset as Msg<Obj>>::opcode() == 6,
        <set_reactive as Msg<Obj>>::opcode() == 7,
        <set_parent_size as Msg<Obj>>::opcode() == 8,
        <set_parent_configure as Msg<Obj>>::opcode() == 9,
        <destroy as Msg<Obj>>::opcode() != <set_size as Msg<Obj>>::opcode(),
        <destroy as Msg<Obj>>::opcode() != <set_anchor_rect as Msg<Obj>>::opcode(),
        <destroy as Msg<Obj>>::opcode() != <set_anchor as Msg<Obj>>::opcode(),
        <destroy as Msg<Obj>>::opcode() != <set_gravity as Msg<Obj>>::opcode(),
        <destroy as Msg<Obj>>::opcode() != <set_constraint_adjustment as Msg<Obj>>::opcode(),
        <destroy as Msg<Obj>>::opcode() != <set_offset as Msg<Obj>>::opcode(),
        <destroy as Msg<Obj>>::opcode() != <set_reactive as Msg<Obj>>::opcode(),
        <destroy as Msg<Obj>>::opcode() != <set_parent_size as Msg<Obj>>::opcode(),
        <destroy as Msg<Obj>>::opcode() != <set_parent_configure as Msg<Obj>>::opcode(),
        <set_size as Msg<Obj>>::opcode() != <set_anchor_rect as Msg<Obj>>::opcode(),
        <set_size as Msg<Obj>>::opcode() != <set_anchor as Msg<Obj>>::opcode(),
        <set_size as Msg<Obj>>::opcode() != <set_gravity as Msg<Obj>>::opcode(),
        <set_size as Msg<Obj>>::opcode() != <set_constraint_adjustment as Msg<Obj>>::opcode(),
        <set_size as Msg<Obj>>::opcode() != <set_offset as Msg<Obj>>::opcode(),
        <set_size as Msg<Obj>>::opcode() != <set_reactive as Msg<Obj>>::opcode(),
        <set_size as Msg<Obj>>::opcode() != <set_parent_size as Msg<Obj>>::opcode(),
        <set_size as Msg<Obj>>::opcode() != <set_parent_configure as Msg<Obj>>::opcode(),
        <set_anchor_rect as Msg<Obj>>::opcode() != <set_anchor as Msg<Obj>>::opcode(),
        <set_anchor_rect as Msg<Obj>>::opcode() != <set_gravity as Msg<Obj>>::opcode(),
        <set_anchor_rect as Msg<Obj>>::opcode() != <set_constraint_adjustment as Msg<Obj>>::opcode(),
        <set_anchor_rect as Msg<Obj>>::opcode() != <set_offset as Msg<Obj>>::opcode(),
        <set_anchor_rect as Msg<Obj>>::opcode() != <set_reactive as Msg<Obj>>::opcode(),
        <set_anchor_rect as Msg<Obj>>::opcode() != <set_parent_size as Msg<Obj>>::opcode(),
        <set_anchor_rect as Msg<Obj>>::opcode() != <set_parent_configure as Msg<Obj>>::opcode(),
        <set_anchor as Msg<Obj>>::opcode() != <set_gravity as Msg<Obj>>::opcode(),
        <set_anchor as Msg<Obj>>::opcode() != <set_constraint_adjustment as Msg<Obj>>::opcode(),
        <set_anchor as Msg<Obj>>::opcode() != <set_offset as Msg<Obj>>::opcode(),
        <set_anchor as Msg<Obj>>::opcode() != <set_reactive as Msg<Obj>>::opcode(),
        <set_anchor as Msg<Obj>>::opcode() != <set_parent_size as Msg<Obj>>::opcode(),
        <set_anchor as Msg<Obj>>::opcode() != <set_parent_configure as Msg<Obj>>::opcode(),
        <set_gravity as Msg<Obj>>::opcode() != <set_constraint_adjustment as Msg<Obj>>::opcode(),
        <set_gravity as Msg<Obj>>::opcode() != <set_offset as Msg<Obj>>::opcode(),
        <set_gravity as Msg<Obj>>::opcode() != <set_reactive as Msg<Obj>>::opcode(),
        <set_gravity as Msg<Obj>>::opcode() != <set_parent_size as Msg<Obj>>::opcode(),
        <set_gravity as Msg<Obj>>::opcode() != <set_parent_configure as Msg<Obj>>::opcode(),
        <set_constraint_adjustment as Msg<Obj>>::opcode() != <set_offset as Msg<Obj>>::opcode(),
        <set_constraint_adjustment as Msg<Obj>>::opcode() != <set_reactive as Msg<Obj>>::opcode(),
        <set_constraint_adjustment as Msg<Obj>>::opcode() != <set_parent_size as Msg<Obj>>::opcode(),
        <set_constraint_adjustment as Msg<Obj>>::opcode() != <set_parent_configure as Msg<Obj>>::opcode(),
        <set_offset as Msg<Obj>>::opcode() != <set_reactive as Msg<Obj>>::opcode(),
        <set_offset as Msg<Obj>>::opcode() != <set_parent_size as Msg<Obj>>::opcode(),
        <set_offset as Msg<Obj>>::opcode() != <set_parent_configure as Msg<Obj>>::opcode(),
        <set_reactive as Msg<Obj>>::opcode() != <set_parent_size as Msg<Obj>>::opcode(),
        <set_reactive as Msg<Obj>>::opcode() != <set_parent_configure as Msg<Obj>>::opcode(),
        <set_parent_size as Msg<Obj>>::opcode() != <set_parent_configure as Msg<Obj>>::opcode(),
        <Obj as Object>::destructor_op() == Some(<destroy as Msg<Obj>>::opcode()),
{
}

} // verus!
