use vstd::prelude::*;
use crate::objects::{type_id_of, new_id, object, Dyn, ObjMeta, Object, Msg, Event};
use crate::wire::{ser_at, write_at, lemma_write_then, lemma_reverse_add, lemma_skip_step, fixed, Codec, Decoded, Dsr, Fd, Ser};
use super::Obj;

verus! {

/// surface enters an output
///
/// This is emitted whenever a surface's creation, movement, or resizing
/// results in some part of it being within the scanout region of an
/// output.
///
/// Note that a surface may be overlapping with zero or more outputs.
///
#[derive(Debug)]
pub struct enter {
    // output entered by the surface
    pub output: object<crate::wl_output::Obj>,
}

impl Ser for enter {
    open spec fn ser_ok(&self) -> bool {
        &&& self.output.ser_ok()
        &&& self.ser_bytes().len() <= usize::MAX
    }

    open spec fn ser_bytes(&self) -> Seq<u8> {
        self.output.ser_bytes()
    }

    open spec fn ser_fds(&self) -> Seq<Fd> {
        self.output.ser_fds()
    }

    fn wire_len(&self) -> (n: usize) {
        self.output.wire_len()
    }

    fn checked_len(&self) -> (r: Option<usize>) {
        let n0 = match self.output.checked_len() {
            Some(m) => m,
            None => return None,
        };
        Some(n0)
    }

    open spec fn ser_fits(&self, cap: int) -> bool {
        &&& 0 <= cap && self.output.ser_fits(cap - (0))
    }

    fn serialize(self, buf: &mut [u8], fds: &mut Vec<Fd>) -> (r: Result<usize, &'static str>) {
        let ghost me = self;
        let ghost b0 = buf@;
        let mut n: usize = 0;
        n = n + ser_at(self.output, buf, n, fds);
        assert(fds@ =~= old(fds)@ + me.ser_fds());
        Ok(n)
    }

    proof fn lemma_fits(&self, cap: int) {
        self.output.lemma_fits(cap - (0));
    }
}

impl DeepView for enter {
    type V = (<object<crate::wl_output::Obj> as DeepView>::V,);

    open spec fn deep_view(&self) -> (<object<crate::wl_output::Obj> as DeepView>::V,) {
        (self.output.deep_view(),)
    }
}

impl Dsr for enter {
    open spec fn dsr_spec(buf: Seq<u8>, fds: Seq<Fd>) -> Decoded<(<object<crate::wl_output::Obj> as DeepView>::V,)> {
        match <object<crate::wl_output::Obj>>::dsr_spec(buf, fds) {
            Decoded::Value(output, n0, q0) => Decoded::Value((output,), n0, q0),
            d => d.fail(),
        }
    }

    fn try_deserialize(buf: &[u8], fds: &mut Vec<Fd>) -> (r: Option<Result<(enter, usize), &'static str>>) {
        let mut n: usize = 0;
        let rest = &buf[n..buf.len()];
        assert(rest@ =~= buf@.skip(n as int));
        assert(n == 0 ==> rest@ =~= buf@);
        let (output, m) = match <object<crate::wl_output::Obj>>::try_deserialize(rest, fds) {
            Some(Ok(p)) => p,
            Some(Err(e)) => return Some(Err(e)),
            None => return None,
        };
        n = n + m;
        Some(Ok((enter { output }, n)))
    }
}

impl Codec for enter {
    open spec fn rt_ok(&self) -> bool {
        &&& self.output.rt_ok()
    }

    proof fn lemma_roundtrip(&self, tail: Seq<u8>, base: Seq<Fd>) {
        let b0 = self.output.ser_bytes();
        let d0 = self.output.ser_fds();
        let s1 = tail;
        let s0 = b0 + s1;
        let buf = self.ser_bytes() + tail;
        assert(buf =~= s0);
        assert(buf.skip(0) =~= s0);
        assert(self.ser_fds() =~= Seq::<Fd>::empty());
        assert(base + self.ser_fds().reverse() =~= base);
        assert(d0 =~= Seq::<Fd>::empty());
        assert(base + d0.reverse() =~= base);
        self.output.lemma_roundtrip(s1, base);
    }
}

impl enter {
    /// The arguments are read in the protocol's order, `output`: the bytes
    /// and descriptors written for such arguments, one after the other,
    /// decode to exactly those arguments.
    pub proof fn lemma_layout(output: object<crate::wl_output::Obj>, rest: Seq<u8>, queue: Seq<Fd>)
        requires
            output.ser_ok(),
            output.rt_ok(),
            output.ser_bytes().len() <= usize::MAX,
        ensures
            ({
                let bytes = output.ser_bytes();
                let fds = output.ser_fds();
                enter::dsr_spec(bytes + rest, queue + fds.reverse()) == Decoded::Value(
                    (output.deep_view(),),
                    bytes.len(),
                    queue,
                )
            }),
    {
        let m = enter { output };
        m.lemma_roundtrip(rest, queue);
    }

    /// The message creates no object.
    pub proof fn lemma_creates(&self)
        ensures
            self.created_id() is None,
    {
    }
}

impl Msg<Obj> for enter {
    open spec fn opcode() -> u16 {
        0
    }

    open spec fn since_version() -> u32 {
        1
    }

    open spec fn created_id(&self) -> Option<u32> {
        None
    }

    open spec fn created_destructor(&self) -> Option<u16> {
        None
    }

    fn op() -> (r: u16) {
        0
    }

    fn since() -> u32 {
        1
    }

    fn new_id(&self) -> (r: Option<(u32, ObjMeta)>) {
        None
    }
}

impl Event<Obj> for enter {

}

/// surface leaves an output
///
/// This is emitted whenever a surface's creation, movement, or resizing
/// results in it no longer having any part of it within the scanout region
/// of an output.
///
/// Clients should not use the number of outputs the surface is on for frame
/// throttling purposes. The surface might be hidden even if no leave event
/// has been sent, and the compositor might expect new surface content
/// updates even if no enter event has been sent. The frame event should be
/// used instead.
///
#[derive(Debug)]
pub struct leave {
    // output left by the surface
    pub output: object<crate::wl_output::Obj>,
}

impl Ser for leave {
    open spec fn ser_ok(&self) -> bool {
        &&& self.output.ser_ok()
        &&& self.ser_bytes().len() <= usize::MAX
    }

    open spec fn ser_bytes(&self) -> Seq<u8> {
        self.output.ser_bytes()
    }

    open spec fn ser_fds(&self) -> Seq<Fd> {
        self.output.ser_fds()
    }

    fn wire_len(&self) -> (n: usize) {
        self.output.wire_len()
    }

    fn checked_len(&self) -> (r: Option<usize>) {
        let n0 = match self.output.checked_len() {
            Some(m) => m,
            None => return None,
        };
        Some(n0)
    }

    open spec fn ser_fits(&self, cap: int) -> bool {
        &&& 0 <= cap && self.output.ser_fits(cap - (0))
    }

    fn serialize(self, buf: &mut [u8], fds: &mut Vec<Fd>) -> (r: Result<usize, &'static str>) {
        let ghost me = self;
        let ghost b0 = buf@;
        let mut n: usize = 0;
        n = n + ser_at(self.output, buf, n, fds);
        assert(fds@ =~= old(fds)@ + me.ser_fds());
        Ok(n)
    }

    proof fn lemma_fits(&self, cap: int) {
        self.output.lemma_fits(cap - (0));
    }
}

impl DeepView for leave {
    type V = (<object<crate::wl_output::Obj> as DeepView>::V,);

    open spec fn deep_view(&self) -> (<object<crate::wl_output::Obj> as DeepView>::V,) {
        (self.output.deep_view(),)
    }
}

impl Dsr for leave {
    open spec fn dsr_spec(buf: Seq<u8>, fds: Seq<Fd>) -> Decoded<(<object<crate::wl_output::Obj> as DeepView>::V,)> {
        match <object<crate::wl_output::Obj>>::dsr_spec(buf, fds) {
            Decoded::Value(output, n0, q0) => Decoded::Value((output,), n0, q0),
            d => d.fail(),
        }
    }

    fn try_deserialize(buf: &[u8], fds: &mut Vec<Fd>) -> (r: Option<Result<(leave, usize), &'static str>>) {
        let mut n: usize = 0;
        let rest = &buf[n..buf.len()];
        assert(rest@ =~= buf@.skip(n as int));
        assert(n == 0 ==> rest@ =~= buf@);
        let (output, m) = match <object<crate::wl_output::Obj>>::try_deserialize(rest, fds) {
            Some(Ok(p)) => p,
            Some(Err(e)) => return Some(Err(e)),
            None => return None,
        };
        n = n + m;
        Some(Ok((leave { output }, n)))
    }
}

impl Codec for leave {
    open spec fn rt_ok(&self) -> bool {
        &&& self.output.rt_ok()
    }

    proof fn lemma_roundtrip(&self, tail: Seq<u8>, base: Seq<Fd>) {
        let b0 = self.output.ser_bytes();
        let d0 = self.output.ser_fds();
        let s1 = tail;
        let s0 = b0 + s1;
        let buf = self.ser_bytes() + tail;
        assert(buf =~= s0);
        assert(buf.skip(0) =~= s0);
        assert(self.ser_fds() =~= Seq::<Fd>::empty());
        assert(base + self.ser_fds().reverse() =~= base);
        assert(d0 =~= Seq::<Fd>::empty());
        assert(base + d0.reverse() =~= base);
        self.output.lemma_roundtrip(s1, base);
    }
}

impl leave {
    /// The arguments are read in the protocol's order, `output`: the bytes
    /// and descriptors written for such arguments, one after the other,
    /// decode to exactly those arguments.
    pub proof fn lemma_layout(output: object<crate::wl_output::Obj>, rest: Seq<u8>, queue: Seq<Fd>)
        requires
            output.ser_ok(),
            output.rt_ok(),
            output.ser_bytes().len() <= usize::MAX,
        ensures
            ({
                let bytes = output.ser_bytes();
                let fds = output.ser_fds();
                leave::dsr_spec(bytes + rest, queue + fds.reverse()) == Decoded::Value(
                    (output.deep_view(),),
                    bytes.len(),
                    queue,
                )
            }),
    {
        let m = leave { output };
        m.lemma_roundtrip(rest, queue);
    }

    /// The message creates no object.
    pub proof fn lemma_creates(&self)
        ensures
            self.created_id() is None,
    {
    }
}

impl Msg<Obj> for leave {
    open spec fn opcode() -> u16 {
        1
    }

    open spec fn since_version() -> u32 {
        1
    }

    open spec fn created_id(&self) -> Option<u32> {
        None
    }

    open spec fn created_destructor(&self) -> Option<u16> {
        None
    }

    fn op() -> (r: u16) {
        1
    }

    fn since() -> u32 {
        1
    }

    fn new_id(&self) -> (r: Option<(u32, ObjMeta)>) {
        None
    }
}

impl Event<Obj> for leave {

}

/// preferred buffer scale for the surface
///
/// This event indicates the preferred buffer scale for this surface. It is
/// sent whenever the compositor's preference changes.
///
/// It is intended that scaling aware clients use this event to scale their
/// content and use wl_surface.set_buffer_scale to indicate the scale they
/// have rendered with. This allows clients to supply a higher detail
/// buffer.
///
#[derive(Debug)]
pub struct preferred_buffer_scale {
    // preferred scaling factor
    pub factor: i32,
}

impl Ser for preferred_buffer_scale {
    open spec fn ser_ok(&self) -> bool {
        &&& self.factor.ser_ok()
        &&& self.ser_bytes().len() <= usize::MAX
    }

    open spec fn ser_bytes(&self) -> Seq<u8> {
        self.factor.ser_bytes()
    }

    open spec fn ser_fds(&self) -> Seq<Fd> {
        self.factor.ser_fds()
    }

    fn wire_len(&self) -> (n: usize) {
        self.factor.wire_len()
    }

    fn checked_len(&self) -> (r: Option<usize>) {
        let n0 = match self.factor.checked_len() {
            Some(m) => m,
            None => return None,
        };
        Some(n0)
    }

    open spec fn ser_fits(&self, cap: int) -> bool {
        &&& 0 <= cap && self.factor.ser_fits(cap - (0))
    }

    fn serialize(self, buf: &mut [u8], fds: &mut Vec<Fd>) -> (r: Result<usize, &'static str>) {
        let ghost me = self;
        let ghost b0 = buf@;
        let mut n: usize = 0;
        n = n + ser_at(self.factor, buf, n, fds);
        assert(fds@ =~= old(fds)@ + me.ser_fds());
        Ok(n)
    }

    proof fn lemma_fits(&self, cap: int) {
        self.factor.lemma_fits(cap - (0));
    }
}

impl DeepView for preferred_buffer_scale {
    type V = (<i32 as DeepView>::V,);

    open spec fn deep_view(&self) -> (<i32 as DeepView>::V,) {
        (self.factor.deep_view(),)
    }
}

impl Dsr for preferred_buffer_scale {
    open spec fn dsr_spec(buf: Seq<u8>, fds: Seq<Fd>) -> Decoded<(<i32 as DeepView>::V,)> {
        match <i32>::dsr_spec(buf, fds) {
            Decoded::Value(factor, n0, q0) => Decoded::Value((factor,), n0, q0),
            d => d.fail(),
        }
    }

    fn try_deserialize(buf: &[u8], fds: &mut Vec<Fd>) -> (r: Option<Result<(preferred_buffer_scale, usize), &'static str>>) {
        let mut n: usize = 0;
        let rest = &buf[n..buf.len()];
        assert(rest@ =~= buf@.skip(n as int));
        assert(n == 0 ==> rest@ =~= buf@);
        let (factor, m) = match <i32>::try_deserialize(rest, fds) {
            Some(Ok(p)) => p,
            Some(Err(e)) => return Some(Err(e)),
            None => return None,
        };
        n = n + m;
        Some(Ok((preferred_buffer_scale { factor }, n)))
    }
}

impl Codec for preferred_buffer_scale {
    open spec fn rt_ok(&self) -> bool {
        &&& self.factor.rt_ok()
    }

    proof fn lemma_roundtrip(&self, tail: Seq<u8>, base: Seq<Fd>) {
        let b0 = self.factor.ser_bytes();
        let d0 = self.factor.ser_fds();
        let s1 = tail;
        let s0 = b0 + s1;
        let buf = self.ser_bytes() + tail;
        assert(buf =~= s0);
        assert(buf.skip(0) =~= s0);
        assert(self.ser_fds() =~= Seq::<Fd>::empty());
        assert(base + self.ser_fds().reverse() =~= base);
        assert(d0 =~= Seq::<Fd>::empty());
        assert(base + d0.reverse() =~= base);
        self.factor.lemma_roundtrip(s1, base);
    }
}

impl preferred_buffer_scale {
    /// The arguments are read in the protocol's order, `factor`: the bytes
    /// and descriptors written for such arguments, one after the other,
    /// decode to exactly those arguments.
    pub proof fn lemma_layout(factor: i32, rest: Seq<u8>, queue: Seq<Fd>)
        requires
            factor.ser_ok(),
            factor.rt_ok(),
            factor.ser_bytes().len() <= usize::MAX,
        ensures
            ({
                let bytes = factor.ser_bytes();
                let fds = factor.ser_fds();
                preferred_buffer_scale::dsr_spec(bytes + rest, queue + fds.reverse()) == Decoded::Value(
                    (factor.deep_view(),),
                    bytes.len(),
                    queue,
                )
            }),
    {
        let m = preferred_buffer_scale { factor };
        m.lemma_roundtrip(rest, queue);
    }

    /// The message creates no object.
    pub proof fn lemma_creates(&self)
        ensures
            self.created_id() is None,
    {
    }
}

impl Msg<Obj> for preferred_buffer_scale {
    open spec fn opcode() -> u16 {
        2
    }

    open spec fn since_version() -> u32 {
        1
    }

    open spec fn created_id(&self) -> Option<u32> {
        None
    }

    open spec fn created_destructor(&self) -> Option<u16> {
        None
    }

    fn op() -> (r: u16) {
        2
    }

    fn since() -> u32 {
        1
    }

    fn new_id(&self) -> (r: Option<(u32, ObjMeta)>) {
        None
    }
}

impl Event<Obj> for preferred_buffer_scale {

}

/// preferred buffer transform for the surface
///
/// This event indicates the preferred buffer transform for this surface.
/// It is sent whenever the compositor's preference changes.
///
/// It is intended that transform aware clients use this event to apply the
/// transform to their content and use wl_surface.set_buffer_transform to
/// indicate the transform they have rendered with.
///
#[derive(Debug)]
pub struct preferred_buffer_transform {
    // preferred transform
    pub transform: crate::wl_output::transform,
}

impl Ser for preferred_buffer_transform {
    open spec fn ser_ok(&self) -> bool {
        &&& self.transform.ser_ok()
        &&& self.ser_bytes().len() <= usize::MAX
    }

    open spec fn ser_bytes(&self) -> Seq<u8> {
        self.transform.ser_bytes()
    }

    open spec fn ser_fds(&self) -> Seq<Fd> {
        self.transform.ser_fds()
    }

    fn wire_len(&self) -> (n: usize) {
        self.transform.wire_len()
    }

    fn checked_len(&self) -> (r: Option<usize>) {
        let n0 = match self.transform.checked_len() {
            Some(m) => m,
            None => return None,
        };
        Some(n0)
    }

    open spec fn ser_fits(&self, cap: int) -> bool {
        &&& 0 <= cap && self.transform.ser_fits(cap - (0))
    }

    fn serialize(self, buf: &mut [u8], fds: &mut Vec<Fd>) -> (r: Result<usize, &'static str>) {
        let ghost me = self;
        let ghost b0 = buf@;
        let mut n: usize = 0;
        n = n + ser_at(self.transform, buf, n, fds);
        assert(fds@ =~= old(fds)@ + me.ser_fds());
        Ok(n)
    }

    proof fn lemma_fits(&self, cap: int) {
        self.transform.lemma_fits(cap - (0));
    }
}

impl DeepView for preferred_buffer_transform {
    type V = (<crate::wl_output::transform as DeepView>::V,);

    open spec fn deep_view(&self) -> (<crate::wl_output::transform as DeepView>::V,) {
        (self.transform.deep_view(),)
    }
}

impl Dsr for preferred_buffer_transform {
    open spec fn dsr_spec(buf: Seq<u8>, fds: Seq<Fd>) -> Decoded<(<crate::wl_output::transform as DeepView>::V,)> {
        match <crate::wl_output::transform>::dsr_spec(buf, fds) {
            Decoded::Value(transform, n0, q0) => Decoded::Value((transform,), n0, q0),
            d => d.fail(),
        }
    }

    fn try_deserialize(buf: &[u8], fds: &mut Vec<Fd>) -> (r: Option<Result<(preferred_buffer_transform, usize), &'static str>>) {
        let mut n: usize = 0;
        let rest = &buf[n..buf.len()];
        assert(rest@ =~= buf@.skip(n as int));
        assert(n == 0 ==> rest@ =~= buf@);
        let (transform, m) = match <crate::wl_output::transform>::try_deserialize(rest, fds) {
            Some(Ok(p)) => p,
            Some(Err(e)) => return Some(Err(e)),
            None => return None,
        };
        n = n + m;
        Some(Ok((preferred_buffer_transform { transform }, n)))
    }
}

impl Codec for preferred_buffer_transform {
    open spec fn rt_ok(&self) -> bool {
        &&& self.transform.rt_ok()
    }

    proof fn lemma_roundtrip(&self, tail: Seq<u8>, base: Seq<Fd>) {
        let b0 = self.transform.ser_bytes();
        let d0 = self.transform.ser_fds();
        let s1 = tail;
        let s0 = b0 + s1;
        let buf = self.ser_bytes() + tail;
        assert(buf =~= s0);
        assert(buf.skip(0) =~= s0);
        assert(self.ser_fds() =~= Seq::<Fd>::empty());
        assert(base + self.ser_fds().reverse() =~= base);
        assert(d0 =~= Seq::<Fd>::empty());
        assert(base + d0.reverse() =~= base);
        self.transform.lemma_roundtrip(s1, base);
    }
}

impl preferred_buffer_transform {
    /// The arguments are read in the protocol's order, `transform`: the bytes
    /// and descriptors written for such arguments, one after the other,
    /// decode to exactly those arguments.
    pub proof fn lemma_layout(transform: crate::wl_output::transform, rest: Seq<u8>, queue: Seq<Fd>)
        requires
            transform.ser_ok(),
            transform.rt_ok(),
            transform.ser_bytes().len() <= usize::MAX,
        ensures
            ({
                let bytes = transform.ser_bytes();
                let fds = transform.ser_fds();
                preferred_buffer_transform::dsr_spec(bytes + rest, queue + fds.reverse()) == Decoded::Value(
                    (transform.deep_view(),),
                    bytes.len(),
                    queue,
                )
            }),
    {
        let m = preferred_buffer_transform { transform };
        m.lemma_roundtrip(rest, queue);
    }

    /// The message creates no object.
    pub proof fn lemma_creates(&self)
        ensures
            self.created_id() is None,
    {
    }
}

impl Msg<Obj> for preferred_buffer_transform {
    open spec fn opcode() -> u16 {
        3
    }

    open spec fn since_version() -> u32 {
        1
    }

    open spec fn created_id(&self) -> Option<u32> {
        None
    }

    open spec fn created_destructor(&self) -> Option<u16> {
        None
    }

    fn op() -> (r: u16) {
        3
    }

    fn since() -> u32 {
        1
    }

    fn new_id(&self) -> (r: Option<(u32, ObjMeta)>) {
        None
    }
}

impl Event<Obj> for preferred_buffer_transform {

}

/// The opcode of each event: its index in the protocol's list of the
/// interface's events, so that no two events share one.
pub proof fn lemma_opcodes()
    ensures
        <enter as Msg<Obj>>::opcode() == 0,
        <leave as Msg<Obj>>::opcode() == 1,
        <preferred_buffer_scale as Msg<Obj>>::opcode() == 2,
        <preferred_buffer_transform as Msg<Obj>>::opcode() == 3,
        <enter as Msg<Obj>>::opcode() != <leave as Msg<Obj>>::opcode(),
        <enter as Msg<Obj>>::opcode() != <preferred_buffer_scale as Msg<Obj>>::opcode(),
        <enter as Msg<Obj>>::opcode() != <preferred_buffer_transform as Msg<Obj>>::opcode(),
        <leave as Msg<Obj>>::opcode() != <preferred_buffer_scale as Msg<Obj>>::opcode(),
        <leave as Msg<Obj>>::opcode() != <preferred_buffer_transform as Msg<Obj>>::opcode(),
        <preferred_buffer_scale as Msg<Obj>>::opcode() != <preferred_buffer_transform as Msg<Obj>>::opcode(),
{
}

} // verus!
