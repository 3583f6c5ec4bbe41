use vstd::prelude::*;
use crate::objects::{type_id_of, new_id, object, Dyn, ObjMeta, Object, Msg, Request};
use crate::wire::{ser_at, write_at, lemma_write_then, lemma_reverse_add, lemma_skip_step, fixed, Codec, Decoded, Dsr, Fd, Ser};
use super::Obj;

verus! {

/// return pointer object
///
/// The ID provided will be initialized to the wl_pointer interface
/// for this seat.
///
/// This request only takes effect if the seat has the pointer
/// capability, or has had the pointer capability in the past.
/// It is a protocol violation to issue this request on a seat that has
/// never had the pointer capability. The missing_capability error will
/// be sent in this case.
///
#[derive(Debug)]
pub struct get_pointer {
    // seat pointer
    pub id: new_id<crate::wl_pointer::Obj>,
}

impl Ser for get_pointer {
    open spec fn ser_ok(&self) -> bool {
        &&& self.id.ser_ok()
        &&& self.ser_bytes().len() <= usize::MAX
    }

    open spec fn ser_bytes(&self) -> Seq<u8> {
        self.id.ser_bytes()
    }

    open spec fn ser_fds(&self) -> Seq<Fd> {
        self.id.ser_fds()
    }

    fn wire_len(&self) -> (n: usize) {
        self.id.wire_len()
    }

    fn checked_len(&self) -> (r: Option<usize>) {
        let n0 = match self.id.checked_len() {
            Some(m) => m,
            None => return None,
        };
        Some(n0)
    }

    open spec fn ser_fits(&self, cap: int) -> bool {
        &&& 0 <= cap && self.id.ser_fits(cap - (0))
    }

    fn serialize(self, buf: &mut [u8], fds: &mut Vec<Fd>) -> (r: Result<usize, &'static str>) {
        let ghost me = self;
        let ghost b0 = buf@;
        let mut n: usize = 0;
        n = n + ser_at(self.id, buf, n, fds);
        assert(fds@ =~= old(fds)@ + me.ser_fds());
        Ok(n)
    }

    proof fn lemma_fits(&self, cap: int) {
        self.id.lemma_fits(cap - (0));
    }
}

impl DeepView for get_pointer {
    type V = (<new_id<crate::wl_pointer::Obj> as DeepView>::V,);

    open spec fn deep_view(&self) -> (<new_id<crate::wl_pointer::Obj> as DeepView>::V,) {
        (self.id.deep_view(),)
    }
}

impl Dsr for get_pointer {
    open spec fn dsr_spec(buf: Seq<u8>, fds: Seq<Fd>) -> Decoded<(<new_id<crate::wl_pointer::Obj> as DeepView>::V,)> {
        match <new_id<crate::wl_pointer::Obj>>::dsr_spec(buf, fds) {
            Decoded::Value(id, n0, q0) => Decoded::Value((id,), n0, q0),
            d => d.fail(),
        }
    }

    fn try_deserialize(buf: &[u8], fds: &mut Vec<Fd>) -> (r: Option<Result<(get_pointer, usize), &'static str>>) {
        let mut n: usize = 0;
        let rest = &buf[n..buf.len()];
        assert(rest@ =~= buf@.skip(n as int));
        assert(n == 0 ==> rest@ =~= buf@);
        let (id, m) = match <new_id<crate::wl_pointer::Obj>>::try_deserialize(rest, fds) {
            Some(Ok(p)) => p,
            Some(Err(e)) => return Some(Err(e)),
            None => return None,
        };
        n = n + m;
        Some(Ok((get_pointer { id }, n)))
    }
}

impl Codec for get_pointer {
    open spec fn rt_ok(&self) -> bool {
        &&& self.id.rt_ok()
    }

    proof fn lemma_roundtrip(&self, tail: Seq<u8>, base: Seq<Fd>) {
        let b0 = self.id.ser_bytes();
        let d0 = self.id.ser_fds();
        let s1 = tail;
        let s0 = b0 + s1;
        let buf = self.ser_bytes() + tail;
        assert(buf =~= s0);
        assert(buf.skip(0) =~= s0);
        assert(self.ser_fds() =~= Seq::<Fd>::empty());
        assert(base + self.ser_fds().reverse() =~= base);
        assert(d0 =~= Seq::<Fd>::empty());
        assert(base + d0.reverse() =~= base);
        self.id.lemma_roundtrip(s1, base);
    }
}

impl get_pointer {
    /// The arguments are read in the protocol's order, `id`: the bytes
    /// and descriptors written for such arguments, one after the other,
    /// decode to exactly those arguments.
    pub proof fn lemma_layout(id: new_id<crate::wl_pointer::Obj>, rest: Seq<u8>, queue: Seq<Fd>)
        requires
            id.ser_ok(),
            id.rt_ok(),
            id.ser_bytes().len() <= usize::MAX,
        ensures
            ({
                let bytes = id.ser_bytes();
                let fds = id.ser_fds();
                get_pointer::dsr_spec(bytes + rest, queue + fds.reverse()) == Decoded::Value(
                    (id.deep_view(),),
                    bytes.len(),
                    queue,
                )
            }),
    {
        let m = get_pointer { id };
        m.lemma_roundtrip(rest, queue);
    }

    /// The object the message creates is the one its `id` argument names,
    /// with the destructor of that argument's interface.
    pub proof fn lemma_creates(&self)
        ensures
            self.created_id() == Some(self.id.0),
            self.created_destructor() == <crate::wl_pointer::Obj as Object>::destructor_op(),
    {
    }
}

impl Msg<Obj> for get_pointer {
    open spec fn opcode() -> u16 {
        0
    }

    open spec fn since_version() -> u32 {
        1
    }

    open spec fn created_id(&self) -> Option<u32> {
        Some(self.id.0)
    }

    open spec fn created_destructor(&self) -> Option<u16> {
        crate::wl_pointer::Obj::destructor_op()
    }

    fn op() -> (r: u16) {
        0
    }

    fn since() -> u32 {
        1
    }

    fn new_id(&self) -> (r: Option<(u32, ObjMeta)>) {
        let id = self.id.0;
        let meta = ObjMeta {
            alive: true,
            destructor: crate::wl_pointer::Obj::destructor(),
            type_id: type_id_of::<crate::wl_pointer::Obj>(),
        };
        Some((id, meta))
    }
}

impl Request<Obj> for get_pointer {

}

/// return keyboard object
///
/// The ID provided will be initialized to the wl_keyboard interface
/// for this seat.
///
/// This request only takes effect if the seat has the keyboard
/// capability, or has had the keyboard capability in the past.
/// It is a protocol violation to issue this request on a seat that has
/// never had the keyboard capability. The missing_capability error will
/// be sent in this case.
///
#[derive(Debug)]
pub struct get_keyboard {
    // seat keyboard
    pub id: new_id<crate::wl_keyboard::Obj>,
}

impl Ser for get_keyboard {
    open spec fn ser_ok(&self) -> bool {
        &&& self.id.ser_ok()
        &&& self.ser_bytes().len() <= usize::MAX
    }

    open spec fn ser_bytes(&self) -> Seq<u8> {
        self.id.ser_bytes()
    }

    open spec fn ser_fds(&self) -> Seq<Fd> {
        self.id.ser_fds()
    }

    fn wire_len(&self) -> (n: usize) {
        self.id.wire_len()
    }

    fn checked_len(&self) -> (r: Option<usize>) {
        let n0 = match self.id.checked_len() {
            Some(m) => m,
            None => return None,
        };
        Some(n0)
    }

    open spec fn ser_fits(&self, cap: int) -> bool {
        &&& 0 <= cap && self.id.ser_fits(cap - (0))
    }

    fn serialize(self, buf: &mut [u8], fds: &mut Vec<Fd>) -> (r: Result<usize, &'static str>) {
        let ghost me = self;
        let ghost b0 = buf@;
        let mut n: usize = 0;
        n = n + ser_at(self.id, buf, n, fds);
        assert(fds@ =~= old(fds)@ + me.ser_fds());
        Ok(n)
    }

    proof fn lemma_fits(&self, cap: int) {
        self.id.lemma_fits(cap - (0));
    }
}

impl DeepView for get_keyboard {
    type V = (<new_id<crate::wl_keyboard::Obj> as DeepView>::V,);

    open spec fn deep_view(&self) -> (<new_id<crate::wl_keyboard::Obj> as DeepView>::V,) {
        (self.id.deep_view(),)
    }
}

impl Dsr for get_keyboard {
    open spec fn dsr_spec(buf: Seq<u8>, fds: Seq<Fd>) -> Decoded<(<new_id<crate::wl_keyboard::Obj> as DeepView>::V,)> {
        match <new_id<crate::wl_keyboard::Obj>>::dsr_spec(buf, fds) {
            Decoded::Value(id, n0, q0) => Decoded::Value((id,), n0, q0),
            d => d.fail(),
        }
    }

    fn try_deserialize(buf: &[u8], fds: &mut Vec<Fd>) -> (r: Option<Result<(get_keyboard, usize), &'static str>>) {
        let mut n: usize = 0;
        let rest = &buf[n..buf.len()];
        assert(rest@ =~= buf@.skip(n as int));
        assert(n == 0 ==> rest@ =~= buf@);
        let (id, m) = match <new_id<crate::wl_keyboard::Obj>>::try_deserialize(rest, fds) {
            Some(Ok(p)) => p,
            Some(Err(e)) => return Some(Err(e)),
            None => return None,
        };
        n = n + m;
        Some(Ok((get_keyboard { id }, n)))
    }
}

impl Codec for get_keyboard {
    open spec fn rt_ok(&self) -> bool {
        &&& self.id.rt_ok()
    }

    proof fn lemma_roundtrip(&self, tail: Seq<u8>, base: Seq<Fd>) {
        let b0 = self.id.ser_bytes();
        let d0 = self.id.ser_fds();
        let s1 = tail;
        let s0 = b0 + s1;
        let buf = self.ser_bytes() + tail;
        assert(buf =~= s0);
        assert(buf.skip(0) =~= s0);
        assert(self.ser_fds() =~= Seq::<Fd>::empty());
        assert(base + self.ser_fds().reverse() =~= base);
        assert(d0 =~= Seq::<Fd>::empty());
        assert(base + d0.reverse() =~= base);
        self.id.lemma_roundtrip(s1, base);
    }
}

impl get_keyboard {
    /// The arguments are read in the protocol's order, `id`: the bytes
    /// and descriptors written for such arguments, one after the other,
    /// decode to exactly those arguments.
    pub proof fn lemma_layout(id: new_id<crate::wl_keyboard::Obj>, rest: Seq<u8>, queue: Seq<Fd>)
        requires
            id.ser_ok(),
            id.rt_ok(),
            id.ser_bytes().len() <= usize::MAX,
        ensures
            ({
                let bytes = id.ser_bytes();
                let fds = id.ser_fds();
                get_keyboard::dsr_spec(bytes + rest, queue + fds.reverse()) == Decoded::Value(
                    (id.deep_view(),),
                    bytes.len(),
                    queue,
                )
            }),
    {
        let m = get_keyboard { id };
        m.lemma_roundtrip(rest, queue);
    }

    /// The object the message creates is the one its `id` argument names,
    /// with the destructor of that argument's interface.
    pub proof fn lemma_creates(&self)
        ensures
            self.created_id() == Some(self.id.0),
            self.created_destructor() == <crate::wl_keyboard::Obj as Object>::destructor_op(),
    {
    }
}

impl Msg<Obj> for get_keyboard {
    open spec fn opcode() -> u16 {
        1
    }

    open spec fn since_version() -> u32 {
        1
    }

    open spec fn created_id(&self) -> Option<u32> {
        Some(self.id.0)
    }

    open spec fn created_destructor(&self) -> Option<u16> {
        crate::wl_keyboard::Obj::destructor_op()
    }

    fn op() -> (r: u16) {
        1
    }

    fn since() -> u32 {
        1
    }

    fn new_id(&self) -> (r: Option<(u32, ObjMeta)>) {
        let id = self.id.0;
        let meta = ObjMeta {
            alive: true,
            destructor: crate::wl_keyboard::Obj::destructor(),
            type_id: type_id_of::<crate::wl_keyboard::Obj>(),
        };
        Some((id, meta))
    }
}

impl Request<Obj> for get_keyboard {

}

/// return touch object
///
/// The ID provided will be initialized to the wl_touch interface
/// for this seat.
///
/// This request only takes effect if the seat has the touch
/// capability, or has had the touch capability in the past.
/// It is a protocol violation to issue this request on a seat that has
/// never had the touch capability. The missing_capability error will
/// be sent in this case.
///
#[derive(Debug)]
pub struct get_touch {
    // seat touch interface
    pub id: new_id<crate::wl_touch::Obj>,
}

impl Ser for get_touch {
    open spec fn ser_ok(&self) -> bool {
        &&& self.id.ser_ok()
        &&& self.ser_bytes().len() <= usize::MAX
    }

    open spec fn ser_bytes(&self) -> Seq<u8> {
        self.id.ser_bytes()
    }

    open spec fn ser_fds(&self) -> Seq<Fd> {
        self.id.ser_fds()
    }

    fn wire_len(&self) -> (n: usize) {
        self.id.wire_len()
    }

    fn checked_len(&self) -> (r: Option<usize>) {
        let n0 = match self.id.checked_len() {
            Some(m) => m,
            None => return None,
        };
        Some(n0)
    }

    open spec fn ser_fits(&self, cap: int) -> bool {
        &&& 0 <= cap && self.id.ser_fits(cap - (0))
    }

    fn serialize(self, buf: &mut [u8], fds: &mut Vec<Fd>) -> (r: Result<usize, &'static str>) {
        let ghost me = self;
        let ghost b0 = buf@;
        let mut n: usize = 0;
        n = n + ser_at(self.id, buf, n, fds);
        assert(fds@ =~= old(fds)@ + me.ser_fds());
        Ok(n)
    }

    proof fn lemma_fits(&self, cap: int) {
        self.id.lemma_fits(cap - (0));
    }
}

impl DeepView for get_touch {
    type V = (<new_id<crate::wl_touch::Obj> as DeepView>::V,);

    open spec fn deep_view(&self) -> (<new_id<crate::wl_touch::Obj> as DeepView>::V,) {
        (self.id.deep_view(),)
    }
}

impl Dsr for get_touch {
    open spec fn dsr_spec(buf: Seq<u8>, fds: Seq<Fd>) -> Decoded<(<new_id<crate::wl_touch::Obj> as DeepView>::V,)> {
        match <new_id<crate::wl_touch::Obj>>::dsr_spec(buf, fds) {
            Decoded::Value(id, n0, q0) => Decoded::Value((id,), n0, q0),
            d => d.fail(),
        }
    }

    fn try_deserialize(buf: &[u8], fds: &mut Vec<Fd>) -> (r: Option<Result<(get_touch, usize), &'static str>>) {
        let mut n: usize = 0;
        let rest = &buf[n..buf.len()];
        assert(rest@ =~= buf@.skip(n as int));
        assert(n == 0 ==> rest@ =~= buf@);
        let (id, m) = match <new_id<crate::wl_touch::Obj>>::try_deserialize(rest, fds) {
            Some(Ok(p)) => p,
            Some(Err(e)) => return Some(Err(e)),
            None => return None,
        };
        n = n + m;
        Some(Ok((get_touch { id }, n)))
    }
}

impl Codec for get_touch {
    open spec fn rt_ok(&self) -> bool {
        &&& self.id.rt_ok()
    }

    proof fn lemma_roundtrip(&self, tail: Seq<u8>, base: Seq<Fd>) {
        let b0 = self.id.ser_bytes();
        let d0 = self.id.ser_fds();
        let s1 = tail;
        let s0 = b0 + s1;
        let buf = self.ser_bytes() + tail;
        assert(buf =~= s0);
        assert(buf.skip(0) =~= s0);
        assert(self.ser_fds() =~= Seq::<Fd>::empty());
        assert(base + self.ser_fds().reverse() =~= base);
        assert(d0 =~= Seq::<Fd>::empty());
        assert(base + d0.reverse() =~= base);
        self.id.lemma_roundtrip(s1, base);
    }
}

impl get_touch {
    /// The arguments are read in the protocol's order, `id`: the bytes
    /// and descriptors written for such arguments, one after the other,
    /// decode to exactly those arguments.
    pub proof fn lemma_layout(id: new_id<crate::wl_touch::Obj>, rest: Seq<u8>, queue: Seq<Fd>)
        requires
            id.ser_ok(),
            id.rt_ok(),
            id.ser_bytes().len() <= usize::MAX,
        ensures
            ({
                let bytes = id.ser_bytes();
                let fds = id.ser_fds();
                get_touch::dsr_spec(bytes + rest, queue + fds.reverse()) == Decoded::Value(
                    (id.deep_view(),),
                    bytes.len(),
                    queue,
                )
            }),
    {
        let m = get_touch { id };
        m.lemma_roundtrip(rest, queue);
    }

    /// The object the message creates is the one its `id` argument names,
    /// with the destructor of that argument's interface.
    pub proof fn lemma_creates(&self)
        ensures
            self.created_id() == Some(self.id.0),
            self.created_destructor() == <crate::wl_touch::Obj as Object>::destructor_op(),
    {
    }
}

impl Msg<Obj> for get_touch {
    open spec fn opcode() -> u16 {
        2
    }

    open spec fn since_version() -> u32 {
        1
    }

    open spec fn created_id(&self) -> Option<u32> {
        Some(self.id.0)
    }

    open spec fn created_destructor(&self) -> Option<u16> {
        crate::wl_touch::Obj::destructor_op()
    }

    fn op() -> (r: u16) {
        2
    }

    fn since() -> u32 {
        1
    }

    fn new_id(&self) -> (r: Option<(u32, ObjMeta)>) {
        let id = self.id.0;
        let meta = ObjMeta {
            alive: true,
            destructor: crate::wl_touch::Obj::destructor(),
            type_id: type_id_of::<crate::wl_touch::Obj>(),
        };
        Some((id, meta))
    }
}

impl Request<Obj> for get_touch {

}

/// release the seat object
///
/// Using this request a client can tell the server that it is not going to
/// use the seat object anymore.
///
#[derive(Debug)]
pub struct release {}

impl Ser for release {
    open spec fn ser_ok(&self) -> bool {
        true
    }

    open spec fn ser_bytes(&self) -> Seq<u8> {
        Seq::empty()
    }

    open spec fn ser_fds(&self) -> Seq<Fd> {
        Seq::empty()
    }

    fn wire_len(&self) -> (n: usize) {
        0
    }

    fn checked_len(&self) -> (r: Option<usize>) {
        Some(0)
    }

    open spec fn ser_fits(&self, cap: int) -> bool {
        true
    }

    fn serialize(self, buf: &mut [u8], fds: &mut Vec<Fd>) -> (r: Result<usize, &'static str>) {
        assert(buf@ =~= write_at(old(buf)@, 0, Seq::<u8>::empty()));
        assert(fds@ =~= old(fds)@ + Seq::<Fd>::empty());
        Ok(0)
    }

    proof fn lemma_fits(&self, cap: int) {
    }
}

impl DeepView for release {
    type V = ();

    open spec fn deep_view(&self) -> () {
        ()
    }
}

impl Dsr for release {
    open spec fn dsr_spec(buf: Seq<u8>, fds: Seq<Fd>) -> Decoded<()> {
        Decoded::Value((), 0, fds)
    }

    fn try_deserialize(buf: &[u8], fds: &mut Vec<Fd>) -> (r: Option<Result<(release, usize), &'static str>>) {
        Some(Ok((release {}, 0)))
    }
}

impl Codec for release {
    open spec fn rt_ok(&self) -> bool {
        true
    }

    proof fn lemma_roundtrip(&self, tail: Seq<u8>, base: Seq<Fd>) {
        assert(Seq::<Fd>::empty().reverse() =~= Seq::<Fd>::empty());
        assert(base + Seq::<Fd>::empty() =~= base);
    }
}

impl release {
    /// The arguments are read in the protocol's order, no arguments: the bytes
    /// and descriptors written for such arguments, one after the other,
    /// decode to exactly those arguments.
    pub proof fn lemma_layout(rest: Seq<u8>, queue: Seq<Fd>)
        ensures
            ({
                let bytes = Seq::<u8>::empty();
                let fds = Seq::<Fd>::empty();
                release::dsr_spec(bytes + rest, queue + fds.reverse()) == Decoded::Value(
                    (),
                    bytes.len(),
                    queue,
                )
            }),
    {
        let m = release {};
        m.lemma_roundtrip(rest, queue);
    }

    /// The message creates no object.
    pub proof fn lemma_creates(&self)
        ensures
            self.created_id() is None,
    {
    }
}

impl Msg<Obj> for release {
    open spec fn opcode() -> u16 {
        3
    }

    open spec fn since_version() -> u32 {
        1
    }

    open spec fn created_id(&self) -> Option<u32> {
        None
    }

    open spec fn created_destructor(&self) -> Option<u16> {
        None
    }

    fn op() -> (r: u16) {
        3
    }

    fn since() -> u32 {
        1
    }

    fn new_id(&self) -> (r: Option<(u32, ObjMeta)>) {
        None
    }
}

impl Request<Obj> for release {

}

/// The opcode of each request: its index in the protocol's list of the
/// interface's requests, so that no two requests share one.
pub proof fn lemma_opcodes()
    ensures
        <get_pointer as Msg<Obj>>::opcode() == 0,
        <get_keyboard as Msg<Obj>>::opcode() == 1,
        <get_touch as Msg<Obj>>::opcode() == 2,
        <release as Msg<Obj>>::opcode() == 3,
        <get_pointer as Msg<Obj>>::opcode() != <get_keyboard as Msg<Obj>>::opcode(),
        <get_pointer as Msg<Obj>>::opcode() != <get_touch as Msg<Obj>>::opcode(),
        <get_pointer as Msg<Obj>>::opcode() != <release as Msg<Obj>>::opcode(),
        <get_keyboard as Msg<Obj>>::opcode() != <get_touch as Msg<Obj>>::opcode(),
        <get_keyboard as Msg<Obj>>::opcode() != <release as Msg<Obj>>::opcode(),
        <get_touch as Msg<Obj>>::opcode() != <release as Msg<Obj>>::opcode(),
        <Obj as Object>::destructor_op() == Some(<release as Msg<Obj>>::opcode()),
{
}

} // verus!
