use vstd::prelude::*;
use crate::objects::{type_id_of, new_id, object, Dyn, ObjMeta, Object, Msg, Request};
use crate::wire::{ser_at, write_at, lemma_write_then, lemma_reverse_add, lemma_skip_step, fixed, Codec, Decoded, Dsr, Fd, Ser};
use super::Obj;

verus! {

/// create a new data source
///
/// Create a new data source.
///
#[derive(Debug)]
pub struct create_data_source {
    // data source to create
    pub id: new_id<crate::wl_data_source::Obj>,
}

impl Ser for create_data_source {
    open spec fn ser_ok(&self) -> bool {
        &&& self.id.ser_ok()
        &&& self.ser_bytes().len() <= usize::MAX
    }

    open spec fn ser_bytes(&self) -> Seq<u8> {
        self.id.ser_bytes()
    }

    open spec fn ser_fds(&self) -> Seq<Fd> {
        self.id.ser_fds()
    }

    fn wire_len(&self) -> (n: usize) {
        self.id.wire_len()
    }

    fn checked_len(&self) -> (r: Option<usize>) {
        let n0 = match self.id.checked_len() {
            Some(m) => m,
            None => return None,
        };
        Some(n0)
    }

    open spec fn ser_fits(&self, cap: int) -> bool {
        &&& 0 <= cap && self.id.ser_fits(cap - (0))
    }

    fn serialize(self, buf: &mut [u8], fds: &mut Vec<Fd>) -> (r: Result<usize, &'static str>) {
        let ghost me = self;
        let ghost b0 = buf@;
        let mut n: usize = 0;
        n = n + ser_at(self.id, buf, n, fds);
        assert(fds@ =~= old(fds)@ + me.ser_fds());
        Ok(n)
    }

    proof fn lemma_fits(&self, cap: int) {
        self.id.lemma_fits(cap - (0));
    }
}

impl DeepView for create_data_source {
    type V = (<new_id<crate::wl_data_source::Obj> as DeepView>::V,);

    open spec fn deep_view(&self) -> (<new_id<crate::wl_data_source::Obj> as DeepView>::V,) {
        (self.id.deep_view(),)
    }
}

impl Dsr for create_data_source {
    open spec fn dsr_spec(buf: Seq<u8>, fds: Seq<Fd>) -> Decoded<(<new_id<crate::wl_data_source::Obj> as DeepView>::V,)> {
        match <new_id<crate::wl_data_source::Obj>>::dsr_spec(buf, fds) {
            Decoded::Value(id, n0, q0) => Decoded::Value((id,), n0, q0),
            d => d.fail(),
        }
    }

    fn try_deserialize(buf: &[u8], fds: &mut Vec<Fd>) -> (r: Option<Result<(create_data_source, usize), &'static str>>) {
        let mut n: usize = 0;
        let rest = &buf[n..buf.len()];
        assert(rest@ =~= buf@.skip(n as int));
        assert(n == 0 ==> rest@ =~= buf@);
        let (id, m) = match <new_id<crate::wl_data_source::Obj>>::try_deserialize(rest, fds) {
            Some(Ok(p)) => p,
            Some(Err(e)) => return Some(Err(e)),
            None => return None,
        };
        n = n + m;
        Some(Ok((create_data_source { id }, n)))
    }
}

impl Codec for create_data_source {
    open spec fn rt_ok(&self) -> bool {
        &&& self.id.rt_ok()
    }

    proof fn lemma_roundtrip(&self, tail: Seq<u8>, base: Seq<Fd>) {
        let b0 = self.id.ser_bytes();
        let d0 = self.id.ser_fds();
        let s1 = tail;
        let s0 = b0 + s1;
        let buf = self.ser_bytes() + tail;
        assert(buf =~= s0);
        assert(buf.skip(0) =~= s0);
        assert(self.ser_fds() =~= Seq::<Fd>::empty());
        assert(base + self.ser_fds().reverse() =~= base);
        assert(d0 =~= Seq::<Fd>::empty());
        assert(base + d0.reverse() =~= base);
        self.id.lemma_roundtrip(s1, base);
    }
}

impl create_data_source {
    /// The arguments are read in the protocol's order, `id`: the bytes
    /// and descriptors written for such arguments, one after the other,
    /// decode to exactly those arguments.
    pub proof fn lemma_layout(id: new_id<crate::wl_data_source::Obj>, rest: Seq<u8>, queue: Seq<Fd>)
        requires
            id.ser_ok(),
            id.rt_ok(),
            id.ser_bytes().len() <= usize::MAX,
        ensures
            ({
                let bytes = id.ser_bytes();
                let fds = id.ser_fds();
                create_data_source::dsr_spec(bytes + rest, queue + fds.reverse()) == Decoded::Value(
                    (id.deep_view(),),
                    bytes.len(),
                    queue,
                )
            }),
    {
        let m = create_data_source { id };
        m.lemma_roundtrip(rest, queue);
    }

    /// The object the message creates is the one its `id` argument names,
    /// with the destructor of that argument's interface.
    pub proof fn lemma_creates(&self)
        ensures
            self.created_id() == Some(self.id.0),
            self.created_destructor() == <crate::wl_data_source::Obj as Object>::destructor_op(),
    {
    }
}

impl Msg<Obj> for create_data_source {
    open spec fn opcode() -> u16 {
        0
    }

    open spec fn since_version() -> u32 {
        1
    }

    open spec fn created_id(&self) -> Option<u32> {
        Some(self.id.0)
    }

    open spec fn created_destructor(&self) -> Option<u16> {
        crate::wl_data_source::Obj::destructor_op()
    }

    fn op() -> (r: u16) {
        0
    }

    fn since() -> u32 {
        1
    }

    fn new_id(&self) -> (r: Option<(u32, ObjMeta)>) {
        let id = self.id.0;
        let meta = ObjMeta {
            alive: true,
            destructor: crate::wl_data_source::Obj::destructor(),
            type_id: type_id_of::<crate::wl_data_source::Obj>(),
        };
        Some((id, meta))
    }
}

impl Request<Obj> for create_data_source {

}

/// create a new data device
///
/// Create a new data device for a given seat.
///
#[derive(Debug)]
pub struct get_data_device {
    // data device to create
    pub id: new_id<crate::wl_data_device::Obj>,
    // seat associated with the data device
    pub seat: object<crate::wl_seat::Obj>,
}

impl Ser for get_data_device {
    open spec fn ser_ok(&self) -> bool {
        &&& self.id.ser_ok()
        &&& self.seat.ser_ok()
        &&& self.ser_bytes().len() <= usize::MAX
    }

    open spec fn ser_bytes(&self) -> Seq<u8> {
        self.id.ser_bytes() + self.seat.ser_bytes()
    }

    open spec fn ser_fds(&self) -> Seq<Fd> {
        self.id.ser_fds() + self.seat.ser_fds()
    }

    fn wire_len(&self) -> (n: usize) {
        self.id.wire_len() + self.seat.wire_len()
    }

    fn checked_len(&self) -> (r: Option<usize>) {
        let n0 = match self.id.checked_len() {
            Some(m) => m,
            None => return None,
        };
        let n1 = match self.seat.checked_len() {
            Some(m) => match n0.checked_add(m) {
                Some(t) => t,
                None => return None,
            },
            None => return None,
        };
        Some(n1)
    }

    open spec fn ser_fits(&self, cap: int) -> bool {
        &&& 0 <= cap && self.id.ser_fits(cap - (0))
        &&& self.id.ser_bytes().len() <= cap && self.seat.ser_fits(cap - (self.id.ser_bytes().len()))
    }

    fn serialize(self, buf: &mut [u8], fds: &mut Vec<Fd>) -> (r: Result<usize, &'static str>) {
        let ghost me = self;
        let ghost b0 = buf@;
        let mut n: usize = 0;
        n = n + ser_at(self.id, buf, n, fds);
        assert(fds@ =~= old(fds)@ + me.id.ser_fds());
        n = n + ser_at(self.seat, buf, n, fds);
        proof {
            lemma_write_then(b0, 0, me.id.ser_bytes(), me.seat.ser_bytes());
        }
        assert(fds@ =~= old(fds)@ + me.ser_fds());
        Ok(n)
    }

    proof fn lemma_fits(&self, cap: int) {
        self.id.lemma_fits(cap - (0));
        self.seat.lemma_fits(cap - (self.id.ser_bytes().len()));
    }
}

impl DeepView for get_data_device {
    type V = (<new_id<crate::wl_data_device::Obj> as DeepView>::V, <object<crate::wl_seat::Obj> as DeepView>::V,);

    open spec fn deep_view(&self) -> (<new_id<crate::wl_data_device::Obj> as DeepView>::V, <object<crate::wl_seat::Obj> as DeepView>::V,) {
        (self.id.deep_view(), self.seat.deep_view(),)
    }
}

impl Dsr for get_data_device {
    open spec fn dsr_spec(buf: Seq<u8>, fds: Seq<Fd>) -> Decoded<(<new_id<crate::wl_data_device::Obj> as DeepView>::V, <object<crate::wl_seat::Obj> as DeepView>::V,)> {
        match <new_id<crate::wl_data_device::Obj>>::dsr_spec(buf, fds) {
            Decoded::Value(id, n0, q0) => {
                match <object<crate::wl_seat::Obj>>::dsr_spec(buf.skip(n0 as int), q0) {
                    Decoded::Value(seat, m1, q1) => {
                        let n1 = n0 + m1;
                        Decoded::Value((id, seat,), n1, q1)
                    },
                    d => d.fail(),
                }
            },
            d => d.fail(),
        }
    }

    fn try_deserialize(buf: &[u8], fds: &mut Vec<Fd>) -> (r: Option<Result<(get_data_device, usize), &'static str>>) {
        let mut n: usize = 0;
        let rest = &buf[n..buf.len()];
        assert(rest@ =~= buf@.skip(n as int));
        assert(n == 0 ==> rest@ =~= buf@);
        let (id, m) = match <new_id<crate::wl_data_device::Obj>>::try_deserialize(rest, fds) {
            Some(Ok(p)) => p,
            Some(Err(e)) => return Some(Err(e)),
            None => return None,
        };
        n = n + m;
        let rest = &buf[n..buf.len()];
        assert(rest@ =~= buf@.skip(n as int));
        assert(n == 0 ==> rest@ =~= buf@);
        let (seat, m) = match <object<crate::wl_seat::Obj>>::try_deserialize(rest, fds) {
            Some(Ok(p)) => p,
            Some(Err(e)) => return Some(Err(e)),
            None => return None,
        };
        n = n + m;
        Some(Ok((get_data_device { id, seat }, n)))
    }
}

impl Codec for get_data_device {
    open spec fn rt_ok(&self) -> bool {
        &&& self.id.rt_ok()
        &&& self.seat.rt_ok()
    }

    proof fn lemma_roundtrip(&self, tail: Seq<u8>, base: Seq<Fd>) {
        let b0 = self.id.ser_bytes();
        let b1 = self.seat.ser_bytes();
        let d0 = self.id.ser_fds();
        let d1 = self.seat.ser_fds();
        let s2 = tail;
        let s1 = b1 + s2;
        let s0 = b0 + s1;
        let buf = self.ser_bytes() + tail;
        assert(buf =~= s0);
        assert(buf.skip(0) =~= s0);
        assert(self.ser_fds() =~= Seq::<Fd>::empty());
        assert(base + self.ser_fds().reverse() =~= base);
        assert(d0 =~= Seq::<Fd>::empty());
        assert(base + d0.reverse() =~= base);
        self.id.lemma_roundtrip(s1, base);
        assert(buf.skip((b0.len()) as int) == s1) by {
            lemma_skip_step(buf, (0) as int, b0, s1);
        }
        assert(d1 =~= Seq::<Fd>::empty());
        assert(base + d1.reverse() =~= base);
        self.seat.lemma_roundtrip(s2, base);
    }
}

impl get_data_device {
    /// The arguments are read in the protocol's order, `id`, then `seat`: the bytes
    /// and descriptors written for such arguments, one after the other,
    /// decode to exactly those arguments.
    pub proof fn lemma_layout(id: new_id<crate::wl_data_device::Obj>, seat: object<crate::wl_seat::Obj>, rest: Seq<u8>, queue: Seq<Fd>)
        requires
            id.ser_ok(),
            id.rt_ok(),
            seat.ser_ok(),
            seat.rt_ok(),
            id.ser_bytes().len() + seat.ser_bytes().len() <= usize::MAX,
        ensures
            ({
                let bytes = id.ser_bytes() + seat.ser_bytes();
                let fds = id.ser_fds() + seat.ser_fds();
                get_data_device::dsr_spec(bytes + rest, queue + fds.reverse()) == Decoded::Value(
                    (id.deep_view(), seat.deep_view(),),
                    bytes.len(),
                    queue,
                )
            }),
    {
        let m = get_data_device { id, seat };
        m.lemma_roundtrip(rest, queue);
    }

    /// The object the message creates is the one its `id` argument names,
    /// with the destructor of that argument's interface.
    pub proof fn lemma_creates(&self)
        ensures
            self.created_id() == Some(self.id.0),
            self.created_destructor() == <crate::wl_data_device::Obj as Object>::destructor_op(),
    {
    }
}

impl Msg<Obj> for get_data_device {
    open spec fn opcode() -> u16 {
        1
    }

    open spec fn since_version() -> u32 {
        1
    }

    open spec fn created_id(&self) -> Option<u32> {
        Some(self.id.0)
    }

    open spec fn created_destructor(&self) -> Option<u16> {
        crate::wl_data_device::Obj::destructor_op()
    }

    fn op() -> (r: u16) {
        1
    }

    fn since() -> u32 {
        1
    }

    fn new_id(&self) -> (r: Option<(u32, ObjMeta)>) {
        let id = self.id.0;
        let meta = ObjMeta {
            alive: true,
            destructor: crate::wl_data_device::Obj::destructor(),
            type_id: type_id_of::<crate::wl_data_device::Obj>(),
        };
        Some((id, meta))
    }
}

impl Request<Obj> for get_data_device {

}

/// The opcode of each request: its index in the protocol's list of the
/// interface's requests, so that no two requests share one.
pub proof fn lemma_opcodes()
    ensures
        <create_data_source as Msg<Obj>>::opcode() == 0,
        <get_data_device as Msg<Obj>>::opcode() == 1,
        <create_data_source as Msg<Obj>>::opcode() != <get_data_device as Msg<Obj>>::opcode(),
        <Obj as Object>::destructor_op() is None,
{
}

} // verus!
