use vstd::prelude::*;
use crate::objects::{type_id_of, new_id, object, Dyn, ObjMeta, Object, Msg, Request};
use crate::wire::{ser_at, write_at, lemma_write_then, lemma_reverse_add, lemma_skip_step, fixed, Codec, Decoded, Dsr, Fd, Ser};
use super::Obj;

verus! {

/// asynchronous roundtrip
///
/// The sync request asks the server to emit the 'done' event
/// on the returned wl_callback object.  Since requests are
/// handled in-order and events are delivered in-order, this can
/// be used as a barrier to ensure all previous requests and the
/// resulting events have been handled.
///
/// The object returned by this request will be destroyed by the
/// compositor after the callback is fired and as such the client must not
/// attempt to use it after that point.
///
/// The callback_data passed in the callback is the event serial.
///
#[derive(Debug)]
pub struct sync {
    // callback object for the sync request
    pub callback: new_id<crate::wl_callback::Obj>,
}

impl Ser for sync {
    open spec fn ser_ok(&self) -> bool {
        &&& self.callback.ser_ok()
        &&& self.ser_bytes().len() <= usize::MAX
    }

    open spec fn ser_bytes(&self) -> Seq<u8> {
        self.callback.ser_bytes()
    }

    open spec fn ser_fds(&self) -> Seq<Fd> {
        self.callback.ser_fds()
    }

    fn wire_len(&self) -> (n: usize) {
        self.callback.wire_len()
    }

    fn checked_len(&self) -> (r: Option<usize>) {
        let n0 = match self.callback.checked_len() {
            Some(m) => m,
            None => return None,
        };
        Some(n0)
    }

    open spec fn ser_fits(&self, cap: int) -> bool {
        &&& 0 <= cap && self.callback.ser_fits(cap - (0))
    }

    fn serialize(self, buf: &mut [u8], fds: &mut Vec<Fd>) -> (r: Result<usize, &'static str>) {
        let ghost me = self;
        let ghost b0 = buf@;
        let mut n: usize = 0;
        n = n + ser_at(self.callback, buf, n, fds);
        assert(fds@ =~= old(fds)@ + me.ser_fds());
        Ok(n)
    }

    proof fn lemma_fits(&self, cap: int) {
        self.callback.lemma_fits(cap - (0));
    }
}

impl DeepView for sync {
    type V = (<new_id<crate::wl_callback::Obj> as DeepView>::V,);

    open spec fn deep_view(&self) -> (<new_id<crate::wl_callback::Obj> as DeepView>::V,) {
        (self.callback.deep_view(),)
    }
}

impl Dsr for sync {
    open spec fn dsr_spec(buf: Seq<u8>, fds: Seq<Fd>) -> Decoded<(<new_id<crate::wl_callback::Obj> as DeepView>::V,)> {
        match <new_id<crate::wl_callback::Obj>>::dsr_spec(buf, fds) {
            Decoded::Value(callback, n0, q0) => Decoded::Value((callback,), n0, q0),
            d => d.fail(),
        }
    }

    fn try_deserialize(buf: &[u8], fds: &mut Vec<Fd>) -> (r: Option<Result<(sync, usize), &'static str>>) {
        let mut n: usize = 0;
        let rest = &buf[n..buf.len()];
        assert(rest@ =~= buf@.skip(n as int));
        assert(n == 0 ==> rest@ =~= buf@);
        let (callback, m) = match <new_id<crate::wl_callback::Obj>>::try_deserialize(rest, fds) {
            Some(Ok(p)) => p,
            Some(Err(e)) => return Some(Err(e)),
            None => return None,
        };
        n = n + m;
        Some(Ok((sync { callback }, n)))
    }
}

impl Codec for sync {
    open spec fn rt_ok(&self) -> bool {
        &&& self.callback.rt_ok()
    }

    proof fn lemma_roundtrip(&self, tail: Seq<u8>, base: Seq<Fd>) {
        let b0 = self.callback.ser_bytes();
        let d0 = self.callback.ser_fds();
        let s1 = tail;
        let s0 = b0 + s1;
        let buf = self.ser_bytes() + tail;
        assert(buf =~= s0);
        assert(buf.skip(0) =~= s0);
        assert(self.ser_fds() =~= Seq::<Fd>::empty());
        assert(base + self.ser_fds().reverse() =~= base);
        assert(d0 =~= Seq::<Fd>::empty());
        assert(base + d0.reverse() =~= base);
        self.callback.lemma_roundtrip(s1, base);
    }
}

impl sync {
    /// The arguments are read in the protocol's order, `callback`: the bytes
    /// and descriptors written for such arguments, one after the other,
    /// decode to exactly those arguments.
    pub proof fn lemma_layout(callback: new_id<crate::wl_callback::Obj>, rest: Seq<u8>, queue: Seq<Fd>)
        requires
            callback.ser_ok(),
            callback.rt_ok(),
            callback.ser_bytes().len() <= usize::MAX,
        ensures
            ({
                let bytes = callback.ser_bytes();
                let fds = callback.ser_fds();
                sync::dsr_spec(bytes + rest, queue + fds.reverse()) == Decoded::Value(
                    (callback.deep_view(),),
                    bytes.len(),
                    queue,
                )
            }),
    {
        let m = sync { callback };
        m.lemma_roundtrip(rest, queue);
    }

    /// The object the message creates is the one its `callback` argument names,
    /// with the destructor of that argument's interface.
    pub proof fn lemma_creates(&self)
        ensures
            self.created_id() == Some(self.callback.0),
            self.created_destructor() == <crate::wl_callback::Obj as Object>::destructor_op(),
    {
    }
}

impl Msg<Obj> for sync {
    open spec fn opcode() -> u16 {
        0
    }

    open spec fn since_version() -> u32 {
        1
    }

    open spec fn created_id(&self) -> Option<u32> {
        Some(self.callback.0)
    }

    open spec fn created_destructor(&self) -> Option<u16> {
        crate::wl_callback::Obj::destructor_op()
    }

    fn op() -> (r: u16) {
        0
    }

    fn since() -> u32 {
        1
    }

    fn new_id(&self) -> (r: Option<(u32, ObjMeta)>) {
        let id = self.callback.0;
        let meta = ObjMeta {
            alive: true,
            destructor: crate::wl_callback::Obj::destructor(),
            type_id: type_id_of::<crate::wl_callback::Obj>(),
        };
        Some((id, meta))
    }
}

impl Request<Obj> for sync {

}

/// get global registry object
///
/// This request creates a registry object that allows the client
/// to list and bind the global objects available from the
/// compositor.
///
/// It should be noted that the server side resources consumed in
/// response to a get_registry request can only be released when the
/// client disconnects, not when the client side proxy is destroyed.
/// Therefore, clients should invoke get_registry as infrequently as
/// possible to avoid wasting memory.
///
#[derive(Debug)]
pub struct get_registry {
    // global registry object
    pub registry: new_id<crate::wl_registry::Obj>,
}

impl Ser for get_registry {
    open spec fn ser_ok(&self) -> bool {
        &&& self.registry.ser_ok()
        &&& self.ser_bytes().len() <= usize::MAX
    }

    open spec fn ser_bytes(&self) -> Seq<u8> {
        self.registry.ser_bytes()
    }

    open spec fn ser_fds(&self) -> Seq<Fd> {
        self.registry.ser_fds()
    }

    fn wire_len(&self) -> (n: usize) {
        self.registry.wire_len()
    }

    fn checked_len(&self) -> (r: Option<usize>) {
        let n0 = match self.registry.checked_len() {
            Some(m) => m,
            None => return None,
        };
        Some(n0)
    }

    open spec fn ser_fits(&self, cap: int) -> bool {
        &&& 0 <= cap && self.registry.ser_fits(cap - (0))
    }

    fn serialize(self, buf: &mut [u8], fds: &mut Vec<Fd>) -> (r: Result<usize, &'static str>) {
        let ghost me = self;
        let ghost b0 = buf@;
        let mut n: usize = 0;
        n = n + ser_at(self.registry, buf, n, fds);
        assert(fds@ =~= old(fds)@ + me.ser_fds());
        Ok(n)
    }

    proof fn lemma_fits(&self, cap: int) {
        self.registry.lemma_fits(cap - (0));
    }
}

impl DeepView for get_registry {
    type V = (<new_id<crate::wl_registry::Obj> as DeepView>::V,);

    open spec fn deep_view(&self) -> (<new_id<crate::wl_registry::Obj> as DeepView>::V,) {
        (self.registry.deep_view(),)
    }
}

impl Dsr for get_registry {
    open spec fn dsr_spec(buf: Seq<u8>, fds: Seq<Fd>) -> Decoded<(<new_id<crate::wl_registry::Obj> as DeepView>::V,)> {
        match <new_id<crate::wl_registry::Obj>>::dsr_spec(buf, fds) {
            Decoded::Value(registry, n0, q0) => Decoded::Value((registry,), n0, q0),
            d => d.fail(),
        }
    }

    fn try_deserialize(buf: &[u8], fds: &mut Vec<Fd>) -> (r: Option<Result<(get_registry, usize), &'static str>>) {
        let mut n: usize = 0;
        let rest = &buf[n..buf.len()];
        assert(rest@ =~= buf@.skip(n as int));
        assert(n == 0 ==> rest@ =~= buf@);
        let (registry, m) = match <new_id<crate::wl_registry::Obj>>::try_deserialize(rest, fds) {
            Some(Ok(p)) => p,
            Some(Err(e)) => return Some(Err(e)),
            None => return None,
        };
        n = n + m;
        Some(Ok((get_registry { registry }, n)))
    }
}

impl Codec for get_registry {
    open spec fn rt_ok(&self) -> bool {
        &&& self.registry.rt_ok()
    }

    proof fn lemma_roundtrip(&self, tail: Seq<u8>, base: Seq<Fd>) {
        let b0 = self.registry.ser_bytes();
        let d0 = self.registry.ser_fds();
        let s1 = tail;
        let s0 = b0 + s1;
        let buf = self.ser_bytes() + tail;
        assert(buf =~= s0);
        assert(buf.skip(0) =~= s0);
        assert(self.ser_fds() =~= Seq::<Fd>::empty());
        assert(base + self.ser_fds().reverse() =~= base);
        assert(d0 =~= Seq::<Fd>::empty());
        assert(base + d0.reverse() =~= base);
        self.registry.lemma_roundtrip(s1, base);
    }
}

impl get_registry {
    /// The arguments are read in the protocol's order, `registry`: the bytes
    /// and descriptors written for such arguments, one after the other,
    /// decode to exactly those arguments.
    pub proof fn lemma_layout(registry: new_id<crate::wl_registry::Obj>, rest: Seq<u8>, queue: Seq<Fd>)
        requires
            registry.ser_ok(),
            registry.rt_ok(),
            registry.ser_bytes().len() <= usize::MAX,
        ensures
            ({
                let bytes = registry.ser_bytes();
                let fds = registry.ser_fds();
                get_registry::dsr_spec(bytes + rest, queue + fds.reverse()) == Decoded::Value(
                    (registry.deep_view(),),
                    bytes.len(),
                    queue,
                )
            }),
    {
        let m = get_registry { registry };
        m.lemma_roundtrip(rest, queue);
    }

    /// The object the message creates is the one its `registry` argument names,
    /// with the destructor of that argument's interface.
    pub proof fn lemma_creates(&self)
        ensures
            self.created_id() == Some(self.registry.0),
            self.created_destructor() == <crate::wl_registry::Obj as Object>::destructor_op(),
    {
    }
}

impl Msg<Obj> for get_registry {
    open spec fn opcode() -> u16 {
        1
    }

    open spec fn since_version() -> u32 {
        1
    }

    open spec fn created_id(&self) -> Option<u32> {
        Some(self.registry.0)
    }

    open spec fn created_destructor(&self) -> Option<u16> {
        crate::wl_registry::Obj::destructor_op()
    }

    fn op() -> (r: u16) {
        1
    }

    fn since() -> u32 {
        1
    }

    fn new_id(&self) -> (r: Option<(u32, ObjMeta)>) {
        let id = self.registry.0;
        let meta = ObjMeta {
            alive: true,
            destructor: crate::wl_registry::Obj::destructor(),
            type_id: type_id_of::<crate::wl_registry::Obj>(),
        };
        Some((id, meta))
    }
}

impl Request<Obj> for get_registry {

}

/// The opcode of each request: its index in the protocol's list of the
/// interface's requests, so that no two requests share one.
pub proof fn lemma_opcodes()
    ensures
        <sync as Msg<Obj>>::opcode() == 0,
        <get_registry as Msg<Obj>>::opcode() == 1,
        <sync as Msg<Obj>>::opcode() != <get_registry as Msg<Obj>>::opcode(),
        <Obj as Object>::destructor_op() is None,
{
}

} // verus!
