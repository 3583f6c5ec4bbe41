use vstd::prelude::*;
use crate::objects::{type_id_of, new_id, object, Dyn, ObjMeta, Object, Msg, Event};
use crate::wire::{ser_at, write_at, lemma_write_then, lemma_reverse_add, lemma_skip_step, fixed, Codec, Decoded, Dsr, Fd, Ser};
use super::Obj;

verus! {

/// seat capabilities changed
///
/// This is emitted whenever a seat gains or loses the pointer,
/// keyboard or touch capabilities.  The argument is a capability
/// enum containing the complete set of capabilities this seat has.
///
/// When the pointer capability is added, a client may create a
/// wl_pointer object using the wl_seat.get_pointer request. This object
/// will receive pointer events until the capability is removed in the
/// future.
///
/// When the pointer capability is removed, a client should destroy the
/// wl_pointer objects associated with the seat where the capability was
/// removed, using the wl_pointer.release request. No further pointer
/// events will be received on these objects.
///
/// In some compositors, if a seat regains the pointer capability and a
/// client has a previously obtained wl_pointer object of version 4 or
/// less, that object may start sending pointer events again. This
/// behavior is considered a misinterpretation of the intended behavior
/// and must not be relied upon by the client. wl_pointer objects of
/// version 5 or later must not send events if created before the most
/// recent event notifying the client of an added pointer capability.
///
/// The above behavior also applies to wl_keyboard and wl_touch with the
/// keyboard and touch capabilities, respectively.
///
#[derive(Debug)]
pub struct capabilities {
    // capabilities of the seat
    pub capabilities: super::capability,
}

impl Ser for capabilities {
    open spec fn ser_ok(&self) -> bool {
        &&& self.capabilities.ser_ok()
        &&& self.ser_bytes().len() <= usize::MAX
    }

    open spec fn ser_bytes(&self) -> Seq<u8> {
        self.capabilities.ser_bytes()
    }

    open spec fn ser_fds(&self) -> Seq<Fd> {
        self.capabilities.ser_fds()
    }

    fn wire_len(&self) -> (n: usize) {
        self.capabilities.wire_len()
    }

    fn checked_len(&self) -> (r: Option<usize>) {
        let n0 = match self.capabilities.checked_len() {
            Some(m) => m,
            None => return None,
        };
        Some(n0)
    }

    open spec fn ser_fits(&self, cap: int) -> bool {
        &&& 0 <= cap && self.capabilities.ser_fits(cap - (0))
    }

    fn serialize(self, buf: &mut [u8], fds: &mut Vec<Fd>) -> (r: Result<usize, &'static str>) {
        let ghost me = self;
        let ghost b0 = buf@;
        let mut n: usize = 0;
        n = n + ser_at(self.capabilities, buf, n, fds);
        assert(fds@ =~= old(fds)@ + me.ser_fds());
        Ok(n)
    }

    proof fn lemma_fits(&self, cap: int) {
        self.capabilities.lemma_fits(cap - (0));
    }
}

impl DeepView for capabilities {
    type V = (<super::capability as DeepView>::V,);

    open spec fn deep_view(&self) -> (<super::capability as DeepView>::V,) {
        (self.capabilities.deep_view(),)
    }
}

impl Dsr for capabilities {
    open spec fn dsr_spec(buf: Seq<u8>, fds: Seq<Fd>) -> Decoded<(<super::capability as DeepView>::V,)> {
        match <super::capability>::dsr_spec(buf, fds) {
            Decoded::Value(capabilities, n0, q0) => Decoded::Value((capabilities,), n0, q0),
            d => d.fail(),
        }
    }

    fn try_deserialize(buf: &[u8], fds: &mut Vec<Fd>) -> (r: Option<Result<(capabilities, usize), &'static str>>) {
        let mut n: usize = 0;
        let rest = &buf[n..buf.len()];
        assert(rest@ =~= buf@.skip(n as int));
        assert(n == 0 ==> rest@ =~= buf@);
        let (capabilities, m) = match <super::capability>::try_deserialize(rest, fds) {
            Some(Ok(p)) => p,
            Some(Err(e)) => return Some(Err(e)),
            None => return None,
        };
        n = n + m;
        Some(Ok((capabilities { capabilities }, n)))
    }
}

impl Codec for capabilities {
    open spec fn rt_ok(&self) -> bool {
        &&& self.capabilities.rt_ok()
    }

    proof fn lemma_roundtrip(&self, tail: Seq<u8>, base: Seq<Fd>) {
        let b0 = self.capabilities.ser_bytes();
        let d0 = self.capabilities.ser_fds();
        let s1 = tail;
        let s0 = b0 + s1;
        let buf = self.ser_bytes() + tail;
        assert(buf =~= s0);
        assert(buf.skip(0) =~= s0);
        assert(self.ser_fds() =~= Seq::<Fd>::empty());
        assert(base + self.ser_fds().reverse() =~= base);
        assert(d0 =~= Seq::<Fd>::empty());
        assert(base + d0.reverse() =~= base);
        self.capabilities.lemma_roundtrip(s1, base);
    }
}

impl capabilities {
    /// The arguments are read in the protocol's order, `capabilities`: the bytes
    /// and descriptors written for such arguments, one after the other,
    /// decode to exactly those arguments.
    pub proof fn lemma_layout(capabilities: super::capability, rest: Seq<u8>, queue: Seq<Fd>)
        requires
            capabilities.ser_ok(),
            capabilities.rt_ok(),
            capabilities.ser_bytes().len() <= usize::MAX,
        ensures
            ({
                let bytes = capabilities.ser_bytes();
                let fds = capabilities.ser_fds();
                capabilities::dsr_spec(bytes + rest, queue + fds.reverse()) == Decoded::Value(
                    (capabilities.deep_view(),),
                    bytes.len(),
                    queue,
                )
            }),
    {
        let m = capabilities { capabilities };
        m.lemma_roundtrip(rest, queue);
    }

    /// The message creates no object.
    pub proof fn lemma_creates(&self)
        ensures
            self.created_id() is None,
    {
    }
}

impl Msg<Obj> for capabilities {
    open spec fn opcode() -> u16 {
        0
    }

    open spec fn since_version() -> u32 {
        1
    }

    open spec fn created_id(&self) -> Option<u32> {
        None
    }

    open spec fn created_destructor(&self) -> Option<u16> {
        None
    }

    fn op() -> (r: u16) {
        0
    }

    fn since() -> u32 {
        1
    }

    fn new_id(&self) -> (r: Option<(u32, ObjMeta)>) {
        None
    }
}

impl Event<Obj> for capabilities {

}

/// unique identifier for this seat
///
/// In a multi-seat configuration the seat name can be used by clients to
/// help identify which physical devices the seat represents.
///
/// The seat name is a UTF-8 string with no convention defined for its
/// contents. Each name is unique among all wl_seat globals. The name is
/// only guaranteed to be unique for the current compositor instance.
///
/// The same seat names are used for all clients. Thus, the name can be
/// shared across processes to refer to a specific wl_seat global.
///
/// The name event is sent after binding to the seat global. This event is
/// only sent once per seat object, and the name does not change over the
/// lifetime of the wl_seat global.
///
/// Compositors may re-use the same seat name if the wl_seat global is
/// destroyed and re-created later.
///
#[derive(Debug)]
pub struct name {
    // seat identifier
    pub name: String,
}

impl Ser for name {
    open spec fn ser_ok(&self) -> bool {
        &&& self.name.ser_ok()
        &&& self.ser_bytes().len() <= usize::MAX
    }

    open spec fn ser_bytes(&self) -> Seq<u8> {
        self.name.ser_bytes()
    }

    open spec fn ser_fds(&self) -> Seq<Fd> {
        self.name.ser_fds()
    }

    fn wire_len(&self) -> (n: usize) {
        self.name.wire_len()
    }

    fn checked_len(&self) -> (r: Option<usize>) {
        let n0 = match self.name.checked_len() {
            Some(m) => m,
            None => return None,
        };
        Some(n0)
    }

    open spec fn ser_fits(&self, cap: int) -> bool {
        &&& 0 <= cap && self.name.ser_fits(cap - (0))
    }

    fn serialize(self, buf: &mut [u8], fds: &mut Vec<Fd>) -> (r: Result<usize, &'static str>) {
        let ghost me = self;
        let ghost b0 = buf@;
        let mut n: usize = 0;
        n = n + ser_at(self.name, buf, n, fds);
        assert(fds@ =~= old(fds)@ + me.ser_fds());
        Ok(n)
    }

    proof fn lemma_fits(&self, cap: int) {
        self.name.lemma_fits(cap - (0));
    }
}

impl DeepView for name {
    type V = (<String as DeepView>::V,);

    open spec fn deep_view(&self) -> (<String as DeepView>::V,) {
        (self.name.deep_view(),)
    }
}

impl Dsr for name {
    open spec fn dsr_spec(buf: Seq<u8>, fds: Seq<Fd>) -> Decoded<(<String as DeepView>::V,)> {
        match <String>::dsr_spec(buf, fds) {
            Decoded::Value(name, n0, q0) => Decoded::Value((name,), n0, q0),
            d => d.fail(),
        }
    }

    fn try_deserialize(buf: &[u8], fds: &mut Vec<Fd>) -> (r: Option<Result<(name, usize), &'static str>>) {
        let mut n: usize = 0;
        let rest = &buf[n..buf.len()];
        assert(rest@ =~= buf@.skip(n as int));
        assert(n == 0 ==> rest@ =~= buf@);
        let (name, m) = match <String>::try_deserialize(rest, fds) {
            Some(Ok(p)) => p,
            Some(Err(e)) => return Some(Err(e)),
            None => return None,
        };
        n = n + m;
        Some(Ok((name { name }, n)))
    }
}

impl Codec for name {
    open spec fn rt_ok(&self) -> bool {
        &&& self.name.rt_ok()
    }

    proof fn lemma_roundtrip(&self, tail: Seq<u8>, base: Seq<Fd>) {
        let b0 = self.name.ser_bytes();
        let d0 = self.name.ser_fds();
        let s1 = tail;
        let s0 = b0 + s1;
        let buf = self.ser_bytes() + tail;
        assert(buf =~= s0);
        assert(buf.skip(0) =~= s0);
        assert(self.ser_fds() =~= Seq::<Fd>::empty());
        assert(base + self.ser_fds().reverse() =~= base);
        assert(d0 =~= Seq::<Fd>::empty());
        assert(base + d0.reverse() =~= base);
        self.name.lemma_roundtrip(s1, base);
    }
}

impl name {
    /// The arguments are read in the protocol's order, `name`: the bytes
    /// and descriptors written for such arguments, one after the other,
    /// decode to exactly those arguments.
    pub proof fn lemma_layout(name: String, rest: Seq<u8>, queue: Seq<Fd>)
        requires
            name.ser_ok(),
            name.rt_ok(),
            name.ser_bytes().len() <= usize::MAX,
        ensures
            ({
                let bytes = name.ser_bytes();
                let fds = name.ser_fds();
                name::dsr_spec(bytes + rest, queue + fds.reverse()) == Decoded::Value(
                    (name.deep_view(),),
                    bytes.len(),
                    queue,
                )
            }),
    {
        let m = name { name };
        m.lemma_roundtrip(rest, queue);
    }

    /// The message creates no object.
    pub proof fn lemma_creates(&self)
        ensures
            self.created_id() is None,
    {
    }
}

impl Msg<Obj> for name {
    open spec fn opcode() -> u16 {
        1
    }

    open spec fn since_version() -> u32 {
        1
    }

    open spec fn created_id(&self) -> Option<u32> {
        None
    }

    open spec fn created_destructor(&self) -> Option<u16> {
        None
    }

    fn op() -> (r: u16) {
        1
    }

    fn since() -> u32 {
        1
    }

    fn new_id(&self) -> (r: Option<(u32, ObjMeta)>) {
        None
    }
}

impl Event<Obj> for name {

}

/// The opcode of each event: its index in the protocol's list of the
/// interface's events, so that no two events share one.
pub proof fn lemma_opcodes()
    ensures
        <capabilities as Msg<Obj>>::opcode() == 0,
        <name as Msg<Obj>>::opcode() == 1,
        <capabilities as Msg<Obj>>::opcode() != <name as Msg<Obj>>::opcode(),
{
}

} // verus!
