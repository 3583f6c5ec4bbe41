use vstd::prelude::*;
use crate::objects::{type_id_of, new_id, object, Dyn, ObjMeta, Object, Msg, Request};
use crate::wire::{ser_at, write_at, lemma_write_then, lemma_reverse_add, lemma_skip_step, fixed, Codec, Decoded, Dsr, Fd, Ser};
use super::Obj;

verus! {

/// add an offered mime type
///
/// This request adds a mime type to the set of mime types
/// advertised to targets.  Can be called several times to offer
/// multiple types.
///
#[derive(Debug)]
pub struct offer {
    // mime type offered by the data source
    pub mime_type: String,
}

impl Ser for offer {
    open spec fn ser_ok(&self) -> bool {
        &&& self.mime_type.ser_ok()
        &&& self.ser_bytes().len() <= usize::MAX
    }

    open spec fn ser_bytes(&self) -> Seq<u8> {
        self.mime_type.ser_bytes()
    }

    open spec fn ser_fds(&self) -> Seq<Fd> {
        self.mime_type.ser_fds()
    }

    fn wire_len(&self) -> (n: usize) {
        self.mime_type.wire_len()
    }

    fn checked_len(&self) -> (r: Option<usize>) {
        let n0 = match self.mime_type.checked_len() {
            Some(m) => m,
            None => return None,
        };
        Some(n0)
    }

    open spec fn ser_fits(&self, cap: int) -> bool {
        &&& 0 <= cap && self.mime_type.ser_fits(cap - (0))
    }

    fn serialize(self, buf: &mut [u8], fds: &mut Vec<Fd>) -> (r: Result<usize, &'static str>) {
        let ghost me = self;
        let ghost b0 = buf@;
        let mut n: usize = 0;
        n = n + ser_at(self.mime_type, buf, n, fds);
        assert(fds@ =~= old(fds)@ + me.ser_fds());
        Ok(n)
    }

    proof fn lemma_fits(&self, cap: int) {
        self.mime_type.lemma_fits(cap - (0));
    }
}

impl DeepView for offer {
    type V = (<String as DeepView>::V,);

    open spec fn deep_view(&self) -> (<String as DeepView>::V,) {
        (self.mime_type.deep_view(),)
    }
}

impl Dsr for offer {
    open spec fn dsr_spec(buf: Seq<u8>, fds: Seq<Fd>) -> Decoded<(<String as DeepView>::V,)> {
        match <String>::dsr_spec(buf, fds) {
            Decoded::Value(mime_type, n0, q0) => Decoded::Value((mime_type,), n0, q0),
            d => d.fail(),
        }
    }

    fn try_deserialize(buf: &[u8], fds: &mut Vec<Fd>) -> (r: Option<Result<(offer, usize), &'static str>>) {
        let mut n: usize = 0;
        let rest = &buf[n..buf.len()];
        assert(rest@ =~= buf@.skip(n as int));
        assert(n == 0 ==> rest@ =~= buf@);
        let (mime_type, m) = match <String>::try_deserialize(rest, fds) {
            Some(Ok(p)) => p,
            Some(Err(e)) => return Some(Err(e)),
            None => return None,
        };
        n = n + m;
        Some(Ok((offer { mime_type }, n)))
    }
}

impl Codec for offer {
    open spec fn rt_ok(&self) -> bool {
        &&& self.mime_type.rt_ok()
    }

    proof fn lemma_roundtrip(&self, tail: Seq<u8>, base: Seq<Fd>) {
        let b0 = self.mime_type.ser_bytes();
        let d0 = self.mime_type.ser_fds();
        let s1 = tail;
        let s0 = b0 + s1;
        let buf = self.ser_bytes() + tail;
        assert(buf =~= s0);
        assert(buf.skip(0) =~= s0);
        assert(self.ser_fds() =~= Seq::<Fd>::empty());
        assert(base + self.ser_fds().reverse() =~= base);
        assert(d0 =~= Seq::<Fd>::empty());
        assert(base + d0.reverse() =~= base);
        self.mime_type.lemma_roundtrip(s1, base);
    }
}

impl offer {
    /// The arguments are read in the protocol's order, `mime_type`: the bytes
    /// and descriptors written for such arguments, one after the other,
    /// decode to exactly those arguments.
    pub proof fn lemma_layout(mime_type: String, rest: Seq<u8>, queue: Seq<Fd>)
        requires
            mime_type.ser_ok(),
            mime_type.rt_ok(),
            mime_type.ser_bytes().len() <= usize::MAX,
        ensures
            ({
                let bytes = mime_type.ser_bytes();
                let fds = mime_type.ser_fds();
                offer::dsr_spec(bytes + rest, queue + fds.reverse()) == Decoded::Value(
                    (mime_type.deep_view(),),
                    bytes.len(),
                    queue,
                )
            }),
    {
        let m = offer { mime_type };
        m.lemma_roundtrip(rest, queue);
    }

    /// The message creates no object.
    pub proof fn lemma_creates(&self)
        ensures
            self.created_id() is None,
    {
    }
}

impl Msg<Obj> for offer {
    open spec fn opcode() -> u16 {
        0
    }

    open spec fn since_version() -> u32 {
        1
    }

    open spec fn created_id(&self) -> Option<u32> {
        None
    }

    open spec fn created_destructor(&self) -> Option<u16> {
        None
    }

    fn op() -> (r: u16) {
        0
    }

    fn since() -> u32 {
        1
    }

    fn new_id(&self) -> (r: Option<(u32, ObjMeta)>) {
        None
    }
}

impl Request<Obj> for offer {

}

/// destroy the data source
///
/// Destroy the data source.
///
#[derive(Debug)]
pub struct destroy {}

impl Ser for destroy {
    open spec fn ser_ok(&self) -> bool {
        true
    }

    open spec fn ser_bytes(&self) -> Seq<u8> {
        Seq::empty()
    }

    open spec fn ser_fds(&self) -> Seq<Fd> {
        Seq::empty()
    }

    fn wire_len(&self) -> (n: usize) {
        0
    }

    fn checked_len(&self) -> (r: Option<usize>) {
        Some(0)
    }

    open spec fn ser_fits(&self, cap: int) -> bool {
        true
    }

    fn serialize(self, buf: &mut [u8], fds: &mut Vec<Fd>) -> (r: Result<usize, &'static str>) {
        assert(buf@ =~= write_at(old(buf)@, 0, Seq::<u8>::empty()));
        assert(fds@ =~= old(fds)@ + Seq::<Fd>::empty());
        Ok(0)
    }

    proof fn lemma_fits(&self, cap: int) {
    }
}

impl DeepView for destroy {
    type V = ();

    open spec fn deep_view(&self) -> () {
        ()
    }
}

impl Dsr for destroy {
    open spec fn dsr_spec(buf: Seq<u8>, fds: Seq<Fd>) -> Decoded<()> {
        Decoded::Value((), 0, fds)
    }

    fn try_deserialize(buf: &[u8], fds: &mut Vec<Fd>) -> (r: Option<Result<(destroy, usize), &'static str>>) {
        Some(Ok((destroy {}, 0)))
    }
}

impl Codec for destroy {
    open spec fn rt_ok(&self) -> bool {
        true
    }

    proof fn lemma_roundtrip(&self, tail: Seq<u8>, base: Seq<Fd>) {
        assert(Seq::<Fd>::empty().reverse() =~= Seq::<Fd>::empty());
        assert(base + Seq::<Fd>::empty() =~= base);
    }
}

impl destroy {
    /// The arguments are read in the protocol's order, no arguments: the bytes
    /// and descriptors written for such arguments, one after the other,
    /// decode to exactly those arguments.
    pub proof fn lemma_layout(rest: Seq<u8>, queue: Seq<Fd>)
        ensures
            ({
                let bytes = Seq::<u8>::empty();
                let fds = Seq::<Fd>::empty();
                destroy::dsr_spec(bytes + rest, queue + fds.reverse()) == Decoded::Value(
                    (),
                    bytes.len(),
                    queue,
                )
            }),
    {
        let m = destroy {};
        m.lemma_roundtrip(rest, queue);
    }

    /// The message creates no object.
    pub proof fn lemma_creates(&self)
        ensures
            self.created_id() is None,
    {
    }
}

impl Msg<Obj> for destroy {
    open spec fn opcode() -> u16 {
        1
    }

    open spec fn since_version() -> u32 {
        1
    }

    open spec fn created_id(&self) -> Option<u32> {
        None
    }

    open spec fn created_destructor(&self) -> Option<u16> {
        None
    }

    fn op() -> (r: u16) {
        1
    }

    fn since() -> u32 {
        1
    }

    fn new_id(&self) -> (r: Option<(u32, ObjMeta)>) {
        None
    }
}

impl Request<Obj> for destroy {

}

/// set the available drag-and-drop actions
///
/// Sets the actions that the source side client supports for this
/// operation. This request may trigger wl_data_source.action and
/// wl_data_offer.action events if the compositor needs to change the
/// selected action.
///
/// The dnd_actions argument must contain only values expressed in the
/// wl_data_device_manager.dnd_actions enum, otherwise it will result
/// in a protocol error.
///
/// This request must be made once only, and can only be made on sources
/// used in drag-and-drop, so it must be performed before
/// wl_data_device.start_drag. Attempting to use the source other than
/// for drag-and-drop will raise a protocol error.
///
#[derive(Debug)]
pub struct set_actions {
    // actions supported by the data source
    pub dnd_actions: crate::wl_data_device_manager::dnd_action,
}

impl Ser for set_actions {
    open spec fn ser_ok(&self) -> bool {
        &&& self.dnd_actions.ser_ok()
        &&& self.ser_bytes().len() <= usize::MAX
    }

    open spec fn ser_bytes(&self) -> Seq<u8> {
        self.dnd_actions.ser_bytes()
    }

    open spec fn ser_fds(&self) -> Seq<Fd> {
        self.dnd_actions.ser_fds()
    }

    fn wire_len(&self) -> (n: usize) {
        self.dnd_actions.wire_len()
    }

    fn checked_len(&self) -> (r: Option<usize>) {
        let n0 = match self.dnd_actions.checked_len() {
            Some(m) => m,
            None => return None,
        };
        Some(n0)
    }

    open spec fn ser_fits(&self, cap: int) -> bool {
        &&& 0 <= cap && self.dnd_actions.ser_fits(cap - (0))
    }

    fn serialize(self, buf: &mut [u8], fds: &mut Vec<Fd>) -> (r: Result<usize, &'static str>) {
        let ghost me = self;
        let ghost b0 = buf@;
        let mut n: usize = 0;
        n = n + ser_at(self.dnd_actions, buf, n, fds);
        assert(fds@ =~= old(fds)@ + me.ser_fds());
        Ok(n)
    }

    proof fn lemma_fits(&self, cap: int) {
        self.dnd_actions.lemma_fits(cap - (0));
    }
}

impl DeepView for set_actions {
    type V = (<crate::wl_data_device_manager::dnd_action as DeepView>::V,);

    open spec fn deep_view(&self) -> (<crate::wl_data_device_manager::dnd_action as DeepView>::V,) {
        (self.dnd_actions.deep_view(),)
    }
}

impl Dsr for set_actions {
    open spec fn dsr_spec(buf: Seq<u8>, fds: Seq<Fd>) -> Decoded<(<crate::wl_data_device_manager::dnd_action as DeepView>::V,)> {
        match <crate::wl_data_device_manager::dnd_action>::dsr_spec(buf, fds) {
            Decoded::Value(dnd_actions, n0, q0) => Decoded::Value((dnd_actions,), n0, q0),
            d => d.fail(),
        }
    }

    fn try_deserialize(buf: &[u8], fds: &mut Vec<Fd>) -> (r: Option<Result<(set_actions, usize), &'static str>>) {
        let mut n: usize = 0;
        let rest = &buf[n..buf.len()];
        assert(rest@ =~= buf@.skip(n as int));
        assert(n == 0 ==> rest@ =~= buf@);
        let (dnd_actions, m) = match <crate::wl_data_device_manager::dnd_action>::try_deserialize(rest, fds) {
            Some(Ok(p)) => p,
            Some(Err(e)) => return Some(Err(e)),
            None => return None,
        };
        n = n + m;
        Some(Ok((set_actions { dnd_actions }, n)))
    }
}

impl Codec for set_actions {
    open spec fn rt_ok(&self) -> bool {
        &&& self.dnd_actions.rt_ok()
    }

    proof fn lemma_roundtrip(&self, tail: Seq<u8>, base: Seq<Fd>) {
        let b0 = self.dnd_actions.ser_bytes();
        let d0 = self.dnd_actions.ser_fds();
        let s1 = tail;
        let s0 = b0 + s1;
        let buf = self.ser_bytes() + tail;
        assert(buf =~= s0);
        assert(buf.skip(0) =~= s0);
        assert(self.ser_fds() =~= Seq::<Fd>::empty());
        assert(base + self.ser_fds().reverse() =~= base);
        assert(d0 =~= Seq::<Fd>::empty());
        assert(base + d0.reverse() =~= base);
        self.dnd_actions.lemma_roundtrip(s1, base);
    }
}

impl set_actions {
    /// The arguments are read in the protocol's order, `dnd_actions`: the bytes
    /// and descriptors written for such arguments, one after the other,
    /// decode to exactly those arguments.
    pub proof fn lemma_layout(dnd_actions: crate::wl_data_device_manager::dnd_action, rest: Seq<u8>, queue: Seq<Fd>)
        requires
            dnd_actions.ser_ok(),
            dnd_actions.rt_ok(),
            dnd_actions.ser_bytes().len() <= usize::MAX,
        ensures
            ({
                let bytes = dnd_actions.ser_bytes();
                let fds = dnd_actions.ser_fds();
                set_actions::dsr_spec(bytes + rest, queue + fds.reverse()) == Decoded::Value(
                    (dnd_actions.deep_view(),),
                    bytes.len(),
                    queue,
                )
            }),
    {
        let m = set_actions { dnd_actions };
        m.lemma_roundtrip(rest, queue);
    }

    /// The message creates no object.
    pub proof fn lemma_creates(&self)
        ensures
            self.created_id() is None,
    {
    }
}

impl Msg<Obj> for set_actions {
    open spec fn opcode() -> u16 {
        2
    }

    open spec fn since_version() -> u32 {
        1
    }

    open spec fn created_id(&self) -> Option<u32> {
        None
    }

    open spec fn created_destructor(&self) -> Option<u16> {
        None
    }

    fn op() -> (r: u16) {
        2
    }

    fn since() -> u32 {
        1
    }

    fn new_id(&self) -> (r: Option<(u32, ObjMeta)>) {
        None
    }
}

impl Request<Obj> for set_actions {

}

/// The opcode of each request: its index in the protocol's list of the
/// interface's requests, so that no two requests share one.
pub proof fn lemma_opcodes()
    ensures
        <offer as Msg<Obj>>::opcode() == 0,
        <destroy as Msg<Obj>>::opcode() == 1,
        <set_actions as Msg<Obj>>::opcode() == 2,
        <offer as Msg<Obj>>::opcode() != <destroy as Msg<Obj>>::opcode(),
        <offer as Msg<Obj>>::opcode() != <set_actions as Msg<Obj>>::opcode(),
        <destroy as Msg<Obj>>::opcode() != <set_actions as Msg<Obj>>::opcode(),
        <Obj as Object>::destructor_op() == Some(<destroy as Msg<Obj>>::opcode()),
{
}

} // verus!
