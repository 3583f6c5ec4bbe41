use vstd::prelude::*;
use crate::objects::{type_id_of, new_id, object, Dyn, ObjMeta, Object, Msg, Event};
use crate::wire::{ser_at, write_at, lemma_write_then, lemma_reverse_add, lemma_skip_step, fixed, Codec, Decoded, Dsr, Fd, Ser};
use super::Obj;

verus! {

/// advertise offered mime type
///
/// Sent immediately after creating the wl_data_offer object.  One
/// event per offered mime type.
///
#[derive(Debug)]
pub struct offer {
    // offered mime type
    pub mime_type: String,
}

impl Ser for offer {
    open spec fn ser_ok(&self) -> bool {
        &&& self.mime_type.ser_ok()
        &&& self.ser_bytes().len() <= usize::MAX
    }

    open spec fn ser_bytes(&self) -> Seq<u8> {
        self.mime_type.ser_bytes()
    }

    open spec fn ser_fds(&self) -> Seq<Fd> {
        self.mime_type.ser_fds()
    }

    fn wire_len(&self) -> (n: usize) {
        self.mime_type.wire_len()
    }

    fn checked_len(&self) -> (r: Option<usize>) {
        let n0 = match self.mime_type.checked_len() {
            Some(m) => m,
            None => return None,
        };
        Some(n0)
    }

    open spec fn ser_fits(&self, cap: int) -> bool {
        &&& 0 <= cap && self.mime_type.ser_fits(cap - (0))
    }

    fn serialize(self, buf: &mut [u8], fds: &mut Vec<Fd>) -> (r: Result<usize, &'static str>) {
        let ghost me = self;
        let ghost b0 = buf@;
        let mut n: usize = 0;
        n = n + ser_at(self.mime_type, buf, n, fds);
        assert(fds@ =~= old(fds)@ + me.ser_fds());
        Ok(n)
    }

    proof fn lemma_fits(&self, cap: int) {
        self.mime_type.lemma_fits(cap - (0));
    }
}

impl DeepView for offer {
    type V = (<String as DeepView>::V,);

    open spec fn deep_view(&self) -> (<String as DeepView>::V,) {
        (self.mime_type.deep_view(),)
    }
}

impl Dsr for offer {
    open spec fn dsr_spec(buf: Seq<u8>, fds: Seq<Fd>) -> Decoded<(<String as DeepView>::V,)> {
        match <String>::dsr_spec(buf, fds) {
            Decoded::Value(mime_type, n0, q0) => Decoded::Value((mime_type,), n0, q0),
            d => d.fail(),
        }
    }

    fn try_deserialize(buf: &[u8], fds: &mut Vec<Fd>) -> (r: Option<Result<(offer, usize), &'static str>>) {
        let mut n: usize = 0;
        let rest = &buf[n..buf.len()];
        assert(rest@ =~= buf@.skip(n as int));
        assert(n == 0 ==> rest@ =~= buf@);
        let (mime_type, m) = match <String>::try_deserialize(rest, fds) {
            Some(Ok(p)) => p,
            Some(Err(e)) => return Some(Err(e)),
            None => return None,
        };
        n = n + m;
        Some(Ok((offer { mime_type }, n)))
    }
}

impl Codec for offer {
    open spec fn rt_ok(&self) -> bool {
        &&& self.mime_type.rt_ok()
    }

    proof fn lemma_roundtrip(&self, tail: Seq<u8>, base: Seq<Fd>) {
        let b0 = self.mime_type.ser_bytes();
        let d0 = self.mime_type.ser_fds();
        let s1 = tail;
        let s0 = b0 + s1;
        let buf = self.ser_bytes() + tail;
        assert(buf =~= s0);
        assert(buf.skip(0) =~= s0);
        assert(self.ser_fds() =~= Seq::<Fd>::empty());
        assert(base + self.ser_fds().reverse() =~= base);
        assert(d0 =~= Seq::<Fd>::empty());
        assert(base + d0.reverse() =~= base);
        self.mime_type.lemma_roundtrip(s1, base);
    }
}

impl offer {
    /// The arguments are read in the protocol's order, `mime_type`: the bytes
    /// and descriptors written for such arguments, one after the other,
    /// decode to exactly those arguments.
    pub proof fn lemma_layout(mime_type: String, rest: Seq<u8>, queue: Seq<Fd>)
        requires
            mime_type.ser_ok(),
            mime_type.rt_ok(),
            mime_type.ser_bytes().len() <= usize::MAX,
        ensures
            ({
                let bytes = mime_type.ser_bytes();
                let fds = mime_type.ser_fds();
                offer::dsr_spec(bytes + rest, queue + fds.reverse()) == Decoded::Value(
                    (mime_type.deep_view(),),
                    bytes.len(),
                    queue,
                )
            }),
    {
        let m = offer { mime_type };
        m.lemma_roundtrip(rest, queue);
    }

    /// The message creates no object.
    pub proof fn lemma_creates(&self)
        ensures
            self.created_id() is None,
    {
    }
}

impl Msg<Obj> for offer {
    open spec fn opcode() -> u16 {
        0
    }

    open spec fn since_version() -> u32 {
        1
    }

    open spec fn created_id(&self) -> Option<u32> {
        None
    }

    open spec fn created_destructor(&self) -> Option<u16> {
        None
    }

    fn op() -> (r: u16) {
        0
    }

    fn since() -> u32 {
        1
    }

    fn new_id(&self) -> (r: Option<(u32, ObjMeta)>) {
        None
    }
}

impl Event<Obj> for offer {

}

/// notify the source-side available actions
///
/// This event indicates the actions offered by the data source. It
/// will be sent immediately after creating the wl_data_offer object,
/// or anytime the source side changes its offered actions through
/// wl_data_source.set_actions.
///
#[derive(Debug)]
pub struct source_actions {
    // actions offered by the data source
    pub source_actions: crate::wl_data_device_manager::dnd_action,
}

impl Ser for source_actions {
    open spec fn ser_ok(&self) -> bool {
        &&& self.source_actions.ser_ok()
        &&& self.ser_bytes().len() <= usize::MAX
    }

    open spec fn ser_bytes(&self) -> Seq<u8> {
        self.source_actions.ser_bytes()
    }

    open spec fn ser_fds(&self) -> Seq<Fd> {
        self.source_actions.ser_fds()
    }

    fn wire_len(&self) -> (n: usize) {
        self.source_actions.wire_len()
    }

    fn checked_len(&self) -> (r: Option<usize>) {
        let n0 = match self.source_actions.checked_len() {
            Some(m) => m,
            None => return None,
        };
        Some(n0)
    }

    open spec fn ser_fits(&self, cap: int) -> bool {
        &&& 0 <= cap && self.source_actions.ser_fits(cap - (0))
    }

    fn serialize(self, buf: &mut [u8], fds: &mut Vec<Fd>) -> (r: Result<usize, &'static str>) {
        let ghost me = self;
        let ghost b0 = buf@;
        let mut n: usize = 0;
        n = n + ser_at(self.source_actions, buf, n, fds);
        assert(fds@ =~= old(fds)@ + me.ser_fds());
        Ok(n)
    }

    proof fn lemma_fits(&self, cap: int) {
        self.source_actions.lemma_fits(cap - (0));
    }
}

impl DeepView for source_actions {
    type V = (<crate::wl_data_device_manager::dnd_action as DeepView>::V,);

    open spec fn deep_view(&self) -> (<crate::wl_data_device_manager::dnd_action as DeepView>::V,) {
        (self.source_actions.deep_view(),)
    }
}

impl Dsr for source_actions {
    open spec fn dsr_spec(buf: Seq<u8>, fds: Seq<Fd>) -> Decoded<(<crate::wl_data_device_manager::dnd_action as DeepView>::V,)> {
        match <crate::wl_data_device_manager::dnd_action>::dsr_spec(buf, fds) {
            Decoded::Value(source_actions, n0, q0) => Decoded::Value((source_actions,), n0, q0),
            d => d.fail(),
        }
    }

    fn try_deserialize(buf: &[u8], fds: &mut Vec<Fd>) -> (r: Option<Result<(source_actions, usize), &'static str>>) {
        let mut n: usize = 0;
        let rest = &buf[n..buf.len()];
        assert(rest@ =~= buf@.skip(n as int));
        assert(n == 0 ==> rest@ =~= buf@);
        let (source_actions, m) = match <crate::wl_data_device_manager::dnd_action>::try_deserialize(rest, fds) {
            Some(Ok(p)) => p,
            Some(Err(e)) => return Some(Err(e)),
            None => return None,
        };
        n = n + m;
        Some(Ok((source_actions { source_actions }, n)))
    }
}

impl Codec for source_actions {
    open spec fn rt_ok(&self) -> bool {
        &&& self.source_actions.rt_ok()
    }

    proof fn lemma_roundtrip(&self, tail: Seq<u8>, base: Seq<Fd>) {
        let b0 = self.source_actions.ser_bytes();
        let d0 = self.source_actions.ser_fds();
        let s1 = tail;
        let s0 = b0 + s1;
        let buf = self.ser_bytes() + tail;
        assert(buf =~= s0);
        assert(buf.skip(0) =~= s0);
        assert(self.ser_fds() =~= Seq::<Fd>::empty());
        assert(base + self.ser_fds().reverse() =~= base);
        assert(d0 =~= Seq::<Fd>::empty());
        assert(base + d0.reverse() =~= base);
        self.source_actions.lemma_roundtrip(s1, base);
    }
}

impl source_actions {
    /// The arguments are read in the protocol's order, `source_actions`: the bytes
    /// and descriptors written for such arguments, one after the other,
    /// decode to exactly those arguments.
    pub proof fn lemma_layout(source_actions: crate::wl_data_device_manager::dnd_action, rest: Seq<u8>, queue: Seq<Fd>)
        requires
            source_actions.ser_ok(),
            source_actions.rt_ok(),
            source_actions.ser_bytes().len() <= usize::MAX,
        ensures
            ({
                let bytes = source_actions.ser_bytes();
                let fds = source_actions.ser_fds();
                source_actions::dsr_spec(bytes + rest, queue + fds.reverse()) == Decoded::Value(
                    (source_actions.deep_view(),),
                    bytes.len(),
                    queue,
                )
            }),
    {
        let m = source_actions { source_actions };
        m.lemma_roundtrip(rest, queue);
    }

    /// The message creates no object.
    pub proof fn lemma_creates(&self)
        ensures
            self.created_id() is None,
    {
    }
}

impl Msg<Obj> for source_actions {
    open spec fn opcode() -> u16 {
        1
    }

    open spec fn since_version() -> u32 {
        1
    }

    open spec fn created_id(&self) -> Option<u32> {
        None
    }

    open spec fn created_destructor(&self) -> Option<u16> {
        None
    }

    fn op() -> (r: u16) {
        1
    }

    fn since() -> u32 {
        1
    }

    fn new_id(&self) -> (r: Option<(u32, ObjMeta)>) {
        None
    }
}

impl Event<Obj> for source_actions {

}

/// notify the selected action
///
/// This event indicates the action selected by the compositor after
/// matching the source/destination side actions. Only one action (or
/// none) will be offered here.
///
/// This event can be emitted multiple times during the drag-and-drop
/// operation in response to destination side action changes through
/// wl_data_offer.set_actions.
///
/// This event will no longer be emitted after wl_data_device.drop
/// happened on the drag-and-drop destination, the client must
/// honor the last action received, or the last preferred one set
/// through wl_data_offer.set_actions when handling an "ask" action.
///
/// Compositors may also change the selected action on the fly, mainly
/// in response to keyboard modifier changes during the drag-and-drop
/// operation.
///
/// The most recent action received is always the valid one. Prior to
/// receiving wl_data_device.drop, the chosen action may change (e.g.
/// due to keyboard modifiers being pressed). At the time of receiving
/// wl_data_device.drop the drag-and-drop destination must honor the
/// last action received.
///
/// Action changes may still happen after wl_data_device.drop,
/// especially on "ask" actions, where the drag-and-drop destination
/// may choose another action afterwards. Action changes happening
/// at this stage are always the result of inter-client negotiation, the
/// compositor shall no longer be able to induce a different action.
///
/// Upon "ask" actions, it is expected that the drag-and-drop destination
/// may potentially choose a different action and/or mime type,
/// based on wl_data_offer.source_actions and finally chosen by the
/// user (e.g. popping up a menu with the available options). The
/// final wl_data_offer.set_actions and wl_data_offer.accept requests
/// must happen before the call to wl_data_offer.finish.
///
#[derive(Debug)]
pub struct action {
    // action selected by the compositor
    pub dnd_action: crate::wl_data_device_manager::dnd_action,
}

impl Ser for action {
    open spec fn ser_ok(&self) -> bool {
        &&& self.dnd_action.ser_ok()
        &&& self.ser_bytes().len() <= usize::MAX
    }

    open spec fn ser_bytes(&self) -> Seq<u8> {
        self.dnd_action.ser_bytes()
    }

    open spec fn ser_fds(&self) -> Seq<Fd> {
        self.dnd_action.ser_fds()
    }

    fn wire_len(&self) -> (n: usize) {
        self.dnd_action.wire_len()
    }

    fn checked_len(&self) -> (r: Option<usize>) {
        let n0 = match self.dnd_action.checked_len() {
            Some(m) => m,
            None => return None,
        };
        Some(n0)
    }

    open spec fn ser_fits(&self, cap: int) -> bool {
        &&& 0 <= cap && self.dnd_action.ser_fits(cap - (0))
    }

    fn serialize(self, buf: &mut [u8], fds: &mut Vec<Fd>) -> (r: Result<usize, &'static str>) {
        let ghost me = self;
        let ghost b0 = buf@;
        let mut n: usize = 0;
        n = n + ser_at(self.dnd_action, buf, n, fds);
        assert(fds@ =~= old(fds)@ + me.ser_fds());
        Ok(n)
    }

    proof fn lemma_fits(&self, cap: int) {
        self.dnd_action.lemma_fits(cap - (0));
    }
}

impl DeepView for action {
    type V = (<crate::wl_data_device_manager::dnd_action as DeepView>::V,);

    open spec fn deep_view(&self) -> (<crate::wl_data_device_manager::dnd_action as DeepView>::V,) {
        (self.dnd_action.deep_view(),)
    }
}

impl Dsr for action {
    open spec fn dsr_spec(buf: Seq<u8>, fds: Seq<Fd>) -> Decoded<(<crate::wl_data_device_manager::dnd_action as DeepView>::V,)> {
        match <crate::wl_data_device_manager::dnd_action>::dsr_spec(buf, fds) {
            Decoded::Value(dnd_action, n0, q0) => Decoded::Value((dnd_action,), n0, q0),
            d => d.fail(),
        }
    }

    fn try_deserialize(buf: &[u8], fds: &mut Vec<Fd>) -> (r: Option<Result<(action, usize), &'static str>>) {
        let mut n: usize = 0;
        let rest = &buf[n..buf.len()];
        assert(rest@ =~= buf@.skip(n as int));
        assert(n == 0 ==> rest@ =~= buf@);
        let (dnd_action, m) = match <crate::wl_data_device_manager::dnd_action>::try_deserialize(rest, fds) {
            Some(Ok(p)) => p,
            Some(Err(e)) => return Some(Err(e)),
            None => return None,
        };
        n = n + m;
        Some(Ok((action { dnd_action }, n)))
    }
}

impl Codec for action {
    open spec fn rt_ok(&self) -> bool {
        &&& self.dnd_action.rt_ok()
    }

    proof fn lemma_roundtrip(&self, tail: Seq<u8>, base: Seq<Fd>) {
        let b0 = self.dnd_action.ser_bytes();
        let d0 = self.dnd_action.ser_fds();
        let s1 = tail;
        let s0 = b0 + s1;
        let buf = self.ser_bytes() + tail;
        assert(buf =~= s0);
        assert(buf.skip(0) =~= s0);
        assert(self.ser_fds() =~= Seq::<Fd>::empty());
        assert(base + self.ser_fds().reverse() =~= base);
        assert(d0 =~= Seq::<Fd>::empty());
        assert(base + d0.reverse() =~= base);
        self.dnd_action.lemma_roundtrip(s1, base);
    }
}

impl action {
    /// The arguments are read in the protocol's order, `dnd_action`: the bytes
    /// and descriptors written for such arguments, one after the other,
    /// decode to exactly those arguments.
    pub proof fn lemma_layout(dnd_action: crate::wl_data_device_manager::dnd_action, rest: Seq<u8>, queue: Seq<Fd>)
        requires
            dnd_action.ser_ok(),
            dnd_action.rt_ok(),
            dnd_action.ser_bytes().len() <= usize::MAX,
        ensures
            ({
                let bytes = dnd_action.ser_bytes();
                let fds = dnd_action.ser_fds();
                action::dsr_spec(bytes + rest, queue + fds.reverse()) == Decoded::Value(
                    (dnd_action.deep_view(),),
                    bytes.len(),
                    queue,
                )
            }),
    {
        let m = action { dnd_action };
        m.lemma_roundtrip(rest, queue);
    }

    /// The message creates no object.
    pub proof fn lemma_creates(&self)
        ensures
            self.created_id() is None,
    {
    }
}

impl Msg<Obj> for action {
    open spec fn opcode() -> u16 {
        2
    }

    open spec fn since_version() -> u32 {
        1
    }

    open spec fn created_id(&self) -> Option<u32> {
        None
    }

    open spec fn created_destructor(&self) -> Option<u16> {
        None
    }

    fn op() -> (r: u16) {
        2
    }

    fn since() -> u32 {
        1
    }

    fn new_id(&self) -> (r: Option<(u32, ObjMeta)>) {
        None
    }
}

impl Event<Obj> for action {

}

/// The opcode of each event: its index in the protocol's list of the
/// interface's events, so that no two events share one.
pub proof fn lemma_opcodes()
    ensures
        <offer as Msg<Obj>>::opcode() == 0,
        <source_actions as Msg<Obj>>::opcode() == 1,
        <action as Msg<Obj>>::opcode() == 2,
        <offer as Msg<Obj>>::opcode() != <source_actions as Msg<Obj>>::opcode(),
        <offer as Msg<Obj>>::opcode() != <action as Msg<Obj>>::opcode(),
        <source_actions as Msg<Obj>>::opcode() != <action as Msg<Obj>>::opcode(),
{
}

} // verus!
