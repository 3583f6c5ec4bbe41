use vstd::prelude::*;
use crate::objects::{type_id_of, new_id, object, Dyn, ObjMeta, Object, Msg, Event};
use crate::wire::{ser_at, write_at, lemma_write_then, lemma_reverse_add, lemma_skip_step, fixed, Codec, Decoded, Dsr, Fd, Ser};
use super::Obj;

verus! {

/// a target accepts an offered mime type
///
/// Sent when a target accepts pointer_focus or motion events.  If
/// a target does not accept any of the offered types, type is NULL.
///
/// Used for feedback during drag-and-drop.
///
#[derive(Debug)]
pub struct target {
    // mime type accepted by the target
    pub mime_type: String,
}

impl Ser for target {
    open spec fn ser_ok(&self) -> bool {
        &&& self.mime_type.ser_ok()
        &&& self.ser_bytes().len() <= usize::MAX
    }

    open spec fn ser_bytes(&self) -> Seq<u8> {
        self.mime_type.ser_bytes()
    }

    open spec fn ser_fds(&self) -> Seq<Fd> {
        self.mime_type.ser_fds()
    }

    fn wire_len(&self) -> (n: usize) {
        self.mime_type.wire_len()
    }

    fn checked_len(&self) -> (r: Option<usize>) {
        let n0 = match self.mime_type.checked_len() {
            Some(m) => m,
            None => return None,
        };
        Some(n0)
    }

    open spec fn ser_fits(&self, cap: int) -> bool {
        &&& 0 <= cap && self.mime_type.ser_fits(cap - (0))
    }

    fn serialize(self, buf: &mut [u8], fds: &mut Vec<Fd>) -> (r: Result<usize, &'static str>) {
        let ghost me = self;
        let ghost b0 = buf@;
        let mut n: usize = 0;
        n = n + ser_at(self.mime_type, buf, n, fds);
        assert(fds@ =~= old(fds)@ + me.ser_fds());
        Ok(n)
    }

    proof fn lemma_fits(&self, cap: int) {
        self.mime_type.lemma_fits(cap - (0));
    }
}

impl DeepView for target {
    type V = (<String as DeepView>::V,);

    open spec fn deep_view(&self) -> (<String as DeepView>::V,) {
        (self.mime_type.deep_view(),)
    }
}

impl Dsr for target {
    open spec fn dsr_spec(buf: Seq<u8>, fds: Seq<Fd>) -> Decoded<(<String as DeepView>::V,)> {
        match <String>::dsr_spec(buf, fds) {
            Decoded::Value(mime_type, n0, q0) => Decoded::Value((mime_type,), n0, q0),
            d => d.fail(),
        }
    }

    fn try_deserialize(buf: &[u8], fds: &mut Vec<Fd>) -> (r: Option<Result<(target, usize), &'static str>>) {
        let mut n: usize = 0;
        let rest = &buf[n..buf.len()];
        assert(rest@ =~= buf@.skip(n as int));
        assert(n == 0 ==> rest@ =~= buf@);
        let (mime_type, m) = match <String>::try_deserialize(rest, fds) {
            Some(Ok(p)) => p,
            Some(Err(e)) => return Some(Err(e)),
            None => return None,
        };
        n = n + m;
        Some(Ok((target { mime_type }, n)))
    }
}

impl Codec for target {
    open spec fn rt_ok(&self) -> bool {
        &&& self.mime_type.rt_ok()
    }

    proof fn lemma_roundtrip(&self, tail: Seq<u8>, base: Seq<Fd>) {
        let b0 = self.mime_type.ser_bytes();
        let d0 = self.mime_type.ser_fds();
        let s1 = tail;
        let s0 = b0 + s1;
        let buf = self.ser_bytes() + tail;
        assert(buf =~= s0);
        assert(buf.skip(0) =~= s0);
        assert(self.ser_fds() =~= Seq::<Fd>::empty());
        assert(base + self.ser_fds().reverse() =~= base);
        assert(d0 =~= Seq::<Fd>::empty());
        assert(base + d0.reverse() =~= base);
        self.mime_type.lemma_roundtrip(s1, base);
    }
}

impl target {
    /// The arguments are read in the protocol's order, `mime_type`: the bytes
    /// and descriptors written for such arguments, one after the other,
    /// decode to exactly those arguments.
    pub proof fn lemma_layout(mime_type: String, rest: Seq<u8>, queue: Seq<Fd>)
        requires
            mime_type.ser_ok(),
            mime_type.rt_ok(),
            mime_type.ser_bytes().len() <= usize::MAX,
        ensures
            ({
                let bytes = mime_type.ser_bytes();
                let fds = mime_type.ser_fds();
                target::dsr_spec(bytes + rest, queue + fds.reverse()) == Decoded::Value(
                    (mime_type.deep_view(),),
                    bytes.len(),
                    queue,
                )
            }),
    {
        let m = target { mime_type };
        m.lemma_roundtrip(rest, queue);
    }

    /// The message creates no object.
    pub proof fn lemma_creates(&self)
        ensures
            self.created_id() is None,
    {
    }
}

impl Msg<Obj> for target {
    open spec fn opcode() -> u16 {
        0
    }

    open spec fn since_version() -> u32 {
        1
    }

    open spec fn created_id(&self) -> Option<u32> {
        None
    }

    open spec fn created_destructor(&self) -> Option<u16> {
        None
    }

    fn op() -> (r: u16) {
        0
    }

    fn since() -> u32 {
        1
    }

    fn new_id(&self) -> (r: Option<(u32, ObjMeta)>) {
        None
    }
}

impl Event<Obj> for target {

}

/// send the data
///
/// Request for data from the client.  Send the data as the
/// specified mime type over the passed file descriptor, then
/// close it.
///
#[derive(Debug)]
pub struct send {
    // mime type for the data
    pub mime_type: String,
    // file descriptor for the data
    pub fd: Fd,
}

impl Ser for send {
    open spec fn ser_ok(&self) -> bool {
        &&& self.mime_type.ser_ok()
        &&& self.fd.ser_ok()
        &&& self.ser_bytes().len() <= usize::MAX
    }

    open spec fn ser_bytes(&self) -> Seq<u8> {
        self.mime_type.ser_bytes() + self.fd.ser_bytes()
    }

    open spec fn ser_fds(&self) -> Seq<Fd> {
        self.mime_type.ser_fds() + self.fd.ser_fds()
    }

    fn wire_len(&self) -> (n: usize) {
        self.mime_type.wire_len() + self.fd.wire_len()
    }

    fn checked_len(&self) -> (r: Option<usize>) {
        let n0 = match self.mime_type.checked_len() {
            Some(m) => m,
            None => return None,
        };
        let n1 = match self.fd.checked_len() {
            Some(m) => match n0.checked_add(m) {
                Some(t) => t,
                None => return None,
            },
            None => return None,
        };
        Some(n1)
    }

    open spec fn ser_fits(&self, cap: int) -> bool {
        &&& 0 <= cap && self.mime_type.ser_fits(cap - (0))
        &&& self.mime_type.ser_bytes().len() <= cap && self.fd.ser_fits(cap - (self.mime_type.ser_bytes().len()))
    }

    fn serialize(self, buf: &mut [u8], fds: &mut Vec<Fd>) -> (r: Result<usize, &'static str>) {
        let ghost me = self;
        let ghost b0 = buf@;
        let mut n: usize = 0;
        n = n + ser_at(self.mime_type, buf, n, fds);
        assert(fds@ =~= old(fds)@ + me.mime_type.ser_fds());
        n = n + ser_at(self.fd, buf, n, fds);
        proof {
            lemma_write_then(b0, 0, me.mime_type.ser_bytes(), me.fd.ser_bytes());
        }
        assert(fds@ =~= old(fds)@ + me.ser_fds());
        Ok(n)
    }

    proof fn lemma_fits(&self, cap: int) {
        self.mime_type.lemma_fits(cap - (0));
        self.fd.lemma_fits(cap - (self.mime_type.ser_bytes().len()));
    }
}

impl DeepView for send {
    type V = (<String as DeepView>::V, <Fd as DeepView>::V,);

    open spec fn deep_view(&self) -> (<String as DeepView>::V, <Fd as DeepView>::V,) {
        (self.mime_type.deep_view(), self.fd.deep_view(),)
    }
}

impl Dsr for send {
    open spec fn dsr_spec(buf: Seq<u8>, fds: Seq<Fd>) -> Decoded<(<String as DeepView>::V, <Fd as DeepView>::V,)> {
        match <String>::dsr_spec(buf, fds) {
            Decoded::Value(mime_type, n0, q0) => {
                match <Fd>::dsr_spec(buf.skip(n0 as int), q0) {
                    Decoded::Value(fd, m1, q1) => {
                        let n1 = n0 + m1;
                        Decoded::Value((mime_type, fd,), n1, q1)
                    },
                    d => d.fail(),
                }
            },
            d => d.fail(),
        }
    }

    fn try_deserialize(buf: &[u8], fds: &mut Vec<Fd>) -> (r: Option<Result<(send, usize), &'static str>>) {
        let mut n: usize = 0;
        let rest = &buf[n..buf.len()];
        assert(rest@ =~= buf@.skip(n as int));
        assert(n == 0 ==> rest@ =~= buf@);
        let (mime_type, m) = match <String>::try_deserialize(rest, fds) {
            Some(Ok(p)) => p,
            Some(Err(e)) => return Some(Err(e)),
            None => return None,
        };
        n = n + m;
        let rest = &buf[n..buf.len()];
        assert(rest@ =~= buf@.skip(n as int));
        assert(n == 0 ==> rest@ =~= buf@);
        let (fd, m) = match <Fd>::try_deserialize(rest, fds) {
            Some(Ok(p)) => p,
            Some(Err(e)) => return Some(Err(e)),
            None => return None,
        };
        n = n + m;
        Some(Ok((send { mime_type, fd }, n)))
    }
}

impl Codec for send {
    open spec fn rt_ok(&self) -> bool {
        &&& self.mime_type.rt_ok()
        &&& self.fd.rt_ok()
    }

    proof fn lemma_roundtrip(&self, tail: Seq<u8>, base: Seq<Fd>) {
        let b0 = self.mime_type.ser_bytes();
        let b1 = self.fd.ser_bytes();
        let d0 = self.mime_type.ser_fds();
        let d1 = self.fd.ser_fds();
        let s2 = tail;
        let s1 = b1 + s2;
        let s0 = b0 + s1;
        let buf = self.ser_bytes() + tail;
        assert(buf =~= s0);
        assert(buf.skip(0) =~= s0);
        lemma_reverse_add(d0, d1);
        let q1 = base;
        let q0 = q1 + d1.reverse();
        assert(base + self.ser_fds().reverse() =~= q0 + d0.reverse());
        self.mime_type.lemma_roundtrip(s1, q0);
        assert(buf.skip((b0.len()) as int) == s1) by {
            lemma_skip_step(buf, (0) as int, b0, s1);
        }
        self.fd.lemma_roundtrip(s2, q1);
    }
}

impl send {
    /// The arguments are read in the protocol's order, `mime_type`, then `fd`: the bytes
    /// and descriptors written for such arguments, one after the other,
    /// decode to exactly those arguments.
    pub proof fn lemma_layout(mime_type: String, fd: Fd, rest: Seq<u8>, queue: Seq<Fd>)
        requires
            mime_type.ser_ok(),
            mime_type.rt_ok(),
            fd.ser_ok(),
            fd.rt_ok(),
            mime_type.ser_bytes().len() + fd.ser_bytes().len() <= usize::MAX,
        ensures
            ({
                let bytes = mime_type.ser_bytes() + fd.ser_bytes();
                let fds = mime_type.ser_fds() + fd.ser_fds();
                send::dsr_spec(bytes + rest, queue + fds.reverse()) == Decoded::Value(
                    (mime_type.deep_view(), fd.deep_view(),),
                    bytes.len(),
                    queue,
                )
            }),
    {
        let m = send { mime_type, fd };
        m.lemma_roundtrip(rest, queue);
    }

    /// The message creates no object.
    pub proof fn lemma_creates(&self)
        ensures
            self.created_id() is None,
    {
    }
}

impl Msg<Obj> for send {
    open spec fn opcode() -> u16 {
        1
    }

    open spec fn since_version() -> u32 {
        1
    }

    open spec fn created_id(&self) -> Option<u32> {
        None
    }

    open spec fn created_destructor(&self) -> Option<u16> {
        None
    }

    fn op() -> (r: u16) {
        1
    }

    fn since() -> u32 {
        1
    }

    fn new_id(&self) -> (r: Option<(u32, ObjMeta)>) {
        None
    }
}

impl Event<Obj> for send {

}

/// selection was cancelled
///
/// This data source is no longer valid. There are several reasons why
/// this could happen:
///
/// - The data source has been replaced by another data source.
/// - The drag-and-drop operation was performed, but the drop destination
/// did not accept any of the mime types offered through
/// wl_data_source.target.
/// - The drag-and-drop operation was performed, but the drop destination
/// did not select any of the actions present in the mask offered through
/// wl_data_source.action.
/// - The drag-and-drop operation was performed but didn't happen over a
/// surface.
/// - The compositor cancelled the drag-and-drop operation (e.g. compositor
/// dependent timeouts to avoid stale drag-and-drop transfers).
///
/// The client should clean up and destroy this data source.
///
/// For objects of version 2 or older, wl_data_source.cancelled will
/// only be emitted if the data source was replaced by another data
/// source.
///
#[derive(Debug)]
pub struct cancelled {}

impl Ser for cancelled {
    open spec fn ser_ok(&self) -> bool {
        true
    }

    open spec fn ser_bytes(&self) -> Seq<u8> {
        Seq::empty()
    }

    open spec fn ser_fds(&self) -> Seq<Fd> {
        Seq::empty()
    }

    fn wire_len(&self) -> (n: usize) {
        0
    }

    fn checked_len(&self) -> (r: Option<usize>) {
        Some(0)
    }

    open spec fn ser_fits(&self, cap: int) -> bool {
        true
    }

    fn serialize(self, buf: &mut [u8], fds: &mut Vec<Fd>) -> (r: Result<usize, &'static str>) {
        assert(buf@ =~= write_at(old(buf)@, 0, Seq::<u8>::empty()));
        assert(fds@ =~= old(fds)@ + Seq::<Fd>::empty());
        Ok(0)
    }

    proof fn lemma_fits(&self, cap: int) {
    }
}

impl DeepView for cancelled {
    type V = ();

    open spec fn deep_view(&self) -> () {
        ()
    }
}

impl Dsr for cancelled {
    open spec fn dsr_spec(buf: Seq<u8>, fds: Seq<Fd>) -> Decoded<()> {
        Decoded::Value((), 0, fds)
    }

    fn try_deserialize(buf: &[u8], fds: &mut Vec<Fd>) -> (r: Option<Result<(cancelled, usize), &'static str>>) {
        Some(Ok((cancelled {}, 0)))
    }
}

impl Codec for cancelled {
    open spec fn rt_ok(&self) -> bool {
        true
    }

    proof fn lemma_roundtrip(&self, tail: Seq<u8>, base: Seq<Fd>) {
        assert(Seq::<Fd>::empty().reverse() =~= Seq::<Fd>::empty());
        assert(base + Seq::<Fd>::empty() =~= base);
    }
}

impl cancelled {
    /// The arguments are read in the protocol's order, no arguments: the bytes
    /// and descriptors written for such arguments, one after the other,
    /// decode to exactly those arguments.
    pub proof fn lemma_layout(rest: Seq<u8>, queue: Seq<Fd>)
        ensures
            ({
                let bytes = Seq::<u8>::empty();
                let fds = Seq::<Fd>::empty();
                cancelled::dsr_spec(bytes + rest, queue + fds.reverse()) == Decoded::Value(
                    (),
                    bytes.len(),
                    queue,
                )
            }),
    {
        let m = cancelled {};
        m.lemma_roundtrip(rest, queue);
    }

    /// The message creates no object.
    pub proof fn lemma_creates(&self)
        ensures
            self.created_id() is None,
    {
    }
}

impl Msg<Obj> for cancelled {
    open spec fn opcode() -> u16 {
        2
    }

    open spec fn since_version() -> u32 {
        1
    }

    open spec fn created_id(&self) -> Option<u32> {
        None
    }

    open spec fn created_destructor(&self) -> Option<u16> {
        None
    }

    fn op() -> (r: u16) {
        2
    }

    fn since() -> u32 {
        1
    }

    fn new_id(&self) -> (r: Option<(u32, ObjMeta)>) {
        None
    }
}

impl Event<Obj> for cancelled {

}

/// the drag-and-drop operation physically finished
///
/// The user performed the drop action. This event does not indicate
/// acceptance, wl_data_source.cancelled may still be emitted afterwards
/// if the drop destination does not accept any mime type.
///
/// However, this event might however not be received if the compositor
/// cancelled the drag-and-drop operation before this event could happen.
///
/// Note that the data_source may still be used in the future and should
/// not be destroyed here.
///
#[derive(Debug)]
pub struct dnd_drop_performed {}

impl Ser for dnd_drop_performed {
    open spec fn ser_ok(&self) -> bool {
        true
    }

    open spec fn ser_bytes(&self) -> Seq<u8> {
        Seq::empty()
    }

    open spec fn ser_fds(&self) -> Seq<Fd> {
        Seq::empty()
    }

    fn wire_len(&self) -> (n: usize) {
        0
    }

    fn checked_len(&self) -> (r: Option<usize>) {
        Some(0)
    }

    open spec fn ser_fits(&self, cap: int) -> bool {
        true
    }

    fn serialize(self, buf: &mut [u8], fds: &mut Vec<Fd>) -> (r: Result<usize, &'static str>) {
        assert(buf@ =~= write_at(old(buf)@, 0, Seq::<u8>::empty()));
        assert(fds@ =~= old(fds)@ + Seq::<Fd>::empty());
        Ok(0)
    }

    proof fn lemma_fits(&self, cap: int) {
    }
}

impl DeepView for dnd_drop_performed {
    type V = ();

    open spec fn deep_view(&self) -> () {
        ()
    }
}

impl Dsr for dnd_drop_performed {
    open spec fn dsr_spec(buf: Seq<u8>, fds: Seq<Fd>) -> Decoded<()> {
        Decoded::Value((), 0, fds)
    }

    fn try_deserialize(buf: &[u8], fds: &mut Vec<Fd>) -> (r: Option<Result<(dnd_drop_performed, usize), &'static str>>) {
        Some(Ok((dnd_drop_performed {}, 0)))
    }
}

impl Codec for dnd_drop_performed {
    open spec fn rt_ok(&self) -> bool {
        true
    }

    proof fn lemma_roundtrip(&self, tail: Seq<u8>, base: Seq<Fd>) {
        assert(Seq::<Fd>::empty().reverse() =~= Seq::<Fd>::empty());
        assert(base + Seq::<Fd>::empty() =~= base);
    }
}

impl dnd_drop_performed {
    /// The arguments are read in the protocol's order, no arguments: the bytes
    /// and descriptors written for such arguments, one after the other,
    /// decode to exactly those arguments.
    pub proof fn lemma_layout(rest: Seq<u8>, queue: Seq<Fd>)
        ensures
            ({
                let bytes = Seq::<u8>::empty();
                let fds = Seq::<Fd>::empty();
                dnd_drop_performed::dsr_spec(bytes + rest, queue + fds.reverse()) == Decoded::Value(
                    (),
                    bytes.len(),
                    queue,
                )
            }),
    {
        let m = dnd_drop_performed {};
        m.lemma_roundtrip(rest, queue);
    }

    /// The message creates no object.
    pub proof fn lemma_creates(&self)
        ensures
            self.created_id() is None,
    {
    }
}

impl Msg<Obj> for dnd_drop_performed {
    open spec fn opcode() -> u16 {
        3
    }

    open spec fn since_version() -> u32 {
        1
    }

    open spec fn created_id(&self) -> Option<u32> {
        None
    }

    open spec fn created_destructor(&self) -> Option<u16> {
        None
    }

    fn op() -> (r: u16) {
        3
    }

    fn since() -> u32 {
        1
    }

    fn new_id(&self) -> (r: Option<(u32, ObjMeta)>) {
        None
    }
}

impl Event<Obj> for dnd_drop_performed {

}

/// the drag-and-drop operation concluded
///
/// The drop destination finished interoperating with this data
/// source, so the client is now free to destroy this data source and
/// free all associated data.
///
/// If the action used to perform the operation was "move", the
/// source can now delete the transferred data.
///
#[derive(Debug)]
pub struct dnd_finished {}

impl Ser for dnd_finished {
    open spec fn ser_ok(&self) -> bool {
        true
    }

    open spec fn ser_bytes(&self) -> Seq<u8> {
        Seq::empty()
    }

    open spec fn ser_fds(&self) -> Seq<Fd> {
        Seq::empty()
    }

    fn wire_len(&self) -> (n: usize) {
        0
    }

    fn checked_len(&self) -> (r: Option<usize>) {
        Some(0)
    }

    open spec fn ser_fits(&self, cap: int) -> bool {
        true
    }

    fn serialize(self, buf: &mut [u8], fds: &mut Vec<Fd>) -> (r: Result<usize, &'static str>) {
        assert(buf@ =~= write_at(old(buf)@, 0, Seq::<u8>::empty()));
        assert(fds@ =~= old(fds)@ + Seq::<Fd>::empty());
        Ok(0)
    }

    proof fn lemma_fits(&self, cap: int) {
    }
}

impl DeepView for dnd_finished {
    type V = ();

    open spec fn deep_view(&self) -> () {
        ()
    }
}

impl Dsr for dnd_finished {
    open spec fn dsr_spec(buf: Seq<u8>, fds: Seq<Fd>) -> Decoded<()> {
        Decoded::Value((), 0, fds)
    }

    fn try_deserialize(buf: &[u8], fds: &mut Vec<Fd>) -> (r: Option<Result<(dnd_finished, usize), &'static str>>) {
        Some(Ok((dnd_finished {}, 0)))
    }
}

impl Codec for dnd_finished {
    open spec fn rt_ok(&self) -> bool {
        true
    }

    proof fn lemma_roundtrip(&self, tail: Seq<u8>, base: Seq<Fd>) {
        assert(Seq::<Fd>::empty().reverse() =~= Seq::<Fd>::empty());
        assert(base + Seq::<Fd>::empty() =~= base);
    }
}

impl dnd_finished {
    /// The arguments are read in the protocol's order, no arguments: the bytes
    /// and descriptors written for such arguments, one after the other,
    /// decode to exactly those arguments.
    pub proof fn lemma_layout(rest: Seq<u8>, queue: Seq<Fd>)
        ensures
            ({
                let bytes = Seq::<u8>::empty();
                let fds = Seq::<Fd>::empty();
                dnd_finished::dsr_spec(bytes + rest, queue + fds.reverse()) == Decoded::Value(
                    (),
                    bytes.len(),
                    queue,
                )
            }),
    {
        let m = dnd_finished {};
        m.lemma_roundtrip(rest, queue);
    }

    /// The message creates no object.
    pub proof fn lemma_creates(&self)
        ensures
            self.created_id() is None,
    {
    }
}

impl Msg<Obj> for dnd_finished {
    open spec fn opcode() -> u16 {
        4
    }

    open spec fn since_version() -> u32 {
        1
    }

    open spec fn created_id(&self) -> Option<u32> {
        None
    }

    open spec fn created_destructor(&self) -> Option<u16> {
        None
    }

    fn op() -> (r: u16) {
        4
    }

    fn since() -> u32 {
        1
    }

    fn new_id(&self) -> (r: Option<(u32, ObjMeta)>) {
        None
    }
}

impl Event<Obj> for dnd_finished {

}

/// notify the selected action
///
/// This event indicates the action selected by the compositor after
/// matching the source/destination side actions. Only one action (or
/// none) will be offered here.
///
/// This event can be emitted multiple times during the drag-and-drop
/// operation, mainly in response to destination side changes through
/// wl_data_offer.set_actions, and as the data device enters/leaves
/// surfaces.
///
/// It is only possible to receive this event after
/// wl_data_source.dnd_drop_performed if the drag-and-drop operation
/// ended in an "ask" action, in which case the final wl_data_source.action
/// event will happen immediately before wl_data_source.dnd_finished.
///
/// Compositors may also change the selected action on the fly, mainly
/// in response to keyboard modifier changes during the drag-and-drop
/// operation.
///
/// The most recent action received is always the valid one. The chosen
/// action may change alongside negotiation (e.g. an "ask" action can turn
/// into a "move" operation), so the effects of the final action must
/// always be applied in wl_data_offer.dnd_finished.
///
/// Clients can trigger cursor surface changes from this point, so
/// they reflect the current action.
///
#[derive(Debug)]
pub struct action {
    // action selected by the compositor
    pub dnd_action: crate::wl_data_device_manager::dnd_action,
}

impl Ser for action {
    open spec fn ser_ok(&self) -> bool {
        &&& self.dnd_action.ser_ok()
        &&& self.ser_bytes().len() <= usize::MAX
    }

    open spec fn ser_bytes(&self) -> Seq<u8> {
        self.dnd_action.ser_bytes()
    }

    open spec fn ser_fds(&self) -> Seq<Fd> {
        self.dnd_action.ser_fds()
    }

    fn wire_len(&self) -> (n: usize) {
        self.dnd_action.wire_len()
    }

    fn checked_len(&self) -> (r: Option<usize>) {
        let n0 = match self.dnd_action.checked_len() {
            Some(m) => m,
            None => return None,
        };
        Some(n0)
    }

    open spec fn ser_fits(&self, cap: int) -> bool {
        &&& 0 <= cap && self.dnd_action.ser_fits(cap - (0))
    }

    fn serialize(self, buf: &mut [u8], fds: &mut Vec<Fd>) -> (r: Result<usize, &'static str>) {
        let ghost me = self;
        let ghost b0 = buf@;
        let mut n: usize = 0;
        n = n + ser_at(self.dnd_action, buf, n, fds);
        assert(fds@ =~= old(fds)@ + me.ser_fds());
        Ok(n)
    }

    proof fn lemma_fits(&self, cap: int) {
        self.dnd_action.lemma_fits(cap - (0));
    }
}

impl DeepView for action {
    type V = (<crate::wl_data_device_manager::dnd_action as DeepView>::V,);

    open spec fn deep_view(&self) -> (<crate::wl_data_device_manager::dnd_action as DeepView>::V,) {
        (self.dnd_action.deep_view(),)
    }
}

impl Dsr for action {
    open spec fn dsr_spec(buf: Seq<u8>, fds: Seq<Fd>) -> Decoded<(<crate::wl_data_device_manager::dnd_action as DeepView>::V,)> {
        match <crate::wl_data_device_manager::dnd_action>::dsr_spec(buf, fds) {
            Decoded::Value(dnd_action, n0, q0) => Decoded::Value((dnd_action,), n0, q0),
            d => d.fail(),
        }
    }

    fn try_deserialize(buf: &[u8], fds: &mut Vec<Fd>) -> (r: Option<Result<(action, usize), &'static str>>) {
        let mut n: usize = 0;
        let rest = &buf[n..buf.len()];
        assert(rest@ =~= buf@.skip(n as int));
        assert(n == 0 ==> rest@ =~= buf@);
        let (dnd_action, m) = match <crate::wl_data_device_manager::dnd_action>::try_deserialize(rest, fds) {
            Some(Ok(p)) => p,
            Some(Err(e)) => return Some(Err(e)),
            None => return None,
        };
        n = n + m;
        Some(Ok((action { dnd_action }, n)))
    }
}

impl Codec for action {
    open spec fn rt_ok(&self) -> bool {
        &&& self.dnd_action.rt_ok()
    }

    proof fn lemma_roundtrip(&self, tail: Seq<u8>, base: Seq<Fd>) {
        let b0 = self.dnd_action.ser_bytes();
        let d0 = self.dnd_action.ser_fds();
        let s1 = tail;
        let s0 = b0 + s1;
        let buf = self.ser_bytes() + tail;
        assert(buf =~= s0);
        assert(buf.skip(0) =~= s0);
        assert(self.ser_fds() =~= Seq::<Fd>::empty());
        assert(base + self.ser_fds().reverse() =~= base);
        assert(d0 =~= Seq::<Fd>::empty());
        assert(base + d0.reverse() =~= base);
        self.dnd_action.lemma_roundtrip(s1, base);
    }
}

impl action {
    /// The arguments are read in the protocol's order, `dnd_action`: the bytes
    /// and descriptors written for such arguments, one after the other,
    /// decode to exactly those arguments.
    pub proof fn lemma_layout(dnd_action: crate::wl_data_device_manager::dnd_action, rest: Seq<u8>, queue: Seq<Fd>)
        requires
            dnd_action.ser_ok(),
            dnd_action.rt_ok(),
            dnd_action.ser_bytes().len() <= usize::MAX,
        ensures
            ({
                let bytes = dnd_action.ser_bytes();
                let fds = dnd_action.ser_fds();
                action::dsr_spec(bytes + rest, queue + fds.reverse()) == Decoded::Value(
                    (dnd_action.deep_view(),),
                    bytes.len(),
                    queue,
                )
            }),
    {
        let m = action { dnd_action };
        m.lemma_roundtrip(rest, queue);
    }

    /// The message creates no object.
    pub proof fn lemma_creates(&self)
        ensures
            self.created_id() is None,
    {
    }
}

impl Msg<Obj> for action {
    open spec fn opcode() -> u16 {
        5
    }

    open spec fn since_version() -> u32 {
        1
    }

    open spec fn created_id(&self) -> Option<u32> {
        None
    }

    open spec fn created_destructor(&self) -> Option<u16> {
        None
    }

    fn op() -> (r: u16) {
        5
    }

    fn since() -> u32 {
        1
    }

    fn new_id(&self) -> (r: Option<(u32, ObjMeta)>) {
        None
    }
}

impl Event<Obj> for action {

}

/// The opcode of each event: its index in the protocol's list of the
/// interface's events, so that no two events share one.
pub proof fn lemma_opcodes()
    ensures
        <target as Msg<Obj>>::opcode() == 0,
        <send as Msg<Obj>>::opcode() == 1,
        <cancelled as Msg<Obj>>::opcode() == 2,
        <dnd_drop_performed as Msg<Obj>>::opcode() == 3,
        <dnd_finished as Msg<Obj>>::opcode() == 4,
        <action as Msg<Obj>>::opcode() == 5,
        <target as Msg<Obj>>::opcode() != <send as Msg<Obj>>::opcode(),
        <target as Msg<Obj>>::opcode() != <cancelled as Msg<Obj>>::opcode(),
        <target as Msg<Obj>>::opcode() != <dnd_drop_performed as Msg<Obj>>::opcode(),
        <target as Msg<Obj>>::opcode() != <dnd_finished as Msg<Obj>>::opcode(),
        <target as Msg<Obj>>::opcode() != <action as Msg<Obj>>::opcode(),
        <send as Msg<Obj>>::opcode() != <cancelled as Msg<Obj>>::opcode(),
        <send as Msg<Obj>>::opcode() != <dnd_drop_performed as Msg<Obj>>::opcode(),
        <send as Msg<Obj>>::opcode() != <dnd_finished as Msg<Obj>>::opcode(),
        <send as Msg<Obj>>::opcode() != <action as Msg<Obj>>::opcode(),
        <cancelled as Msg<Obj>>::opcode() != <dnd_drop_performed as Msg<Obj>>::opcode(),
        <cancelled as Msg<Obj>>::opcode() != <dnd_finished as Msg<Obj>>::opcode(),
        <cancelled as Msg<Obj>>::opcode() != <action as Msg<Obj>>::opcode(),
        <dnd_drop_performed as Msg<Obj>>::opcode() != <dnd_finished as Msg<Obj>>::opcode(),
        <dnd_drop_performed as Msg<Obj>>::opcode() != <action as Msg<Obj>>::opcode(),
        <dnd_finished as Msg<Obj>>::opcode() != <action as Msg<Obj>>::opcode(),
{
}

} // verus!
