use vstd::prelude::*;
use crate::objects::{type_id_of, new_id, object, Dyn, ObjMeta, Object, Msg, Request};
use crate::wire::{ser_at, write_at, lemma_write_then, lemma_reverse_add, lemma_skip_step, fixed, Codec, Decoded, Dsr, Fd, Ser};
use super::Obj;

verus! {

/// start drag-and-drop operation
///
/// This request asks the compositor to start a drag-and-drop
/// operation on behalf of the client.
///
/// The source argument is the data source that provides the data
/// for the eventual data transfer. If source is NULL, enter, leave
/// and motion events are sent only to the client that initiated the
/// drag and the client is expected to handle the data passing
/// internally. If source is destroyed, the drag-and-drop session will be
/// cancelled.
///
/// The origin surface is the surface where the drag originates and
/// the client must have an active implicit grab that matches the
/// serial.
///
/// The icon surface is an optional (can be NULL) surface that
/// provides an icon to be moved around with the cursor.  Initially,
/// the top-left corner of the icon surface is placed at the cursor
/// hotspot, but subsequent wl_surface.attach request can move the
/// relative position. Attach requests must be confirmed with
/// wl_surface.commit as usual. The icon surface is given the role of
/// a drag-and-drop icon. If the icon surface already has another role,
/// it raises a protocol error.
///
/// The input region is ignored for wl_surfaces with the role of a
/// drag-and-drop icon.
///
#[derive(Debug)]
pub struct start_drag {
    // data source for the eventual transfer
    pub source: Option<object<crate::wl_data_source::Obj>>,
    // surface where the drag originates
    pub origin: object<crate::wl_surface::Obj>,
    // drag-and-drop icon surface
    pub icon: Option<object<crate::wl_surface::Obj>>,
    // serial number of the implicit grab on the origin
    pub serial: u32,
}

impl Ser for start_drag {
    open spec fn ser_ok(&self) -> bool {
        &&& self.source.ser_ok()
        &&& self.origin.ser_ok()
        &&& self.icon.ser_ok()
        &&& self.serial.ser_ok()
        &&& self.ser_bytes().len() <= usize::MAX
    }

    open spec fn ser_bytes(&self) -> Seq<u8> {
        self.source.ser_bytes() + self.origin.ser_bytes() + self.icon.ser_bytes() + self.serial.ser_bytes()
    }

    open spec fn ser_fds(&self) -> Seq<Fd> {
        self.source.ser_fds() + self.origin.ser_fds() + self.icon.ser_fds() + self.serial.ser_fds()
    }

    fn wire_len(&self) -> (n: usize) {
        self.source.wire_len() + self.origin.wire_len() + self.icon.wire_len() + self.serial.wire_len()
    }

    fn checked_len(&self) -> (r: Option<usize>) {
        let n0 = match self.source.checked_len() {
            Some(m) => m,
            None => return None,
        };
        let n1 = match self.origin.checked_len() {
            Some(m) => match n0.checked_add(m) {
                Some(t) => t,
                None => return None,
            },
            None => return None,
        };
        let n2 = match self.icon.checked_len() {
            Some(m) => match n1.checked_add(m) {
                Some(t) => t,
                None => return None,
            },
            None => return None,
        };
        let n3 = match self.serial.checked_len() {
            Some(m) => match n2.checked_add(m) {
                Some(t) => t,
                None => return None,
            },
            None => return None,
        };
        Some(n3)
    }

    open spec fn ser_fits(&self, cap: int) -> bool {
        &&& 0 <= cap && self.source.ser_fits(cap - (0))
        &&& self.source.ser_bytes().len() <= cap && self.origin.ser_fits(cap - (self.source.ser_bytes().len()))
        &&& self.source.ser_bytes().len() + self.origin.ser_bytes().len() <= cap && self.icon.ser_fits(cap - (self.source.ser_bytes().len() + self.origin.ser_bytes().len()))
        &&& self.source.ser_bytes().len() + self.origin.ser_bytes().len() + self.icon.ser_bytes().len() <= cap && self.serial.ser_fits(cap - (self.source.ser_bytes().len() + self.origin.ser_bytes().len() + self.icon.ser_bytes().len()))
    }

    fn serialize(self, buf: &mut [u8], fds: &mut Vec<Fd>) -> (r: Result<usize, &'static str>) {
        let ghost me = self;
        let ghost b0 = buf@;
        let mut n: usize = 0;
        n = n + ser_at(self.source, buf, n, fds);
        assert(fds@ =~= old(fds)@ + me.source.ser_fds());
        n = n + ser_at(self.origin, buf, n, fds);
        proof {
            lemma_write_then(b0, 0, me.source.ser_bytes(), me.origin.ser_bytes());
        }
        assert(fds@ =~= old(fds)@ + me.source.ser_fds() + me.origin.ser_fds());
        n = n + ser_at(self.icon, buf, n, fds);
        proof {
            lemma_write_then(b0, 0, me.source.ser_bytes() + me.origin.ser_bytes(), me.icon.ser_bytes());
        }
        assert(fds@ =~= old(fds)@ + me.source.ser_fds() + me.origin.ser_fds() + me.icon.ser_fds());
        n = n + ser_at(self.serial, buf, n, fds);
        proof {
            lemma_write_then(b0, 0, me.source.ser_bytes() + me.origin.ser_bytes() + me.icon.ser_bytes(), me.serial.ser_bytes());
        }
        assert(fds@ =~= old(fds)@ + me.ser_fds());
        Ok(n)
    }

    proof fn lemma_fits(&self, cap: int) {
        self.source.lemma_fits(cap - (0));
        self.origin.lemma_fits(cap - (self.source.ser_bytes().len()));
        self.icon.lemma_fits(cap - (self.source.ser_bytes().len() + self.origin.ser_bytes().len()));
        self.serial.lemma_fits(cap - (self.source.ser_bytes().len() + self.origin.ser_bytes().len() + self.icon.ser_bytes().len()));
    }
}

impl DeepView for start_drag {
    type V = (<Option<object<crate::wl_data_source::Obj>> as DeepView>::V, <object<crate::wl_surface::Obj> as DeepView>::V, <Option<object<crate::wl_surface::Obj>> as DeepView>::V, <u32 as DeepView>::V,);

    open spec fn deep_view(&self) -> (<Option<object<crate::wl_data_source::Obj>> as DeepView>::V, <object<crate::wl_surface::Obj> as DeepView>::V, <Option<object<crate::wl_surface::Obj>> as DeepView>::V, <u32 as DeepView>::V,) {
        (self.source.deep_view(), self.origin.deep_view(), self.icon.deep_view(), self.serial.deep_view(),)
    }
}

impl Dsr for start_drag {
    open spec fn dsr_spec(buf: Seq<u8>, fds: Seq<Fd>) -> Decoded<(<Option<object<crate::wl_data_source::Obj>> as DeepView>::V, <object<crate::wl_surface::Obj> as DeepView>::V, <Option<object<crate::wl_surface::Obj>> as DeepView>::V, <u32 as DeepView>::V,)> {
        match <Option<object<crate::wl_data_source::Obj>>>::dsr_spec(buf, fds) {
            Decoded::Value(source, n0, q0) => {
                match <object<crate::wl_surface::Obj>>::dsr_spec(buf.skip(n0 as int), q0) {
                    Decoded::Value(origin, m1, q1) => {
                        let n1 = n0 + m1;
                        match <Option<object<crate::wl_surface::Obj>>>::dsr_spec(buf.skip(n1 as int), q1) {
                            Decoded::Value(icon, m2, q2) => {
                                let n2 = n1 + m2;
                                match <u32>::dsr_spec(buf.skip(n2 as int), q2) {
                                    Decoded::Value(serial, m3, q3) => {
                                        let n3 = n2 + m3;
                                        Decoded::Value((source, origin, icon, serial,), n3, q3)
                                    },
                                    d => d.fail(),
                                }
                            },
                            d => d.fail(),
                        }
                    },
                    d => d.fail(),
                }
            },
            d => d.fail(),
        }
    }

    fn try_deserialize(buf: &[u8], fds: &mut Vec<Fd>) -> (r: Option<Result<(start_drag, usize), &'static str>>) {
        let mut n: usize = 0;
        let rest = &buf[n..buf.len()];
        assert(rest@ =~= buf@.skip(n as int));
        assert(n == 0 ==> rest@ =~= buf@);
        let (source, m) = match <Option<object<crate::wl_data_source::Obj>>>::try_deserialize(rest, fds) {
            Some(Ok(p)) => p,
            Some(Err(e)) => return Some(Err(e)),
            None => return None,
        };
        n = n + m;
        let rest = &buf[n..buf.len()];
        assert(rest@ =~= buf@.skip(n as int));
        assert(n == 0 ==> rest@ =~= buf@);
        let (origin, m) = match <object<crate::wl_surface::Obj>>::try_deserialize(rest, fds) {
            Some(Ok(p)) => p,
            Some(Err(e)) => return Some(Err(e)),
            None => return None,
        };
        n = n + m;
        let rest = &buf[n..buf.len()];
        assert(rest@ =~= buf@.skip(n as int));
        assert(n == 0 ==> rest@ =~= buf@);
        let (icon, m) = match <Option<object<crate::wl_surface::Obj>>>::try_deserialize(rest, fds) {
            Some(Ok(p)) => p,
            Some(Err(e)) => return Some(Err(e)),
            None => return None,
        };
        n = n + m;
        let rest = &buf[n..buf.len()];
        assert(rest@ =~= buf@.skip(n as int));
        assert(n == 0 ==> rest@ =~= buf@);
        let (serial, m) = match <u32>::try_deserialize(rest, fds) {
            Some(Ok(p)) => p,
            Some(Err(e)) => return Some(Err(e)),
            None => return None,
        };
        n = n + m;
        Some(Ok((start_drag { source, origin, icon, serial }, n)))
    }
}

impl Codec for start_drag {
    open spec fn rt_ok(&self) -> bool {
        &&& self.source.rt_ok()
        &&& self.origin.rt_ok()
        &&& self.icon.rt_ok()
        &&& self.serial.rt_ok()
    }

    proof fn lemma_roundtrip(&self, tail: Seq<u8>, base: Seq<Fd>) {
        let b0 = self.source.ser_bytes();
        let b1 = self.origin.ser_bytes();
        let b2 = self.icon.ser_bytes();
        let b3 = self.serial.ser_bytes();
        let d0 = self.source.ser_fds();
        let d1 = self.origin.ser_fds();
        let d2 = self.icon.ser_fds();
        let d3 = self.serial.ser_fds();
        let s4 = tail;
        let s3 = b3 + s4;
        let s2 = b2 + s3;
        let s1 = b1 + s2;
        let s0 = b0 + s1;
        let buf = self.ser_bytes() + tail;
        assert(buf =~= s0);
        assert(buf.skip(0) =~= s0);
        assert(self.ser_fds() =~= Seq::<Fd>::empty());
        assert(base + self.ser_fds().reverse() =~= base);
        assert(d0 =~= Seq::<Fd>::empty());
        assert(base + d0.reverse() =~= base);
        self.source.lemma_roundtrip(s1, base);
        assert(buf.skip((b0.len()) as int) == s1) by {
            lemma_skip_step(buf, (0) as int, b0, s1);
        }
        assert(d1 =~= Seq::<Fd>::empty());
        assert(base + d1.reverse() =~= base);
        self.origin.lemma_roundtrip(s2, base);
        assert(buf.skip((b0.len() + b1.len()) as int) == s2) by {
            lemma_skip_step(buf, (b0.len()) as int, b1, s2);
        }
        assert(d2 =~= Seq::<Fd>::empty());
        assert(base + d2.reverse() =~= base);
        self.icon.lemma_roundtrip(s3, base);
        assert(buf.skip((b0.len() + b1.len() + b2.len()) as int) == s3) by {
            lemma_skip_step(buf, (b0.len() + b1.len()) as int, b2, s3);
        }
        assert(d3 =~= Seq::<Fd>::empty());
        assert(base + d3.reverse() =~= base);
        self.serial.lemma_roundtrip(s4, base);
    }
}

impl start_drag {
    /// The arguments are read in the protocol's order, `source`, then `origin`, then `icon`, then `serial`: the bytes
    /// and descriptors written for such arguments, one after the other,
    /// decode to exactly those arguments.
    pub proof fn lemma_layout(source: Option<object<crate::wl_data_source::Obj>>, origin: object<crate::wl_surface::Obj>, icon: Option<object<crate::wl_surface::Obj>>, serial: u32, rest: Seq<u8>, queue: Seq<Fd>)
        requires
            source.ser_ok(),
            source.rt_ok(),
            origin.ser_ok(),
            origin.rt_ok(),
            icon.ser_ok(),
            icon.rt_ok(),
            serial.ser_ok(),
            serial.rt_ok(),
            source.ser_bytes().len() + origin.ser_bytes().len() + icon.ser_bytes().len() + serial.ser_bytes().len() <= usize::MAX,
        ensures
            ({
                let bytes = source.ser_bytes() + origin.ser_bytes() + icon.ser_bytes() + serial.ser_bytes();
                let fds = source.ser_fds() + origin.ser_fds() + icon.ser_fds() + serial.ser_fds();
                start_drag::dsr_spec(bytes + rest, queue + fds.reverse()) == Decoded::Value(
                    (source.deep_view(), origin.deep_view(), icon.deep_view(), serial.deep_view(),),
                    bytes.len(),
                    queue,
                )
            }),
    {
        let m = start_drag { source, origin, icon, serial };
        m.lemma_roundtrip(rest, queue);
    }

    /// The message creates no object.
    pub proof fn lemma_creates(&self)
        ensures
            self.created_id() is None,
    {
    }
}

impl Msg<Obj> for start_drag {
    open spec fn opcode() -> u16 {
        0
    }

    open spec fn since_version() -> u32 {
        1
    }

    open spec fn created_id(&self) -> Option<u32> {
        None
    }

    open spec fn created_destructor(&self) -> Option<u16> {
        None
    }

    fn op() -> (r: u16) {
        0
    }

    fn since() -> u32 {
        1
    }

    fn new_id(&self) -> (r: Option<(u32, ObjMeta)>) {
        None
    }
}

impl Request<Obj> for start_drag {

}

/// copy data to the selection
///
/// This request asks the compositor to set the selection
/// to the data from the source on behalf of the client.
///
/// To unset the selection, set the source to NULL.
///
#[derive(Debug)]
pub struct set_selection {
    // data source for the selection
    pub source: Option<object<crate::wl_data_source::Obj>>,
    // serial number of the event that triggered this request
    pub serial: u32,
}

impl Ser for set_selection {
    open spec fn ser_ok(&self) -> bool {
        &&& self.source.ser_ok()
        &&& self.serial.ser_ok()
        &&& self.ser_bytes().len() <= usize::MAX
    }

    open spec fn ser_bytes(&self) -> Seq<u8> {
        self.source.ser_bytes() + self.serial.ser_bytes()
    }

    open spec fn ser_fds(&self) -> Seq<Fd> {
        self.source.ser_fds() + self.serial.ser_fds()
    }

    fn wire_len(&self) -> (n: usize) {
        self.source.wire_len() + self.serial.wire_len()
    }

    fn checked_len(&self) -> (r: Option<usize>) {
        let n0 = match self.source.checked_len() {
            Some(m) => m,
            None => return None,
        };
        let n1 = match self.serial.checked_len() {
            Some(m) => match n0.checked_add(m) {
                Some(t) => t,
                None => return None,
            },
            None => return None,
        };
        Some(n1)
    }

    open spec fn ser_fits(&self, cap: int) -> bool {
        &&& 0 <= cap && self.source.ser_fits(cap - (0))
        &&& self.source.ser_bytes().len() <= cap && self.serial.ser_fits(cap - (self.source.ser_bytes().len()))
    }

    fn serialize(self, buf: &mut [u8], fds: &mut Vec<Fd>) -> (r: Result<usize, &'static str>) {
        let ghost me = self;
        let ghost b0 = buf@;
        let mut n: usize = 0;
        n = n + ser_at(self.source, buf, n, fds);
        assert(fds@ =~= old(fds)@ + me.source.ser_fds());
        n = n + ser_at(self.serial, buf, n, fds);
        proof {
            lemma_write_then(b0, 0, me.source.ser_bytes(), me.serial.ser_bytes());
        }
        assert(fds@ =~= old(fds)@ + me.ser_fds());
        Ok(n)
    }

    proof fn lemma_fits(&self, cap: int) {
        self.source.lemma_fits(cap - (0));
        self.serial.lemma_fits(cap - (self.source.ser_bytes().len()));
    }
}

impl DeepView for set_selection {
    type V = (<Option<object<crate::wl_data_source::Obj>> as DeepView>::V, <u32 as DeepView>::V,);

    open spec fn deep_view(&self) -> (<Option<object<crate::wl_data_source::Obj>> as DeepView>::V, <u32 as DeepView>::V,) {
        (self.source.deep_view(), self.serial.deep_view(),)
    }
}

impl Dsr for set_selection {
    open spec fn dsr_spec(buf: Seq<u8>, fds: Seq<Fd>) -> Decoded<(<Option<object<crate::wl_data_source::Obj>> as DeepView>::V, <u32 as DeepView>::V,)> {
        match <Option<object<crate::wl_data_source::Obj>>>::dsr_spec(buf, fds) {
            Decoded::Value(source, n0, q0) => {
                match <u32>::dsr_spec(buf.skip(n0 as int), q0) {
                    Decoded::Value(serial, m1, q1) => {
                        let n1 = n0 + m1;
                        Decoded::Value((source, serial,), n1, q1)
                    },
                    d => d.fail(),
                }
            },
            d => d.fail(),
        }
    }

    fn try_deserialize(buf: &[u8], fds: &mut Vec<Fd>) -> (r: Option<Result<(set_selection, usize), &'static str>>) {
        let mut n: usize = 0;
        let rest = &buf[n..buf.len()];
        assert(rest@ =~= buf@.skip(n as int));
        assert(n == 0 ==> rest@ =~= buf@);
        let (source, m) = match <Option<object<crate::wl_data_source::Obj>>>::try_deserialize(rest, fds) {
            Some(Ok(p)) => p,
            Some(Err(e)) => return Some(Err(e)),
            None => return None,
        };
        n = n + m;
        let rest = &buf[n..buf.len()];
        assert(rest@ =~= buf@.skip(n as int));
        assert(n == 0 ==> rest@ =~= buf@);
        let (serial, m) = match <u32>::try_deserialize(rest, fds) {
            Some(Ok(p)) => p,
            Some(Err(e)) => return Some(Err(e)),
            None => return None,
        };
        n = n + m;
        Some(Ok((set_selection { source, serial }, n)))
    }
}

impl Codec for set_selection {
    open spec fn rt_ok(&self) -> bool {
        &&& self.source.rt_ok()
        &&& self.serial.rt_ok()
    }

    proof fn lemma_roundtrip(&self, tail: Seq<u8>, base: Seq<Fd>) {
        let b0 = self.source.ser_bytes();
        let b1 = self.serial.ser_bytes();
        let d0 = self.source.ser_fds();
        let d1 = self.serial.ser_fds();
        let s2 = tail;
        let s1 = b1 + s2;
        let s0 = b0 + s1;
        let buf = self.ser_bytes() + tail;
        assert(buf =~= s0);
        assert(buf.skip(0) =~= s0);
        assert(self.ser_fds() =~= Seq::<Fd>::empty());
        assert(base + self.ser_fds().reverse() =~= base);
        assert(d0 =~= Seq::<Fd>::empty());
        assert(base + d0.reverse() =~= base);
        self.source.lemma_roundtrip(s1, base);
        assert(buf.skip((b0.len()) as int) == s1) by {
            lemma_skip_step(buf, (0) as int, b0, s1);
        }
        assert(d1 =~= Seq::<Fd>::empty());
        assert(base + d1.reverse() =~= base);
        self.serial.lemma_roundtrip(s2, base);
    }
}

impl set_selection {
    /// The arguments are read in the protocol's order, `source`, then `serial`: the bytes
    /// and descriptors written for such arguments, one after the other,
    /// decode to exactly those arguments.
    pub proof fn lemma_layout(source: Option<object<crate::wl_data_source::Obj>>, serial: u32, rest: Seq<u8>, queue: Seq<Fd>)
        requires
            source.ser_ok(),
            source.rt_ok(),
            serial.ser_ok(),
            serial.rt_ok(),
            source.ser_bytes().len() + serial.ser_bytes().len() <= usize::MAX,
        ensures
            ({
                let bytes = source.ser_bytes() + serial.ser_bytes();
                let fds = source.ser_fds() + serial.ser_fds();
                set_selection::dsr_spec(bytes + rest, queue + fds.reverse()) == Decoded::Value(
                    (source.deep_view(), serial.deep_view(),),
                    bytes.len(),
                    queue,
                )
            }),
    {
        let m = set_selection { source, serial };
        m.lemma_roundtrip(rest, queue);
    }

    /// The message creates no object.
    pub proof fn lemma_creates(&self)
        ensures
            self.created_id() is None,
    {
    }
}

impl Msg<Obj> for set_selection {
    open spec fn opcode() -> u16 {
        1
    }

    open spec fn since_version() -> u32 {
        1
    }

    open spec fn created_id(&self) -> Option<u32> {
        None
    }

    open spec fn created_destructor(&self) -> Option<u16> {
        None
    }

    fn op() -> (r: u16) {
        1
    }

    fn since() -> u32 {
        1
    }

    fn new_id(&self) -> (r: Option<(u32, ObjMeta)>) {
        None
    }
}

impl Request<Obj> for set_selection {

}

/// destroy data device
///
/// This request destroys the data device.
///
#[derive(Debug)]
pub struct release {}

impl Ser for release {
    open spec fn ser_ok(&self) -> bool {
        true
    }

    open spec fn ser_bytes(&self) -> Seq<u8> {
        Seq::empty()
    }

    open spec fn ser_fds(&self) -> Seq<Fd> {
        Seq::empty()
    }

    fn wire_len(&self) -> (n: usize) {
        0
    }

    fn checked_len(&self) -> (r: Option<usize>) {
        Some(0)
    }

    open spec fn ser_fits(&self, cap: int) -> bool {
        true
    }

    fn serialize(self, buf: &mut [u8], fds: &mut Vec<Fd>) -> (r: Result<usize, &'static str>) {
        assert(buf@ =~= write_at(old(buf)@, 0, Seq::<u8>::empty()));
        assert(fds@ =~= old(fds)@ + Seq::<Fd>::empty());
        Ok(0)
    }

    proof fn lemma_fits(&self, cap: int) {
    }
}

impl DeepView for release {
    type V = ();

    open spec fn deep_view(&self) -> () {
        ()
    }
}

impl Dsr for release {
    open spec fn dsr_spec(buf: Seq<u8>, fds: Seq<Fd>) -> Decoded<()> {
        Decoded::Value((), 0, fds)
    }

    fn try_deserialize(buf: &[u8], fds: &mut Vec<Fd>) -> (r: Option<Result<(release, usize), &'static str>>) {
        Some(Ok((release {}, 0)))
    }
}

impl Codec for release {
    open spec fn rt_ok(&self) -> bool {
        true
    }

    proof fn lemma_roundtrip(&self, tail: Seq<u8>, base: Seq<Fd>) {
        assert(Seq::<Fd>::empty().reverse() =~= Seq::<Fd>::empty());
        assert(base + Seq::<Fd>::empty() =~= base);
    }
}

impl release {
    /// The arguments are read in the protocol's order, no arguments: the bytes
    /// and descriptors written for such arguments, one after the other,
    /// decode to exactly those arguments.
    pub proof fn lemma_layout(rest: Seq<u8>, queue: Seq<Fd>)
        ensures
            ({
                let bytes = Seq::<u8>::empty();
                let fds = Seq::<Fd>::empty();
                release::dsr_spec(bytes + rest, queue + fds.reverse()) == Decoded::Value(
                    (),
                    bytes.len(),
                    queue,
                )
            }),
    {
        let m = release {};
        m.lemma_roundtrip(rest, queue);
    }

    /// The message creates no object.
    pub proof fn lemma_creates(&self)
        ensures
            self.created_id() is None,
    {
    }
}

impl Msg<Obj> for release {
    open spec fn opcode() -> u16 {
        2
    }

    open spec fn since_version() -> u32 {
        1
    }

    open spec fn created_id(&self) -> Option<u32> {
        None
    }

    open spec fn created_destructor(&self) -> Option<u16> {
        None
    }

    fn op() -> (r: u16) {
        2
    }

    fn since() -> u32 {
        1
    }

    fn new_id(&self) -> (r: Option<(u32, ObjMeta)>) {
        None
    }
}

impl Request<Obj> for release {

}

/// The opcode of each request: its index in the protocol's list of the
/// interface's requests, so that no two requests share one.
pub proof fn lemma_opcodes()
    ensures
        <start_drag as Msg<Obj>>::opcode() == 0,
        <set_selection as Msg<Obj>>::opcode() == 1,
        <release as Msg<Obj>>::opcode() == 2,
        <start_drag as Msg<Obj>>::opcode() != <set_selection as Msg<Obj>>::opcode(),
        <start_drag as Msg<Obj>>::opcode() != <release as Msg<Obj>>::opcode(),
        <set_selection as Msg<Obj>>::opcode() != <release as Msg<Obj>>::opcode(),
        <Obj as Object>::destructor_op() == Some(<release as Msg<Obj>>::opcode()),
{
}

} // verus!
