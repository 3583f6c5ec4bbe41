use vstd::prelude::*;
use crate::objects::{type_id_of, new_id, object, Dyn, ObjMeta, Object, Msg, Event};
use crate::wire::{ser_at, write_at, lemma_write_then, lemma_reverse_add, lemma_skip_step, fixed, Codec, Decoded, Dsr, Fd, Ser};
use super::Obj;

verus! {

/// keyboard mapping
///
/// This event provides a file descriptor to the client which can be
/// memory-mapped in read-only mode to provide a keyboard mapping
/// description.
///
/// From version 7 onwards, the fd must be mapped with MAP_PRIVATE by
/// the recipient, as MAP_SHARED may fail.
///
#[derive(Debug)]
pub struct keymap {
    // keymap format
    pub format: super::keymap_format,
    // keymap file descriptor
    pub fd: Fd,
    // keymap size, in bytes
    pub size: u32,
}

impl Ser for keymap {
    open spec fn ser_ok(&self) -> bool {
        &&& self.format.ser_ok()
        &&& self.fd.ser_ok()
        &&& self.size.ser_ok()
        &&& self.ser_bytes().len() <= usize::MAX
    }

    open spec fn ser_bytes(&self) -> Seq<u8> {
        self.format.ser_bytes() + self.fd.ser_bytes() + self.size.ser_bytes()
    }

    open spec fn ser_fds(&self) -> Seq<Fd> {
        self.format.ser_fds() + self.fd.ser_fds() + self.size.ser_fds()
    }

    fn wire_len(&self) -> (n: usize) {
        self.format.wire_len() + self.fd.wire_len() + self.size.wire_len()
    }

    fn checked_len(&self) -> (r: Option<usize>) {
        let n0 = match self.format.checked_len() {
            Some(m) => m,
            None => return None,
        };
        let n1 = match self.fd.checked_len() {
            Some(m) => match n0.checked_add(m) {
                Some(t) => t,
                None => return None,
            },
            None => return None,
        };
        let n2 = match self.size.checked_len() {
            Some(m) => match n1.checked_add(m) {
                Some(t) => t,
                None => return None,
            },
            None => return None,
        };
        Some(n2)
    }

    open spec fn ser_fits(&self, cap: int) -> bool {
        &&& 0 <= cap && self.format.ser_fits(cap - (0))
        &&& self.format.ser_bytes().len() <= cap && self.fd.ser_fits(cap - (self.format.ser_bytes().len()))
        &&& self.format.ser_bytes().len() + self.fd.ser_bytes().len() <= cap && self.size.ser_fits(cap - (self.format.ser_bytes().len() + self.fd.ser_bytes().len()))
    }

    fn serialize(self, buf: &mut [u8], fds: &mut Vec<Fd>) -> (r: Result<usize, &'static str>) {
        let ghost me = self;
        let ghost b0 = buf@;
        let mut n: usize = 0;
        n = n + ser_at(self.format, buf, n, fds);
        assert(fds@ =~= old(fds)@ + me.format.ser_fds());
        n = n + ser_at(self.fd, buf, n, fds);
        proof {
            lemma_write_then(b0, 0, me.format.ser_bytes(), me.fd.ser_bytes());
        }
        assert(fds@ =~= old(fds)@ + me.format.ser_fds() + me.fd.ser_fds());
        n = n + ser_at(self.size, buf, n, fds);
        proof {
            lemma_write_then(b0, 0, me.format.ser_bytes() + me.fd.ser_bytes(), me.size.ser_bytes());
        }
        assert(fds@ =~= old(fds)@ + me.ser_fds());
        Ok(n)
    }

    proof fn lemma_fits(&self, cap: int) {
        self.format.lemma_fits(cap - (0));
        self.fd.lemma_fits(cap - (self.format.ser_bytes().len()));
        self.size.lemma_fits(cap - (self.format.ser_bytes().len() + self.fd.ser_bytes().len()));
    }
}

impl DeepView for keymap {
    type V = (<super::keymap_format as DeepView>::V, <Fd as DeepView>::V, <u32 as DeepView>::V,);

    open spec fn deep_view(&self) -> (<super::keymap_format as DeepView>::V, <Fd as DeepView>::V, <u32 as DeepView>::V,) {
        (self.format.deep_view(), self.fd.deep_view(), self.size.deep_view(),)
    }
}

impl Dsr for keymap {
    open spec fn dsr_spec(buf: Seq<u8>, fds: Seq<Fd>) -> Decoded<(<super::keymap_format as DeepView>::V, <Fd as DeepView>::V, <u32 as DeepView>::V,)> {
        match <super::keymap_format>::dsr_spec(buf, fds) {
            Decoded::Value(format, n0, q0) => {
                match <Fd>::dsr_spec(buf.skip(n0 as int), q0) {
                    Decoded::Value(fd, m1, q1) => {
                        let n1 = n0 + m1;
                        match <u32>::dsr_spec(buf.skip(n1 as int), q1) {
                            Decoded::Value(size, m2, q2) => {
                                let n2 = n1 + m2;
                                Decoded::Value((format, fd, size,), n2, q2)
                            },
                            d => d.fail(),
                        }
                    },
                    d => d.fail(),
                }
            },
            d => d.fail(),
        }
    }

    fn try_deserialize(buf: &[u8], fds: &mut Vec<Fd>) -> (r: Option<Result<(keymap, usize), &'static str>>) {
        let mut n: usize = 0;
        let rest = &buf[n..buf.len()];
        assert(rest@ =~= buf@.skip(n as int));
        assert(n == 0 ==> rest@ =~= buf@);
        let (format, m) = match <super::keymap_format>::try_deserialize(rest, fds) {
            Some(Ok(p)) => p,
            Some(Err(e)) => return Some(Err(e)),
            None => return None,
        };
        n = n + m;
        let rest = &buf[n..buf.len()];
        assert(rest@ =~= buf@.skip(n as int));
        assert(n == 0 ==> rest@ =~= buf@);
        let (fd, m) = match <Fd>::try_deserialize(rest, fds) {
            Some(Ok(p)) => p,
            Some(Err(e)) => return Some(Err(e)),
            None => return None,
        };
        n = n + m;
        let rest = &buf[n..buf.len()];
        assert(rest@ =~= buf@.skip(n as int));
        assert(n == 0 ==> rest@ =~= buf@);
        let (size, m) = match <u32>::try_deserialize(rest, fds) {
            Some(Ok(p)) => p,
            Some(Err(e)) => return Some(Err(e)),
            None => return None,
        };
        n = n + m;
        Some(Ok((keymap { format, fd, size }, n)))
    }
}

impl Codec for keymap {
    open spec fn rt_ok(&self) -> bool {
        &&& self.format.rt_ok()
        &&& self.fd.rt_ok()
        &&& self.size.rt_ok()
    }

    proof fn lemma_roundtrip(&self, tail: Seq<u8>, base: Seq<Fd>) {
        let b0 = self.format.ser_bytes();
        let b1 = self.fd.ser_bytes();
        let b2 = self.size.ser_bytes();
        let d0 = self.format.ser_fds();
        let d1 = self.fd.ser_fds();
        let d2 = self.size.ser_fds();
        let s3 = tail;
        let s2 = b2 + s3;
        let s1 = b1 + s2;
        let s0 = b0 + s1;
        let buf = self.ser_bytes() + tail;
        assert(buf =~= s0);
        assert(buf.skip(0) =~= s0);
        lemma_reverse_add(d0 + d1, d2);
        lemma_reverse_add(d0, d1);
        let q2 = base;
        let q1 = q2 + d2.reverse();
        let q0 = q1 + d1.reverse();
        assert(base + self.ser_fds().reverse() =~= q0 + d0.reverse());
        self.format.lemma_roundtrip(s1, q0);
        assert(buf.skip((b0.len()) as int) == s1) by {
            lemma_skip_step(buf, (0) as int, b0, s1);
        }
        self.fd.lemma_roundtrip(s2, q1);
        assert(buf.skip((b0.len() + b1.len()) as int) == s2) by {
            lemma_skip_step(buf, (b0.len()) as int, b1, s2);
        }
        self.size.lemma_roundtrip(s3, q2);
    }
}

impl keymap {
    /// The arguments are read in the protocol's order, `format`, then `fd`, then `size`: the bytes
    /// and descriptors written for such arguments, one after the other,
    /// decode to exactly those arguments.
    pub proof fn lemma_layout(format: super::keymap_format, fd: Fd, size: u32, rest: Seq<u8>, queue: Seq<Fd>)
        requires
            format.ser_ok(),
            format.rt_ok(),
            fd.ser_ok(),
            fd.rt_ok(),
            size.ser_ok(),
            size.rt_ok(),
            format.ser_bytes().len() + fd.ser_bytes().len() + size.ser_bytes().len() <= usize::MAX,
        ensures
            ({
                let bytes = format.ser_bytes() + fd.ser_bytes() + size.ser_bytes();
                let fds = format.ser_fds() + fd.ser_fds() + size.ser_fds();
                keymap::dsr_spec(bytes + rest, queue + fds.reverse()) == Decoded::Value(
                    (format.deep_view(), fd.deep_view(), size.deep_view(),),
                    bytes.len(),
                    queue,
                )
            }),
    {
        let m = keymap { format, fd, size };
        m.lemma_roundtrip(rest, queue);
    }

    /// The message creates no object.
    pub proof fn lemma_creates(&self)
        ensures
            self.created_id() is None,
    {
    }
}

impl Msg<Obj> for keymap {
    open spec fn opcode() -> u16 {
        0
    }

    open spec fn since_version() -> u32 {
        1
    }

    open spec fn created_id(&self) -> Option<u32> {
        None
    }

    open spec fn created_destructor(&self) -> Option<u16> {
        None
    }

    fn op() -> (r: u16) {
        0
    }

    fn since() -> u32 {
        1
    }

    fn new_id(&self) -> (r: Option<(u32, ObjMeta)>) {
        None
    }
}

impl Event<Obj> for keymap {

}

/// enter event
///
/// Notification that this seat's keyboard focus is on a certain
/// surface.
///
/// The compositor must send the wl_keyboard.modifiers event after this
/// event.
///
#[derive(Debug)]
pub struct enter {
    // serial number of the enter event
    pub serial: u32,
    // surface gaining keyboard focus
    pub surface: object<crate::wl_surface::Obj>,
    // the currently pressed keys
    pub keys: Vec<u8>,
}

impl Ser for enter {
    open spec fn ser_ok(&self) -> bool {
        &&& self.serial.ser_ok()
        &&& self.surface.ser_ok()
        &&& self.keys.ser_ok()
        &&& self.ser_bytes().len() <= usize::MAX
    }

    open spec fn ser_bytes(&self) -> Seq<u8> {
        self.serial.ser_bytes() + self.surface.ser_bytes() + self.keys.ser_bytes()
    }

    open spec fn ser_fds(&self) -> Seq<Fd> {
        self.serial.ser_fds() + self.surface.ser_fds() + self.keys.ser_fds()
    }

    fn wire_len(&self) -> (n: usize) {
        self.serial.wire_len() + self.surface.wire_len() + self.keys.wire_len()
    }

    fn checked_len(&self) -> (r: Option<usize>) {
        let n0 = match self.serial.checked_len() {
            Some(m) => m,
            None => return None,
        };
        let n1 = match self.surface.checked_len() {
            Some(m) => match n0.checked_add(m) {
                Some(t) => t,
                None => return None,
            },
            None => return None,
        };
        let n2 = match self.keys.checked_len() {
            Some(m) => match n1.checked_add(m) {
                Some(t) => t,
                None => return None,
            },
            None => return None,
        };
        Some(n2)
    }

    open spec fn ser_fits(&self, cap: int) -> bool {
        &&& 0 <= cap && self.serial.ser_fits(cap - (0))
        &&& self.serial.ser_bytes().len() <= cap && self.surface.ser_fits(cap - (self.serial.ser_bytes().len()))
        &&& self.serial.ser_bytes().len() + self.surface.ser_bytes().len() <= cap && self.keys.ser_fits(cap - (self.serial.ser_bytes().len() + self.surface.ser_bytes().len()))
    }

    fn serialize(self, buf: &mut [u8], fds: &mut Vec<Fd>) -> (r: Result<usize, &'static str>) {
        let ghost me = self;
        let ghost b0 = buf@;
        let mut n: usize = 0;
        n = n + ser_at(self.serial, buf, n, fds);
        assert(fds@ =~= old(fds)@ + me.serial.ser_fds());
        n = n + ser_at(self.surface, buf, n, fds);
        proof {
            lemma_write_then(b0, 0, me.serial.ser_bytes(), me.surface.ser_bytes());
        }
        assert(fds@ =~= old(fds)@ + me.serial.ser_fds() + me.surface.ser_fds());
        n = n + ser_at(self.keys, buf, n, fds);
        proof {
            lemma_write_then(b0, 0, me.serial.ser_bytes() + me.surface.ser_bytes(), me.keys.ser_bytes());
        }
        assert(fds@ =~= old(fds)@ + me.ser_fds());
        Ok(n)
    }

    proof fn lemma_fits(&self, cap: int) {
        self.serial.lemma_fits(cap - (0));
        self.surface.lemma_fits(cap - (self.serial.ser_bytes().len()));
        self.keys.lemma_fits(cap - (self.serial.ser_bytes().len() + self.surface.ser_bytes().len()));
    }
}

impl DeepView for enter {
    type V = (<u32 as DeepView>::V, <object<crate::wl_surface::Obj> as DeepView>::V, <Vec<u8> as DeepView>::V,);

    open spec fn deep_view(&self) -> (<u32 as DeepView>::V, <object<crate::wl_surface::Obj> as DeepView>::V, <Vec<u8> as DeepView>::V,) {
        (self.serial.deep_view(), self.surface.deep_view(), self.keys.deep_view(),)
    }
}

impl Dsr for enter {
    open spec fn dsr_spec(buf: Seq<u8>, fds: Seq<Fd>) -> Decoded<(<u32 as DeepView>::V, <object<crate::wl_surface::Obj> as DeepView>::V, <Vec<u8> as DeepView>::V,)> {
        match <u32>::dsr_spec(buf, fds) {
            Decoded::Value(serial, n0, q0) => {
                match <object<crate::wl_surface::Obj>>::dsr_spec(buf.skip(n0 as int), q0) {
                    Decoded::Value(surface, m1, q1) => {
                        let n1 = n0 + m1;
                        match <Vec<u8>>::dsr_spec(buf.skip(n1 as int), q1) {
                            Decoded::Value(keys, m2, q2) => {
                                let n2 = n1 + m2;
                                Decoded::Value((serial, surface, keys,), n2, q2)
                            },
                            d => d.fail(),
                        }
                    },
                    d => d.fail(),
                }
            },
            d => d.fail(),
        }
    }

    fn try_deserialize(buf: &[u8], fds: &mut Vec<Fd>) -> (r: Option<Result<(enter, usize), &'static str>>) {
        let mut n: usize = 0;
        let rest = &buf[n..buf.len()];
        assert(rest@ =~= buf@.skip(n as int));
        assert(n == 0 ==> rest@ =~= buf@);
        let (serial, m) = match <u32>::try_deserialize(rest, fds) {
            Some(Ok(p)) => p,
            Some(Err(e)) => return Some(Err(e)),
            None => return None,
        };
        n = n + m;
        let rest = &buf[n..buf.len()];
        assert(rest@ =~= buf@.skip(n as int));
        assert(n == 0 ==> rest@ =~= buf@);
        let (surface, m) = match <object<crate::wl_surface::Obj>>::try_deserialize(rest, fds) {
            Some(Ok(p)) => p,
            Some(Err(e)) => return Some(Err(e)),
            None => return None,
        };
        n = n + m;
        let rest = &buf[n..buf.len()];
        assert(rest@ =~= buf@.skip(n as int));
        assert(n == 0 ==> rest@ =~= buf@);
        let (keys, m) = match <Vec<u8>>::try_deserialize(rest, fds) {
            Some(Ok(p)) => p,
            Some(Err(e)) => return Some(Err(e)),
            None => return None,
        };
        n = n + m;
        Some(Ok((enter { serial, surface, keys }, n)))
    }
}

impl Codec for enter {
    open spec fn rt_ok(&self) -> bool {
        &&& self.serial.rt_ok()
        &&& self.surface.rt_ok()
        &&& self.keys.rt_ok()
    }

    proof fn lemma_roundtrip(&self, tail: Seq<u8>, base: Seq<Fd>) {
        let b0 = self.serial.ser_bytes();
        let b1 = self.surface.ser_bytes();
        let b2 = self.keys.ser_bytes();
        let d0 = self.serial.ser_fds();
        let d1 = self.surface.ser_fds();
        let d2 = self.keys.ser_fds();
        let s3 = tail;
        let s2 = b2 + s3;
        let s1 = b1 + s2;
        let s0 = b0 + s1;
        let buf = self.ser_bytes() + tail;
        assert(buf =~= s0);
        assert(buf.skip(0) =~= s0);
        assert(self.ser_fds() =~= Seq::<Fd>::empty());
        assert(base + self.ser_fds().reverse() =~= base);
        assert(d0 =~= Seq::<Fd>::empty());
        assert(base + d0.reverse() =~= base);
        self.serial.lemma_roundtrip(s1, base);
        assert(buf.skip((b0.len()) as int) == s1) by {
            lemma_skip_step(buf, (0) as int, b0, s1);
        }
        assert(d1 =~= Seq::<Fd>::empty());
        assert(base + d1.reverse() =~= base);
        self.surface.lemma_roundtrip(s2, base);
        assert(buf.skip((b0.len() + b1.len()) as int) == s2) by {
            lemma_skip_step(buf, (b0.len()) as int, b1, s2);
        }
        assert(d2 =~= Seq::<Fd>::empty());
        assert(base + d2.reverse() =~= base);
        self.keys.lemma_roundtrip(s3, base);
    }
}

impl enter {
    /// The arguments are read in the protocol's order, `serial`, then `surface`, then `keys`: the bytes
    /// and descriptors written for such arguments, one after the other,
    /// decode to exactly those arguments.
    pub proof fn lemma_layout(serial: u32, surface: object<crate::wl_surface::Obj>, keys: Vec<u8>, rest: Seq<u8>, queue: Seq<Fd>)
        requires
            serial.ser_ok(),
            serial.rt_ok(),
            surface.ser_ok(),
            surface.rt_ok(),
            keys.ser_ok(),
            keys.rt_ok(),
            serial.ser_bytes().len() + surface.ser_bytes().len() + keys.ser_bytes().len() <= usize::MAX,
        ensures
            ({
                let bytes = serial.ser_bytes() + surface.ser_bytes() + keys.ser_bytes();
                let fds = serial.ser_fds() + surface.ser_fds() + keys.ser_fds();
                enter::dsr_spec(bytes + rest, queue + fds.reverse()) == Decoded::Value(
                    (serial.deep_view(), surface.deep_view(), keys.deep_view(),),
                    bytes.len(),
                    queue,
                )
            }),
    {
        let m = enter { serial, surface, keys };
        m.lemma_roundtrip(rest, queue);
    }

    /// The message creates no object.
    pub proof fn lemma_creates(&self)
        ensures
            self.created_id() is None,
    {
    }
}

impl Msg<Obj> for enter {
    open spec fn opcode() -> u16 {
        1
    }

    open spec fn since_version() -> u32 {
        1
    }

    open spec fn created_id(&self) -> Option<u32> {
        None
    }

    open spec fn created_destructor(&self) -> Option<u16> {
        None
    }

    fn op() -> (r: u16) {
        1
    }

    fn since() -> u32 {
        1
    }

    fn new_id(&self) -> (r: Option<(u32, ObjMeta)>) {
        None
    }
}

impl Event<Obj> for enter {

}

/// leave event
///
/// Notification that this seat's keyboard focus is no longer on
/// a certain surface.
///
/// The leave notification is sent before the enter notification
/// for the new focus.
///
/// After this event client must assume that all keys, including modifiers,
/// are lifted and also it must stop key repeating if there's some going on.
///
#[derive(Debug)]
pub struct leave {
    // serial number of the leave event
    pub serial: u32,
    // surface that lost keyboard focus
    pub surface: object<crate::wl_surface::Obj>,
}

impl Ser for leave {
    open spec fn ser_ok(&self) -> bool {
        &&& self.serial.ser_ok()
        &&& self.surface.ser_ok()
        &&& self.ser_bytes().len() <= usize::MAX
    }

    open spec fn ser_bytes(&self) -> Seq<u8> {
        self.serial.ser_bytes() + self.surface.ser_bytes()
    }

    open spec fn ser_fds(&self) -> Seq<Fd> {
        self.serial.ser_fds() + self.surface.ser_fds()
    }

    fn wire_len(&self) -> (n: usize) {
        self.serial.wire_len() + self.surface.wire_len()
    }

    fn checked_len(&self) -> (r: Option<usize>) {
        let n0 = match self.serial.checked_len() {
            Some(m) => m,
            None => return None,
        };
        let n1 = match self.surface.checked_len() {
            Some(m) => match n0.checked_add(m) {
                Some(t) => t,
                None => return None,
            },
            None => return None,
        };
        Some(n1)
    }

    open spec fn ser_fits(&self, cap: int) -> bool {
        &&& 0 <= cap && self.serial.ser_fits(cap - (0))
        &&& self.serial.ser_bytes().len() <= cap && self.surface.ser_fits(cap - (self.serial.ser_bytes().len()))
    }

    fn serialize(self, buf: &mut [u8], fds: &mut Vec<Fd>) -> (r: Result<usize, &'static str>) {
        let ghost me = self;
        let ghost b0 = buf@;
        let mut n: usize = 0;
        n = n + ser_at(self.serial, buf, n, fds);
        assert(fds@ =~= old(fds)@ + me.serial.ser_fds());
        n = n + ser_at(self.surface, buf, n, fds);
        proof {
            lemma_write_then(b0, 0, me.serial.ser_bytes(), me.surface.ser_bytes());
        }
        assert(fds@ =~= old(fds)@ + me.ser_fds());
        Ok(n)
    }

    proof fn lemma_fits(&self, cap: int) {
        self.serial.lemma_fits(cap - (0));
        self.surface.lemma_fits(cap - (self.serial.ser_bytes().len()));
    }
}

impl DeepView for leave {
    type V = (<u32 as DeepView>::V, <object<crate::wl_surface::Obj> as DeepView>::V,);

    open spec fn deep_view(&self) -> (<u32 as DeepView>::V, <object<crate::wl_surface::Obj> as DeepView>::V,) {
        (self.serial.deep_view(), self.surface.deep_view(),)
    }
}

impl Dsr for leave {
    open spec fn dsr_spec(buf: Seq<u8>, fds: Seq<Fd>) -> Decoded<(<u32 as DeepView>::V, <object<crate::wl_surface::Obj> as DeepView>::V,)> {
        match <u32>::dsr_spec(buf, fds) {
            Decoded::Value(serial, n0, q0) => {
                match <object<crate::wl_surface::Obj>>::dsr_spec(buf.skip(n0 as int), q0) {
                    Decoded::Value(surface, m1, q1) => {
                        let n1 = n0 + m1;
                        Decoded::Value((serial, surface,), n1, q1)
                    },
                    d => d.fail(),
                }
            },
            d => d.fail(),
        }
    }

    fn try_deserialize(buf: &[u8], fds: &mut Vec<Fd>) -> (r: Option<Result<(leave, usize), &'static str>>) {
        let mut n: usize = 0;
        let rest = &buf[n..buf.len()];
        assert(rest@ =~= buf@.skip(n as int));
        assert(n == 0 ==> rest@ =~= buf@);
        let (serial, m) = match <u32>::try_deserialize(rest, fds) {
            Some(Ok(p)) => p,
            Some(Err(e)) => return Some(Err(e)),
            None => return None,
        };
        n = n + m;
        let rest = &buf[n..buf.len()];
        assert(rest@ =~= buf@.skip(n as int));
        assert(n == 0 ==> rest@ =~= buf@);
        let (surface, m) = match <object<crate::wl_surface::Obj>>::try_deserialize(rest, fds) {
            Some(Ok(p)) => p,
            Some(Err(e)) => return Some(Err(e)),
            None => return None,
        };
        n = n + m;
        Some(Ok((leave { serial, surface }, n)))
    }
}

impl Codec for leave {
    open spec fn rt_ok(&self) -> bool {
        &&& self.serial.rt_ok()
        &&& self.surface.rt_ok()
    }

    proof fn lemma_roundtrip(&self, tail: Seq<u8>, base: Seq<Fd>) {
        let b0 = self.serial.ser_bytes();
        let b1 = self.surface.ser_bytes();
        let d0 = self.serial.ser_fds();
        let d1 = self.surface.ser_fds();
        let s2 = tail;
        let s1 = b1 + s2;
        let s0 = b0 + s1;
        let buf = self.ser_bytes() + tail;
        assert(buf =~= s0);
        assert(buf.skip(0) =~= s0);
        assert(self.ser_fds() =~= Seq::<Fd>::empty());
        assert(base + self.ser_fds().reverse() =~= base);
        assert(d0 =~= Seq::<Fd>::empty());
        assert(base + d0.reverse() =~= base);
        self.serial.lemma_roundtrip(s1, base);
        assert(buf.skip((b0.len()) as int) == s1) by {
            lemma_skip_step(buf, (0) as int, b0, s1);
        }
        assert(d1 =~= Seq::<Fd>::empty());
        assert(base + d1.reverse() =~= base);
        self.surface.lemma_roundtrip(s2, base);
    }
}

impl leave {
    /// The arguments are read in the protocol's order, `serial`, then `surface`: the bytes
    /// and descriptors written for such arguments, one after the other,
    /// decode to exactly those arguments.
    pub proof fn lemma_layout(serial: u32, surface: object<crate::wl_surface::Obj>, rest: Seq<u8>, queue: Seq<Fd>)
        requires
            serial.ser_ok(),
            serial.rt_ok(),
            surface.ser_ok(),
            surface.rt_ok(),
            serial.ser_bytes().len() + surface.ser_bytes().len() <= usize::MAX,
        ensures
            ({
                let bytes = serial.ser_bytes() + surface.ser_bytes();
                let fds = serial.ser_fds() + surface.ser_fds();
                leave::dsr_spec(bytes + rest, queue + fds.reverse()) == Decoded::Value(
                    (serial.deep_view(), surface.deep_view(),),
                    bytes.len(),
                    queue,
                )
            }),
    {
        let m = leave { serial, surface };
        m.lemma_roundtrip(rest, queue);
    }

    /// The message creates no object.
    pub proof fn lemma_creates(&self)
        ensures
            self.created_id() is None,
    {
    }
}

impl Msg<Obj> for leave {
    open spec fn opcode() -> u16 {
        2
    }

    open spec fn since_version() -> u32 {
        1
    }

    open spec fn created_id(&self) -> Option<u32> {
        None
    }

    open spec fn created_destructor(&self) -> Option<u16> {
        None
    }

    fn op() -> (r: u16) {
        2
    }

    fn since() -> u32 {
        1
    }

    fn new_id(&self) -> (r: Option<(u32, ObjMeta)>) {
        None
    }
}

impl Event<Obj> for leave {

}

/// key event
///
/// A key was pressed or released.
/// The time argument is a timestamp with millisecond
/// granularity, with an undefined base.
///
/// The key is a platform-specific key code that can be interpreted
/// by feeding it to the keyboard mapping (see the keymap event).
///
/// If this event produces a change in modifiers, then the resulting
/// wl_keyboard.modifiers event must be sent after this event.
///
#[derive(Debug)]
pub struct key {
    // serial number of the key event
    pub serial: u32,
    // timestamp with millisecond granularity
    pub time: u32,
    // key that produced the event
    pub key: u32,
    // physical state of the key
    pub state: super::key_state,
}

impl Ser for key {
    open spec fn ser_ok(&self) -> bool {
        &&& self.serial.ser_ok()
        &&& self.time.ser_ok()
        &&& self.key.ser_ok()
        &&& self.state.ser_ok()
        &&& self.ser_bytes().len() <= usize::MAX
    }

    open spec fn ser_bytes(&self) -> Seq<u8> {
        self.serial.ser_bytes() + self.time.ser_bytes() + self.key.ser_bytes() + self.state.ser_bytes()
    }

    open spec fn ser_fds(&self) -> Seq<Fd> {
        self.serial.ser_fds() + self.time.ser_fds() + self.key.ser_fds() + self.state.ser_fds()
    }

    fn wire_len(&self) -> (n: usize) {
        self.serial.wire_len() + self.time.wire_len() + self.key.wire_len() + self.state.wire_len()
    }

    fn checked_len(&self) -> (r: Option<usize>) {
        let n0 = match self.serial.checked_len() {
            Some(m) => m,
            None => return None,
        };
        let n1 = match self.time.checked_len() {
            Some(m) => match n0.checked_add(m) {
                Some(t) => t,
                None => return None,
            },
            None => return None,
        };
        let n2 = match self.key.checked_len() {
            Some(m) => match n1.checked_add(m) {
                Some(t) => t,
                None => return None,
            },
            None => return None,
        };
        let n3 = match self.state.checked_len() {
            Some(m) => match n2.checked_add(m) {
                Some(t) => t,
                None => return None,
            },
            None => return None,
        };
        Some(n3)
    }

    open spec fn ser_fits(&self, cap: int) -> bool {
        &&& 0 <= cap && self.serial.ser_fits(cap - (0))
        &&& self.serial.ser_bytes().len() <= cap && self.time.ser_fits(cap - (self.serial.ser_bytes().len()))
        &&& self.serial.ser_bytes().len() + self.time.ser_bytes().len() <= cap && self.key.ser_fits(cap - (self.serial.ser_bytes().len() + self.time.ser_bytes().len()))
        &&& self.serial.ser_bytes().len() + self.time.ser_bytes().len() + self.key.ser_bytes().len() <= cap && self.state.ser_fits(cap - (self.serial.ser_bytes().len() + self.time.ser_bytes().len() + self.key.ser_bytes().len()))
    }

    fn serialize(self, buf: &mut [u8], fds: &mut Vec<Fd>) -> (r: Result<usize, &'static str>) {
        let ghost me = self;
        let ghost b0 = buf@;
        let mut n: usize = 0;
        n = n + ser_at(self.serial, buf, n, fds);
        assert(fds@ =~= old(fds)@ + me.serial.ser_fds());
        n = n + ser_at(self.time, buf, n, fds);
        proof {
            lemma_write_then(b0, 0, me.serial.ser_bytes(), me.time.ser_bytes());
        }
        assert(fds@ =~= old(fds)@ + me.serial.ser_fds() + me.time.ser_fds());
        n = n + ser_at(self.key, buf, n, fds);
        proof {
            lemma_write_then(b0, 0, me.serial.ser_bytes() + me.time.ser_bytes(), me.key.ser_bytes());
        }
        assert(fds@ =~= old(fds)@ + me.serial.ser_fds() + me.time.ser_fds() + me.key.ser_fds());
        n = n + ser_at(self.state, buf, n, fds);
        proof {
            lemma_write_then(b0, 0, me.serial.ser_bytes() + me.time.ser_bytes() + me.key.ser_bytes(), me.state.ser_bytes());
        }
        assert(fds@ =~= old(fds)@ + me.ser_fds());
        Ok(n)
    }

    proof fn lemma_fits(&self, cap: int) {
        self.serial.lemma_fits(cap - (0));
        self.time.lemma_fits(cap - (self.serial.ser_bytes().len()));
        self.key.lemma_fits(cap - (self.serial.ser_bytes().len() + self.time.ser_bytes().len()));
        self.state.lemma_fits(cap - (self.serial.ser_bytes().len() + self.time.ser_bytes().len() + self.key.ser_bytes().len()));
    }
}

impl DeepView for key {
    type V = (<u32 as DeepView>::V, <u32 as DeepView>::V, <u32 as DeepView>::V, <super::key_state as DeepView>::V,);

    open spec fn deep_view(&self) -> (<u32 as DeepView>::V, <u32 as DeepView>::V, <u32 as DeepView>::V, <super::key_state as DeepView>::V,) {
        (self.serial.deep_view(), self.time.deep_view(), self.key.deep_view(), self.state.deep_view(),)
    }
}

impl Dsr for key {
    open spec fn dsr_spec(buf: Seq<u8>, fds: Seq<Fd>) -> Decoded<(<u32 as DeepView>::V, <u32 as DeepView>::V, <u32 as DeepView>::V, <super::key_state as DeepView>::V,)> {
        match <u32>::dsr_spec(buf, fds) {
            Decoded::Value(serial, n0, q0) => {
                match <u32>::dsr_spec(buf.skip(n0 as int), q0) {
                    Decoded::Value(time, m1, q1) => {
                        let n1 = n0 + m1;
                        match <u32>::dsr_spec(buf.skip(n1 as int), q1) {
                            Decoded::Value(key, m2, q2) => {
                                let n2 = n1 + m2;
                                match <super::key_state>::dsr_spec(buf.skip(n2 as int), q2) {
                                    Decoded::Value(state, m3, q3) => {
                                        let n3 = n2 + m3;
                                        Decoded::Value((serial, time, key, state,), n3, q3)
                                    },
                                    d => d.fail(),
                                }
                            },
                            d => d.fail(),
                        }
                    },
                    d => d.fail(),
                }
            },
            d => d.fail(),
        }
    }

    fn try_deserialize(buf: &[u8], fds: &mut Vec<Fd>) -> (r: Option<Result<(key, usize), &'static str>>) {
        let mut n: usize = 0;
        let rest = &buf[n..buf.len()];
        assert(rest@ =~= buf@.skip(n as int));
        assert(n == 0 ==> rest@ =~= buf@);
        let (serial, m) = match <u32>::try_deserialize(rest, fds) {
            Some(Ok(p)) => p,
            Some(Err(e)) => return Some(Err(e)),
            None => return None,
        };
        n = n + m;
        let rest = &buf[n..buf.len()];
        assert(rest@ =~= buf@.skip(n as int));
        assert(n == 0 ==> rest@ =~= buf@);
        let (time, m) = match <u32>::try_deserialize(rest, fds) {
            Some(Ok(p)) => p,
            Some(Err(e)) => return Some(Err(e)),
            None => return None,
        };
        n = n + m;
        let rest = &buf[n..buf.len()];
        assert(rest@ =~= buf@.skip(n as int));
        assert(n == 0 ==> rest@ =~= buf@);
        let (key, m) = match <u32>::try_deserialize(rest, fds) {
            Some(Ok(p)) => p,
            Some(Err(e)) => return Some(Err(e)),
            None => return None,
        };
        n = n + m;
        let rest = &buf[n..buf.len()];
        assert(rest@ =~= buf@.skip(n as int));
        assert(n == 0 ==> rest@ =~= buf@);
        let (state, m) = match <super::key_state>::try_deserialize(rest, fds) {
            Some(Ok(p)) => p,
            Some(Err(e)) => return Some(Err(e)),
            None => return None,
        };
        n = n + m;
        Some(Ok((key { serial, time, key, state }, n)))
    }
}

impl Codec for key {
    open spec fn rt_ok(&self) -> bool {
        &&& self.serial.rt_ok()
        &&& self.time.rt_ok()
        &&& self.key.rt_ok()
        &&& self.state.rt_ok()
    }

    proof fn lemma_roundtrip(&self, tail: Seq<u8>, base: Seq<Fd>) {
        let b0 = self.serial.ser_bytes();
        let b1 = self.time.ser_bytes();
        let b2 = self.key.ser_bytes();
        let b3 = self.state.ser_bytes();
        let d0 = self.serial.ser_fds();
        let d1 = self.time.ser_fds();
        let d2 = self.key.ser_fds();
        let d3 = self.state.ser_fds();
        let s4 = tail;
        let s3 = b3 + s4;
        let s2 = b2 + s3;
        let s1 = b1 + s2;
        let s0 = b0 + s1;
        let buf = self.ser_bytes() + tail;
        assert(buf =~= s0);
        assert(buf.skip(0) =~= s0);
        assert(self.ser_fds() =~= Seq::<Fd>::empty());
        assert(base + self.ser_fds().reverse() =~= base);
        assert(d0 =~= Seq::<Fd>::empty());
        assert(base + d0.reverse() =~= base);
        self.serial.lemma_roundtrip(s1, base);
        assert(buf.skip((b0.len()) as int) == s1) by {
            lemma_skip_step(buf, (0) as int, b0, s1);
        }
        assert(d1 =~= Seq::<Fd>::empty());
        assert(base + d1.reverse() =~= base);
        self.time.lemma_roundtrip(s2, base);
        assert(buf.skip((b0.len() + b1.len()) as int) == s2) by {
            lemma_skip_step(buf, (b0.len()) as int, b1, s2);
        }
        assert(d2 =~= Seq::<Fd>::empty());
        assert(base + d2.reverse() =~= base);
        self.key.lemma_roundtrip(s3, base);
        assert(buf.skip((b0.len() + b1.len() + b2.len()) as int) == s3) by {
            lemma_skip_step(buf, (b0.len() + b1.len()) as int, b2, s3);
        }
        assert(d3 =~= Seq::<Fd>::empty());
        assert(base + d3.reverse() =~= base);
        self.state.lemma_roundtrip(s4, base);
    }
}

impl key {
    /// The arguments are read in the protocol's order, `serial`, then `time`, then `key`, then `state`: the bytes
    /// and descriptors written for such arguments, one after the other,
    /// decode to exactly those arguments.
    pub proof fn lemma_layout(serial: u32, time: u32, key: u32, state: super::key_state, rest: Seq<u8>, queue: Seq<Fd>)
        requires
            serial.ser_ok(),
            serial.rt_ok(),
            time.ser_ok(),
            time.rt_ok(),
            key.ser_ok(),
            key.rt_ok(),
            state.ser_ok(),
            state.rt_ok(),
            serial.ser_bytes().len() + time.ser_bytes().len() + key.ser_bytes().len() + state.ser_bytes().len() <= usize::MAX,
        ensures
            ({
                let bytes = serial.ser_bytes() + time.ser_bytes() + key.ser_bytes() + state.ser_bytes();
                let fds = serial.ser_fds() + time.ser_fds() + key.ser_fds() + state.ser_fds();
                key::dsr_spec(bytes + rest, queue + fds.reverse()) == Decoded::Value(
                    (serial.deep_view(), time.deep_view(), key.deep_view(), state.deep_view(),),
                    bytes.len(),
                    queue,
                )
            }),
    {
        let m = key { serial, time, key, state };
        m.lemma_roundtrip(rest, queue);
    }

    /// The message creates no object.
    pub proof fn lemma_creates(&self)
        ensures
            self.created_id() is None,
    {
    }
}

impl Msg<Obj> for key {
    open spec fn opcode() -> u16 {
        3
    }

    open spec fn since_version() -> u32 {
        1
    }

    open spec fn created_id(&self) -> Option<u32> {
        None
    }

    open spec fn created_destructor(&self) -> Option<u16> {
        None
    }

    fn op() -> (r: u16) {
        3
    }

    fn since() -> u32 {
        1
    }

    fn new_id(&self) -> (r: Option<(u32, ObjMeta)>) {
        None
    }
}

impl Event<Obj> for key {

}

/// modifier and group state
///
/// Notifies clients that the modifier and/or group state has
/// changed, and it should update its local state.
///
#[derive(Debug)]
pub struct modifiers {
    // serial number of the modifiers event
    pub serial: u32,
    // depressed modifiers
    pub mods_depressed: u32,
    // latched modifiers
    pub mods_latched: u32,
    // locked modifiers
    pub mods_locked: u32,
    // keyboard layout
    pub group: u32,
}

impl Ser for modifiers {
    open spec fn ser_ok(&self) -> bool {
        &&& self.serial.ser_ok()
        &&& self.mods_depressed.ser_ok()
        &&& self.mods_latched.ser_ok()
        &&& self.mods_locked.ser_ok()
        &&& self.group.ser_ok()
        &&& self.ser_bytes().len() <= usize::MAX
    }

    open spec fn ser_bytes(&self) -> Seq<u8> {
        self.serial.ser_bytes() + self.mods_depressed.ser_bytes() + self.mods_latched.ser_bytes() + self.mods_locked.ser_bytes() + self.group.ser_bytes()
    }

    open spec fn ser_fds(&self) -> Seq<Fd> {
        self.serial.ser_fds() + self.mods_depressed.ser_fds() + self.mods_latched.ser_fds() + self.mods_locked.ser_fds() + self.group.ser_fds()
    }

    fn wire_len(&self) -> (n: usize) {
        self.serial.wire_len() + self.mods_depressed.wire_len() + self.mods_latched.wire_len() + self.mods_locked.wire_len() + self.group.wire_len()
    }

    fn checked_len(&self) -> (r: Option<usize>) {
        let n0 = match self.serial.checked_len() {
            Some(m) => m,
            None => return None,
        };
        let n1 = match self.mods_depressed.checked_len() {
            Some(m) => match n0.checked_add(m) {
                Some(t) => t,
                None => return None,
            },
            None => return None,
        };
        let n2 = match self.mods_latched.checked_len() {
            Some(m) => match n1.checked_add(m) {
                Some(t) => t,
                None => return None,
            },
            None => return None,
        };
        let n3 = match self.mods_locked.checked_len() {
            Some(m) => match n2.checked_add(m) {
                Some(t) => t,
                None => return None,
            },
            None => return None,
        };
        let n4 = match self.group.checked_len() {
            Some(m) => match n3.checked_add(m) {
                Some(t) => t,
                None => return None,
            },
            None => return None,
        };
        Some(n4)
    }

    open spec fn ser_fits(&self, cap: int) -> bool {
        &&& 0 <= cap && self.serial.ser_fits(cap - (0))
        &&& self.serial.ser_bytes().len() <= cap && self.mods_depressed.ser_fits(cap - (self.serial.ser_bytes().len()))
        &&& self.serial.ser_bytes().len() + self.mods_depressed.ser_bytes().len() <= cap && self.mods_latched.ser_fits(cap - (self.serial.ser_bytes().len() + self.mods_depressed.ser_bytes().len()))
        &&& self.serial.ser_bytes().len() + self.mods_depressed.ser_bytes().len() + self.mods_latched.ser_bytes().len() <= cap && self.mods_locked.ser_fits(cap - (self.serial.ser_bytes().len() + self.mods_depressed.ser_bytes().len() + self.mods_latched.ser_bytes().len()))
        &&& self.serial.ser_bytes().len() + self.mods_depressed.ser_bytes().len() + self.mods_latched.ser_bytes().len() + self.mods_locked.ser_bytes().len() <= cap && self.group.ser_fits(cap - (self.serial.ser_bytes().len() + self.mods_depressed.ser_bytes().len() + self.mods_latched.ser_bytes().len() + self.mods_locked.ser_bytes().len()))
    }

    fn serialize(self, buf: &mut [u8], fds: &mut Vec<Fd>) -> (r: Result<usize, &'static str>) {
        let ghost me = self;
        let ghost b0 = buf@;
        let mut n: usize = 0;
        n = n + ser_at(self.serial, buf, n, fds);
        assert(fds@ =~= old(fds)@ + me.serial.ser_fds());
        n = n + ser_at(self.mods_depressed, buf, n, fds);
        proof {
            lemma_write_then(b0, 0, me.serial.ser_bytes(), me.mods_depressed.ser_bytes());
        }
        assert(fds@ =~= old(fds)@ + me.serial.ser_fds() + me.mods_depressed.ser_fds());
        n = n + ser_at(self.mods_latched, buf, n, fds);
        proof {
            lemma_write_then(b0, 0, me.serial.ser_bytes() + me.mods_depressed.ser_bytes(), me.mods_latched.ser_bytes());
        }
        assert(fds@ =~= old(fds)@ + me.serial.ser_fds() + me.mods_depressed.ser_fds() + me.mods_latched.ser_fds());
        n = n + ser_at(self.mods_locked, buf, n, fds);
        proof {
            lemma_write_then(b0, 0, me.serial.ser_bytes() + me.mods_depressed.ser_bytes() + me.mods_latched.ser_bytes(), me.mods_locked.ser_bytes());
        }
        assert(fds@ =~= old(fds)@ + me.serial.ser_fds() + me.mods_depressed.ser_fds() + me.mods_latched.ser_fds() + me.mods_locked.ser_fds());
        n = n + ser_at(self.group, buf, n, fds);
        proof {
            lemma_write_then(b0, 0, me.serial.ser_bytes() + me.mods_depressed.ser_bytes() + me.mods_latched.ser_bytes() + me.mods_locked.ser_bytes(), me.group.ser_bytes());
        }
        assert(fds@ =~= old(fds)@ + me.ser_fds());
        Ok(n)
    }

    proof fn lemma_fits(&self, cap: int) {
        self.serial.lemma_fits(cap - (0));
        self.mods_depressed.lemma_fits(cap - (self.serial.ser_bytes().len()));
        self.mods_latched.lemma_fits(cap - (self.serial.ser_bytes().len() + self.mods_depressed.ser_bytes().len()));
        self.mods_locked.lemma_fits(cap - (self.serial.ser_bytes().len() + self.mods_depressed.ser_bytes().len() + self.mods_latched.ser_bytes().len()));
        self.group.lemma_fits(cap - (self.serial.ser_bytes().len() + self.mods_depressed.ser_bytes().len() + self.mods_latched.ser_bytes().len() + self.mods_locked.ser_bytes().len()));
    }
}

impl DeepView for modifiers {
    type V = (<u32 as DeepView>::V, <u32 as DeepView>::V, <u32 as DeepView>::V, <u32 as DeepView>::V, <u32 as DeepView>::V,);

    open spec fn deep_view(&self) -> (<u32 as DeepView>::V, <u32 as DeepView>::V, <u32 as DeepView>::V, <u32 as DeepView>::V, <u32 as DeepView>::V,) {
        (self.serial.deep_view(), self.mods_depressed.deep_view(), self.mods_latched.deep_view(), self.mods_locked.deep_view(), self.group.deep_view(),)
    }
}

impl Dsr for modifiers {
    open spec fn dsr_spec(buf: Seq<u8>, fds: Seq<Fd>) -> Decoded<(<u32 as DeepView>::V, <u32 as DeepView>::V, <u32 as DeepView>::V, <u32 as DeepView>::V, <u32 as DeepView>::V,)> {
        match <u32>::dsr_spec(buf, fds) {
            Decoded::Value(serial, n0, q0) => {
                match <u32>::dsr_spec(buf.skip(n0 as int), q0) {
                    Decoded::Value(mods_depressed, m1, q1) => {
                        let n1 = n0 + m1;
                        match <u32>::dsr_spec(buf.skip(n1 as int), q1) {
                            Decoded::Value(mods_latched, m2, q2) => {
                                let n2 = n1 + m2;
                                match <u32>::dsr_spec(buf.skip(n2 as int), q2) {
                                    Decoded::Value(mods_locked, m3, q3) => {
                                        let n3 = n2 + m3;
                                        match <u32>::dsr_spec(buf.skip(n3 as int), q3) {
                                            Decoded::Value(group, m4, q4) => {
                                                let n4 = n3 + m4;
                                                Decoded::Value((serial, mods_depressed, mods_latched, mods_locked, group,), n4, q4)
                                            },
                                            d => d.fail(),
                                        }
                                    },
                                    d => d.fail(),
                                }
                            },
                            d => d.fail(),
                        }
                    },
                    d => d.fail(),
                }
            },
            d => d.fail(),
        }
    }

    fn try_deserialize(buf: &[u8], fds: &mut Vec<Fd>) -> (r: Option<Result<(modifiers, usize), &'static str>>) {
        let mut n: usize = 0;
        let rest = &buf[n..buf.len()];
        assert(rest@ =~= buf@.skip(n as int));
        assert(n == 0 ==> rest@ =~= buf@);
        let (serial, m) = match <u32>::try_deserialize(rest, fds) {
            Some(Ok(p)) => p,
            Some(Err(e)) => return Some(Err(e)),
            None => return None,
        };
        n = n + m;
        let rest = &buf[n..buf.len()];
        assert(rest@ =~= buf@.skip(n as int));
        assert(n == 0 ==> rest@ =~= buf@);
        let (mods_depressed, m) = match <u32>::try_deserialize(rest, fds) {
            Some(Ok(p)) => p,
            Some(Err(e)) => return Some(Err(e)),
            None => return None,
        };
        n = n + m;
        let rest = &buf[n..buf.len()];
        assert(rest@ =~= buf@.skip(n as int));
        assert(n == 0 ==> rest@ =~= buf@);
        let (mods_latched, m) = match <u32>::try_deserialize(rest, fds) {
            Some(Ok(p)) => p,
            Some(Err(e)) => return Some(Err(e)),
            None => return None,
        };
        n = n + m;
        let rest = &buf[n..buf.len()];
        assert(rest@ =~= buf@.skip(n as int));
        assert(n == 0 ==> rest@ =~= buf@);
        let (mods_locked, m) = match <u32>::try_deserialize(rest, fds) {
            Some(Ok(p)) => p,
            Some(Err(e)) => return Some(Err(e)),
            None => return None,
        };
        n = n + m;
        let rest = &buf[n..buf.len()];
        assert(rest@ =~= buf@.skip(n as int));
        assert(n == 0 ==> rest@ =~= buf@);
        let (group, m) = match <u32>::try_deserialize(rest, fds) {
            Some(Ok(p)) => p,
            Some(Err(e)) => return Some(Err(e)),
            None => return None,
        };
        n = n + m;
        Some(Ok((modifiers { serial, mods_depressed, mods_latched, mods_locked, group }, n)))
    }
}

impl Codec for modifiers {
    open spec fn rt_ok(&self) -> bool {
        &&& self.serial.rt_ok()
        &&& self.mods_depressed.rt_ok()
        &&& self.mods_latched.rt_ok()
        &&& self.mods_locked.rt_ok()
        &&& self.group.rt_ok()
    }

    proof fn lemma_roundtrip(&self, tail: Seq<u8>, base: Seq<Fd>) {
        let b0 = self.serial.ser_bytes();
        let b1 = self.mods_depressed.ser_bytes();
        let b2 = self.mods_latched.ser_bytes();
        let b3 = self.mods_locked.ser_bytes();
        let b4 = self.group.ser_bytes();
        let d0 = self.serial.ser_fds();
        let d1 = self.mods_depressed.ser_fds();
        let d2 = self.mods_latched.ser_fds();
        let d3 = self.mods_locked.ser_fds();
        let d4 = self.group.ser_fds();
        let s5 = tail;
        let s4 = b4 + s5;
        let s3 = b3 + s4;
        let s2 = b2 + s3;
        let s1 = b1 + s2;
        let s0 = b0 + s1;
        let buf = self.ser_bytes() + tail;
        assert(buf =~= s0);
        assert(buf.skip(0) =~= s0);
        assert(self.ser_fds() =~= Seq::<Fd>::empty());
        assert(base + self.ser_fds().reverse() =~= base);
        assert(d0 =~= Seq::<Fd>::empty());
        assert(base + d0.reverse() =~= base);
        self.serial.lemma_roundtrip(s1, base);
        assert(buf.skip((b0.len()) as int) == s1) by {
            lemma_skip_step(buf, (0) as int, b0, s1);
        }
        assert(d1 =~= Seq::<Fd>::empty());
        assert(base + d1.reverse() =~= base);
        self.mods_depressed.lemma_roundtrip(s2, base);
        assert(buf.skip((b0.len() + b1.len()) as int) == s2) by {
            lemma_skip_step(buf, (b0.len()) as int, b1, s2);
        }
        assert(d2 =~= Seq::<Fd>::empty());
        assert(base + d2.reverse() =~= base);
        self.mods_latched.lemma_roundtrip(s3, base);
        assert(buf.skip((b0.len() + b1.len() + b2.len()) as int) == s3) by {
            lemma_skip_step(buf, (b0.len() + b1.len()) as int, b2, s3);
        }
        assert(d3 =~= Seq::<Fd>::empty());
        assert(base + d3.reverse() =~= base);
        self.mods_locked.lemma_roundtrip(s4, base);
        assert(buf.skip((b0.len() + b1.len() + b2.len() + b3.len()) as int) == s4) by {
            lemma_skip_step(buf, (b0.len() + b1.len() + b2.len()) as int, b3, s4);
        }
        assert(d4 =~= Seq::<Fd>::empty());
        assert(base + d4.reverse() =~= base);
        self.group.lemma_roundtrip(s5, base);
    }
}

impl modifiers {
    /// The arguments are read in the protocol's order, `serial`, then `mods_depressed`, then `mods_latched`, then `mods_locked`, then `group`: the bytes
    /// and descriptors written for such arguments, one after the other,
    /// decode to exactly those arguments.
    pub proof fn lemma_layout(serial: u32, mods_depressed: u32, mods_latched: u32, mods_locked: u32, group: u32, rest: Seq<u8>, queue: Seq<Fd>)
        requires
            serial.ser_ok(),
            serial.rt_ok(),
            mods_depressed.ser_ok(),
            mods_depressed.rt_ok(),
            mods_latched.ser_ok(),
            mods_latched.rt_ok(),
            mods_locked.ser_ok(),
            mods_locked.rt_ok(),
            group.ser_ok(),
            group.rt_ok(),
            serial.ser_bytes().len() + mods_depressed.ser_bytes().len() + mods_latched.ser_bytes().len() + mods_locked.ser_bytes().len() + group.ser_bytes().len() <= usize::MAX,
        ensures
            ({
                let bytes = serial.ser_bytes() + mods_depressed.ser_bytes() + mods_latched.ser_bytes() + mods_locked.ser_bytes() + group.ser_bytes();
                let fds = serial.ser_fds() + mods_depressed.ser_fds() + mods_latched.ser_fds() + mods_locked.ser_fds() + group.ser_fds();
                modifiers::dsr_spec(bytes + rest, queue + fds.reverse()) == Decoded::Value(
                    (serial.deep_view(), mods_depressed.deep_view(), mods_latched.deep_view(), mods_locked.deep_view(), group.deep_view(),),
                    bytes.len(),
                    queue,
                )
            }),
    {
        let m = modifiers { serial, mods_depressed, mods_latched, mods_locked, group };
        m.lemma_roundtrip(rest, queue);
    }

    /// The message creates no object.
    pub proof fn lemma_creates(&self)
        ensures
            self.created_id() is None,
    {
    }
}

impl Msg<Obj> for modifiers {
    open spec fn opcode() -> u16 {
        4
    }

    open spec fn since_version() -> u32 {
        1
    }

    open spec fn created_id(&self) -> Option<u32> {
        None
    }

    open spec fn created_destructor(&self) -> Option<u16> {
        None
    }

    fn op() -> (r: u16) {
        4
    }

    fn since() -> u32 {
        1
    }

    fn new_id(&self) -> (r: Option<(u32, ObjMeta)>) {
        None
    }
}

impl Event<Obj> for modifiers {

}

/// repeat rate and delay
///
/// Informs the client about the keyboard's repeat rate and delay.
///
/// This event is sent as soon as the wl_keyboard object has been created,
/// and is guaranteed to be received by the client before any key press
/// event.
///
/// Negative values for either rate or delay are illegal. A rate of zero
/// will disable any repeating (regardless of the value of delay).
///
/// This event can be sent later on as well with a new value if necessary,
/// so clients should continue listening for the event past the creation
/// of wl_keyboard.
///
#[derive(Debug)]
pub struct repeat_info {
    // the rate of repeating keys in characters per second
    pub rate: i32,
    // delay in milliseconds since key down until repeating starts
    pub delay: i32,
}

impl Ser for repeat_info {
    open spec fn ser_ok(&self) -> bool {
        &&& self.rate.ser_ok()
        &&& self.delay.ser_ok()
        &&& self.ser_bytes().len() <= usize::MAX
    }

    open spec fn ser_bytes(&self) -> Seq<u8> {
        self.rate.ser_bytes() + self.delay.ser_bytes()
    }

    open spec fn ser_fds(&self) -> Seq<Fd> {
        self.rate.ser_fds() + self.delay.ser_fds()
    }

    fn wire_len(&self) -> (n: usize) {
        self.rate.wire_len() + self.delay.wire_len()
    }

    fn checked_len(&self) -> (r: Option<usize>) {
        let n0 = match self.rate.checked_len() {
            Some(m) => m,
            None => return None,
        };
        let n1 = match self.delay.checked_len() {
            Some(m) => match n0.checked_add(m) {
                Some(t) => t,
                None => return None,
            },
            None => return None,
        };
        Some(n1)
    }

    open spec fn ser_fits(&self, cap: int) -> bool {
        &&& 0 <= cap && self.rate.ser_fits(cap - (0))
        &&& self.rate.ser_bytes().len() <= cap && self.delay.ser_fits(cap - (self.rate.ser_bytes().len()))
    }

    fn serialize(self, buf: &mut [u8], fds: &mut Vec<Fd>) -> (r: Result<usize, &'static str>) {
        let ghost me = self;
        let ghost b0 = buf@;
        let mut n: usize = 0;
        n = n + ser_at(self.rate, buf, n, fds);
        assert(fds@ =~= old(fds)@ + me.rate.ser_fds());
        n = n + ser_at(self.delay, buf, n, fds);
        proof {
            lemma_write_then(b0, 0, me.rate.ser_bytes(), me.delay.ser_bytes());
        }
        assert(fds@ =~= old(fds)@ + me.ser_fds());
        Ok(n)
    }

    proof fn lemma_fits(&self, cap: int) {
        self.rate.lemma_fits(cap - (0));
        self.delay.lemma_fits(cap - (self.rate.ser_bytes().len()));
    }
}

impl DeepView for repeat_info {
    type V = (<i32 as DeepView>::V, <i32 as DeepView>::V,);

    open spec fn deep_view(&self) -> (<i32 as DeepView>::V, <i32 as DeepView>::V,) {
        (self.rate.deep_view(), self.delay.deep_view(),)
    }
}

impl Dsr for repeat_info {
    open spec fn dsr_spec(buf: Seq<u8>, fds: Seq<Fd>) -> Decoded<(<i32 as DeepView>::V, <i32 as DeepView>::V,)> {
        match <i32>::dsr_spec(buf, fds) {
            Decoded::Value(rate, n0, q0) => {
                match <i32>::dsr_spec(buf.skip(n0 as int), q0) {
                    Decoded::Value(delay, m1, q1) => {
                        let n1 = n0 + m1;
                        Decoded::Value((rate, delay,), n1, q1)
                    },
                    d => d.fail(),
                }
            },
            d => d.fail(),
        }
    }

    fn try_deserialize(buf: &[u8], fds: &mut Vec<Fd>) -> (r: Option<Result<(repeat_info, usize), &'static str>>) {
        let mut n: usize = 0;
        let rest = &buf[n..buf.len()];
        assert(rest@ =~= buf@.skip(n as int));
        assert(n == 0 ==> rest@ =~= buf@);
        let (rate, m) = match <i32>::try_deserialize(rest, fds) {
            Some(Ok(p)) => p,
            Some(Err(e)) => return Some(Err(e)),
            None => return None,
        };
        n = n + m;
        let rest = &buf[n..buf.len()];
        assert(rest@ =~= buf@.skip(n as int));
        assert(n == 0 ==> rest@ =~= buf@);
        let (delay, m) = match <i32>::try_deserialize(rest, fds) {
            Some(Ok(p)) => p,
            Some(Err(e)) => return Some(Err(e)),
            None => return None,
        };
        n = n + m;
        Some(Ok((repeat_info { rate, delay }, n)))
    }
}

impl Codec for repeat_info {
    open spec fn rt_ok(&self) -> bool {
        &&& self.rate.rt_ok()
        &&& self.delay.rt_ok()
    }

    proof fn lemma_roundtrip(&self, tail: Seq<u8>, base: Seq<Fd>) {
        let b0 = self.rate.ser_bytes();
        let b1 = self.delay.ser_bytes();
        let d0 = self.rate.ser_fds();
        let d1 = self.delay.ser_fds();
        let s2 = tail;
        let s1 = b1 + s2;
        let s0 = b0 + s1;
        let buf = self.ser_bytes() + tail;
        assert(buf =~= s0);
        assert(buf.skip(0) =~= s0);
        assert(self.ser_fds() =~= Seq::<Fd>::empty());
        assert(base + self.ser_fds().reverse() =~= base);
        assert(d0 =~= Seq::<Fd>::empty());
        assert(base + d0.reverse() =~= base);
        self.rate.lemma_roundtrip(s1, base);
        assert(buf.skip((b0.len()) as int) == s1) by {
            lemma_skip_step(buf, (0) as int, b0, s1);
        }
        assert(d1 =~= Seq::<Fd>::empty());
        assert(base + d1.reverse() =~= base);
        self.delay.lemma_roundtrip(s2, base);
    }
}

impl repeat_info {
    /// The arguments are read in the protocol's order, `rate`, then `delay`: the bytes
    /// and descriptors written for such arguments, one after the other,
    /// decode to exactly those arguments.
    pub proof fn lemma_layout(rate: i32, delay: i32, rest: Seq<u8>, queue: Seq<Fd>)
        requires
            rate.ser_ok(),
            rate.rt_ok(),
            delay.ser_ok(),
            delay.rt_ok(),
            rate.ser_bytes().len() + delay.ser_bytes().len() <= usize::MAX,
        ensures
            ({
                let bytes = rate.ser_bytes() + delay.ser_bytes();
                let fds = rate.ser_fds() + delay.ser_fds();
                repeat_info::dsr_spec(bytes + rest, queue + fds.reverse()) == Decoded::Value(
                    (rate.deep_view(), delay.deep_view(),),
                    bytes.len(),
                    queue,
                )
            }),
    {
        let m = repeat_info { rate, delay };
        m.lemma_roundtrip(rest, queue);
    }

    /// The message creates no object.
    pub proof fn lemma_creates(&self)
        ensures
            self.created_id() is None,
    {
    }
}

impl Msg<Obj> for repeat_info {
    open spec fn opcode() -> u16 {
        5
    }

    open spec fn since_version() -> u32 {
        1
    }

    open spec fn created_id(&self) -> Option<u32> {
        None
    }

    open spec fn created_destructor(&self) -> Option<u16> {
        None
    }

    fn op() -> (r: u16) {
        5
    }

    fn since() -> u32 {
        1
    }

    fn new_id(&self) -> (r: Option<(u32, ObjMeta)>) {
        None
    }
}

impl Event<Obj> for repeat_info {

}

/// The opcode of each event: its index in the protocol's list of the
/// interface's events, so that no two events share one.
pub proof fn lemma_opcodes()
    ensures
        <keymap as Msg<Obj>>::opcode() == 0,
        <enter as Msg<Obj>>::opcode() == 1,
        <leave as Msg<Obj>>::opcode() == 2,
        <key as Msg<Obj>>::opcode() == 3,
        <modifiers as Msg<Obj>>::opcode() == 4,
        <repeat_info as Msg<Obj>>::opcode() == 5,
        <keymap as Msg<Obj>>::opcode() != <enter as Msg<Obj>>::opcode(),
        <keymap as Msg<Obj>>::opcode() != <leave as Msg<Obj>>::opcode(),
        <keymap as Msg<Obj>>::opcode() != <key as Msg<Obj>>::opcode(),
        <keymap as Msg<Obj>>::opcode() != <modifiers as Msg<Obj>>::opcode(),
        <keymap as Msg<Obj>>::opcode() != <repeat_info as Msg<Obj>>::opcode(),
        <enter as Msg<Obj>>::opcode() != <leave as Msg<Obj>>::opcode(),
        <enter as Msg<Obj>>::opcode() != <key as Msg<Obj>>::opcode(),
        <enter as Msg<Obj>>::opcode() != <modifiers as Msg<Obj>>::opcode(),
        <enter as Msg<Obj>>::opcode() != <repeat_info as Msg<Obj>>::opcode(),
        <leave as Msg<Obj>>::opcode() != <key as Msg<Obj>>::opcode(),
        <leave as Msg<Obj>>::opcode() != <modifiers as Msg<Obj>>::opcode(),
        <leave as Msg<Obj>>::opcode() != <repeat_info as Msg<Obj>>::opcode(),
        <key as Msg<Obj>>::opcode() != <modifiers as Msg<Obj>>::opcode(),
        <key as Msg<Obj>>::opcode() != <repeat_info as Msg<Obj>>::opcode(),
        <modifiers as Msg<Obj>>::opcode() != <repeat_info as Msg<Obj>>::opcode(),
{
}

} // verus!
