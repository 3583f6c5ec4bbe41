use vstd::prelude::*;
use crate::objects::{type_id_of, new_id, object, Dyn, ObjMeta, Object, Msg, Request};
use crate::wire::{ser_at, write_at, lemma_write_then, lemma_reverse_add, lemma_skip_step, fixed, Codec, Decoded, Dsr, Fd, Ser};
use super::Obj;

verus! {

/// destroy the xdg_toplevel
///
/// This request destroys the role surface and unmaps the surface;
/// see "Unmapping" behavior in interface section for details.
///
#[derive(Debug)]
pub struct destroy {}

impl Ser for destroy {
    open spec fn ser_ok(&self) -> bool {
        true
    }

    open spec fn ser_bytes(&self) -> Seq<u8> {
        Seq::empty()
    }

    open spec fn ser_fds(&self) -> Seq<Fd> {
        Seq::empty()
    }

    fn wire_len(&self) -> (n: usize) {
        0
    }

    fn checked_len(&self) -> (r: Option<usize>) {
        Some(0)
    }

    open spec fn ser_fits(&self, cap: int) -> bool {
        true
    }

    fn serialize(self, buf: &mut [u8], fds: &mut Vec<Fd>) -> (r: Result<usize, &'static str>) {
        assert(buf@ =~= write_at(old(buf)@, 0, Seq::<u8>::empty()));
        assert(fds@ =~= old(fds)@ + Seq::<Fd>::empty());
        Ok(0)
    }

    proof fn lemma_fits(&self, cap: int) {
    }
}

impl DeepView for destroy {
    type V = ();

    open spec fn deep_view(&self) -> () {
        ()
    }
}

impl Dsr for destroy {
    open spec fn dsr_spec(buf: Seq<u8>, fds: Seq<Fd>) -> Decoded<()> {
        Decoded::Value((), 0, fds)
    }

    fn try_deserialize(buf: &[u8], fds: &mut Vec<Fd>) -> (r: Option<Result<(destroy, usize), &'static str>>) {
        Some(Ok((destroy {}, 0)))
    }
}

impl Codec for destroy {
    open spec fn rt_ok(&self) -> bool {
        true
    }

    proof fn lemma_roundtrip(&self, tail: Seq<u8>, base: Seq<Fd>) {
        assert(Seq::<Fd>::empty().reverse() =~= Seq::<Fd>::empty());
        assert(base + Seq::<Fd>::empty() =~= base);
    }
}

impl destroy {
    /// The arguments are read in the protocol's order, no arguments: the bytes
    /// and descriptors written for such arguments, one after the other,
    /// decode to exactly those arguments.
    pub proof fn lemma_layout(rest: Seq<u8>, queue: Seq<Fd>)
        ensures
            ({
                let bytes = Seq::<u8>::empty();
                let fds = Seq::<Fd>::empty();
                destroy::dsr_spec(bytes + rest, queue + fds.reverse()) == Decoded::Value(
                    (),
                    bytes.len(),
                    queue,
                )
            }),
    {
        let m = destroy {};
        m.lemma_roundtrip(rest, queue);
    }

    /// The message creates no object.
    pub proof fn lemma_creates(&self)
        ensures
            self.created_id() is None,
    {
    }
}

impl Msg<Obj> for destroy {
    open spec fn opcode() -> u16 {
        0
    }

    open spec fn since_version() -> u32 {
        1
    }

    open spec fn created_id(&self) -> Option<u32> {
        None
    }

    open spec fn created_destructor(&self) -> Option<u16> {
        None
    }

    fn op() -> (r: u16) {
        0
    }

    fn since() -> u32 {
        1
    }

    fn new_id(&self) -> (r: Option<(u32, ObjMeta)>) {
        None
    }
}

impl Request<Obj> for destroy {

}

/// set the parent of this surface
///
/// Set the "parent" of this surface. This surface should be stacked
/// above the parent surface and all other ancestor surfaces.
///
/// Parent surfaces should be set on dialogs, toolboxes, or other
/// "auxiliary" surfaces, so that the parent is raised when the dialog
/// is raised.
///
/// Setting a null parent for a child surface unsets its parent. Setting
/// a null parent for a surface which currently has no parent is a no-op.
///
/// Only mapped surfaces can have child surfaces. Setting a parent which
/// is not mapped is equivalent to setting a null parent. If a surface
/// becomes unmapped, its children's parent is set to the parent of
/// the now-unmapped surface. If the now-unmapped surface has no parent,
/// its children's parent is unset. If the now-unmapped surface becomes
/// mapped again, its parent-child relationship is not restored.
///
/// The parent toplevel must not be one of the child toplevel's
/// descendants, and the parent must be different from the child toplevel,
/// otherwise the invalid_parent protocol error is raised.
///
#[derive(Debug)]
pub struct set_parent {
    //
    pub parent: Option<object<crate::xdg_toplevel::Obj>>,
}

impl Ser for set_parent {
    open spec fn ser_ok(&self) -> bool {
        &&& self.parent.ser_ok()
        &&& self.ser_bytes().len() <= usize::MAX
    }

    open spec fn ser_bytes(&self) -> Seq<u8> {
        self.parent.ser_bytes()
    }

    open spec fn ser_fds(&self) -> Seq<Fd> {
        self.parent.ser_fds()
    }

    fn wire_len(&self) -> (n: usize) {
        self.parent.wire_len()
    }

    fn checked_len(&self) -> (r: Option<usize>) {
        let n0 = match self.parent.checked_len() {
            Some(m) => m,
            None => return None,
        };
        Some(n0)
    }

    open spec fn ser_fits(&self, cap: int) -> bool {
        &&& 0 <= cap && self.parent.ser_fits(cap - (0))
    }

    fn serialize(self, buf: &mut [u8], fds: &mut Vec<Fd>) -> (r: Result<usize, &'static str>) {
        let ghost me = self;
        let ghost b0 = buf@;
        let mut n: usize = 0;
        n = n + ser_at(self.parent, buf, n, fds);
        assert(fds@ =~= old(fds)@ + me.ser_fds());
        Ok(n)
    }

    proof fn lemma_fits(&self, cap: int) {
        self.parent.lemma_fits(cap - (0));
    }
}

impl DeepView for set_parent {
    type V = (<Option<object<crate::xdg_toplevel::Obj>> as DeepView>::V,);

    open spec fn deep_view(&self) -> (<Option<object<crate::xdg_toplevel::Obj>> as DeepView>::V,) {
        (self.parent.deep_view(),)
    }
}

impl Dsr for set_parent {
    open spec fn dsr_spec(buf: Seq<u8>, fds: Seq<Fd>) -> Decoded<(<Option<object<crate::xdg_toplevel::Obj>> as DeepView>::V,)> {
        match <Option<object<crate::xdg_toplevel::Obj>>>::dsr_spec(buf, fds) {
            Decoded::Value(parent, n0, q0) => Decoded::Value((parent,), n0, q0),
            d => d.fail(),
        }
    }

    fn try_deserialize(buf: &[u8], fds: &mut Vec<Fd>) -> (r: Option<Result<(set_parent, usize), &'static str>>) {
        let mut n: usize = 0;
        let rest = &buf[n..buf.len()];
        assert(rest@ =~= buf@.skip(n as int));
        assert(n == 0 ==> rest@ =~= buf@);
        let (parent, m) = match <Option<object<crate::xdg_toplevel::Obj>>>::try_deserialize(rest, fds) {
            Some(Ok(p)) => p,
            Some(Err(e)) => return Some(Err(e)),
            None => return None,
        };
        n = n + m;
        Some(Ok((set_parent { parent }, n)))
    }
}

impl Codec for set_parent {
    open spec fn rt_ok(&self) -> bool {
        &&& self.parent.rt_ok()
    }

    proof fn lemma_roundtrip(&self, tail: Seq<u8>, base: Seq<Fd>) {
        let b0 = self.parent.ser_bytes();
        let d0 = self.parent.ser_fds();
        let s1 = tail;
        let s0 = b0 + s1;
        let buf = self.ser_bytes() + tail;
        assert(buf =~= s0);
        assert(buf.skip(0) =~= s0);
        assert(self.ser_fds() =~= Seq::<Fd>::empty());
        assert(base + self.ser_fds().reverse() =~= base);
        assert(d0 =~= Seq::<Fd>::empty());
        assert(base + d0.reverse() =~= base);
        self.parent.lemma_roundtrip(s1, base);
    }
}

impl set_parent {
    /// The arguments are read in the protocol's order, `parent`: the bytes
    /// and descriptors written for such arguments, one after the other,
    /// decode to exactly those arguments.
    pub proof fn lemma_layout(parent: Option<object<crate::xdg_toplevel::Obj>>, rest: Seq<u8>, queue: Seq<Fd>)
        requires
            parent.ser_ok(),
            parent.rt_ok(),
            parent.ser_bytes().len() <= usize::MAX,
        ensures
            ({
                let bytes = parent.ser_bytes();
                let fds = parent.ser_fds();
                set_parent::dsr_spec(bytes + rest, queue + fds.reverse()) == Decoded::Value(
                    (parent.deep_view(),),
                    bytes.len(),
                    queue,
                )
            }),
    {
        let m = set_parent { parent };
        m.lemma_roundtrip(rest, queue);
    }

    /// The message creates no object.
    pub proof fn lemma_creates(&self)
        ensures
            self.created_id() is None,
    {
    }
}

impl Msg<Obj> for set_parent {
    open spec fn opcode() -> u16 {
        1
    }

    open spec fn since_version() -> u32 {
        1
    }

    open spec fn created_id(&self) -> Option<u32> {
        None
    }

    open spec fn created_destructor(&self) -> Option<u16> {
        None
    }

    fn op() -> (r: u16) {
        1
    }

    fn since() -> u32 {
        1
    }

    fn new_id(&self) -> (r: Option<(u32, ObjMeta)>) {
        None
    }
}

impl Request<Obj> for set_parent {

}

/// set surface title
///
/// Set a short title for the surface.
///
/// This string may be used to identify the surface in a task bar,
/// window list, or other user interface elements provided by the
/// compositor.
///
/// The string must be encoded in UTF-8.
///
#[derive(Debug)]
pub struct set_title {
    //
    pub title: String,
}

impl Ser for set_title {
    open spec fn ser_ok(&self) -> bool {
        &&& self.title.ser_ok()
        &&& self.ser_bytes().len() <= usize::MAX
    }

    open spec fn ser_bytes(&self) -> Seq<u8> {
        self.title.ser_bytes()
    }

    open spec fn ser_fds(&self) -> Seq<Fd> {
        self.title.ser_fds()
    }

    fn wire_len(&self) -> (n: usize) {
        self.title.wire_len()
    }

    fn checked_len(&self) -> (r: Option<usize>) {
        let n0 = match self.title.checked_len() {
            Some(m) => m,
            None => return None,
        };
        Some(n0)
    }

    open spec fn ser_fits(&self, cap: int) -> bool {
        &&& 0 <= cap && self.title.ser_fits(cap - (0))
    }

    fn serialize(self, buf: &mut [u8], fds: &mut Vec<Fd>) -> (r: Result<usize, &'static str>) {
        let ghost me = self;
        let ghost b0 = buf@;
        let mut n: usize = 0;
        n = n + ser_at(self.title, buf, n, fds);
        assert(fds@ =~= old(fds)@ + me.ser_fds());
        Ok(n)
    }

    proof fn lemma_fits(&self, cap: int) {
        self.title.lemma_fits(cap - (0));
    }
}

impl DeepView for set_title {
    type V = (<String as DeepView>::V,);

    open spec fn deep_view(&self) -> (<String as DeepView>::V,) {
        (self.title.deep_view(),)
    }
}

impl Dsr for set_title {
    open spec fn dsr_spec(buf: Seq<u8>, fds: Seq<Fd>) -> Decoded<(<String as DeepView>::V,)> {
        match <String>::dsr_spec(buf, fds) {
            Decoded::Value(title, n0, q0) => Decoded::Value((title,), n0, q0),
            d => d.fail(),
        }
    }

    fn try_deserialize(buf: &[u8], fds: &mut Vec<Fd>) -> (r: Option<Result<(set_title, usize), &'static str>>) {
        let mut n: usize = 0;
        let rest = &buf[n..buf.len()];
        assert(rest@ =~= buf@.skip(n as int));
        assert(n == 0 ==> rest@ =~= buf@);
        let (title, m) = match <String>::try_deserialize(rest, fds) {
            Some(Ok(p)) => p,
            Some(Err(e)) => return Some(Err(e)),
            None => return None,
        };
        n = n + m;
        Some(Ok((set_title { title }, n)))
    }
}

impl Codec for set_title {
    open spec fn rt_ok(&self) -> bool {
        &&& self.title.rt_ok()
    }

    proof fn lemma_roundtrip(&self, tail: Seq<u8>, base: Seq<Fd>) {
        let b0 = self.title.ser_bytes();
        let d0 = self.title.ser_fds();
        let s1 = tail;
        let s0 = b0 + s1;
        let buf = self.ser_bytes() + tail;
        assert(buf =~= s0);
        assert(buf.skip(0) =~= s0);
        assert(self.ser_fds() =~= Seq::<Fd>::empty());
        assert(base + self.ser_fds().reverse() =~= base);
        assert(d0 =~= Seq::<Fd>::empty());
        assert(base + d0.reverse() =~= base);
        self.title.lemma_roundtrip(s1, base);
    }
}

impl set_title {
    /// The arguments are read in the protocol's order, `title`: the bytes
    /// and descriptors written for such arguments, one after the other,
    /// decode to exactly those arguments.
    pub proof fn lemma_layout(title: String, rest: Seq<u8>, queue: Seq<Fd>)
        requires
            title.ser_ok(),
            title.rt_ok(),
            title.ser_bytes().len() <= usize::MAX,
        ensures
            ({
                let bytes = title.ser_bytes();
                let fds = title.ser_fds();
                set_title::dsr_spec(bytes + rest, queue + fds.reverse()) == Decoded::Value(
                    (title.deep_view(),),
                    bytes.len(),
                    queue,
                )
            }),
    {
        let m = set_title { title };
        m.lemma_roundtrip(rest, queue);
    }

    /// The message creates no object.
    pub proof fn lemma_creates(&self)
        ensures
            self.created_id() is None,
    {
    }
}

impl Msg<Obj> for set_title {
    open spec fn opcode() -> u16 {
        2
    }

    open spec fn since_version() -> u32 {
        1
    }

    open spec fn created_id(&self) -> Option<u32> {
        None
    }

    open spec fn created_destructor(&self) -> Option<u16> {
        None
    }

    fn op() -> (r: u16) {
        2
    }

    fn since() -> u32 {
        1
    }

    fn new_id(&self) -> (r: Option<(u32, ObjMeta)>) {
        None
    }
}

impl Request<Obj> for set_title {

}

/// set application ID
///
/// Set an application identifier for the surface.
///
/// The app ID identifies the general class of applications to which
/// the surface belongs. The compositor can use this to group multiple
/// surfaces together, or to determine how to launch a new application.
///
/// For D-Bus activatable applications, the app ID is used as the D-Bus
/// service name.
///
/// The compositor shell will try to group application surfaces together
/// by their app ID. As a best practice, it is suggested to select app
/// ID's that match the basename of the application's .desktop file.
/// For example, "org.freedesktop.FooViewer" where the .desktop file is
/// "org.freedesktop.FooViewer.desktop".
///
/// Like other properties, a set_app_id request can be sent after the
/// xdg_toplevel has been mapped to update the property.
///
/// See the desktop-entry specification [0] for more details on
/// application identifiers and how they relate to well-known D-Bus
/// names and .desktop files.
///
/// [0] https://standards.freedesktop.org/desktop-entry-spec/
///
#[derive(Debug)]
pub struct set_app_id {
    //
    pub app_id: String,
}

impl Ser for set_app_id {
    open spec fn ser_ok(&self) -> bool {
        &&& self.app_id.ser_ok()
        &&& self.ser_bytes().len() <= usize::MAX
    }

    open spec fn ser_bytes(&self) -> Seq<u8> {
        self.app_id.ser_bytes()
    }

    open spec fn ser_fds(&self) -> Seq<Fd> {
        self.app_id.ser_fds()
    }

    fn wire_len(&self) -> (n: usize) {
        self.app_id.wire_len()
    }

    fn checked_len(&self) -> (r: Option<usize>) {
        let n0 = match self.app_id.checked_len() {
            Some(m) => m,
            None => return None,
        };
        Some(n0)
    }

    open spec fn ser_fits(&self, cap: int) -> bool {
        &&& 0 <= cap && self.app_id.ser_fits(cap - (0))
    }

    fn serialize(self, buf: &mut [u8], fds: &mut Vec<Fd>) -> (r: Result<usize, &'static str>) {
        let ghost me = self;
        let ghost b0 = buf@;
        let mut n: usize = 0;
        n = n + ser_at(self.app_id, buf, n, fds);
        assert(fds@ =~= old(fds)@ + me.ser_fds());
        Ok(n)
    }

    proof fn lemma_fits(&self, cap: int) {
        self.app_id.lemma_fits(cap - (0));
    }
}

impl DeepView for set_app_id {
    type V = (<String as DeepView>::V,);

    open spec fn deep_view(&self) -> (<String as DeepView>::V,) {
        (self.app_id.deep_view(),)
    }
}

impl Dsr for set_app_id {
    open spec fn dsr_spec(buf: Seq<u8>, fds: Seq<Fd>) -> Decoded<(<String as DeepView>::V,)> {
        match <String>::dsr_spec(buf, fds) {
            Decoded::Value(app_id, n0, q0) => Decoded::Value((app_id,), n0, q0),
            d => d.fail(),
        }
    }

    fn try_deserialize(buf: &[u8], fds: &mut Vec<Fd>) -> (r: Option<Result<(set_app_id, usize), &'static str>>) {
        let mut n: usize = 0;
        let rest = &buf[n..buf.len()];
        assert(rest@ =~= buf@.skip(n as int));
        assert(n == 0 ==> rest@ =~= buf@);
        let (app_id, m) = match <String>::try_deserialize(rest, fds) {
            Some(Ok(p)) => p,
            Some(Err(e)) => return Some(Err(e)),
            None => return None,
        };
        n = n + m;
        Some(Ok((set_app_id { app_id }, n)))
    }
}

impl Codec for set_app_id {
    open spec fn rt_ok(&self) -> bool {
        &&& self.app_id.rt_ok()
    }

    proof fn lemma_roundtrip(&self, tail: Seq<u8>, base: Seq<Fd>) {
        let b0 = self.app_id.ser_bytes();
        let d0 = self.app_id.ser_fds();
        let s1 = tail;
        let s0 = b0 + s1;
        let buf = self.ser_bytes() + tail;
        assert(buf =~= s0);
        assert(buf.skip(0) =~= s0);
        assert(self.ser_fds() =~= Seq::<Fd>::empty());
        assert(base + self.ser_fds().reverse() =~= base);
        assert(d0 =~= Seq::<Fd>::empty());
        assert(base + d0.reverse() =~= base);
        self.app_id.lemma_roundtrip(s1, base);
    }
}

impl set_app_id {
    /// The arguments are read in the protocol's order, `app_id`: the bytes
    /// and descriptors written for such arguments, one after the other,
    /// decode to exactly those arguments.
    pub proof fn lemma_layout(app_id: String, rest: Seq<u8>, queue: Seq<Fd>)
        requires
            app_id.ser_ok(),
            app_id.rt_ok(),
            app_id.ser_bytes().len() <= usize::MAX,
        ensures
            ({
                let bytes = app_id.ser_bytes();
                let fds = app_id.ser_fds();
                set_app_id::dsr_spec(bytes + rest, queue + fds.reverse()) == Decoded::Value(
                    (app_id.deep_view(),),
                    bytes.len(),
                    queue,
                )
            }),
    {
        let m = set_app_id { app_id };
        m.lemma_roundtrip(rest, queue);
    }

    /// The message creates no object.
    pub proof fn lemma_creates(&self)
        ensures
            self.created_id() is None,
    {
    }
}

impl Msg<Obj> for set_app_id {
    open spec fn opcode() -> u16 {
        3
    }

    open spec fn since_version() -> u32 {
        1
    }

    open spec fn created_id(&self) -> Option<u32> {
        None
    }

    open spec fn created_destructor(&self) -> Option<u16> {
        None
    }

    fn op() -> (r: u16) {
        3
    }

    fn since() -> u32 {
        1
    }

    fn new_id(&self) -> (r: Option<(u32, ObjMeta)>) {
        None
    }
}

impl Request<Obj> for set_app_id {

}

/// show the window menu
///
/// Clients implementing client-side decorations might want to show
/// a context menu when right-clicking on the decorations, giving the
/// user a menu that they can use to maximize or minimize the window.
///
/// This request asks the compositor to pop up such a window menu at
/// the given position, relative to the local surface coordinates of
/// the parent surface. There are no guarantees as to what menu items
/// the window menu contains, or even if a window menu will be drawn
/// at all.
///
/// This request must be used in response to some sort of user action
/// like a button press, key press, or touch down event.
///
#[derive(Debug)]
pub struct show_window_menu {
    // the wl_seat of the user event
    pub seat: object<crate::wl_seat::Obj>,
    // the serial of the user event
    pub serial: u32,
    // the x position to pop up the window menu at
    pub x: i32,
    // the y position to pop up the window menu at
    pub y: i32,
}

impl Ser for show_window_menu {
    open spec fn ser_ok(&self) -> bool {
        &&& self.seat.ser_ok()
        &&& self.serial.ser_ok()
        &&& self.x.ser_ok()
        &&& self.y.ser_ok()
        &&& self.ser_bytes().len() <= usize::MAX
    }

    open spec fn ser_bytes(&self) -> Seq<u8> {
        self.seat.ser_bytes() + self.serial.ser_bytes() + self.x.ser_bytes() + self.y.ser_bytes()
    }

    open spec fn ser_fds(&self) -> Seq<Fd> {
        self.seat.ser_fds() + self.serial.ser_fds() + self.x.ser_fds() + self.y.ser_fds()
    }

    fn wire_len(&self) -> (n: usize) {
        self.seat.wire_len() + self.serial.wire_len() + self.x.wire_len() + self.y.wire_len()
    }

    fn checked_len(&self) -> (r: Option<usize>) {
        let n0 = match self.seat.checked_len() {
            Some(m) => m,
            None => return None,
        };
        let n1 = match self.serial.checked_len() {
            Some(m) => match n0.checked_add(m) {
                Some(t) => t,
                None => return None,
            },
            None => return None,
        };
        let n2 = match self.x.checked_len() {
            Some(m) => match n1.checked_add(m) {
                Some(t) => t,
                None => return None,
            },
            None => return None,
        };
        let n3 = match self.y.checked_len() {
            Some(m) => match n2.checked_add(m) {
                Some(t) => t,
                None => return None,
            },
            None => return None,
        };
        Some(n3)
    }

    open spec fn ser_fits(&self, cap: int) -> bool {
        &&& 0 <= cap && self.seat.ser_fits(cap - (0))
        &&& self.seat.ser_bytes().len() <= cap && self.serial.ser_fits(cap - (self.seat.ser_bytes().len()))
        &&& self.seat.ser_bytes().len() + self.serial.ser_bytes().len() <= cap && self.x.ser_fits(cap - (self.seat.ser_bytes().len() + self.serial.ser_bytes().len()))
        &&& self.seat.ser_bytes().len() + self.serial.ser_bytes().len() + self.x.ser_bytes().len() <= cap && self.y.ser_fits(cap - (self.seat.ser_bytes().len() + self.serial.ser_bytes().len() + self.x.ser_bytes().len()))
    }

    fn serialize(self, buf: &mut [u8], fds: &mut Vec<Fd>) -> (r: Result<usize, &'static str>) {
        let ghost me = self;
        let ghost b0 = buf@;
        let mut n: usize = 0;
        n = n + ser_at(self.seat, buf, n, fds);
        assert(fds@ =~= old(fds)@ + me.seat.ser_fds());
        n = n + ser_at(self.serial, buf, n, fds);
        proof {
            lemma_write_then(b0, 0, me.seat.ser_bytes(), me.serial.ser_bytes());
        }
        assert(fds@ =~= old(fds)@ + me.seat.ser_fds() + me.serial.ser_fds());
        n = n + ser_at(self.x, buf, n, fds);
        proof {
            lemma_write_then(b0, 0, me.seat.ser_bytes() + me.serial.ser_bytes(), me.x.ser_bytes());
        }
        assert(fds@ =~= old(fds)@ + me.seat.ser_fds() + me.serial.ser_fds() + me.x.ser_fds());
        n = n + ser_at(self.y, buf, n, fds);
        proof {
            lemma_write_then(b0, 0, me.seat.ser_bytes() + me.serial.ser_bytes() + me.x.ser_bytes(), me.y.ser_bytes());
        }
        assert(fds@ =~= old(fds)@ + me.ser_fds());
        Ok(n)
    }

    proof fn lemma_fits(&self, cap: int) {
        self.seat.lemma_fits(cap - (0));
        self.serial.lemma_fits(cap - (self.seat.ser_bytes().len()));
        self.x.lemma_fits(cap - (self.seat.ser_bytes().len() + self.serial.ser_bytes().len()));
        self.y.lemma_fits(cap - (self.seat.ser_bytes().len() + self.serial.ser_bytes().len() + self.x.ser_bytes().len()));
    }
}

impl DeepView for show_window_menu {
    type V = (<object<crate::wl_seat::Obj> as DeepView>::V, <u32 as DeepView>::V, <i32 as DeepView>::V, <i32 as DeepView>::V,);

    open spec fn deep_view(&self) -> (<object<crate::wl_seat::Obj> as DeepView>::V, <u32 as DeepView>::V, <i32 as DeepView>::V, <i32 as DeepView>::V,) {
        (self.seat.deep_view(), self.serial.deep_view(), self.x.deep_view(), self.y.deep_view(),)
    }
}

impl Dsr for show_window_menu {
    open spec fn dsr_spec(buf: Seq<u8>, fds: Seq<Fd>) -> Decoded<(<object<crate::wl_seat::Obj> as DeepView>::V, <u32 as DeepView>::V, <i32 as DeepView>::V, <i32 as DeepView>::V,)> {
        match <object<crate::wl_seat::Obj>>::dsr_spec(buf, fds) {
            Decoded::Value(seat, n0, q0) => {
                match <u32>::dsr_spec(buf.skip(n0 as int), q0) {
                    Decoded::Value(serial, m1, q1) => {
                        let n1 = n0 + m1;
                        match <i32>::dsr_spec(buf.skip(n1 as int), q1) {
                            Decoded::Value(x, m2, q2) => {
                                let n2 = n1 + m2;
                                match <i32>::dsr_spec(buf.skip(n2 as int), q2) {
                                    Decoded::Value(y, m3, q3) => {
                                        let n3 = n2 + m3;
                                        Decoded::Value((seat, serial, x, y,), n3, q3)
                                    },
                                    d => d.fail(),
                                }
                            },
                            d => d.fail(),
                        }
                    },
                    d => d.fail(),
                }
            },
            d => d.fail(),
        }
    }

    fn try_deserialize(buf: &[u8], fds: &mut Vec<Fd>) -> (r: Option<Result<(show_window_menu, usize), &'static str>>) {
        let mut n: usize = 0;
        let rest = &buf[n..buf.len()];
        assert(rest@ =~= buf@.skip(n as int));
        assert(n == 0 ==> rest@ =~= buf@);
        let (seat, m) = match <object<crate::wl_seat::Obj>>::try_deserialize(rest, fds) {
            Some(Ok(p)) => p,
            Some(Err(e)) => return Some(Err(e)),
            None => return None,
        };
        n = n + m;
        let rest = &buf[n..buf.len()];
        assert(rest@ =~= buf@.skip(n as int));
        assert(n == 0 ==> rest@ =~= buf@);
        let (serial, m) = match <u32>::try_deserialize(rest, fds) {
            Some(Ok(p)) => p,
            Some(Err(e)) => return Some(Err(e)),
            None => return None,
        };
        n = n + m;
        let rest = &buf[n..buf.len()];
        assert(rest@ =~= buf@.skip(n as int));
        assert(n == 0 ==> rest@ =~= buf@);
        let (x, m) = match <i32>::try_deserialize(rest, fds) {
            Some(Ok(p)) => p,
            Some(Err(e)) => return Some(Err(e)),
            None => return None,
        };
        n = n + m;
        let rest = &buf[n..buf.len()];
        assert(rest@ =~= buf@.skip(n as int));
        assert(n == 0 ==> rest@ =~= buf@);
        let (y, m) = match <i32>::try_deserialize(rest, fds) {
            Some(Ok(p)) => p,
            Some(Err(e)) => return Some(Err(e)),
            None => return None,
        };
        n = n + m;
        Some(Ok((show_window_menu { seat, serial, x, y }, n)))
    }
}

impl Codec for show_window_menu {
    open spec fn rt_ok(&self) -> bool {
        &&& self.seat.rt_ok()
        &&& self.serial.rt_ok()
        &&& self.x.rt_ok()
        &&& self.y.rt_ok()
    }

    proof fn lemma_roundtrip(&self, tail: Seq<u8>, base: Seq<Fd>) {
        let b0 = self.seat.ser_bytes();
        let b1 = self.serial.ser_bytes();
        let b2 = self.x.ser_bytes();
        let b3 = self.y.ser_bytes();
        let d0 = self.seat.ser_fds();
        let d1 = self.serial.ser_fds();
        let d2 = self.x.ser_fds();
        let d3 = self.y.ser_fds();
        let s4 = tail;
        let s3 = b3 + s4;
        let s2 = b2 + s3;
        let s1 = b1 + s2;
        let s0 = b0 + s1;
        let buf = self.ser_bytes() + tail;
        assert(buf =~= s0);
        assert(buf.skip(0) =~= s0);
        assert(self.ser_fds() =~= Seq::<Fd>::empty());
        assert(base + self.ser_fds().reverse() =~= base);
        assert(d0 =~= Seq::<Fd>::empty());
        assert(base + d0.reverse() =~= base);
        self.seat.lemma_roundtrip(s1, base);
        assert(buf.skip((b0.len()) as int) == s1) by {
            lemma_skip_step(buf, (0) as int, b0, s1);
        }
        assert(d1 =~= Seq::<Fd>::empty());
        assert(base + d1.reverse() =~= base);
        self.serial.lemma_roundtrip(s2, base);
        assert(buf.skip((b0.len() + b1.len()) as int) == s2) by {
            lemma_skip_step(buf, (b0.len()) as int, b1, s2);
        }
        assert(d2 =~= Seq::<Fd>::empty());
        assert(base + d2.reverse() =~= base);
        self.x.lemma_roundtrip(s3, base);
        assert(buf.skip((b0.len() + b1.len() + b2.len()) as int) == s3) by {
            lemma_skip_step(buf, (b0.len() + b1.len()) as int, b2, s3);
        }
        assert(d3 =~= Seq::<Fd>::empty());
        assert(base + d3.reverse() =~= base);
        self.y.lemma_roundtrip(s4, base);
    }
}

impl show_window_menu {
    /// The arguments are read in the protocol's order, `seat`, then `serial`, then `x`, then `y`: the bytes
    /// and descriptors written for such arguments, one after the other,
    /// decode to exactly those arguments.
    pub proof fn lemma_layout(seat: object<crate::wl_seat::Obj>, serial: u32, x: i32, y: i32, rest: Seq<u8>, queue: Seq<Fd>)
        requires
            seat.ser_ok(),
            seat.rt_ok(),
            serial.ser_ok(),
            serial.rt_ok(),
            x.ser_ok(),
            x.rt_ok(),
            y.ser_ok(),
            y.rt_ok(),
            seat.ser_bytes().len() + serial.ser_bytes().len() + x.ser_bytes().len() + y.ser_bytes().len() <= usize::MAX,
        ensures
            ({
                let bytes = seat.ser_bytes() + serial.ser_bytes() + x.ser_bytes() + y.ser_bytes();
                let fds = seat.ser_fds() + serial.ser_fds() + x.ser_fds() + y.ser_fds();
                show_window_menu::dsr_spec(bytes + rest, queue + fds.reverse()) == Decoded::Value(
                    (seat.deep_view(), serial.deep_view(), x.deep_view(), y.deep_view(),),
                    bytes.len(),
                    queue,
                )
            }),
    {
        let m = show_window_menu { seat, serial, x, y };
        m.lemma_roundtrip(rest, queue);
    }

    /// The message creates no object.
    pub proof fn lemma_creates(&self)
        ensures
            self.created_id() is None,
    {
    }
}

impl Msg<Obj> for show_window_menu {
    open spec fn opcode() -> u16 {
        4
    }

    open spec fn since_version() -> u32 {
        1
    }

    open spec fn created_id(&self) -> Option<u32> {
        None
    }

    open spec fn created_destructor(&self) -> Option<u16> {
        None
    }

    fn op() -> (r: u16) {
        4
    }

    fn since() -> u32 {
        1
    }

    fn new_id(&self) -> (r: Option<(u32, ObjMeta)>) {
        None
    }
}

impl Request<Obj> for show_window_menu {

}

/// start an interactive move
///
/// Start an interactive, user-driven move of the surface.
///
/// This request must be used in response to some sort of user action
/// like a button press, key press, or touch down event. The passed
/// serial is used to determine the type of interactive move (touch,
/// pointer, etc).
///
/// The server may ignore move requests depending on the state of
/// the surface (e.g. fullscreen or maximized), or if the passed serial
/// is no longer valid.
///
/// If triggered, the surface will lose the focus of the device
/// (wl_pointer, wl_touch, etc) used for the move. It is up to the
/// compositor to visually indicate that the move is taking place, such as
/// updating a pointer cursor, during the move. There is no guarantee
/// that the device focus will return when the move is completed.
///
#[derive(Debug)]
pub struct move_ {
    // the wl_seat of the user event
    pub seat: object<crate::wl_seat::Obj>,
    // the serial of the user event
    pub serial: u32,
}

impl Ser for move_ {
    open spec fn ser_ok(&self) -> bool {
        &&& self.seat.ser_ok()
        &&& self.serial.ser_ok()
        &&& self.ser_bytes().len() <= usize::MAX
    }

    open spec fn ser_bytes(&self) -> Seq<u8> {
        self.seat.ser_bytes() + self.serial.ser_bytes()
    }

    open spec fn ser_fds(&self) -> Seq<Fd> {
        self.seat.ser_fds() + self.serial.ser_fds()
    }

    fn wire_len(&self) -> (n: usize) {
        self.seat.wire_len() + self.serial.wire_len()
    }

    fn checked_len(&self) -> (r: Option<usize>) {
        let n0 = match self.seat.checked_len() {
            Some(m) => m,
            None => return None,
        };
        let n1 = match self.serial.checked_len() {
            Some(m) => match n0.checked_add(m) {
                Some(t) => t,
                None => return None,
            },
            None => return None,
        };
        Some(n1)
    }

    open spec fn ser_fits(&self, cap: int) -> bool {
        &&& 0 <= cap && self.seat.ser_fits(cap - (0))
        &&& self.seat.ser_bytes().len() <= cap && self.serial.ser_fits(cap - (self.seat.ser_bytes().len()))
    }

    fn serialize(self, buf: &mut [u8], fds: &mut Vec<Fd>) -> (r: Result<usize, &'static str>) {
        let ghost me = self;
        let ghost b0 = buf@;
        let mut n: usize = 0;
        n = n + ser_at(self.seat, buf, n, fds);
        assert(fds@ =~= old(fds)@ + me.seat.ser_fds());
        n = n + ser_at(self.serial, buf, n, fds);
        proof {
            lemma_write_then(b0, 0, me.seat.ser_bytes(), me.serial.ser_bytes());
        }
        assert(fds@ =~= old(fds)@ + me.ser_fds());
        Ok(n)
    }

    proof fn lemma_fits(&self, cap: int) {
        self.seat.lemma_fits(cap - (0));
        self.serial.lemma_fits(cap - (self.seat.ser_bytes().len()));
    }
}

impl DeepView for move_ {
    type V = (<object<crate::wl_seat::Obj> as DeepView>::V, <u32 as DeepView>::V,);

    open spec fn deep_view(&self) -> (<object<crate::wl_seat::Obj> as DeepView>::V, <u32 as DeepView>::V,) {
        (self.seat.deep_view(), self.serial.deep_view(),)
    }
}

impl Dsr for move_ {
    open spec fn dsr_spec(buf: Seq<u8>, fds: Seq<Fd>) -> Decoded<(<object<crate::wl_seat::Obj> as DeepView>::V, <u32 as DeepView>::V,)> {
        match <object<crate::wl_seat::Obj>>::dsr_spec(buf, fds) {
            Decoded::Value(seat, n0, q0) => {
                match <u32>::dsr_spec(buf.skip(n0 as int), q0) {
                    Decoded::Value(serial, m1, q1) => {
                        let n1 = n0 + m1;
                        Decoded::Value((seat, serial,), n1, q1)
                    },
                    d => d.fail(),
                }
            },
            d => d.fail(),
        }
    }

    fn try_deserialize(buf: &[u8], fds: &mut Vec<Fd>) -> (r: Option<Result<(move_, usize), &'static str>>) {
        let mut n: usize = 0;
        let rest = &buf[n..buf.len()];
        assert(rest@ =~= buf@.skip(n as int));
        assert(n == 0 ==> rest@ =~= buf@);
        let (seat, m) = match <object<crate::wl_seat::Obj>>::try_deserialize(rest, fds) {
            Some(Ok(p)) => p,
            Some(Err(e)) => return Some(Err(e)),
            None => return None,
        };
        n = n + m;
        let rest = &buf[n..buf.len()];
        assert(rest@ =~= buf@.skip(n as int));
        assert(n == 0 ==> rest@ =~= buf@);
        let (serial, m) = match <u32>::try_deserialize(rest, fds) {
            Some(Ok(p)) => p,
            Some(Err(e)) => return Some(Err(e)),
            None => return None,
        };
        n = n + m;
        Some(Ok((move_ { seat, serial }, n)))
    }
}

impl Codec for move_ {
    open spec fn rt_ok(&self) -> bool {
        &&& self.seat.rt_ok()
        &&& self.serial.rt_ok()
    }

    proof fn lemma_roundtrip(&self, tail: Seq<u8>, base: Seq<Fd>) {
        let b0 = self.seat.ser_bytes();
        let b1 = self.serial.ser_bytes();
        let d0 = self.seat.ser_fds();
        let d1 = self.serial.ser_fds();
        let s2 = tail;
        let s1 = b1 + s2;
        let s0 = b0 + s1;
        let buf = self.ser_bytes() + tail;
        assert(buf =~= s0);
        assert(buf.skip(0) =~= s0);
        assert(self.ser_fds() =~= Seq::<Fd>::empty());
        assert(base + self.ser_fds().reverse() =~= base);
        assert(d0 =~= Seq::<Fd>::empty());
        assert(base + d0.reverse() =~= base);
        self.seat.lemma_roundtrip(s1, base);
        assert(buf.skip((b0.len()) as int) == s1) by {
            lemma_skip_step(buf, (0) as int, b0, s1);
        }
        assert(d1 =~= Seq::<Fd>::empty());
        assert(base + d1.reverse() =~= base);
        self.serial.lemma_roundtrip(s2, base);
    }
}

impl move_ {
    /// The arguments are read in the protocol's order, `seat`, then `serial`: the bytes
    /// and descriptors written for such arguments, one after the other,
    /// decode to exactly those arguments.
    pub proof fn lemma_layout(seat: object<crate::wl_seat::Obj>, serial: u32, rest: Seq<u8>, queue: Seq<Fd>)
        requires
            seat.ser_ok(),
            seat.rt_ok(),
            serial.ser_ok(),
            serial.rt_ok(),
            seat.ser_bytes().len() + serial.ser_bytes().len() <= usize::MAX,
        ensures
            ({
                let bytes = seat.ser_bytes() + serial.ser_bytes();
                let fds = seat.ser_fds() + serial.ser_fds();
                move_::dsr_spec(bytes + rest, queue + fds.reverse()) == Decoded::Value(
                    (seat.deep_view(), serial.deep_view(),),
                    bytes.len(),
                    queue,
                )
            }),
    {
        let m = move_ { seat, serial };
        m.lemma_roundtrip(rest, queue);
    }

    /// The message creates no object.
    pub proof fn lemma_creates(&self)
        ensures
            self.created_id() is None,
    {
    }
}

impl Msg<Obj> for move_ {
    open spec fn opcode() -> u16 {
        5
    }

    open spec fn since_version() -> u32 {
        1
    }

    open spec fn created_id(&self) -> Option<u32> {
        None
    }

    open spec fn created_destructor(&self) -> Option<u16> {
        None
    }

    fn op() -> (r: u16) {
        5
    }

    fn since() -> u32 {
        1
    }

    fn new_id(&self) -> (r: Option<(u32, ObjMeta)>) {
        None
    }
}

impl Request<Obj> for move_ {

}

/// start an interactive resize
///
/// Start a user-driven, interactive resize of the surface.
///
/// This request must be used in response to some sort of user action
/// like a button press, key press, or touch down event. The passed
/// serial is used to determine the type of interactive resize (touch,
/// pointer, etc).
///
/// The server may ignore resize requests depending on the state of
/// the surface (e.g. fullscreen or maximized).
///
/// If triggered, the client will receive configure events with the
/// "resize" state enum value and the expected sizes. See the "resize"
/// enum value for more details about what is required. The client
/// must also acknowledge configure events using "ack_configure". After
/// the resize is completed, the client will receive another "configure"
/// event without the resize state.
///
/// If triggered, the surface also will lose the focus of the device
/// (wl_pointer, wl_touch, etc) used for the resize. It is up to the
/// compositor to visually indicate that the resize is taking place,
/// such as updating a pointer cursor, during the resize. There is no
/// guarantee that the device focus will return when the resize is
/// completed.
///
/// The edges parameter specifies how the surface should be resized, and
/// is one of the values of the resize_edge enum. Values not matching
/// a variant of the enum will cause the invalid_resize_edge protocol error.
/// The compositor may use this information to update the surface position
/// for example when dragging the top left corner. The compositor may also
/// use this information to adapt its behavior, e.g. choose an appropriate
/// cursor image.
///
#[derive(Debug)]
pub struct resize {
    // the wl_seat of the user event
    pub seat: object<crate::wl_seat::Obj>,
    // the serial of the user event
    pub serial: u32,
    // which edge or corner is being dragged
    pub edges: super::resize_edge,
}

impl Ser for resize {
    open spec fn ser_ok(&self) -> bool {
        &&& self.seat.ser_ok()
        &&& self.serial.ser_ok()
        &&& self.edges.ser_ok()
        &&& self.ser_bytes().len() <= usize::MAX
    }

    open spec fn ser_bytes(&self) -> Seq<u8> {
        self.seat.ser_bytes() + self.serial.ser_bytes() + self.edges.ser_bytes()
    }

    open spec fn ser_fds(&self) -> Seq<Fd> {
        self.seat.ser_fds() + self.serial.ser_fds() + self.edges.ser_fds()
    }

    fn wire_len(&self) -> (n: usize) {
        self.seat.wire_len() + self.serial.wire_len() + self.edges.wire_len()
    }

    fn checked_len(&self) -> (r: Option<usize>) {
        let n0 = match self.seat.checked_len() {
            Some(m) => m,
            None => return None,
        };
        let n1 = match self.serial.checked_len() {
            Some(m) => match n0.checked_add(m) {
                Some(t) => t,
                None => return None,
            },
            None => return None,
        };
        let n2 = match self.edges.checked_len() {
            Some(m) => match n1.checked_add(m) {
                Some(t) => t,
                None => return None,
            },
            None => return None,
        };
        Some(n2)
    }

    open spec fn ser_fits(&self, cap: int) -> bool {
        &&& 0 <= cap && self.seat.ser_fits(cap - (0))
        &&& self.seat.ser_bytes().len() <= cap && self.serial.ser_fits(cap - (self.seat.ser_bytes().len()))
        &&& self.seat.ser_bytes().len() + self.serial.ser_bytes().len() <= cap && self.edges.ser_fits(cap - (self.seat.ser_bytes().len() + self.serial.ser_bytes().len()))
    }

    fn serialize(self, buf: &mut [u8], fds: &mut Vec<Fd>) -> (r: Result<usize, &'static str>) {
        let ghost me = self;
        let ghost b0 = buf@;
        let mut n: usize = 0;
        n = n + ser_at(self.seat, buf, n, fds);
        assert(fds@ =~= old(fds)@ + me.seat.ser_fds());
        n = n + ser_at(self.serial, buf, n, fds);
        proof {
            lemma_write_then(b0, 0, me.seat.ser_bytes(), me.serial.ser_bytes());
        }
        assert(fds@ =~= old(fds)@ + me.seat.ser_fds() + me.serial.ser_fds());
        n = n + ser_at(self.edges, buf, n, fds);
        proof {
            lemma_write_then(b0, 0, me.seat.ser_bytes() + me.serial.ser_bytes(), me.edges.ser_bytes());
        }
        assert(fds@ =~= old(fds)@ + me.ser_fds());
        Ok(n)
    }

    proof fn lemma_fits(&self, cap: int) {
        self.seat.lemma_fits(cap - (0));
        self.serial.lemma_fits(cap - (self.seat.ser_bytes().len()));
        self.edges.lemma_fits(cap - (self.seat.ser_bytes().len() + self.serial.ser_bytes().len()));
    }
}

impl DeepView for resize {
    type V = (<object<crate::wl_seat::Obj> as DeepView>::V, <u32 as DeepView>::V, <super::resize_edge as DeepView>::V,);

    open spec fn deep_view(&self) -> (<object<crate::wl_seat::Obj> as DeepView>::V, <u32 as DeepView>::V, <super::resize_edge as DeepView>::V,) {
        (self.seat.deep_view(), self.serial.deep_view(), self.edges.deep_view(),)
    }
}

impl Dsr for resize {
    open spec fn dsr_spec(buf: Seq<u8>, fds: Seq<Fd>) -> Decoded<(<object<crate::wl_seat::Obj> as DeepView>::V, <u32 as DeepView>::V, <super::resize_edge as DeepView>::V,)> {
        match <object<crate::wl_seat::Obj>>::dsr_spec(buf, fds) {
            Decoded::Value(seat, n0, q0) => {
                match <u32>::dsr_spec(buf.skip(n0 as int), q0) {
                    Decoded::Value(serial, m1, q1) => {
                        let n1 = n0 + m1;
                        match <super::resize_edge>::dsr_spec(buf.skip(n1 as int), q1) {
                            Decoded::Value(edges, m2, q2) => {
                                let n2 = n1 + m2;
                                Decoded::Value((seat, serial, edges,), n2, q2)
                            },
                            d => d.fail(),
                        }
                    },
                    d => d.fail(),
                }
            },
            d => d.fail(),
        }
    }

    fn try_deserialize(buf: &[u8], fds: &mut Vec<Fd>) -> (r: Option<Result<(resize, usize), &'static str>>) {
        let mut n: usize = 0;
        let rest = &buf[n..buf.len()];
        assert(rest@ =~= buf@.skip(n as int));
        assert(n == 0 ==> rest@ =~= buf@);
        let (seat, m) = match <object<crate::wl_seat::Obj>>::try_deserialize(rest, fds) {
            Some(Ok(p)) => p,
            Some(Err(e)) => return Some(Err(e)),
            None => return None,
        };
        n = n + m;
        let rest = &buf[n..buf.len()];
        assert(rest@ =~= buf@.skip(n as int));
        assert(n == 0 ==> rest@ =~= buf@);
        let (serial, m) = match <u32>::try_deserialize(rest, fds) {
            Some(Ok(p)) => p,
            Some(Err(e)) => return Some(Err(e)),
            None => return None,
        };
        n = n + m;
        let rest = &buf[n..buf.len()];
        assert(rest@ =~= buf@.skip(n as int));
        assert(n == 0 ==> rest@ =~= buf@);
        let (edges, m) = match <super::resize_edge>::try_deserialize(rest, fds) {
            Some(Ok(p)) => p,
            Some(Err(e)) => return Some(Err(e)),
            None => return None,
        };
        n = n + m;
        Some(Ok((resize { seat, serial, edges }, n)))
    }
}

impl Codec for resize {
    open spec fn rt_ok(&self) -> bool {
        &&& self.seat.rt_ok()
        &&& self.serial.rt_ok()
        &&& self.edges.rt_ok()
    }

    proof fn lemma_roundtrip(&self, tail: Seq<u8>, base: Seq<Fd>) {
        let b0 = self.seat.ser_bytes();
        let b1 = self.serial.ser_bytes();
        let b2 = self.edges.ser_bytes();
        let d0 = self.seat.ser_fds();
        let d1 = self.serial.ser_fds();
        let d2 = self.edges.ser_fds();
        let s3 = tail;
        let s2 = b2 + s3;
        let s1 = b1 + s2;
        let s0 = b0 + s1;
        let buf = self.ser_bytes() + tail;
        assert(buf =~= s0);
        assert(buf.skip(0) =~= s0);
        assert(self.ser_fds() =~= Seq::<Fd>::empty());
        assert(base + self.ser_fds().reverse() =~= base);
        assert(d0 =~= Seq::<Fd>::empty());
        assert(base + d0.reverse() =~= base);
        self.seat.lemma_roundtrip(s1, base);
        assert(buf.skip((b0.len()) as int) == s1) by {
            lemma_skip_step(buf, (0) as int, b0, s1);
        }
        assert(d1 =~= Seq::<Fd>::empty());
        assert(base + d1.reverse() =~= base);
        self.serial.lemma_roundtrip(s2, base);
        assert(buf.skip((b0.len() + b1.len()) as int) == s2) by {
            lemma_skip_step(buf, (b0.len()) as int, b1, s2);
        }
        assert(d2 =~= Seq::<Fd>::empty());
        assert(base + d2.reverse() =~= base);
        self.edges.lemma_roundtrip(s3, base);
    }
}

impl resize {
    /// The arguments are read in the protocol's order, `seat`, then `serial`, then `edges`: the bytes
    /// and descriptors written for such arguments, one after the other,
    /// decode to exactly those arguments.
    pub proof fn lemma_layout(seat: object<crate::wl_seat::Obj>, serial: u32, edges: super::resize_edge, rest: Seq<u8>, queue: Seq<Fd>)
        requires
            seat.ser_ok(),
            seat.rt_ok(),
            serial.ser_ok(),
            serial.rt_ok(),
            edges.ser_ok(),
            edges.rt_ok(),
            seat.ser_bytes().len() + serial.ser_bytes().len() + edges.ser_bytes().len() <= usize::MAX,
        ensures
            ({
                let bytes = seat.ser_bytes() + serial.ser_bytes() + edges.ser_bytes();
                let fds = seat.ser_fds() + serial.ser_fds() + edges.ser_fds();
                resize::dsr_spec(bytes + rest, queue + fds.reverse()) == Decoded::Value(
                    (seat.deep_view(), serial.deep_view(), edges.deep_view(),),
                    bytes.len(),
                    queue,
                )
            }),
    {
        let m = resize { seat, serial, edges };
        m.lemma_roundtrip(rest, queue);
    }

    /// The message creates no object.
    pub proof fn lemma_creates(&self)
        ensures
            self.created_id() is None,
    {
    }
}

impl Msg<Obj> for resize {
    open spec fn opcode() -> u16 {
        6
    }

    open spec fn since_version() -> u32 {
        1
    }

    open spec fn created_id(&self) -> Option<u32> {
        None
    }

    open spec fn created_destructor(&self) -> Option<u16> {
        None
    }

    fn op() -> (r: u16) {
        6
    }

    fn since() -> u32 {
        1
    }

    fn new_id(&self) -> (r: Option<(u32, ObjMeta)>) {
        None
    }
}

impl Request<Obj> for resize {

}

/// set the maximum size
///
/// Set a maximum size for the window.
///
/// The client can specify a maximum size so that the compositor does
/// not try to configure the window beyond this size.
///
/// The width and height arguments are in window geometry coordinates.
/// See xdg_surface.set_window_geometry.
///
/// Values set in this way are double-buffered. They will get applied
/// on the next commit.
///
/// The compositor can use this information to allow or disallow
/// different states like maximize or fullscreen and draw accurate
/// animations.
///
/// Similarly, a tiling window manager may use this information to
/// place and resize client windows in a more effective way.
///
/// The client should not rely on the compositor to obey the maximum
/// size. The compositor may decide to ignore the values set by the
/// client and request a larger size.
///
/// If never set, or a value of zero in the request, means that the
/// client has no expected maximum size in the given dimension.
/// As a result, a client wishing to reset the maximum size
/// to an unspecified state can use zero for width and height in the
/// request.
///
/// Requesting a maximum size to be smaller than the minimum size of
/// a surface is illegal and will result in an invalid_size error.
///
/// The width and height must be greater than or equal to zero. Using
/// strictly negative values for width or height will result in a
/// invalid_size error.
///
#[derive(Debug)]
pub struct set_max_size {
    //
    pub width: i32,
    //
    pub height: i32,
}

impl Ser for set_max_size {
    open spec fn ser_ok(&self) -> bool {
        &&& self.width.ser_ok()
        &&& self.height.ser_ok()
        &&& self.ser_bytes().len() <= usize::MAX
    }

    open spec fn ser_bytes(&self) -> Seq<u8> {
        self.width.ser_bytes() + self.height.ser_bytes()
    }

    open spec fn ser_fds(&self) -> Seq<Fd> {
        self.width.ser_fds() + self.height.ser_fds()
    }

    fn wire_len(&self) -> (n: usize) {
        self.width.wire_len() + self.height.wire_len()
    }

    fn checked_len(&self) -> (r: Option<usize>) {
        let n0 = match self.width.checked_len() {
            Some(m) => m,
            None => return None,
        };
        let n1 = match self.height.checked_len() {
            Some(m) => match n0.checked_add(m) {
                Some(t) => t,
                None => return None,
            },
            None => return None,
        };
        Some(n1)
    }

    open spec fn ser_fits(&self, cap: int) -> bool {
        &&& 0 <= cap && self.width.ser_fits(cap - (0))
        &&& self.width.ser_bytes().len() <= cap && self.height.ser_fits(cap - (self.width.ser_bytes().len()))
    }

    fn serialize(self, buf: &mut [u8], fds: &mut Vec<Fd>) -> (r: Result<usize, &'static str>) {
        let ghost me = self;
        let ghost b0 = buf@;
        let mut n: usize = 0;
        n = n + ser_at(self.width, buf, n, fds);
        assert(fds@ =~= old(fds)@ + me.width.ser_fds());
        n = n + ser_at(self.height, buf, n, fds);
        proof {
            lemma_write_then(b0, 0, me.width.ser_bytes(), me.height.ser_bytes());
        }
        assert(fds@ =~= old(fds)@ + me.ser_fds());
        Ok(n)
    }

    proof fn lemma_fits(&self, cap: int) {
        self.width.lemma_fits(cap - (0));
        self.height.lemma_fits(cap - (self.width.ser_bytes().len()));
    }
}

impl DeepView for set_max_size {
    type V = (<i32 as DeepView>::V, <i32 as DeepView>::V,);

    open spec fn deep_view(&self) -> (<i32 as DeepView>::V, <i32 as DeepView>::V,) {
        (self.width.deep_view(), self.height.deep_view(),)
    }
}

impl Dsr for set_max_size {
    open spec fn dsr_spec(buf: Seq<u8>, fds: Seq<Fd>) -> Decoded<(<i32 as DeepView>::V, <i32 as DeepView>::V,)> {
        match <i32>::dsr_spec(buf, fds) {
            Decoded::Value(width, n0, q0) => {
                match <i32>::dsr_spec(buf.skip(n0 as int), q0) {
                    Decoded::Value(height, m1, q1) => {
                        let n1 = n0 + m1;
                        Decoded::Value((width, height,), n1, q1)
                    },
                    d => d.fail(),
                }
            },
            d => d.fail(),
        }
    }

    fn try_deserialize(buf: &[u8], fds: &mut Vec<Fd>) -> (r: Option<Result<(set_max_size, usize), &'static str>>) {
        let mut n: usize = 0;
        let rest = &buf[n..buf.len()];
        assert(rest@ =~= buf@.skip(n as int));
        assert(n == 0 ==> rest@ =~= buf@);
        let (width, m) = match <i32>::try_deserialize(rest, fds) {
            Some(Ok(p)) => p,
            Some(Err(e)) => return Some(Err(e)),
            None => return None,
        };
        n = n + m;
        let rest = &buf[n..buf.len()];
        assert(rest@ =~= buf@.skip(n as int));
        assert(n == 0 ==> rest@ =~= buf@);
        let (height, m) = match <i32>::try_deserialize(rest, fds) {
            Some(Ok(p)) => p,
            Some(Err(e)) => return Some(Err(e)),
            None => return None,
        };
        n = n + m;
        Some(Ok((set_max_size { width, height }, n)))
    }
}

impl Codec for set_max_size {
    open spec fn rt_ok(&self) -> bool {
        &&& self.width.rt_ok()
        &&& self.height.rt_ok()
    }

    proof fn lemma_roundtrip(&self, tail: Seq<u8>, base: Seq<Fd>) {
        let b0 = self.width.ser_bytes();
        let b1 = self.height.ser_bytes();
        let d0 = self.width.ser_fds();
        let d1 = self.height.ser_fds();
        let s2 = tail;
        let s1 = b1 + s2;
        let s0 = b0 + s1;
        let buf = self.ser_bytes() + tail;
        assert(buf =~= s0);
        assert(buf.skip(0) =~= s0);
        assert(self.ser_fds() =~= Seq::<Fd>::empty());
        assert(base + self.ser_fds().reverse() =~= base);
        assert(d0 =~= Seq::<Fd>::empty());
        assert(base + d0.reverse() =~= base);
        self.width.lemma_roundtrip(s1, base);
        assert(buf.skip((b0.len()) as int) == s1) by {
            lemma_skip_step(buf, (0) as int, b0, s1);
        }
        assert(d1 =~= Seq::<Fd>::empty());
        assert(base + d1.reverse() =~= base);
        self.height.lemma_roundtrip(s2, base);
    }
}

impl set_max_size {
    /// The arguments are read in the protocol's order, `width`, then `height`: the bytes
    /// and descriptors written for such arguments, one after the other,
    /// decode to exactly those arguments.
    pub proof fn lemma_layout(width: i32, height: i32, rest: Seq<u8>, queue: Seq<Fd>)
        requires
            width.ser_ok(),
            width.rt_ok(),
            height.ser_ok(),
            height.rt_ok(),
            width.ser_bytes().len() + height.ser_bytes().len() <= usize::MAX,
        ensures
            ({
                let bytes = width.ser_bytes() + height.ser_bytes();
                let fds = width.ser_fds() + height.ser_fds();
                set_max_size::dsr_spec(bytes + rest, queue + fds.reverse()) == Decoded::Value(
                    (width.deep_view(), height.deep_view(),),
                    bytes.len(),
                    queue,
                )
            }),
    {
        let m = set_max_size { width, height };
        m.lemma_roundtrip(rest, queue);
    }

    /// The message creates no object.
    pub proof fn lemma_creates(&self)
        ensures
            self.created_id() is None,
    {
    }
}

impl Msg<Obj> for set_max_size {
    open spec fn opcode() -> u16 {
        7
    }

    open spec fn since_version() -> u32 {
        1
    }

    open spec fn created_id(&self) -> Option<u32> {
        None
    }

    open spec fn created_destructor(&self) -> Option<u16> {
        None
    }

    fn op() -> (r: u16) {
        7
    }

    fn since() -> u32 {
        1
    }

    fn new_id(&self) -> (r: Option<(u32, ObjMeta)>) {
        None
    }
}

impl Request<Obj> for set_max_size {

}

/// set the minimum size
///
/// Set a minimum size for the window.
///
/// The client can specify a minimum size so that the compositor does
/// not try to configure the window below this size.
///
/// The width and height arguments are in window geometry coordinates.
/// See xdg_surface.set_window_geometry.
///
/// Values set in this way are double-buffered. They will get applied
/// on the next commit.
///
/// The compositor can use this information to allow or disallow
/// different states like maximize or fullscreen and draw accurate
/// animations.
///
/// Similarly, a tiling window manager may use this information to
/// place and resize client windows in a more effective way.
///
/// The client should not rely on the compositor to obey the minimum
/// size. The compositor may decide to ignore the values set by the
/// client and request a smaller size.
///
/// If never set, or a value of zero in the request, means that the
/// client has no expected minimum size in the given dimension.
/// As a result, a client wishing to reset the minimum size
/// to an unspecified state can use zero for width and height in the
/// request.
///
/// Requesting a minimum size to be larger than the maximum size of
/// a surface is illegal and will result in an invalid_size error.
///
/// The width and height must be greater than or equal to zero. Using
/// strictly negative values for width and height will result in a
/// invalid_size error.
///
#[derive(Debug)]
pub struct set_min_size {
    //
    pub width: i32,
    //
    pub height: i32,
}

impl Ser for set_min_size {
    open spec fn ser_ok(&self) -> bool {
        &&& self.width.ser_ok()
        &&& self.height.ser_ok()
        &&& self.ser_bytes().len() <= usize::MAX
    }

    open spec fn ser_bytes(&self) -> Seq<u8> {
        self.width.ser_bytes() + self.height.ser_bytes()
    }

    open spec fn ser_fds(&self) -> Seq<Fd> {
        self.width.ser_fds() + self.height.ser_fds()
    }

    fn wire_len(&self) -> (n: usize) {
        self.width.wire_len() + self.height.wire_len()
    }

    fn checked_len(&self) -> (r: Option<usize>) {
        let n0 = match self.width.checked_len() {
            Some(m) => m,
            None => return None,
        };
        let n1 = match self.height.checked_len() {
            Some(m) => match n0.checked_add(m) {
                Some(t) => t,
                None => return None,
            },
            None => return None,
        };
        Some(n1)
    }

    open spec fn ser_fits(&self, cap: int) -> bool {
        &&& 0 <= cap && self.width.ser_fits(cap - (0))
        &&& self.width.ser_bytes().len() <= cap && self.height.ser_fits(cap - (self.width.ser_bytes().len()))
    }

    fn serialize(self, buf: &mut [u8], fds: &mut Vec<Fd>) -> (r: Result<usize, &'static str>) {
        let ghost me = self;
        let ghost b0 = buf@;
        let mut n: usize = 0;
        n = n + ser_at(self.width, buf, n, fds);
        assert(fds@ =~= old(fds)@ + me.width.ser_fds());
        n = n + ser_at(self.height, buf, n, fds);
        proof {
            lemma_write_then(b0, 0, me.width.ser_bytes(), me.height.ser_bytes());
        }
        assert(fds@ =~= old(fds)@ + me.ser_fds());
        Ok(n)
    }

    proof fn lemma_fits(&self, cap: int) {
        self.width.lemma_fits(cap - (0));
        self.height.lemma_fits(cap - (self.width.ser_bytes().len()));
    }
}

impl DeepView for set_min_size {
    type V = (<i32 as DeepView>::V, <i32 as DeepView>::V,);

    open spec fn deep_view(&self) -> (<i32 as DeepView>::V, <i32 as DeepView>::V,) {
        (self.width.deep_view(), self.height.deep_view(),)
    }
}

impl Dsr for set_min_size {
    open spec fn dsr_spec(buf: Seq<u8>, fds: Seq<Fd>) -> Decoded<(<i32 as DeepView>::V, <i32 as DeepView>::V,)> {
        match <i32>::dsr_spec(buf, fds) {
            Decoded::Value(width, n0, q0) => {
                match <i32>::dsr_spec(buf.skip(n0 as int), q0) {
                    Decoded::Value(height, m1, q1) => {
                        let n1 = n0 + m1;
                        Decoded::Value((width, height,), n1, q1)
                    },
                    d => d.fail(),
                }
            },
            d => d.fail(),
        }
    }

    fn try_deserialize(buf: &[u8], fds: &mut Vec<Fd>) -> (r: Option<Result<(set_min_size, usize), &'static str>>) {
        let mut n: usize = 0;
        let rest = &buf[n..buf.len()];
        assert(rest@ =~= buf@.skip(n as int));
        assert(n == 0 ==> rest@ =~= buf@);
        let (width, m) = match <i32>::try_deserialize(rest, fds) {
            Some(Ok(p)) => p,
            Some(Err(e)) => return Some(Err(e)),
            None => return None,
        };
        n = n + m;
        let rest = &buf[n..buf.len()];
        assert(rest@ =~= buf@.skip(n as int));
        assert(n == 0 ==> rest@ =~= buf@);
        let (height, m) = match <i32>::try_deserialize(rest, fds) {
            Some(Ok(p)) => p,
            Some(Err(e)) => return Some(Err(e)),
            None => return None,
        };
        n = n + m;
        Some(Ok((set_min_size { width, height }, n)))
    }
}

impl Codec for set_min_size {
    open spec fn rt_ok(&self) -> bool {
        &&& self.width.rt_ok()
        &&& self.height.rt_ok()
    }

    proof fn lemma_roundtrip(&self, tail: Seq<u8>, base: Seq<Fd>) {
        let b0 = self.width.ser_bytes();
        let b1 = self.height.ser_bytes();
        let d0 = self.width.ser_fds();
        let d1 = self.height.ser_fds();
        let s2 = tail;
        let s1 = b1 + s2;
        let s0 = b0 + s1;
        let buf = self.ser_bytes() + tail;
        assert(buf =~= s0);
        assert(buf.skip(0) =~= s0);
        assert(self.ser_fds() =~= Seq::<Fd>::empty());
        assert(base + self.ser_fds().reverse() =~= base);
        assert(d0 =~= Seq::<Fd>::empty());
        assert(base + d0.reverse() =~= base);
        self.width.lemma_roundtrip(s1, base);
        assert(buf.skip((b0.len()) as int) == s1) by {
            lemma_skip_step(buf, (0) as int, b0, s1);
        }
        assert(d1 =~= Seq::<Fd>::empty());
        assert(base + d1.reverse() =~= base);
        self.height.lemma_roundtrip(s2, base);
    }
}

impl set_min_size {
    /// The arguments are read in the protocol's order, `width`, then `height`: the bytes
    /// and descriptors written for such arguments, one after the other,
    /// decode to exactly those arguments.
    pub proof fn lemma_layout(width: i32, height: i32, rest: Seq<u8>, queue: Seq<Fd>)
        requires
            width.ser_ok(),
            width.rt_ok(),
            height.ser_ok(),
            height.rt_ok(),
            width.ser_bytes().len() + height.ser_bytes().len() <= usize::MAX,
        ensures
            ({
                let bytes = width.ser_bytes() + height.ser_bytes();
                let fds = width.ser_fds() + height.ser_fds();
                set_min_size::dsr_spec(bytes + rest, queue + fds.reverse()) == Decoded::Value(
                    (width.deep_view(), height.deep_view(),),
                    bytes.len(),
                    queue,
                )
            }),
    {
        let m = set_min_size { width, height };
        m.lemma_roundtrip(rest, queue);
    }

    /// The message creates no object.
    pub proof fn lemma_creates(&self)
        ensures
            self.created_id() is None,
    {
    }
}

impl Msg<Obj> for set_min_size {
    open spec fn opcode() -> u16 {
        8
    }

    open spec fn since_version() -> u32 {
        1
    }

    open spec fn created_id(&self) -> Option<u32> {
        None
    }

    open spec fn created_destructor(&self) -> Option<u16> {
        None
    }

    fn op() -> (r: u16) {
        8
    }

    fn since() -> u32 {
        1
    }

    fn new_id(&self) -> (r: Option<(u32, ObjMeta)>) {
        None
    }
}

impl Request<Obj> for set_min_size {

}

/// maximize the window
///
/// Maximize the surface.
///
/// After requesting that the surface should be maximized, the compositor
/// will respond by emitting a configure event. Whether this configure
/// actually sets the window maximized is subject to compositor policies.
/// The client must then update its content, drawing in the configured
/// state. The client must also acknowledge the configure when committing
/// the new content (see ack_configure).
///
/// It is up to the compositor to decide how and where to maximize the
/// surface, for example which output and what region of the screen should
/// be used.
///
/// If the surface was already maximized, the compositor will still emit
/// a configure event with the "maximized" state.
///
/// If the surface is in a fullscreen state, this request has no direct
/// effect. It may alter the state the surface is returned to when
/// unmaximized unless overridden by the compositor.
///
#[derive(Debug)]
pub struct set_maximized {}

impl Ser for set_maximized {
    open spec fn ser_ok(&self) -> bool {
        true
    }

    open spec fn ser_bytes(&self) -> Seq<u8> {
        Seq::empty()
    }

    open spec fn ser_fds(&self) -> Seq<Fd> {
        Seq::empty()
    }

    fn wire_len(&self) -> (n: usize) {
        0
    }

    fn checked_len(&self) -> (r: Option<usize>) {
        Some(0)
    }

    open spec fn ser_fits(&self, cap: int) -> bool {
        true
    }

    fn serialize(self, buf: &mut [u8], fds: &mut Vec<Fd>) -> (r: Result<usize, &'static str>) {
        assert(buf@ =~= write_at(old(buf)@, 0, Seq::<u8>::empty()));
        assert(fds@ =~= old(fds)@ + Seq::<Fd>::empty());
        Ok(0)
    }

    proof fn lemma_fits(&self, cap: int) {
    }
}

impl DeepView for set_maximized {
    type V = ();

    open spec fn deep_view(&self) -> () {
        ()
    }
}

impl Dsr for set_maximized {
    open spec fn dsr_spec(buf: Seq<u8>, fds: Seq<Fd>) -> Decoded<()> {
        Decoded::Value((), 0, fds)
    }

    fn try_deserialize(buf: &[u8], fds: &mut Vec<Fd>) -> (r: Option<Result<(set_maximized, usize), &'static str>>) {
        Some(Ok((set_maximized {}, 0)))
    }
}

impl Codec for set_maximized {
    open spec fn rt_ok(&self) -> bool {
        true
    }

    proof fn lemma_roundtrip(&self, tail: Seq<u8>, base: Seq<Fd>) {
        assert(Seq::<Fd>::empty().reverse() =~= Seq::<Fd>::empty());
        assert(base + Seq::<Fd>::empty() =~= base);
    }
}

impl set_maximized {
    /// The arguments are read in the protocol's order, no arguments: the bytes
    /// and descriptors written for such arguments, one after the other,
    /// decode to exactly those arguments.
    pub proof fn lemma_layout(rest: Seq<u8>, queue: Seq<Fd>)
        ensures
            ({
                let bytes = Seq::<u8>::empty();
                let fds = Seq::<Fd>::empty();
                set_maximized::dsr_spec(bytes + rest, queue + fds.reverse()) == Decoded::Value(
                    (),
                    bytes.len(),
                    queue,
                )
            }),
    {
        let m = set_maximized {};
        m.lemma_roundtrip(rest, queue);
    }

    /// The message creates no object.
    pub proof fn lemma_creates(&self)
        ensures
            self.created_id() is None,
    {
    }
}

impl Msg<Obj> for set_maximized {
    open spec fn opcode() -> u16 {
        9
    }

    open spec fn since_version() -> u32 {
        1
    }

    open spec fn created_id(&self) -> Option<u32> {
        None
    }

    open spec fn created_destructor(&self) -> Option<u16> {
        None
    }

    fn op() -> (r: u16) {
        9
    }

    fn since() -> u32 {
        1
    }

    fn new_id(&self) -> (r: Option<(u32, ObjMeta)>) {
        None
    }
}

impl Request<Obj> for set_maximized {

}

/// unmaximize the window
///
/// Unmaximize the surface.
///
/// After requesting that the surface should be unmaximized, the compositor
/// will respond by emitting a configure event. Whether this actually
/// un-maximizes the window is subject to compositor policies.
/// If available and applicable, the compositor will include the window
/// geometry dimensions the window had prior to being maximized in the
/// configure event. The client must then update its content, drawing it in
/// the configured state. The client must also acknowledge the configure
/// when committing the new content (see ack_configure).
///
/// It is up to the compositor to position the surface after it was
/// unmaximized; usually the position the surface had before maximizing, if
/// applicable.
///
/// If the surface was already not maximized, the compositor will still
/// emit a configure event without the "maximized" state.
///
/// If the surface is in a fullscreen state, this request has no direct
/// effect. It may alter the state the surface is returned to when
/// unmaximized unless overridden by the compositor.
///
#[derive(Debug)]
pub struct unset_maximized {}

impl Ser for unset_maximized {
    open spec fn ser_ok(&self) -> bool {
        true
    }

    open spec fn ser_bytes(&self) -> Seq<u8> {
        Seq::empty()
    }

    open spec fn ser_fds(&self) -> Seq<Fd> {
        Seq::empty()
    }

    fn wire_len(&self) -> (n: usize) {
        0
    }

    fn checked_len(&self) -> (r: Option<usize>) {
        Some(0)
    }

    open spec fn ser_fits(&self, cap: int) -> bool {
        true
    }

    fn serialize(self, buf: &mut [u8], fds: &mut Vec<Fd>) -> (r: Result<usize, &'static str>) {
        assert(buf@ =~= write_at(old(buf)@, 0, Seq::<u8>::empty()));
        assert(fds@ =~= old(fds)@ + Seq::<Fd>::empty());
        Ok(0)
    }

    proof fn lemma_fits(&self, cap: int) {
    }
}

impl DeepView for unset_maximized {
    type V = ();

    open spec fn deep_view(&self) -> () {
        ()
    }
}

impl Dsr for unset_maximized {
    open spec fn dsr_spec(buf: Seq<u8>, fds: Seq<Fd>) -> Decoded<()> {
        Decoded::Value((), 0, fds)
    }

    fn try_deserialize(buf: &[u8], fds: &mut Vec<Fd>) -> (r: Option<Result<(unset_maximized, usize), &'static str>>) {
        Some(Ok((unset_maximized {}, 0)))
    }
}

impl Codec for unset_maximized {
    open spec fn rt_ok(&self) -> bool {
        true
    }

    proof fn lemma_roundtrip(&self, tail: Seq<u8>, base: Seq<Fd>) {
        assert(Seq::<Fd>::empty().reverse() =~= Seq::<Fd>::empty());
        assert(base + Seq::<Fd>::empty() =~= base);
    }
}

impl unset_maximized {
    /// The arguments are read in the protocol's order, no arguments: the bytes
    /// and descriptors written for such arguments, one after the other,
    /// decode to exactly those arguments.
    pub proof fn lemma_layout(rest: Seq<u8>, queue: Seq<Fd>)
        ensures
            ({
                let bytes = Seq::<u8>::empty();
                let fds = Seq::<Fd>::empty();
                unset_maximized::dsr_spec(bytes + rest, queue + fds.reverse()) == Decoded::Value(
                    (),
                    bytes.len(),
                    queue,
                )
            }),
    {
        let m = unset_maximized {};
        m.lemma_roundtrip(rest, queue);
    }

    /// The message creates no object.
    pub proof fn lemma_creates(&self)
        ensures
            self.created_id() is None,
    {
    }
}

impl Msg<Obj> for unset_maximized {
    open spec fn opcode() -> u16 {
        10
    }

    open spec fn since_version() -> u32 {
        1
    }

    open spec fn created_id(&self) -> Option<u32> {
        None
    }

    open spec fn created_destructor(&self) -> Option<u16> {
        None
    }

    fn op() -> (r: u16) {
        10
    }

    fn since() -> u32 {
        1
    }

    fn new_id(&self) -> (r: Option<(u32, ObjMeta)>) {
        None
    }
}

impl Request<Obj> for unset_maximized {

}

/// set the window as fullscreen on an output
///
/// Make the surface fullscreen.
///
/// After requesting that the surface should be fullscreened, the
/// compositor will respond by emitting a configure event. Whether the
/// client is actually put into a fullscreen state is subject to compositor
/// policies. The client must also acknowledge the configure when
/// committing the new content (see ack_configure).
///
/// The output passed by the request indicates the client's preference as
/// to which display it should be set fullscreen on. If this value is NULL,
/// it's up to the compositor to choose which display will be used to map
/// this surface.
///
/// If the surface doesn't cover the whole output, the compositor will
/// position the surface in the center of the output and compensate with
/// with border fill covering the rest of the output. The content of the
/// border fill is undefined, but should be assumed to be in some way that
/// attempts to blend into the surrounding area (e.g. solid black).
///
/// If the fullscreened surface is not opaque, the compositor must make
/// sure that other screen content not part of the same surface tree (made
/// up of subsurfaces, popups or similarly coupled surfaces) are not
/// visible below the fullscreened surface.
///
#[derive(Debug)]
pub struct set_fullscreen {
    //
    pub output: Option<object<crate::wl_output::Obj>>,
}

impl Ser for set_fullscreen {
    open spec fn ser_ok(&self) -> bool {
        &&& self.output.ser_ok()
        &&& self.ser_bytes().len() <= usize::MAX
    }

    open spec fn ser_bytes(&self) -> Seq<u8> {
        self.output.ser_bytes()
    }

    open spec fn ser_fds(&self) -> Seq<Fd> {
        self.output.ser_fds()
    }

    fn wire_len(&self) -> (n: usize) {
        self.output.wire_len()
    }

    fn checked_len(&self) -> (r: Option<usize>) {
        let n0 = match self.output.checked_len() {
            Some(m) => m,
            None => return None,
        };
        Some(n0)
    }

    open spec fn ser_fits(&self, cap: int) -> bool {
        &&& 0 <= cap && self.output.ser_fits(cap - (0))
    }

    fn serialize(self, buf: &mut [u8], fds: &mut Vec<Fd>) -> (r: Result<usize, &'static str>) {
        let ghost me = self;
        let ghost b0 = buf@;
        let mut n: usize = 0;
        n = n + ser_at(self.output, buf, n, fds);
        assert(fds@ =~= old(fds)@ + me.ser_fds());
        Ok(n)
    }

    proof fn lemma_fits(&self, cap: int) {
        self.output.lemma_fits(cap - (0));
    }
}

impl DeepView for set_fullscreen {
    type V = (<Option<object<crate::wl_output::Obj>> as DeepView>::V,);

    open spec fn deep_view(&self) -> (<Option<object<crate::wl_output::Obj>> as DeepView>::V,) {
        (self.output.deep_view(),)
    }
}

impl Dsr for set_fullscreen {
    open spec fn dsr_spec(buf: Seq<u8>, fds: Seq<Fd>) -> Decoded<(<Option<object<crate::wl_output::Obj>> as DeepView>::V,)> {
        match <Option<object<crate::wl_output::Obj>>>::dsr_spec(buf, fds) {
            Decoded::Value(output, n0, q0) => Decoded::Value((output,), n0, q0),
            d => d.fail(),
        }
    }

    fn try_deserialize(buf: &[u8], fds: &mut Vec<Fd>) -> (r: Option<Result<(set_fullscreen, usize), &'static str>>) {
        let mut n: usize = 0;
        let rest = &buf[n..buf.len()];
        assert(rest@ =~= buf@.skip(n as int));
        assert(n == 0 ==> rest@ =~= buf@);
        let (output, m) = match <Option<object<crate::wl_output::Obj>>>::try_deserialize(rest, fds) {
            Some(Ok(p)) => p,
            Some(Err(e)) => return Some(Err(e)),
            None => return None,
        };
        n = n + m;
        Some(Ok((set_fullscreen { output }, n)))
    }
}

impl Codec for set_fullscreen {
    open spec fn rt_ok(&self) -> bool {
        &&& self.output.rt_ok()
    }

    proof fn lemma_roundtrip(&self, tail: Seq<u8>, base: Seq<Fd>) {
        let b0 = self.output.ser_bytes();
        let d0 = self.output.ser_fds();
        let s1 = tail;
        let s0 = b0 + s1;
        let buf = self.ser_bytes() + tail;
        assert(buf =~= s0);
        assert(buf.skip(0) =~= s0);
        assert(self.ser_fds() =~= Seq::<Fd>::empty());
        assert(base + self.ser_fds().reverse() =~= base);
        assert(d0 =~= Seq::<Fd>::empty());
        assert(base + d0.reverse() =~= base);
        self.output.lemma_roundtrip(s1, base);
    }
}

impl set_fullscreen {
    /// The arguments are read in the protocol's order, `output`: the bytes
    /// and descriptors written for such arguments, one after the other,
    /// decode to exactly those arguments.
    pub proof fn lemma_layout(output: Option<object<crate::wl_output::Obj>>, rest: Seq<u8>, queue: Seq<Fd>)
        requires
            output.ser_ok(),
            output.rt_ok(),
            output.ser_bytes().len() <= usize::MAX,
        ensures
            ({
                let bytes = output.ser_bytes();
                let fds = output.ser_fds();
                set_fullscreen::dsr_spec(bytes + rest, queue + fds.reverse()) == Decoded::Value(
                    (output.deep_view(),),
                    bytes.len(),
                    queue,
                )
            }),
    {
        let m = set_fullscreen { output };
        m.lemma_roundtrip(rest, queue);
    }

    /// The message creates no object.
    pub proof fn lemma_creates(&self)
        ensures
            self.created_id() is None,
    {
    }
}

impl Msg<Obj> for set_fullscreen {
    open spec fn opcode() -> u16 {
        11
    }

    open spec fn since_version() -> u32 {
        1
    }

    open spec fn created_id(&self) -> Option<u32> {
        None
    }

    open spec fn created_destructor(&self) -> Option<u16> {
        None
    }

    fn op() -> (r: u16) {
        11
    }

    fn since() -> u32 {
        1
    }

    fn new_id(&self) -> (r: Option<(u32, ObjMeta)>) {
        None
    }
}

impl Request<Obj> for set_fullscreen {

}

/// unset the window as fullscreen
///
/// Make the surface no longer fullscreen.
///
/// After requesting that the surface should be unfullscreened, the
/// compositor will respond by emitting a configure event.
/// Whether this actually removes the fullscreen state of the client is
/// subject to compositor policies.
///
/// Making a surface unfullscreen sets states for the surface based on the following:
/// * the state(s) it may have had before becoming fullscreen
/// * any state(s) decided by the compositor
/// * any state(s) requested by the client while the surface was fullscreen
///
/// The compositor may include the previous window geometry dimensions in
/// the configure event, if applicable.
///
/// The client must also acknowledge the configure when committing the new
/// content (see ack_configure).
///
#[derive(Debug)]
pub struct unset_fullscreen {}

impl Ser for unset_fullscreen {
    open spec fn ser_ok(&self) -> bool {
        true
    }

    open spec fn ser_bytes(&self) -> Seq<u8> {
        Seq::empty()
    }

    open spec fn ser_fds(&self) -> Seq<Fd> {
        Seq::empty()
    }

    fn wire_len(&self) -> (n: usize) {
        0
    }

    fn checked_len(&self) -> (r: Option<usize>) {
        Some(0)
    }

    open spec fn ser_fits(&self, cap: int) -> bool {
        true
    }

    fn serialize(self, buf: &mut [u8], fds: &mut Vec<Fd>) -> (r: Result<usize, &'static str>) {
        assert(buf@ =~= write_at(old(buf)@, 0, Seq::<u8>::empty()));
        assert(fds@ =~= old(fds)@ + Seq::<Fd>::empty());
        Ok(0)
    }

    proof fn lemma_fits(&self, cap: int) {
    }
}

impl DeepView for unset_fullscreen {
    type V = ();

    open spec fn deep_view(&self) -> () {
        ()
    }
}

impl Dsr for unset_fullscreen {
    open spec fn dsr_spec(buf: Seq<u8>, fds: Seq<Fd>) -> Decoded<()> {
        Decoded::Value((), 0, fds)
    }

    fn try_deserialize(buf: &[u8], fds: &mut Vec<Fd>) -> (r: Option<Result<(unset_fullscreen, usize), &'static str>>) {
        Some(Ok((unset_fullscreen {}, 0)))
    }
}

impl Codec for unset_fullscreen {
    open spec fn rt_ok(&self) -> bool {
        true
    }

    proof fn lemma_roundtrip(&self, tail: Seq<u8>, base: Seq<Fd>) {
        assert(Seq::<Fd>::empty().reverse() =~= Seq::<Fd>::empty());
        assert(base + Seq::<Fd>::empty() =~= base);
    }
}

impl unset_fullscreen {
    /// The arguments are read in the protocol's order, no arguments: the bytes
    /// and descriptors written for such arguments, one after the other,
    /// decode to exactly those arguments.
    pub proof fn lemma_layout(rest: Seq<u8>, queue: Seq<Fd>)
        ensures
            ({
                let bytes = Seq::<u8>::empty();
                let fds = Seq::<Fd>::empty();
                unset_fullscreen::dsr_spec(bytes + rest, queue + fds.reverse()) == Decoded::Value(
                    (),
                    bytes.len(),
                    queue,
                )
            }),
    {
        let m = unset_fullscreen {};
        m.lemma_roundtrip(rest, queue);
    }

    /// The message creates no object.
    pub proof fn lemma_creates(&self)
        ensures
            self.created_id() is None,
    {
    }
}

impl Msg<Obj> for unset_fullscreen {
    open spec fn opcode() -> u16 {
        12
    }

    open spec fn since_version() -> u32 {
        1
    }

    open spec fn created_id(&self) -> Option<u32> {
        None
    }

    open spec fn created_destructor(&self) -> Option<u16> {
        None
    }

    fn op() -> (r: u16) {
        12
    }

    fn since() -> u32 {
        1
    }

    fn new_id(&self) -> (r: Option<(u32, ObjMeta)>) {
        None
    }
}

impl Request<Obj> for unset_fullscreen {

}

/// set the window as minimized
///
/// Request that the compositor minimize your surface. There is no
/// way to know if the surface is currently minimized, nor is there
/// any way to unset minimization on this surface.
///
/// If you are looking to throttle redrawing when minimized, please
/// instead use the wl_surface.frame event for this, as this will
/// also work with live previews on windows in Alt-Tab, Expose or
/// similar compositor features.
///
#[derive(Debug)]
pub struct set_minimized {}

impl Ser for set_minimized {
    open spec fn ser_ok(&self) -> bool {
        true
    }

    open spec fn ser_bytes(&self) -> Seq<u8> {
        Seq::empty()
    }

    open spec fn ser_fds(&self) -> Seq<Fd> {
        Seq::empty()
    }

    fn wire_len(&self) -> (n: usize) {
        0
    }

    fn checked_len(&self) -> (r: Option<usize>) {
        Some(0)
    }

    open spec fn ser_fits(&self, cap: int) -> bool {
        true
    }

    fn serialize(self, buf: &mut [u8], fds: &mut Vec<Fd>) -> (r: Result<usize, &'static str>) {
        assert(buf@ =~= write_at(old(buf)@, 0, Seq::<u8>::empty()));
        assert(fds@ =~= old(fds)@ + Seq::<Fd>::empty());
        Ok(0)
    }

    proof fn lemma_fits(&self, cap: int) {
    }
}

impl DeepView for set_minimized {
    type V = ();

    open spec fn deep_view(&self) -> () {
        ()
    }
}

impl Dsr for set_minimized {
    open spec fn dsr_spec(buf: Seq<u8>, fds: Seq<Fd>) -> Decoded<()> {
        Decoded::Value((), 0, fds)
    }

    fn try_deserialize(buf: &[u8], fds: &mut Vec<Fd>) -> (r: Option<Result<(set_minimized, usize), &'static str>>) {
        Some(Ok((set_minimized {}, 0)))
    }
}

impl Codec for set_minimized {
    open spec fn rt_ok(&self) -> bool {
        true
    }

    proof fn lemma_roundtrip(&self, tail: Seq<u8>, base: Seq<Fd>) {
        assert(Seq::<Fd>::empty().reverse() =~= Seq::<Fd>::empty());
        assert(base + Seq::<Fd>::empty() =~= base);
    }
}

impl set_minimized {
    /// The arguments are read in the protocol's order, no arguments: the bytes
    /// and descriptors written for such arguments, one after the other,
    /// decode to exactly those arguments.
    pub proof fn lemma_layout(rest: Seq<u8>, queue: Seq<Fd>)
        ensures
            ({
                let bytes = Seq::<u8>::empty();
                let fds = Seq::<Fd>::empty();
                set_minimized::dsr_spec(bytes + rest, queue + fds.reverse()) == Decoded::Value(
                    (),
                    bytes.len(),
                    queue,
                )
            }),
    {
        let m = set_minimized {};
        m.lemma_roundtrip(rest, queue);
    }

    /// The message creates no object.
    pub proof fn lemma_creates(&self)
        ensures
            self.created_id() is None,
    {
    }
}

impl Msg<Obj> for set_minimized {
    open spec fn opcode() -> u16 {
        13
    }

    open spec fn since_version() -> u32 {
        1
    }

    open spec fn created_id(&self) -> Option<u32> {
        None
    }

    open spec fn created_destructor(&self) -> Option<u16> {
        None
    }

    fn op() -> (r: u16) {
        13
    }

    fn since() -> u32 {
        1
    }

    fn new_id(&self) -> (r: Option<(u32, ObjMeta)>) {
        None
    }
}

impl Request<Obj> for set_minimized {

}

/// The opcode of each request: its index in the protocol's list of the
/// interface's requests, so that no two requests share one.
pub proof fn lemma_opcodes()
    ensures
        <destroy as Msg<Obj>>::opcode() == 0,
        <set_parent as Msg<Obj>>::opcode() == 1,
        <set_title as Msg<Obj>>::opcode() == 2,
        <set_app_id as Msg<Obj>>::opcode() == 3,
        <show_window_menu as Msg<Obj>>::opcode() == 4,
        <move_ as Msg<Obj>>::opcode() == 5,
        <resize as Msg<Obj>>::opcode() == 6,
        <set_max_size as Msg<Obj>>::opcode() == 7,
        <set_min_size as Msg<Obj>>::opcode() == 8,
        <set_maximized as Msg<Obj>>::opcode() == 9,
        <unset_maximized as Msg<Obj>>::opcode() == 10,
        <set_fullscreen as Msg<Obj>>::opcode() == 11,
        <unset_fullscreen as Msg<Obj>>::opcode() == 12,
        <set_minimized as Msg<Obj>>::opcode() == 13,
        <destroy as Msg<Obj>>::opcode() != <set_parent as Msg<Obj>>::opcode(),
        <destroy as Msg<Obj>>::opcode() != <set_title as Msg<Obj>>::opcode(),
        <destroy as Msg<Obj>>::opcode() != <set_app_id as Msg<Obj>>::opcode(),
        <destroy as Msg<Obj>>::opcode() != <show_window_menu as Msg<Obj>>::opcode(),
        <destroy as Msg<Obj>>::opcode() != <move_ as Msg<Obj>>::opcode(),
        <destroy as Msg<Obj>>::opcode() != <resize as Msg<Obj>>::opcode(),
        <destroy as Msg<Obj>>::opcode() != <set_max_size as Msg<Obj>>::opcode(),
        <destroy as Msg<Obj>>::opcode() != <set_min_size as Msg<Obj>>::opcode(),
        <destroy as Msg<Obj>>::opcode() != <set_maximized as Msg<Obj>>::opcode(),
        <destroy as Msg<Obj>>::opcode() != <unset_maximized as Msg<Obj>>::opcode(),
        <destroy as Msg<Obj>>::opcode() != <set_fullscreen as Msg<Obj>>::opcode(),
        <destroy as Msg<Obj>>::opcode() != <unset_fullscreen as Msg<Obj>>::opcode(),
        <destroy as Msg<Obj>>::opcode() != <set_minimized as Msg<Obj>>::opcode(),
        <set_parent as Msg<Obj>>::opcode() != <set_title as Msg<Obj>>::opcode(),
        <set_parent as Msg<Obj>>::opcode() != <set_app_id as Msg<Obj>>::opcode(),
        <set_parent as Msg<Obj>>::opcode() != <show_window_menu as Msg<Obj>>::opcode(),
        <set_parent as Msg<Obj>>::opcode() != <move_ as Msg<Obj>>::opcode(),
        <set_parent as Msg<Obj>>::opcode() != <resize as Msg<Obj>>::opcode(),
        <set_parent as Msg<Obj>>::opcode() != <set_max_size as Msg<Obj>>::opcode(),
        <set_parent as Msg<Obj>>::opcode() != <set_min_size as Msg<Obj>>::opcode(),
        <set_parent as Msg<Obj>>::opcode() != <set_maximized as Msg<Obj>>::opcode(),
        <set_parent as Msg<Obj>>::opcode() != <unset_maximized as Msg<Obj>>::opcode(),
        <set_parent as Msg<Obj>>::opcode() != <set_fullscreen as Msg<Obj>>::opcode(),
        <set_parent as Msg<Obj>>::opcode() != <unset_fullscreen as Msg<Obj>>::opcode(),
        <set_parent as Msg<Obj>>::opcode() != <set_minimized as Msg<Obj>>::opcode(),
        <set_title as Msg<Obj>>::opcode() != <set_app_id as Msg<Obj>>::opcode(),
        <set_title as Msg<Obj>>::opcode() != <show_window_menu as Msg<Obj>>::opcode(),
        <set_title as Msg<Obj>>::opcode() != <move_ as Msg<Obj>>::opcode(),
        <set_title as Msg<Obj>>::opcode() != <resize as Msg<Obj>>::opcode(),
        <set_title as Msg<Obj>>::opcode() != <set_max_size as Msg<Obj>>::opcode(),
        <set_title as Msg<Obj>>::opcode() != <set_min_size as Msg<Obj>>::opcode(),
        <set_title as Msg<Obj>>::opcode() != <set_maximized as Msg<Obj>>::opcode(),
        <set_title as Msg<Obj>>::opcode() != <unset_maximized as Msg<Obj>>::opcode(),
        <set_title as Msg<Obj>>::opcode() != <set_fullscreen as Msg<Obj>>::opcode(),
        <set_title as Msg<Obj>>::opcode() != <unset_fullscreen as Msg<Obj>>::opcode(),
        <set_title as Msg<Obj>>::opcode() != <set_minimized as Msg<Obj>>::opcode(),
        <set_app_id as Msg<Obj>>::opcode() != <show_window_menu as Msg<Obj>>::opcode(),
        <set_app_id as Msg<Obj>>::opcode() != <move_ as Msg<Obj>>::opcode(),
        <set_app_id as Msg<Obj>>::opcode() != <resize as Msg<Obj>>::opcode(),
        <set_app_id as Msg<Obj>>::opcode() != <set_max_size as Msg<Obj>>::opcode(),
        <set_app_id as Msg<Obj>>::opcode() != <set_min_size as Msg<Obj>>::opcode(),
        <set_app_id as Msg<Obj>>::opcode() != <set_maximized as Msg<Obj>>::opcode(),
        <set_app_id as Msg<Obj>>::opcode() != <unset_maximized as Msg<Obj>>::opcode(),
        <set_app_id as Msg<Obj>>::opcode() != <set_fullscreen as Msg<Obj>>::opcode(),
        <set_app_id as Msg<Obj>>::opcode() != <unset_fullscreen as Msg<Obj>>::opcode(),
        <set_app_id as Msg<Obj>>::opcode() != <set_minimized as Msg<Obj>>::opcode(),
        <show_window_menu as Msg<Obj>>::opcode() != <move_ as Msg<Obj>>::opcode(),
        <show_window_menu as Msg<Obj>>::opcode() != <resize as Msg<Obj>>::opcode(),
        <show_window_menu as Msg<Obj>>::opcode() != <set_max_size as Msg<Obj>>::opcode(),
        <show_window_menu as Msg<Obj>>::opcode() != <set_min_size as Msg<Obj>>::opcode(),
        <show_window_menu as Msg<Obj>>::opcode() != <set_maximized as Msg<Obj>>::opcode(),
        <show_window_menu as Msg<Obj>>::opcode() != <unset_maximized as Msg<Obj>>::opcode(),
        <show_window_menu as Msg<Obj>>::opcode() != <set_fullscreen as Msg<Obj>>::opcode(),
        <show_window_menu as Msg<Obj>>::opcode() != <unset_fullscreen as Msg<Obj>>::opcode(),
        <show_window_menu as Msg<Obj>>::opcode() != <set_minimized as Msg<Obj>>::opcode(),
        <move_ as Msg<Obj>>::opcode() != <resize as Msg<Obj>>::opcode(),
        <move_ as Msg<Obj>>::opcode() != <set_max_size as Msg<Obj>>::opcode(),
        <move_ as Msg<Obj>>::opcode() != <set_min_size as Msg<Obj>>::opcode(),
        <move_ as Msg<Obj>>::opcode() != <set_maximized as Msg<Obj>>::opcode(),
        <move_ as Msg<Obj>>::opcode() != <unset_maximized as Msg<Obj>>::opcode(),
        <move_ as Msg<Obj>>::opcode() != <set_fullscreen as Msg<Obj>>::opcode(),
        <move_ as Msg<Obj>>::opcode() != <unset_fullscreen as Msg<Obj>>::opcode(),
        <move_ as Msg<Obj>>::opcode() != <set_minimized as Msg<Obj>>::opcode(),
        <resize as Msg<Obj>>::opcode() != <set_max_size as Msg<Obj>>::opcode(),
        <resize as Msg<Obj>>::opcode() != <set_min_size as Msg<Obj>>::opcode(),
        <resize as Msg<Obj>>::opcode() != <set_maximized as Msg<Obj>>::opcode(),
        <resize as Msg<Obj>>::opcode() != <unset_maximized as Msg<Obj>>::opcode(),
        <resize as Msg<Obj>>::opcode() != <set_fullscreen as Msg<Obj>>::opcode(),
        <resize as Msg<Obj>>::opcode() != <unset_fullscreen as Msg<Obj>>::opcode(),
        <resize as Msg<Obj>>::opcode() != <set_minimized as Msg<Obj>>::opcode(),
        <set_max_size as Msg<Obj>>::opcode() != <set_min_size as Msg<Obj>>::opcode(),
        <set_max_size as Msg<Obj>>::opcode() != <set_maximized as Msg<Obj>>::opcode(),
        <set_max_size as Msg<Obj>>::opcode() != <unset_maximized as Msg<Obj>>::opcode(),
        <set_max_size as Msg<Obj>>::opcode() != <set_fullscreen as Msg<Obj>>::opcode(),
        <set_max_size as Msg<Obj>>::opcode() != <unset_fullscreen as Msg<Obj>>::opcode(),
        <set_max_size as Msg<Obj>>::opcode() != <set_minimized as Msg<Obj>>::opcode(),
        <set_min_size as Msg<Obj>>::opcode() != <set_maximized as Msg<Obj>>::opcode(),
        <set_min_size as Msg<Obj>>::opcode() != <unset_maximized as Msg<Obj>>::opcode(),
        <set_min_size as Msg<Obj>>::opcode() != <set_fullscreen as Msg<Obj>>::opcode(),
        <set_min_size as Msg<Obj>>::opcode() != <unset_fullscreen as Msg<Obj>>::opcode(),
        <set_min_size as Msg<Obj>>::opcode() != <set_minimized as Msg<Obj>>::opcode(),
        <set_maximized as Msg<Obj>>::opcode() != <unset_maximized as Msg<Obj>>::opcode(),
        <set_maximized as Msg<Obj>>::opcode() != <set_fullscreen as Msg<Obj>>::opcode(),
        <set_maximized as Msg<Obj>>::opcode() != <unset_fullscreen as Msg<Obj>>::opcode(),
        <set_maximized as Msg<Obj>>::opcode() != <set_minimized as Msg<Obj>>::opcode(),
        <unset_maximized as Msg<Obj>>::opcode() != <set_fullscreen as Msg<Obj>>::opcode(),
        <unset_maximized as Msg<Obj>>::opcode() != <unset_fullscreen as Msg<Obj>>::opcode(),
        <unset_maximized as Msg<Obj>>::opcode() != <set_minimized as Msg<Obj>>::opcode(),
        <set_fullscreen as Msg<Obj>>::opcode() != <unset_fullscreen as Msg<Obj>>::opcode(),
        <set_fullscreen as Msg<Obj>>::opcode() != <set_minimized as Msg<Obj>>::opcode(),
        <unset_fullscreen as Msg<Obj>>::opcode() != <set_minimized as Msg<Obj>>::opcode(),
        <Obj as Object>::destructor_op() == Some(<destroy as Msg<Obj>>::opcode()),
{
}

} // verus!
