use std::convert::TryFrom;
use wl::wire::Fd;
use wl::{object, new_id, Dsr, Msg, Ser};
use wl::{wl_display, wl_registry, wl_shm, wl_shm_pool, wl_output, wl_surface, wl_seat, wl_data_device_manager, xdg_toplevel};

fn bytes_of<T: Ser>(v: T) -> (Vec<u8>, Vec<Fd>) {
    let mut buf = vec![0u8; 256];
    let mut fds = Vec::new();
    let n = v.serialize(&mut buf, &mut fds).unwrap();
    buf.truncate(n);
    (buf, fds)
}

#[test]
fn global_event_round_trip() {
    let ev = wl_registry::event::global { name: 4, interface: String::from("wl_shm"), version: 1 };
    let (buf, fds) = bytes_of(ev);
    assert_eq!(buf, vec![4, 0, 0, 0, 7, 0, 0, 0, b'w', b'l', b'_', b's', b'h', b'm', 0, 0, 1, 0, 0, 0]);
    assert!(fds.is_empty());
    let mut q = Vec::new();
    let (back, n) = wl_registry::event::global::deserialize(&buf, &mut q).unwrap();
    assert_eq!(n, 20);
    assert_eq!((back.name, back.interface.as_str(), back.version), (4, "wl_shm", 1));
}

#[test]
fn create_pool_carries_its_fd() {
    let req = wl_shm::request::create_pool { id: new_id(5, wl_shm_pool::Obj), fd: Fd(11), size: 4096 };
    let (buf, fds) = bytes_of(req);
    assert_eq!(buf, vec![5, 0, 0, 0, 0, 16, 0, 0]);
    assert_eq!(fds.len(), 1);
    assert_eq!(fds[0].0, 11);
    let mut q = vec![Fd(11)];
    let (back, n) = wl_shm::request::create_pool::deserialize(&buf, &mut q).unwrap();
    assert_eq!((back.id.0, back.fd.0, back.size, n), (5, 11, 4096, 8));
    assert!(q.is_empty());
    let mut none = Vec::new();
    assert_eq!(
        wl_shm::request::create_pool::deserialize(&buf, &mut none).map(|(_, n)| n),
        Err("unexpected end of fds")
    );
}

#[test]
fn create_buffer_with_format() {
    let req = wl_shm_pool::request::create_buffer {
        id: new_id(6, wl::wl_buffer::Obj),
        offset: 0,
        width: 300,
        height: 200,
        stride: 1200,
        format: wl_shm::format::argb8888,
    };
    assert_eq!(req.new_id().map(|(id, m)| (id, m.alive, m.destructor)), Some((6, true, Some(0))));
    let (buf, _) = bytes_of(req);
    assert_eq!(buf.len(), 24);
    assert_eq!(&buf[20..24], &[0, 0, 0, 0]);
    let mut q = Vec::new();
    let (back, n) = wl_shm_pool::request::create_buffer::deserialize(&buf, &mut q).unwrap();
    assert_eq!((back.id.0, back.width, back.height, back.stride, back.format, n), (6, 300, 200, 1200, wl_shm::format::argb8888, 24));
}

#[test]
fn unknown_enum_value_is_refused() {
    let mut q = Vec::new();
    let bytes = [0u8, 0, 0, 0, 0, 0, 0, 0, 9, 0, 0, 0, 1, 0, 0, 0, 1, 0, 0, 0, 99, 0, 0, 0];
    assert_eq!(
        wl_shm_pool::request::create_buffer::deserialize(&bytes[..], &mut q).map(|(_, n)| n),
        Err("null object where none was expected")
    );
    let mut bytes2 = bytes;
    bytes2[0] = 6;
    assert_eq!(
        wl_shm_pool::request::create_buffer::deserialize(&bytes2[..], &mut q).map(|(_, n)| n),
        Err("invalid value for format")
    );
}

#[test]
fn enum_words() {
    assert_eq!(u32::from(wl_shm::format::xrgb8888), 1);
    assert_eq!(u32::from(wl_shm::format::xbgr8888), 875709016);
    assert_eq!(wl_shm::format::try_from(875709016), Ok(wl_shm::format::xbgr8888));
    assert!(wl_shm::format::try_from(2).is_err());
    assert_eq!(u32::from(wl_output::transform::flipped_270), 7);
    assert_eq!(wl_output::transform::try_from(3), Ok(wl_output::transform::N270));
    assert_eq!(u32::from(wl_display::error::no_memory), 2);
    assert!(wl_display::error::try_from(4).is_err());
    assert_eq!(u32::from(xdg_toplevel::state::suspended), 9);
}

#[test]
fn flags_combine() {
    let copy = wl_data_device_manager::dnd_action::copy();
    let ask = wl_data_device_manager::dnd_action::ask();
    let both = copy | ask;
    assert_eq!(both.flags, 5);
    assert!(both.contains(copy));
    assert!(both.contains(ask));
    assert!(!both.contains(wl_data_device_manager::dnd_action::move_()));
    assert_eq!((both & ask).flags, 4);
    assert_eq!(wl_data_device_manager::dnd_action::ALL().flags, 7);
    assert_eq!(wl_seat::capability::EACH().len(), 3);
    assert!(wl_seat::capability::EMPTY().contains(wl_seat::capability::EMPTY()));
}

#[test]
fn message_opcodes_and_created_objects() {
    assert_eq!(<wl_display::request::get_registry as Msg<wl_display::Obj>>::op(), 1);
    assert_eq!(<wl_surface::request::commit as Msg<wl_surface::Obj>>::op(), 6);
    assert_eq!(<wl_surface::request::commit as Msg<wl_surface::Obj>>::since(), 1);
    let sync = wl_display::request::sync { callback: new_id(8, wl::wl_callback::Obj) };
    assert_eq!(sync.new_id().map(|(id, m)| (id, m.destructor)), Some((8, None)));
    let bind = wl_registry::request::bind { name: 3, id: new_id(9, wl::wl_compositor::Obj).to_dyn(5) };
    assert_eq!(bind.new_id().map(|(id, m)| (id, m.alive)), Some((9, true)));
    let commit = wl_surface::request::commit {};
    assert!(commit.new_id().is_none());
}

#[test]
fn attach_with_and_without_buffer() {
    let a = wl_surface::request::attach { buffer: Some(object(3, wl::wl_buffer::Obj)), x: -1, y: 2 };
    let (buf, _) = bytes_of(a);
    assert_eq!(buf, vec![3, 0, 0, 0, 0xff, 0xff, 0xff, 0xff, 2, 0, 0, 0]);
    let b = wl_surface::request::attach { buffer: None, x: 0, y: 0 };
    let (buf, _) = bytes_of(b);
    assert_eq!(buf, vec![0; 12]);
}

#[test]
fn too_small_message_buffer() {
    let ev = wl_registry::event::global { name: 4, interface: String::from("wl_shm"), version: 1 };
    let (full, _) = bytes_of(wl_registry::event::global { name: 4, interface: String::from("wl_shm"), version: 1 });
    let mut buf = vec![0u8; 19];
    let mut fds = Vec::new();
    assert_eq!(ev.serialize(&mut buf, &mut fds), Ok(20));
    assert_eq!(&buf[..], &full[..19]);
}

#[test]
fn flag_names_follow_the_table() {
    let both = wl_data_device_manager::dnd_action::copy() | wl_data_device_manager::dnd_action::ask();
    assert_eq!(both.names(), vec!["none", "copy", "ask"]);
    assert_eq!(wl_seat::capability::EMPTY().names(), vec!["EMPTY"]);
    let kb = wl_seat::capability::keyboard() | wl_seat::capability::touch();
    assert_eq!(kb.names(), vec!["keyboard", "touch"]);
}

#[test]
fn request_reads_back_through_the_client() {
    let (mut c, _) = wl::Client::new();
    let toplevel = object(5, xdg_toplevel::Obj);
    let n = c.send(toplevel, xdg_toplevel::request::set_title { title: String::from("hi") });
    assert_eq!(n, 16);
    let bytes = c.txbuf[..n].to_vec();
    c.rx_fill(bytes, Vec::new());
    let m = c.recv_header().unwrap().unwrap();
    assert_eq!((m.id, m.op, m.start, m.end), (5, 2, 8, 16));
    let mut q = Vec::new();
    let (back, used) = xdg_toplevel::request::set_title::deserialize(&c.rxbuf[m.start..m.end], &mut q).unwrap();
    assert_eq!((back.title.as_str(), used), ("hi", 8));
}

#[test]
fn flags_print_joined() {
    let kb = wl_seat::capability::keyboard() | wl_seat::capability::touch();
    assert_eq!(kb.debug_string(), "keyboard|touch");
    assert_eq!(wl_seat::capability::EMPTY().debug_string(), "EMPTY");
    assert_eq!(wl_seat::capability::pointer().debug_string(), "pointer");
    let both = wl_data_device_manager::dnd_action::copy() | wl_data_device_manager::dnd_action::ask();
    assert_eq!(both.debug_string(), "none|copy|ask");
}
