use wl::wire::Fd;
use wl::{object, Client, Recv, RecvState};
use wl::client::socket_path;
use wl::{wl_callback, wl_display, wl_registry, wl_compositor};

#[test]
fn fresh_client_knows_the_display() {
    let (c, display) = Client::new();
    assert_eq!(display.0, 1);
    assert_eq!(c.maxid, 2);
    assert_eq!(c.txbuf.len(), 1024);
    assert_eq!(c.rxbufi, 1024);
    assert!(c.objs.contains_key(&1));
    assert!(c.rx_needs_fill());
}

#[test]
fn ids_count_up_and_deleted_ids_come_back() {
    let (mut c, _) = Client::new();
    let a = c.new_id::<wl_registry::wl_registry>();
    let b = c.new_id::<wl_callback::wl_callback>();
    assert_eq!((a.0, b.0), (2, 3));
    c.delete_id(2);
    c.delete_id(3);
    assert_eq!(c.new_id::<wl_compositor::wl_compositor>().0, 3);
    assert_eq!(c.new_id::<wl_compositor::wl_compositor>().0, 2);
    assert_eq!(c.new_id::<wl_compositor::wl_compositor>().0, 4);
    assert_eq!(c.maxid, 5);
    assert_eq!(c.objs.get(&4).map(|m| (m.alive, m.destructor)), Some((true, None)));
}

#[test]
fn get_registry_request_bytes() {
    let (mut c, display) = Client::new();
    let reg = c.construct(display, |registry| wl_display::request::get_registry { registry });
    assert_eq!(reg.0, 2);
    assert_eq!(&c.txbuf[..12], &[1, 0, 0, 0, 1, 0, 12, 0, 2, 0, 0, 0]);
}

#[test]
fn send_reports_length_and_header() {
    let (mut c, _) = Client::new();
    let surface = object(7, wl::wl_surface::Obj);
    let n = c.send(surface, wl::wl_surface::request::damage { x: 1, y: 2, width: 3, height: 4 });
    assert_eq!(n, 24);
    assert_eq!(&c.txbuf[..8], &[7, 0, 0, 0, 2, 0, 24, 0]);
    assert_eq!(&c.txbuf[8..12], &[1, 0, 0, 0]);
}

#[test]
fn send_into_a_buffer_of_exactly_its_size() {
    let (mut c, _) = Client::new();
    c.txbuf.truncate(24);
    let surface = object(7, wl::wl_surface::Obj);
    let n = c.send(surface, wl::wl_surface::request::damage { x: 1, y: 2, width: 3, height: 4 });
    assert_eq!(n, 24);
    assert_eq!(&c.txbuf[20..24], &[4, 0, 0, 0]);
}

#[test]
fn receive_a_done_event() {
    let (mut c, _) = Client::new();
    let cb = c.new_id::<wl_callback::wl_callback>().to_object();
    let data = vec![2, 0, 0, 0, 0, 0, 12, 0, 42, 0, 0, 0];
    assert!(c.rx_needs_fill());
    c.rx_fill(data, Vec::new());
    assert!(c.check_frame());
    let m: Recv = c.recv_header().unwrap().unwrap();
    assert_eq!((m.id, m.op, m.start, m.end), (2, 0, 8, 12));
    assert!(c.rx_needs_fill());
    let other = object(9, wl_callback::Obj);
    assert!(c.decode::<_, wl_callback::event::done>(&other, &m).is_none());
    let done = c.decode::<_, wl_callback::event::done>(&cb, &m).unwrap().unwrap();
    assert_eq!(done.callback_data, 42);
}

#[test]
fn two_messages_in_one_read() {
    let (mut c, _) = Client::new();
    let data = vec![2, 0, 0, 0, 0, 0, 12, 0, 1, 0, 0, 0, 3, 0, 0, 0, 0, 0, 12, 0, 2, 0, 0, 0];
    c.rx_fill(data, Vec::new());
    let a = c.recv_header().unwrap().unwrap();
    assert!(!c.rx_needs_fill());
    let b = c.recv_header().unwrap().unwrap();
    assert_eq!((a.id, a.end, b.id, b.start, b.end), (2, 12, 3, 20, 24));
}

#[test]
fn short_header_is_an_error() {
    let (mut c, _) = Client::new();
    c.rx_fill(vec![1, 0, 0], Vec::new());
    assert_eq!(c.recv_header().map(|m| m.is_some()), Err("dsr:u32: unexpected end of buffer"));
    c.rx_fill(Vec::new(), Vec::new());
    assert!(c.recv_header().unwrap().is_none());
}

#[test]
fn bad_frame_size_is_detected() {
    let (mut c, _) = Client::new();
    c.rx_fill(vec![2, 0, 0, 0, 0, 0, 40, 0], Vec::new());
    assert!(!c.check_frame());
}

#[test]
fn descriptors_stay_first_in_first_out() {
    let (mut c, _) = Client::new();
    c.rx_fill(Vec::new(), vec![Fd(3), Fd(4)]);
    c.rx_fill(Vec::new(), vec![Fd(5)]);
    let order: Vec<i32> = c.rxfds.iter().rev().map(|f| f.0).collect();
    assert_eq!(order, vec![3, 4, 5]);
}

#[test]
fn registry_event_creates_nothing_but_bind_does() {
    let (mut c, _) = Client::new();
    let reg = c.new_id::<wl_registry::wl_registry>().to_object();
    let data = vec![2, 0, 0, 0, 1, 0, 12, 0, 7, 0, 0, 0];
    c.rx_fill(data, Vec::new());
    let m = c.recv_header().unwrap().unwrap();
    let ev = c.decode::<_, wl_registry::event::global_remove>(&reg, &m).unwrap().unwrap();
    assert_eq!(ev.name, 7);
}

#[test]
fn pixel_index_is_row_major() {
    let pb = wl::ShmPixelBuffer {
        wl: object(3, wl::wl_buffer::Obj),
        locked: std::sync::Arc::new(std::sync::atomic::AtomicBool::new(false)),
        width: 300,
        height: 200,
    };
    assert_eq!(pb.pixel_index(0, 0), 0);
    assert_eq!(pb.pixel_index(5, 2), 605);
    assert_eq!(pb.pixel_index(299, 199), 59999);
    let wide = wl::ShmPixelBuffer {
        wl: object(3, wl::wl_buffer::Obj),
        locked: std::sync::Arc::new(std::sync::atomic::AtomicBool::new(false)),
        width: usize::MAX,
        height: 2,
    };
    assert_eq!(wide.pixel_index(7, 0), 7);
}

#[test]
fn lock_once_until_released() {
    let mut pb = wl::ShmPixelBuffer {
        wl: object(3, wl::wl_buffer::Obj),
        locked: std::sync::Arc::new(std::sync::atomic::AtomicBool::new(false)),
        width: 2,
        height: 2,
    };
    {
        let mut g = pb.lock().unwrap();
        assert_eq!(g.0.width, 2);
        assert!(g.release());
        assert_eq!((g.0.width, g.0.height, g.0.wl.0), (2, 2, 3));
        assert!(!g.release());
    }
    assert!(pb.lock().is_some());
    assert!(pb.lock().is_none());
}

#[test]
fn handler_takes_its_event_and_passes_others_on() {
    let (mut c, _) = Client::new();
    let cb = c.new_id::<wl_callback::wl_callback>().to_object();
    c.rx_fill(vec![2, 0, 0, 0, 0, 0, 12, 0, 42, 0, 0, 0], Vec::new());
    let m = c.recv_header().unwrap().unwrap();
    let mut got = None;
    let other = object(9, wl_callback::Obj);
    let state = RecvState::Pending(m)
        .on(&mut c, other, |_: wl_callback::event::done| panic!("not this object"))
        .on(&mut c, cb, |e: wl_callback::event::done| got = Some(e.callback_data));
    assert!(matches!(state, RecvState::Done(Ok(()))));
    assert_eq!(got, Some(42));
    let untouched = RecvState::Nothing.on(&mut c, cb, |_: wl_callback::event::done| panic!("nothing came"));
    assert!(matches!(untouched, RecvState::Nothing));
}

#[test]
fn empty_string_length_is_not_decodable() {
    let (mut c, _) = Client::new();
    let reg = c.new_id::<wl_registry::wl_registry>().to_object();
    // global(name 1, interface with length field 0, version 1)
    let data = vec![2, 0, 0, 0, 0, 0, 20, 0, 1, 0, 0, 0, 0, 0, 0, 0, 1, 0, 0, 0];
    c.rx_fill(data, Vec::new());
    let m = c.recv_header().unwrap().unwrap();
    assert!(!c.decodable::<_, wl_registry::event::global>(&reg, &m));
    assert!(c.decodable::<_, wl_registry::event::global_remove>(&reg, &m));
    let other = object(5, wl_registry::Obj);
    assert!(c.decodable::<_, wl_registry::event::global>(&other, &m));
}

#[test]
fn decodable_global_decodes() {
    let (mut c, _) = Client::new();
    let reg = c.new_id::<wl_registry::wl_registry>().to_object();
    // global(name 1, interface "ab", version 3)
    let data = vec![2, 0, 0, 0, 0, 0, 24, 0, 1, 0, 0, 0, 3, 0, 0, 0, b'a', b'b', 0, 0, 3, 0, 0, 0];
    c.rx_fill(data, Vec::new());
    let m = c.recv_header().unwrap().unwrap();
    assert!(c.decodable::<_, wl_registry::event::global>(&reg, &m));
    let ev = c.decode::<_, wl_registry::event::global>(&reg, &m).unwrap().unwrap();
    assert_eq!((ev.name, ev.interface.as_str(), ev.version), (1, "ab", 3));
}

#[test]
fn read_until_the_buffer_is_not_filled() {
    assert_eq!(Client::rx_next_len(3, 8), None);
    assert_eq!(Client::rx_next_len(0, 8), None);
    assert_eq!(Client::rx_next_len(8, 8), Some(16));
    assert_eq!(Client::rx_next_len(1024, 1024), Some(2048));
}

#[test]
fn global_event_length_is_checked() {
    let ev = wl_registry::event::global { name: 1, interface: "ab".to_string(), version: 3 };
    assert_eq!(wl::Ser::checked_len(&ev), Some(16));
}

#[test]
fn pixel_buffer_requests() {
    assert_eq!(wl::ShmPixelBuffer::mem_size(300, 200), 240000);
    let pool = wl::new_id(4, wl::wl_shm_pool::Obj);
    let r = wl::ShmPixelBuffer::pool_request(pool, Fd(7), 240000);
    assert_eq!((r.id.0, r.fd.0, r.size), (4, 7, 240000));
    let buf = wl::new_id(5, wl::wl_buffer::Obj);
    let b = wl::ShmPixelBuffer::buffer_request(buf, 300, 200);
    assert_eq!((b.id.0, b.offset, b.width, b.height, b.stride), (5, 0, 300, 200, 1200));
    assert_eq!(u32::from(b.format), 0);
}

#[test]
fn only_a_pending_message_goes_on_to_the_next_handler() {
    let m = Recv { id: 2, op: 0, start: 8, end: 12 };
    assert!(RecvState::Pending(m).is_pending());
    assert!(!RecvState::Nothing.is_pending());
    assert!(!RecvState::Done(Ok(())).is_pending());
    assert!(!RecvState::Done(Err("x")).is_pending());
}

#[test]
fn socket_path_prefers_the_socket_then_the_display() {
    assert_eq!(socket_path("/run/u", Some("/tmp/s".to_string()), Some("w-1".to_string())), "/tmp/s");
    assert_eq!(socket_path("/run/u", None, Some("w-1".to_string())), "/run/u/w-1");
    assert_eq!(socket_path("/run/u", None, None), "/run/u/wayland-0");
}

#[test]
fn construct_reuses_the_freed_id() {
    let (mut c, display) = Client::new();
    c.delete_id(9);
    let reg = c.construct(display, |registry| wl_display::request::get_registry { registry });
    assert_eq!(reg.0, 9);
    assert_eq!(c.maxid, 2);
    assert!(c.deleted_ids.is_empty());
    assert_eq!(&c.txbuf[..12], &[1, 0, 0, 0, 1, 0, 12, 0, 9, 0, 0, 0]);
}
