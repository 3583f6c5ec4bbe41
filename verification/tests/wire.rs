use wl::wire::Fd;
use wl::{fixed, object, new_id, Dyn, Dsr, Ser};

fn ser<T: Ser>(v: T, room: usize) -> (Result<usize, &'static str>, Vec<u8>, Vec<Fd>) {
    let mut buf = vec![0xaau8; room];
    let mut fds = Vec::new();
    let r = v.serialize(&mut buf, &mut fds);
    (r, buf, fds)
}

#[test]
fn u32_is_written_little_endian() {
    let (r, buf, fds) = ser(0x11223344u32, 6);
    assert_eq!(r, Ok(4));
    assert_eq!(buf, vec![0x44, 0x33, 0x22, 0x11, 0xaa, 0xaa]);
    assert!(fds.is_empty());
}

#[test]
fn u32_reads_back() {
    let mut fds = Vec::new();
    let r = u32::deserialize(&[0x44, 0x33, 0x22, 0x11, 9], &mut fds);
    assert_eq!(r, Ok((0x11223344, 4)));
}

#[test]
fn short_buffer_takes_what_fits() {
    let (r, buf, _) = ser(0x04030201u32, 3);
    assert_eq!(r, Ok(4));
    assert_eq!(buf, vec![1, 2, 3]);
    let (r, buf, _) = ser("ab".to_string(), 7);
    assert_eq!(r, Ok(8));
    assert_eq!(buf, vec![3, 0, 0, 0, b'a', b'b', 0]);
}

#[test]
fn short_input_errors() {
    let mut fds = Vec::new();
    assert_eq!(u32::deserialize(&[1, 2, 3], &mut fds), Err("dsr:u32: unexpected end of buffer"));
    assert_eq!(i32::deserialize(&[1, 2, 3], &mut fds), Err("dsr:i32: unexpected end of buffer"));
}

#[test]
fn i32_round_trip() {
    let (r, buf, _) = ser(-2i32, 4);
    assert_eq!(r, Ok(4));
    assert_eq!(buf, vec![0xfe, 0xff, 0xff, 0xff]);
    let mut fds = Vec::new();
    assert_eq!(i32::deserialize(&buf, &mut fds), Ok((-2, 4)));
}

#[test]
fn fixed_is_its_raw_word() {
    let (r, buf, _) = ser(fixed(0x100), 4);
    assert_eq!(r, Ok(4));
    assert_eq!(buf, vec![0, 1, 0, 0]);
    let mut fds = Vec::new();
    let (f, n) = fixed::deserialize(&buf, &mut fds).unwrap();
    assert_eq!((f.0, n), (0x100, 4));
}

#[test]
fn string_layout() {
    let (r, buf, _) = ser(String::from("abc"), 10);
    assert_eq!(r, Ok(8));
    assert_eq!(&buf[..8], &[4, 0, 0, 0, b'a', b'b', b'c', 0]);
    assert_eq!(&buf[8..], &[0xaa, 0xaa]);
    let (r, buf, _) = ser(String::from("hello"), 12);
    assert_eq!(r, Ok(12));
    assert_eq!(buf, vec![6, 0, 0, 0, b'h', b'e', b'l', b'l', b'o', 0, 0, 0]);
}

#[test]
fn string_reads_back() {
    let mut fds = Vec::new();
    let bytes = [6, 0, 0, 0, b'h', b'e', b'l', b'l', b'o', 0, 0, 0, 1];
    let (s, n) = String::deserialize(&bytes, &mut fds).unwrap();
    assert_eq!(s, "hello");
    assert_eq!(n, 12);
}

#[test]
fn string_of_four_bytes_reads_short() {
    // The reader counts the text without its terminating NUL before padding,
    // so a text of a multiple of four bytes is taken as four bytes shorter.
    let (r, buf, _) = ser(String::from("abcd"), 12);
    assert_eq!(r, Ok(12));
    let mut fds = Vec::new();
    let (s, n) = String::deserialize(&buf, &mut fds).unwrap();
    assert_eq!(s, "abcd");
    assert_eq!(n, 8);
}

#[test]
fn string_errors() {
    let mut fds = Vec::new();
    assert_eq!(
        String::deserialize(&[9, 0, 0, 0, b'a'], &mut fds),
        Err("dsr:str: unexpected end of buffer")
    );
    assert_eq!(String::deserialize(&[3, 0, 0, 0, 0xff, 0xfe, 0], &mut fds), Err("invalid string"));
    assert_eq!(
        String::deserialize(&[2, 0, 0, 0, b'a', 0], &mut fds),
        Err("dsr:str: unexpected end of buffer")
    );
}

#[test]
fn array_layout_and_back() {
    let (r, buf, _) = ser(vec![1u8, 2, 3, 4, 5], 12);
    assert_eq!(r, Ok(12));
    assert_eq!(buf, vec![5, 0, 0, 0, 1, 2, 3, 4, 5, 0, 0, 0]);
    let mut fds = Vec::new();
    assert_eq!(Vec::<u8>::deserialize(&buf, &mut fds), Ok((vec![1, 2, 3, 4, 5], 12)));
    assert_eq!(
        Vec::<u8>::deserialize(&[8, 0, 0, 0, 1], &mut fds),
        Err("dsr:array: unexpected end of buffer")
    );
}

#[test]
fn fds_travel_beside_the_bytes() {
    let (r, buf, fds) = ser(Fd(7), 0);
    assert_eq!(r, Ok(0));
    assert!(buf.is_empty());
    assert_eq!(fds.len(), 1);
    assert_eq!(fds[0].0, 7);
    let mut q = vec![Fd(3), Fd(4)];
    let (fd, n) = Fd::deserialize(&[], &mut q).unwrap();
    assert_eq!((fd.0, n), (4, 0));
    assert_eq!(q.len(), 1);
    let mut empty: Vec<Fd> = Vec::new();
    assert_eq!(Fd::deserialize(&[], &mut empty).map(|(f, n)| (f.0, n)), Err("unexpected end of fds"));
}

#[test]
fn objects_and_null() {
    let o = object(9, wl::wl_surface::Obj);
    let (r, buf, _) = ser(o, 4);
    assert_eq!(r, Ok(4));
    assert_eq!(buf, vec![9, 0, 0, 0]);
    let mut fds = Vec::new();
    let (back, n) = object::<wl::wl_surface::wl_surface>::deserialize(&buf, &mut fds).unwrap();
    assert_eq!((back.0, n), (9, 4));
    assert_eq!(
        object::<wl::wl_surface::wl_surface>::deserialize(&[0, 0, 0, 0], &mut fds).map(|(o, n)| (o.0, n)),
        Err("null object where none was expected")
    );
}

#[test]
fn optional_objects() {
    let (r, buf, _) = ser(None::<object<wl::wl_output::wl_output>>, 4);
    assert_eq!(r, Ok(4));
    assert_eq!(buf, vec![0, 0, 0, 0]);
    let mut fds = Vec::new();
    let (none, n) = Option::<object<wl::wl_output::wl_output>>::deserialize(&buf, &mut fds).unwrap();
    assert!(none.is_none());
    assert_eq!(n, 4);
    let (some, n) = Option::<object<wl::wl_output::wl_output>>::deserialize(&[5, 0, 0, 0], &mut fds).unwrap();
    assert_eq!(some.map(|o| o.0), Some(5));
    assert_eq!(n, 4);
}

#[test]
fn new_id_of_named_interface() {
    let id = new_id(3, wl::wl_compositor::Obj).to_dyn(4);
    assert_eq!(id.0, 3);
    assert_eq!(id.1.name, "wl_compositor");
    assert_eq!(id.1.version, 4);
    let (r, buf, _) = ser(id, 32);
    assert_eq!(r, Ok(4 + 16 + 4 + 4));
    assert_eq!(&buf[..4], &[14, 0, 0, 0]);
    assert_eq!(&buf[4..18], b"wl_compositor\0");
    assert_eq!(&buf[18..28], &[0, 0, 4, 0, 0, 0, 3, 0, 0, 0]);
    let mut fds = Vec::new();
    let (back, n) = new_id::<Dyn>::deserialize(&buf, &mut fds).unwrap();
    assert_eq!(n, 28);
    assert_eq!((back.0, back.1.name.as_str(), back.1.version), (3, "wl_compositor", 4));
}

#[test]
fn to_object_keeps_the_id() {
    let n = new_id(12, wl::wl_region::Obj);
    let o = n.to_object();
    assert_eq!(o.0, 12);
    let d = object(12, wl::wl_seat::Obj).to_dyn(7);
    assert_eq!((d.0, d.1.name.as_str(), d.1.version), (12, "wl_seat", 7));
}

#[test]
fn zero_length_string_is_not_taken() {
    let mut fds = Vec::new();
    let r = String::try_deserialize(&[0, 0, 0, 0, 9, 9, 9, 9], &mut fds);
    assert!(r.is_none());
    let r = String::try_deserialize(&[2, 0, 0, 0, b'x', 0, 0, 0], &mut fds);
    assert_eq!(r, Some(Ok(("x".to_string(), 8))));
    let r = String::try_deserialize(&[9, 0, 0, 0], &mut fds);
    assert_eq!(r, Some(Err("dsr:str: unexpected end of buffer")));
}

#[test]
fn checked_len_matches_the_written_length() {
    assert_eq!(7u32.checked_len(), Some(4));
    assert_eq!(Fd(3).checked_len(), Some(0));
    assert_eq!("abc".to_string().checked_len(), Some(8));
    assert_eq!("abcd".to_string().checked_len(), Some(12));
    assert_eq!(vec![1u8, 2, 3, 4, 5].checked_len(), Some(12));
    let d = Dyn { name: "wl_shm".to_string(), version: 1 };
    assert_eq!(d.checked_len(), Some(16));
}

#[test]
fn array_of_four_reads_back_whole() {
    let v = vec![9u8, 8, 7, 6];
    let (r, buf, _) = ser(v.clone(), 8);
    assert_eq!(r, Ok(8));
    let mut fds = Vec::new();
    assert_eq!(Vec::<u8>::deserialize(&buf, &mut fds), Ok((v, 8)));
    let (r, buf, _) = ser(vec![1u8, 2, 3, 4], 6);
    assert_eq!(r, Ok(8));
    assert_eq!(buf, vec![4, 0, 0, 0, 1, 2]);
}
