use zeropb::{Bytes, Error, Fixed64, Layout, Root, Str};

// Header layout used across these tests: a text field's slot is 16
// bytes, a fixed scalar is 8.
const HDR: usize = 24;

#[test]
fn test_str_set() {
    let mut r = Root::new(HDR);
    let s = Str::at(0);
    s.set(&mut r, "hello").unwrap();
    assert_eq!(s.borrow(&r).unwrap(), "hello");
}

#[test]
fn test_str_writer() {
    let mut r = Root::new(HDR);
    let s = Str::at(0);
    let w = s.new_writer(&mut r).unwrap();
    w.write(&mut r, "hello");
    w.write(&mut r, " world");
    w.finish(&mut r);
    assert_eq!(s.borrow(&r).unwrap(), "hello world");
}

#[test]
fn str_empty_and_unset() {
    let mut r = Root::new(HDR);
    let s = Str::at(0);
    assert_eq!(s.borrow(&r).unwrap(), "");
    s.set(&mut r, "").unwrap();
    assert_eq!(s.borrow(&r).unwrap(), "");
}

#[test]
fn str_replace_keeps_latest() {
    let mut r = Root::new(HDR);
    let s = Str::at(0);
    s.set(&mut r, "first").unwrap();
    s.set(&mut r, "second value that is longer").unwrap();
    assert_eq!(s.borrow(&r).unwrap(), "second value that is longer");
}

#[test]
fn str_set_bytes_rejects_invalid_utf8() {
    let mut r = Root::new(HDR);
    let s = Str::at(0);
    s.set(&mut r, "keep").unwrap();
    let before = r.as_bytes().clone();
    assert_eq!(s.set_bytes(&mut r, &[0xff, 0xfe, 0x41]), Err(Error::EncodingError));
    // the failed set left the buffer untouched
    assert_eq!(r.as_bytes(), &before);
    assert_eq!(s.borrow(&r).unwrap(), "keep");
    s.set_bytes(&mut r, "ok".as_bytes()).unwrap();
    assert_eq!(s.borrow(&r).unwrap(), "ok");
}

#[test]
fn second_writer_fails_and_first_loses_nothing() {
    let mut r = Root::new(HDR + 16);
    let a = Str::at(0);
    let b = Str::at(16);
    let w = a.new_writer(&mut r).unwrap();
    w.write(&mut r, "part");
    // a second writer is refused while the first is open
    assert!(matches!(b.new_writer(&mut r), Err(Error::AlreadyWriting)));
    // so is any whole-value mutation
    assert!(matches!(b.set(&mut r, "x"), Err(Error::AlreadyWriting)));
    // the first writer keeps working; no data was lost
    w.write(&mut r, "ial");
    w.finish(&mut r);
    assert_eq!(a.borrow(&r).unwrap(), "partial");
    // and after it finishes, a new writer may open
    let w2 = b.new_writer(&mut r).unwrap();
    w2.write(&mut r, "two");
    w2.finish(&mut r);
    assert_eq!(b.borrow(&r).unwrap(), "two");
}

#[test]
fn abandoned_writer_leaves_truncated_value() {
    let mut r = Root::new(HDR);
    let s = Str::at(0);
    let w = s.new_writer(&mut r).unwrap();
    w.write(&mut r, "committed");
    // the writer handle is dropped without finishing
    drop(w);
    assert!(matches!(s.new_writer(&mut r), Err(Error::AlreadyWriting)));
    // the field still holds everything committed so far
    assert_eq!(s.borrow(&r).unwrap(), "committed");
    r.cancel_writer();
    let w2 = s.new_writer(&mut r).unwrap();
    w2.write(&mut r, "fresh");
    w2.finish(&mut r);
    assert_eq!(s.borrow(&r).unwrap(), "fresh");
}

#[test]
fn bytes_set_and_writer() {
    let mut r = Root::new(HDR);
    let b = Bytes::at(0);
    b.set(&mut r, &[1, 2, 3, 0xff]).unwrap();
    assert_eq!(b.borrow(&r).unwrap(), &[1, 2, 3, 0xff]);
    let w = b.new_writer(&mut r).unwrap();
    w.write(&mut r, &[9, 8]);
    w.write(&mut r, &[7]);
    w.finish(&mut r);
    assert_eq!(b.borrow(&r).unwrap(), &[9, 8, 7]);
}

#[test]
fn growth_preserves_earlier_fields() {
    let mut r = Root::new(40);
    let a = Str::at(0);
    let b = Str::at(16);
    let x = Fixed64::at(32);
    a.set(&mut r, "anchor").unwrap();
    x.set(&mut r, 77).unwrap();
    // force repeated growth well beyond any initial capacity
    let big = "0123456789abcdef".repeat(512);
    b.set(&mut r, &big).unwrap();
    assert_eq!(a.borrow(&r).unwrap(), "anchor");
    assert_eq!(x.get(&r), 77);
    assert_eq!(b.borrow(&r).unwrap(), big.as_str());
}

#[test]
fn multi_field_roundtrip() {
    // a message of shape { s: text, x: fixed scalar }
    let mut r = Root::new(HDR);
    let s = Str::at(0);
    let x = Fixed64::at(16);
    s.set(&mut r, "hello").unwrap();
    assert_eq!(s.borrow(&r).unwrap(), "hello");
    x.set(&mut r, 42).unwrap();
    let w = s.new_writer(&mut r).unwrap();
    w.write(&mut r, "hello");
    w.write(&mut r, " world");
    w.finish(&mut r);
    assert_eq!(s.borrow(&r).unwrap(), "hello world");
    assert_eq!(x.get(&r), 42);
}

#[test]
fn wire_bytes_roundtrip_through_from_bytes() {
    let mut r = Root::new(HDR);
    let s = Str::at(0);
    let x = Fixed64::at(16);
    s.set(&mut r, "over the wire").unwrap();
    x.set(&mut r, 9).unwrap();
    let wire = r.as_bytes().clone();
    let r2 = Root::from_bytes(wire, HDR).unwrap();
    assert_eq!(s.borrow(&r2).unwrap(), "over the wire");
    assert_eq!(x.get(&r2), 9);
}

#[test]
fn from_bytes_rejects_short_buffer() {
    assert!(matches!(Root::from_bytes(vec![0u8; 10], HDR), Err(Error::DecodeError)));
}

#[test]
fn corrupt_slot_is_a_decode_error() {
    // a slot pointing past the end of the buffer
    let mut data = vec![0u8; HDR];
    data[0] = 200; // offset 200, far beyond the buffer
    data[8] = 4; // length 4
    let r = Root::from_bytes(data, HDR).unwrap();
    let s = Str::at(0);
    assert_eq!(s.borrow(&r), Err(Error::DecodeError));
    // a slot pointing into the header is equally invalid
    let mut data2 = vec![0u8; HDR + 8];
    data2[0] = 4; // offset 4 lies inside the header
    data2[8] = 2;
    let r2 = Root::from_bytes(data2, HDR).unwrap();
    assert_eq!(s.borrow(&r2), Err(Error::DecodeError));
}

#[test]
fn invalid_utf8_payload_is_a_decode_error() {
    let mut r = Root::new(HDR);
    let b = Bytes::at(0);
    b.set(&mut r, &[0xff, 0xfe]).unwrap();
    // the same slot read as text must fail, not crash
    let s = Str::at(0);
    assert_eq!(s.borrow(&r), Err(Error::DecodeError));
    // but reading it back as bytes still works
    assert_eq!(b.borrow(&r).unwrap(), &[0xff, 0xfe]);
}

#[test]
fn layout_builder_allocates_disjoint_fields() {
    let mut layout = Layout::new();
    let s = layout.str_field();
    let x = layout.fixed64_field();
    let rep = layout.repeated_field();
    let e = layout.enum_field(vec![0, 1]);
    let o = layout.oneof_field(vec![1]);
    let hdr = layout.header_size();
    assert_eq!(hdr, 16 + 8 + 16 + 8 + 24);
    let mut r = Root::new(hdr);
    s.set(&mut r, "abc").unwrap();
    x.set(&mut r, 5).unwrap();
    rep.push(&mut r, 11).unwrap();
    e.set(&mut r, 1).unwrap();
    o.set_variant(&mut r, 1, &[2, 4]).unwrap();
    assert_eq!(s.borrow(&r).unwrap(), "abc");
    assert_eq!(x.get(&r), 5);
    assert_eq!(rep.get(&r, 0).unwrap(), 11);
    assert_eq!(e.get(&r).unwrap(), 1);
    let (t, b) = o.get(&r).unwrap().unwrap();
    assert_eq!(t, 1);
    assert_eq!(b, &[2u8, 4]);
}
