use zeropb::{EnumField, Error, Oneof, Repeated, Root, Str};

const HDR: usize = 48;

#[test]
fn repeated_push_and_get_in_order() {
    let mut r = Root::new(HDR);
    let rep = Repeated::at(0);
    rep.push(&mut r, 10).unwrap();
    rep.push(&mut r, 20).unwrap();
    rep.push(&mut r, 30).unwrap();
    assert_eq!(rep.count(&r).unwrap(), 3);
    assert_eq!(rep.get(&r, 0).unwrap(), 10);
    assert_eq!(rep.get(&r, 1).unwrap(), 20);
    assert_eq!(rep.get(&r, 2).unwrap(), 30);
    assert_eq!(rep.get(&r, 3), Err(Error::BoundsError));
}

#[test]
fn repeated_survives_interleaved_payloads() {
    // another field's payload lands between pushes, forcing the element
    // region to relocate; order must be kept and nothing corrupted
    let mut r = Root::new(HDR);
    let rep = Repeated::at(0);
    let s = Str::at(16);
    rep.push(&mut r, 1).unwrap();
    s.set(&mut r, "wedge").unwrap();
    rep.push(&mut r, 2).unwrap();
    rep.push(&mut r, 3).unwrap();
    assert_eq!(rep.count(&r).unwrap(), 3);
    assert_eq!(rep.get(&r, 0).unwrap(), 1);
    assert_eq!(rep.get(&r, 1).unwrap(), 2);
    assert_eq!(rep.get(&r, 2).unwrap(), 3);
    assert_eq!(s.borrow(&r).unwrap(), "wedge");
}

#[test]
fn repeated_push_all_keeps_order() {
    let mut r = Root::new(HDR);
    let rep = Repeated::at(0);
    rep.push(&mut r, 5).unwrap();
    rep.push_all(&mut r, &[6, 7, 8]).unwrap();
    assert_eq!(rep.count(&r).unwrap(), 4);
    for (i, v) in [5u64, 6, 7, 8].iter().enumerate() {
        assert_eq!(rep.get(&r, i as u64).unwrap(), *v);
    }
    assert_eq!(rep.get(&r, 4), Err(Error::BoundsError));
}

#[test]
fn enum_set_rejects_foreign_value() {
    let mut r = Root::new(HDR);
    let e = EnumField::at(0, vec![0, 1, 2]);
    e.set(&mut r, 2).unwrap();
    assert_eq!(e.get(&r).unwrap(), 2);
    let before = r.as_bytes().clone();
    assert_eq!(e.set(&mut r, 5), Err(Error::InvalidEnumValue));
    // the field retains its prior value and nothing was written
    assert_eq!(r.as_bytes(), &before);
    assert_eq!(e.get(&r).unwrap(), 2);
}

#[test]
fn enum_zero_default_depends_on_members() {
    let r = Root::new(HDR);
    let with_zero = EnumField::at(0, vec![0, 1]);
    assert_eq!(with_zero.get(&r).unwrap(), 0);
    let without_zero = EnumField::at(0, vec![1, 2]);
    assert_eq!(without_zero.get(&r), Err(Error::DecodeError));
}

#[test]
fn enum_foreign_stored_discriminant_is_decode_error() {
    // an untrusted buffer carrying a discriminant outside the set
    let mut data = vec![0u8; HDR];
    data[0] = 9;
    let r = Root::from_bytes(data, HDR).unwrap();
    let e = EnumField::at(0, vec![0, 1, 2]);
    assert_eq!(e.get(&r), Err(Error::DecodeError));
}

#[test]
fn oneof_last_set_variant_wins() {
    let mut r = Root::new(HDR);
    let o = Oneof::at(0, vec![1, 2]);
    assert_eq!(o.get(&r).unwrap(), None);
    o.set_variant(&mut r, 1, "payload a".as_bytes()).unwrap();
    let (t, b) = o.get(&r).unwrap().unwrap();
    assert_eq!(t, 1);
    assert_eq!(b, "payload a".as_bytes());
    o.set_variant(&mut r, 2, &[5, 5, 5]).unwrap();
    // only variant 2 is observable now
    let (t2, b2) = o.get(&r).unwrap().unwrap();
    assert_eq!(t2, 2);
    assert_eq!(b2, &[5, 5, 5]);
}

#[test]
fn oneof_rejects_undeclared_or_sentinel_tag() {
    let mut r = Root::new(HDR);
    let o = Oneof::at(0, vec![1, 2]);
    assert_eq!(o.set_variant(&mut r, 3, &[1]), Err(Error::InvalidEnumValue));
    assert_eq!(o.set_variant(&mut r, 0, &[1]), Err(Error::InvalidEnumValue));
    assert_eq!(o.get(&r).unwrap(), None);
}

#[test]
fn oneof_foreign_stored_tag_is_decode_error() {
    let mut data = vec![0u8; HDR];
    data[0] = 7; // stored discriminant outside the declared set
    let r = Root::from_bytes(data, HDR).unwrap();
    let o = Oneof::at(0, vec![1, 2]);
    assert!(matches!(o.get(&r), Err(Error::DecodeError)));
}

#[test]
fn mutations_fail_while_writer_open() {
    let mut r = Root::new(64);
    let s = Str::at(0);
    let rep = Repeated::at(16);
    let e = EnumField::at(32, vec![0, 1]);
    let o = Oneof::at(40, vec![1]);
    let w = s.new_writer(&mut r).unwrap();
    assert_eq!(rep.push(&mut r, 1), Err(Error::AlreadyWriting));
    assert_eq!(e.set(&mut r, 1), Err(Error::AlreadyWriting));
    assert_eq!(o.set_variant(&mut r, 1, &[1]), Err(Error::AlreadyWriting));
    w.finish(&mut r);
    rep.push(&mut r, 1).unwrap();
    assert_eq!(rep.get(&r, 0).unwrap(), 1);
}
