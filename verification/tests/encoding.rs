use short_str::{ShortStr, Variant, BYTE_SIZE, INLINE_BYTE_SIZE};

/// Verify that the length of inlined content lives in the final buffer byte
#[test]
fn verify_layout() {
    let test = ShortStr::from_str(b"test");
    let len = test.length_marker() as usize;
    assert_eq!(len, 4);
}

#[test]
fn long_str_facade() {
    let a: &[u8] = b"1 2 3 4 5 6 7 8 9 10";
    let short = ShortStr::from_str(a);
    assert!(
        short.is_str(),
        "expected long &str (length: {}) to become a ShortStr facade",
        a.len()
    );
    assert_eq!(a, short, "expected &str and its facade ShortStr to be equal");
}

#[test]
fn short_str_inline() {
    let a: &[u8] = b"hi";
    let short = ShortStr::from_str(a);
    assert!(
        !short.is_str(),
        "expected short &str (length: {}) to become inlined in ShortStr",
        a.len()
    );
    assert_eq!(
        short.len(),
        a.len(),
        "expected inlined &str (ShortStr) to have same length as original ({} vs. {})",
        short.len(),
        a.len()
    );
    assert_eq!(a, short, "expected inlined &str (ShortStr) to be equal to its original");
}

#[test]
fn empty_str_inline() {
    let a: &[u8] = b"";
    let short = ShortStr::from_str(a);
    assert!(!short.is_str(), "expected empty &str to become inlined in ShortStr");
    assert!(
        short.is_empty_inlined(),
        "expected empty &str to become empty ShortStr, but got one with length {}",
        short.len()
    );
    let empty = ShortStr::empty();
    assert_eq!(
        short, empty,
        "expected converted empty &str to be equal to constant empty ShortStr"
    );
}

#[test]
fn construct_from_two_bytes() {
    let v = ShortStr::from_str(b"hi");
    assert!(!v.is_str());
    assert!(!v.is_empty_inlined());
    assert_eq!(v.len(), 2);
    assert_eq!(v, b"hi".as_slice());
}

#[test]
fn construct_from_empty() {
    let v = ShortStr::from_str(b"");
    assert_eq!(v, ShortStr::empty());
    assert_eq!(v.len(), 0);
}

#[test]
fn construct_from_twenty_bytes() {
    let a: &[u8] = b"exactly twenty bytes";
    assert_eq!(a.len(), 20);
    let v = ShortStr::from_str(a);
    assert!(v.is_str());
    assert_eq!(v.len(), 20);
    assert_eq!(v.as_str(), a);
}

#[test]
fn round_trip_across_lengths() {
    let mut buf: Vec<u8> = Vec::new();
    for n in 0..=20usize {
        let v = ShortStr::from_str(&buf);
        assert_eq!(v.as_str(), &buf[..]);
        assert_eq!(v.len(), n);
        if n == 0 {
            assert!(v.is_empty_inlined());
        } else if n <= 15 {
            assert!(!v.is_str());
            assert!(!v.is_empty_inlined());
        } else {
            assert!(v.is_str());
        }
        assert_eq!(v, &buf[..]);
        assert_eq!(&buf[..], v);
        buf.push(b'a' + (n as u8 % 26));
    }
}

#[test]
fn fifteen_bytes_is_the_inline_boundary() {
    let at_boundary: &[u8] = b"123456789012345";
    let past_boundary: &[u8] = b"1234567890123456";
    assert_eq!(at_boundary.len(), INLINE_BYTE_SIZE);
    assert_eq!(past_boundary.len(), BYTE_SIZE);
    let v = ShortStr::from_str(at_boundary);
    let w = ShortStr::from_str(past_boundary);
    assert!(!v.is_str());
    assert_eq!(v.length_marker(), 15);
    assert!(w.is_str());
    assert_eq!(w.length_marker(), 0);
    assert_eq!(v.as_str(), at_boundary);
    assert_eq!(w.as_str(), past_boundary);
}

#[test]
fn unchecked_short_is_not_canonical() {
    let raw = ShortStr::from_str_unchecked(b"test");
    let canonical = ShortStr::from_str(b"test");
    assert!(raw.is_str());
    assert!(!canonical.is_str());
    assert_ne!(raw, canonical);
    assert_eq!(raw.as_str(), canonical.as_str());
}

#[test]
fn unchecked_long_equals_canonical() {
    let a: &[u8] = b"i am not inlined since i am long";
    let raw = ShortStr::from_str_unchecked(a);
    let canonical = ShortStr::from_str(a);
    assert_eq!(raw, canonical);
}

#[test]
fn variant_classification() {
    let inline = ShortStr::from_str(b"im small");
    match inline.variant() {
        Variant::Inlined(data) => {
            assert_eq!(&data[..8], b"im small".as_slice());
            assert_eq!(data[15], 8);
        },
        _ => panic!("expected an inlined variant"),
    }
    let long: &[u8] = b"i am too big to fit inside the structure";
    match ShortStr::from_str(long).variant() {
        Variant::Facade(f) => assert_eq!(f, long),
        _ => panic!("expected a facade variant"),
    }
    match ShortStr::empty().variant() {
        Variant::Empty => {},
        _ => panic!("expected the empty variant"),
    }
}

#[test]
fn equality_against_views_in_both_directions() {
    let v = ShortStr::from_str(b"hello, world!");
    assert_eq!(v, b"hello, world!".as_slice());
    assert_eq!(b"hello, world!".as_slice(), v);
    assert_ne!(v, b"hello, world".as_slice());
    assert_ne!(b"hello".as_slice(), v);
}

#[test]
fn alias_names_the_same_type() {
    let v: short_str::ShStr<'static> = ShortStr::from_str(b"hi");
    assert_eq!(v.len(), 2);
    assert_eq!(v, ShortStr::from_str(b"hi"));
}

#[test]
fn length_marker_holds_inline_length() {
    let v = ShortStr::from_str(b"hello");
    assert_eq!(v.length_marker(), 5);
    assert_eq!(v.len(), 5);
}
