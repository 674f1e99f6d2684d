use short_str::order::compare_bytes;
use short_str::ShortStr;
use std::cmp::Ordering;

#[test]
fn ordering_is_lexicographic_over_content() {
    let a = ShortStr::from_str(b"abc");
    let b = ShortStr::from_str(b"abd");
    assert!(a < b);
    assert!(b > a);
    assert_eq!(a.partial_cmp(&ShortStr::from_str(b"abc")), Some(Ordering::Equal));
}

#[test]
fn prefix_orders_before_longer_content() {
    let short = ShortStr::from_str(b"abc");
    let long = ShortStr::from_str(b"abc but much longer than fifteen");
    assert!(short < long);
    assert!(ShortStr::empty() < short);
}

#[test]
fn facade_and_inline_order_by_content_not_by_buffer() {
    // The facade's buffer is all zero while the inlined buffer holds content
    // bytes, so a raw-buffer order would always rank the facade first; the
    // content order must not.
    let facade = ShortStr::from_str(b"zzz and then some more text");
    let inline = ShortStr::from_str(b"aaa");
    assert!(inline < facade);
}

#[test]
fn compare_bytes_decides_on_first_difference() {
    assert_eq!(compare_bytes(b"abc", b"abd"), Ordering::Less);
    assert_eq!(compare_bytes(b"abd", b"abc"), Ordering::Greater);
    assert_eq!(compare_bytes(b"abc", b"abc"), Ordering::Equal);
    assert_eq!(compare_bytes(b"ab", b"abc"), Ordering::Less);
    assert_eq!(compare_bytes(b"", b""), Ordering::Equal);
    assert_eq!(compare_bytes(b"", b"a"), Ordering::Less);
}

#[test]
fn non_canonical_value_still_orders_by_content() {
    let raw = ShortStr::from_str_unchecked(b"abc");
    let canonical = ShortStr::from_str(b"abc");
    assert_eq!(raw.partial_cmp(&canonical), Some(Ordering::Equal));
    assert_ne!(raw, canonical);
}
