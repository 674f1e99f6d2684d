use short_str::{ByteBounds, ShortStr, SliceError};

#[test]
fn range_from_into_range() {
    let short = ShortStr::from_str(b"abc");
    assert_eq!(short.bounds_to_range(ByteBounds::From(1)), 1..3);
}

#[test]
fn range_to_into_range() {
    let short = ShortStr::from_str(b"abc");
    assert_eq!(short.bounds_to_range(ByteBounds::To(1)), 0..1);
}

#[test]
fn range_into_range() {
    let short = ShortStr::from_str(b"abc");
    assert_eq!(short.bounds_to_range(ByteBounds::Span(0, 1)), 0..1);
}

#[test]
fn range_full_into_range() {
    let short = ShortStr::from_str(b"abc");
    assert_eq!(short.bounds_to_range(ByteBounds::Full), 0..3);
}

#[test]
fn range_to_inclusive_into_range() {
    let short = ShortStr::from_str(b"abc");
    assert_eq!(short.bounds_to_range(ByteBounds::ToInclusive(3)), 0..4);
}

#[test]
fn range_inclusive_into_range() {
    let short = ShortStr::from_str(b"abc");
    assert_eq!(short.bounds_to_range(ByteBounds::SpanInclusive(1, 3)), 1..4);
}

#[test]
fn oversized_slice_end_rejected() {
    let short = ShortStr::from_str(b"abc");
    assert_eq!(short.slice(ByteBounds::To(4)), Err(SliceError::EndOutOfBounds));
}

#[test]
fn oversized_slice_start_rejected() {
    let short = ShortStr::from_str(b"abc");
    assert_eq!(short.slice(ByteBounds::From(4)), Err(SliceError::StartAfterEnd));
}

#[test]
fn descending_slice_rejected() {
    let short = ShortStr::from_str(b"abc");
    assert_eq!(short.slice(ByteBounds::Span(4, 1)), Err(SliceError::StartAfterEnd));
}

#[test]
fn inline_str_upper_slice_length() {
    let a = ShortStr::from_str(b"abc");
    let b = a.slice(ByteBounds::From(1)).unwrap();
    assert_eq!(
        b.len(),
        a.len() - 1,
        "expected smaller slice of ShortStr to be smaller than original"
    );
    assert_eq!(
        b.len(),
        a.as_str()[1..].len(),
        "expected slice on ShortStr to have the same length as &str using the same slice"
    );
}

#[test]
fn slice_middle_of_inline() {
    let v = ShortStr::from_str(b"abc");
    let s = v.slice(ByteBounds::Span(1, 3)).unwrap();
    assert_eq!(s.len(), 2);
    assert_eq!(s.as_str(), b"bc".as_slice());
}

#[test]
fn full_range_slice_is_identity() {
    for content in [b"".as_slice(), b"abc".as_slice(), b"a string longer than fifteen".as_slice()]
    {
        let v = ShortStr::from_str(content);
        let s = v.slice(ByteBounds::Full).unwrap();
        assert_eq!(s, v);
        assert_eq!(s.is_str(), v.is_str());
    }
}

#[test]
fn empty_range_slices_to_canonical_empty() {
    let long = ShortStr::from_str(b"a long string over fifteen bytes");
    assert_eq!(long.slice(ByteBounds::Span(4, 4)).unwrap(), ShortStr::empty());
    let short = ShortStr::from_str(b"abc");
    assert_eq!(short.slice(ByteBounds::Span(2, 2)).unwrap(), ShortStr::empty());
    assert_eq!(ShortStr::empty().slice(ByteBounds::Full).unwrap(), ShortStr::empty());
    let raw = ShortStr::from_str_unchecked(b"ab");
    assert_eq!(raw.slice(ByteBounds::To(0)).unwrap(), ShortStr::empty());
}

#[test]
fn slice_length_equals_range_length() {
    let v = ShortStr::from_str(b"0123456789abcdefghij");
    for (start, end) in [(0usize, 0usize), (0, 5), (3, 11), (5, 20), (0, 20)] {
        let s = v.slice(ByteBounds::Span(start, end)).unwrap();
        assert_eq!(s.len(), end - start);
    }
}

#[test]
fn inline_slice_matches_byte_copy() {
    let v = ShortStr::from_str(b"abcdefghijklmno");
    assert!(!v.is_str());
    for start in 0..=15usize {
        for end in start..=15usize {
            let s = v.slice(ByteBounds::Span(start, end)).unwrap();
            assert_eq!(s.as_str(), &v.as_str()[start..end]);
        }
    }
}

#[test]
fn facade_slice_inlines_short_result() {
    let long = ShortStr::from_str(b"0123456789abcdefghij");
    let s = long.slice(ByteBounds::Span(2, 10)).unwrap();
    assert!(!s.is_str());
    assert_eq!(s.as_str(), b"23456789".as_slice());
    let t = long.slice(ByteBounds::Span(0, 18)).unwrap();
    assert!(t.is_str());
    assert_eq!(t.as_str(), b"0123456789abcdefgh".as_slice());
}

#[test]
fn checked_slice_rejects_for_every_variant() {
    let values = [
        ShortStr::empty(),
        ShortStr::from_str(b"abc"),
        ShortStr::from_str(b"a string longer than fifteen"),
        ShortStr::from_str_unchecked(b"xy"),
    ];
    for v in values {
        let n = v.len();
        assert_eq!(v.slice(ByteBounds::Span(n + 2, n + 1)), Err(SliceError::StartAfterEnd));
        assert_eq!(v.slice(ByteBounds::Span(0, n + 1)), Err(SliceError::EndOutOfBounds));
        assert_eq!(v.slice(ByteBounds::ToInclusive(n)), Err(SliceError::EndOutOfBounds));
    }
}

#[test]
fn unchecked_slice_of_inline_by_bit_manipulation() {
    let v = ShortStr::from_str(b"hello, world!");
    let s = v.slice_unchecked(ByteBounds::To(5));
    assert_eq!(s.as_str(), b"hello".as_slice());
    assert!(!s.is_str());
}
