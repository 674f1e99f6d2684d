//! A copy-cheap string value that stores its content either as a borrowed
//! byte-slice facade or, when the content is short enough, inlined in the
//! value's own fixed-size buffer.
//!
//! The buffer is `2 * 8 = 16` bytes wide, mirroring a two-word borrowed-view
//! layout. Its final byte is the *length marker* and doubles as the variant
//! discriminant: marker `0` means the value is a facade for a borrowed slice,
//! a marker with the high bit set means the canonical empty value, and a
//! marker `1 ..= 15` means the leading `marker` buffer bytes hold the content
//! inline. In the native layout the facade's pointer and length words would
//! overlap the buffer; here the borrowed slice is held in a typed field and
//! the buffer of a facade is all zero, with the marker byte still the single
//! source of truth for classification.

use vstd::prelude::*;

mod cover;
pub mod order;
mod slice;

pub use slice::{ByteBounds, SliceError};

verus! {

use core::cmp::Ordering;
use vstd::slice::slice_subrange;
use crate::cover::{byte_of, cover_of_bytes, lemma_byte_ext};
use crate::order::{bytes_eq, compare_bytes, lex_cmp};

/// Width of the value's buffer in bytes: two 64-bit machine words.
pub const BYTE_SIZE: usize = 16;

/// Greatest content length that can be stored inline; one byte of the buffer
/// is reserved for the length marker.
pub const INLINE_BYTE_SIZE: usize = 15;

/// A string of bytes, either borrowed (a facade over a `&[u8]`) or stored
/// inline in the 16-byte buffer. Values are immutable once constructed and
/// cheap to copy.
#[derive(Clone, Copy, Debug)]
pub struct ShortStr<'a> {
    pub(crate) data: [u8; 16],
    pub(crate) facade: Option<&'a [u8]>,
}

/// Shorthand name for [`ShortStr`].
pub type ShStr<'a> = ShortStr<'a>;

/// The three logical variants a [`ShortStr`] can take, as classified by its
/// length marker.
#[derive(Clone, Copy, Debug)]
pub enum Variant<'a> {
    /// Content held in the value's own buffer; the payload is the raw buffer.
    Inlined([u8; 16]),
    /// The value is a facade over a borrowed slice.
    Facade(&'a [u8]),
    /// The canonical empty value.
    Empty,
}

/// The 16-byte buffer of a facade value: all zero.
spec fn zero16() -> Seq<u8> {
    Seq::new(16, |i: int| 0u8)
}

/// The 16-byte buffer of the canonical empty value: marker `0xff`, rest zero.
spec fn empty16() -> Seq<u8> {
    zero16().update(15, 0xffu8)
}

/// The 16-byte buffer that inlines content `s`: the content bytes, then
/// zeroes, then the content length as the marker byte.
spec fn inline16(s: Seq<u8>) -> Seq<u8>
    recommends
        1 <= s.len() <= 15,
{
    Seq::new(
        16,
        |i: int|
            if i < s.len() {
                s[i]
            } else if i < 15 {
                0u8
            } else {
                s.len() as u8
            },
    )
}

impl<'a> View for ShortStr<'a> {
    type V = Seq<u8>;

    /// The content bytes the value represents.
    closed spec fn view(&self) -> Seq<u8> {
        if self.data@[15] == 0 {
            match self.facade {
                Some(f) => f@,
                None => Seq::empty(),
            }
        } else if self.data@[15] <= 15 {
            self.data@.subrange(0, self.data@[15] as int)
        } else {
            Seq::empty()
        }
    }
}

impl<'a> ShortStr<'a> {
    /// The length marker: the final byte of the buffer.
    pub closed spec fn marker(self) -> u8 {
        self.data@[15]
    }

    /// The raw 16-byte buffer, as a sequence.
    pub closed spec fn buffer(self) -> Seq<u8> {
        self.data@
    }

    /// The value is a facade over a borrowed slice (marker `0`).
    pub open spec fn is_facade_spec(self) -> bool {
        self.marker() == 0
    }

    /// The value holds its content inline (marker `1 ..= 15`).
    pub open spec fn is_inlined_spec(self) -> bool {
        1 <= self.marker() <= 15
    }

    /// The value is the empty encoding (marker with the high bit set).
    pub open spec fn is_empty_spec(self) -> bool {
        self.marker() >= 128
    }

    /// Representation invariant: the marker is one of the three legal shapes,
    /// the facade field is present exactly for marker `0`, a facade's buffer
    /// is all zero, an inline value zeroes the bytes between its content and
    /// the marker, and the empty value has the single canonical buffer.
    #[verifier::type_invariant]
    pub closed spec fn wf(self) -> bool {
        &&& self.is_facade_spec() ==> (self.facade is Some && self.data@ == zero16())
        &&& self.is_inlined_spec() ==> (self.facade is None && forall|i: int|
            self.marker() <= i < 15 ==> self.data@[i] == 0)
        &&& self.is_empty_spec() ==> (self.facade is None && self.data@ == empty16())
        &&& !(15 < self.marker() < 128)
    }

    /// The value is in canonical form: content short enough to inline is never
    /// left in facade form, and empty content is the canonical empty value.
    pub open spec fn canonical(self) -> bool {
        self.wf() && (self.is_facade_spec() ==> self@.len() > 15)
    }

    /// Two values have bit-identical encodings: equal buffers, and for
    /// facades, borrowed views of the same content. This is what the equality
    /// operator compares.
    pub closed spec fn same_encoding<'b>(self, other: ShortStr<'b>) -> bool {
        &&& self.data@ == other.data@
        &&& match (self.facade, other.facade) {
            (Some(f), Some(g)) => f@ == g@,
            (None, None) => true,
            _ => false,
        }
    }

    /// The value is the canonical encoding of content `s`.
    pub closed spec fn is_canonical_encoding_of(self, s: Seq<u8>) -> bool {
        if s.len() == 0 {
            self.facade is None && self.data@ == empty16()
        } else if s.len() <= 15 {
            self.facade is None && self.data@ == inline16(s)
        } else {
            self.data@ == zero16() && (self.facade matches Some(f) && f@ == s)
        }
    }

    /// The canonical empty value.
    pub fn empty() -> (r: Self)
        ensures
            r.is_canonical_encoding_of(Seq::empty()),
            r@ == Seq::<u8>::empty(),
            r.canonical(),
            r.is_empty_spec(),
    {
        let mut data: [u8; 16] = [0; 16];
        data[15] = 0xff;
        proof {
            assert(data@ =~= empty16());
        }
        let r = ShortStr { data, facade: None };
        proof {
            assert(r@ =~= Seq::<u8>::empty());
        }
        r
    }

    /// The number of content bytes.
    pub fn len(self) -> (r: usize)
        ensures
            r == self@.len(),
    {
        proof {
            use_type_invariant(self);
        }
        match self.facade {
            Some(f) => f.len(),
            None => {
                if self.length_marker() >= 128 {
                    0
                } else {
                    self.length_marker() as usize
                }
            },
        }
    }

    /// The length marker byte itself.
    pub fn length_marker(self) -> (r: u8)
        ensures
            r == self.marker(),
    {
        self.data[15]
    }

    /// Whether the value is a facade for a borrowed slice rather than inlined.
    pub fn is_str(self) -> (r: bool)
        ensures
            r == self.is_facade_spec(),
    {
        self.length_marker() == 0
    }

    /// Whether the value is the empty encoding.
    pub fn is_empty_inlined(self) -> (r: bool)
        ensures
            r == self.is_empty_spec(),
    {
        self.length_marker() >= 128
    }

    /// Canonicalizing construction from a borrowed slice: empty content
    /// becomes the canonical empty value, content of at most 15 bytes is
    /// copied inline, and longer content is kept as a facade.
    pub fn from_str(value: &'a [u8]) -> (r: Self)
        ensures
            r.is_canonical_encoding_of(value@),
            r@ == value@,
            r.canonical(),
            value@.len() == 0 ==> r.is_empty_spec(),
            1 <= value@.len() <= 15 ==> r.is_inlined_spec(),
            value@.len() > 15 ==> r.is_facade_spec(),
    {
        if value.len() == 0 {
            Self::empty()
        } else if value.len() <= INLINE_BYTE_SIZE {
            let mut data: [u8; 16] = [0; 16];
            let mut i: usize = 0;
            while i < value.len()
                invariant
                    i <= value@.len() <= 15,
                    forall|j: int| 0 <= j < i ==> data@[j] == value@[j],
                    forall|j: int| i <= j < 16 ==> data@[j] == 0,
                decreases value@.len() - i,
            {
                data[i] = value[i];
                i = i + 1;
            }
            data[15] = value.len() as u8;
            proof {
                assert(data@ =~= inline16(value@));
            }
            let r = ShortStr { data, facade: None };
            proof {
                assert(r@ =~= value@);
            }
            r
        } else {
            let data: [u8; 16] = [0; 16];
            proof {
                assert(data@ =~= zero16());
            }
            let r = ShortStr { data, facade: Some(value) };
            r
        }
    }

    /// Raw construction: keep the borrowed view verbatim as a facade, without
    /// canonicalizing. The result is a well-formed value, but when the content
    /// is 15 bytes or shorter it is *not* canonical, and then it compares
    /// unequal to the canonical value with the same content.
    pub fn from_str_unchecked(other: &'a [u8]) -> (r: Self)
        ensures
            r@ == other@,
            r.is_facade_spec(),
            r.canonical() <==> other@.len() > 15,
    {
        let data: [u8; 16] = [0; 16];
        proof {
            assert(data@ =~= zero16());
        }
        let r = ShortStr { data, facade: Some(other) };
        r
    }

    /// Borrow the content as a byte slice. A facade hands back its stored
    /// view; an inlined or empty value lends the leading bytes of its own
    /// buffer, so the borrow is tied to the value itself.
    pub fn as_str<'b>(&'b self) -> (r: &'b [u8])
        ensures
            r@ == self@,
    {
        proof {
            use_type_invariant(*self);
        }
        match self.facade {
            Some(f) => f,
            None => {
                let n = self.len();
                slice_subrange(self.data.as_slice(), 0, n)
            },
        }
    }

    /// Classifies the value by its length marker. This is the single source
    /// of truth for interpreting the buffer; every other operation goes
    /// through it.
    pub fn variant(self) -> (v: Variant<'a>)
        ensures
            self.is_facade_spec() <==> v is Facade,
            self.is_inlined_spec() <==> v is Inlined,
            self.is_empty_spec() <==> v is Empty,
            v matches Variant::Facade(f) ==> f@ == self@,
            v matches Variant::Inlined(d) ==> d@ == self.buffer() && d@.subrange(
                0,
                self@.len() as int,
            ) == self@,
    {
        proof {
            use_type_invariant(self);
        }
        if self.is_str() {
            match self.facade {
                Some(f) => Variant::Facade(f),
                None => {
                    proof {
                        assert(false);
                    }
                    Variant::Empty
                },
            }
        } else if self.is_empty_inlined() {
            Variant::Empty
        } else {
            proof {
                assert(self@ =~= self.data@.subrange(0, self.marker() as int));
            }
            Variant::Inlined(self.data)
        }
    }
}

impl<'a, 'b> PartialEq<ShortStr<'b>> for ShortStr<'a> {
    /// Bit-identical comparison: the two buffers are compared as one covering
    /// integer each, and facades additionally compare their borrowed views.
    /// Equality is therefore only reliable between canonical values: a
    /// non-canonical facade never equals the canonical inlined value with the
    /// same content.
    fn eq(&self, other: &ShortStr<'b>) -> (r: bool) {
        proof {
            use_type_invariant(*self);
            use_type_invariant(*other);
        }
        let xa = cover_of_bytes(&self.data);
        let xb = cover_of_bytes(&other.data);
        if xa != xb {
            proof {
                if self.data@ == other.data@ {
                    assert forall|i: u128| i < 16 implies #[trigger] byte_of(xa, i) == byte_of(
                        xb,
                        i,
                    ) by {
                        assert(byte_of(xa, i) == self.data@[i as int]);
                        assert(byte_of(xb, i) == other.data@[i as int]);
                    }
                    lemma_byte_ext(xa, xb);
                }
            }
            false
        } else {
            proof {
                assert forall|k: int| 0 <= k < 16 implies self.data@[k] == other.data@[k] by {
                    assert(byte_of(xa, k as u128) == self.data@[k]);
                    assert(byte_of(xb, k as u128) == other.data@[k]);
                }
                assert(self.data@ =~= other.data@);
            }
            match (self.facade, other.facade) {
                (None, None) => true,
                (Some(f), Some(g)) => bytes_eq(f, g),
                _ => {
                    // Equal buffers carry equal markers, and the marker alone
                    // decides whether the facade field is present.
                    proof {
                        assert(false);
                    }
                    false
                },
            }
        }
    }
}

impl<'a, 'b> vstd::std_specs::cmp::PartialEqSpecImpl<ShortStr<'b>> for ShortStr<'a> {
    open spec fn obeys_eq_spec() -> bool {
        true
    }

    open spec fn eq_spec(&self, other: &ShortStr<'b>) -> bool {
        self.same_encoding(*other)
    }
}

impl<'a, 'b> PartialEq<&'b [u8]> for ShortStr<'a> {
    /// Equality against a plain borrowed view: the view is canonicalized
    /// first, then compared bit for bit.
    fn eq(&self, other: &&'b [u8]) -> (r: bool) {
        let c = ShortStr::from_str(*other);
        proof {
            lemma_same_encoding_canonical(*self, c, (*other)@);
        }
        *self == c
    }
}

impl<'a, 'b> vstd::std_specs::cmp::PartialEqSpecImpl<&'b [u8]> for ShortStr<'a> {
    open spec fn obeys_eq_spec() -> bool {
        true
    }

    open spec fn eq_spec(&self, other: &&'b [u8]) -> bool {
        self.is_canonical_encoding_of((*other)@)
    }
}

impl<'a, 'b> PartialEq<ShortStr<'b>> for &'a [u8] {
    /// Equality against a plain borrowed view, from the other side.
    fn eq(&self, other: &ShortStr<'b>) -> (r: bool) {
        let c = ShortStr::from_str(*self);
        proof {
            lemma_same_encoding_canonical(*other, c, (*self)@);
        }
        c == *other
    }
}

impl<'a, 'b> vstd::std_specs::cmp::PartialEqSpecImpl<ShortStr<'b>> for &'a [u8] {
    open spec fn obeys_eq_spec() -> bool {
        true
    }

    open spec fn eq_spec(&self, other: &ShortStr<'b>) -> bool {
        other.is_canonical_encoding_of((*self)@)
    }
}

impl<'a, 'b> PartialOrd<ShortStr<'b>> for ShortStr<'a> {
    /// Total order for use as a container key: byte-lexicographic over the
    /// reconstructed content. A raw-buffer order would instead rank facades
    /// by the bits of the memory they reference, so it is not used.
    fn partial_cmp(&self, other: &ShortStr<'b>) -> (r: Option<Ordering>) {
        Some(compare_bytes(self.as_str(), other.as_str()))
    }
}

impl<'a, 'b> vstd::std_specs::cmp::PartialOrdSpecImpl<ShortStr<'b>> for ShortStr<'a> {
    open spec fn obeys_partial_cmp_spec() -> bool {
        true
    }

    open spec fn partial_cmp_spec(&self, other: &ShortStr<'b>) -> Option<Ordering> {
        Some(lex_cmp(self@, other@))
    }
}

/// A value has the same encoding as a canonical encoding of content `s`
/// exactly when it is itself a canonical encoding of `s` (in either operand
/// order): canonical encodings of one content are indistinguishable.
pub proof fn lemma_same_encoding_canonical<'a, 'b>(v: ShortStr<'a>, c: ShortStr<'b>, s: Seq<u8>)
    requires
        c.is_canonical_encoding_of(s),
    ensures
        v.same_encoding(c) <==> v.is_canonical_encoding_of(s),
        c.same_encoding(v) <==> v.is_canonical_encoding_of(s),
{
}

/// Bit-identical encoding is an equivalence: reflexive, symmetric and
/// transitive, as equality must be.
pub proof fn lemma_same_encoding_equivalence<'a, 'b, 'c>(
    a: ShortStr<'a>,
    b: ShortStr<'b>,
    c: ShortStr<'c>,
)
    ensures
        a.same_encoding(a),
        a.same_encoding(b) ==> b.same_encoding(a),
        a.same_encoding(b) && b.same_encoding(c) ==> a.same_encoding(c),
{
}

/// Every canonical value is the canonical encoding of its own content.
pub proof fn lemma_canonical_form(v: ShortStr<'_>)
    requires
        v.canonical(),
    ensures
        v.is_canonical_encoding_of(v@),
{
    if v.is_facade_spec() {
        assert(v@.len() > 15);
    } else if v.is_inlined_spec() {
        assert(v@ =~= v.buffer().subrange(0, v.marker() as int));
        assert(v.buffer() =~= inline16(v@));
    } else {
        assert(v@ =~= Seq::<u8>::empty());
    }
}

/// The canonical encoding of a content determines the value: a value encoding
/// `s` canonically is well formed and canonical, and its content is `s`.
pub proof fn lemma_encoding_determines(v: ShortStr<'_>, s: Seq<u8>)
    requires
        v.is_canonical_encoding_of(s),
    ensures
        v.wf(),
        v.canonical(),
        v@ == s,
{
    if s.len() == 0 {
        assert(v@ =~= s);
    } else if s.len() <= 15 {
        assert(v.marker() == s.len() as u8);
        assert(v@ =~= s);
    } else {
        assert(v@ =~= s);
    }
}

/// For canonical values, bit-identical encoding and equal content coincide:
/// the canonical form of a content is unique.
pub proof fn lemma_canonical_eq<'a, 'b>(a: ShortStr<'a>, b: ShortStr<'b>)
    requires
        a.canonical(),
        b.canonical(),
    ensures
        a.same_encoding(b) <==> a@ == b@,
{
    lemma_canonical_form(a);
    lemma_canonical_form(b);
    if a@ == b@ {
    } else {
        if a.same_encoding(b) {
            if a.is_facade_spec() {
            } else if a.is_inlined_spec() {
                assert(a@ =~= b@);
            } else {
                assert(a@ =~= b@);
            }
        }
    }
}

} // verus!
