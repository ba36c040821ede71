//! Metric payloads as bytes, and how they read as text.

use vstd::prelude::*;
use vstd::utf8::*;

verus! {

/// Calls `std::str::from_utf8`, which succeeds exactly on valid UTF-8 and
/// then reads the bytes as the characters that they encode.
#[verifier::external_body]
pub(crate) fn str_from_utf8<'a>(bytes: &'a [u8]) -> (r: Option<&'a str>)
    ensures
        r is Some <==> utf8_text(bytes@) is Some,
        r matches Some(s) ==> utf8_text(bytes@) == Some(s@),
{
    std::str::from_utf8(bytes).ok()
}

/// The text that the bytes `b` read as: their characters where they are
/// valid UTF-8, and `None` otherwise.
pub open spec fn utf8_text(b: Seq<u8>) -> Option<Seq<char>> {
    if valid_utf8(b) {
        Some(decode_utf8(b))
    } else {
        None
    }
}

/// A value that a stash can hold: something with bytes, such as the text
/// of a metric or the body of a polled page.
pub trait MetricValue: Sized + View {
    /// The bytes of a value with view `v`.
    spec fn encoded(v: Self::V) -> Seq<u8>;

    /// The empty value (`Default::default()`).
    fn empty() -> (r: Self)
        ensures
            Self::encoded(r@) == Seq::<u8>::empty(),
    ;

    /// A copy of the value (`Clone::clone`).
    fn duplicate(&self) -> (r: Self)
        ensures
            r@ == self@,
    ;

    /// The bytes of the value (`AsRef<[u8]>::as_ref`).
    fn bytes(&self) -> (r: &[u8])
        ensures
            r@ == Self::encoded(self@),
    ;
}

impl MetricValue for String {
    open spec fn encoded(v: Seq<char>) -> Seq<u8> {
        encode_utf8(v)
    }

    fn empty() -> (r: Self) {
        String::new()
    }

    fn duplicate(&self) -> (r: Self) {
        self.clone()
    }

    fn bytes(&self) -> (r: &[u8]) {
        self.as_str().as_bytes()
    }
}

impl MetricValue for Vec<u8> {
    open spec fn encoded(v: Seq<u8>) -> Seq<u8> {
        v
    }

    fn empty() -> (r: Self) {
        Vec::new()
    }

    fn duplicate(&self) -> (r: Self) {
        let r = self.clone();
        assert(r@ =~= self@);
        r
    }

    fn bytes(&self) -> (r: &[u8]) {
        self.as_slice()
    }
}

/// A `String` value always reads back as its own text.
pub proof fn lemma_string_reads_as_itself(s: Seq<char>)
    ensures
        utf8_text(<String as MetricValue>::encoded(s)) == Some(s),
{
    encode_utf8_valid_utf8(s);
    encode_utf8_decode_utf8(s);
}

} // verus!
