use vstd::prelude::*;
use crate::pattern::is_hex_digit;
use crate::text::push_char;

verus! {

/// The lowercase hex digit of a value below 16.
pub open spec fn hex_digit(v: u8) -> char {
    if v < 10 {
        ((v + 48) as u8) as char
    } else {
        ((v + 87) as u8) as char
    }
}

/// Two lowercase hex digits per byte, high nibble first.
pub open spec fn hex_of(b: Seq<u8>) -> Seq<char>
    decreases b.len(),
{
    if b.len() == 0 {
        Seq::empty()
    } else {
        hex_of(b.drop_last()).push(hex_digit(b.last() / 16)).push(hex_digit(b.last() % 16))
    }
}

/// Two digits for each byte.
pub proof fn lemma_hex_of_len(b: Seq<u8>)
    ensures
        hex_of(b).len() == 2 * b.len(),
    decreases b.len(),
{
    if b.len() > 0 {
        lemma_hex_of_len(b.drop_last());
    }
}

/// Every character of an encoding is a lowercase hex digit.
pub proof fn lemma_hex_of_digits(b: Seq<u8>)
    ensures
        forall|i: int| 0 <= i < hex_of(b).len() ==> is_hex_digit(#[trigger] hex_of(b)[i]),
    decreases b.len(),
{
    if b.len() > 0 {
        lemma_hex_of_digits(b.drop_last());
        let v = b.last();
        lemma_hex_digit_is_digit((v / 16) as u8);
        lemma_hex_digit_is_digit((v % 16) as u8);
        let prev = hex_of(b.drop_last());
        let h = hex_of(b);
        assert(h == prev.push(hex_digit(v / 16)).push(hex_digit(v % 16)));
        assert forall|i: int| 0 <= i < h.len() implies is_hex_digit(#[trigger] h[i]) by {
            if i < prev.len() {
                assert(h[i] == prev[i]);
            }
        }
    }
}

proof fn lemma_hex_digit_is_digit(v: u8)
    requires
        v < 16,
    ensures
        is_hex_digit(hex_digit(v)),
{
}

/// Relies on `String::with_capacity`: an empty string with room reserved.
#[verifier::external_body]
fn empty_string_with_capacity(capacity: usize) -> (r: String)
    ensures
        r@ == Seq::<char>::empty(),
{
    String::with_capacity(capacity)
}

fn hex_digit_char(v: u8) -> (r: char)
    requires
        v < 16,
    ensures
        r == hex_digit(v),
{
    if v < 10 {
        (v + 48) as char
    } else {
        (v + 87) as char
    }
}

/// Lowercase hex encoding of `slice`; `expected_string_size` is the capacity
/// reserved for it.
pub fn to_hex_string(slice: &[u8], expected_string_size: usize) -> (r: String)
    ensures
        r@ == hex_of(slice@),
{
    let mut result = empty_string_with_capacity(expected_string_size);
    let mut i: usize = 0;
    while i < slice.len()
        invariant
            i <= slice@.len(),
            result@ == hex_of(slice@.take(i as int)),
        decreases slice@.len() - i,
    {
        let byte = slice[i];
        push_char(&mut result, hex_digit_char(byte / 16));
        push_char(&mut result, hex_digit_char(byte % 16));
        assert(slice@.take(i + 1).drop_last() =~= slice@.take(i as int));
        i = i + 1;
    }
    assert(slice@.take(i as int) =~= slice@);
    result
}

} // verus!
