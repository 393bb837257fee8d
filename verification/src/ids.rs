//! Element identifiers: 128-bit values, written as hyphenated hexadecimal.

use vstd::prelude::*;
use vstd::arithmetic::power::pow;
use crate::text::{begins_with, starts_with};

verus! {

/// The identity of an element.
#[derive(Clone, Copy, Debug, PartialEq, Eq, Structural)]
pub struct ElementId {
    pub value: u128,
}

/// The hexadecimal digit of `d`, for `d < 16`.
pub open spec fn hex_char(d: int) -> char {
    seq!['0', '1', '2', '3', '4', '5', '6', '7', '8', '9', 'a', 'b', 'c', 'd', 'e', 'f'][d]
}

/// The `k`-th hexadecimal digit of `v`, counted from the most significant of
/// its 32 digits.
pub open spec fn hex_digit_of(v: u128, k: int) -> int {
    (v as int / pow(16, (31 - k) as nat)) % 16
}

/// The hyphenated form of an identifier: 32 lower-case hexadecimal digits in
/// groups of 8, 4, 4, 4 and 12.
pub open spec fn hyphenated(v: u128) -> Seq<char> {
    Seq::new(
        36,
        |i: int|
            if i == 8 || i == 13 || i == 18 || i == 23 {
                '-'
            } else {
                let before = (if i > 8 { 1int } else { 0 }) + (if i > 13 { 1int } else { 0 }) + (if i > 18 {
                    1int
                } else {
                    0
                }) + (if i > 23 { 1int } else { 0 });
                hex_char(hex_digit_of(v, i - before))
            },
    )
}

/// The 16 bytes of an identifier, most significant first.
pub open spec fn id_bytes(v: u128) -> Seq<u8> {
    Seq::new(16, |i: int| ((v as int / pow(256, (15 - i) as nat)) % 256) as u8)
}

/// `Uuid::new_v4`: a random identifier. Which one is left to chance; its
/// version digit is 4 and its variant bits are 10.
#[verifier::external_body]
fn uuid_new_v4() -> (r: u128)
    ensures
        hex_digit_of(r, 12) == 4,
        8 <= hex_digit_of(r, 16) < 12,
{
    uuid::Uuid::new_v4().as_u128()
}

/// `Uuid::to_string`: the hyphenated lower-case form.
#[verifier::external_body]
fn uuid_to_string(v: u128) -> (r: String)
    ensures
        r@ == hyphenated(v),
{
    uuid::Uuid::from_u128(v).to_string()
}

/// `Uuid::into_bytes`: the 16 bytes in big-endian order.
#[verifier::external_body]
fn uuid_into_bytes(v: u128) -> (r: [u8; 16])
    ensures
        r@ == id_bytes(v),
{
    uuid::Uuid::from_u128(v).into_bytes()
}

impl ElementId {
    /// A fresh random identifier.
    pub fn random() -> (r: ElementId)
        ensures
            is_random(r),
    {
        ElementId { value: uuid_new_v4() }
    }

    /// The hyphenated form.
    pub fn to_text(self) -> (r: String)
        ensures
            r@ == hyphenated(self.value),
    {
        uuid_to_string(self.value)
    }

    /// The first eight characters of the hyphenated form: how an element is
    /// named towards the assistant.
    pub fn short_text(self) -> (r: String)
        ensures
            r@ == hyphenated(self.value).take(8),
    {
        let t: String = uuid_to_string(self.value);
        let v: Vec<char> = crate::text::chars_of(t.as_str());
        let mut r: Vec<char> = Vec::new();
        let mut i: usize = 0;
        while i < 8
            invariant
                i <= 8,
                v@ == hyphenated(self.value),
                r@ == v@.take(i as int),
            decreases 8 - i,
        {
            r.push(v[i]);
            i += 1;
            assert(v@.take(i as int) =~= v@.take(i - 1).push(v@[i - 1]));
        }
        crate::text::string_of(&r)
    }

    /// The 16 bytes, most significant first.
    pub fn bytes(self) -> (r: [u8; 16])
        ensures
            r@ == id_bytes(self.value),
    {
        uuid_into_bytes(self.value)
    }

    /// Whether the hyphenated form begins with `prefix`.
    pub fn has_prefix(self, prefix: &str) -> (r: bool)
        ensures
            r == begins_with(hyphenated(self.value), prefix@),
    {
        let t: String = uuid_to_string(self.value);
        starts_with(t.as_str(), prefix)
    }
}

/// Whether a number can be the low half of a random identifier: its upper two
/// bits are 10.
pub open spec fn seed_shaped(seed: u64) -> bool {
    0x8000_0000_0000_0000 <= seed < 0xC000_0000_0000_0000
}

/// Whether an identifier has the version and the variant of a random one.
pub open spec fn is_random(id: ElementId) -> bool {
    hex_digit_of(id.value, 12) == 4 && 8 <= hex_digit_of(id.value, 16) < 12
}

/// A seed for the hand-drawn jitter of a new element: the low half of a
/// random identifier. Which one is left to chance.
pub fn new_seed() -> (r: u64)
    ensures
        seed_shaped(r),
{
    let v: u128 = uuid_new_v4();
    #[verifier::truncate]
    let r: u64 = v as u64;
    proof {
        assert(r == v % 0x1_0000_0000_0000_0000u128) by (bit_vector)
            requires
                r == v as u64,
        ;
        reveal_with_fuel(pow, 16);
        assert(pow(16, 15) == 0x1000_0000_0000_0000);
    }
    r
}

} // verus!
