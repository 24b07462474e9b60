//! UUIDs as 128-bit integers: random generation, the hyphenated text form,
//! parsing, and the choice of a key that a map does not hold yet.

use std::collections::HashMap;
use vstd::prelude::*;

verus! {

broadcast use vstd::std_specs::hash::group_hash_axioms;

#[verifier::external_type_specification]
#[verifier::external_body]
pub struct ExUuidError(uuid::Error);

/// The sixteen lower-case hexadecimal digits.
pub open spec fn hex_digit(n: int) -> char {
    seq!['0', '1', '2', '3', '4', '5', '6', '7', '8', '9', 'a', 'b', 'c', 'd', 'e', 'f'][n]
}

/// Digit `i` (0 is the most significant) of the 32-digit hexadecimal form of `u`.
pub open spec fn nibble(u: u128, i: int) -> int {
    (u as int / vstd::arithmetic::power::pow(16, (31 - i) as nat)) % 16
}

/// Whether position `j` of the hyphenated form holds a hyphen.
pub open spec fn is_hyphen_position(j: int) -> bool {
    j == 8 || j == 13 || j == 18 || j == 23
}

/// The hexadecimal digit that position `j` of the hyphenated form shows.
pub open spec fn digit_index(j: int) -> int {
    if j < 8 {
        j
    } else if j < 13 {
        j - 1
    } else if j < 18 {
        j - 2
    } else if j < 23 {
        j - 3
    } else {
        j - 4
    }
}

/// The hyphenated lower-case text of a UUID: 8-4-4-4-12 hexadecimal digits.
pub open spec fn hyphenated_text(u: u128) -> Seq<char> {
    Seq::new(
        36,
        |j: int|
            if is_hyphen_position(j) {
                '-'
            } else {
                hex_digit(nibble(u, digit_index(j)))
            },
    )
}

/// What `uuid::Uuid::parse_str` makes of a text, as a 128-bit value.
pub uninterp spec fn parsed_uuid(text: Seq<char>) -> Option<u128>;

/// A parse outcome that gives back the UUID whose hyphenated text was read.
pub open spec fn reads_back_hyphenated(text: Seq<char>, r: Result<u128, uuid::Error>) -> bool {
    forall|u: u128| #[trigger] hyphenated_text(u) == text ==> (r matches Ok(v) && v == u)
}

/// A hyphenated UUID text holds no comma.
pub proof fn lemma_hyphenated_has_no_comma(u: u128)
    ensures
        !hyphenated_text(u).contains(','),
        hyphenated_text(u).len() == 36,
{
    let t = hyphenated_text(u);
    assert forall|j: int| 0 <= j < t.len() implies t[j] != ',' by {
        if !is_hyphen_position(j) {
            let n = nibble(u, digit_index(j));
            assert(0 <= n < 16);
            assert(hex_digit(n) != ',');
        }
    }
}

/// Calls `uuid::Uuid::new_v4` and returns the UUID as an integer.
/// Claimed: the version nibble is 4 and the variant bits are `10`, as the
/// crate documents for version-4 UUIDs; the other bits are random and
/// nothing is said of them.
#[verifier::external_body]
pub(crate) fn random_uuid() -> (u: u128)
    ensures
        is_v4(u),
{
    uuid::Uuid::new_v4().as_u128()
}

/// Calls `uuid::Uuid::from_u128(u).to_string()`.
/// Claimed: the text is the hyphenated lower-case form of the big-endian
/// bytes of `u`, which is what the crate's `Display` writes.
#[verifier::external_body]
pub fn uuid_text(u: u128) -> (s: String)
    ensures
        s@ == hyphenated_text(u),
{
    uuid::Uuid::from_u128(u).to_string()
}

/// Calls `uuid::Uuid::parse_str` and returns the UUID as an integer.
/// Claimed: the outcome is the named function `parsed_uuid` of the text, and
/// the hyphenated lower-case text of a UUID parses back to that UUID, as the
/// crate documents for the formats it writes. Which other texts parse, and
/// to what, is left to the name.
#[verifier::external_body]
pub(crate) fn parse_uuid(text: &str) -> (r: Result<u128, uuid::Error>)
    ensures
        r is Ok <==> parsed_uuid(text@) is Some,
        r matches Ok(v) ==> parsed_uuid(text@) == Some(v),
        reads_back_hyphenated(text@, r),
{
    uuid::Uuid::parse_str(text).map(|id| id.as_u128())
}

/// The version-4 UUID format: version nibble 4 and variant bits `10`.
pub open spec fn is_v4(u: u128) -> bool {
    u & 0xF000C000000000000000u128 == 0x40008000000000000000u128
}

/// The `k`-th version-4 UUID in increasing order, for `k` below 2^64: the
/// low 62 bits of `k` fill the lowest 62 bits, its two top bits go just
/// above the variant bits' byte, and the version and variant bits are set.
pub open spec fn nth_v4(k: u128) -> u128 {
    0x40008000000000000000u128 | (k & 0x3FFFFFFFFFFFFFFFu128) | ((k >> 62u128) << 64u128)
}

/// `nth_v4` gives version-4 UUIDs and increases with its argument.
pub proof fn lemma_nth_v4(k: u128)
    requires
        k < 0xFFFFFFFFFFFFFFFFu128,
    ensures
        is_v4(nth_v4(k)),
        nth_v4(k) < nth_v4((k + 1) as u128),
{
    assert(is_v4(
        0x40008000000000000000u128 | (k & 0x3FFFFFFFFFFFFFFFu128) | ((k >> 62u128) << 64u128),
    )) by (bit_vector)
        requires
            k < 0xFFFFFFFFFFFFFFFFu128,
    ;
    let k1 = (k + 1) as u128;
    assert(0x40008000000000000000u128 | (k & 0x3FFFFFFFFFFFFFFFu128) | ((k >> 62u128) << 64u128)
        < 0x40008000000000000000u128 | (k1 & 0x3FFFFFFFFFFFFFFFu128) | ((k1 >> 62u128) << 64u128))
        by (bit_vector)
        requires
            k < 0xFFFFFFFFFFFFFFFFu128,
            k1 == k + 1,
    ;
}

/// The `k`-th version-4 UUID, as `nth_v4` says.
fn v4_with_index(k: u128) -> (u: u128)
    requires
        k <= 0xFFFFFFFFFFFFFFFFu128,
    ensures
        u == nth_v4(k),
        is_v4(u),
{
    proof {
        assert(is_v4(
            0x40008000000000000000u128 | (k & 0x3FFFFFFFFFFFFFFFu128) | ((k >> 62u128) << 64u128),
        )) by (bit_vector)
            requires
                k <= 0xFFFFFFFFFFFFFFFFu128,
        ;
    }
    0x40008000000000000000u128 | (k & 0x3FFFFFFFFFFFFFFFu128) | ((k >> 62u128) << 64u128)
}

/// How many random draws are tried before falling back to a scan.
pub const RANDOM_ATTEMPTS: u32 = 64;

/// A version-4 UUID that `map` does not hold. Random version-4 UUIDs are
/// drawn until one is free; should every one of `RANDOM_ATTEMPTS` draws be
/// taken, the version-4 UUIDs are scanned in increasing order from the
/// smallest, and the first free one is used, which always exists because
/// the map holds at most `usize::MAX` keys.
pub fn fresh_key<V>(map: &HashMap<u128, V>) -> (k: u128)
    ensures
        !map@.contains_key(k),
        is_v4(k),
{
    let mut candidate = random_uuid();
    let mut attempts: u32 = 0;
    while map.contains_key(&candidate) && attempts < RANDOM_ATTEMPTS
        invariant
            is_v4(candidate),
        decreases RANDOM_ATTEMPTS - attempts,
    {
        candidate = random_uuid();
        attempts = attempts + 1;
    }
    if !map.contains_key(&candidate) {
        return candidate;
    }
    let len = map.len();
    let mut probe: u128 = 0;
    let ghost mut taken: Set<u128> = Set::empty();
    loop
        invariant
            len == map@.len(),
            len <= usize::MAX,
            map@.dom().finite(),
            taken.finite(),
            taken.len() == probe,
            taken.subset_of(map@.dom()),
            forall|x: u128| taken.contains(x) ==> x < nth_v4(probe),
            probe <= len,
        decreases map@.len() - probe,
    {
        let candidate = v4_with_index(probe);
        if !map.contains_key(&candidate) {
            return candidate;
        }
        proof {
            let next = taken.insert(candidate);
            assert(!taken.contains(candidate));
            assert(next.subset_of(map@.dom()));
            vstd::set_lib::lemma_len_subset(next, map@.dom());
            lemma_nth_v4(probe);
            taken = next;
        }
        probe = probe + 1;
    }
}

} // verus!
