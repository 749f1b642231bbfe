use vstd::prelude::*;
use vstd::string::*;

verus! {

/// A fresh random (version 4) UUID, as its 128-bit value. Nothing is promised of the
/// value: `uuid::Uuid::new_v4` draws it from the system's random source.
#[verifier::external_body]
pub(crate) fn new_uuid() -> (r: u128) {
    uuid::Uuid::new_v4().as_u128()
}

} // verus!

verus! {

/// A lowercase hexadecimal digit.
pub open spec fn hex_lower(v: int) -> char {
    if v < 10 {
        (v + 48) as char
    } else {
        (v + 87) as char
    }
}

/// The `k`-th hexadecimal digit of a 128-bit value, counted from the most significant.
pub open spec fn uuid_nibble(id: u128, k: int) -> int {
    (id as int / vstd::arithmetic::power::pow(16, (31 - k) as nat)) % 16
}

/// How a UUID prints (`Debug` and `Display`): 32 lowercase hex digits of its 128-bit value,
/// grouped 8-4-4-4-12 by hyphens.
pub open spec fn uuid_text(id: u128) -> Seq<char> {
    Seq::new(
        36,
        |i: int|
            if i == 8 || i == 13 || i == 18 || i == 23 {
                '-'
            } else {
                let k = if i < 8 {
                    i
                } else if i < 13 {
                    i - 1
                } else if i < 18 {
                    i - 2
                } else if i < 23 {
                    i - 3
                } else {
                    i - 4
                };
                hex_lower(uuid_nibble(id, k))
            },
    )
}

/// How the UUID with the given value prints (`{:?}` on `uuid::Uuid`, whose `Debug`
/// prints the hyphenated lowercase form).
#[verifier::external_body]
fn uuid_display(id: u128) -> (r: String)
    ensures
        r@ == uuid_text(id),
{
    format!("{:?}", uuid::Uuid::from_u128(id))
}

/// `prefix`, the printed UUID with the given value, and `suffix`, one after the other.
pub(crate) fn format_id_message(prefix: &str, id: u128, suffix: &str) -> (r: String)
    ensures
        r@ == prefix@ + uuid_text(id) + suffix@,
{
    let mut r = prefix.to_owned();
    let text = uuid_display(id);
    r.append(text.as_str());
    r.append(suffix);
    r
}

} // verus!
