//! Identifiers: UUIDs as the 128-bit numbers that they are.
use vstd::prelude::*;

verus! {

/// The version nibble is 4 and the variant bits are 10.
pub open spec fn version_four(value: u128) -> bool {
    &&& (value / 0x1000_0000_0000_0000_0000u128) % 16 == 4
    &&& (value / 0x4000_0000_0000_0000u128) % 4 == 2
}

pub open spec fn hex_char(n: nat) -> char {
    if n < 10 {
        (0x30 + n) as char
    } else {
        (0x61 + n - 10) as char
    }
}

/// The last `count` hexadecimal digits of `value`, in lower case.
pub open spec fn hex_digits(value: nat, count: nat) -> Seq<char>
    decreases count,
{
    if count == 0 {
        Seq::empty()
    } else {
        hex_digits(value / 16, (count - 1) as nat).push(hex_char(value % 16))
    }
}

/// 32 hexadecimal digits in groups of 8, 4, 4, 4 and 12 with hyphens between them.
pub open spec fn hyphenated(value: u128) -> Seq<char> {
    let d = hex_digits(value as nat, 32);
    d.subrange(0, 8) + seq!['-'] + d.subrange(8, 12) + seq!['-'] + d.subrange(12, 16) + seq!['-']
        + d.subrange(16, 20) + seq!['-'] + d.subrange(20, 32)
}

/// What `uuid::Uuid::parse_str` reads from a text.
pub uninterp spec fn parsed_uuid(text: Seq<char>) -> Option<u128>;

/// `uuid::Uuid::new_v4` gives a random UUID. All that is known of its bits is that the version
/// is 4 and the variant is that of RFC 9562.
#[verifier::external_body]
pub(crate) fn random_uuid() -> (value: u128)
    ensures
        version_four(value),
{
    uuid::Uuid::new_v4().as_u128()
}

/// `uuid::Uuid::to_string` writes the hyphenated form in lower case, which
/// `uuid::Uuid::parse_str` reads back as the same number.
#[verifier::external_body]
pub(crate) fn uuid_text(value: u128) -> (text: String)
    ensures
        text@ == hyphenated(value),
        parsed_uuid(text@) == Some(value),
{
    uuid::Uuid::from_u128(value).to_string()
}

/// `uuid::Uuid::parse_str` reads a UUID in one of several written forms. Which texts it reads
/// is left to the name `parsed_uuid`.
#[verifier::external_body]
pub(crate) fn parse_uuid(text: &str) -> (value: Option<u128>)
    ensures
        value == parsed_uuid(text@),
{
    match uuid::Uuid::parse_str(text) {
        Ok(value) => Some(value.as_u128()),
        Err(_) => None,
    }
}

/// The digits stand at their places: each is the value of four bits, and reading them gives the
/// number back.
pub proof fn digits_read_back(value: nat, count: nat)
    ensures
        hex_digits(value, count).len() == count,
        count > 0 ==> hex_digits(value, count).last() == hex_char(value % 16) && hex_digits(
            value,
            count,
        ).drop_last() == hex_digits(value / 16, (count - 1) as nat),
        forall|i: int|
            0 <= i < count ==> '0' <= #[trigger] hex_digits(value, count)[i] <= '9' || 'a'
                <= hex_digits(value, count)[i] <= 'f',
    decreases count,
{
    if count > 0 {
        digits_read_back(value / 16, (count - 1) as nat);
        let earlier = hex_digits(value / 16, (count - 1) as nat);
        let all = hex_digits(value, count);
        assert(all.drop_last() =~= earlier);
        assert forall|i: int| 0 <= i < count implies '0' <= #[trigger] all[i] <= '9' || 'a'
            <= all[i] <= 'f' by {
            if i < count - 1 {
                assert(all[i] == earlier[i]);
            } else {
                hex_characters((value % 16) as nat);
            }
        }
    }
}

/// Sixteen digits: the decimal ones, then `a` to `f`.
pub proof fn hex_characters(n: nat)
    requires
        n < 16,
    ensures
        n < 10 ==> hex_char(n) as u32 == '0' as u32 + n && '0' <= hex_char(n) <= '9',
        n >= 10 ==> hex_char(n) as u32 == 'a' as u32 + (n - 10) && 'a' <= hex_char(n) <= 'f',
{
}

/// An identifier is written in 36 characters, with hyphens at four places and digits at all others.
pub proof fn identifiers_have_36_characters(value: u128, i: int)
    requires
        0 <= i < 36,
    ensures
        hyphenated(value).len() == 36,
        hyphenated(value)[i] == '-' <==> i == 8 || i == 13 || i == 18 || i == 23,
        hyphenated(value)[35] == hex_char((value % 16) as nat),
{
    let d = hex_digits(value as nat, 32);
    digits_read_back(value as nat, 32);
    let s = hyphenated(value);
    assert(s.len() == 36);
    if i < 8 {
        assert(s[i] == d[i]);
    } else if 8 < i < 13 {
        assert(s[i] == d[i - 1]);
    } else if 13 < i < 18 {
        assert(s[i] == d[i - 2]);
    } else if 18 < i < 23 {
        assert(s[i] == d[i - 3]);
    } else if i > 23 {
        assert(s[i] == d[i - 4]);
    }
    assert(s[35] == d[31]);
}

} // verus!
