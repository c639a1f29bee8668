//! The text of IP addresses.
use crate::text;
use vstd::prelude::*;
use vstd::slice::slice_subrange;

verus! {

/// An IP address: the 32 bits of an IPv4 address, or the eight groups of an IPv6 address.
#[derive(Clone, Debug, PartialEq, Eq)]
pub enum IpAddress {
    V4(u32),
    V6(Vec<u16>),
}

/// What an `IpAddress` is.
pub enum Address {
    V4(u32),
    V6(Seq<u16>),
}

impl View for IpAddress {
    type V = Address;

    open spec fn view(&self) -> Address {
        match self {
            IpAddress::V4(bits) => Address::V4(*bits),
            IpAddress::V6(groups) => Address::V6(groups@),
        }
    }
}

/// One to three digits up to 255. Only 0 itself starts with 0.
pub open spec fn octet(s: Seq<char>) -> Option<nat> {
    if 1 <= s.len() <= 3 && text::all_digits(s) && (s.len() > 1 ==> s[0] != '0') && text::number(s) <= 255 {
        Some(text::number(s))
    } else {
        None
    }
}

/// Four octets with dots between them.
pub open spec fn v4(s: Seq<char>) -> Option<u32> {
    let p = text::split(s, '.');
    if p.len() == 4 && octet(p[0]) is Some && octet(p[1]) is Some && octet(p[2]) is Some && octet(
        p[3],
    ) is Some {
        Some(
            (octet(p[0])->0 * 0x100_0000 + octet(p[1])->0 * 0x1_0000 + octet(p[2])->0 * 0x100
                + octet(p[3])->0) as u32,
        )
    } else {
        None
    }
}

pub open spec fn hex_value(c: char) -> Option<nat> {
    let n = c as u32;
    if 0x30 <= n <= 0x39 {
        Some((n - 0x30) as nat)
    } else if 0x41 <= n <= 0x46 {
        Some((n - 0x41 + 10) as nat)
    } else if 0x61 <= n <= 0x66 {
        Some((n - 0x61 + 10) as nat)
    } else {
        None
    }
}

/// The number that hexadecimal digits stand for.
pub open spec fn hex_number(s: Seq<char>) -> Option<nat>
    decreases s.len(),
{
    if s.len() == 0 {
        Some(0)
    } else {
        match (hex_number(s.drop_last()), hex_value(s.last())) {
            (Some(high), Some(low)) => Some(high * 16 + low),
            _ => None,
        }
    }
}

/// One to four hexadecimal digits.
pub open spec fn group(s: Seq<char>) -> Option<nat> {
    if 1 <= s.len() <= 4 {
        hex_number(s)
    } else {
        None
    }
}

/// The groups that `parts` stand for, one each.
pub open spec fn plain_groups(parts: Seq<Seq<char>>) -> Option<Seq<u16>>
    decreases parts.len(),
{
    if parts.len() == 0 {
        Some(Seq::empty())
    } else {
        match (plain_groups(parts.drop_last()), group(parts.last())) {
            (Some(before), Some(value)) => Some(before.push(value as u16)),
            _ => None,
        }
    }
}

/// As `plain_groups`, but the last part may be an IPv4 address, which makes two groups.
pub open spec fn mixed_groups(parts: Seq<Seq<char>>) -> Option<Seq<u16>> {
    if parts.len() > 0 && v4(parts.last()) is Some {
        let bits = v4(parts.last())->0;
        match plain_groups(parts.drop_last()) {
            Some(before) => Some(
                before.push((bits / 0x1_0000) as u16).push((bits % 0x1_0000) as u16),
            ),
            None => None,
        }
    } else {
        plain_groups(parts)
    }
}

/// The parts on one side of `::`, where nothing is no part.
pub open spec fn side(s: Seq<char>) -> Seq<Seq<char>> {
    if s.len() == 0 {
        Seq::empty()
    } else {
        text::split(s, ':')
    }
}

/// Where `::` first stands in `s`, or the length of `s`.
pub open spec fn double_colon(s: Seq<char>) -> int
    decreases s.len(),
{
    if s.len() < 2 {
        s.len() as int
    } else if s[0] == ':' && s[1] == ':' {
        0
    } else {
        1 + double_colon(s.drop_first())
    }
}

pub open spec fn zeros(count: nat) -> Seq<u16> {
    Seq::new(count, |i: int| 0u16)
}

/// Eight groups; `::` stands once for one or more groups of zero.
pub open spec fn v6(s: Seq<char>) -> Option<Seq<u16>> {
    let k = double_colon(s);
    if k >= s.len() {
        match mixed_groups(text::split(s, ':')) {
            Some(groups) => if groups.len() == 8 {
                Some(groups)
            } else {
                None
            },
            None => None,
        }
    } else {
        match (plain_groups(side(s.take(k))), mixed_groups(side(s.skip(k + 2)))) {
            (Some(head), Some(tail)) => if head.len() + tail.len() <= 7 {
                Some(head + zeros((8 - head.len() - tail.len()) as nat) + tail)
            } else {
                None
            },
            _ => None,
        }
    }
}

/// The address that `s` writes down.
pub open spec fn address(s: Seq<char>) -> Option<Address> {
    if v4(s) is Some {
        Some(Address::V4(v4(s)->0))
    } else if v6(s) is Some {
        Some(Address::V6(v6(s)->0))
    } else {
        None
    }
}

/// 127.0.0.0/8 and ::1.
pub open spec fn loopback(a: Address) -> bool {
    match a {
        Address::V4(bits) => bits / 0x100_0000 == 127,
        Address::V6(groups) => groups =~= zeros(7).push(1u16),
    }
}

/// 0.0.0.0 and ::.
pub open spec fn unspecified(a: Address) -> bool {
    match a {
        Address::V4(bits) => bits == 0,
        Address::V6(groups) => groups =~= zeros(8),
    }
}

fn parse_octet(s: &Vec<char>) -> (r: Option<u32>)
    ensures
        match r {
            Some(value) => octet(s@) == Some(value as nat) && value <= 255,
            None => octet(s@) is None,
        },
{
    if s.len() == 0 || s.len() > 3 || !text::every_digit(s.as_slice()) || (s.len() > 1 && s[0] == '0') {
        return None;
    }
    let chars = s.as_slice();
    assert(chars@ == s@);
    assert(text::digit(s@[0]));
    match text::parse_u16(chars) {
        Some(value) => if value <= 255 {
            Some(value as u32)
        } else {
            None
        },
        None => None,
    }
}

fn parse_v4(s: &[char]) -> (r: Option<u32>)
    ensures
        r == v4(s@),
{
    let parts = text::split_at_each(s, '.');
    proof {
        assert forall|i: int| 0 <= i < parts.len() implies #[trigger] parts@[i]@ == text::split(
            s@,
            '.',
        )[i] by {
            assert(text::runs(parts@)[i] == parts@[i]@);
        }
        assert(text::runs(parts@).len() == parts@.len());
    }
    if parts.len() != 4 {
        return None;
    }
    match (
        parse_octet(&parts[0]),
        parse_octet(&parts[1]),
        parse_octet(&parts[2]),
        parse_octet(&parts[3]),
    ) {
        (Some(a), Some(b), Some(c), Some(d)) => Some(
            a * 0x100_0000 + b * 0x1_0000 + c * 0x100 + d,
        ),
        _ => None,
    }
}

fn parse_hex_value(c: char) -> (r: Option<u32>)
    ensures
        match r {
            Some(value) => hex_value(c) == Some(value as nat) && value < 16,
            None => hex_value(c) is None,
        },
{
    let n: u32 = c as u32;
    if 0x30 <= n && n <= 0x39 {
        Some(n - 0x30)
    } else if 0x41 <= n && n <= 0x46 {
        Some(n - 0x41 + 10)
    } else if 0x61 <= n && n <= 0x66 {
        Some(n - 0x61 + 10)
    } else {
        None
    }
}

proof fn hex_prefix(s: Seq<char>, n: int)
    requires
        0 <= n <= s.len(),
        hex_number(s.take(n)) is None,
    ensures
        hex_number(s) is None,
    decreases s.len() - n,
{
    if n < s.len() {
        assert(s.take(n + 1).drop_last() =~= s.take(n));
        hex_prefix(s, n + 1);
    } else {
        assert(s.take(n) =~= s);
    }
}

fn parse_group(s: &Vec<char>) -> (r: Option<u16>)
    ensures
        match r {
            Some(value) => group(s@) == Some(value as nat),
            None => group(s@) is None,
        },
{
    if s.len() == 0 || s.len() > 4 {
        return None;
    }
    let mut value: u32 = 0;
    let mut bound: u32 = 1;
    let mut i: usize = 0;
    assert(s@.take(0) =~= Seq::<char>::empty());
    while i < s.len()
        invariant
            i <= s.len() <= 4,
            hex_number(s@.take(i as int)) == Some(value as nat),
            value < bound,
            i == 0 ==> bound == 1,
            i == 1 ==> bound == 0x10,
            i == 2 ==> bound == 0x100,
            i == 3 ==> bound == 0x1000,
            i == 4 ==> bound == 0x1_0000,
        decreases s.len() - i,
    {
        assert(s@.take(i as int + 1).drop_last() =~= s@.take(i as int));
        assert(s@.take(i as int + 1).last() == s@[i as int]);
        match parse_hex_value(s[i]) {
            Some(low) => {
                value = value * 16 + low;
                bound = bound * 16;
            },
            None => {
                proof {
                    hex_prefix(s@, i as int + 1);
                }
                return None;
            },
        }
        i = i + 1;
    }
    assert(s@.take(s@.len() as int) =~= s@);
    Some(value as u16)
}

proof fn groups_prefix(parts: Seq<Seq<char>>, n: int)
    requires
        0 <= n <= parts.len(),
        plain_groups(parts.take(n)) is None,
    ensures
        plain_groups(parts) is None,
    decreases parts.len() - n,
{
    if n < parts.len() {
        assert(parts.take(n + 1).drop_last() =~= parts.take(n));
        groups_prefix(parts, n + 1);
    } else {
        assert(parts.take(n) =~= parts);
    }
}

/// The groups of the first `count` parts.
fn parse_groups(parts: &Vec<Vec<char>>, count: usize) -> (r: Option<Vec<u16>>)
    requires
        count <= parts@.len(),
    ensures
        match r {
            Some(groups) => plain_groups(text::runs(parts@).take(count as int)) == Some(groups@),
            None => plain_groups(text::runs(parts@).take(count as int)) is None,
        },
{
    let mut groups: Vec<u16> = Vec::new();
    let mut i: usize = 0;
    let ghost all = text::runs(parts@).take(count as int);
    assert(all.take(0) =~= Seq::<Seq<char>>::empty());
    while i < count
        invariant
            i <= count <= parts@.len(),
            all == text::runs(parts@).take(count as int),
            plain_groups(all.take(i as int)) == Some(groups@),
        decreases count - i,
    {
        assert(all.take(i as int + 1).drop_last() =~= all.take(i as int));
        assert(all.take(i as int + 1).last() == parts@[i as int]@);
        match parse_group(&parts[i]) {
            Some(value) => {
                groups.push(value);
            },
            None => {
                proof {
                    groups_prefix(all, i as int + 1);
                }
                return None;
            },
        }
        i = i + 1;
    }
    assert(all.take(count as int) =~= all);
    Some(groups)
}

fn parse_mixed(parts: &Vec<Vec<char>>) -> (r: Option<Vec<u16>>)
    ensures
        match r {
            Some(groups) => mixed_groups(text::runs(parts@)) == Some(groups@),
            None => mixed_groups(text::runs(parts@)) is None,
        },
{
    let ghost all = text::runs(parts@);
    assert(all.take(all.len() as int) =~= all);
    if parts.len() == 0 {
        return parse_groups(parts, 0);
    }
    let last: usize = parts.len() - 1;
    assert(all.last() == parts@[last as int]@);
    assert(all.take(last as int) =~= all.drop_last());
    match parse_v4(parts[last].as_slice()) {
        Some(bits) => match parse_groups(parts, last) {
            Some(mut groups) => {
                groups.push((bits / 0x1_0000) as u16);
                groups.push((bits % 0x1_0000) as u16);
                Some(groups)
            },
            None => None,
        },
        None => parse_groups(parts, parts.len()),
    }
}

fn split_side(s: &[char]) -> (parts: Vec<Vec<char>>)
    ensures
        text::runs(parts@) == side(s@),
{
    if s.len() == 0 {
        let parts: Vec<Vec<char>> = Vec::new();
        assert(text::runs(parts@) =~= side(s@));
        parts
    } else {
        text::split_at_each(s, ':')
    }
}

fn find_double_colon(s: &[char]) -> (r: usize)
    ensures
        r == double_colon(s@),
        r < s@.len() ==> r + 2 <= s@.len(),
        r <= s@.len(),
{
    let mut i: usize = 0;
    assert(s@.skip(0) =~= s@);
    while i < s.len()
        invariant
            i <= s.len(),
            double_colon(s@) == i + double_colon(s@.skip(i as int)),
        decreases s.len() - i,
    {
        if s.len() - i < 2 {
            return s.len();
        }
        if s[i] == ':' && s[i + 1] == ':' {
            return i;
        }
        assert(s@.skip(i as int).drop_first() =~= s@.skip(i as int + 1));
        i = i + 1;
    }
    i
}

fn parse_v6(s: &[char]) -> (r: Option<Vec<u16>>)
    ensures
        match r {
            Some(groups) => v6(s@) == Some(groups@),
            None => v6(s@) is None,
        },
{
    let k: usize = find_double_colon(s);
    if k >= s.len() {
        let parts = text::split_at_each(s, ':');
        return match parse_mixed(&parts) {
            Some(groups) => if groups.len() == 8 {
                Some(groups)
            } else {
                None
            },
            None => None,
        };
    }
    let front = slice_subrange(s, 0, k);
    let back = slice_subrange(s, k + 2, s.len());
    assert(front@ =~= s@.take(k as int));
    assert(back@ =~= s@.skip(k as int + 2));
    let head_parts = split_side(front);
    let tail_parts = split_side(back);
    assert(text::runs(head_parts@).take(head_parts@.len() as int) =~= text::runs(head_parts@));
    match (parse_groups(&head_parts, head_parts.len()), parse_mixed(&tail_parts)) {
        (Some(head), Some(tail)) => {
            if head.len() > 7 || tail.len() > 7 - head.len() {
                return None;
            }
            let ghost before = head@;
            let ghost missing = (8 - head@.len() - tail@.len()) as nat;
            let mut groups = head;
            let total: usize = 8 - tail.len();
            while groups.len() < total
                invariant
                    before.len() <= groups@.len() <= total,
                    groups@ =~= before + zeros((groups@.len() - before.len()) as nat),
                decreases total - groups.len(),
            {
                groups.push(0u16);
            }
            let mut i: usize = 0;
            let ghost filled = groups@;
            while i < tail.len()
                invariant
                    i <= tail@.len(),
                    groups@ =~= filled + tail@.take(i as int),
                decreases tail.len() - i,
            {
                groups.push(tail[i]);
                i = i + 1;
            }
            assert(groups@ =~= before + zeros(missing) + tail@);
            Some(groups)
        },
        _ => None,
    }
}

/// Reads an IP address.
pub fn parse_address(s: &[char]) -> (r: Option<IpAddress>)
    ensures
        match r {
            Some(found) => address(s@) == Some(found@),
            None => address(s@) is None,
        },
{
    match parse_v4(s) {
        Some(bits) => Some(IpAddress::V4(bits)),
        None => match parse_v6(s) {
            Some(groups) => Some(IpAddress::V6(groups)),
            None => None,
        },
    }
}

pub fn same_groups(a: &Vec<u16>, b: &Vec<u16>) -> (r: bool)
    ensures
        r == (a@ == b@),
{
    if a.len() != b.len() {
        return false;
    }
    let mut i: usize = 0;
    while i < a.len()
        invariant
            i <= a@.len() == b@.len(),
            forall|k: int| 0 <= k < i ==> a@[k] == b@[k],
        decreases a.len() - i,
    {
        if a[i] != b[i] {
            return false;
        }
        i = i + 1;
    }
    assert(a@ =~= b@);
    true
}

fn groups_are(groups: &Vec<u16>, last: u16) -> (r: bool)
    ensures
        r == (groups@ =~= zeros(7).push(last)),
{
    if groups.len() != 8 {
        return false;
    }
    let mut i: usize = 0;
    while i < 7
        invariant
            i <= 7,
            groups@.len() == 8,
            forall|k: int| 0 <= k < i ==> groups@[k] == 0,
        decreases 7 - i,
    {
        if groups[i] != 0 {
            assert(zeros(7).push(last)[i as int] == 0);
            return false;
        }
        i = i + 1;
    }
    assert(zeros(7).push(last)[7] == last);
    groups[7] == last
}

impl IpAddress {
    pub fn is_loopback(&self) -> (r: bool)
        ensures
            r == loopback(self@),
    {
        match self {
            IpAddress::V4(bits) => *bits / 0x100_0000 == 127,
            IpAddress::V6(groups) => groups_are(groups, 1),
        }
    }

    pub fn is_unspecified(&self) -> (r: bool)
        ensures
            r == unspecified(self@),
    {
        assert(zeros(8) =~= zeros(7).push(0u16));
        match self {
            IpAddress::V4(bits) => *bits == 0,
            IpAddress::V6(groups) => groups_are(groups, 0),
        }
    }
}

// ---------------------------------------------------------------------------
// What addresses are made of
// ---------------------------------------------------------------------------
/// A hexadecimal digit, a colon or a dot.
pub open spec fn address_char(c: char) -> bool {
    hex_value(c) is Some || c == ':' || c == '.'
}

pub open spec fn address_chars(s: Seq<char>) -> bool {
    forall|i: int| 0 <= i < s.len() ==> address_char(#[trigger] s[i])
}

proof fn pieces_make_the_text(s: Seq<char>, separator: char)
    requires
        address_char(separator),
        forall|k: int|
            0 <= k < text::split(s, separator).len() ==> address_chars(
                #[trigger] text::split(s, separator)[k],
            ),
    ensures
        address_chars(s),
    decreases s.len(),
{
    if s.len() > 0 {
        let t = s.drop_last();
        let p = text::split_pieces(t, separator);
        let whole = text::split(s, separator);
        let part = text::split(t, separator);
        if s.last() == separator {
            assert(whole =~= part.push(Seq::empty()));
            assert forall|k: int| 0 <= k < part.len() implies address_chars(#[trigger] part[k]) by {
                assert(whole[k] == part[k]);
            }
        } else {
            assert(whole.last() == p.current.push(s.last()));
            assert(address_chars(whole[whole.len() - 1]));
            let last = whole.last();
            assert(last[last.len() - 1] == s.last());
            assert forall|k: int| 0 <= k < part.len() implies address_chars(#[trigger] part[k]) by {
                if k < part.len() - 1 {
                    assert(whole[k] == part[k]);
                } else {
                    assert forall|i: int| 0 <= i < part[k].len() implies address_char(
                        #[trigger] part[k][i],
                    ) by {
                        assert(last[i] == part[k][i]);
                    }
                }
            }
        }
        pieces_make_the_text(t, separator);
        assert forall|i: int| 0 <= i < s.len() implies address_char(#[trigger] s[i]) by {
            if i < t.len() {
                assert(t[i] == s[i]);
            }
        }
    }
}

proof fn octets_are_digits(s: Seq<char>)
    requires
        octet(s) is Some,
    ensures
        address_chars(s),
{
    assert forall|i: int| 0 <= i < s.len() implies address_char(#[trigger] s[i]) by {
        assert(text::digit(s[i]));
    }
}

proof fn hex_numbers_are_digits(s: Seq<char>)
    requires
        hex_number(s) is Some,
    ensures
        address_chars(s),
    decreases s.len(),
{
    if s.len() > 0 {
        hex_numbers_are_digits(s.drop_last());
        assert forall|i: int| 0 <= i < s.len() implies address_char(#[trigger] s[i]) by {
            if i < s.len() - 1 {
                assert(s.drop_last()[i] == s[i]);
            }
        }
    }
}

proof fn groups_are_digits(parts: Seq<Seq<char>>)
    requires
        plain_groups(parts) is Some,
    ensures
        forall|k: int| 0 <= k < parts.len() ==> address_chars(#[trigger] parts[k]),
    decreases parts.len(),
{
    if parts.len() > 0 {
        groups_are_digits(parts.drop_last());
        hex_numbers_are_digits(parts.last());
        assert forall|k: int| 0 <= k < parts.len() implies address_chars(#[trigger] parts[k]) by {
            if k < parts.len() - 1 {
                assert(parts.drop_last()[k] == parts[k]);
            }
        }
    }
}

proof fn v4_is_plain(s: Seq<char>)
    requires
        v4(s) is Some,
    ensures
        address_chars(s),
{
    let p = text::split(s, '.');
    assert forall|k: int| 0 <= k < p.len() implies address_chars(#[trigger] p[k]) by {
        assert(k == 0 || k == 1 || k == 2 || k == 3);
        octets_are_digits(p[k]);
    }
    pieces_make_the_text(s, '.');
}

proof fn mixed_groups_are_plain(parts: Seq<Seq<char>>)
    requires
        mixed_groups(parts) is Some,
    ensures
        forall|k: int| 0 <= k < parts.len() ==> address_chars(#[trigger] parts[k]),
{
    if parts.len() > 0 && v4(parts.last()) is Some {
        v4_is_plain(parts.last());
        groups_are_digits(parts.drop_last());
        assert forall|k: int| 0 <= k < parts.len() implies address_chars(#[trigger] parts[k]) by {
            if k < parts.len() - 1 {
                assert(parts.drop_last()[k] == parts[k]);
            }
        }
    } else {
        groups_are_digits(parts);
    }
}

proof fn double_colon_position(s: Seq<char>)
    ensures
        0 <= double_colon(s) <= s.len(),
        double_colon(s) < s.len() ==> double_colon(s) + 1 < s.len() && s[double_colon(s)] == ':'
            && s[double_colon(s) + 1] == ':',
    decreases s.len(),
{
    if s.len() >= 2 && !(s[0] == ':' && s[1] == ':') {
        double_colon_position(s.drop_first());
    }
}

proof fn sides_are_plain(s: Seq<char>)
    requires
        forall|k: int| 0 <= k < side(s).len() ==> address_chars(#[trigger] side(s)[k]),
    ensures
        address_chars(s),
{
    if s.len() > 0 {
        let parts = text::split(s, ':');
        assert forall|k: int| 0 <= k < parts.len() implies address_chars(#[trigger] parts[k]) by {
            assert(side(s)[k] == parts[k]);
        }
        pieces_make_the_text(s, ':');
    }
}

proof fn v6_is_plain(s: Seq<char>)
    requires
        v6(s) is Some,
    ensures
        address_chars(s),
        s.contains(':'),
{
    let k = double_colon(s);
    double_colon_position(s);
    if k >= s.len() {
        let parts = text::split(s, ':');
        mixed_groups_are_plain(parts);
        pieces_make_the_text(s, ':');
        if !s.contains(':') {
            text::pieces_are_told_apart(Seq::empty(), s, ':');
            assert(parts =~= seq![s]);
            assert(parts.drop_last() =~= Seq::<Seq<char>>::empty());
            reveal_with_fuel(plain_groups, 2);
        }
    } else {
        groups_are_digits(side(s.take(k)));
        sides_are_plain(s.take(k));
        mixed_groups_are_plain(side(s.skip(k + 2)));
        sides_are_plain(s.skip(k + 2));
        assert forall|i: int| 0 <= i < s.len() implies address_char(#[trigger] s[i]) by {
            if i < k {
                assert(s.take(k)[i] == s[i]);
            } else if i >= k + 2 {
                assert(s.skip(k + 2)[i - k - 2] == s[i]);
            }
        }
        assert(s[k] == ':');
    }
}

/// An address holds hexadecimal digits, colons and dots only. One with a colon is an IPv6 address,
/// one without is an IPv4 address.
pub proof fn addresses_are_plain(s: Seq<char>)
    requires
        address(s) is Some,
    ensures
        s.len() > 0,
        address_chars(s),
        address(s)->0 is V6 ==> s.contains(':'),
{
    if v4(s) is Some {
        v4_is_plain(s);
        if s.len() == 0 {
            assert(text::split(s, '.') =~= seq![Seq::<char>::empty()]);
        }
    } else {
        v6_is_plain(s);
    }
}

proof fn decimals_start_plainly(n: nat)
    ensures
        n >= 10 ==> text::decimal(n)[0] != '0' && text::decimal(n).len() > 1,
        n > 0 ==> text::decimal(n)[0] != '0',
    decreases n,
{
    text::decimal_reads_back(n);
    if n >= 10 {
        decimals_start_plainly(n / 10);
        text::decimal_reads_back(n / 10);
        assert(text::decimal(n)[0] == text::decimal(n / 10)[0]);
    }
}

proof fn octets_read_back(n: nat)
    requires
        n <= 255,
    ensures
        octet(text::decimal(n)) == Some(n),
        !text::decimal(n).contains('.'),
        !text::decimal(n).contains(':'),
{
    text::decimal_reads_back(n);
    decimals_start_plainly(n);
    reveal_with_fuel(text::ten_to, 4);
    text::decimal_is_short(n, 3);
    if n < 10 {
        text::digits_count_up(n);
    }
    assert forall|i: int| 0 <= i < text::decimal(n).len() implies text::decimal(n)[i] != '.'
        && text::decimal(n)[i] != ':' by {
        assert(text::digit(text::decimal(n)[i]));
    }
}

/// Four numbers up to 255 with dots between them.
pub open spec fn dotted(a: nat, b: nat, c: nat, d: nat) -> Seq<char> {
    text::decimal(a).push('.') + text::decimal(b).push('.') + text::decimal(c).push('.')
        + text::decimal(d)
}

/// Every IPv4 address is read back from its four numbers, the first of which counts most. It is a
/// loopback address exactly if this number is 127, and stands for every interface exactly if all
/// four are zero.
pub proof fn dotted_addresses_read_back(a: nat, b: nat, c: nat, d: nat)
    requires
        a <= 255,
        b <= 255,
        c <= 255,
        d <= 255,
    ensures
        ({
            let bits = (a * 0x100_0000 + b * 0x1_0000 + c * 0x100 + d) as u32;
            &&& address(dotted(a, b, c, d)) == Some(Address::V4(bits))
            &&& loopback(Address::V4(bits)) <==> a == 127
            &&& unspecified(Address::V4(bits)) <==> a == 0 && b == 0 && c == 0 && d == 0
        }),
{
    octets_read_back(a);
    octets_read_back(b);
    octets_read_back(c);
    octets_read_back(d);
    let first = text::decimal(a);
    let second = first.push('.') + text::decimal(b);
    let third = second.push('.') + text::decimal(c);
    let fourth = third.push('.') + text::decimal(d);
    text::pieces_are_told_apart(Seq::empty(), first, '.');
    text::pieces_are_told_apart(first, text::decimal(b), '.');
    text::pieces_are_told_apart(second, text::decimal(c), '.');
    text::pieces_are_told_apart(third, text::decimal(d), '.');
    assert(dotted(a, b, c, d) =~= fourth);
    let p = text::split(fourth, '.');
    assert(p =~= seq![first, text::decimal(b), text::decimal(c), text::decimal(d)]);
    assert(p[0] == first && p[1] == text::decimal(b) && p[2] == text::decimal(c) && p[3]
        == text::decimal(d));
}

proof fn hex_values(n: nat)
    requires
        n < 16,
    ensures
        hex_value(crate::identity::hex_char(n)) == Some(n),
        crate::identity::hex_char(n) != ':',
        crate::identity::hex_char(n) != '.',
{
}

proof fn hex_reads_back(value: nat, count: nat)
    requires
        value < hex_bound(count),
    ensures
        crate::identity::hex_digits(value, count).len() == count,
        hex_number(crate::identity::hex_digits(value, count)) == Some(value),
        !crate::identity::hex_digits(value, count).contains(':'),
        !crate::identity::hex_digits(value, count).contains('.'),
    decreases count,
{
    if count > 0 {
        let earlier = crate::identity::hex_digits(value / 16, (count - 1) as nat);
        let all = crate::identity::hex_digits(value, count);
        hex_reads_back(value / 16, (count - 1) as nat);
        hex_values((value % 16) as nat);
        assert(all.drop_last() =~= earlier);
        assert(all.last() == crate::identity::hex_char(value % 16));
        assert forall|i: int| 0 <= i < all.len() implies all[i] != ':' && all[i] != '.' by {
            if i < earlier.len() {
                assert(all[i] == earlier[i]);
                assert(earlier.contains(earlier[i]));
            }
        }
    }
}

/// The smallest number with more than `count` hexadecimal digits.
spec fn hex_bound(count: nat) -> nat
    decreases count,
{
    if count == 0 {
        1
    } else {
        16 * hex_bound((count - 1) as nat)
    }
}

/// Groups of four hexadecimal digits with colons between them.
pub open spec fn with_colons(groups: Seq<u16>) -> Seq<char>
    decreases groups.len(),
{
    if groups.len() == 0 {
        Seq::empty()
    } else if groups.len() == 1 {
        crate::identity::hex_digits(groups[0] as nat, 4)
    } else {
        with_colons(groups.drop_last()).push(':') + crate::identity::hex_digits(
            groups.last() as nat,
            4,
        )
    }
}

proof fn group_texts(g: u16)
    ensures
        group(crate::identity::hex_digits(g as nat, 4)) == Some(g as nat),
        crate::identity::hex_digits(g as nat, 4).len() == 4,
        !crate::identity::hex_digits(g as nat, 4).contains(':'),
        !crate::identity::hex_digits(g as nat, 4).contains('.'),
        v4(crate::identity::hex_digits(g as nat, 4)) is None,
{
    reveal_with_fuel(hex_bound, 5);
    assert(hex_bound(4) == 0x1_0000);
    let s = crate::identity::hex_digits(g as nat, 4);
    hex_reads_back(g as nat, 4);
    text::pieces_are_told_apart(Seq::empty(), s, '.');
}

proof fn colons_split(groups: Seq<u16>)
    requires
        groups.len() > 0,
    ensures
        ({
            let s = with_colons(groups);
            let parts = text::split(s, ':');
            &&& s.len() > 0
            &&& s[0] != ':'
            &&& s.last() != ':'
            &&& !s.contains('.')
            &&& forall|i: int| #![trigger s[i]] 0 <= i < s.len() - 1 && s[i] == ':' ==> s[i + 1]
                != ':'
            &&& parts.len() == groups.len()
            &&& plain_groups(parts) == Some(groups)
            &&& v4(parts.last()) is None
        }),
    decreases groups.len(),
{
    let s = with_colons(groups);
    let last = crate::identity::hex_digits(groups.last() as nat, 4);
    group_texts(groups.last());
    assert forall|i: int| 0 <= i < last.len() implies last[i] != ':' && last[i] != '.' by {
        assert(last.contains(last[i]));
    }
    if groups.len() == 1 {
        text::pieces_are_told_apart(Seq::empty(), s, ':');
        let parts = text::split(s, ':');
        assert(parts.drop_last() =~= Seq::<Seq<char>>::empty());
        reveal_with_fuel(plain_groups, 2);
        assert(Seq::<u16>::empty().push(groups[0]) =~= groups);
        assert(last[0] != ':' && last[3] != ':');
    } else {
        let fewer = groups.drop_last();
        let t = with_colons(fewer);
        colons_split(fewer);
        text::pieces_are_told_apart(t, last, ':');
        let parts = text::split(s, ':');
        assert(parts.drop_last() =~= text::split(t, ':'));
        assert(fewer.push(groups.last()) =~= groups);
        assert(s.len() == t.len() + 1 + last.len());
        assert(s[0] == t[0]);
        assert(s.last() == last[3]);
        assert forall|i: int| 0 <= i < s.len() implies s[i] != '.' by {
            if i < t.len() {
                assert(s[i] == t[i]);
                assert(t.contains(t[i]));
            } else if i > t.len() {
                assert(s[i] == last[i - t.len() - 1]);
            }
        }
        assert forall|i: int| #![trigger s[i]] 0 <= i < s.len() - 1 && s[i] == ':' implies s[i + 1]
            != ':' by {
            if i < t.len() {
                assert(s[i] == t[i]);
                if i < t.len() - 1 {
                    assert(s[i + 1] == t[i + 1]);
                }
            } else if i == t.len() {
                assert(s[i + 1] == last[0]);
            } else {
                assert(s[i] == last[i - t.len() - 1]);
            }
        }
    }
}

/// Every IPv6 address is read back from its eight groups. It is the loopback address exactly if the
/// last group is one and all others are zero, and stands for every interface exactly if all are zero.
pub proof fn colon_addresses_read_back(groups: Seq<u16>)
    requires
        groups.len() == 8,
    ensures
        address(with_colons(groups)) == Some(Address::V6(groups)),
        loopback(Address::V6(groups)) <==> groups[7] == 1 && forall|i: int|
            0 <= i < 7 ==> #[trigger] groups[i] == 0,
        unspecified(Address::V6(groups)) <==> forall|i: int|
            0 <= i < 8 ==> #[trigger] groups[i] == 0,
{
    let s = with_colons(groups);
    colons_split(groups);
    double_colon_position(s);
    let k = double_colon(s);
    if k < s.len() {
        assert(s[k] == ':');
        assert(s[k + 1] == ':');
    }
    text::pieces_are_told_apart(Seq::empty(), s, '.');
    assert(v4(s) is None);
    assert(v6(s) == Some(groups));
    let one = zeros(7).push(1u16);
    if groups =~= one {
        assert forall|i: int| 0 <= i < 7 implies #[trigger] groups[i] == 0 by {
            assert(one[i] == 0);
        }
        assert(groups[7] == one[7]);
    }
    if groups =~= zeros(8) {
        assert forall|i: int| 0 <= i < 8 implies #[trigger] groups[i] == 0 by {
            assert(zeros(8)[i] == 0);
        }
    }
}

/// Two colons stand for as many groups of zero as are missing: in front of one group these are
/// seven, and by themselves they are all eight.
pub proof fn two_colons_stand_for_zeros(g: u16)
    ensures
        address(seq![':', ':']) == Some(Address::V6(zeros(8))),
        address(seq![':', ':'] + crate::identity::hex_digits(g as nat, 4)) == Some(
            Address::V6(zeros(7).push(g)),
        ),
{
    let digits = crate::identity::hex_digits(g as nat, 4);
    let nothing = Seq::<char>::empty();
    let none = Seq::<Seq<char>>::empty();
    let s = seq![':', ':'];
    text::pieces_are_told_apart(nothing, s, '.');
    assert(s.take(0) =~= nothing);
    assert(s.skip(2) =~= nothing);
    assert(side(nothing) =~= none);
    assert(zeros(0) =~= Seq::<u16>::empty());
    assert(Seq::<u16>::empty() + zeros(8) + Seq::<u16>::empty() =~= zeros(8));
    assert(v6(s) == Some(zeros(8)));
    let t = s + digits;
    group_texts(g);
    assert(t[0] == ':' && t[1] == ':');
    assert(t.take(0) =~= nothing);
    assert(t.skip(2) =~= digits);
    text::pieces_are_told_apart(nothing, digits, ':');
    assert(!t.contains('.')) by {
        if t.contains('.') {
            let i = choose|i: int| 0 <= i < t.len() && t[i] == '.';
            if i >= 2 {
                assert(t[i] == digits[i - 2]);
                assert(digits.contains(digits[i - 2]));
            }
        }
    }
    text::pieces_are_told_apart(nothing, t, '.');
    let parts = seq![digits];
    assert(side(digits) =~= parts);
    assert(parts.drop_last() =~= none);
    reveal_with_fuel(plain_groups, 2);
    assert(mixed_groups(parts) == Some(Seq::<u16>::empty().push(g)));
    assert(Seq::<u16>::empty() + zeros(7) + Seq::<u16>::empty().push(g) =~= zeros(7).push(g));
}

} // verus!
