//! Unix paths, as the bytes that they are.
use vstd::prelude::*;
use vstd::string::*;

verus! {

pub open spec fn absolute(p: Seq<u8>) -> bool {
    p.len() > 0 && p[0] == 0x2f
}

/// `part` below `base`: one slash stands between them. An absolute `part` stays as it is.
pub open spec fn below(base: Seq<u8>, part: Seq<u8>) -> Seq<u8> {
    if absolute(part) || base.len() == 0 {
        part
    } else if base.last() == 0x2f {
        base + part
    } else {
        base.push(0x2f) + part
    }
}

/// The bytes of a text.
pub open spec fn bytes(s: Seq<char>) -> Seq<u8> {
    vstd::utf8::encode_utf8(s)
}

pub fn push_bytes(out: &mut Vec<u8>, part: &[u8])
    ensures
        final(out)@ == old(out)@ + part@,
{
    let ghost start = out@;
    let mut i: usize = 0;
    while i < part.len()
        invariant
            i <= part@.len(),
            out@ =~= start + part@.take(i as int),
        decreases part.len() - i,
    {
        out.push(part[i]);
        i = i + 1;
    }
    assert(part@.take(part@.len() as int) =~= part@);
}

pub fn copied(p: &[u8]) -> (out: Vec<u8>)
    ensures
        out@ == p@,
{
    let mut out: Vec<u8> = Vec::new();
    push_bytes(&mut out, p);
    assert(out@ =~= p@);
    out
}

pub fn same_bytes(a: &[u8], b: &[u8]) -> (r: bool)
    ensures
        r == (a@ == b@),
{
    if a.len() != b.len() {
        return false;
    }
    let mut i: usize = 0;
    while i < a.len()
        invariant
            i <= a@.len() == b@.len(),
            forall|k: int| 0 <= k < i ==> a@[k] == b@[k],
        decreases a.len() - i,
    {
        if a[i] != b[i] {
            return false;
        }
        i = i + 1;
    }
    assert(a@ =~= b@);
    true
}

pub fn join(base: &[u8], part: &[u8]) -> (out: Vec<u8>)
    ensures
        out@ == below(base@, part@),
{
    let mut out: Vec<u8> = Vec::new();
    if !(part.len() > 0 && part[0] == 0x2f) && base.len() > 0 {
        push_bytes(&mut out, base);
        if base[base.len() - 1] != 0x2f {
            out.push(0x2f);
        }
    }
    push_bytes(&mut out, part);
    assert(out@ =~= below(base@, part@));
    out
}

/// As `join`, with a text.
pub fn join_text(base: &[u8], part: &str) -> (out: Vec<u8>)
    ensures
        out@ == below(base@, bytes(part@)),
{
    join(base, part.as_bytes())
}

/// A text whose first character is a letter of ASCII is no absolute path.
pub proof fn letters_start_relative_paths(s: Seq<char>)
    requires
        s.len() > 0,
        0x41 <= s[0] as u32 <= 0x7a,
    ensures
        bytes(s).len() > 0,
        !absolute(bytes(s)),
{
    let c = s[0] as u32;
    assert((c & 0x7F) as u8 == c && c as u8 == c) by (bit_vector)
        requires
            0x41 <= c <= 0x7a,
    ;
    assert(vstd::utf8::encode_scalar(c) =~= seq![vstd::utf8::leading_byte_width_1(c)]);
    assert(bytes(s)[0] == vstd::utf8::leading_byte_width_1(c));
}

/// The bytes of a text are read back as that text.
pub proof fn bytes_read_back(s: Seq<char>)
    ensures
        vstd::utf8::valid_utf8(bytes(s)),
        vstd::utf8::decode_utf8(bytes(s)) == s,
{
    vstd::utf8::encode_utf8_valid_utf8(s);
    vstd::utf8::encode_utf8_decode_utf8(s);
}

/// A relative path stays below its base: the base comes first, the path last, and exactly one
/// slash between them. An absolute path leaves its base.
pub proof fn relative_paths_stay_below(base: Seq<u8>, part: Seq<u8>)
    requires
        base.len() > 0,
    ensures
        absolute(part) ==> below(base, part) == part,
        !absolute(part) ==> {
            let whole = below(base, part);
            &&& whole.take(base.len() as int) == base
            &&& whole.skip(whole.len() - part.len()) == part
            &&& whole[whole.len() - part.len() - 1] == 0x2f
            &&& whole.len() <= base.len() + 1 + part.len()
            &&& base.last() == 0x2f ==> whole.len() == base.len() + part.len()
        },
        absolute(base) ==> absolute(below(base, part)),
{
    if !absolute(part) {
        let whole = below(base, part);
        assert(whole.take(base.len() as int) =~= base);
        assert(whole.skip(whole.len() - part.len()) =~= part);
    }
}

} // verus!
