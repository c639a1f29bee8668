//! Characters and text, as sequences of Unicode scalar values.
use vstd::prelude::*;
use vstd::slice::slice_subrange;
use vstd::string::*;

verus! {

/// `String::push` appends one character and changes nothing else.
pub assume_specification[ String::push ](s: &mut String, c: char)
    ensures
        final(s)@ == old(s)@.push(c),
;

/// Two `str` values are equal exactly when they hold the same characters.
pub assume_specification[ <str as PartialEq>::eq ](a: &str, b: &str) -> (same: bool)
    ensures
        same == (a@ == b@),
;

/// `std::str::from_utf8` accepts exactly the bytes that are valid UTF-8, and gives the text that
/// they encode.
#[verifier::external_body]
pub(crate) fn utf8_text(bytes: &[u8]) -> (r: Option<&str>)
    ensures
        match r {
            Some(found) => vstd::utf8::valid_utf8(bytes@) && found@ == vstd::utf8::decode_utf8(
                bytes@,
            ),
            None => !vstd::utf8::valid_utf8(bytes@),
        },
{
    std::str::from_utf8(bytes).ok()
}

/// What `String::from_utf8_lossy` makes of bytes.
pub uninterp spec fn lossy(bytes: Seq<u8>) -> Seq<char>;

/// `String::from_utf8_lossy` gives the text of bytes that are valid UTF-8. What it makes of other
/// bytes is left to the name `lossy`.
#[verifier::external_body]
pub(crate) fn lossy_text(bytes: &[u8]) -> (r: String)
    ensures
        r@ == lossy(bytes@),
        vstd::utf8::valid_utf8(bytes@) ==> r@ == vstd::utf8::decode_utf8(bytes@),
{
    String::from_utf8_lossy(bytes).into_owned()
}

// ---------------------------------------------------------------------------
// Character classes
// ---------------------------------------------------------------------------
/// The code points with the Unicode property `White_Space`.
pub open spec fn white_space(c: char) -> bool {
    let n = c as u32;
    ||| 0x9 <= n <= 0xd
    ||| n == 0x20
    ||| n == 0x85
    ||| n == 0xa0
    ||| n == 0x1680
    ||| 0x2000 <= n <= 0x200a
    ||| n == 0x2028
    ||| n == 0x2029
    ||| n == 0x202f
    ||| n == 0x205f
    ||| n == 0x3000
}

/// The code points of the Unicode general category `Cc`.
pub open spec fn control(c: char) -> bool {
    let n = c as u32;
    n <= 0x1f || 0x7f <= n <= 0x9f
}

pub open spec fn digit(c: char) -> bool {
    0x30 <= c as u32 <= 0x39
}

/// `A` to `Z` become `a` to `z`; every other character stays as it is.
pub open spec fn lower(c: char) -> char {
    if 0x41 <= c as u32 <= 0x5a {
        ((c as u32) + 0x20) as char
    } else {
        c
    }
}

pub open spec fn lowered(s: Seq<char>) -> Seq<char> {
    s.map_values(|c: char| lower(c))
}

pub fn is_white_space(c: char) -> (r: bool)
    ensures
        r == white_space(c),
{
    let n: u32 = c as u32;
    (0x9 <= n && n <= 0xd) || n == 0x20 || n == 0x85 || n == 0xa0 || n == 0x1680 || (0x2000 <= n
        && n <= 0x200a) || n == 0x2028 || n == 0x2029 || n == 0x202f || n == 0x205f || n == 0x3000
}

pub fn is_control(c: char) -> (r: bool)
    ensures
        r == control(c),
{
    let n: u32 = c as u32;
    n <= 0x1f || (0x7f <= n && n <= 0x9f)
}

pub fn is_digit(c: char) -> (r: bool)
    ensures
        r == digit(c),
{
    let n: u32 = c as u32;
    0x30 <= n && n <= 0x39
}

pub fn to_lower(c: char) -> (r: char)
    ensures
        r == lower(c),
{
    let n: u32 = c as u32;
    if 0x41 <= n && n <= 0x5a {
        let low: u8 = (n + 0x20) as u8;
        low as char
    } else {
        c
    }
}

// ---------------------------------------------------------------------------
// Between strings and characters
// ---------------------------------------------------------------------------
/// What a list of strings holds.
pub open spec fn texts(list: Seq<String>) -> Seq<Seq<char>> {
    list.map_values(|s: String| s@)
}

pub fn chars_of(s: &str) -> (out: Vec<char>)
    ensures
        out@ == s@,
{
    let mut out: Vec<char> = Vec::new();
    for c in it: s.chars()
        invariant
            it.seq() == s@,
            out@ == s@.take(it.index() as int),
    {
        out.push(c);
        assert(s@.take(it.index() as int + 1) =~= s@.take(it.index() as int).push(c));
    }
    assert(s@.take(s@.len() as int) =~= s@);
    out
}

pub fn text_of(chars: &[char]) -> (out: String)
    ensures
        out@ == chars@,
{
    let mut out: String = String::new();
    let mut i: usize = 0;
    while i < chars.len()
        invariant
            i <= chars.len(),
            out@ == chars@.take(i as int),
        decreases chars.len() - i,
    {
        out.push(chars[i]);
        assert(chars@.take(i as int + 1) =~= chars@.take(i as int).push(chars@[i as int]));
        i = i + 1;
    }
    assert(chars@.take(chars@.len() as int) =~= chars@);
    out
}

pub fn same(a: &str, b: &str) -> (r: bool)
    ensures
        r == (a@ == b@),
{
    a.eq(b)
}

/// Whether `list` has a string with the characters of `wanted`.
pub fn has_text(list: &Vec<String>, wanted: &str) -> (r: bool)
    ensures
        r == texts(list@).contains(wanted@),
{
    let mut i: usize = 0;
    while i < list.len()
        invariant
            i <= list.len(),
            forall|k: int| 0 <= k < i ==> texts(list@)[k] != wanted@,
        decreases list.len() - i,
    {
        if same(list[i].as_str(), wanted) {
            assert(texts(list@)[i as int] == wanted@);
            return true;
        }
        i = i + 1;
    }
    assert(!texts(list@).contains(wanted@));
    false
}

/// `a` followed by `b`.
pub fn joined(a: &str, b: &str) -> (out: String)
    ensures
        out@ == a@ + b@,
{
    let mut out = a.to_owned();
    out.append(b);
    out
}

/// `a`, `b` and `c`, one after the other.
pub fn joined3(a: &str, b: &str, c: &str) -> (out: String)
    ensures
        out@ == a@ + b@ + c@,
{
    let mut out = a.to_owned();
    out.append(b);
    out.append(c);
    out
}

pub fn copied(list: &Vec<String>) -> (out: Vec<String>)
    ensures
        texts(out@) == texts(list@),
        out@ == list@,
{
    let mut out: Vec<String> = Vec::new();
    let mut i: usize = 0;
    while i < list.len()
        invariant
            i <= list.len(),
            out@ == list@.take(i as int),
        decreases list.len() - i,
    {
        out.push(list[i].clone());
        assert(list@.take(i as int + 1) =~= list@.take(i as int).push(list@[i as int]));
        i = i + 1;
    }
    assert(list@.take(list@.len() as int) =~= list@);
    out
}

// ---------------------------------------------------------------------------
// Trimming and searching
// ---------------------------------------------------------------------------
pub open spec fn trim_start(s: Seq<char>) -> Seq<char>
    decreases s.len(),
{
    if s.len() > 0 && white_space(s[0]) {
        trim_start(s.drop_first())
    } else {
        s
    }
}

pub open spec fn trim_end(s: Seq<char>) -> Seq<char>
    decreases s.len(),
{
    if s.len() > 0 && white_space(s.last()) {
        trim_end(s.drop_last())
    } else {
        s
    }
}

/// `s` without the white space at both of its ends.
pub open spec fn trim(s: Seq<char>) -> Seq<char> {
    trim_end(trim_start(s))
}

/// A text that neither starts nor ends with white space is not changed by trimming.
pub proof fn trim_keeps(s: Seq<char>)
    requires
        s.len() > 0,
        !white_space(s[0]),
        !white_space(s.last()),
    ensures
        trim(s) == s,
{
}

pub fn trimmed_start(s: &[char]) -> (out: &[char])
    ensures
        out@ == trim_start(s@),
{
    let mut i: usize = 0;
    proof {
        assert(s@.subrange(0, s@.len() as int) =~= s@);
    }
    while i < s.len() && is_white_space(s[i])
        invariant
            i <= s.len(),
            trim_start(s@) == trim_start(s@.subrange(i as int, s@.len() as int)),
        decreases s.len() - i,
    {
        assert(s@.subrange(i as int, s@.len() as int).drop_first() =~= s@.subrange(
            i as int + 1,
            s@.len() as int,
        ));
        i = i + 1;
    }
    slice_subrange(s, i, s.len())
}

pub fn trimmed_end(s: &[char]) -> (out: &[char])
    ensures
        out@ == trim_end(s@),
{
    let mut n: usize = s.len();
    proof {
        assert(s@.subrange(0, s@.len() as int) =~= s@);
    }
    while n > 0 && is_white_space(s[n - 1])
        invariant
            n <= s.len(),
            trim_end(s@) == trim_end(s@.subrange(0, n as int)),
        decreases n,
    {
        assert(s@.subrange(0, n as int).drop_last() =~= s@.subrange(0, n as int - 1));
        n = n - 1;
    }
    slice_subrange(s, 0, n)
}

pub fn trimmed(s: &[char]) -> (out: &[char])
    ensures
        out@ == trim(s@),
{
    trimmed_end(trimmed_start(s))
}

/// Where `wanted` first stands in `s`, or the length of `s`.
pub open spec fn first_of(s: Seq<char>, wanted: char) -> int
    decreases s.len(),
{
    if s.len() == 0 || s[0] == wanted {
        0
    } else {
        1 + first_of(s.drop_first(), wanted)
    }
}

/// Where `wanted` last stands in `s`, or -1.
pub open spec fn last_of(s: Seq<char>, wanted: char) -> int
    decreases s.len(),
{
    if s.len() == 0 {
        -1
    } else if s.last() == wanted {
        s.len() - 1
    } else {
        last_of(s.drop_last(), wanted)
    }
}

/// Where white space first stands in `s`, or the length of `s`.
pub open spec fn first_space(s: Seq<char>) -> int
    decreases s.len(),
{
    if s.len() == 0 || white_space(s[0]) {
        0
    } else {
        1 + first_space(s.drop_first())
    }
}

pub proof fn first_of_position(s: Seq<char>, wanted: char)
    ensures
        0 <= first_of(s, wanted) <= s.len(),
        first_of(s, wanted) < s.len() ==> s[first_of(s, wanted)] == wanted,
        forall|k: int| 0 <= k < first_of(s, wanted) ==> s[k] != wanted,
    decreases s.len(),
{
    if s.len() > 0 && s[0] != wanted {
        first_of_position(s.drop_first(), wanted);
        assert forall|k: int| 0 <= k < first_of(s, wanted) implies s[k] != wanted by {
            if k > 0 {
                assert(s.drop_first()[k - 1] == s[k]);
            }
        }
    }
}

pub proof fn last_of_position(s: Seq<char>, wanted: char)
    ensures
        -1 <= last_of(s, wanted) < s.len(),
        last_of(s, wanted) >= 0 ==> s[last_of(s, wanted)] == wanted,
        forall|k: int| last_of(s, wanted) < k < s.len() ==> s[k] != wanted,
    decreases s.len(),
{
    if s.len() > 0 && s.last() != wanted {
        last_of_position(s.drop_last(), wanted);
        assert forall|k: int| last_of(s, wanted) < k < s.len() implies s[k] != wanted by {
            if k < s.len() - 1 {
                assert(s.drop_last()[k] == s[k]);
            }
        }
    }
}

pub proof fn first_space_position(s: Seq<char>)
    ensures
        0 <= first_space(s) <= s.len(),
        first_space(s) < s.len() ==> white_space(s[first_space(s)]),
        forall|k: int| 0 <= k < first_space(s) ==> !white_space(#[trigger] s[k]),
    decreases s.len(),
{
    if s.len() > 0 && !white_space(s[0]) {
        first_space_position(s.drop_first());
        assert forall|k: int| 0 <= k < first_space(s) implies !white_space(#[trigger] s[k]) by {
            if k > 0 {
                assert(s.drop_first()[k - 1] == s[k]);
            }
        }
    }
}

pub fn find_first(s: &[char], wanted: char) -> (r: usize)
    ensures
        r == first_of(s@, wanted),
        r <= s@.len(),
{
    proof {
        first_of_position(s@, wanted);
    }
    let mut i: usize = 0;
    while i < s.len() && s[i] != wanted
        invariant
            i <= s.len(),
            forall|k: int| 0 <= k < i ==> s@[k] != wanted,
        decreases s.len() - i,
    {
        i = i + 1;
    }
    i
}

pub fn find_last(s: &[char], wanted: char) -> (r: Option<usize>)
    ensures
        match r {
            Some(i) => i == last_of(s@, wanted) && i < s@.len(),
            None => last_of(s@, wanted) == -1,
        },
{
    proof {
        last_of_position(s@, wanted);
    }
    let mut n: usize = s.len();
    while n > 0
        invariant
            n <= s.len(),
            -1 <= last_of(s@, wanted) < n,
            last_of(s@, wanted) >= 0 ==> s@[last_of(s@, wanted)] == wanted,
            forall|k: int| last_of(s@, wanted) < k < s@.len() ==> s@[k] != wanted,
        decreases n,
    {
        n = n - 1;
        if s[n] == wanted {
            return Some(n);
        }
    }
    None
}

pub fn find_space(s: &[char]) -> (r: usize)
    ensures
        r == first_space(s@),
        r <= s@.len(),
{
    proof {
        first_space_position(s@);
    }
    let mut i: usize = 0;
    while i < s.len() && !is_white_space(s[i])
        invariant
            i <= s.len(),
            forall|k: int| 0 <= k < i ==> !white_space(#[trigger] s@[k]),
        decreases s.len() - i,
    {
        i = i + 1;
    }
    i
}

/// `part` stands in `s` as one run of characters.
pub open spec fn holds(s: Seq<char>, part: Seq<char>) -> bool {
    exists|i: int|
        #![trigger s.subrange(i, i + part.len())]
        0 <= i <= s.len() - part.len() && s.subrange(i, i + part.len()) == part
}

pub open spec fn begins(s: Seq<char>, part: Seq<char>) -> bool {
    s.len() >= part.len() && s.take(part.len() as int) == part
}

pub fn begins_with(s: &[char], part: &[char]) -> (r: bool)
    ensures
        r == begins(s@, part@),
{
    if s.len() < part.len() {
        return false;
    }
    let mut i: usize = 0;
    while i < part.len()
        invariant
            i <= part.len() <= s.len(),
            forall|k: int| 0 <= k < i ==> s@[k] == part@[k],
        decreases part.len() - i,
    {
        if s[i] != part[i] {
            assert(s@.take(part@.len() as int)[i as int] != part@[i as int]);
            return false;
        }
        i = i + 1;
    }
    assert(s@.take(part@.len() as int) =~= part@);
    true
}

pub fn contains(s: &[char], part: &[char]) -> (r: bool)
    ensures
        r == holds(s@, part@),
{
    let mut i: usize = 0;
    while i < s.len() && part.len() <= s.len() - i
        invariant
            i <= s.len(),
            forall|k: int|
                0 <= k < i && k <= s@.len() - part@.len() ==> #[trigger] s@.subrange(
                    k,
                    k + part@.len(),
                ) != part@,
        decreases s.len() - i,
    {
        let tail = slice_subrange(s, i, s.len());
        let found = begins_with(tail, part);
        proof {
            assert(tail@.take(part@.len() as int) =~= s@.subrange(
                i as int,
                i as int + part@.len(),
            ));
        }
        if found {
            return true;
        }
        i = i + 1;
    }
    if i == s.len() && part.len() == 0 {
        assert(s@.subrange(i as int, i as int) =~= part@);
        assert(s@.subrange(i as int, i as int + part@.len()) == part@);
        return true;
    }
    false
}

pub fn lowered_chars(s: &[char]) -> (out: Vec<char>)
    ensures
        out@ == lowered(s@),
{
    let mut out: Vec<char> = Vec::new();
    let mut i: usize = 0;
    while i < s.len()
        invariant
            i <= s.len(),
            out@ =~= lowered(s@.take(i as int)),
        decreases s.len() - i,
    {
        out.push(to_lower(s[i]));
        assert(lowered(s@.take(i as int + 1)) =~= lowered(s@.take(i as int)).push(
            lower(s@[i as int]),
        ));
        i = i + 1;
    }
    assert(s@.take(s@.len() as int) =~= s@);
    out
}

pub fn same_chars(a: &[char], b: &[char]) -> (r: bool)
    ensures
        r == (a@ == b@),
{
    if a.len() != b.len() {
        return false;
    }
    let r = begins_with(a, b);
    assert(a@.take(b@.len() as int) =~= a@);
    r
}

/// Whether some character of `s` is `wanted`.
pub fn has_char(s: &[char], wanted: char) -> (r: bool)
    ensures
        r == s@.contains(wanted),
{
    let i = find_first(s, wanted);
    proof {
        first_of_position(s@, wanted);
    }
    i < s.len()
}

// ---------------------------------------------------------------------------
// Lines and words
// ---------------------------------------------------------------------------
/// Pieces that are complete, and the characters of the piece being read.
#[verifier::ext_equal]
pub struct Pieces {
    pub done: Seq<Seq<char>>,
    pub current: Seq<char>,
}

pub open spec fn no_pieces() -> Pieces {
    Pieces { done: Seq::empty(), current: Seq::empty() }
}

pub open spec fn without_return(s: Seq<char>) -> Seq<char> {
    if s.len() > 0 && s.last() == '\r' {
        s.drop_last()
    } else {
        s
    }
}

/// A line feed ends a line, and with it a carriage return right before it.
pub open spec fn line_step(p: Pieces, c: char) -> Pieces {
    if c == '\n' {
        Pieces { done: p.done.push(without_return(p.current)), current: Seq::empty() }
    } else {
        Pieces { done: p.done, current: p.current.push(c) }
    }
}

pub open spec fn line_pieces(s: Seq<char>) -> Pieces
    decreases s.len(),
{
    if s.len() == 0 {
        no_pieces()
    } else {
        line_step(line_pieces(s.drop_last()), s.last())
    }
}

/// The lines of `s`. What follows the last line feed is a line if it is not empty.
pub open spec fn lines(s: Seq<char>) -> Seq<Seq<char>> {
    let p = line_pieces(s);
    if p.current.len() > 0 {
        p.done.push(p.current)
    } else {
        p.done
    }
}

/// White space ends a word.
pub open spec fn word_step(p: Pieces, c: char) -> Pieces {
    if !white_space(c) {
        Pieces { done: p.done, current: p.current.push(c) }
    } else if p.current.len() > 0 {
        Pieces { done: p.done.push(p.current), current: Seq::empty() }
    } else {
        p
    }
}

pub open spec fn word_pieces(s: Seq<char>) -> Pieces
    decreases s.len(),
{
    if s.len() == 0 {
        no_pieces()
    } else {
        word_step(word_pieces(s.drop_last()), s.last())
    }
}

/// The longest runs of `s` that are free of white space.
pub open spec fn words(s: Seq<char>) -> Seq<Seq<char>> {
    let p = word_pieces(s);
    if p.current.len() > 0 {
        p.done.push(p.current)
    } else {
        p.done
    }
}

/// What a list of character vectors holds.
pub open spec fn runs(list: Seq<Vec<char>>) -> Seq<Seq<char>> {
    list.map_values(|v: Vec<char>| v@)
}

pub proof fn runs_push(list: Seq<Vec<char>>, v: Vec<char>)
    ensures
        runs(list.push(v)) == runs(list).push(v@),
{
    assert(runs(list.push(v)) =~= runs(list).push(v@));
}

pub proof fn texts_push(list: Seq<String>, s: String)
    ensures
        texts(list.push(s)) == texts(list).push(s@),
{
    assert(texts(list.push(s)) =~= texts(list).push(s@));
}

pub fn split_lines(s: &[char]) -> (out: Vec<Vec<char>>)
    ensures
        runs(out@) == lines(s@),
{
    let mut done: Vec<Vec<char>> = Vec::new();
    let mut current: Vec<char> = Vec::new();
    let mut i: usize = 0;
    assert(runs(done@) =~= Seq::<Seq<char>>::empty());
    assert(s@.take(0) =~= Seq::<char>::empty());
    while i < s.len()
        invariant
            i <= s.len(),
            line_pieces(s@.take(i as int)) == (Pieces { done: runs(done@), current: current@ }),
        decreases s.len() - i,
    {
        assert(s@.take(i as int + 1).drop_last() =~= s@.take(i as int));
        assert(s@.take(i as int + 1).last() == s@[i as int]);
        if s[i] == '\n' {
            let ghost before = current@;
            if current.len() > 0 && current[current.len() - 1] == '\r' {
                current.pop();
                assert(current@ =~= before.drop_last());
            }
            assert(current@ == without_return(before));
            proof {
                runs_push(done@, current);
            }
            done.push(current);
            current = Vec::new();
            assert(current@ =~= Seq::<char>::empty());
        } else {
            current.push(s[i]);
        }
        i = i + 1;
    }
    assert(s@.take(s@.len() as int) =~= s@);
    if current.len() > 0 {
        proof {
            runs_push(done@, current);
        }
        done.push(current);
    }
    done
}

pub fn split_words(s: &[char]) -> (out: Vec<Vec<char>>)
    ensures
        runs(out@) == words(s@),
{
    let mut done: Vec<Vec<char>> = Vec::new();
    let mut current: Vec<char> = Vec::new();
    let mut i: usize = 0;
    assert(runs(done@) =~= Seq::<Seq<char>>::empty());
    assert(s@.take(0) =~= Seq::<char>::empty());
    while i < s.len()
        invariant
            i <= s.len(),
            word_pieces(s@.take(i as int)) == (Pieces { done: runs(done@), current: current@ }),
        decreases s.len() - i,
    {
        assert(s@.take(i as int + 1).drop_last() =~= s@.take(i as int));
        assert(s@.take(i as int + 1).last() == s@[i as int]);
        if !is_white_space(s[i]) {
            current.push(s[i]);
        } else if current.len() > 0 {
            proof {
                runs_push(done@, current);
            }
            done.push(current);
            current = Vec::new();
            assert(current@ =~= Seq::<char>::empty());
        }
        i = i + 1;
    }
    assert(s@.take(s@.len() as int) =~= s@);
    if current.len() > 0 {
        proof {
            runs_push(done@, current);
        }
        done.push(current);
    }
    done
}

/// `c` ends a piece, which may be empty.
pub open spec fn split_step(p: Pieces, c: char, separator: char) -> Pieces {
    if c == separator {
        Pieces { done: p.done.push(p.current), current: Seq::empty() }
    } else {
        Pieces { done: p.done, current: p.current.push(c) }
    }
}

pub open spec fn split_pieces(s: Seq<char>, separator: char) -> Pieces
    decreases s.len(),
{
    if s.len() == 0 {
        no_pieces()
    } else {
        split_step(split_pieces(s.drop_last(), separator), s.last(), separator)
    }
}

/// The pieces of `s` before, between and after the separators.
pub open spec fn split(s: Seq<char>, separator: char) -> Seq<Seq<char>> {
    let p = split_pieces(s, separator);
    p.done.push(p.current)
}

pub fn split_at_each(s: &[char], separator: char) -> (out: Vec<Vec<char>>)
    ensures
        runs(out@) == split(s@, separator),
        out@.len() > 0,
{
    let mut done: Vec<Vec<char>> = Vec::new();
    let mut current: Vec<char> = Vec::new();
    let mut i: usize = 0;
    assert(runs(done@) =~= Seq::<Seq<char>>::empty());
    assert(s@.take(0) =~= Seq::<char>::empty());
    while i < s.len()
        invariant
            i <= s.len(),
            split_pieces(s@.take(i as int), separator) == (Pieces {
                done: runs(done@),
                current: current@,
            }),
        decreases s.len() - i,
    {
        assert(s@.take(i as int + 1).drop_last() =~= s@.take(i as int));
        assert(s@.take(i as int + 1).last() == s@[i as int]);
        if s[i] == separator {
            proof {
                runs_push(done@, current);
            }
            done.push(current);
            current = Vec::new();
            assert(current@ =~= Seq::<char>::empty());
        } else {
            current.push(s[i]);
        }
        i = i + 1;
    }
    assert(s@.take(s@.len() as int) =~= s@);
    proof {
        runs_push(done@, current);
    }
    done.push(current);
    done
}

// ---------------------------------------------------------------------------
// Numbers
// ---------------------------------------------------------------------------
pub open spec fn all_digits(s: Seq<char>) -> bool {
    forall|i: int| 0 <= i < s.len() ==> digit(#[trigger] s[i])
}

pub open spec fn digit_value(c: char) -> nat {
    if digit(c) {
        (c as u32 - 0x30) as nat
    } else {
        0
    }
}

/// The number that decimal digits stand for.
pub open spec fn number(s: Seq<char>) -> nat
    decreases s.len(),
{
    if s.len() == 0 {
        0
    } else {
        number(s.drop_last()) * 10 + digit_value(s.last())
    }
}

/// The digits behind an optional plus sign.
pub open spec fn unsigned_digits(s: Seq<char>) -> Seq<char> {
    if s.len() > 0 && s[0] == '+' {
        s.drop_first()
    } else {
        s
    }
}

/// A plus sign or none, then at least one decimal digit and nothing else, up to 65535.
pub open spec fn parsed_u16(s: Seq<char>) -> Option<u16> {
    let d = unsigned_digits(s);
    if d.len() > 0 && all_digits(d) && number(d) <= 65535 {
        Some(number(d) as u16)
    } else {
        None
    }
}

pub fn every_digit(s: &[char]) -> (r: bool)
    ensures
        r == all_digits(s@),
{
    let mut i: usize = 0;
    while i < s.len()
        invariant
            i <= s.len(),
            forall|k: int| 0 <= k < i ==> digit(#[trigger] s@[k]),
        decreases s.len() - i,
    {
        if !is_digit(s[i]) {
            return false;
        }
        i = i + 1;
    }
    true
}

pub fn parse_u16(s: &[char]) -> (r: Option<u16>)
    ensures
        r == parsed_u16(s@),
{
    let d = if s.len() > 0 && s[0] == '+' {
        slice_subrange(s, 1, s.len())
    } else {
        s
    };
    assert(d@ =~= unsigned_digits(s@));
    if d.len() == 0 || !every_digit(d) {
        return None;
    }
    let mut value: u32 = 0;
    let mut over: bool = false;
    let mut i: usize = 0;
    assert(d@.take(0) =~= Seq::<char>::empty());
    while i < d.len()
        invariant
            i <= d.len(),
            all_digits(d@),
            over ==> number(d@.take(i as int)) > 65535,
            !over ==> value == number(d@.take(i as int)) && value <= 65535,
        decreases d.len() - i,
    {
        assert(d@.take(i as int + 1).drop_last() =~= d@.take(i as int));
        assert(d@.take(i as int + 1).last() == d@[i as int]);
        assert(digit(d@[i as int]));
        if !over {
            value = value * 10 + (d[i] as u32 - 0x30);
            if value > 65535 {
                over = true;
            }
        }
        i = i + 1;
    }
    assert(d@.take(d@.len() as int) =~= d@);
    if over {
        None
    } else {
        Some(value as u16)
    }
}

pub open spec fn digit_char(n: nat) -> char {
    (0x30 + n) as char
}

/// `n` in decimal digits, without leading zeros.
pub open spec fn decimal(n: nat) -> Seq<char>
    decreases n,
{
    if n < 10 {
        seq![digit_char(n)]
    } else {
        decimal(n / 10).push(digit_char(n % 10))
    }
}

pub fn push_decimal(out: &mut String, n: u64)
    ensures
        final(out)@ == old(out)@ + decimal(n as nat),
    decreases n,
{
    if n >= 10 {
        push_decimal(out, n / 10);
    }
    let d: u8 = 0x30 + (n % 10) as u8;
    out.push(d as char);
    assert(out@ =~= old(out)@ + decimal(n as nat));
}

pub fn decimal_text(n: u64) -> (out: String)
    ensures
        out@ == decimal(n as nat),
{
    let mut out = String::new();
    push_decimal(&mut out, n);
    assert(out@ =~= decimal(n as nat));
    out
}

/// Reading back the decimal digits of a number gives the number.
pub proof fn decimal_reads_back(n: nat)
    ensures
        all_digits(decimal(n)),
        decimal(n).len() > 0,
        number(decimal(n)) == n,
        decimal(n)[0] != '+',
    decreases n,
{
    reveal_with_fuel(number, 2);
    assert(digit_value(digit_char(n % 10)) == n % 10);
    assert(decimal(n).last() == digit_char(n % 10));
    if n < 10 {
        assert(decimal(n).drop_last() =~= Seq::<char>::empty());
    } else {
        decimal_reads_back(n / 10);
        assert(decimal(n).drop_last() =~= decimal(n / 10));
        assert forall|i: int| 0 <= i < decimal(n).len() implies digit(#[trigger] decimal(n)[i]) by {
            if i < decimal(n / 10).len() {
                assert(decimal(n)[i] == decimal(n / 10)[i]);
            }
        }
        assert(decimal(n)[0] == decimal(n / 10)[0]);
    }
}

/// The smallest number with more than `k` digits.
pub open spec fn ten_to(k: nat) -> nat
    decreases k,
{
    if k == 0 {
        1
    } else {
        10 * ten_to((k - 1) as nat)
    }
}

/// Numbers below a power of ten have no more digits than its exponent says.
pub proof fn decimal_is_short(n: nat, k: nat)
    requires
        1 <= k,
        n < ten_to(k),
    ensures
        decimal(n).len() <= k,
    decreases k,
{
    if n >= 10 {
        if k == 1 {
            assert(ten_to(1) == 10 * ten_to(0));
            assert(ten_to(0) == 1);
        } else {
            decimal_is_short(n / 10, (k - 1) as nat);
        }
    }
}

/// Different numbers have different decimal digits.
pub proof fn decimals_differ(a: nat, b: nat)
    requires
        decimal(a) == decimal(b),
    ensures
        a == b,
{
    decimal_reads_back(a);
    decimal_reads_back(b);
}

/// Every port number, written in decimal, is read back as itself.
pub proof fn u16_reads_back(n: u16)
    ensures
        parsed_u16(decimal(n as nat)) == Some(n),
{
    decimal_reads_back(n as nat);
}

// ---------------------------------------------------------------------------
// What words, lines and pieces are
// ---------------------------------------------------------------------------
/// The white space of ASCII is the tab, the line feed, the vertical tab, the form feed, the
/// carriage return and the space. Beyond ASCII these are all.
pub proof fn white_space_is_the_unicode_property(c: char)
    ensures
        (c as u32) < 0x80 ==> (white_space(c) <==> c == '\t' || c == '\n' || c == '\u{b}' || c
            == '\u{c}' || c == '\r' || c == ' '),
        (c as u32) >= 0x80 ==> (white_space(c) <==> c == '\u{85}' || c == '\u{a0}' || c
            == '\u{1680}' || c == '\u{2000}' || c == '\u{2001}' || c == '\u{2002}' || c
            == '\u{2003}' || c == '\u{2004}' || c == '\u{2005}' || c == '\u{2006}' || c
            == '\u{2007}' || c == '\u{2008}' || c == '\u{2009}' || c == '\u{200a}' || c
            == '\u{2028}' || c == '\u{2029}' || c == '\u{202f}' || c == '\u{205f}' || c
            == '\u{3000}'),
{
}

/// Control characters stand before the space and from delete up to the no-break space.
pub proof fn control_characters_are_two_ranges(c: char)
    ensures
        control(c) <==> (c as u32) < (' ' as u32) || ('\u{7f}' as u32) <= (c as u32) < ('\u{a0}'
            as u32),
{
}

/// Digits count up from `0`.
pub proof fn digits_count_up(n: nat)
    requires
        n < 10,
    ensures
        digit_char(n) as u32 == '0' as u32 + n,
        digit(digit_char(n)),
        digit_value(digit_char(n)) == n,
        decimal(n) == seq![digit_char(n)],
{
}

proof fn letters_move_by_32(c: char)
    ensures
        'A' <= c <= 'Z' ==> lower(c) as u32 == c as u32 + 32,
        !('A' <= c <= 'Z') ==> lower(c) == c,
{
}

proof fn digits_are_ten_characters(c: char)
    ensures
        digit(c) <==> '0' <= c <= '9',
{
}

/// Only the letters of ASCII change, and each becomes the one 32 places further. A text keeps its
/// length, and lower case stays as it is.
pub proof fn lower_case_is_ascii(s: Seq<char>, i: int)
    requires
        0 <= i < s.len(),
    ensures
        lowered(s).len() == s.len(),
        'A' <= s[i] <= 'Z' ==> lowered(s)[i] as u32 == s[i] as u32 + 32,
        !('A' <= s[i] <= 'Z') ==> lowered(s)[i] == s[i],
        lowered(lowered(s)) == lowered(s),
{
    letters_move_by_32(s[i]);
    assert forall|c: char| #[trigger] lower(lower(c)) == lower(c) by {}
    assert(lowered(lowered(s)) =~= lowered(s));
}

/// A text holds a part exactly if something stands before the part and something behind it, each
/// of them perhaps empty.
pub proof fn parts_stand_between(s: Seq<char>, part: Seq<char>)
    ensures
        holds(s, part) <==> exists|before: Seq<char>, behind: Seq<char>| s == #[trigger] (before
            + part + behind),
{
    if holds(s, part) {
        let i = choose|i: int|
            #![trigger s.subrange(i, i + part.len())]
            0 <= i <= s.len() - part.len() && s.subrange(i, i + part.len()) == part;
        assert(s =~= s.take(i) + part + s.skip(i + part.len()));
    }
    if exists|before: Seq<char>, behind: Seq<char>| s == #[trigger] (before + part + behind) {
        let (before, behind) = choose|before: Seq<char>, behind: Seq<char>|
            s == #[trigger] (before + part + behind);
        let i = before.len() as int;
        assert(s.subrange(i, i + part.len()) =~= part);
    }
}

/// A text begins with every text that it continues.
pub proof fn texts_begin_with_their_start(part: Seq<char>, rest: Seq<char>)
    ensures
        begins(part + rest, part),
{
    assert((part + rest).take(part.len() as int) =~= part);
}

proof fn trim_start_takes_space(s: Seq<char>)
    ensures
        trim_start(s).len() <= s.len(),
        trim_start(s) == s.skip(s.len() - trim_start(s).len()),
        forall|i: int|
            0 <= i < s.len() - trim_start(s).len() ==> white_space(#[trigger] s[i]),
        trim_start(s).len() > 0 ==> !white_space(trim_start(s)[0]),
    decreases s.len(),
{
    if s.len() > 0 && white_space(s[0]) {
        let t = s.drop_first();
        trim_start_takes_space(t);
        assert forall|i: int| 0 <= i < s.len() - trim_start(s).len() implies white_space(
            #[trigger] s[i],
        ) by {
            if i > 0 {
                assert(t[i - 1] == s[i]);
            }
        }
        assert(trim_start(s) =~= s.skip(s.len() - trim_start(s).len()));
    } else {
        assert(s.skip(0) =~= s);
    }
}

proof fn trim_end_takes_space(s: Seq<char>)
    ensures
        trim_end(s).len() <= s.len(),
        trim_end(s) == s.take(trim_end(s).len() as int),
        forall|i: int| trim_end(s).len() <= i < s.len() ==> white_space(#[trigger] s[i]),
        trim_end(s).len() > 0 ==> !white_space(trim_end(s).last()),
    decreases s.len(),
{
    if s.len() > 0 && white_space(s.last()) {
        let t = s.drop_last();
        trim_end_takes_space(t);
        assert forall|i: int| trim_end(s).len() <= i < s.len() implies white_space(
            #[trigger] s[i],
        ) by {
            if i < s.len() - 1 {
                assert(t[i] == s[i]);
            }
        }
        assert(trim_end(s) =~= s.take(trim_end(s).len() as int));
    } else {
        assert(s.take(s.len() as int) =~= s);
    }
}

/// Trimming takes white space from both ends, all of it, and nothing else.
pub proof fn trimming_takes_all_space(s: Seq<char>) -> (start: int)
    ensures
        0 <= start <= start + trim(s).len() <= s.len(),
        trim(s) == s.subrange(start, start + trim(s).len()),
        forall|i: int| 0 <= i < start ==> white_space(#[trigger] s[i]),
        forall|i: int| start + trim(s).len() <= i < s.len() ==> white_space(#[trigger] s[i]),
        trim(s).len() > 0 ==> !white_space(trim(s)[0]) && !white_space(trim(s).last()),
{
    let t = trim_start(s);
    trim_start_takes_space(s);
    trim_end_takes_space(t);
    let start = s.len() - t.len();
    assert(trim(s) =~= s.subrange(start, start + trim(s).len()));
    assert forall|i: int| start + trim(s).len() <= i < s.len() implies white_space(
        #[trigger] s[i],
    ) by {
        assert(t[i - start] == s[i]);
    }
    start
}

proof fn word_goes_on(s: Seq<char>, word: Seq<char>)
    requires
        forall|i: int| 0 <= i < word.len() ==> !white_space(#[trigger] word[i]),
    ensures
        word_pieces(s + word).done == word_pieces(s).done,
        word_pieces(s + word).current == word_pieces(s).current + word,
    decreases word.len(),
{
    if word.len() == 0 {
        assert(s + word =~= s);
        assert(word_pieces(s).current + word =~= word_pieces(s).current);
    } else {
        let shorter = word.drop_last();
        assert forall|i: int| 0 <= i < shorter.len() implies !white_space(#[trigger] shorter[i]) by {
            assert(shorter[i] == word[i]);
        }
        word_goes_on(s, shorter);
        assert((s + word).drop_last() =~= s + shorter);
        assert((s + word).last() == word.last());
        assert(word_pieces(s).current + word =~= (word_pieces(s).current + shorter).push(
            word.last(),
        ));
    }
}

/// White space and a word behind a text add this word to its words.
pub proof fn words_are_told_apart(s: Seq<char>, space: char, word: Seq<char>)
    requires
        white_space(space),
        word.len() > 0,
        forall|i: int| 0 <= i < word.len() ==> !white_space(#[trigger] word[i]),
    ensures
        words(word) == seq![word],
        words(s.push(space)) == words(s),
        words(s.push(space) + word) == words(s).push(word),
{
    assert(Seq::<char>::empty() + word =~= word);
    word_goes_on(Seq::empty(), word);
    assert(word_pieces(Seq::<char>::empty()).current + word =~= word);
    assert(words(word) =~= seq![word]);
    let t = s.push(space);
    assert(t.drop_last() =~= s);
    word_goes_on(t, word);
    assert(word_pieces(t).current.len() == 0);
    assert(word_pieces(t).current + word =~= word);
}

proof fn line_goes_on(s: Seq<char>, line: Seq<char>)
    requires
        !line.contains('\n'),
    ensures
        line_pieces(s + line).done == line_pieces(s).done,
        line_pieces(s + line).current == line_pieces(s).current + line,
    decreases line.len(),
{
    if line.len() == 0 {
        assert(s + line =~= s);
        assert(line_pieces(s).current + line =~= line_pieces(s).current);
    } else {
        let shorter = line.drop_last();
        assert(!shorter.contains('\n')) by {
            if shorter.contains('\n') {
                let i = choose|i: int| 0 <= i < shorter.len() && shorter[i] == '\n';
                assert(line[i] == '\n');
            }
        }
        line_goes_on(s, shorter);
        assert((s + line).drop_last() =~= s + shorter);
        assert((s + line).last() == line.last());
        assert(line.last() != '\n') by {
            assert(line[line.len() - 1] == line.last());
        }
        assert(line_pieces(s).current + line =~= (line_pieces(s).current + shorter).push(
            line.last(),
        ));
    }
}

/// Behind a text whose last line has ended, a line and a line feed add this line. A carriage return
/// right before the line feed does not belong to it, and a last line needs no line feed.
pub proof fn lines_read_back(s: Seq<char>, line: Seq<char>)
    requires
        s.len() == 0 || s.last() == '\n',
        !line.contains('\n'),
        line.len() > 0 ==> line.last() != '\r',
    ensures
        lines(s + line.push('\n')) == lines(s).push(line),
        lines(s + line.push('\r').push('\n')) == lines(s).push(line),
        line.len() > 0 ==> lines(s + line) == lines(s).push(line),
        line.len() == 0 ==> lines(s + line) == lines(s),
{
    let p = line_pieces(s);
    assert(p.current.len() == 0);
    line_goes_on(s, line);
    assert(p.current + line =~= line);
    let ended = s + line.push('\n');
    assert(ended.drop_last() =~= s + line);
    assert(ended.last() == '\n');
    let returned = line.push('\r');
    assert(!returned.contains('\n')) by {
        if returned.contains('\n') {
            let i = choose|i: int| 0 <= i < returned.len() && returned[i] == '\n';
            assert(line[i] == '\n');
        }
    }
    line_goes_on(s, returned);
    assert(p.current + returned =~= returned);
    let both = s + returned.push('\n');
    assert(both.drop_last() =~= s + returned);
    assert(returned.drop_last() =~= line);
    assert(s + line.push('\r').push('\n') =~= both);
}

proof fn piece_goes_on(s: Seq<char>, piece: Seq<char>, separator: char)
    requires
        !piece.contains(separator),
    ensures
        split_pieces(s + piece, separator).done == split_pieces(s, separator).done,
        split_pieces(s + piece, separator).current == split_pieces(s, separator).current + piece,
    decreases piece.len(),
{
    if piece.len() == 0 {
        assert(s + piece =~= s);
        assert(split_pieces(s, separator).current + piece =~= split_pieces(s, separator).current);
    } else {
        let shorter = piece.drop_last();
        assert(!shorter.contains(separator)) by {
            if shorter.contains(separator) {
                let i = choose|i: int| 0 <= i < shorter.len() && shorter[i] == separator;
                assert(piece[i] == separator);
            }
        }
        piece_goes_on(s, shorter, separator);
        assert((s + piece).drop_last() =~= s + shorter);
        assert((s + piece).last() == piece.last());
        assert(piece.last() != separator) by {
            assert(piece[piece.len() - 1] == piece.last());
        }
        assert(split_pieces(s, separator).current + piece =~= (split_pieces(s, separator).current
            + shorter).push(piece.last()));
    }
}

/// A separator and a piece behind a text add this piece to its pieces, even an empty one. A text
/// without a separator is its only piece.
pub proof fn pieces_are_told_apart(s: Seq<char>, piece: Seq<char>, separator: char)
    requires
        !piece.contains(separator),
    ensures
        split(piece, separator) == seq![piece],
        split(s.push(separator) + piece, separator) == split(s, separator).push(piece),
{
    assert(Seq::<char>::empty() + piece =~= piece);
    piece_goes_on(Seq::empty(), piece, separator);
    assert(split_pieces(Seq::<char>::empty(), separator).current + piece =~= piece);
    assert(split(piece, separator) =~= seq![piece]);
    let t = s.push(separator);
    assert(t.drop_last() =~= s);
    piece_goes_on(t, piece, separator);
    assert(split_pieces(t, separator).current + piece =~= piece);
}

proof fn zero_in_front(s: Seq<char>)
    ensures
        number(seq!['0'] + s) == number(s),
    decreases s.len(),
{
    let t = seq!['0'] + s;
    if s.len() == 0 {
        assert(t.drop_last() =~= Seq::<char>::empty());
        reveal_with_fuel(number, 2);
    } else {
        zero_in_front(s.drop_last());
        assert(t.drop_last() =~= seq!['0'] + s.drop_last());
        assert(t.last() == s.last());
    }
}

/// A plus sign or a zero in front of a port number changes nothing. Whatever is no digit, and a
/// number beyond 65535, leaves no number.
pub proof fn ports_are_read_strictly(n: nat, s: Seq<char>, i: int)
    ensures
        n <= 65535 ==> parsed_u16(decimal(n)) == Some(n as u16),
        n <= 65535 ==> parsed_u16(seq!['+'] + decimal(n)) == Some(n as u16),
        n <= 65535 ==> parsed_u16(seq!['0'] + decimal(n)) == Some(n as u16),
        n > 65535 ==> parsed_u16(decimal(n)) is None,
        s.len() == 0 ==> parsed_u16(s) is None,
        0 < i < s.len() && !('0' <= s[i] <= '9') ==> parsed_u16(s) is None,
        s.len() > 0 && s[0] != '+' && !('0' <= s[0] <= '9') ==> parsed_u16(s) is None,
{
    decimal_reads_back(n);
    assert((seq!['+'] + decimal(n)).drop_first() =~= decimal(n));
    zero_in_front(decimal(n));
    let z = seq!['0'] + decimal(n);
    assert forall|k: int| 0 <= k < z.len() implies digit(#[trigger] z[k]) by {
        if k > 0 {
            assert(z[k] == decimal(n)[k - 1]);
        }
    }
    let d = unsigned_digits(s);
    if 0 < i < s.len() && !('0' <= s[i] <= '9') {
        digits_are_ten_characters(s[i]);
        if s[0] == '+' {
            assert(d[i - 1] == s[i]);
        } else {
            assert(d[i] == s[i]);
        }
    }
    if s.len() > 0 && s[0] != '+' && !('0' <= s[0] <= '9') {
        digits_are_ten_characters(s[0]);
        assert(d[0] == s[0]);
    }
}

/// A text stays as it is exactly if no white space stands at either of its ends.
pub proof fn trimmed_texts_stay(s: Seq<char>)
    requires
        s.len() > 0,
    ensures
        trim(s) == s <==> !white_space(s[0]) && !white_space(s.last()),
{
    let start = trimming_takes_all_space(s);
    if !white_space(s[0]) && !white_space(s.last()) {
        trim_keeps(s);
    }
}

/// A text of one line and a line feed has this line.
pub proof fn a_lone_line(line: Seq<char>)
    requires
        !line.contains('\n'),
        line.len() > 0 ==> line.last() != '\r',
    ensures
        lines(line.push('\n')) == seq![line],
{
    let nothing = Seq::<char>::empty();
    lines_read_back(nothing, line);
    assert(nothing + line.push('\n') =~= line.push('\n'));
    assert(lines(nothing) =~= Seq::<Seq<char>>::empty());
    assert(Seq::<Seq<char>>::empty().push(line) =~= seq![line]);
}

} // verus!
