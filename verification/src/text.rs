//! Building text: decimal and hexadecimal numerals and the escaping of bytes
//! for string constants.

use vstd::prelude::*;
use vstd::std_specs::iter::IteratorSpec;

verus! {

/// Appends one character to a string.
///
/// Wraps `String::push`: the contract claims that the string afterwards is
/// the string before with `c` added at its end.
#[verifier::external_body]
pub(crate) fn push_char(s: &mut String, c: char)
    ensures
        final(s)@ == old(s)@.push(c),
{
    s.push(c)
}

/// The character that writes a digit below sixteen, in upper case.
pub open spec fn digit_char(d: int) -> char {
    if d == 0 {
        '0'
    } else if d == 1 {
        '1'
    } else if d == 2 {
        '2'
    } else if d == 3 {
        '3'
    } else if d == 4 {
        '4'
    } else if d == 5 {
        '5'
    } else if d == 6 {
        '6'
    } else if d == 7 {
        '7'
    } else if d == 8 {
        '8'
    } else if d == 9 {
        '9'
    } else if d == 10 {
        'A'
    } else if d == 11 {
        'B'
    } else if d == 12 {
        'C'
    } else if d == 13 {
        'D'
    } else if d == 14 {
        'E'
    } else {
        'F'
    }
}

/// The decimal numeral of a natural number, without leading zeros.
pub open spec fn decimal(n: nat) -> Seq<char>
    decreases n,
{
    if n < 10 {
        seq![digit_char(n as int)]
    } else {
        decimal(n / 10).push(digit_char((n % 10) as int))
    }
}

/// The decimal numeral of an integer, with a minus sign when it is negative.
pub open spec fn signed_decimal(i: int) -> Seq<char> {
    if i < 0 {
        seq!['-'] + decimal((-i) as nat)
    } else {
        decimal(i as nat)
    }
}

/// The two upper-case hexadecimal digits of a byte.
pub open spec fn hex_byte(b: u8) -> Seq<char> {
    seq![digit_char((b / 16) as int), digit_char((b % 16) as int)]
}

/// Whether a byte of a string constant stands for itself: printable ASCII
/// other than the double quote and the backslash.
pub open spec fn stands_for_itself(b: u8) -> bool {
    0x20 <= b <= 0x7E && b != 0x22 && b != 0x5C
}

/// How one byte of a string constant is written: a byte that stands for
/// itself as its character, and every other byte, the double quote and the
/// backslash among them, as a backslash and its two upper-case hexadecimal
/// digits.
pub open spec fn escape_byte(b: u8) -> Seq<char> {
    if stands_for_itself(b) {
        seq![b as char]
    } else {
        seq!['\\'] + hex_byte(b)
    }
}

/// The escaped form of a sequence of bytes: each byte's form, in order.
pub open spec fn escape_bytes(bytes: Seq<u8>) -> Seq<char>
    decreases bytes.len(),
{
    if bytes.len() == 0 {
        Seq::empty()
    } else {
        escape_bytes(bytes.drop_last()) + escape_byte(bytes.last())
    }
}

/// How one byte of a file name is written in a record of the debug
/// information: printable ASCII stands for itself, backslash and double
/// quote get a backslash in front, and every other byte becomes a backslash
/// and its two upper-case hexadecimal digits.
pub open spec fn escape_name_byte(b: u8) -> Seq<char> {
    if b == 0x5C {
        seq!['\\', '\\']
    } else if b == 0x22 {
        seq!['\\', '"']
    } else if 0x20 <= b <= 0x7E {
        seq![b as char]
    } else {
        seq!['\\'] + hex_byte(b)
    }
}

/// The escaped form of the bytes of a file name: each byte's form, in
/// order.
pub open spec fn escape_name_bytes(bytes: Seq<u8>) -> Seq<char>
    decreases bytes.len(),
{
    if bytes.len() == 0 {
        Seq::empty()
    } else {
        escape_name_bytes(bytes.drop_last()) + escape_name_byte(bytes.last())
    }
}

/// The character of a digit below sixteen.
pub(crate) fn digit(d: u8) -> (c: char)
    requires
        d < 16,
    ensures
        c == digit_char(d as int),
{
    if d == 0 {
        '0'
    } else if d == 1 {
        '1'
    } else if d == 2 {
        '2'
    } else if d == 3 {
        '3'
    } else if d == 4 {
        '4'
    } else if d == 5 {
        '5'
    } else if d == 6 {
        '6'
    } else if d == 7 {
        '7'
    } else if d == 8 {
        '8'
    } else if d == 9 {
        '9'
    } else if d == 10 {
        'A'
    } else if d == 11 {
        'B'
    } else if d == 12 {
        'C'
    } else if d == 13 {
        'D'
    } else if d == 14 {
        'E'
    } else {
        'F'
    }
}

/// Appends the decimal numeral of `n`.
pub(crate) fn push_decimal(out: &mut String, n: u128)
    ensures
        final(out)@ == old(out)@ + decimal(n as nat),
    decreases n,
{
    if n < 10 {
        push_char(out, digit(n as u8));
        assert(out@ =~= old(out)@ + decimal(n as nat));
    } else {
        push_decimal(out, n / 10);
        push_char(out, digit((n % 10) as u8));
        assert(out@ =~= old(out)@ + decimal(n as nat));
    }
}

/// Appends the decimal numeral of a signed integer.
pub(crate) fn push_signed_decimal(out: &mut String, i: i64)
    ensures
        final(out)@ == old(out)@ + signed_decimal(i as int),
{
    if i < 0 {
        push_char(out, '-');
        let magnitude: u128 = (-(i as i128)) as u128;
        push_decimal(out, magnitude);
        assert(out@ =~= old(out)@ + signed_decimal(i as int));
    } else {
        push_decimal(out, i as u128);
    }
}

/// Appends the escaped form of one byte of a string constant.
pub(crate) fn push_escaped_byte(out: &mut String, b: u8)
    ensures
        final(out)@ == old(out)@ + escape_byte(b),
{
    if 0x20 <= b && b <= 0x7E && b != 0x22 && b != 0x5C {
        push_char(out, b as char);
    } else {
        push_char(out, '\\');
        push_char(out, digit(b / 16));
        push_char(out, digit(b % 16));
    }
    assert(out@ =~= old(out)@ + escape_byte(b));
}

/// Appends the escaped form of one byte of a file name.
pub(crate) fn push_escaped_name_byte(out: &mut String, b: u8)
    ensures
        final(out)@ == old(out)@ + escape_name_byte(b),
{
    if b == 0x5C {
        push_char(out, '\\');
        push_char(out, '\\');
    } else if b == 0x22 {
        push_char(out, '\\');
        push_char(out, '"');
    } else if 0x20 <= b && b <= 0x7E {
        push_char(out, b as char);
    } else {
        push_char(out, '\\');
        push_char(out, digit(b / 16));
        push_char(out, digit(b % 16));
    }
    assert(out@ =~= old(out)@ + escape_name_byte(b));
}

/// The escaped form, as it stands in a string constant, of the bytes of a
/// slice from `from` up to `to`.
pub fn escape_range(bytes: &[u8], from: usize, to: usize) -> (r: String)
    requires
        from <= to <= bytes@.len(),
    ensures
        r@ == escape_bytes(bytes@.subrange(from as int, to as int)),
{
    let mut out = String::new();
    let mut i: usize = from;
    while i < to
        invariant
            from <= i <= to <= bytes@.len(),
            out@ == escape_bytes(bytes@.subrange(from as int, i as int)),
        decreases to - i,
    {
        push_escaped_byte(&mut out, bytes[i]);
        proof {
            let next = bytes@.subrange(from as int, i + 1);
            assert(next.drop_last() =~= bytes@.subrange(from as int, i as int));
            assert(next.last() == bytes@[i as int]);
        }
        i += 1;
    }
    out
}

/// The escaped form, as it stands in a record of the debug information, of
/// the bytes of a slice from `from` up to `to`.
pub fn escape_name_range(bytes: &[u8], from: usize, to: usize) -> (r: String)
    requires
        from <= to <= bytes@.len(),
    ensures
        r@ == escape_name_bytes(bytes@.subrange(from as int, to as int)),
{
    let mut out = String::new();
    let mut i: usize = from;
    while i < to
        invariant
            from <= i <= to <= bytes@.len(),
            out@ == escape_name_bytes(bytes@.subrange(from as int, i as int)),
        decreases to - i,
    {
        push_escaped_name_byte(&mut out, bytes[i]);
        proof {
            let next = bytes@.subrange(from as int, i + 1);
            assert(next.drop_last() =~= bytes@.subrange(from as int, i as int));
            assert(next.last() == bytes@[i as int]);
        }
        i += 1;
    }
    out
}

/// Whether two strings hold the same characters.
pub fn same_text(a: &str, b: &str) -> (r: bool)
    ensures
        r == (a@ == b@),
{
    let x = a.as_bytes();
    let y = b.as_bytes();
    proof {
        vstd::utf8::encode_utf8_decode_utf8(a@);
        vstd::utf8::encode_utf8_decode_utf8(b@);
    }
    if x.len() != y.len() {
        return false;
    }
    let mut i: usize = 0;
    while i < x.len()
        invariant
            i <= x.len(),
            x.len() == y.len(),
            x@ == vstd::utf8::encode_utf8(a@),
            y@ == vstd::utf8::encode_utf8(b@),
            forall|k: int| 0 <= k < i ==> x@[k] == y@[k],
        decreases x.len() - i,
    {
        if x[i] != y[i] {
            return false;
        }
        i += 1;
    }
    assert(x@ =~= y@);
    true
}

/// The decimal numeral of `n` as a string.
pub fn decimal_text(n: usize) -> (r: String)
    ensures
        r@ == decimal(n as nat),
{
    let mut out = String::new();
    push_decimal(&mut out, n as u128);
    assert(out@ =~= decimal(n as nat));
    out
}

/// A number, if there is one, as an integer.
pub open spec fn number(o: Option<usize>) -> Option<int> {
    match o {
        Some(n) => Some(n as int),
        None => None,
    }
}

/// The characters of a string, in order.
pub fn chars_of(s: &str) -> (v: Vec<char>)
    ensures
        v@ == s@,
{
    broadcast use vstd::string::group_string_axioms;

    let mut v: Vec<char> = Vec::new();
    let mut it = s.chars();
    assert(v@ + it.remaining() =~= s@);
    loop
        invariant
            v@ + it.remaining() == s@,
            it.obeys_prophetic_iter_laws(),
            it.decrease() is Some,
        decreases it.decrease()->0,
    {
        let ghost before = it.remaining();
        match it.next() {
            Some(c) => {
                let ghost old_v = v@;
                v.push(c);
                assert(v@ + it.remaining() =~= old_v + before);
            },
            None => {
                assert(v@ + before =~= v@);
                return v;
            },
        }
    }
}

/// The value of an upper-case hexadecimal digit; zero for any other
/// character.
pub open spec fn hex_value(c: char) -> int {
    if c == '1' {
        1
    } else if c == '2' {
        2
    } else if c == '3' {
        3
    } else if c == '4' {
        4
    } else if c == '5' {
        5
    } else if c == '6' {
        6
    } else if c == '7' {
        7
    } else if c == '8' {
        8
    } else if c == '9' {
        9
    } else if c == 'A' {
        10
    } else if c == 'B' {
        11
    } else if c == 'C' {
        12
    } else if c == 'D' {
        13
    } else if c == 'E' {
        14
    } else if c == 'F' {
        15
    } else {
        0
    }
}

/// The bytes that the text of a string constant stands for, from position
/// `i` on: a backslash and two hexadecimal digits stand for the byte of
/// that value, any other character for its own byte.
pub open spec fn unescape(text: Seq<char>, i: int) -> Seq<u8>
    decreases text.len() - i,
{
    if i < 0 || i >= text.len() {
        Seq::empty()
    } else if text[i] == '\\' {
        if i + 2 < text.len() {
            seq![(hex_value(text[i + 1]) * 16 + hex_value(text[i + 2])) as u8] + unescape(
                text,
                i + 3,
            )
        } else {
            Seq::empty()
        }
    } else {
        seq![text[i] as u8] + unescape(text, i + 1)
    }
}

/// Whether a character is printable ASCII and no double quote.
pub open spec fn is_plain(c: char) -> bool {
    ' ' <= c <= '~' && c != '"'
}

/// The escaped form of bytes that follow others is the escaped form of
/// the others followed by their own.
pub proof fn lemma_escape_concat(a: Seq<u8>, b: Seq<u8>)
    ensures
        escape_bytes(a + b) == escape_bytes(a) + escape_bytes(b),
    decreases b.len(),
{
    if b.len() == 0 {
        assert(a + b =~= a);
        assert(escape_bytes(a) + escape_bytes(b) =~= escape_bytes(a));
    } else {
        assert((a + b).drop_last() =~= a + b.drop_last());
        assert((a + b).last() == b.last());
        lemma_escape_concat(a, b.drop_last());
        assert(escape_bytes(a) + escape_bytes(b.drop_last()) + escape_byte(b.last())
            =~= escape_bytes(a) + (escape_bytes(b.drop_last()) + escape_byte(b.last())));
    }
}

/// A hexadecimal digit is a plain character, and has the value of the
/// number that it writes.
pub proof fn lemma_hex_digit(d: int)
    requires
        0 <= d < 16,
    ensures
        is_plain(digit_char(d)),
        digit_char(d) != '\\',
        hex_value(digit_char(d)) == d,
{
}

/// The escaped form of one byte is plain text of one or three characters,
/// and stands for that byte.
pub proof fn lemma_escape_byte(b: u8)
    ensures
        forall|k: int|
            0 <= k < escape_byte(b).len() ==> is_plain(#[trigger] escape_byte(b)[k]),
        stands_for_itself(b) ==> escape_byte(b).len() == 1 && escape_byte(b)[0] != '\\'
            && escape_byte(b)[0] as u8 == b,
        !stands_for_itself(b) ==> escape_byte(b).len() == 3 && escape_byte(b)[0] == '\\'
            && hex_value(escape_byte(b)[1]) * 16 + hex_value(escape_byte(b)[2]) == b,
{
    lemma_hex_digit((b / 16) as int);
    lemma_hex_digit((b % 16) as int);
    if !stands_for_itself(b) {
        assert(escape_byte(b) =~= seq![
            '\\',
            digit_char((b / 16) as int),
            digit_char((b % 16) as int),
        ]);
    }
}

/// The escaped form of a string constant is pure ASCII: every character
/// of it is printable, and none is a double quote.
pub proof fn escaped_text_is_plain(bytes: Seq<u8>)
    ensures
        forall|k: int|
            0 <= k < escape_bytes(bytes).len() ==> is_plain(#[trigger] escape_bytes(bytes)[k]),
    decreases bytes.len(),
{
    if bytes.len() > 0 {
        escaped_text_is_plain(bytes.drop_last());
        lemma_escape_byte(bytes.last());
        let head = escape_bytes(bytes.drop_last());
        let tail = escape_byte(bytes.last());
        assert forall|k: int| 0 <= k < escape_bytes(bytes).len() implies is_plain(
            #[trigger] escape_bytes(bytes)[k],
        ) by {
            if k < head.len() {
                assert(escape_bytes(bytes)[k] == head[k]);
            } else {
                assert(escape_bytes(bytes)[k] == tail[k - head.len()]);
            }
        }
    }
}

/// The escaped form of bytes, read from the place where the escaped form
/// of the first `k` bytes ends, stands for the bytes from `k` on.
pub proof fn lemma_unescape_from(bytes: Seq<u8>, k: int)
    requires
        0 <= k <= bytes.len(),
    ensures
        unescape(escape_bytes(bytes), escape_bytes(bytes.subrange(0, k)).len() as int)
            == bytes.subrange(k, bytes.len() as int),
    decreases bytes.len() - k,
{
    let text = escape_bytes(bytes);
    let head = escape_bytes(bytes.subrange(0, k));
    let rest = bytes.subrange(k, bytes.len() as int);
    lemma_escape_concat(bytes.subrange(0, k), rest);
    assert(bytes.subrange(0, k) + rest =~= bytes);
    if k == bytes.len() {
        assert(rest =~= Seq::<u8>::empty());
        assert(text =~= head);
    } else {
        let b = bytes[k];
        let one = escape_byte(b);
        let after = bytes.subrange(k + 1, bytes.len() as int);
        assert(rest =~= seq![b] + after);
        lemma_escape_concat(seq![b], after);
        assert(seq![b].drop_last() =~= Seq::<u8>::empty());
        assert(seq![b].last() == b);
        assert(escape_bytes(Seq::<u8>::empty()) =~= Seq::<char>::empty());
        assert(escape_bytes(seq![b]) =~= escape_bytes(seq![b].drop_last()) + one);
        assert(escape_bytes(seq![b]) =~= one);
        assert(text =~= head + one + escape_bytes(after));
        lemma_escape_concat(bytes.subrange(0, k), seq![b]);
        assert(bytes.subrange(0, k) + seq![b] =~= bytes.subrange(0, k + 1));
        assert(escape_bytes(bytes.subrange(0, k + 1)).len() == head.len() + one.len());
        lemma_escape_byte(b);
        lemma_unescape_from(bytes, k + 1);
        let pos = head.len() as int;
        assert(text[pos] == one[0]);
        if !stands_for_itself(b) {
            assert(text[pos + 1] == one[1]);
            assert(text[pos + 2] == one[2]);
        }
        assert(seq![b] + after =~= rest);
    }
}

/// Decoding the escapes gives back the bytes: the escaped form of a string
/// constant stands for exactly the bytes that were escaped.
pub proof fn escaping_can_be_undone(bytes: Seq<u8>)
    ensures
        unescape(escape_bytes(bytes), 0) == bytes,
{
    lemma_unescape_from(bytes, 0);
    assert(bytes.subrange(0, 0) =~= Seq::<u8>::empty());
    assert(bytes.subrange(0, bytes.len() as int) =~= bytes);
}

} // verus!
