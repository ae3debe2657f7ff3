//! Text: building strings, comparing them and writing numbers.
use vstd::prelude::*;
use vstd::string::*;

verus! {

/// `String::push` appends one character.
pub assume_specification[ String::push ](s: &mut String, c: char)
    ensures
        final(s)@ == old(s)@.push(c),
;

/// `String::push_str` appends the characters of a string slice.
pub assume_specification[ String::push_str ](s: &mut String, t: &str)
    ensures
        final(s)@ == old(s)@ + t@,
;

/// Whether two texts hold the same characters.
pub fn same_text(a: &str, b: &str) -> (res: bool)
    ensures
        res == (a@ == b@),
{
    let x = a.to_owned();
    let y = b.to_owned();
    x == y
}

/// Whether a text has no characters.
pub fn is_empty_text(a: &str) -> (res: bool)
    ensures
        res == (a@.len() == 0),
{
    proof {
        reveal_strlit("");
    }
    let res = same_text(a, "");
    assert(a@.len() == 0 ==> a@ =~= ""@);
    res
}

/// The order of two byte sequences: negative, zero or positive as the first one
/// comes before the second one in dictionary order, is equal to it or comes after it.
pub open spec fn bytes_order(a: Seq<u8>, b: Seq<u8>) -> int
    decreases a.len(),
{
    if a.len() == 0 && b.len() == 0 {
        0
    } else if a.len() == 0 {
        -1
    } else if b.len() == 0 {
        1
    } else if a[0] < b[0] {
        -1
    } else if a[0] > b[0] {
        1
    } else {
        bytes_order(a.skip(1), b.skip(1))
    }
}

/// The order of two texts: that of their UTF-8 bytes.
pub open spec fn text_order(a: Seq<char>, b: Seq<char>) -> int {
    bytes_order(vstd::utf8::encode_utf8(a), vstd::utf8::encode_utf8(b))
}

/// Two byte sequences are in order zero exactly when they are equal.
pub proof fn bytes_order_zero(a: Seq<u8>, b: Seq<u8>)
    ensures
        bytes_order(a, b) == 0 <==> a == b,
    decreases a.len(),
{
    if a.len() > 0 && b.len() > 0 && a[0] == b[0] {
        bytes_order_zero(a.skip(1), b.skip(1));
        if a.skip(1) == b.skip(1) {
            assert forall|i: int| 0 <= i < a.len() implies a[i] == b[i] by {
                if i > 0 {
                    assert(a[i] == a.skip(1)[i - 1]);
                    assert(b[i] == b.skip(1)[i - 1]);
                }
            }
            assert(a.len() == a.skip(1).len() + 1);
            assert(b.len() == b.skip(1).len() + 1);
            assert(a =~= b);
        }
    } else if a.len() == 0 && b.len() == 0 {
        assert(a =~= b);
    }
}

/// Exchanging the two sequences turns the order around.
pub proof fn bytes_order_antisymmetric(a: Seq<u8>, b: Seq<u8>)
    ensures
        bytes_order(a, b) == -bytes_order(b, a),
    decreases a.len(),
{
    if a.len() > 0 && b.len() > 0 && a[0] == b[0] {
        bytes_order_antisymmetric(a.skip(1), b.skip(1));
    }
}

/// The order is transitive.
pub proof fn bytes_order_transitive(a: Seq<u8>, b: Seq<u8>, c: Seq<u8>)
    requires
        bytes_order(a, b) <= 0,
        bytes_order(b, c) <= 0,
    ensures
        bytes_order(a, c) <= 0,
        bytes_order(a, b) < 0 || bytes_order(b, c) < 0 ==> bytes_order(a, c) < 0,
    decreases a.len(),
{
    if a.len() > 0 && b.len() > 0 && c.len() > 0 && a[0] == b[0] && b[0] == c[0] {
        bytes_order_transitive(a.skip(1), b.skip(1), c.skip(1));
    }
}

/// Compares two texts by their UTF-8 bytes.
pub fn order_text(a: &str, b: &str) -> (res: i32)
    ensures
        res == text_order(a@, b@),
        -1 <= res <= 1,
{
    let x = a.as_bytes();
    let y = b.as_bytes();
    let mut i: usize = 0;
    assert(x@.skip(0) =~= x@);
    assert(y@.skip(0) =~= y@);
    while i < x.len() && i < y.len()
        invariant
            i <= x@.len(),
            i <= y@.len(),
            bytes_order(x@, y@) == bytes_order(x@.skip(i as int), y@.skip(i as int)),
            x@ == vstd::utf8::encode_utf8(a@),
            y@ == vstd::utf8::encode_utf8(b@),
        decreases x@.len() - i,
    {
        assert(x@.skip(i as int)[0] == x@[i as int]);
        assert(y@.skip(i as int)[0] == y@[i as int]);
        assert(x@.skip(i as int).skip(1) =~= x@.skip(i + 1));
        assert(y@.skip(i as int).skip(1) =~= y@.skip(i + 1));
        if x[i] < y[i] {
            return -1;
        }
        if x[i] > y[i] {
            return 1;
        }
        i = i + 1;
    }
    if i < y.len() {
        return -1;
    }
    if i < x.len() {
        return 1;
    }
    0
}

/// The first character of a text.
pub fn first_char(a: &str) -> (res: char)
    requires
        a@.len() > 0,
    ensures
        res == a@[0],
{
    a.get_char(0)
}

/// The character of a digit below sixteen.
pub open spec fn digit(d: int) -> char {
    if d == 0 { '0' } else if d == 1 { '1' } else if d == 2 { '2' } else if d == 3 { '3' }
    else if d == 4 { '4' } else if d == 5 { '5' } else if d == 6 { '6' } else if d == 7 { '7' }
    else if d == 8 { '8' } else if d == 9 { '9' } else if d == 10 { 'a' } else if d == 11 { 'b' }
    else if d == 12 { 'c' } else if d == 13 { 'd' } else if d == 14 { 'e' } else { 'f' }
}

pub fn digit_char(d: u64) -> (c: char)
    requires
        d < 16,
    ensures
        c == digit(d as int),
{
    match d {
        0 => '0',
        1 => '1',
        2 => '2',
        3 => '3',
        4 => '4',
        5 => '5',
        6 => '6',
        7 => '7',
        8 => '8',
        9 => '9',
        10 => 'a',
        11 => 'b',
        12 => 'c',
        13 => 'd',
        14 => 'e',
        _ => 'f',
    }
}

/// A natural number written in the given base, without leading zeros.
pub open spec fn numeral(n: nat, base: nat) -> Seq<char>
    decreases n,
    when base >= 2
{
    if n < base {
        seq![digit(n as int)]
    } else {
        proof {
            assert(n / base < n) by (nonlinear_arith)
                requires
                    n >= base,
                    base >= 2,
            ;
        }
        numeral(n / base, base).push(digit((n % base) as int))
    }
}

/// An integer in decimal notation.
pub open spec fn decimal(n: int) -> Seq<char> {
    if n < 0 {
        seq!['-'] + numeral((-n) as nat, 10)
    } else {
        numeral(n as nat, 10)
    }
}

/// A natural number in hexadecimal notation.
pub open spec fn hexadecimal(n: nat) -> Seq<char> {
    numeral(n, 16)
}

/// Text filled up on the left with zeros to the given width.
pub open spec fn zero_padded(s: Seq<char>, width: nat) -> Seq<char> {
    if s.len() < width {
        Seq::new((width - s.len()) as nat, |i: int| '0') + s
    } else {
        s
    }
}

/// Appends a number in the given base.
pub fn push_numeral(out: &mut String, n: u64, base: u64)
    requires
        2 <= base <= 16,
    ensures
        final(out)@ == old(out)@ + numeral(n as nat, base as nat),
    decreases n,
{
    if n >= base {
        assert(n / base < n) by (nonlinear_arith)
            requires
                n >= base,
                base >= 2,
        ;
        push_numeral(out, n / base, base);
        out.push(digit_char(n % base));
    } else {
        out.push(digit_char(n));
    }
    assert(out@ =~= old(out)@ + numeral(n as nat, base as nat));
}

/// Appends an integer in decimal notation.
pub fn push_decimal(out: &mut String, n: i64)
    ensures
        final(out)@ == old(out)@ + decimal(n as int),
{
    if n < 0 {
        out.push('-');
        let magnitude: u64 = if n == i64::MIN {
            0x8000_0000_0000_0000
        } else {
            (-n) as u64
        };
        push_numeral(out, magnitude, 10);
        assert(out@ =~= old(out)@ + decimal(n as int));
    } else {
        push_numeral(out, n as u64, 10);
    }
}

/// Appends a number in hexadecimal notation, filled up with zeros to the given width.
pub fn push_hex_padded(out: &mut String, n: u64, width: usize)
    ensures
        final(out)@ == old(out)@ + zero_padded(hexadecimal(n as nat), width as nat),
{
    let mut digits = String::new();
    push_numeral(&mut digits, n, 16);
    assert(digits@ =~= hexadecimal(n as nat));
    let length = digits.as_str().unicode_len();
    let mut i: usize = length;
    while i < width
        invariant
            length == digits@.len(),
            length <= i,
            i <= width || i == length,
            out@ == old(out)@ + Seq::new((i - length) as nat, |k: int| '0'),
        decreases width - i,
    {
        out.push('0');
        i = i + 1;
        assert(out@ =~= old(out)@ + Seq::new((i - length) as nat, |k: int| '0'));
    }
    out.push_str(digits.as_str());
    assert(out@ =~= old(out)@ + zero_padded(hexadecimal(n as nat), width as nat));
}

} // verus!
