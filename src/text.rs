use vstd::prelude::*;

verus! {

/// The character for a decimal digit.
pub open spec fn digit_char(d: nat) -> char
    recommends
        d < 10,
{
    ((d + 48) as u8) as char
}

/// Base-10 text of a natural number, without sign or leading zeros.
pub open spec fn dec(n: nat) -> Seq<char>
    decreases n,
{
    if n < 10 {
        seq![digit_char(n)]
    } else {
        dec(n / 10).push(digit_char(n % 10))
    }
}

/// Appends one character to a string.
/// Relies on String::push: the character is added at the end.
#[verifier::external_body]
pub(crate) fn push_char(s: &mut String, c: char)
    ensures
        final(s)@ == old(s)@.push(c),
{
    s.push(c);
}

fn digit(d: u64) -> (c: char)
    requires
        d < 10,
    ensures
        c == digit_char(d as nat),
{
    ((d as u8) + 48u8) as char
}

/// Base-10 text of `n`.
pub fn decimal(n: u64) -> (r: String)
    ensures
        r@ == dec(n as nat),
    decreases n,
{
    if n < 10 {
        let mut s = String::new();
        push_char(&mut s, digit(n));
        proof {
            assert(s@ =~= seq![digit_char(n as nat)]);
        }
        s
    } else {
        let mut s = decimal(n / 10);
        push_char(&mut s, digit(n % 10));
        s
    }
}

/// Characters that form encoding leaves as they are.
pub open spec fn form_unchanged(b: u8) -> bool {
    b == 42 || b == 45 || b == 46 || b == 95 || (48 <= b <= 57) || (65 <= b <= 90) || (97 <= b
        <= 122)
}

/// Upper-case hexadecimal digit.
pub open spec fn hex_char(d: nat) -> char
    recommends
        d < 16,
{
    if d < 10 {
        digit_char(d)
    } else {
        ((d + 55) as u8) as char
    }
}

/// The UTF-8 encoding of a character.
pub open spec fn utf8(c: char) -> Seq<u8> {
    let v = c as u32 as nat;
    if v < 0x80 {
        seq![v as u8]
    } else if v < 0x800 {
        seq![(0xC0 + v / 64) as u8, (0x80 + v % 64) as u8]
    } else if v < 0x10000 {
        seq![(0xE0 + v / 4096) as u8, (0x80 + (v / 64) % 64) as u8, (0x80 + v % 64) as u8]
    } else {
        seq![
            (0xF0 + v / 262144) as u8,
            (0x80 + (v / 4096) % 64) as u8,
            (0x80 + (v / 64) % 64) as u8,
            (0x80 + v % 64) as u8,
        ]
    }
}

/// Form encoding of one byte: kept, `+` for a space, else `%XX`.
pub open spec fn form_byte(b: u8) -> Seq<char> {
    if form_unchanged(b) {
        seq![b as char]
    } else if b == 32 {
        seq!['+']
    } else {
        seq!['%', hex_char(b as nat / 16), hex_char(b as nat % 16)]
    }
}

/// Form encoding of a byte sequence.
pub open spec fn form_bytes(bs: Seq<u8>) -> Seq<char>
    decreases bs.len(),
{
    if bs.len() == 0 {
        Seq::empty()
    } else {
        form_bytes(bs.drop_last()) + form_byte(bs.last())
    }
}

/// The `application/x-www-form-urlencoded` form of a text, taken over its UTF-8 bytes.
pub open spec fn form_encode(s: Seq<char>) -> Seq<char>
    decreases s.len(),
{
    if s.len() == 0 {
        Seq::empty()
    } else {
        form_encode(s.drop_last()) + form_bytes(utf8(s.last()))
    }
}

fn hex(d: u8) -> (c: char)
    requires
        d < 16,
    ensures
        c == hex_char(d as nat),
{
    if d < 10 {
        (d + 48u8) as char
    } else {
        (d + 55u8) as char
    }
}

fn push_form_byte(s: &mut String, b: u8)
    ensures
        final(s)@ == old(s)@ + form_byte(b),
{
    if b == 42 || b == 45 || b == 46 || b == 95 || (48 <= b && b <= 57) || (65 <= b && b <= 90)
        || (97 <= b && b <= 122) {
        push_char(s, b as char);
    } else if b == 32 {
        push_char(s, '+');
    } else {
        push_char(s, '%');
        push_char(s, hex(b / 16));
        push_char(s, hex(b % 16));
    }
    proof {
        assert(final(s)@ =~= old(s)@ + form_byte(b));
    }
}

fn utf8_bytes(c: char) -> (r: Vec<u8>)
    ensures
        r@ == utf8(c),
{
    let v: u32 = c as u32;
    let r = if v < 0x80 {
        vec![v as u8]
    } else if v < 0x800 {
        vec![(0xC0 + v / 64) as u8, (0x80 + v % 64) as u8]
    } else if v < 0x10000 {
        vec![(0xE0 + v / 4096) as u8, (0x80 + (v / 64) % 64) as u8, (0x80 + v % 64) as u8]
    } else {
        vec![
            (0xF0 + v / 262144) as u8,
            (0x80 + (v / 4096) % 64) as u8,
            (0x80 + (v / 64) % 64) as u8,
            (0x80 + v % 64) as u8,
        ]
    };
    assert(r@ =~= utf8(c));
    r
}

fn push_form_char(s: &mut String, c: char)
    ensures
        final(s)@ == old(s)@ + form_bytes(utf8(c)),
{
    let bytes = utf8_bytes(c);
    let mut i: usize = 0;
    while i < bytes.len()
        invariant
            bytes@ == utf8(c),
            i <= bytes@.len(),
            s@ == old(s)@ + form_bytes(bytes@.subrange(0, i as int)),
        decreases bytes@.len() - i,
    {
        push_form_byte(s, bytes[i]);
        proof {
            let next = bytes@.subrange(0, i + 1);
            assert(next.drop_last() =~= bytes@.subrange(0, i as int));
            assert(s@ =~= old(s)@ + form_bytes(next));
        }
        i = i + 1;
    }
    assert(bytes@.subrange(0, bytes@.len() as int) =~= bytes@);
}

/// Appends the form encoding of `t` to `s`.
pub(crate) fn push_form_encoded(s: &mut String, t: &str)
    ensures
        final(s)@ == old(s)@ + form_encode(t@),
{
    let n = t.unicode_len();
    let mut i: usize = 0;
    while i < n
        invariant
            n == t@.len(),
            i <= n,
            s@ == old(s)@ + form_encode(t@.subrange(0, i as int)),
        decreases n - i,
    {
        let c = t.get_char(i);
        push_form_char(s, c);
        proof {
            let next = t@.subrange(0, i + 1);
            assert(next.drop_last() =~= t@.subrange(0, i as int));
            assert(s@ =~= old(s)@ + form_encode(next));
        }
        i = i + 1;
    }
    assert(t@.subrange(0, n as int) =~= t@);
}

/// The form encoding of `t`, as a new string.
pub fn form_encode_str(t: &str) -> (r: String)
    ensures
        r@ == form_encode(t@),
{
    let mut s = String::new();
    push_form_encoded(&mut s, t);
    proof {
        assert(s@ =~= form_encode(t@));
    }
    s
}

} // verus!
