use vstd::prelude::*;
use vstd::utf8::*;

verus! {

/// An opaque RGB colour with one byte per channel.
#[derive(Debug, Clone, Copy, PartialEq, Eq, Structural)]
pub struct Color {
    pub r: u8,
    pub g: u8,
    pub b: u8,
}

/// The upper-case hexadecimal digit for a value below 16.
pub open spec fn hex_char(d: int) -> char {
    if d == 0 { '0' }
    else if d == 1 { '1' }
    else if d == 2 { '2' }
    else if d == 3 { '3' }
    else if d == 4 { '4' }
    else if d == 5 { '5' }
    else if d == 6 { '6' }
    else if d == 7 { '7' }
    else if d == 8 { '8' }
    else if d == 9 { '9' }
    else if d == 10 { 'A' }
    else if d == 11 { 'B' }
    else if d == 12 { 'C' }
    else if d == 13 { 'D' }
    else if d == 14 { 'E' }
    else { 'F' }
}

/// `#RRGGBB`, two upper-case hex digits per channel.
pub open spec fn hex_text(c: Color) -> Seq<char> {
    seq![
        '#',
        hex_char(c.r as int / 16),
        hex_char(c.r as int % 16),
        hex_char(c.g as int / 16),
        hex_char(c.g as int % 16),
        hex_char(c.b as int / 16),
        hex_char(c.b as int % 16),
    ]
}

/// The value of an ASCII hexadecimal digit byte (either case), if it is one.
pub open spec fn hex_digit_value(b: u8) -> Option<u8> {
    if 48 <= b <= 57 {
        Some((b - 48) as u8)
    } else if 65 <= b <= 70 {
        Some((b - 55) as u8)
    } else if 97 <= b <= 102 {
        Some((b - 87) as u8)
    } else {
        None
    }
}

/// How `u8::from_str_radix(_, 16)` reads a two-byte string: an optional
/// leading `+` followed by digits; anything else is an invalid digit.
pub open spec fn pair_value(x: u8, y: u8) -> Option<u8> {
    if x == 43 {
        hex_digit_value(y)
    } else {
        match (hex_digit_value(x), hex_digit_value(y)) {
            (Some(h), Some(l)) => Some((h * 16 + l) as u8),
            _ => None,
        }
    }
}

/// The number of `#` bytes at the start of `b`.
pub open spec fn leading_hashes(b: Seq<u8>) -> nat
    decreases b.len(),
{
    if b.len() > 0 && b[0] == 35 {
        1 + leading_hashes(b.drop_first())
    } else {
        0
    }
}

/// The decimal digits of `n`.
pub open spec fn decimal_text(n: nat) -> Seq<char>
    decreases n,
{
    if n < 10 {
        seq![hex_char(n as int)]
    } else {
        decimal_text(n / 10).push(hex_char((n % 10) as int))
    }
}

/// The message of a hex text whose length (after the `#`s) is not six bytes.
pub open spec fn length_error_text(n: nat) -> Seq<char> {
    "expected 6 hex characters, got "@ + decimal_text(n)
}

/// The message of a pair of bytes that is not a number in base 16.
pub open spec fn invalid_digit_text() -> Seq<char> {
    "invalid digit found in string"@
}

/// What reading `s` as a hex colour gives: `None` where the text cannot be cut
/// into its three two-byte channel slices on character boundaries, else the
/// colour or the error message. Leading `#`s are skipped; the rest must be six
/// bytes long.
pub open spec fn parse_hex(s: Seq<char>) -> Option<Result<Color, Seq<char>>> {
    let b = encode_utf8(s);
    let k = leading_hashes(b);
    let t = b.skip(k as int);
    if t.len() != 6 {
        Some(Err(length_error_text(t.len())))
    } else if !is_char_boundary(b, k as int + 2) {
        None
    } else {
        match pair_value(t[0], t[1]) {
            None => Some(Err(invalid_digit_text())),
            Some(r) => if !is_char_boundary(b, k as int + 4) {
                None
            } else {
                match pair_value(t[2], t[3]) {
                    None => Some(Err(invalid_digit_text())),
                    Some(g) => match pair_value(t[4], t[5]) {
                        None => Some(Err(invalid_digit_text())),
                        Some(bl) => Some(Ok(Color { r, g, b: bl })),
                    },
                }
            },
        }
    }
}

/// The byte of each hex digit is its ASCII code, and reads back as the digit.
proof fn lemma_hex_char_byte(d: int)
    requires
        0 <= d < 16,
    ensures
        '\0' <= hex_char(d) <= '\u{7f}',
        hex_char(d) as u8 != 35,
        hex_char(d) as u8 != 43,
        hex_digit_value(hex_char(d) as u8) == Some(d as u8),
        '\0' <= lower_hex_char(d) <= '\u{7f}',
        lower_hex_char(d) as u8 != 35,
        lower_hex_char(d) as u8 != 43,
        hex_digit_value(lower_hex_char(d) as u8) == Some(d as u8),
{
}

/// The six channel digits of a colour, high digit first.
pub open spec fn channel_digits(c: Color) -> Seq<int> {
    seq![
        c.r as int / 16, c.r as int % 16,
        c.g as int / 16, c.g as int % 16,
        c.b as int / 16, c.b as int % 16,
    ]
}

/// A `#` followed by six ASCII characters that read as the digits of `c`
/// reads as `c`.
proof fn lemma_parse_digit_text(s: Seq<char>, c: Color)
    requires
        s.len() == 7,
        s[0] == '#',
        forall|i: int| 0 <= i < 6 ==> {
            &&& '\0' <= #[trigger] s[i + 1] <= '\u{7f}'
            &&& s[i + 1] as u8 != 35
            &&& s[i + 1] as u8 != 43
            &&& hex_digit_value(s[i + 1] as u8) == Some(channel_digits(c)[i] as u8)
        },
    ensures
        parse_hex(s) == Some(Ok::<Color, Seq<char>>(c)),
{
    let ds = channel_digits(c);
    assert(is_ascii_chars(s)) by {
        assert forall|i: int| 0 <= i < s.len() implies '\0' <= #[trigger] s[i] <= '\u{7f}' by {
            if i > 0 {
                assert(s[(i - 1) + 1] == s[i]);
            }
        }
    }
    is_ascii_chars_encode_utf8(s);
    encode_utf8_valid_utf8(s);
    let b = encode_utf8(s);
    assert(b.len() == 7);
    assert(b[0] == 35u8);
    assert(b[1] == s[1] as u8);
    assert(b.drop_first()[0] == b[1]);
    reveal_with_fuel(leading_hashes, 2);
    assert(leading_hashes(b) == 1);
    let t = b.skip(1);
    assert forall|i: int| 0 <= i < 6 implies #[trigger] t[i] == s[i + 1] as u8 by {
        assert(b[i + 1] == s[i + 1] as u8);
    }
    is_char_boundary_iff_not_is_continuation_byte(b, 3);
    is_char_boundary_iff_not_is_continuation_byte(b, 5);
    assert(t[0] as int == b[1] as int);
    assert(b[3] == t[2]);
    assert(b[5] == t[4]);
    assert(hex_digit_value(t[0]) == Some((c.r as int / 16) as u8));
    assert(hex_digit_value(t[1]) == Some((c.r as int % 16) as u8));
    assert(hex_digit_value(t[2]) == Some((c.g as int / 16) as u8));
    assert(hex_digit_value(t[3]) == Some((c.g as int % 16) as u8));
    assert(hex_digit_value(t[4]) == Some((c.b as int / 16) as u8));
    assert(hex_digit_value(t[5]) == Some((c.b as int % 16) as u8));
}

/// Reading back the hex text of a colour gives the colour.
pub proof fn lemma_hex_round_trip(c: Color)
    ensures
        parse_hex(hex_text(c)) == Some(Ok::<Color, Seq<char>>(c)),
{
    let s = hex_text(c);
    let ds = channel_digits(c);
    assert forall|i: int| 0 <= i < 6 implies {
        &&& '\0' <= #[trigger] s[i + 1] <= '\u{7f}'
        &&& s[i + 1] as u8 != 35
        &&& s[i + 1] as u8 != 43
        &&& hex_digit_value(s[i + 1] as u8) == Some(ds[i] as u8)
    } by {
        assert(0 <= ds[i] < 16 && s[i + 1] == hex_char(ds[i]));
        lemma_hex_char_byte(ds[i]);
    }
    lemma_parse_digit_text(s, c);
}

/// The lower-case hexadecimal digit for a value below 16.
pub open spec fn lower_hex_char(d: int) -> char {
    if d == 10 { 'a' }
    else if d == 11 { 'b' }
    else if d == 12 { 'c' }
    else if d == 13 { 'd' }
    else if d == 14 { 'e' }
    else if d == 15 { 'f' }
    else { hex_char(d) }
}

/// `#rrggbb`: the colour's text with lower-case digits.
pub open spec fn lower_hex_text(c: Color) -> Seq<char> {
    Seq::new(7, |i: int| if i == 0 { '#' } else { lower_hex_char(channel_digits(c)[i - 1]) })
}

/// The hex digits are `0123456789ABCDEF`: digit `d` is the `d`-th character
/// of that text, whose code is `'0' + d` below ten and `'A' + d - 10` above.
pub proof fn lemma_hex_digit_table(d: int)
    requires
        0 <= d < 16,
    ensures
        hex_char(d) == "0123456789ABCDEF"@[d],
        d < 10 ==> hex_char(d) as int == '0' as int + d,
        d >= 10 ==> hex_char(d) as int == 'A' as int + d - 10,
        lower_hex_char(d) as int == if d < 10 { '0' as int + d } else { 'a' as int + d - 10 },
{
    reveal_strlit("0123456789ABCDEF");
}

/// The text of a colour holds, after its `#`, the six channel digits, high
/// digit first, each written `'0' + d` or `'A' + d - 10`.
pub proof fn lemma_hex_text_digits(c: Color)
    ensures
        hex_text(c).len() == 7,
        hex_text(c)[0] == '#',
        forall|i: int|
            0 <= i < 6 ==> #[trigger] hex_text(c)[i + 1] as int == if channel_digits(c)[i] < 10 {
                '0' as int + channel_digits(c)[i]
            } else {
                'A' as int + channel_digits(c)[i] - 10
            },
{
    assert forall|i: int| 0 <= i < 6 implies #[trigger] hex_text(c)[i + 1] as int == if channel_digits(c)[i] < 10 {
        '0' as int + channel_digits(c)[i]
    } else {
        'A' as int + channel_digits(c)[i] - 10
    } by {
        lemma_hex_digit_table(channel_digits(c)[i]);
    }
}

/// Each byte reads as a hex digit exactly when it is one: `'0'..='9'` as
/// 0 to 9, `'a'..='f'` and `'A'..='F'` as 10 to 15.
pub proof fn lemma_hex_digit_values(b: u8)
    ensures
        ('0' as u8 <= b <= '9' as u8) ==> hex_digit_value(b) == Some((b - '0' as u8) as u8),
        ('a' as u8 <= b <= 'f' as u8) ==> hex_digit_value(b) == Some((b - 'a' as u8 + 10) as u8),
        ('A' as u8 <= b <= 'F' as u8) ==> hex_digit_value(b) == Some((b - 'A' as u8 + 10) as u8),
        !('0' as u8 <= b <= '9' as u8) && !('a' as u8 <= b <= 'f' as u8) && !('A' as u8 <= b
            <= 'F' as u8) ==> hex_digit_value(b) is None,
{
}

/// Reading a colour's text written with lower-case digits gives the colour.
pub proof fn lemma_lower_case_round_trip(c: Color)
    ensures
        parse_hex(lower_hex_text(c)) == Some(Ok::<Color, Seq<char>>(c)),
{
    let s = lower_hex_text(c);
    let ds = channel_digits(c);
    assert forall|i: int| 0 <= i < 6 implies {
        &&& '\0' <= #[trigger] s[i + 1] <= '\u{7f}'
        &&& s[i + 1] as u8 != 35
        &&& s[i + 1] as u8 != 43
        &&& hex_digit_value(s[i + 1] as u8) == Some(ds[i] as u8)
    } by {
        assert(0 <= ds[i] < 16 && s[i + 1] == lower_hex_char(ds[i]));
        lemma_hex_char_byte(ds[i]);
    }
    lemma_parse_digit_text(s, c);
}

/// The `#`s at the start of a text are within it.
proof fn lemma_leading_hashes_bound(b: Seq<u8>)
    ensures
        leading_hashes(b) <= b.len(),
    decreases b.len(),
{
    if b.len() > 0 && b[0] == 35 {
        lemma_leading_hashes_bound(b.drop_first());
    }
}

/// A further leading `#` changes nothing: any number of them is skipped.
pub proof fn lemma_leading_hash_skipped(s: Seq<char>)
    ensures
        parse_hex(seq!['#'] + s) == parse_hex(s),
{
    let s2 = seq!['#'] + s;
    let b = encode_utf8(s);
    let b2 = encode_utf8(s2);
    assert(s2.drop_first() =~= s);
    assert(('#' as u32) == 35u32);
    assert(leading_byte_width_1(35u32) == 35u8) by (bit_vector);
    assert(encode_scalar(s2[0] as u32) == seq![35u8]);
    assert(b2 =~= seq![35u8] + b);
    assert(b2.drop_first() =~= b);
    assert(leading_hashes(b2) == 1 + leading_hashes(b));
    let k = leading_hashes(b);
    lemma_leading_hashes_bound(b);
    assert(b2.skip(k as int + 1) =~= b.skip(k as int));
    encode_utf8_valid_utf8(s);
    encode_utf8_valid_utf8(s2);
    assert(length_of_first_scalar(b2) == 1);
    assert(pop_first_scalar(b2) =~= b);
    assert(is_char_boundary(b2, k as int + 3) == is_char_boundary(b, k as int + 2));
    assert(is_char_boundary(b2, k as int + 5) == is_char_boundary(b, k as int + 4));
}

/// The number that a text of decimal digits spells.
pub open spec fn decimal_value(s: Seq<char>) -> int
    decreases s.len(),
{
    if s.len() == 0 {
        0
    } else {
        decimal_value(s.drop_last()) * 10 + (s.last() as int - '0' as int)
    }
}

/// The decimal text of `n` is made of the digits `'0'..='9'`, spells `n`, and
/// has no leading zero.
pub proof fn lemma_decimal_text_spells(n: nat)
    ensures
        decimal_text(n).len() > 0,
        forall|i: int| 0 <= i < decimal_text(n).len() ==> '0' <= #[trigger] decimal_text(n)[i] <= '9',
        decimal_value(decimal_text(n)) == n,
        n > 0 ==> decimal_text(n)[0] != '0',
    decreases n,
{
    lemma_hex_digit_table((n % 10) as int);
    if n >= 10 {
        lemma_decimal_text_spells(n / 10);
        let t = decimal_text(n);
        assert(t.drop_last() =~= decimal_text(n / 10));
        assert forall|i: int| 0 <= i < t.len() implies '0' <= #[trigger] t[i] <= '9' by {
            if i < t.len() - 1 {
                assert(t[i] == decimal_text(n / 10)[i]);
            }
        }
        assert(t[0] == decimal_text(n / 10)[0]);
        assert(t.last() == hex_char((n % 10) as int));
        assert(decimal_value(t) == decimal_value(t.drop_last()) * 10 + (t.last() as int - '0' as int));
        assert((n / 10) as int * 10 + (n % 10) as int == n);
    } else {
        lemma_hex_digit_table(n as int);
        let t = decimal_text(n);
        assert(t.drop_last() =~= Seq::<char>::empty());
        assert(decimal_value(t) == decimal_value(t.drop_last()) * 10 + (t.last() as int - '0' as int));
        assert(n % 10 == n);
    }
}

/// The one-character text of the hex digit `d`.
fn hex_digit_str(d: u8) -> (t: &'static str)
    requires
        d < 16,
    ensures
        t@ == seq![hex_char(d as int)],
{
    if d == 0 { proof { reveal_strlit("0"); } "0" }
    else if d == 1 { proof { reveal_strlit("1"); } "1" }
    else if d == 2 { proof { reveal_strlit("2"); } "2" }
    else if d == 3 { proof { reveal_strlit("3"); } "3" }
    else if d == 4 { proof { reveal_strlit("4"); } "4" }
    else if d == 5 { proof { reveal_strlit("5"); } "5" }
    else if d == 6 { proof { reveal_strlit("6"); } "6" }
    else if d == 7 { proof { reveal_strlit("7"); } "7" }
    else if d == 8 { proof { reveal_strlit("8"); } "8" }
    else if d == 9 { proof { reveal_strlit("9"); } "9" }
    else if d == 10 { proof { reveal_strlit("A"); } "A" }
    else if d == 11 { proof { reveal_strlit("B"); } "B" }
    else if d == 12 { proof { reveal_strlit("C"); } "C" }
    else if d == 13 { proof { reveal_strlit("D"); } "D" }
    else if d == 14 { proof { reveal_strlit("E"); } "E" }
    else { proof { reveal_strlit("F"); } "F" }
}

/// Appends the two hex digits of `v`.
fn push_hex_byte(s: &mut String, v: u8)
    ensures
        final(s)@ == old(s)@ + seq![hex_char(v as int / 16), hex_char(v as int % 16)],
{
    s.append(hex_digit_str(v / 16));
    s.append(hex_digit_str(v % 16));
}

/// Appends the decimal digits of `n`.
fn push_decimal(s: &mut String, n: usize)
    ensures
        final(s)@ == old(s)@ + decimal_text(n as nat),
    decreases n,
{
    if n >= 10 {
        push_decimal(s, n / 10);
    }
    s.append(hex_digit_str((n % 10) as u8));
    proof {
        if n < 10 {
            assert(n % 10 == n);
        }
    }
}

/// The value of a hex digit byte, if it is one.
fn digit_value(b: u8) -> (r: Option<u8>)
    ensures
        r == hex_digit_value(b),
        r matches Some(v) ==> v < 16,
{
    if 48 <= b && b <= 57 {
        Some(b - 48)
    } else if 65 <= b && b <= 70 {
        Some(b - 55)
    } else if 97 <= b && b <= 102 {
        Some(b - 87)
    } else {
        None
    }
}

/// Reads a two-byte channel as `u8::from_str_radix(_, 16)` does.
fn read_pair(x: u8, y: u8) -> (r: Option<u8>)
    ensures
        r == pair_value(x, y),
{
    if x == 43 {
        digit_value(y)
    } else {
        match (digit_value(x), digit_value(y)) {
            (Some(h), Some(l)) => Some(h * 16 + l),
            _ => None,
        }
    }
}

impl Color {
    /// A colour from its three channels.
    pub fn new(r: u8, g: u8, b: u8) -> (c: Self)
        ensures
            c == (Color { r, g, b }),
    {
        Color { r, g, b }
    }

    /// The colour as `#RRGGBB` with upper-case digits.
    pub fn to_hex(&self) -> (s: String)
        ensures
            s@ == hex_text(*self),
    {
        let mut s = "#".to_owned();
        proof { reveal_strlit("#"); }
        push_hex_byte(&mut s, self.r);
        push_hex_byte(&mut s, self.g);
        push_hex_byte(&mut s, self.b);
        s
    }
    /// Reads a hex colour as `from_hex` does, on every input: `None` exactly
    /// where `from_hex` cannot cut the text into its channel slices.
    pub fn try_from_hex(hex: &str) -> (res: Option<Result<Color, String>>)
        ensures
            match parse_hex(hex@) {
                None => res is None,
                Some(Ok(c)) => res matches Some(Ok(c2)) && c2 == c,
                Some(Err(m)) => res matches Some(Err(e)) && e@ == m,
            },
    {
        let bytes = hex.as_bytes();
        let n = bytes.len();
        let mut k: usize = 0;
        assert(bytes@.skip(0) =~= bytes@);
        while k < n && bytes[k] == 35
            invariant
                k <= n,
                n == bytes@.len(),
                bytes@ == encode_utf8(hex@),
                leading_hashes(bytes@) == k + leading_hashes(bytes@.skip(k as int)),
            decreases n - k,
        {
            proof {
                assert(bytes@.skip(k as int).drop_first() =~= bytes@.skip(k + 1));
            }
            k += 1;
        }
        proof {
            if k == n {
                assert(bytes@.skip(k as int).len() == 0);
            }
            assert(leading_hashes(bytes@) == k);
        }
        let ghost t = bytes@.skip(k as int);
        let len = n - k;
        if len != 6 {
            let mut msg = "expected 6 hex characters, got ".to_owned();
            push_decimal(&mut msg, len);
            return Some(Err(msg));
        }
        if !hex.is_char_boundary(k + 2) {
            return None;
        }
        assert(t[0] == bytes@[k as int] && t[1] == bytes@[k + 1]);
        let r = match read_pair(bytes[k], bytes[k + 1]) {
            Some(v) => v,
            None => return Some(Err("invalid digit found in string".to_owned())),
        };
        if !hex.is_char_boundary(k + 4) {
            return None;
        }
        assert(t[2] == bytes@[k + 2] && t[3] == bytes@[k + 3]);
        let g = match read_pair(bytes[k + 2], bytes[k + 3]) {
            Some(v) => v,
            None => return Some(Err("invalid digit found in string".to_owned())),
        };
        assert(t[4] == bytes@[k + 4] && t[5] == bytes@[k + 5]);
        let b = match read_pair(bytes[k + 4], bytes[k + 5]) {
            Some(v) => v,
            None => return Some(Err("invalid digit found in string".to_owned())),
        };
        Some(Ok(Color { r, g, b }))
    }

    /// Reads `#RRGGBB` (any number of leading `#`, digits in either case).
    /// Fails when the text after the `#`s is not six bytes long, or when a
    /// channel is not a base-16 number.
    pub fn from_hex(hex: &str) -> (res: Result<Self, String>)
        requires
            parse_hex(hex@) is Some,
        ensures
            match parse_hex(hex@) {
                Some(Ok(c)) => res == Ok::<Color, String>(c),
                Some(Err(m)) => res matches Err(e) && e@ == m,
                None => false,
            },
    {
        match Self::try_from_hex(hex) {
            Some(res) => res,
            None => {
                proof { assert(false); }
                Err(String::new())
            },
        }
    }
}

} // verus!
