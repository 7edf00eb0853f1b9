//! Text building blocks: decimal rendering, byte concatenation.
use vstd::prelude::*;
use vstd::utf8;

verus! {

/// The decimal digit character for `d` (which must be below ten).
pub open spec fn digit_char(d: nat) -> char {
    ((d + 48) as u32) as char
}

/// The decimal rendering of `n`, most significant digit first, without leading zeros.
pub open spec fn decimal_chars(n: nat) -> Seq<char>
    decreases n,
{
    if n < 10 {
        seq![digit_char(n)]
    } else {
        decimal_chars(n / 10).push(digit_char(n % 10))
    }
}

/// A one-character string holding the decimal digit `d`.
fn digit_str(d: u64) -> (s: &'static str)
    requires
        d < 10,
    ensures
        s@ == seq![digit_char(d as nat)],
{
    proof {
        reveal_strlit("0");
        reveal_strlit("1");
        reveal_strlit("2");
        reveal_strlit("3");
        reveal_strlit("4");
        reveal_strlit("5");
        reveal_strlit("6");
        reveal_strlit("7");
        reveal_strlit("8");
        reveal_strlit("9");
    }
    match d {
        0 => "0",
        1 => "1",
        2 => "2",
        3 => "3",
        4 => "4",
        5 => "5",
        6 => "6",
        7 => "7",
        8 => "8",
        _ => "9",
    }
}

/// Renders `n` in decimal, as `n.to_string()` does.
pub fn decimal_string(n: u64) -> (s: String)
    ensures
        s@ == decimal_chars(n as nat),
        decimal_value(s@) == n,
        s@.len() >= 1,
        forall|i: int| 0 <= i < s@.len() ==> '0' <= #[trigger] s@[i] <= '9',
        s@[0] == '0' ==> n == 0,
    decreases n,
{
    proof {
        lemma_decimal_reads_back(n as nat);
    }
    let mut s = if n >= 10 {
        decimal_string(n / 10)
    } else {
        String::new()
    };
    s.append(digit_str(n % 10));
    s
}

} // verus!

verus! {

/// The lower-case hexadecimal digit for a value below sixteen.
pub open spec fn hex_digit(v: nat) -> char {
    if v < 10 {
        ((v + 48) as u32) as char
    } else {
        ((v + 87) as u32) as char
    }
}

/// Lower-case hexadecimal text of `bytes`: two digits per byte, high nibble first.
pub open spec fn lower_hex(bytes: Seq<u8>) -> Seq<char> {
    Seq::new(
        bytes.len() * 2,
        |i: int|
            if i % 2 == 0 {
                hex_digit((bytes[i / 2] / 16) as nat)
            } else {
                hex_digit((bytes[i / 2] % 16) as nat)
            },
    )
}

/// The value of one hexadecimal digit byte, upper or lower case.
pub open spec fn hex_value(c: u8) -> Option<u8> {
    if 48 <= c <= 57 {
        Some((c - 48) as u8)
    } else if 97 <= c <= 102 {
        Some((c - 87) as u8)
    } else if 65 <= c <= 70 {
        Some((c - 55) as u8)
    } else {
        None
    }
}

/// Whether `text` is hexadecimal: an even number of digit bytes.
pub open spec fn is_hex_text(text: Seq<u8>) -> bool {
    &&& text.len() % 2 == 0
    &&& forall|i: int| 0 <= i < text.len() ==> (#[trigger] hex_value(text[i])) is Some
}

/// The bytes that hexadecimal `text` denotes, or `None` when it is not hexadecimal.
pub open spec fn hex_decoded(text: Seq<u8>) -> Option<Seq<u8>> {
    if is_hex_text(text) {
        Some(
            Seq::new(
                text.len() / 2,
                |k: int|
                    (hex_value(text[2 * k])->0 * 16 + hex_value(text[2 * k + 1])->0) as u8,
            ),
        )
    } else {
        None
    }
}

/// Appends `bytes` to `out`.
pub fn push_bytes(out: &mut Vec<u8>, bytes: &[u8])
    ensures
        final(out)@ == old(out)@ + bytes@,
{
    let ghost start = out@;
    let n = bytes.len();
    let mut i: usize = 0;
    while i < n
        invariant
            n == bytes@.len(),
            i <= n,
            out@ == start + bytes@.subrange(0, i as int),
        decreases n - i,
    {
        out.push(bytes[i]);
        i = i + 1;
        assert(bytes@.subrange(0, i as int) == bytes@.subrange(0, (i - 1) as int).push(bytes@[i - 1]));
    }
    assert(bytes@.subrange(0, n as int) == bytes@);
}

} // verus!

verus! {

/// A hexadecimal digit is an ASCII character, and its byte reads back as its value.
proof fn lemma_hex_digit_reads_back(v: nat)
    requires
        v < 16,
    ensures
        '\0' <= hex_digit(v) <= '\u{7f}',
        hex_value(hex_digit(v) as u8) == Some(v as u8),
{
    if v < 10 {
        assert(((v + 48) as u32) as char as u8 == v + 48);
    } else {
        assert(((v + 87) as u32) as char as u8 == v + 87);
    }
}

/// Decoding the lower-case hexadecimal text of any bytes gives those bytes back.
pub proof fn lemma_hex_round_trip(bytes: Seq<u8>)
    ensures
        hex_decoded(utf8::encode_utf8(lower_hex(bytes))) == Some(bytes),
{
    let chars = lower_hex(bytes);
    assert forall|i: int| 0 <= i < chars.len() implies '\0' <= #[trigger] chars[i] <= '\u{7f}'
        && hex_value(chars[i] as u8) == Some(
        if i % 2 == 0 {
            (bytes[i / 2] / 16) as u8
        } else {
            (bytes[i / 2] % 16) as u8
        },
    ) by {
        if i % 2 == 0 {
            lemma_hex_digit_reads_back((bytes[i / 2] / 16) as nat);
        } else {
            lemma_hex_digit_reads_back((bytes[i / 2] % 16) as nat);
        }
    }
    assert(utf8::is_ascii_chars(chars));
    utf8::is_ascii_chars_encode_utf8(chars);
    let text = utf8::encode_utf8(chars);
    assert forall|i: int| 0 <= i < text.len() implies (#[trigger] hex_value(text[i])) is Some by {
        assert(text[i] == chars[i] as u8);
    }
    assert(text.len() % 2 == 0);
    let decoded = hex_decoded(text)->0;
    assert forall|k: int| 0 <= k < bytes.len() implies decoded[k] == bytes[k] by {
        assert((2 * k) / 2 == k && (2 * k) % 2 == 0);
        assert((2 * k + 1) / 2 == k && (2 * k + 1) % 2 == 1);
        assert(text[2 * k] == chars[2 * k] as u8);
        assert(text[2 * k + 1] == chars[2 * k + 1] as u8);
    }
    assert(decoded =~= bytes);
}

} // verus!

verus! {

/// The number a string of decimal digits denotes.
pub open spec fn decimal_value(digits: Seq<char>) -> nat
    decreases digits.len(),
{
    if digits.len() == 0 {
        0
    } else {
        decimal_value(digits.drop_last()) * 10 + (digits.last() as nat - 48) as nat
    }
}

/// The decimal rendering of `n` is a non-empty string of the digits '0' to '9' that reads back
/// as `n`, and starts with '0' only for zero.
pub proof fn lemma_decimal_reads_back(n: nat)
    ensures
        decimal_chars(n).len() >= 1,
        forall|i: int|
            0 <= i < decimal_chars(n).len() ==> '0' <= #[trigger] decimal_chars(n)[i] <= '9',
        decimal_value(decimal_chars(n)) == n,
        decimal_chars(n)[0] == '0' ==> n == 0,
    decreases n,
{
    if n < 10 {
        assert((((n + 48) as u32) as char) as nat == n + 48);
        assert(decimal_chars(n) == seq![digit_char(n)]);
        assert(seq![digit_char(n)].drop_last() =~= Seq::<char>::empty());
        assert(decimal_value(Seq::<char>::empty()) == 0);
        assert(decimal_value(decimal_chars(n)) == decimal_value(Seq::<char>::empty()) * 10 + (
        digit_char(n) as nat - 48) as nat);
    } else {
        lemma_decimal_reads_back(n / 10);
        let d = n % 10;
        assert((((d + 48) as u32) as char) as nat == d + 48);
        let s = decimal_chars(n);
        assert(s == decimal_chars(n / 10).push(digit_char(d)));
        assert(s.drop_last() =~= decimal_chars(n / 10));
        assert(s[0] == decimal_chars(n / 10)[0]);
        assert(s.last() == digit_char(d));
        assert(decimal_value(s) == decimal_value(decimal_chars(n / 10)) * 10 + d);
        assert((n / 10) * 10 + d == n);
    }
}

/// Different numbers have different decimal renderings.
pub proof fn lemma_decimal_injective(m: nat, n: nat)
    ensures
        decimal_chars(m) == decimal_chars(n) ==> m == n,
{
    lemma_decimal_reads_back(m);
    lemma_decimal_reads_back(n);
}

} // verus!

