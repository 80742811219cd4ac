//! Byte-level encoders for the log wire format: lowercase hex, padded base64,
//! decimal integers and JSON string escaping.

use vstd::prelude::*;

verus! {

/// The lowercase hex digit for a value below 16.
pub open spec fn spec_hex_digit(n: u8) -> u8 {
    if n < 10 {
        (('0' as u8) + n) as u8
    } else {
        (('a' as u8) + (n - 10)) as u8
    }
}

/// Lowercase hex rendering of a byte sequence, two digits per byte.
pub open spec fn spec_hex(s: Seq<u8>) -> Seq<u8>
    decreases s.len(),
{
    if s.len() == 0 {
        Seq::empty()
    } else {
        seq![spec_hex_digit(s[0] / 16), spec_hex_digit(s[0] % 16)] + spec_hex(s.drop_first())
    }
}

fn hex_digit(n: u8) -> (r: u8)
    requires
        n < 16,
    ensures
        r == spec_hex_digit(n),
{
    if n < 10 {
        ('0' as u8) + n
    } else {
        ('a' as u8) + (n - 10)
    }
}

/// Render `bytes` as lowercase hex, two digits per byte.
pub fn hex_lower(bytes: &Vec<u8>) -> (r: Vec<u8>)
    ensures
        r@ == spec_hex(bytes@),
{
    let mut out: Vec<u8> = Vec::new();
    let mut i: usize = 0;
    while i < bytes.len()
        invariant
            i <= bytes@.len(),
            out@ == spec_hex(bytes@.take(i as int)),
        decreases bytes@.len() - i,
    {
        let b = bytes[i];
        out.push(hex_digit(b / 16));
        out.push(hex_digit(b % 16));
        i = i + 1;
        proof {
            lemma_spec_hex_take_step(bytes@, i as int);
        }
    }
    proof {
        assert(bytes@.take(bytes@.len() as int) == bytes@);
    }
    out
}

/// The base64 alphabet character for a 6-bit value.
pub open spec fn spec_b64_char(n: u8) -> u8 {
    if n < 26 {
        (('A' as u8) + n) as u8
    } else if n < 52 {
        (('a' as u8) + (n - 26)) as u8
    } else if n < 62 {
        (('0' as u8) + (n - 52)) as u8
    } else if n == 62 {
        '+' as u8
    } else {
        '/' as u8
    }
}

/// Standard padded base64 rendering of a byte sequence.
pub open spec fn spec_base64(s: Seq<u8>) -> Seq<u8>
    decreases s.len(),
{
    if s.len() == 0 {
        Seq::empty()
    } else if s.len() == 1 {
        seq![
            spec_b64_char(s[0] >> 2),
            spec_b64_char((s[0] & 3) << 4),
            '=' as u8,
            '=' as u8,
        ]
    } else if s.len() == 2 {
        seq![
            spec_b64_char(s[0] >> 2),
            spec_b64_char(((s[0] & 3) << 4) | (s[1] >> 4)),
            spec_b64_char((s[1] & 15) << 2),
            '=' as u8,
        ]
    } else {
        seq![
            spec_b64_char(s[0] >> 2),
            spec_b64_char(((s[0] & 3) << 4) | (s[1] >> 4)),
            spec_b64_char(((s[1] & 15) << 2) | (s[2] >> 6)),
            spec_b64_char(s[2] & 63),
        ] + spec_base64(s.skip(3))
    }
}

fn b64_char(n: u8) -> (r: u8)
    requires
        n < 64,
    ensures
        r == spec_b64_char(n),
{
    if n < 26 {
        ('A' as u8) + n
    } else if n < 52 {
        ('a' as u8) + (n - 26)
    } else if n < 62 {
        ('0' as u8) + (n - 52)
    } else if n == 62 {
        '+' as u8
    } else {
        '/' as u8
    }
}

/// Render `bytes` in standard padded base64.
pub fn base64_pad(bytes: &Vec<u8>) -> (r: Vec<u8>)
    ensures
        r@ == spec_base64(bytes@),
{
    let len = bytes.len();
    let mut out: Vec<u8> = Vec::new();
    let mut i: usize = 0;
    proof {
        assert(bytes@.skip(0) =~= bytes@);
        assert(out@ + spec_base64(bytes@) =~= spec_base64(bytes@));
    }
    while len - i >= 3
        invariant
            len == bytes@.len(),
            i <= len,
            out@ + spec_base64(bytes@.skip(i as int)) == spec_base64(bytes@),
        decreases len - i,
    {
        let b0 = bytes[i];
        let b1 = bytes[i + 1];
        let b2 = bytes[i + 2];
        proof {
            assert(b0 >> 2 < 64 && ((b0 & 3) << 4) | (b1 >> 4) < 64
                && ((b1 & 15) << 2) | (b2 >> 6) < 64 && b2 & 63 < 64) by (bit_vector);
        }
        out.push(b64_char(b0 >> 2));
        out.push(b64_char(((b0 & 3) << 4) | (b1 >> 4)));
        out.push(b64_char(((b1 & 15) << 2) | (b2 >> 6)));
        out.push(b64_char(b2 & 63));
        proof {
            let tail = bytes@.skip(i as int);
            assert(tail.len() >= 3);
            assert(tail[0] == b0 && tail[1] == b1 && tail[2] == b2);
            assert(tail.skip(3) =~= bytes@.skip(i as int + 3));
            assert(out@ + spec_base64(bytes@.skip(i as int + 3)) =~= spec_base64(bytes@));
        }
        i = i + 3;
    }
    if len - i == 1 {
        let b0 = bytes[i];
        proof {
            assert(b0 >> 2 < 64 && (b0 & 3) << 4 < 64) by (bit_vector);
            assert(bytes@.skip(i as int)[0] == b0);
        }
        out.push(b64_char(b0 >> 2));
        out.push(b64_char((b0 & 3) << 4));
        out.push('=' as u8);
        out.push('=' as u8);
        proof {
            assert(out@ =~= spec_base64(bytes@));
        }
    } else if len - i == 2 {
        let b0 = bytes[i];
        let b1 = bytes[i + 1];
        proof {
            assert(b0 >> 2 < 64 && ((b0 & 3) << 4) | (b1 >> 4) < 64 && (b1 & 15) << 2 < 64)
                by (bit_vector);
            assert(bytes@.skip(i as int)[0] == b0 && bytes@.skip(i as int)[1] == b1);
        }
        out.push(b64_char(b0 >> 2));
        out.push(b64_char(((b0 & 3) << 4) | (b1 >> 4)));
        out.push(b64_char((b1 & 15) << 2));
        out.push('=' as u8);
        proof {
            assert(out@ =~= spec_base64(bytes@));
        }
    } else {
        proof {
            assert(bytes@.skip(i as int) =~= Seq::<u8>::empty());
            assert(spec_base64(Seq::<u8>::empty()) =~= Seq::<u8>::empty());
            assert(out@ =~= spec_base64(bytes@));
        }
    }
    out
}

/// Decimal rendering of a natural number, no leading zeros.
pub open spec fn spec_dec(n: nat) -> Seq<u8>
    decreases n,
{
    if n < 10 {
        seq![(('0' as u8) + n) as u8]
    } else {
        spec_dec(n / 10) + seq![(('0' as u8) + n % 10) as u8]
    }
}

/// Decimal rendering of an integer: a minus sign for negatives, then digits.
pub open spec fn spec_dec_int(n: int) -> Seq<u8> {
    if n >= 0 {
        spec_dec(n as nat)
    } else {
        seq!['-' as u8] + spec_dec((-n) as nat)
    }
}

/// Render `n` in decimal.
pub fn u64_to_dec(n: u64) -> (r: Vec<u8>)
    ensures
        r@ == spec_dec(n as nat),
    decreases n,
{
    if n < 10 {
        let mut out: Vec<u8> = Vec::new();
        out.push(('0' as u8) + (n as u8));
        out
    } else {
        let mut out = u64_to_dec(n / 10);
        out.push(('0' as u8) + ((n % 10) as u8));
        out
    }
}

/// Render `n` in decimal, with a minus sign if negative.
pub fn i32_to_dec(n: i32) -> (r: Vec<u8>)
    ensures
        r@ == spec_dec_int(n as int),
{
    if n >= 0 {
        u64_to_dec(n as u64)
    } else {
        let magnitude = (-(n as i64)) as u64;
        let mut out: Vec<u8> = Vec::new();
        out.push('-' as u8);
        let mut digits = u64_to_dec(magnitude);
        out.append(&mut digits);
        out
    }
}

/// How one byte appears inside a JSON string: quote, backslash and control
/// bytes are escaped, everything else passes through.
pub open spec fn spec_escape_byte(b: u8) -> Seq<u8> {
    if b == '"' as u8 {
        seq!['\\' as u8, '"' as u8]
    } else if b == '\\' as u8 {
        seq!['\\' as u8, '\\' as u8]
    } else if b == 8 {
        seq!['\\' as u8, 'b' as u8]
    } else if b == 9 {
        seq!['\\' as u8, 't' as u8]
    } else if b == 10 {
        seq!['\\' as u8, 'n' as u8]
    } else if b == 12 {
        seq!['\\' as u8, 'f' as u8]
    } else if b == 13 {
        seq!['\\' as u8, 'r' as u8]
    } else if b < 32 {
        seq!['\\' as u8, 'u' as u8, '0' as u8, '0' as u8, spec_hex_digit(b / 16), spec_hex_digit(b % 16)]
    } else {
        seq![b]
    }
}

/// JSON string-escaping of a byte sequence, byte by byte.
pub open spec fn spec_json_escape(s: Seq<u8>) -> Seq<u8>
    decreases s.len(),
{
    if s.len() == 0 {
        Seq::empty()
    } else {
        spec_escape_byte(s[0]) + spec_json_escape(s.drop_first())
    }
}

/// A JSON string: a double quote, the escaped bytes, a double quote.
pub open spec fn spec_json_string(s: Seq<u8>) -> Seq<u8> {
    seq!['"' as u8] + spec_json_escape(s) + seq!['"' as u8]
}

fn push_escaped_byte(out: &mut Vec<u8>, b: u8)
    ensures
        final(out)@ == old(out)@ + spec_escape_byte(b),
{
    if b == '"' as u8 {
        out.push('\\' as u8);
        out.push('"' as u8);
    } else if b == '\\' as u8 {
        out.push('\\' as u8);
        out.push('\\' as u8);
    } else if b == 8 {
        out.push('\\' as u8);
        out.push('b' as u8);
    } else if b == 9 {
        out.push('\\' as u8);
        out.push('t' as u8);
    } else if b == 10 {
        out.push('\\' as u8);
        out.push('n' as u8);
    } else if b == 12 {
        out.push('\\' as u8);
        out.push('f' as u8);
    } else if b == 13 {
        out.push('\\' as u8);
        out.push('r' as u8);
    } else if b < 32 {
        out.push('\\' as u8);
        out.push('u' as u8);
        out.push('0' as u8);
        out.push('0' as u8);
        out.push(hex_digit(b / 16));
        out.push(hex_digit(b % 16));
    } else {
        out.push(b);
    }
    proof {
        assert(out@ =~= old(out)@ + spec_escape_byte(b));
    }
}

/// Append the JSON string form of `s` (quotes included) to `out`.
pub fn push_json_string(out: &mut Vec<u8>, s: &Vec<u8>)
    ensures
        final(out)@ == old(out)@ + spec_json_string(s@),
{
    out.push('"' as u8);
    let ghost base = out@;
    let mut i: usize = 0;
    while i < s.len()
        invariant
            i <= s@.len(),
            out@ == base + spec_json_escape(s@.take(i as int)),
        decreases s@.len() - i,
    {
        push_escaped_byte(out, s[i]);
        i = i + 1;
        proof {
            lemma_spec_json_escape_take_step(s@, i as int);
        }
    }
    proof {
        assert(s@.take(s@.len() as int) == s@);
    }
    out.push('"' as u8);
    proof {
        assert(out@ =~= old(out)@ + spec_json_string(s@));
    }
}

proof fn lemma_spec_json_escape_take_step(s: Seq<u8>, i: int)
    requires
        0 < i <= s.len(),
    ensures
        spec_json_escape(s.take(i)) == spec_json_escape(s.take(i - 1)) + spec_escape_byte(s[i - 1]),
    decreases i,
{
    if i == 1 {
        assert(s.take(1).drop_first() =~= Seq::<u8>::empty());
        assert(s.take(0) =~= Seq::<u8>::empty());
        assert(spec_json_escape(Seq::<u8>::empty()) =~= Seq::<u8>::empty());
        assert(spec_json_escape(s.take(1)) =~= spec_escape_byte(s[0]));
    } else {
        lemma_spec_json_escape_take_step(s.drop_first(), i - 1);
        assert(s.take(i).drop_first() =~= s.drop_first().take(i - 1));
        assert(s.take(i - 1).drop_first() =~= s.drop_first().take(i - 2));
        assert(spec_json_escape(s.take(i)) =~= spec_json_escape(s.take(i - 1))
            + spec_escape_byte(s[i - 1]));
    }
}

proof fn lemma_spec_hex_take_step(s: Seq<u8>, i: int)
    requires
        0 < i <= s.len(),
    ensures
        spec_hex(s.take(i)) == spec_hex(s.take(i - 1)) + seq![
            spec_hex_digit(s[i - 1] / 16),
            spec_hex_digit(s[i - 1] % 16),
        ],
    decreases i,
{
    if i == 1 {
        assert(s.take(1).drop_first() =~= Seq::<u8>::empty());
        assert(s.take(0) =~= Seq::<u8>::empty());
        assert(spec_hex(Seq::<u8>::empty()) =~= Seq::<u8>::empty());
        assert(spec_hex(s.take(1)) =~= seq![
            spec_hex_digit(s[0] / 16),
            spec_hex_digit(s[0] % 16),
        ]);
    } else {
        lemma_spec_hex_take_step(s.drop_first(), i - 1);
        assert(s.take(i).drop_first() =~= s.drop_first().take(i - 1));
        assert(s.take(i - 1).drop_first() =~= s.drop_first().take(i - 2));
        assert(spec_hex(s.take(i)) =~= spec_hex(s.take(i - 1)) + seq![
            spec_hex_digit(s[i - 1] / 16),
            spec_hex_digit(s[i - 1] % 16),
        ]);
    }
}

} // verus!
