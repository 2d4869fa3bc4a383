//! Lowercase hexadecimal encoding and decoding of byte strings.
//!
//! Every stored cryptographic field of a wallet record is the lowercase
//! hexadecimal rendering of its raw bytes, two digits per byte.

use vstd::prelude::*;

use crate::errors::WalletError;

verus! {

/// The lowercase hexadecimal digit for a value below sixteen.
pub open spec fn hex_digit_char(n: u8) -> char
    recommends
        n < 16,
{
    if n < 10 {
        (('0' as u8) + n) as char
    } else {
        (('a' as u8) + (n - 10)) as char
    }
}

/// The lowercase hexadecimal rendering of a byte string, two digits per byte,
/// high nibble first.
pub open spec fn hex_of(bytes: Seq<u8>) -> Seq<char>
    decreases bytes.len(),
{
    if bytes.len() == 0 {
        Seq::<char>::empty()
    } else {
        seq![hex_digit_char(bytes[0] / 16), hex_digit_char(bytes[0] % 16)] + hex_of(
            bytes.drop_first(),
        )
    }
}

/// Whether a character is a digit of the encodings this module accepts:
/// `0`-`9`, `a`-`f` or `A`-`F`.
pub open spec fn is_hex_digit(c: char) -> bool {
    ('0' <= c && c <= '9') || ('a' <= c && c <= 'f') || ('A' <= c && c <= 'F')
}

/// The numeric value of a hexadecimal digit.
pub open spec fn hex_val(c: char) -> u8
    recommends
        is_hex_digit(c),
{
    if '0' <= c && c <= '9' {
        ((c as u8) - ('0' as u8)) as u8
    } else if 'a' <= c && c <= 'f' {
        ((c as u8) - ('a' as u8) + 10) as u8
    } else {
        ((c as u8) - ('A' as u8) + 10) as u8
    }
}

/// The bytes read off a hexadecimal character string, two digits per byte.
pub open spec fn hex_decode_of(s: Seq<char>) -> Seq<u8>
    recommends
        s.len() % 2 == 0,
        forall|k: int| 0 <= k < s.len() ==> is_hex_digit(#[trigger] s[k]),
    decreases s.len(),
{
    if s.len() < 2 {
        Seq::<u8>::empty()
    } else {
        seq![((16 * hex_val(s[0]) + hex_val(s[1])) as u8)] + hex_decode_of(s.subrange(
            2,
            s.len() as int,
        ))
    }
}

/// Every character of a hexadecimal rendering is a lowercase digit; in
/// particular none is a quote, a backslash or a control character.
pub proof fn lemma_hex_of_chars(bytes: Seq<u8>)
    ensures
        hex_of(bytes).len() == 2 * bytes.len(),
        forall|k: int|
            0 <= k < hex_of(bytes).len() ==> (('0' <= #[trigger] hex_of(bytes)[k] && hex_of(
                bytes,
            )[k] <= '9') || ('a' <= hex_of(bytes)[k] && hex_of(bytes)[k] <= 'f')),
    decreases bytes.len(),
{
    if bytes.len() > 0 {
        lemma_hex_of_chars(bytes.drop_first());
    }
}

/// Appending one byte appends its two digits to the rendering.
pub proof fn lemma_hex_of_push(bytes: Seq<u8>, b: u8)
    ensures
        hex_of(bytes.push(b)) == hex_of(bytes) + seq![
            hex_digit_char(b / 16),
            hex_digit_char(b % 16),
        ],
    decreases bytes.len(),
{
    let p = bytes.push(b);
    let pair = seq![hex_digit_char(b / 16), hex_digit_char(b % 16)];
    if bytes.len() == 0 {
        assert(p[0] == b);
        assert(p.drop_first() =~= Seq::<u8>::empty());
        assert(hex_of(Seq::<u8>::empty()) =~= Seq::<char>::empty());
        assert(hex_of(p) =~= hex_of(bytes) + pair);
    } else {
        assert(p[0] == bytes[0]);
        assert(p.drop_first() =~= bytes.drop_first().push(b));
        lemma_hex_of_push(bytes.drop_first(), b);
        assert(hex_of(p) == seq![hex_digit_char(p[0] / 16), hex_digit_char(p[0] % 16)] + hex_of(
            p.drop_first(),
        ));
        assert(hex_of(bytes) == seq![
            hex_digit_char(bytes[0] / 16),
            hex_digit_char(bytes[0] % 16),
        ] + hex_of(bytes.drop_first()));
        assert(hex_of(p) =~= hex_of(bytes) + pair);
    }
}

/// A single lowercase hexadecimal digit as a borrowed one-character string.
fn hex_str(n: u8) -> (r: &'static str)
    requires
        n < 16,
    ensures
        r@ == seq![hex_digit_char(n)],
{
    proof {
        reveal_strlit("0");
        reveal_strlit("1");
        reveal_strlit("2");
        reveal_strlit("3");
        reveal_strlit("4");
        reveal_strlit("5");
        reveal_strlit("6");
        reveal_strlit("7");
        reveal_strlit("8");
        reveal_strlit("9");
        reveal_strlit("a");
        reveal_strlit("b");
        reveal_strlit("c");
        reveal_strlit("d");
        reveal_strlit("e");
        reveal_strlit("f");
    }
    let r: &'static str = match n {
        0 => "0",
        1 => "1",
        2 => "2",
        3 => "3",
        4 => "4",
        5 => "5",
        6 => "6",
        7 => "7",
        8 => "8",
        9 => "9",
        10 => "a",
        11 => "b",
        12 => "c",
        13 => "d",
        14 => "e",
        _ => "f",
    };
    proof {
        assert(r@ =~= seq![hex_digit_char(n)]);
    }
    r
}

/// Renders a byte string as lowercase hexadecimal, two digits per byte.
pub fn hex_encode(bytes: &[u8]) -> (r: String)
    ensures
        r@ == hex_of(bytes@),
        r@.len() == 2 * bytes@.len(),
{
    let mut out = String::new();
    let n = bytes.len();
    assert(bytes@.take(0) =~= Seq::<u8>::empty());
    for i in 0..n
        invariant
            n == bytes@.len(),
            out@ == hex_of(bytes@.take(i as int)),
    {
        let b = bytes[i];
        out.append(hex_str(b / 16));
        out.append(hex_str(b % 16));
        proof {
            assert(bytes@.take(i + 1) =~= bytes@.take(i as int).push(bytes@[i as int]));
            lemma_hex_of_push(bytes@.take(i as int), bytes@[i as int]);
        }
    }
    proof {
        assert(bytes@.take(n as int) =~= bytes@);
        lemma_hex_of_chars(bytes@);
    }
    out
}

/// Whether every character of a string is a hexadecimal digit.
pub open spec fn all_hex_digits(s: Seq<char>) -> bool {
    forall|k: int| 0 <= k < s.len() ==> is_hex_digit(#[trigger] s[k])
}

/// Reads a hexadecimal character string back into its bytes.
///
/// Succeeds exactly on strings of even length whose characters are all
/// hexadecimal digits; anything else is a malformed stored field.
pub fn hex_decode(s: &str) -> (r: Result<Vec<u8>, WalletError>)
    ensures
        r is Ok <==> (s@.len() % 2 == 0 && all_hex_digits(s@)),
        r matches Ok(b) ==> b@ == hex_decode_of(s@) && b@.len() == s@.len() / 2,
        r matches Err(e) ==> e == WalletError::Parse,
{
    let n = s.unicode_len();
    if n % 2 != 0 {
        return Err(WalletError::Parse);
    }
    let mut out: Vec<u8> = Vec::new();
    let mut i: usize = 0;
    while i < n
        invariant
            n == s@.len(),
            n % 2 == 0,
            i % 2 == 0,
            i <= n,
            all_hex_digits(s@.take(i as int)),
            out@ == hex_decode_of(s@.take(i as int)),
            out@.len() == i / 2,
        decreases n - i,
    {
        let c0 = s.get_char(i);
        let c1 = s.get_char(i + 1);
        let v0 = match hex_val_exec(c0) {
            Some(v) => v,
            None => {
                return Err(WalletError::Parse);
            },
        };
        let v1 = match hex_val_exec(c1) {
            Some(v) => v,
            None => {
                return Err(WalletError::Parse);
            },
        };
        out.push(16 * v0 + v1);
        proof {
            lemma_hex_decode_of_step(s@.take(i + 2), i as int);
            assert(s@.take(i + 2).take(i as int) =~= s@.take(i as int));
            assert(s@.take(i + 2)[i as int] == s@[i as int]);
            assert(s@.take(i + 2)[i + 1] == s@[i + 1]);
        }
        i = i + 2;
    }
    proof {
        assert(s@.take(n as int) =~= s@);
    }
    Ok(out)
}

/// Two more digits at the end extend the decoding by one byte.
proof fn lemma_hex_decode_of_step(s: Seq<char>, i: int)
    requires
        0 <= i,
        i % 2 == 0,
        s.len() == i + 2,
    ensures
        hex_decode_of(s) == hex_decode_of(s.take(i)) + seq![
            ((16 * hex_val(s[i]) + hex_val(s[i + 1])) as u8),
        ],
    decreases i,
{
    if i == 0 {
        assert(s.take(0) =~= Seq::<char>::empty());
        assert(s.subrange(2, s.len() as int) =~= Seq::<char>::empty());
        assert(hex_decode_of(s) =~= hex_decode_of(s.take(0)) + seq![
            ((16 * hex_val(s[0]) + hex_val(s[1])) as u8),
        ]);
    } else {
        let t = s.subrange(2, s.len() as int);
        lemma_hex_decode_of_step(t, i - 2);
        assert(t.take(i - 2) =~= s.take(i).subrange(2, i));
        assert(s.take(i).len() >= 2);
        assert(hex_decode_of(s.take(i)) == seq![
            ((16 * hex_val(s.take(i)[0]) + hex_val(s.take(i)[1])) as u8),
        ] + hex_decode_of(s.take(i).subrange(2, i)));
        assert(hex_decode_of(s) =~= hex_decode_of(s.take(i)) + seq![
            ((16 * hex_val(s[i]) + hex_val(s[i + 1])) as u8),
        ]);
    }
}

/// The numeric value of one digit, or nothing when the character is no digit.
fn hex_val_exec(c: char) -> (r: Option<u8>)
    ensures
        r is Some <==> is_hex_digit(c),
        r matches Some(v) ==> v == hex_val(c) && v < 16,
{
    let u = c as u32;
    if u >= ('0' as u32) && u <= ('9' as u32) {
        Some((u - ('0' as u32)) as u8)
    } else if u >= ('a' as u32) && u <= ('f' as u32) {
        Some((u - ('a' as u32) + 10) as u8)
    } else if u >= ('A' as u32) && u <= ('F' as u32) {
        Some((u - ('A' as u32) + 10) as u8)
    } else {
        None
    }
}

} // verus!
