//! Standard Base64 encoding with `=` padding, used to embed screenshots.
use crate::text::from_chars;
use vstd::prelude::*;

verus! {

/// The Base64 character for a 6-bit value.
pub open spec fn b64_char(v: u32) -> char {
    if v < 26 {
        (('A' as u32) + v) as char
    } else if v < 52 {
        (('a' as u32) + (v - 26)) as char
    } else if v < 62 {
        (('0' as u32) + (v - 52)) as char
    } else if v == 62 {
        '+'
    } else {
        '/'
    }
}

fn b64_char_exec(v: u32) -> (r: char)
    requires
        v < 64,
    ensures
        r == b64_char(v),
{
    if v < 26 {
        (65 + v as u8) as char
    } else if v < 52 {
        (97 + (v - 26) as u8) as char
    } else if v < 62 {
        (48 + (v - 52) as u8) as char
    } else if v == 62 {
        '+'
    } else {
        '/'
    }
}

/// The 24-bit group of up to three bytes (missing ones count as zero).
pub open spec fn group(b0: u8, b1: u8, b2: u8) -> u32 {
    ((b0 as u32) << 16u32) | ((b1 as u32) << 8u32) | (b2 as u32)
}

/// The four characters for a chunk of `n` (1 to 3) bytes: the 6-bit pieces
/// of the group, `=` in place of the pieces past the chunk.
pub open spec fn encode_chunk(b0: u8, b1: u8, b2: u8, n: int) -> Seq<char> {
    let g = group(b0, b1, b2);
    seq![
        b64_char((g >> 18u32) & 63u32),
        b64_char((g >> 12u32) & 63u32),
        if n > 1 {
            b64_char((g >> 6u32) & 63u32)
        } else {
            '='
        },
        if n > 2 {
            b64_char(g & 63u32)
        } else {
            '='
        },
    ]
}

pub open spec fn byte_or_zero(d: Seq<u8>, i: int) -> u8 {
    if 0 <= i < d.len() {
        d[i]
    } else {
        0
    }
}

/// The Base64 text of `d`: every chunk of three bytes (the last one may be
/// shorter) as four characters.
pub open spec fn base64_spec(d: Seq<u8>) -> Seq<char>
    decreases d.len(),
{
    if d.len() == 0 {
        seq![]
    } else {
        let n: int = if d.len() < 3 {
            d.len() as int
        } else {
            3
        };
        encode_chunk(byte_or_zero(d, 0), byte_or_zero(d, 1), byte_or_zero(d, 2), n)
            + base64_spec(d.skip(n))
    }
}

/// Encodes `data` as standard Base64 with `=` padding.
pub fn base64_encode(data: &[u8]) -> (r: String)
    ensures
        r@ == base64_spec(data@),
{
    let mut out: Vec<char> = Vec::new();
    let mut i: usize = 0;
    assert(data@.skip(0) =~= data@);
    while i < data.len()
        invariant
            i <= data.len(),
            base64_spec(data@) == out@ + base64_spec(data@.skip(i as int)),
        decreases data.len() - i,
    {
        let n: usize = if data.len() - i < 3 {
            data.len() - i
        } else {
            3
        };
        let b0 = data[i];
        let b1 = if n > 1 {
            data[i + 1]
        } else {
            0
        };
        let b2 = if n > 2 {
            data[i + 2]
        } else {
            0
        };
        let g: u32 = ((b0 as u32) << 16u32) | ((b1 as u32) << 8u32) | (b2 as u32);
        let c0 = (g >> 18u32) & 63u32;
        let c1 = (g >> 12u32) & 63u32;
        let c2 = (g >> 6u32) & 63u32;
        let c3 = g & 63u32;
        assert(c0 < 64 && c1 < 64 && c2 < 64 && c3 < 64) by (bit_vector)
            requires
                c0 == (g >> 18u32) & 63u32,
                c1 == (g >> 12u32) & 63u32,
                c2 == (g >> 6u32) & 63u32,
                c3 == g & 63u32,
        ;
        let ghost old_out = out@;
        out.push(b64_char_exec(c0));
        out.push(b64_char_exec(c1));
        out.push(
            if n > 1 {
                b64_char_exec(c2)
            } else {
                '='
            },
        );
        out.push(
            if n > 2 {
                b64_char_exec(c3)
            } else {
                '='
            },
        );
        proof {
            let s = data@.skip(i as int);
            assert(s.skip(n as int) =~= data@.skip(i + n));
            assert(byte_or_zero(s, 0) == b0);
            assert(byte_or_zero(s, 1) == b1);
            assert(byte_or_zero(s, 2) == b2);
            assert(g == group(b0, b1, b2));
            assert(out@ =~= old_out + encode_chunk(b0, b1, b2, n as int));
            assert(base64_spec(s) == encode_chunk(b0, b1, b2, n as int) + base64_spec(
                data@.skip(i + n),
            ));
            assert(old_out + (encode_chunk(b0, b1, b2, n as int) + base64_spec(data@.skip(i + n)))
                =~= out@ + base64_spec(data@.skip(i + n)));
        }
        i += n;
    }
    assert(data@.skip(data.len() as int) =~= Seq::<u8>::empty());
    assert(out@ + Seq::<char>::empty() =~= out@);
    from_chars(&out)
}

/// Base64 text is four characters per started chunk of three bytes.
pub proof fn law_base64_length(d: Seq<u8>)
    ensures
        base64_spec(d).len() == 4 * ((d.len() + 2) / 3),
    decreases d.len(),
{
    if d.len() > 0 {
        let n: int = if d.len() < 3 {
            d.len() as int
        } else {
            3
        };
        law_base64_length(d.skip(n));
    }
}

// ------------------------------------------------------------------
// What Base64 text is made of, and reading it back
// ------------------------------------------------------------------

/// A character of the Base64 alphabet: `A`-`Z`, `a`-`z`, `0`-`9`, `+`, `/`.
pub open spec fn is_b64_alphabet(c: char) -> bool {
    ('A' <= c && c <= 'Z') || ('a' <= c && c <= 'z') || ('0' <= c && c <= '9') || c == '+'
        || c == '/'
}

/// How many `=` end the text of `n` bytes.
pub open spec fn pad_len(n: nat) -> int {
    if n % 3 == 1 {
        2
    } else if n % 3 == 2 {
        1
    } else {
        0
    }
}

/// The 6-bit value of a Base64 character.
pub open spec fn b64_value(c: char) -> u32 {
    if 'A' <= c && c <= 'Z' {
        (c as u32 - 65) as u32
    } else if 'a' <= c && c <= 'z' {
        (c as u32 - 71) as u32
    } else if '0' <= c && c <= '9' {
        (c as u32 + 4) as u32
    } else if c == '+' {
        62
    } else {
        63
    }
}

/// The bytes four characters of padded Base64 stand for.
pub open spec fn decode_quad(c0: char, c1: char, c2: char, c3: char) -> Seq<u8> {
    let v0 = b64_value(c0);
    let v1 = b64_value(c1);
    let v2 = b64_value(c2);
    let v3 = b64_value(c3);
    let b0 = (((v0 << 2u32) | (v1 >> 4u32)) & 255u32) as u8;
    let b1 = ((((v1 & 15u32) << 4u32) | (v2 >> 2u32)) & 255u32) as u8;
    let b2 = ((((v2 & 3u32) << 6u32) | v3) & 255u32) as u8;
    if c2 == '=' {
        seq![b0]
    } else if c3 == '=' {
        seq![b0, b1]
    } else {
        seq![b0, b1, b2]
    }
}

/// Standard padded Base64 decoding (RFC 4648) of well-formed text: every
/// four characters stand for up to three bytes.
pub open spec fn base64_decode(s: Seq<char>) -> Seq<u8>
    decreases s.len(),
{
    if s.len() < 4 {
        seq![]
    } else {
        decode_quad(s[0], s[1], s[2], s[3]) + base64_decode(s.skip(4))
    }
}

pub proof fn lemma_b64_char(v: u32)
    requires
        v < 64,
    ensures
        is_b64_alphabet(b64_char(v)),
        b64_char(v) != '=',
        b64_value(b64_char(v)) == v,
{
    if v < 26 {
        assert((((('A' as u32) + v) as char) as u32) == 65 + v);
    } else if v < 52 {
        assert((((('a' as u32) + (v - 26)) as char) as u32) == 97 + v - 26);
    } else if v < 62 {
        assert((((('0' as u32) + (v - 52)) as char) as u32) == 48 + v - 52);
    }
}

pub proof fn lemma_chunk_pieces(b0: u8, b1: u8, b2: u8)
    ensures
        ((group(b0, b1, b2) >> 18u32) & 63u32) < 64,
        ((group(b0, b1, b2) >> 12u32) & 63u32) < 64,
        ((group(b0, b1, b2) >> 6u32) & 63u32) < 64,
        (group(b0, b1, b2) & 63u32) < 64,
{
    let g = group(b0, b1, b2);
    assert((g >> 18u32) & 63u32 < 64) by (bit_vector);
    assert((g >> 12u32) & 63u32 < 64) by (bit_vector);
    assert((g >> 6u32) & 63u32 < 64) by (bit_vector);
    assert(g & 63u32 < 64) by (bit_vector);
}

/// The four characters of one chunk are read back as its bytes.
pub proof fn lemma_chunk_decodes(b0: u8, b1: u8, b2: u8, n: int)
    requires
        1 <= n <= 3,
    ensures
        ({
            let c = encode_chunk(b0, b1, b2, n);
            decode_quad(c[0], c[1], c[2], c[3]) == if n == 1 {
                seq![b0]
            } else if n == 2 {
                seq![b0, b1]
            } else {
                seq![b0, b1, b2]
            }
        }),
{
    let g = group(b0, b1, b2);
    lemma_chunk_pieces(b0, b1, b2);
    let v0 = (g >> 18u32) & 63u32;
    let v1 = (g >> 12u32) & 63u32;
    let v2 = (g >> 6u32) & 63u32;
    let v3 = g & 63u32;
    lemma_b64_char(v0);
    lemma_b64_char(v1);
    lemma_b64_char(v2);
    lemma_b64_char(v3);
    assert((((((((b0 as u32) << 16u32) | ((b1 as u32) << 8u32) | (b2 as u32)) >> 18u32) & 63u32) << 2u32)
        | ((((((b0 as u32) << 16u32) | ((b1 as u32) << 8u32) | (b2 as u32)) >> 12u32) & 63u32) >> 4u32))
        & 255u32 == b0 as u32) by (bit_vector);
    assert(((((((((b0 as u32) << 16u32) | ((b1 as u32) << 8u32) | (b2 as u32)) >> 12u32) & 63u32) & 15u32)
        << 4u32) | ((((((b0 as u32) << 16u32) | ((b1 as u32) << 8u32) | (b2 as u32)) >> 6u32) & 63u32)
        >> 2u32)) & 255u32 == b1 as u32) by (bit_vector);
    assert(((((((((b0 as u32) << 16u32) | ((b1 as u32) << 8u32) | (b2 as u32)) >> 6u32) & 63u32) & 3u32)
        << 6u32) | ((((b0 as u32) << 16u32) | ((b1 as u32) << 8u32) | (b2 as u32)) & 63u32)) & 255u32
        == b2 as u32) by (bit_vector);
    let c = encode_chunk(b0, b1, b2, n);
    if n == 1 {
        assert(decode_quad(c[0], c[1], c[2], c[3]) =~= seq![b0]);
    } else if n == 2 {
        assert(decode_quad(c[0], c[1], c[2], c[3]) =~= seq![b0, b1]);
    } else {
        assert(decode_quad(c[0], c[1], c[2], c[3]) =~= seq![b0, b1, b2]);
    }
}

/// Base64 text uses only the alphabet, with `=` exactly in the last
/// `pad_len` places (two after one leftover byte, one after two).
pub proof fn law_base64_alphabet_and_padding(d: Seq<u8>)
    ensures
        base64_spec(d).len() == 4 * ((d.len() + 2) / 3),
        forall|i: int|
            0 <= i < base64_spec(d).len() - pad_len(d.len()) ==> is_b64_alphabet(
                #[trigger] base64_spec(d)[i],
            ),
        forall|i: int|
            base64_spec(d).len() - pad_len(d.len()) <= i < base64_spec(d).len() ==> #[trigger] base64_spec(
                d,
            )[i] == '=',
    decreases d.len(),
{
    law_base64_length(d);
    if d.len() > 0 {
        let n: int = if d.len() < 3 {
            d.len() as int
        } else {
            3
        };
        let (b0, b1, b2) = (byte_or_zero(d, 0), byte_or_zero(d, 1), byte_or_zero(d, 2));
        let c = encode_chunk(b0, b1, b2, n);
        let rest = base64_spec(d.skip(n));
        law_base64_alphabet_and_padding(d.skip(n));
        lemma_chunk_pieces(b0, b1, b2);
        let g = group(b0, b1, b2);
        lemma_b64_char((g >> 18u32) & 63u32);
        lemma_b64_char((g >> 12u32) & 63u32);
        lemma_b64_char((g >> 6u32) & 63u32);
        lemma_b64_char(g & 63u32);
        let s = base64_spec(d);
        assert(s == c + rest);
        if d.len() > 3 {
            assert(d.skip(n).len() % 3 == d.len() % 3);
        } else {
            assert(d.skip(n).len() == 0);
        }
        assert forall|i: int| 0 <= i < s.len() - pad_len(d.len()) implies is_b64_alphabet(
            #[trigger] s[i],
        ) by {
            if i >= 4 {
                assert(s[i] == rest[i - 4]);
            }
        }
        assert forall|i: int| s.len() - pad_len(d.len()) <= i < s.len() implies #[trigger] s[i]
            == '=' by {
            if i >= 4 {
                assert(s[i] == rest[i - 4]);
            }
        }
    }
}

/// Decoding the Base64 text of some bytes gives back exactly those bytes.
pub proof fn law_base64_decodes_back(d: Seq<u8>)
    ensures
        base64_decode(base64_spec(d)) == d,
    decreases d.len(),
{
    if d.len() > 0 {
        let n: int = if d.len() < 3 {
            d.len() as int
        } else {
            3
        };
        let (b0, b1, b2) = (byte_or_zero(d, 0), byte_or_zero(d, 1), byte_or_zero(d, 2));
        let c = encode_chunk(b0, b1, b2, n);
        let rest = base64_spec(d.skip(n));
        law_base64_decodes_back(d.skip(n));
        lemma_chunk_decodes(b0, b1, b2, n);
        let s = base64_spec(d);
        assert(s == c + rest);
        assert(s.skip(4) =~= rest);
        assert(s[0] == c[0] && s[1] == c[1] && s[2] == c[2] && s[3] == c[3]);
        assert(decode_quad(c[0], c[1], c[2], c[3]) =~= d.take(n));
        assert(d.take(n) + d.skip(n) =~= d);
    } else {
        assert(base64_spec(d) =~= Seq::<char>::empty());
        assert(d =~= Seq::<u8>::empty());
    }
}

} // verus!
