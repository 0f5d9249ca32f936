//! Base64 encoding (standard alphabet, `=` padding), used to name cache files.
use vstd::prelude::*;
use crate::text::push_char;

verus! {

/// The character for the 6-bit value `i` in the standard Base64 alphabet.
pub open spec fn b64_symbol(i: int) -> char {
    if i < 26 {
        (('A' as int) + i) as char
    } else if i < 52 {
        (('a' as int) + (i - 26)) as char
    } else if i < 62 {
        (('0' as int) + (i - 52)) as char
    } else if i == 62 {
        '+'
    } else {
        '/'
    }
}

/// The four output characters for a chunk of one, two or three bytes
/// (`b1`, `b2` taken as 0 where the chunk is shorter).
pub open spec fn b64_chunk(b0: u8, b1: u8, b2: u8, len: int) -> Seq<char> {
    seq![
        b64_symbol((b0 / 4) as int),
        b64_symbol((b0 % 4) * 16 + b1 / 16),
        if len > 1 {
            b64_symbol((b1 % 16) * 4 + b2 / 64)
        } else {
            '='
        },
        if len > 2 {
            b64_symbol((b2 % 64) as int)
        } else {
            '='
        },
    ]
}

/// Standard Base64 encoding of `s`, with padding.
pub open spec fn b64_encode(s: Seq<u8>) -> Seq<char>
    decreases s.len(),
{
    if s.len() == 0 {
        Seq::empty()
    } else if s.len() == 1 {
        b64_chunk(s[0], 0, 0, 1)
    } else if s.len() == 2 {
        b64_chunk(s[0], s[1], 0, 2)
    } else {
        b64_chunk(s[0], s[1], s[2], 3) + b64_encode(s.subrange(3, s.len() as int))
    }
}

/// The character for the 6-bit value `i`.
fn symbol(i: usize) -> (c: char)
    requires
        i < 64,
    ensures
        c == b64_symbol(i as int),
{
    let b: u8 = if i < 26 {
        (65 + i) as u8
    } else if i < 52 {
        (97 + (i - 26)) as u8
    } else if i < 62 {
        (48 + (i - 52)) as u8
    } else if i == 62 {
        43
    } else {
        47
    };
    b as char
}

/// Encodes `input` in standard Base64 with `=` padding.
pub fn base64_encode(input: &[u8]) -> (r: String)
    ensures
        r@ == b64_encode(input@),
{
    let mut result = String::new();
    let n = input.len();
    let mut i: usize = 0;
    assert(input@.subrange(0, n as int) =~= input@);
    while i < n
        invariant
            n == input@.len(),
            i <= n,
            result@ + b64_encode(input@.subrange(i as int, n as int)) == b64_encode(input@),
        decreases n - i,
    {
        let rest = n - i;
        let b0 = input[i] as usize;
        let b1: usize = if rest > 1 {
            input[i + 1] as usize
        } else {
            0
        };
        let b2: usize = if rest > 2 {
            input[i + 2] as usize
        } else {
            0
        };
        let ghost tail = input@.subrange(i as int, n as int);
        let ghost chunk = b64_chunk(
            tail[0],
            if rest > 1 {
                tail[1]
            } else {
                0
            },
            if rest > 2 {
                tail[2]
            } else {
                0
            },
            if rest > 2 {
                3
            } else {
                rest as int
            },
        );
        let c0 = symbol(b0 / 4);
        let c1 = symbol((b0 % 4) * 16 + b1 / 16);
        let c2 = if rest > 1 {
            symbol((b1 % 16) * 4 + b2 / 64)
        } else {
            '='
        };
        let c3 = if rest > 2 {
            symbol(b2 % 64)
        } else {
            '='
        };
        let ghost before = result@;
        push_char(&mut result, c0);
        push_char(&mut result, c1);
        push_char(&mut result, c2);
        push_char(&mut result, c3);
        let step: usize = if rest > 3 {
            3
        } else {
            rest
        };
        proof {
            assert(result@ =~= before + chunk);
            if rest > 3 {
                assert(tail.subrange(3, tail.len() as int) =~= input@.subrange(
                    i + 3,
                    n as int,
                ));
                assert(b64_encode(tail) == chunk + b64_encode(tail.subrange(3, tail.len() as int)));
            } else {
                assert(input@.subrange(i + step, n as int) =~= Seq::<u8>::empty());
                if rest == 3 {
                    assert(tail.subrange(3, 3) =~= Seq::<u8>::empty());
                    assert(b64_encode(tail) == chunk + b64_encode(Seq::<u8>::empty()));
                }
                assert(b64_encode(tail) =~= chunk);
            }
        }
        i = i + step;
    }
    assert(input@.subrange(n as int, n as int) =~= Seq::<u8>::empty());
    assert(result@ + Seq::<char>::empty() =~= result@);
    result
}

/// Base64 output is four characters for every started group of three bytes.
pub proof fn law_encoded_length(s: Seq<u8>)
    ensures
        b64_encode(s).len() == 4 * ((s.len() + 2) / 3),
    decreases s.len(),
{
    if s.len() > 2 {
        law_encoded_length(s.subrange(3, s.len() as int));
    }
}

} // verus!
