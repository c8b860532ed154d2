use vstd::prelude::*;

verus! {

/// The destination buffer handed to `encode` did not have exactly
/// `ceil(4 * len / 3)` bytes, so nothing was written.
#[derive(Clone, Copy, Debug, PartialEq, Eq, Structural)]
pub enum EncodeError {
    WrongDestinationLength,
}

/// The unpadded URL-safe base64 alphabet: `A-Z a-z 0-9 - _`, as the byte for
/// each 6-bit index.
pub open spec fn b64_char(i: int) -> u8
    recommends
        0 <= i < 64,
{
    if i < 26 {
        (65 + i) as u8
    } else if i < 52 {
        (71 + i) as u8
    } else if i < 62 {
        (i - 4) as u8
    } else if i == 62 {
        45u8
    } else {
        95u8
    }
}

/// The 6-bit index a byte stands for in the base64url alphabet, or -1 when
/// the byte is not an alphabet character (in particular for `=`, byte 61).
pub open spec fn b64_index_of(c: u8) -> int {
    if 65 <= c <= 90 {
        c - 65
    } else if 97 <= c <= 122 {
        c - 71
    } else if 48 <= c <= 57 {
        c + 4
    } else if c == 45 {
        62
    } else if c == 95 {
        63
    } else {
        -1
    }
}

/// Unpadded base64url encoding: 3-byte groups become four 6-bit indices; a
/// 1-byte remainder emits the two high windows, a 2-byte remainder three.
#[verifier::opaque]
pub open spec fn b64u_encoding(s: Seq<u8>) -> Seq<u8>
    decreases s.len(),
{
    if s.len() == 0 {
        Seq::empty()
    } else if s.len() == 1 {
        seq![
            b64_char((s[0] >> 2) as int),
            b64_char(((s[0] & 3) << 4) as int),
        ]
    } else if s.len() == 2 {
        seq![
            b64_char((s[0] >> 2) as int),
            b64_char((((s[0] & 3) << 4) | (s[1] >> 4)) as int),
            b64_char(((s[1] & 15) << 2) as int),
        ]
    } else {
        seq![
            b64_char((s[0] >> 2) as int),
            b64_char((((s[0] & 3) << 4) | (s[1] >> 4)) as int),
            b64_char((((s[1] & 15) << 2) | (s[2] >> 6)) as int),
            b64_char((s[2] & 63) as int),
        ] + b64u_encoding(s.skip(3))
    }
}

/// `ceil(4 * n / 3)`: the exact number of characters `encode` emits for an
/// `n`-byte input.
pub open spec fn encoded_len(n: int) -> int {
    (4 * n + 2) / 3
}

/// Strict decoding of unpadded base64url text: `None` unless every byte is an
/// alphabet character, the length is a possible encoding length, and the
/// unused low bits of a trailing group are zero.
pub open spec fn b64u_decoding(t: Seq<u8>) -> Option<Seq<u8>>
    decreases t.len(),
{
    if t.len() == 0 {
        Some(Seq::empty())
    } else if t.len() == 1 {
        None
    } else if t.len() == 2 {
        let v0 = b64_index_of(t[0]);
        let v1 = b64_index_of(t[1]);
        if v0 >= 0 && v1 >= 0 && v1 % 16 == 0 {
            Some(seq![(v0 * 4 + v1 / 16) as u8])
        } else {
            None
        }
    } else if t.len() == 3 {
        let v0 = b64_index_of(t[0]);
        let v1 = b64_index_of(t[1]);
        let v2 = b64_index_of(t[2]);
        if v0 >= 0 && v1 >= 0 && v2 >= 0 && v2 % 4 == 0 {
            Some(seq![(v0 * 4 + v1 / 16) as u8, ((v1 % 16) * 16 + v2 / 4) as u8])
        } else {
            None
        }
    } else {
        let v0 = b64_index_of(t[0]);
        let v1 = b64_index_of(t[1]);
        let v2 = b64_index_of(t[2]);
        let v3 = b64_index_of(t[3]);
        if v0 >= 0 && v1 >= 0 && v2 >= 0 && v3 >= 0 {
            match b64u_decoding(t.skip(4)) {
                Some(rest) => Some(
                    seq![
                        (v0 * 4 + v1 / 16) as u8,
                        ((v1 % 16) * 16 + v2 / 4) as u8,
                        ((v2 % 4) * 64 + v3) as u8,
                    ] + rest,
                ),
                None => None,
            }
        } else {
            None
        }
    }
}

/// Every 6-bit index names a distinct alphabet byte.
pub proof fn lemma_char_index(x: int)
    requires
        0 <= x < 64,
    ensures
        b64_index_of(b64_char(x)) == x,
        b64_char(x) != 61,
{
}

/// The encoding of an `n`-byte input has exactly `ceil(4 * n / 3)` characters.
pub proof fn lemma_encoding_len(s: Seq<u8>)
    ensures
        b64u_encoding(s).len() == encoded_len(s.len() as int),
    decreases s.len(),
{
    reveal(b64u_encoding);
    if s.len() >= 3 {
        lemma_encoding_len(s.skip(3));
    }
}

/// Every byte of an encoding is an alphabet character; the padding byte `=`
/// (61) in particular never occurs.
pub proof fn lemma_encoding_alphabet(s: Seq<u8>)
    ensures
        forall|j: int|
            0 <= j < b64u_encoding(s).len() ==> b64_index_of(#[trigger] b64u_encoding(s)[j])
                >= 0 && b64u_encoding(s)[j] != 61,
    decreases s.len(),
{
    reveal(b64u_encoding);
    if s.len() == 0 {
    } else if s.len() == 1 {
        let b0 = s[0];
        assert(b0 >> 2 < 64 && (b0 & 3) << 4 < 64) by (bit_vector);
        lemma_char_index((b0 >> 2) as int);
        lemma_char_index(((b0 & 3) << 4) as int);
    } else if s.len() == 2 {
        let b0 = s[0];
        let b1 = s[1];
        assert(b0 >> 2 < 64 && ((b0 & 3) << 4) | (b1 >> 4) < 64 && (b1 & 15) << 2 < 64)
            by (bit_vector);
        lemma_char_index((b0 >> 2) as int);
        lemma_char_index((((b0 & 3) << 4) | (b1 >> 4)) as int);
        lemma_char_index(((b1 & 15) << 2) as int);
    } else {
        let b0 = s[0];
        let b1 = s[1];
        let b2 = s[2];
        assert(b0 >> 2 < 64 && ((b0 & 3) << 4) | (b1 >> 4) < 64 && ((b1 & 15) << 2) | (b2 >> 6)
            < 64 && b2 & 63 < 64) by (bit_vector);
        lemma_char_index((b0 >> 2) as int);
        lemma_char_index((((b0 & 3) << 4) | (b1 >> 4)) as int);
        lemma_char_index((((b1 & 15) << 2) | (b2 >> 6)) as int);
        lemma_char_index((b2 & 63) as int);
        lemma_encoding_alphabet(s.skip(3));
        assert forall|j: int| 0 <= j < b64u_encoding(s).len() implies b64_index_of(
            #[trigger] b64u_encoding(s)[j],
        ) >= 0 && b64u_encoding(s)[j] != 61 by {
            if j >= 4 {
                assert(b64u_encoding(s)[j] == b64u_encoding(s.skip(3))[j - 4]);
            }
        }
    }
}

/// Strict base64url decoding of an encoding gives back the encoded bytes:
/// the encoder is lossless on every input.
pub proof fn lemma_encoding_decodes(s: Seq<u8>)
    ensures
        b64u_decoding(b64u_encoding(s)) == Some(s),
    decreases s.len(),
{
    reveal(b64u_encoding);
    if s.len() == 0 {
        assert(b64u_encoding(s) =~= Seq::<u8>::empty());
        assert(s =~= Seq::<u8>::empty());
    } else if s.len() == 1 {
        let b0 = s[0];
        assert(b0 >> 2 < 64 && (b0 & 3) << 4 < 64) by (bit_vector);
        lemma_char_index((b0 >> 2) as int);
        lemma_char_index(((b0 & 3) << 4) as int);
        assert(((b0 & 3) << 4) % 16 == 0) by (bit_vector);
        assert((b0 >> 2) * 4 + ((b0 & 3) << 4) / 16 == b0) by (bit_vector);
        assert(seq![b0] =~= s);
    } else if s.len() == 2 {
        let b0 = s[0];
        let b1 = s[1];
        assert(b0 >> 2 < 64 && ((b0 & 3) << 4) | (b1 >> 4) < 64 && (b1 & 15) << 2 < 64)
            by (bit_vector);
        lemma_char_index((b0 >> 2) as int);
        lemma_char_index((((b0 & 3) << 4) | (b1 >> 4)) as int);
        lemma_char_index(((b1 & 15) << 2) as int);
        assert(((b1 & 15) << 2) % 4 == 0) by (bit_vector);
        assert((b0 >> 2) * 4 + (((b0 & 3) << 4) | (b1 >> 4)) / 16 == b0) by (bit_vector);
        assert(((((b0 & 3) << 4) | (b1 >> 4)) % 16) * 16 + ((b1 & 15) << 2) / 4 == b1)
            by (bit_vector);
        assert(seq![b0, b1] =~= s);
    } else {
        let b0 = s[0];
        let b1 = s[1];
        let b2 = s[2];
        assert(b0 >> 2 < 64 && ((b0 & 3) << 4) | (b1 >> 4) < 64 && ((b1 & 15) << 2) | (b2 >> 6)
            < 64 && b2 & 63 < 64) by (bit_vector);
        lemma_char_index((b0 >> 2) as int);
        lemma_char_index((((b0 & 3) << 4) | (b1 >> 4)) as int);
        lemma_char_index((((b1 & 15) << 2) | (b2 >> 6)) as int);
        lemma_char_index((b2 & 63) as int);
        assert((b0 >> 2) * 4 + (((b0 & 3) << 4) | (b1 >> 4)) / 16 == b0) by (bit_vector);
        assert(((((b0 & 3) << 4) | (b1 >> 4)) % 16) * 16 + (((b1 & 15) << 2) | (b2 >> 6)) / 4
            == b1) by (bit_vector);
        assert(((((b1 & 15) << 2) | (b2 >> 6)) % 4) * 64 + (b2 & 63) == b2) by (bit_vector);
        lemma_encoding_decodes(s.skip(3));
        let t = b64u_encoding(s);
        lemma_encoding_len(s.skip(3));
        assert(t.len() >= 4);
        assert(t.skip(4) =~= b64u_encoding(s.skip(3)));
        assert(seq![b0, b1, b2] + s.skip(3) =~= s);
    }
}

/// An all-zero input encodes to the letter `A` (byte 65) repeated
/// `ceil(4 * n / 3)` times; 32 zero bytes in particular give 43 `A`s.
pub proof fn lemma_encoding_of_zeroes(s: Seq<u8>)
    requires
        forall|i: int| 0 <= i < s.len() ==> s[i] == 0,
    ensures
        b64u_encoding(s).len() == encoded_len(s.len() as int),
        forall|j: int| 0 <= j < b64u_encoding(s).len() ==> b64u_encoding(s)[j] == 65,
    decreases s.len(),
{
    reveal(b64u_encoding);
    lemma_encoding_len(s);
    assert(0u8 >> 2 == 0 && (0u8 & 3) << 4 == 0 && (0u8 & 3) << 4 | (0u8 >> 4) == 0 && (0u8 & 15)
        << 2 == 0 && (0u8 & 15) << 2 | (0u8 >> 6) == 0 && 0u8 & 63 == 0) by (bit_vector);
    if s.len() >= 3 {
        lemma_encoding_of_zeroes(s.skip(3));
        assert forall|j: int| 0 <= j < b64u_encoding(s).len() implies b64u_encoding(s)[j] == 65 by {
            if j >= 4 {
                assert(b64u_encoding(s)[j] == b64u_encoding(s.skip(3))[j - 4]);
            }
        }
    }
}

/// Unfolds one full 3-byte group of the encoding at offset `k`.
proof fn lemma_encoding_step(s: Seq<u8>, k: int)
    requires
        0 <= k,
        k + 3 <= s.len(),
    ensures
        b64u_encoding(s.skip(k)) == seq![
            b64_char((s[k] >> 2) as int),
            b64_char((((s[k] & 3) << 4) | (s[k + 1] >> 4)) as int),
            b64_char((((s[k + 1] & 15) << 2) | (s[k + 2] >> 6)) as int),
            b64_char((s[k + 2] & 63) as int),
        ] + b64u_encoding(s.skip(k + 3)),
{
    reveal(b64u_encoding);
    let tail = s.skip(k);
    assert(tail[0] == s[k] && tail[1] == s[k + 1] && tail[2] == s[k + 2]);
    assert(tail.skip(3) =~= s.skip(k + 3));
}

/// The alphabet byte for a 6-bit index.
fn b64_byte(i: u8) -> (r: u8)
    requires
        i < 64,
    ensures
        r == b64_char(i as int),
{
    if i < 26 {
        65 + i
    } else if i < 52 {
        71 + i
    } else if i < 62 {
        i - 4
    } else if i == 62 {
        45
    } else {
        95
    }
}

/// Encode `src` as unpadded base64url into `dst`, in place.
///
/// The caller must size `dst` to exactly `ceil(4 * len(src) / 3)` bytes; any
/// other size is rejected and `dst` is left untouched.
#[verifier::rlimit(100)]
pub fn encode(dst: &mut Vec<u8>, src: &Vec<u8>) -> (r: Result<(), EncodeError>)
    ensures
        r is Ok <==> old(dst)@.len() == encoded_len(src@.len() as int),
        r is Ok ==> final(dst)@ == b64u_encoding(src@),
        r is Err ==> final(dst)@ == old(dst)@,
{
    let n_src: usize = src.len();
    if (dst.len() as u128) != ((n_src as u128) * 4 + 2) / 3 {
        return Err(EncodeError::WrongDestinationLength);
    }
    let full_end: usize = (n_src / 3) * 3;
    let mut si: usize = 0;
    let mut di: usize = 0;
    proof {
        assert(src@.skip(0) =~= src@);
        assert(dst@.subrange(0, 0) + b64u_encoding(src@) =~= b64u_encoding(src@));
    }
    while si < full_end
        invariant
            si % 3 == 0,
            si <= full_end <= n_src == src@.len(),
            full_end == (n_src / 3) * 3,
            3 * (di as int) == 4 * (si as int),
            dst@.len() == encoded_len(src@.len() as int),
            b64u_encoding(src@) == dst@.subrange(0, di as int) + b64u_encoding(
                src@.skip(si as int),
            ),
        decreases full_end - si,
    {
        let dlen: usize = dst.len();
        proof {
            assert(3 * encoded_len(n_src as int) >= 4 * n_src);
            assert(3 * (di as int + 4) == 4 * (si as int + 3) <= 4 * n_src);
            assert(di + 4 <= dlen);
        }
        let b0 = src[si];
        let b1 = src[si + 1];
        let b2 = src[si + 2];
        assert(b0 >> 2 < 64 && ((b0 & 3) << 4) | (b1 >> 4) < 64 && ((b1 & 15) << 2) | (b2 >> 6)
            < 64 && b2 & 63 < 64) by (bit_vector);
        let c0 = b64_byte(b0 >> 2);
        let c1 = b64_byte(((b0 & 3) << 4) | (b1 >> 4));
        let c2 = b64_byte(((b1 & 15) << 2) | (b2 >> 6));
        let c3 = b64_byte(b2 & 63);
        let ghost pre = dst@;
        dst.set(di, c0);
        dst.set(di + 1, c1);
        dst.set(di + 2, c2);
        dst.set(di + 3, c3);
        proof {
            lemma_encoding_step(src@, si as int);
            assert(dst@.subrange(0, di as int + 4) =~= pre.subrange(0, di as int) + seq![
                c0,
                c1,
                c2,
                c3,
            ]);
            assert(b64u_encoding(src@) == dst@.subrange(0, di as int + 4) + b64u_encoding(
                src@.skip(si as int + 3),
            ));
        }
        si += 3;
        di += 4;
    }
    let remain = n_src - full_end;
    let ghost tail = src@.skip(si as int);
    proof {
        assert(tail.len() == remain);
    }
    if remain == 0 {
        proof {
            reveal(b64u_encoding);
            assert(dst@.len() == di);
            assert(dst@ =~= dst@.subrange(0, di as int) + b64u_encoding(tail));
        }
        return Ok(());
    }
    let b0 = src[si];
    if remain == 1 {
        assert(b0 >> 2 < 64 && (b0 & 3) << 4 < 64) by (bit_vector);
        let ghost pre = dst@;
        proof {
            assert(dst@.len() == di + 2);
        }
        let c0 = b64_byte(b0 >> 2);
        let c1 = b64_byte((b0 & 3) << 4);
        dst.set(di, c0);
        dst.set(di + 1, c1);
        proof {
            reveal(b64u_encoding);
            assert(tail[0] == b0);
            assert(dst@ =~= pre.subrange(0, di as int) + seq![c0, c1]);
        }
        return Ok(());
    }
    let b1 = src[si + 1];
    assert(b0 >> 2 < 64 && ((b0 & 3) << 4) | (b1 >> 4) < 64 && (b1 & 15) << 2 < 64)
        by (bit_vector);
    let ghost pre = dst@;
    proof {
        assert(dst@.len() == di + 3);
    }
    let c0 = b64_byte(b0 >> 2);
    let c1 = b64_byte(((b0 & 3) << 4) | (b1 >> 4));
    let c2 = b64_byte((b1 & 15) << 2);
    dst.set(di, c0);
    dst.set(di + 1, c1);
    dst.set(di + 2, c2);
    proof {
        reveal(b64u_encoding);
        assert(tail[0] == b0 && tail[1] == b1);
        assert(dst@ =~= pre.subrange(0, di as int) + seq![c0, c1, c2]);
    }
    Ok(())
}

} // verus!
