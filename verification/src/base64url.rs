//! Unpadded base64url coding of byte strings, as token segments use
//! it: the alphabet `A-Z a-z 0-9 - _`, three bytes to four characters,
//! with decoding proved to invert encoding.

use vstd::prelude::*;

verus! {

/// The alphabet byte for a six-bit value.
pub open spec fn b64_char_of(x: int) -> u8 {
    if 0 <= x < 26 {
        (65 + x) as u8
    } else if 26 <= x < 52 {
        (97 + (x - 26)) as u8
    } else if 52 <= x < 62 {
        (48 + (x - 52)) as u8
    } else if x == 62 {
        45
    } else {
        95
    }
}

/// The six-bit value of an alphabet byte, or -1 outside the alphabet.
pub open spec fn b64_val_of(c: u8) -> int {
    if 65 <= c <= 90 {
        c - 65
    } else if 97 <= c <= 122 {
        (c - 97) + 26
    } else if 48 <= c <= 57 {
        (c - 48) + 52
    } else if c == 45 {
        62
    } else if c == 95 {
        63
    } else {
        -1
    }
}

pub open spec fn is_b64_byte(c: u8) -> bool {
    b64_val_of(c) >= 0
}

pub open spec fn enc0(a: u8) -> u8 {
    a >> 2
}

pub open spec fn enc1(a: u8, b: u8) -> u8 {
    ((a & 3) << 4) | (b >> 4)
}

pub open spec fn enc2(b: u8, c: u8) -> u8 {
    ((b & 15) << 2) | (c >> 6)
}

pub open spec fn enc3(c: u8) -> u8 {
    c & 63
}

pub open spec fn dec0(v0: u8, v1: u8) -> u8 {
    (v0 << 2) | (v1 >> 4)
}

pub open spec fn dec1(v1: u8, v2: u8) -> u8 {
    ((v1 & 15) << 4) | (v2 >> 2)
}

pub open spec fn dec2(v2: u8, v3: u8) -> u8 {
    ((v2 & 3) << 6) | v3
}

/// Unpadded base64url encoding, three input bytes at a time.
pub open spec fn spec_b64_encode(s: Seq<u8>) -> Seq<u8>
    decreases s.len(),
{
    if s.len() == 0 {
        Seq::empty()
    } else if s.len() == 1 {
        seq![b64_char_of(enc0(s[0]) as int), b64_char_of(enc1(s[0], 0) as int)]
    } else if s.len() == 2 {
        seq![
            b64_char_of(enc0(s[0]) as int),
            b64_char_of(enc1(s[0], s[1]) as int),
            b64_char_of(enc2(s[1], 0) as int),
        ]
    } else {
        seq![
            b64_char_of(enc0(s[0]) as int),
            b64_char_of(enc1(s[0], s[1]) as int),
            b64_char_of(enc2(s[1], s[2]) as int),
            b64_char_of(enc3(s[2]) as int),
        ] + spec_b64_encode(s.skip(3))
    }
}

/// Unpadded base64url decoding, four alphabet bytes at a time; `None`
/// on a byte outside the alphabet or a leftover of one byte.
pub open spec fn spec_b64_decode(s: Seq<u8>) -> Option<Seq<u8>>
    decreases s.len(),
{
    if s.len() == 0 {
        Some(Seq::empty())
    } else if s.len() == 1 {
        None
    } else if s.len() == 2 {
        if is_b64_byte(s[0]) && is_b64_byte(s[1]) {
            Some(seq![dec0(b64_val_of(s[0]) as u8, b64_val_of(s[1]) as u8)])
        } else {
            None
        }
    } else if s.len() == 3 {
        if is_b64_byte(s[0]) && is_b64_byte(s[1]) && is_b64_byte(s[2]) {
            let v0 = b64_val_of(s[0]) as u8;
            let v1 = b64_val_of(s[1]) as u8;
            let v2 = b64_val_of(s[2]) as u8;
            Some(seq![dec0(v0, v1), dec1(v1, v2)])
        } else {
            None
        }
    } else {
        if is_b64_byte(s[0]) && is_b64_byte(s[1]) && is_b64_byte(s[2]) && is_b64_byte(s[3]) {
            let v0 = b64_val_of(s[0]) as u8;
            let v1 = b64_val_of(s[1]) as u8;
            let v2 = b64_val_of(s[2]) as u8;
            let v3 = b64_val_of(s[3]) as u8;
            match spec_b64_decode(s.skip(4)) {
                Some(r) => Some(seq![dec0(v0, v1), dec1(v1, v2), dec2(v2, v3)] + r),
                None => None,
            }
        } else {
            None
        }
    }
}

/// Alphabet bytes carry their six-bit value back, are ASCII, and are
/// never a dot.
pub proof fn lemma_b64_char_val(x: int)
    requires
        0 <= x < 64,
    ensures
        b64_val_of(b64_char_of(x)) == x,
        is_b64_byte(b64_char_of(x)),
        b64_char_of(x) != 46,
        b64_char_of(x) < 128,
{
}

/// The six-bit pieces an encoder produces are below 64.
pub proof fn lemma_enc_bounds(a: u8, b: u8, c: u8)
    ensures
        enc0(a) < 64,
        enc1(a, b) < 64,
        enc2(b, c) < 64,
        enc3(c) < 64,
{
    assert(a >> 2 < 64) by (bit_vector);
    assert(((a & 3) << 4) | (b >> 4) < 64) by (bit_vector);
    assert(((b & 15) << 2) | (c >> 6) < 64) by (bit_vector);
    assert(c & 63 < 64) by (bit_vector);
}

/// Every byte of an encoding is in the alphabet, ASCII, and not a dot.
pub proof fn lemma_b64_encode_bytes(s: Seq<u8>)
    ensures
        forall|i: int|
            0 <= i < spec_b64_encode(s).len() ==> is_b64_byte(#[trigger] spec_b64_encode(s)[i])
                && spec_b64_encode(s)[i] != 46 && spec_b64_encode(s)[i] < 128,
    decreases s.len(),
{
    if s.len() == 0 {
    } else if s.len() == 1 {
        lemma_enc_bounds(s[0], 0, 0);
        lemma_b64_char_val(enc0(s[0]) as int);
        lemma_b64_char_val(enc1(s[0], 0) as int);
    } else if s.len() == 2 {
        lemma_enc_bounds(s[0], s[1], 0);
        lemma_b64_char_val(enc0(s[0]) as int);
        lemma_b64_char_val(enc1(s[0], s[1]) as int);
        lemma_b64_char_val(enc2(s[1], 0) as int);
    } else {
        lemma_enc_bounds(s[0], s[1], s[2]);
        lemma_b64_char_val(enc0(s[0]) as int);
        lemma_b64_char_val(enc1(s[0], s[1]) as int);
        lemma_b64_char_val(enc2(s[1], s[2]) as int);
        lemma_b64_char_val(enc3(s[2]) as int);
        lemma_b64_encode_bytes(s.skip(3));
        let e = spec_b64_encode(s);
        let r = spec_b64_encode(s.skip(3));
        assert forall|i: int| 0 <= i < e.len() implies is_b64_byte(#[trigger] e[i]) && e[i] != 46
            && e[i] < 128 by {
            if i >= 4 {
                assert(e[i] == r[i - 4]);
            }
        }
    }
}

/// Decoding inverts encoding.
pub proof fn lemma_b64_roundtrip(s: Seq<u8>)
    ensures
        spec_b64_decode(spec_b64_encode(s)) == Some(s),
    decreases s.len(),
{
    if s.len() == 0 {
        assert(spec_b64_encode(s) =~= Seq::<u8>::empty());
        assert(Some(Seq::<u8>::empty()) == Some(s));
    } else if s.len() == 1 {
        let a = s[0];
        lemma_enc_bounds(a, 0, 0);
        lemma_b64_char_val(enc0(a) as int);
        lemma_b64_char_val(enc1(a, 0) as int);
        assert(((a >> 2) << 2) | ((((a & 3) << 4) | (0u8 >> 4)) >> 4) == a) by (bit_vector);
        assert(seq![dec0(enc0(a), enc1(a, 0))] =~= s);
    } else if s.len() == 2 {
        let a = s[0];
        let b = s[1];
        lemma_enc_bounds(a, b, 0);
        lemma_b64_char_val(enc0(a) as int);
        lemma_b64_char_val(enc1(a, b) as int);
        lemma_b64_char_val(enc2(b, 0) as int);
        assert(((a >> 2) << 2) | ((((a & 3) << 4) | (b >> 4)) >> 4) == a) by (bit_vector);
        assert((((((a & 3) << 4) | (b >> 4)) & 15) << 4) | ((((b & 15) << 2) | (0u8 >> 6)) >> 2)
            == b) by (bit_vector);
        assert(seq![dec0(enc0(a), enc1(a, b)), dec1(enc1(a, b), enc2(b, 0))] =~= s);
    } else {
        let a = s[0];
        let b = s[1];
        let c = s[2];
        lemma_enc_bounds(a, b, c);
        lemma_b64_char_val(enc0(a) as int);
        lemma_b64_char_val(enc1(a, b) as int);
        lemma_b64_char_val(enc2(b, c) as int);
        lemma_b64_char_val(enc3(c) as int);
        lemma_b64_roundtrip(s.skip(3));
        let e = spec_b64_encode(s);
        let g = seq![
            b64_char_of(enc0(a) as int),
            b64_char_of(enc1(a, b) as int),
            b64_char_of(enc2(b, c) as int),
            b64_char_of(enc3(c) as int),
        ];
        assert(e == g + spec_b64_encode(s.skip(3)));
        assert(e.skip(4) =~= spec_b64_encode(s.skip(3)));
        assert(((a >> 2) << 2) | ((((a & 3) << 4) | (b >> 4)) >> 4) == a) by (bit_vector);
        assert((((((a & 3) << 4) | (b >> 4)) & 15) << 4) | ((((b & 15) << 2) | (c >> 6)) >> 2)
            == b) by (bit_vector);
        assert((((((b & 15) << 2) | (c >> 6)) & 3) << 6) | (c & 63) == c) by (bit_vector);
        assert(seq![dec0(enc0(a), enc1(a, b)), dec1(enc1(a, b), enc2(b, c)), dec2(enc2(b, c), enc3(c))]
            + s.skip(3) =~= s);
    }
}

/// The alphabet byte for a six-bit value.
fn b64_char_byte(x: u8) -> (r: u8)
    requires
        x < 64,
    ensures
        r == b64_char_of(x as int),
{
    if x < 26 {
        65 + x
    } else if x < 52 {
        97 + (x - 26)
    } else if x < 62 {
        48 + (x - 52)
    } else if x == 62 {
        45
    } else {
        95
    }
}

/// The six-bit value of an alphabet byte, or `None` outside the alphabet.
fn b64_val_byte(c: u8) -> (r: Option<u8>)
    ensures
        match r {
            Some(v) => b64_val_of(c) == v as int,
            None => b64_val_of(c) == -1,
        },
{
    if 65 <= c && c <= 90 {
        Some(c - 65)
    } else if 97 <= c && c <= 122 {
        Some((c - 97) + 26)
    } else if 48 <= c && c <= 57 {
        Some((c - 48) + 52)
    } else if c == 45 {
        Some(62)
    } else if c == 95 {
        Some(63)
    } else {
        None
    }
}

/// Encode a byte string as unpadded base64url text.
pub fn b64_encode(input: &Vec<u8>) -> (out: Vec<u8>)
    ensures
        out@ == spec_b64_encode(input@),
{
    let n = input.len();
    let mut out: Vec<u8> = Vec::new();
    let mut i: usize = 0;
    proof {
        assert(input@.skip(0) =~= input@);
        assert(Seq::<u8>::empty() + spec_b64_encode(input@) =~= spec_b64_encode(input@));
    }
    while n - i >= 3
        invariant
            n == input@.len(),
            0 <= i <= n,
            spec_b64_encode(input@) == out@ + spec_b64_encode(input@.skip(i as int)),
        decreases n - i,
    {
        let a = input[i];
        let b = input[i + 1];
        let c = input[i + 2];
        proof {
            lemma_enc_bounds(a, b, c);
        }
        let ghost old_out = out@;
        out.push(b64_char_byte(a >> 2));
        out.push(b64_char_byte(((a & 3) << 4) | (b >> 4)));
        out.push(b64_char_byte(((b & 15) << 2) | (c >> 6)));
        out.push(b64_char_byte(c & 63));
        proof {
            let s = input@.skip(i as int);
            assert(s[0] == a && s[1] == b && s[2] == c);
            assert(s.skip(3) =~= input@.skip(i as int + 3));
            assert(out@ =~= old_out + seq![
                b64_char_of(enc0(a) as int),
                b64_char_of(enc1(a, b) as int),
                b64_char_of(enc2(b, c) as int),
                b64_char_of(enc3(c) as int),
            ]);
        }
        i = i + 3;
    }
    if n - i == 1 {
        let a = input[i];
        proof {
            lemma_enc_bounds(a, 0, 0);
            assert(input@.skip(i as int)[0] == a);
            assert(((a & 3) << 4) | (0u8 >> 4) == ((a & 3) << 4)) by (bit_vector);
        }
        let ghost old_out = out@;
        out.push(b64_char_byte(a >> 2));
        out.push(b64_char_byte((a & 3) << 4));
        proof {
            assert(out@ =~= old_out + seq![
                b64_char_of(enc0(a) as int),
                b64_char_of(enc1(a, 0) as int),
            ]);
        }
    } else if n - i == 2 {
        let a = input[i];
        let b = input[i + 1];
        proof {
            lemma_enc_bounds(a, b, 0);
            assert(input@.skip(i as int)[0] == a && input@.skip(i as int)[1] == b);
            assert(((b & 15) << 2) | (0u8 >> 6) == ((b & 15) << 2)) by (bit_vector);
        }
        let ghost old_out = out@;
        out.push(b64_char_byte(a >> 2));
        out.push(b64_char_byte(((a & 3) << 4) | (b >> 4)));
        out.push(b64_char_byte((b & 15) << 2));
        proof {
            assert(out@ =~= old_out + seq![
                b64_char_of(enc0(a) as int),
                b64_char_of(enc1(a, b) as int),
                b64_char_of(enc2(b, 0) as int),
            ]);
        }
    }
    proof {
        assert(spec_b64_encode(input@.skip(n as int)) =~= Seq::<u8>::empty());
        assert(out@ =~= spec_b64_encode(input@));
    }
    out
}

/// Decode unpadded base64url text; `None` exactly where the format is
/// broken.
pub fn b64_decode(input: &Vec<u8>) -> (out: Option<Vec<u8>>)
    ensures
        match out {
            Some(v) => spec_b64_decode(input@) == Some(v@),
            None => spec_b64_decode(input@) is None,
        },
{
    let n = input.len();
    let mut out: Vec<u8> = Vec::new();
    let mut i: usize = 0;
    proof {
        assert(input@.skip(0) =~= input@);
        if let Some(rr) = spec_b64_decode(input@) {
            assert(Seq::<u8>::empty() + rr =~= rr);
        }
    }
    while n - i >= 4
        invariant
            n == input@.len(),
            0 <= i <= n,
            spec_b64_decode(input@) == (match spec_b64_decode(input@.skip(i as int)) {
                Some(rest) => Some(out@ + rest),
                None => None::<Seq<u8>>,
            }),
        decreases n - i,
    {
        let ghost s = input@.skip(i as int);
        proof {
            assert(s[0] == input@[i as int] && s[1] == input@[i as int + 1] && s[2] == input@[
                i as int + 2] && s[3] == input@[i as int + 3]);
            assert(s.skip(4) =~= input@.skip(i as int + 4));
        }
        let v0 = match b64_val_byte(input[i]) {
            Some(v) => v,
            None => {
                return None;
            },
        };
        let v1 = match b64_val_byte(input[i + 1]) {
            Some(v) => v,
            None => {
                return None;
            },
        };
        let v2 = match b64_val_byte(input[i + 2]) {
            Some(v) => v,
            None => {
                return None;
            },
        };
        let v3 = match b64_val_byte(input[i + 3]) {
            Some(v) => v,
            None => {
                return None;
            },
        };
        let ghost old_out = out@;
        out.push((v0 << 2) | (v1 >> 4));
        out.push(((v1 & 15) << 4) | (v2 >> 2));
        out.push(((v2 & 3) << 6) | v3);
        proof {
            let g = seq![dec0(v0, v1), dec1(v1, v2), dec2(v2, v3)];
            assert(out@ =~= old_out + g);
            if let Some(rr) = spec_b64_decode(input@.skip(i as int + 4)) {
                assert(old_out + g + rr =~= old_out + (g + rr));
            }
        }
        i = i + 4;
    }
    let rem = n - i;
    if rem == 1 {
        return None;
    }
    if rem == 2 {
        let ghost s = input@.skip(i as int);
        proof {
            assert(s[0] == input@[i as int] && s[1] == input@[i as int + 1]);
        }
        let v0 = match b64_val_byte(input[i]) {
            Some(v) => v,
            None => {
                return None;
            },
        };
        let v1 = match b64_val_byte(input[i + 1]) {
            Some(v) => v,
            None => {
                return None;
            },
        };
        let ghost old_out = out@;
        out.push((v0 << 2) | (v1 >> 4));
        proof {
            assert(out@ =~= old_out + seq![dec0(v0, v1)]);
        }
    } else if rem == 3 {
        let ghost s = input@.skip(i as int);
        proof {
            assert(s[0] == input@[i as int] && s[1] == input@[i as int + 1] && s[2] == input@[
                i as int + 2]);
        }
        let v0 = match b64_val_byte(input[i]) {
            Some(v) => v,
            None => {
                return None;
            },
        };
        let v1 = match b64_val_byte(input[i + 1]) {
            Some(v) => v,
            None => {
                return None;
            },
        };
        let v2 = match b64_val_byte(input[i + 2]) {
            Some(v) => v,
            None => {
                return None;
            },
        };
        let ghost old_out = out@;
        out.push((v0 << 2) | (v1 >> 4));
        out.push(((v1 & 15) << 4) | (v2 >> 2));
        proof {
            assert(out@ =~= old_out + seq![dec0(v0, v1), dec1(v1, v2)]);
        }
    }
    proof {
        if i == n {
            assert(spec_b64_decode(input@.skip(n as int)) == Some(Seq::<u8>::empty()));
            assert(out@ + Seq::<u8>::empty() =~= out@);
        }
    }
    Some(out)
}

} // verus!
