//! Verified base64url codec (no padding), used to frame the two signed
//! segments of a bearer token. Input and output are carried as character
//! sequences; every input character must be a byte value (below 256).

use vstd::prelude::*;

use crate::strutil::push_char;

verus! {

/// The base64url alphabet character for a value in `0 ..= 63`.
pub open spec fn spec_b64_char(v: int) -> char {
    if v < 26 {
        ((65 + v) as u8) as char  // 'A' ..= 'Z'
    } else if v < 52 {
        ((97 + v - 26) as u8) as char  // 'a' ..= 'z'
    } else if v < 62 {
        ((48 + v - 52) as u8) as char  // '0' ..= '9'
    } else if v == 62 {
        '-'
    } else {
        '_'
    }
}

/// The value of a base64url alphabet character, or -1 outside the alphabet.
pub open spec fn spec_b64_val(c: char) -> int {
    if 'A' <= c <= 'Z' {
        c as int - 65
    } else if 'a' <= c <= 'z' {
        c as int - 97 + 26
    } else if '0' <= c <= '9' {
        c as int - 48 + 52
    } else if c == '-' {
        62
    } else if c == '_' {
        63
    } else {
        -1
    }
}

/// Whether a character is a byte value.
pub open spec fn spec_is_byte(c: char) -> bool {
    0 <= (c as int) < 256
}

/// Whether every character of `s` is a byte value.
pub open spec fn spec_bytes_ok(s: Seq<char>) -> bool {
    forall|i: int| 0 <= i < s.len() ==> spec_is_byte(#[trigger] s[i])
}

/// base64url encoding without padding, three bytes to four characters.
pub open spec fn spec_b64_encode(s: Seq<char>) -> Seq<char>
    decreases s.len(),
{
    if s.len() == 0 {
        Seq::empty()
    } else if s.len() == 1 {
        let b0 = s[0] as int;
        seq![spec_b64_char(b0 / 4), spec_b64_char((b0 % 4) * 16)]
    } else if s.len() == 2 {
        let b0 = s[0] as int;
        let b1 = s[1] as int;
        seq![
            spec_b64_char(b0 / 4),
            spec_b64_char((b0 % 4) * 16 + b1 / 16),
            spec_b64_char((b1 % 16) * 4),
        ]
    } else {
        let b0 = s[0] as int;
        let b1 = s[1] as int;
        let b2 = s[2] as int;
        seq![
            spec_b64_char(b0 / 4),
            spec_b64_char((b0 % 4) * 16 + b1 / 16),
            spec_b64_char((b1 % 16) * 4 + b2 / 64),
            spec_b64_char(b2 % 64),
        ] + spec_b64_encode(s.skip(3))
    }
}

/// Strict base64url decoding: rejects characters outside the alphabet,
/// impossible lengths, and non-zero leftover bits in a final partial group,
/// so that exactly the canonical encodings are accepted.
pub open spec fn spec_b64_decode(t: Seq<char>) -> Option<Seq<char>>
    decreases t.len(),
{
    if t.len() == 0 {
        Option::Some(Seq::empty())
    } else if t.len() == 1 {
        Option::None
    } else if t.len() == 2 {
        let v0 = spec_b64_val(t[0]);
        let v1 = spec_b64_val(t[1]);
        if v0 >= 0 && v1 >= 0 && v1 % 16 == 0 {
            Option::Some(seq![((v0 * 4 + v1 / 16) as u8) as char])
        } else {
            Option::None
        }
    } else if t.len() == 3 {
        let v0 = spec_b64_val(t[0]);
        let v1 = spec_b64_val(t[1]);
        let v2 = spec_b64_val(t[2]);
        if v0 >= 0 && v1 >= 0 && v2 >= 0 && v2 % 4 == 0 {
            Option::Some(
                seq![
                    ((v0 * 4 + v1 / 16) as u8) as char,
                    (((v1 % 16) * 16 + v2 / 4) as u8) as char,
                ],
            )
        } else {
            Option::None
        }
    } else {
        let v0 = spec_b64_val(t[0]);
        let v1 = spec_b64_val(t[1]);
        let v2 = spec_b64_val(t[2]);
        let v3 = spec_b64_val(t[3]);
        if v0 >= 0 && v1 >= 0 && v2 >= 0 && v3 >= 0 {
            match spec_b64_decode(t.skip(4)) {
                Option::Some(rest) => Option::Some(
                    seq![
                        ((v0 * 4 + v1 / 16) as u8) as char,
                        (((v1 % 16) * 16 + v2 / 4) as u8) as char,
                        (((v2 % 4) * 64 + v3) as u8) as char,
                    ] + rest,
                ),
                Option::None => Option::None,
            }
        } else {
            Option::None
        }
    }
}

/// Alphabet characters decode to the value they encode.
pub proof fn lemma_b64_char_val(v: int)
    requires
        0 <= v < 64,
    ensures
        spec_b64_val(spec_b64_char(v)) == v,
{
}

/// A character inside the alphabet is the encoding of its value.
pub proof fn lemma_b64_val_char(c: char)
    requires
        spec_b64_val(c) >= 0,
    ensures
        spec_b64_char(spec_b64_val(c)) == c,
{
}

/// Every character of an encoding is in the base64url alphabet.
pub proof fn lemma_b64_encode_alphabet(s: Seq<char>)
    requires
        spec_bytes_ok(s),
    ensures
        forall|i: int|
            0 <= i < spec_b64_encode(s).len() ==> spec_b64_val(
                #[trigger] spec_b64_encode(s)[i],
            ) >= 0,
    decreases s.len(),
{
    let t = spec_b64_encode(s);
    if s.len() == 0 {
    } else if s.len() == 1 {
        assert(spec_is_byte(s[0]));
        lemma_b64_group1(s[0] as int);
        lemma_b64_char_val(s[0] as int / 4);
        lemma_b64_char_val((s[0] as int % 4) * 16);
    } else if s.len() == 2 {
        assert(spec_is_byte(s[0]) && spec_is_byte(s[1]));
        lemma_b64_group2(s[0] as int, s[1] as int);
        lemma_b64_char_val(s[0] as int / 4);
        lemma_b64_char_val((s[0] as int % 4) * 16 + s[1] as int / 16);
        lemma_b64_char_val((s[1] as int % 16) * 4);
    } else {
        assert(spec_is_byte(s[0]) && spec_is_byte(s[1]) && spec_is_byte(s[2]));
        lemma_b64_group3(s[0] as int, s[1] as int, s[2] as int);
        lemma_b64_char_val(s[0] as int / 4);
        lemma_b64_char_val((s[0] as int % 4) * 16 + s[1] as int / 16);
        lemma_b64_char_val((s[1] as int % 16) * 4 + s[2] as int / 64);
        lemma_b64_char_val(s[2] as int % 64);
        assert(spec_bytes_ok(s.skip(3))) by {
            assert(forall|i: int| 0 <= i < s.skip(3).len() ==> #[trigger] s.skip(3)[i] == s[i + 3]);
        }
        lemma_b64_encode_alphabet(s.skip(3));
        assert(forall|i: int|
            4 <= i < t.len() ==> t[i] == #[trigger] spec_b64_encode(s.skip(3))[i - 4]);
    }
}

/// Decoding inverts encoding on byte-valued inputs.
#[verifier::rlimit(60)]
pub proof fn lemma_b64_round_trip(s: Seq<char>)
    requires
        spec_bytes_ok(s),
    ensures
        spec_b64_decode(spec_b64_encode(s)) == Option::Some(s),
    decreases s.len(),
{
    if s.len() == 0 {
        assert(spec_b64_encode(s) =~= Seq::<char>::empty());
    } else if s.len() == 1 {
        let b0 = s[0] as int;
        assert(spec_is_byte(s[0]));
        lemma_b64_group1(b0);
        let t = spec_b64_encode(s);
        assert(spec_b64_decode(t) == Option::Some(seq![s[0]]));
        assert(seq![s[0]] =~= s);
    } else if s.len() == 2 {
        let b0 = s[0] as int;
        let b1 = s[1] as int;
        assert(spec_is_byte(s[0]) && spec_is_byte(s[1]));
        lemma_b64_group2(b0, b1);
        assert(spec_b64_decode(spec_b64_encode(s)) == Option::Some(seq![s[0], s[1]]));
        assert(seq![s[0], s[1]] =~= s);
    } else {
        let b0 = s[0] as int;
        let b1 = s[1] as int;
        let b2 = s[2] as int;
        assert(spec_is_byte(s[0]) && spec_is_byte(s[1]) && spec_is_byte(s[2]));
        lemma_b64_group3(b0, b1, b2);
        assert(spec_bytes_ok(s.skip(3))) by {
            assert(forall|i: int| 0 <= i < s.skip(3).len() ==> #[trigger] s.skip(3)[i] == s[i + 3]);
        }
        lemma_b64_round_trip(s.skip(3));
        let t = spec_b64_encode(s);
        assert(t.len() >= 4);
        assert(t.skip(4) =~= spec_b64_encode(s.skip(3)));
        assert(seq![s[0], s[1], s[2]] + s.skip(3) =~= s);
    }
}

/// A successful strict decode pins the input: it is the canonical encoding
/// of the decoded bytes.
#[verifier::rlimit(60)]
pub proof fn lemma_b64_decode_canonical(t: Seq<char>, s: Seq<char>)
    requires
        spec_b64_decode(t) == Option::Some(s),
    ensures
        spec_bytes_ok(s),
        t == spec_b64_encode(s),
    decreases t.len(),
{
    if t.len() == 0 {
        assert(s =~= Seq::<char>::empty());
        assert(t =~= spec_b64_encode(s));
    } else if t.len() == 2 {
        let v0 = spec_b64_val(t[0]);
        let v1 = spec_b64_val(t[1]);
        lemma_b64_val_char(t[0]);
        lemma_b64_val_char(t[1]);
        lemma_b64_degroup1(v0, v1);
        assert(spec_bytes_ok(s)) by {
            assert(s.len() == 1 && 0 <= (s[0] as int) < 256);
        }
        assert(t =~= spec_b64_encode(s));
    } else if t.len() == 3 {
        let v0 = spec_b64_val(t[0]);
        let v1 = spec_b64_val(t[1]);
        let v2 = spec_b64_val(t[2]);
        lemma_b64_val_char(t[0]);
        lemma_b64_val_char(t[1]);
        lemma_b64_val_char(t[2]);
        lemma_b64_degroup2(v0, v1, v2);
        assert(spec_bytes_ok(s)) by {
            assert(s.len() == 2 && 0 <= (s[0] as int) < 256 && 0 <= (s[1] as int) < 256);
        }
        assert(t =~= spec_b64_encode(s));
    } else {
        let v0 = spec_b64_val(t[0]);
        let v1 = spec_b64_val(t[1]);
        let v2 = spec_b64_val(t[2]);
        let v3 = spec_b64_val(t[3]);
        let rest = spec_b64_decode(t.skip(4))->Some_0;
        lemma_b64_decode_canonical(t.skip(4), rest);
        lemma_b64_val_char(t[0]);
        lemma_b64_val_char(t[1]);
        lemma_b64_val_char(t[2]);
        lemma_b64_val_char(t[3]);
        lemma_b64_degroup3(v0, v1, v2, v3);
        assert(spec_bytes_ok(s)) by {
            assert(forall|i: int| 3 <= i < s.len() ==> s[i] == #[trigger] rest[i - 3]);
            assert(0 <= (s[0] as int) < 256 && 0 <= (s[1] as int) < 256 && 0 <= (s[2] as int)
                < 256);
        }
        assert(s.skip(3) =~= rest);
        assert(s.len() >= 3);
        if s.len() == 3 {
            assert(rest =~= Seq::<char>::empty());
            assert(t.skip(4) =~= Seq::<char>::empty());
        }
        assert(t =~= spec_b64_encode(s));
    }
}

/// Bit arithmetic of a one-byte group, written with division and remainder.
proof fn lemma_b64_group1(b0: int)
    by (nonlinear_arith)
    requires
        0 <= b0 < 256,
    ensures
        0 <= b0 / 4 < 64,
        0 <= (b0 % 4) * 16 < 64,
        ((b0 % 4) * 16) % 16 == 0,
        (b0 / 4) * 4 + ((b0 % 4) * 16) / 16 == b0,
{
}

/// Bit arithmetic of a two-byte group.
proof fn lemma_b64_group2(b0: int, b1: int)
    by (nonlinear_arith)
    requires
        0 <= b0 < 256,
        0 <= b1 < 256,
    ensures
        0 <= b0 / 4 < 64,
        0 <= (b0 % 4) * 16 + b1 / 16 < 64,
        0 <= (b1 % 16) * 4 < 64,
        ((b1 % 16) * 4) % 4 == 0,
        (b0 / 4) * 4 + ((b0 % 4) * 16 + b1 / 16) / 16 == b0,
        (((b0 % 4) * 16 + b1 / 16) % 16) * 16 + ((b1 % 16) * 4) / 4 == b1,
{
}

/// Bit arithmetic of a full three-byte group.
proof fn lemma_b64_group3(b0: int, b1: int, b2: int)
    by (nonlinear_arith)
    requires
        0 <= b0 < 256,
        0 <= b1 < 256,
        0 <= b2 < 256,
    ensures
        0 <= b0 / 4 < 64,
        0 <= (b0 % 4) * 16 + b1 / 16 < 64,
        0 <= (b1 % 16) * 4 + b2 / 64 < 64,
        0 <= b2 % 64 < 64,
        (b0 / 4) * 4 + ((b0 % 4) * 16 + b1 / 16) / 16 == b0,
        (((b0 % 4) * 16 + b1 / 16) % 16) * 16 + ((b1 % 16) * 4 + b2 / 64) / 4 == b1,
        (((b1 % 16) * 4 + b2 / 64) % 4) * 64 + b2 % 64 == b2,
{
}

/// A valid final two-character group is the encoding of the byte it holds.
proof fn lemma_b64_degroup1(v0: int, v1: int)
    by (nonlinear_arith)
    requires
        0 <= v0 < 64,
        0 <= v1 < 64,
        v1 % 16 == 0,
    ensures
        0 <= v0 * 4 + v1 / 16 < 256,
        (v0 * 4 + v1 / 16) / 4 == v0,
        ((v0 * 4 + v1 / 16) % 4) * 16 == v1,
{
}

/// A valid final three-character group is the encoding of its two bytes.
proof fn lemma_b64_degroup2(v0: int, v1: int, v2: int)
    by (nonlinear_arith)
    requires
        0 <= v0 < 64,
        0 <= v1 < 64,
        0 <= v2 < 64,
        v2 % 4 == 0,
    ensures
        0 <= v0 * 4 + v1 / 16 < 256,
        0 <= (v1 % 16) * 16 + v2 / 4 < 256,
        (v0 * 4 + v1 / 16) / 4 == v0,
        ((v0 * 4 + v1 / 16) % 4) * 16 + ((v1 % 16) * 16 + v2 / 4) / 16 == v1,
        (((v1 % 16) * 16 + v2 / 4) % 16) * 4 == v2,
{
}

/// A valid full group is the encoding of its three bytes.
proof fn lemma_b64_degroup3(v0: int, v1: int, v2: int, v3: int)
    by (nonlinear_arith)
    requires
        0 <= v0 < 64,
        0 <= v1 < 64,
        0 <= v2 < 64,
        0 <= v3 < 64,
    ensures
        0 <= v0 * 4 + v1 / 16 < 256,
        0 <= (v1 % 16) * 16 + v2 / 4 < 256,
        0 <= (v2 % 4) * 64 + v3 < 256,
        (v0 * 4 + v1 / 16) / 4 == v0,
        ((v0 * 4 + v1 / 16) % 4) * 16 + ((v1 % 16) * 16 + v2 / 4) / 16 == v1,
        (((v1 % 16) * 16 + v2 / 4) % 16) * 4 + ((v2 % 4) * 64 + v3) / 64 == v2,
        ((v2 % 4) * 64 + v3) % 64 == v3,
{
}

/// The numeric value of a base64url character, or -1 outside the alphabet.
fn b64_val(c: char) -> (v: i32)
    ensures
        v as int == spec_b64_val(c),
{
    if 'A' <= c && c <= 'Z' {
        (c as u32 as i32) - 65
    } else if 'a' <= c && c <= 'z' {
        (c as u32 as i32) - 97 + 26
    } else if '0' <= c && c <= '9' {
        (c as u32 as i32) - 48 + 52
    } else if c == '-' {
        62
    } else if c == '_' {
        63
    } else {
        -1
    }
}

/// The alphabet character of a value in `0 ..= 63`.
fn b64_char(v: u8) -> (c: char)
    requires
        v < 64,
    ensures
        c == spec_b64_char(v as int),
{
    if v < 26 {
        (65 + v) as char
    } else if v < 52 {
        (97 + v - 26) as char
    } else if v < 62 {
        (48 + v - 52) as char
    } else if v == 62 {
        '-'
    } else {
        '_'
    }
}

/// Encode a byte-valued text in base64url without padding.
pub fn b64_encode(s: &str) -> (r: String)
    requires
        spec_bytes_ok(s@),
    ensures
        r@ == spec_b64_encode(s@),
{
    let len = s.unicode_len();
    let mut out = String::new();
    let mut i: usize = 0;
    proof {
        assert(s@.skip(0) =~= s@);
    }
    while len - i >= 3
        invariant
            i <= len,
            len == s@.len(),
            spec_bytes_ok(s@),
            spec_b64_encode(s@) =~= out@ + spec_b64_encode(s@.skip(i as int)),
        decreases len - i,
    {
        proof {
            assert(spec_is_byte(s@[i as int]));
            assert(spec_is_byte(s@[i + 1]));
            assert(spec_is_byte(s@[i + 2]));
        }
        let b0: u8 = s.get_char(i) as u8;
        let b1: u8 = s.get_char(i + 1) as u8;
        let b2: u8 = s.get_char(i + 2) as u8;
        proof {
            lemma_b64_group3(b0 as int, b1 as int, b2 as int);
            let rem = s@.skip(i as int);
            assert(rem[0] == s@[i as int] && rem[1] == s@[i + 1] && rem[2] == s@[i + 2]);
            assert(rem.skip(3) =~= s@.skip(i + 3));
        }
        push_char(&mut out, b64_char(b0 / 4));
        push_char(&mut out, b64_char((b0 % 4) * 16 + b1 / 16));
        push_char(&mut out, b64_char((b1 % 16) * 4 + b2 / 64));
        push_char(&mut out, b64_char(b2 % 64));
        proof {
            assert(spec_b64_encode(s@) =~= out@ + spec_b64_encode(s@.skip(i + 3)));
        }
        i += 3;
    }
    if len - i == 1 {
        proof {
            assert(spec_is_byte(s@[i as int]));
        }
        let b0: u8 = s.get_char(i) as u8;
        proof {
            lemma_b64_group1(b0 as int);
            assert(s@.skip(i as int)[0] == s@[i as int]);
        }
        push_char(&mut out, b64_char(b0 / 4));
        push_char(&mut out, b64_char((b0 % 4) * 16));
        proof {
            assert(spec_b64_encode(s@.skip(i as int)) =~= seq![
                spec_b64_char(b0 as int / 4),
                spec_b64_char((b0 as int % 4) * 16),
            ]);
            assert(out@ =~= spec_b64_encode(s@));
        }
    } else if len - i == 2 {
        proof {
            assert(spec_is_byte(s@[i as int]));
            assert(spec_is_byte(s@[i + 1]));
        }
        let b0: u8 = s.get_char(i) as u8;
        let b1: u8 = s.get_char(i + 1) as u8;
        proof {
            lemma_b64_group2(b0 as int, b1 as int);
            assert(s@.skip(i as int)[0] == s@[i as int]);
            assert(s@.skip(i as int)[1] == s@[i + 1]);
        }
        push_char(&mut out, b64_char(b0 / 4));
        push_char(&mut out, b64_char((b0 % 4) * 16 + b1 / 16));
        push_char(&mut out, b64_char((b1 % 16) * 4));
        proof {
            assert(out@ =~= spec_b64_encode(s@));
        }
    } else {
        proof {
            assert(s@.skip(i as int) =~= Seq::<char>::empty());
            assert(out@ =~= spec_b64_encode(s@));
        }
    }
    out
}

/// Decode base64url text strictly; accepts exactly the canonical encodings.
pub fn b64_decode(t: &str) -> (r: Option<String>)
    ensures
        r matches Some(s) ==> spec_b64_decode(t@) == Some(s@),
        r is None ==> spec_b64_decode(t@) is None,
{
    let len = t.unicode_len();
    let mut out = String::new();
    let mut i: usize = 0;
    proof {
        assert(t@.skip(0) =~= t@);
        if spec_b64_decode(t@) is Some {
            assert(Seq::<char>::empty() + spec_b64_decode(t@)->Some_0 =~= spec_b64_decode(
                t@,
            )->Some_0);
        }
    }
    while len - i >= 4
        invariant
            i <= len,
            len == t@.len(),
            spec_b64_decode(t@) == (match spec_b64_decode(t@.skip(i as int)) {
                Option::Some(rest) => Option::Some(out@ + rest),
                Option::None => Option::None::<Seq<char>>,
            }),
        decreases len - i,
    {
        let v0 = b64_val(t.get_char(i));
        let v1 = b64_val(t.get_char(i + 1));
        let v2 = b64_val(t.get_char(i + 2));
        let v3 = b64_val(t.get_char(i + 3));
        proof {
            let rem = t@.skip(i as int);
            assert(rem[0] == t@[i as int] && rem[1] == t@[i + 1] && rem[2] == t@[i + 2] && rem[3]
                == t@[i + 3]);
            assert(rem.skip(4) =~= t@.skip(i + 4));
        }
        if v0 < 0 || v1 < 0 || v2 < 0 || v3 < 0 {
            return None;
        }
        proof {
            lemma_b64_degroup3(v0 as int, v1 as int, v2 as int, v3 as int);
        }
        let ghost out_old = out@;
        push_char(&mut out, ((v0 * 4 + v1 / 16) as u8) as char);
        push_char(&mut out, (((v1 % 16) * 16 + v2 / 4) as u8) as char);
        push_char(&mut out, (((v2 % 4) * 64 + v3) as u8) as char);
        proof {
            let group = seq![
                ((v0 as int * 4 + v1 as int / 16) as u8) as char,
                (((v1 as int % 16) * 16 + v2 as int / 4) as u8) as char,
                (((v2 as int % 4) * 64 + v3 as int) as u8) as char,
            ];
            assert(out@ =~= out_old + group);
            match spec_b64_decode(t@.skip(i + 4)) {
                Option::Some(rest) => {
                    assert(spec_b64_decode(t@.skip(i as int)) == Option::Some(group + rest));
                    assert(out_old + (group + rest) =~= (out_old + group) + rest);
                },
                Option::None => {
                    assert(spec_b64_decode(t@.skip(i as int)) is None);
                },
            }
        }
        i += 4;
    }
    if len - i == 0 {
        proof {
            assert(t@.skip(i as int) =~= Seq::<char>::empty());
            assert(out@ + Seq::<char>::empty() =~= out@);
        }
        return Some(out);
    }
    if len - i == 1 {
        return None;
    }
    proof {
        let rem = t@.skip(i as int);
        assert(rem[0] == t@[i as int]);
        assert(rem[1] == t@[i + 1]);
        if rem.len() == 3 {
            assert(rem[2] == t@[i + 2]);
        }
    }
    let v0 = b64_val(t.get_char(i));
    let v1 = b64_val(t.get_char(i + 1));
    if v0 < 0 || v1 < 0 {
        return None;
    }
    if len - i == 2 {
        if v1 % 16 != 0 {
            return None;
        }
        proof {
            lemma_b64_degroup1(v0 as int, v1 as int);
        }
        push_char(&mut out, ((v0 * 4 + v1 / 16) as u8) as char);
        proof {
            let b = seq![((v0 as int * 4 + v1 as int / 16) as u8) as char];
            assert(spec_b64_decode(t@.skip(i as int)) == Option::Some(b));
            assert(out@ =~= out@.drop_last() + b);
        }
        return Some(out);
    }
    // Exactly three characters remain.
    let v2 = b64_val(t.get_char(i + 2));
    if v2 < 0 || v2 % 4 != 0 {
        return None;
    }
    proof {
        lemma_b64_degroup2(v0 as int, v1 as int, v2 as int);
    }
    let ghost out_old = out@;
    push_char(&mut out, ((v0 * 4 + v1 / 16) as u8) as char);
    push_char(&mut out, (((v1 % 16) * 16 + v2 / 4) as u8) as char);
    proof {
        let b = seq![
            ((v0 as int * 4 + v1 as int / 16) as u8) as char,
            (((v1 as int % 16) * 16 + v2 as int / 4) as u8) as char,
        ];
        assert(spec_b64_decode(t@.skip(i as int)) == Option::Some(b));
        assert(out@ =~= out_old + b);
    }
    Some(out)
}

} // verus!
