//! Specification and trusted binding for the textual encoding used by
//! digest display: base64 with the standard alphabet, no `=` padding and
//! no line wrapping.

use vstd::prelude::*;

verus! {

/// The code point that the standard base64 alphabet assigns to a six-bit
/// value: `A`-`Z` for 0-25, `a`-`z` for 26-51, `0`-`9` for 52-61, then
/// `+` and `/`.
pub open spec fn base64_code(v: int) -> int {
    if 0 <= v < 26 {
        65 + v
    } else if 26 <= v < 52 {
        97 + (v - 26)
    } else if 52 <= v < 62 {
        48 + (v - 52)
    } else if v == 62 {
        43
    } else {
        47
    }
}

/// The character of the standard base64 alphabet for a six-bit value.
pub open spec fn base64_char(v: int) -> char {
    base64_code(v) as char
}

/// A character drawn from the standard base64 alphabet.
pub open spec fn is_base64_char(c: char) -> bool {
    exists|v: int| 0 <= v < 64 && c == base64_char(v)
}

/// Unpadded base64 over the standard alphabet: every full three-byte
/// group becomes four characters; a trailing group of one byte becomes
/// two characters and one of two bytes becomes three, with no `=`
/// alignment characters appended.
pub open spec fn base64_of(s: Seq<u8>) -> Seq<char>
    decreases s.len(),
{
    if s.len() == 0 {
        Seq::empty()
    } else if s.len() == 1 {
        let b0 = s[0] as int;
        seq![base64_char(b0 / 4), base64_char((b0 % 4) * 16)]
    } else if s.len() == 2 {
        let b0 = s[0] as int;
        let b1 = s[1] as int;
        seq![
            base64_char(b0 / 4),
            base64_char((b0 % 4) * 16 + b1 / 16),
            base64_char((b1 % 16) * 4),
        ]
    } else {
        let b0 = s[0] as int;
        let b1 = s[1] as int;
        let b2 = s[2] as int;
        seq![
            base64_char(b0 / 4),
            base64_char((b0 % 4) * 16 + b1 / 16),
            base64_char((b1 % 16) * 4 + b2 / 64),
            base64_char(b2 % 64),
        ] + base64_of(s.skip(3))
    }
}

/// Relies on `rustc_serialize`'s `ToBase64` for `[u8]`: configured with the
/// standard character set, `pad: false` and `line_length: None` it emits
/// exactly the unpadded standard-alphabet base64 of the input bytes.
#[verifier::external_body]
pub(crate) fn base64_encode(bytes: &[u8]) -> (r: String)
    ensures
        r@ == base64_of(bytes@),
{
    let config = rustc_serialize::base64::Config {
        char_set: rustc_serialize::base64::CharacterSet::Standard,
        newline: rustc_serialize::base64::Newline::LF,
        pad: false,
        line_length: None,
    };
    rustc_serialize::base64::ToBase64::to_base64(bytes, config)
}

/// The encoding of `n` bytes has `4 * (n / 3)` characters plus two for a
/// trailing byte or three for a trailing pair.
pub proof fn lemma_base64_of_len(s: Seq<u8>)
    ensures
        base64_of(s).len() == 4 * (s.len() / 3) + (
        if s.len() % 3 == 0 {
            0int
        } else if s.len() % 3 == 1 {
            2int
        } else {
            3int
        }),
    decreases s.len(),
{
    if s.len() >= 3 {
        lemma_base64_of_len(s.skip(3));
        assert(s.skip(3).len() == s.len() - 3);
        assert((s.len() - 3) / 3 == s.len() / 3 - 1);
        assert((s.len() - 3) % 3 == s.len() % 3);
    }
}

/// Every character of an encoding is drawn from the standard base64
/// alphabet; in particular no `=` ever appears.
pub proof fn lemma_base64_of_alphabet(s: Seq<u8>)
    ensures
        forall|i: int| 0 <= i < base64_of(s).len() ==> #[trigger] is_base64_char(base64_of(s)[i]),
    decreases s.len(),
{
    if s.len() == 0 {
    } else if s.len() == 1 {
        let b0 = s[0] as int;
        assert(0 <= b0 / 4 < 64);
        assert(0 <= (b0 % 4) * 16 < 64);
        assert(is_base64_char(base64_char(b0 / 4)));
        assert(is_base64_char(base64_char((b0 % 4) * 16)));
    } else if s.len() == 2 {
        let b0 = s[0] as int;
        let b1 = s[1] as int;
        assert(0 <= b0 / 4 < 64);
        assert(0 <= (b0 % 4) * 16 + b1 / 16 < 64);
        assert(0 <= (b1 % 16) * 4 < 64);
        assert(is_base64_char(base64_char(b0 / 4)));
        assert(is_base64_char(base64_char((b0 % 4) * 16 + b1 / 16)));
        assert(is_base64_char(base64_char((b1 % 16) * 4)));
    } else {
        let b0 = s[0] as int;
        let b1 = s[1] as int;
        let b2 = s[2] as int;
        lemma_base64_of_alphabet(s.skip(3));
        assert(0 <= b0 / 4 < 64);
        assert(0 <= (b0 % 4) * 16 + b1 / 16 < 64);
        assert(0 <= (b1 % 16) * 4 + b2 / 64 < 64);
        assert(0 <= b2 % 64 < 64);
        assert(is_base64_char(base64_char(b0 / 4)));
        assert(is_base64_char(base64_char((b0 % 4) * 16 + b1 / 16)));
        assert(is_base64_char(base64_char((b1 % 16) * 4 + b2 / 64)));
        assert(is_base64_char(base64_char(b2 % 64)));
        let head = seq![
            base64_char(b0 / 4),
            base64_char((b0 % 4) * 16 + b1 / 16),
            base64_char((b1 % 16) * 4 + b2 / 64),
            base64_char(b2 % 64),
        ];
        let tail = base64_of(s.skip(3));
        assert forall|i: int| 0 <= i < base64_of(s).len() implies #[trigger] is_base64_char(
            base64_of(s)[i],
        ) by {
            if i < 4 {
                assert(base64_of(s)[i] == head[i]);
            } else {
                assert(base64_of(s)[i] == tail[i - 4]);
            }
        }
    }
}

/// Distinct six-bit values are encoded by distinct characters.
proof fn lemma_base64_char_injective(v1: int, v2: int)
    requires
        0 <= v1 < 64,
        0 <= v2 < 64,
        v1 != v2,
    ensures
        base64_char(v1) != base64_char(v2),
{
}

/// Byte sequences of equal length with different contents have different
/// encodings: the textual form never collides.
pub proof fn lemma_base64_of_injective(s1: Seq<u8>, s2: Seq<u8>)
    requires
        s1.len() == s2.len(),
        s1 != s2,
    ensures
        base64_of(s1) != base64_of(s2),
    decreases s1.len(),
{
    let e1 = base64_of(s1);
    let e2 = base64_of(s2);
    if s1.len() == 0 {
        assert(s1 =~= s2);
    } else if s1.len() == 1 {
        let b = s1[0] as int;
        let c = s2[0] as int;
        assert(b != c) by {
            if b == c {
                assert(s1 =~= s2);
            }
        }
        if b / 4 != c / 4 {
            lemma_base64_char_injective(b / 4, c / 4);
            assert(e1[0] != e2[0]);
        } else {
            assert(b % 4 != c % 4) by {
                assert(b == 4 * (b / 4) + b % 4);
                assert(c == 4 * (c / 4) + c % 4);
            }
            lemma_base64_char_injective((b % 4) * 16, (c % 4) * 16);
            assert(e1[1] != e2[1]);
        }
    } else if s1.len() == 2 {
        let b0 = s1[0] as int;
        let b1 = s1[1] as int;
        let c0 = s2[0] as int;
        let c1 = s2[1] as int;
        assert(b0 != c0 || b1 != c1) by {
            if b0 == c0 && b1 == c1 {
                assert(s1 =~= s2);
            }
        }
        let v1 = (b0 % 4) * 16 + b1 / 16;
        let w1 = (c0 % 4) * 16 + c1 / 16;
        if b0 / 4 != c0 / 4 {
            lemma_base64_char_injective(b0 / 4, c0 / 4);
            assert(e1[0] != e2[0]);
        } else if v1 != w1 {
            lemma_base64_char_injective(v1, w1);
            assert(e1[1] != e2[1]);
        } else {
            assert(b0 == c0) by {
                assert(b0 == 4 * (b0 / 4) + b0 % 4);
                assert(c0 == 4 * (c0 / 4) + c0 % 4);
                assert(b0 % 4 == v1 / 16);
                assert(c0 % 4 == w1 / 16);
            }
            assert(b1 / 16 == c1 / 16);
            assert(b1 % 16 != c1 % 16) by {
                assert(b1 == 16 * (b1 / 16) + b1 % 16);
                assert(c1 == 16 * (c1 / 16) + c1 % 16);
            }
            lemma_base64_char_injective((b1 % 16) * 4, (c1 % 16) * 4);
            assert(e1[2] != e2[2]);
        }
    } else {
        let b0 = s1[0] as int;
        let b1 = s1[1] as int;
        let b2 = s1[2] as int;
        let c0 = s2[0] as int;
        let c1 = s2[1] as int;
        let c2 = s2[2] as int;
        let t1 = base64_of(s1.skip(3));
        let t2 = base64_of(s2.skip(3));
        if b0 == c0 && b1 == c1 && b2 == c2 {
            assert(s1.skip(3) != s2.skip(3)) by {
                if s1.skip(3) == s2.skip(3) {
                    assert forall|i: int| 0 <= i < s1.len() implies s1[i] == s2[i] by {
                        if i >= 3 {
                            assert(s1[i] == s1.skip(3)[i - 3]);
                            assert(s2[i] == s2.skip(3)[i - 3]);
                        }
                    }
                    assert(s1 =~= s2);
                }
            }
            lemma_base64_of_injective(s1.skip(3), s2.skip(3));
            if e1 == e2 {
                lemma_base64_of_len(s1.skip(3));
                lemma_base64_of_len(s2.skip(3));
                assert(t1 =~= t2) by {
                    assert forall|i: int| 0 <= i < t1.len() implies t1[i] == t2[i] by {
                        assert(t1[i] == e1[i + 4]);
                        assert(t2[i] == e2[i + 4]);
                    }
                }
            }
        } else {
            let v1 = (b0 % 4) * 16 + b1 / 16;
            let w1 = (c0 % 4) * 16 + c1 / 16;
            let v2 = (b1 % 16) * 4 + b2 / 64;
            let w2 = (c1 % 16) * 4 + c2 / 64;
            if b0 / 4 != c0 / 4 {
                lemma_base64_char_injective(b0 / 4, c0 / 4);
                assert(e1[0] != e2[0]);
            } else if v1 != w1 {
                lemma_base64_char_injective(v1, w1);
                assert(e1[1] != e2[1]);
            } else if v2 != w2 {
                lemma_base64_char_injective(v2, w2);
                assert(e1[2] != e2[2]);
            } else {
                assert(b0 == c0) by {
                    assert(b0 == 4 * (b0 / 4) + b0 % 4);
                    assert(c0 == 4 * (c0 / 4) + c0 % 4);
                    assert(b0 % 4 == v1 / 16);
                    assert(c0 % 4 == w1 / 16);
                }
                assert(b1 == c1) by {
                    assert(b1 == 16 * (b1 / 16) + b1 % 16);
                    assert(c1 == 16 * (c1 / 16) + c1 % 16);
                    assert(b1 / 16 == v1 % 16);
                    assert(c1 / 16 == w1 % 16);
                    assert(b1 % 16 == v2 / 4);
                    assert(c1 % 16 == w2 / 4);
                }
                assert(b2 % 64 != c2 % 64) by {
                    assert(b2 == 64 * (b2 / 64) + b2 % 64);
                    assert(c2 == 64 * (c2 / 64) + c2 % 64);
                    assert(b2 / 64 == v2 % 4);
                    assert(c2 / 64 == w2 % 4);
                }
                lemma_base64_char_injective(b2 % 64, c2 % 64);
                assert(e1[3] != e2[3]);
            }
        }
    }
}

} // verus!
