//! Byte-level text rules: whitespace trimming and UTF-8 well-formedness.
//!
//! Usernames and chat messages travel as raw payload bytes, so the rules on
//! them are stated on byte sequences.  Trimming removes ASCII whitespace from
//! both ends; UTF-8 well-formedness follows the standard table of leading and
//! continuation byte ranges, with overlong encodings, surrogates and
//! codepoints past U+10FFFF excluded.

use vstd::prelude::*;

verus! {

/// The ASCII whitespace bytes: tab, line feed, form feed, carriage return,
/// space.
pub open spec fn is_ws(b: u8) -> bool {
    b == 0x09 || b == 0x0A || b == 0x0C || b == 0x0D || b == 0x20
}

/// A continuation byte of a multi-byte UTF-8 sequence.
pub open spec fn is_cont(b: u8) -> bool {
    0x80 <= b && b < 0xC0
}

/// How many bytes a well-formed UTF-8 sequence starting with `b` occupies,
/// or 0 when no well-formed sequence starts with `b`.
pub open spec fn utf8_width(b: u8) -> int {
    if b < 0x80 {
        1
    } else if 0xC2 <= b && b < 0xE0 {
        2
    } else if 0xE0 <= b && b < 0xF0 {
        3
    } else if 0xF0 <= b && b < 0xF5 {
        4
    } else {
        0
    }
}

/// The admissible range of the second byte, given the first.  The narrowed
/// ranges after 0xE0, 0xED, 0xF0 and 0xF4 exclude overlong encodings,
/// surrogates and codepoints past U+10FFFF.
pub open spec fn utf8_second_ok(b0: u8, b1: u8) -> bool {
    if b0 == 0xE0 {
        0xA0 <= b1 && b1 < 0xC0
    } else if b0 == 0xED {
        0x80 <= b1 && b1 < 0xA0
    } else if b0 == 0xF0 {
        0x90 <= b1 && b1 < 0xC0
    } else if b0 == 0xF4 {
        0x80 <= b1 && b1 < 0x90
    } else {
        is_cont(b1)
    }
}

/// Well-formed UTF-8: a sequence of well-formed encoded scalar values.
pub open spec fn is_utf8(s: Seq<u8>) -> bool
    decreases s.len(),
{
    if s.len() == 0 {
        true
    } else {
        let w = utf8_width(s[0]);
        &&& w >= 1
        &&& s.len() >= w
        &&& (w >= 2 ==> utf8_second_ok(s[0], s[1]))
        &&& (w >= 3 ==> is_cont(s[2]))
        &&& (w >= 4 ==> is_cont(s[3]))
        &&& is_utf8(s.skip(w))
    }
}

/// Decides UTF-8 well-formedness of a byte slice.
pub fn check_utf8(s: &[u8]) -> (r: bool)
    ensures
        r == is_utf8(s@),
        r == vstd::utf8::valid_utf8(s@),
{
    proof {
        lemma_is_utf8_matches_scalar_form(s@);
    }
    let n = s.len();
    let mut i: usize = 0;
    proof {
        assert(s@.skip(0) =~= s@);
    }
    while i < n
        invariant
            i <= n,
            n == s@.len(),
            is_utf8(s@) == is_utf8(s@.skip(i as int)),
            is_utf8(s@) == vstd::utf8::valid_utf8(s@),
        decreases n - i,
    {
        let ghost tail = s@.skip(i as int);
        let b0 = s[i];
        let w: usize = if b0 < 0x80 {
            1
        } else if 0xC2 <= b0 && b0 < 0xE0 {
            2
        } else if 0xE0 <= b0 && b0 < 0xF0 {
            3
        } else if 0xF0 <= b0 && b0 < 0xF5 {
            4
        } else {
            return false;
        };
        if n - i < w {
            return false;
        }
        if w >= 2 {
            let b1 = s[i + 1];
            let ok = if b0 == 0xE0 {
                0xA0 <= b1 && b1 < 0xC0
            } else if b0 == 0xED {
                0x80 <= b1 && b1 < 0xA0
            } else if b0 == 0xF0 {
                0x90 <= b1 && b1 < 0xC0
            } else if b0 == 0xF4 {
                0x80 <= b1 && b1 < 0x90
            } else {
                0x80 <= b1 && b1 < 0xC0
            };
            if !ok {
                return false;
            }
        }
        if w >= 3 && !(0x80 <= s[i + 2] && s[i + 2] < 0xC0) {
            return false;
        }
        if w >= 4 && !(0x80 <= s[i + 3] && s[i + 3] < 0xC0) {
            return false;
        }
        proof {
            assert(tail.skip(w as int) =~= s@.skip(i + w));
        }
        i = i + w;
    }
    proof {
        assert(s@.skip(i as int) =~= Seq::<u8>::empty());
    }
    true
}

/// The byte-range table above agrees with vstd's scalar-value definition of
/// UTF-8 well-formedness: a sequence passes the table exactly when it is a
/// well-formed encoding of Unicode scalars, with overlong encodings,
/// surrogates and codepoints past U+10FFFF refused.
pub proof fn lemma_is_utf8_matches_scalar_form(s: Seq<u8>)
    ensures
        is_utf8(s) == vstd::utf8::valid_utf8(s),
    decreases s.len(),
{
    if s.len() == 0 {
        return ;
    }
    let b0 = s[0];
    let w = utf8_width(b0);
    if b0 < 0x80 {
        assert(vstd::utf8::decode_first_codepoint(s) == b0) by {
            assert(b0 < 0x80 ==> ((b0 & 0x7F) as u32) == b0) by (bit_vector);
        }
        assert(vstd::utf8::valid_first_scalar(s));
        assert(vstd::utf8::pop_first_scalar(s) =~= s.skip(1));
        lemma_is_utf8_matches_scalar_form(s.skip(1));
    } else if 0xC0 <= b0 && b0 < 0xE0 {
        // vstd reads any 0xC0..=0xDF as a two-byte leading byte; the table
        // starts at 0xC2 because 0xC0 and 0xC1 can only open an overlong
        // encoding.
        if s.len() >= 2 && is_cont(s[1]) {
            let b1 = s[1];
            let cp = vstd::utf8::codepoint_width_2(b0, b1);
            assert(cp == ((((b0 & 0x1F) as u32) << 6) | ((b1 & 0x3F) as u32)));
            assert(0xC0 <= b0 < 0xE0 && 0x80 <= b1 < 0xC0 ==> (((((b0 & 0x1F) as u32) << 6) | ((b1
                & 0x3F) as u32)) >= 0x80 <==> b0 >= 0xC2)) by (bit_vector);
            assert(0xC0 <= b0 < 0xE0 && 0x80 <= b1 < 0xC0 ==> ((((b0 & 0x1F) as u32) << 6) | ((b1
                & 0x3F) as u32)) < 0x800) by (bit_vector);
            if b0 >= 0xC2 {
                assert(vstd::utf8::valid_first_scalar(s));
                assert(vstd::utf8::length_of_first_scalar(s) == 2);
                assert(vstd::utf8::pop_first_scalar(s) =~= s.skip(2));
                lemma_is_utf8_matches_scalar_form(s.skip(2));
            } else {
                assert(!vstd::utf8::valid_first_scalar(s));
                assert(!is_utf8(s));
            }
        } else {
            assert(!vstd::utf8::valid_leading_and_continuation_bytes_first_codepoint(s));
            assert(!is_utf8(s));
        }
    } else if 0xE0 <= b0 && b0 < 0xF0 {
        if s.len() >= 3 && is_cont(s[1]) && is_cont(s[2]) {
            let b1 = s[1];
            let b2 = s[2];
            let cp = vstd::utf8::codepoint_width_3(b0, b1, b2);
            assert(cp == ((((b0 & 0x0F) as u32) << 12) | (((b1 & 0x3F) as u32) << 6) | ((b2
                & 0x3F) as u32)));
            assert(0xE0 <= b0 < 0xF0 && 0x80 <= b1 < 0xC0 && 0x80 <= b2 < 0xC0 ==> ((((((b0
                & 0x0F) as u32) << 12) | (((b1 & 0x3F) as u32) << 6) | ((b2 & 0x3F) as u32))
                >= 0x800) <==> (b0 != 0xE0 || b1 >= 0xA0))) by (bit_vector);
            assert(0xE0 <= b0 < 0xF0 && 0x80 <= b1 < 0xC0 && 0x80 <= b2 < 0xC0 ==> ((0xD800
                <= (((((b0 & 0x0F) as u32) << 12) | (((b1 & 0x3F) as u32) << 6) | ((b2
                & 0x3F) as u32))) <= 0xDFFF) <==> (b0 == 0xED && b1 >= 0xA0))) by (bit_vector);
            assert(0xE0 <= b0 < 0xF0 ==> ((((b0 & 0x0F) as u32) << 12) | (((b1 & 0x3F) as u32)
                << 6) | ((b2 & 0x3F) as u32)) <= 0xFFFF) by (bit_vector);
            if utf8_second_ok(b0, b1) {
                assert(vstd::utf8::valid_first_scalar(s));
                assert(vstd::utf8::length_of_first_scalar(s) == 3);
                assert(vstd::utf8::pop_first_scalar(s) =~= s.skip(3));
                lemma_is_utf8_matches_scalar_form(s.skip(3));
            } else {
                assert(!vstd::utf8::valid_first_scalar(s));
                assert(!is_utf8(s));
            }
        } else {
            assert(!vstd::utf8::valid_leading_and_continuation_bytes_first_codepoint(s));
            assert(!is_utf8(s));
        }
    } else if 0xF0 <= b0 && b0 < 0xF8 {
        // vstd reads any 0xF0..=0xF7 as a four-byte leading byte; the table
        // stops after 0xF4 because larger openers only reach codepoints past
        // U+10FFFF.
        if s.len() >= 4 && is_cont(s[1]) && is_cont(s[2]) && is_cont(s[3]) {
            let b1 = s[1];
            let b2 = s[2];
            let b3 = s[3];
            let cp = vstd::utf8::codepoint_width_4(b0, b1, b2, b3);
            assert(cp == ((((b0 & 0x07) as u32) << 18) | (((b1 & 0x3F) as u32) << 12) | (((b2
                & 0x3F) as u32) << 6) | ((b3 & 0x3F) as u32)));
            assert(0xF0 <= b0 < 0xF8 && 0x80 <= b1 < 0xC0 && 0x80 <= b2 < 0xC0 && 0x80 <= b3
                < 0xC0 ==> ((0x10000 <= (((((b0 & 0x07) as u32) << 18) | (((b1 & 0x3F) as u32)
                << 12) | (((b2 & 0x3F) as u32) << 6) | ((b3 & 0x3F) as u32))) <= 0x10FFFF) <==> ((
            b0 == 0xF0 && b1 >= 0x90) || b0 == 0xF1 || b0 == 0xF2 || b0 == 0xF3 || (b0 == 0xF4
                && b1 < 0x90)))) by (bit_vector);
            if b0 < 0xF5 && utf8_second_ok(b0, b1) {
                assert(vstd::utf8::valid_first_scalar(s));
                assert(vstd::utf8::length_of_first_scalar(s) == 4);
                assert(vstd::utf8::pop_first_scalar(s) =~= s.skip(4));
                lemma_is_utf8_matches_scalar_form(s.skip(4));
            } else {
                assert(!vstd::utf8::valid_first_scalar(s));
                assert(!is_utf8(s));
            }
        } else {
            assert(!vstd::utf8::valid_leading_and_continuation_bytes_first_codepoint(s));
            assert(!is_utf8(s));
        }
    } else {
        // 0x80..=0xBF is a stray continuation byte, 0xF8..=0xFF opens
        // nothing: no leading-byte pattern matches.
        assert(!vstd::utf8::valid_leading_and_continuation_bytes_first_codepoint(s));
        assert(!is_utf8(s));
    }
}

/// The sequence with leading whitespace removed.
pub open spec fn trim_front(s: Seq<u8>) -> Seq<u8>
    decreases s.len(),
{
    if s.len() > 0 && is_ws(s[0]) {
        trim_front(s.skip(1))
    } else {
        s
    }
}

/// The sequence with trailing whitespace removed.
pub open spec fn trim_back(s: Seq<u8>) -> Seq<u8>
    decreases s.len(),
{
    if s.len() > 0 && is_ws(s.last()) {
        trim_back(s.drop_last())
    } else {
        s
    }
}

/// The sequence with whitespace removed from both ends.
pub open spec fn spec_trim(s: Seq<u8>) -> Seq<u8> {
    trim_back(trim_front(s))
}

/// Removes ASCII whitespace from both ends of the bytes.
pub fn trim_bytes(s: &[u8]) -> (r: Vec<u8>)
    ensures
        r@ == spec_trim(s@),
{
    let n = s.len();
    let mut lo: usize = 0;
    proof {
        assert(s@.skip(0) =~= s@);
    }
    while lo < n && (s[lo] == 0x09 || s[lo] == 0x0A || s[lo] == 0x0C || s[lo] == 0x0D || s[lo]
        == 0x20)
        invariant
            lo <= n,
            n == s@.len(),
            trim_front(s@) == trim_front(s@.skip(lo as int)),
        decreases n - lo,
    {
        proof {
            assert(s@.skip(lo as int).skip(1) =~= s@.skip(lo + 1));
        }
        lo = lo + 1;
    }
    let ghost t = s@.skip(lo as int);
    proof {
        assert(trim_front(s@) == t);
    }

    let mut hi: usize = n;
    proof {
        assert(t.take(n - lo) =~= t);
    }
    while hi > lo && (s[hi - 1] == 0x09 || s[hi - 1] == 0x0A || s[hi - 1] == 0x0C || s[hi - 1]
        == 0x0D || s[hi - 1] == 0x20)
        invariant
            lo <= hi <= n,
            n == s@.len(),
            trim_front(s@) == t,
            t == s@.skip(lo as int),
            trim_back(t) == trim_back(t.take(hi - lo)),
        decreases hi,
    {
        proof {
            let part = t.take(hi - lo);
            assert(part.last() == s@[hi - 1]);
            assert(part.drop_last() =~= t.take(hi - 1 - lo));
        }
        hi = hi - 1;
    }
    proof {
        let part = t.take(hi - lo);
        if hi > lo {
            assert(part.last() == s@[hi - 1]);
        }
        assert(trim_back(part) == part);
    }

    let r = vstd::slice::slice_to_vec(vstd::slice::slice_subrange(s, lo, hi));
    proof {
        assert(r@ =~= t.take(hi - lo));
    }
    r
}

} // verus!
