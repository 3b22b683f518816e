use vstd::prelude::*;
use vstd::string::StrSliceExecFns;

verus! {

// ---------------------------------------------------------------------------
// Decimal digits, over bytes (the version marker file) and over characters
// (numeric cells of the country CSV).
// ---------------------------------------------------------------------------

/// True of an ASCII decimal digit byte.
pub open spec fn is_digit_byte(b: u8) -> bool {
    0x30 <= b <= 0x39
}

pub open spec fn digit_byte_val(b: u8) -> nat {
    (b - 0x30) as nat
}

pub open spec fn all_digit_bytes(s: Seq<u8>) -> bool {
    forall|i: int| 0 <= i < s.len() ==> is_digit_byte(s[i])
}

/// Value of a digit string, most significant digit first.
pub open spec fn dec_val_bytes(s: Seq<u8>) -> nat
    decreases s.len(),
{
    if s.len() == 0 {
        0
    } else {
        dec_val_bytes(s.drop_last()) * 10 + digit_byte_val(s.last())
    }
}

/// What the bytes of a marker file mean: a number, iff they are one or
/// more decimal digits after at most one leading plus sign, the value
/// fitting in a `u64` — the grammar of `str::parse::<u64>`.
pub open spec fn parse_u64_spec(s: Seq<u8>) -> Option<u64> {
    let m = if s.len() > 0 && s[0] == 0x2b {
        s.skip(1)
    } else {
        s
    };
    if m.len() > 0 && all_digit_bytes(m) && dec_val_bytes(m) <= u64::MAX {
        Some(dec_val_bytes(m) as u64)
    } else {
        None
    }
}

proof fn lemma_dec_val_bytes_step(s: Seq<u8>, start: int, i: int)
    requires
        0 <= start <= i < s.len(),
    ensures
        dec_val_bytes(s.subrange(start, i + 1)) == dec_val_bytes(s.subrange(start, i)) * 10
            + digit_byte_val(s[i]),
{
    assert(s.subrange(start, i + 1).drop_last() =~= s.subrange(start, i));
    assert(s.subrange(start, i + 1).last() == s[i]);
}

proof fn lemma_dec_val_bytes_prefix_le(s: Seq<u8>, start: int, i: int)
    requires
        0 <= start <= i <= s.len(),
        all_digit_bytes(s.skip(start)),
    ensures
        dec_val_bytes(s.subrange(start, i)) <= dec_val_bytes(s.skip(start)),
    decreases s.len() - i,
{
    if i == s.len() {
        assert(s.subrange(start, i) =~= s.skip(start));
    } else {
        assert(is_digit_byte(s[i])) by {
            assert(s.skip(start)[i - start] == s[i]);
        }
        lemma_dec_val_bytes_step(s, start, i);
        lemma_dec_val_bytes_prefix_le(s, start, i + 1);
    }
}

/// Reads a decimal `u64` from raw bytes, under the grammar of
/// `parse_u64_spec`: at most one leading plus sign, then digits.
pub fn parse_u64(s: &Vec<u8>) -> (r: Option<u64>)
    ensures
        r == parse_u64_spec(s@),
{
    let start: usize = if s.len() > 0 && s[0] == 0x2b {
        1
    } else {
        0
    };
    let ghost m = if s@.len() > 0 && s@[0] == 0x2b {
        s@.skip(1)
    } else {
        s@
    };
    proof {
        assert(s@.skip(0) =~= s@);
        assert(m =~= s@.skip(start as int));
    }
    if s.len() == start {
        return None;
    }
    let mut acc: u64 = 0;
    let mut i: usize = start;
    while i < s.len()
        invariant
            start <= i <= s@.len(),
            m == s@.skip(start as int),
            m == (if s@.len() > 0 && s@[0] == 0x2b {
                s@.skip(1)
            } else {
                s@
            }),
            all_digit_bytes(s@.subrange(start as int, i as int)),
            acc == dec_val_bytes(s@.subrange(start as int, i as int)),
        decreases s@.len() - i,
    {
        let b = s[i];
        if b < 0x30 || b > 0x39 {
            assert(!is_digit_byte(s@[i as int]));
            assert(s@.skip(start as int)[i - start] == s@[i as int]);
            return None;
        }
        let d: u64 = (b - 0x30) as u64;
        proof {
            lemma_dec_val_bytes_step(s@, start as int, i as int);
        }
        if acc > 1844674407370955161u64 || (acc == 1844674407370955161u64 && d > 5) {
            proof {
                assert(dec_val_bytes(s@.subrange(start as int, i as int + 1)) > u64::MAX);
                if all_digit_bytes(s@.skip(start as int)) {
                    lemma_dec_val_bytes_prefix_le(s@, start as int, i as int + 1);
                }
            }
            return None;
        }
        acc = acc * 10 + d;
        i = i + 1;
    }
    proof {
        assert(s@.subrange(start as int, i as int) =~= s@.skip(start as int));
    }
    Some(acc)
}

/// True of an ASCII decimal digit character.
pub open spec fn is_digit_char(c: char) -> bool {
    48 <= c as int <= 57
}

pub open spec fn digit_char_val(c: char) -> nat {
    (c as int - 48) as nat
}

pub open spec fn all_digit_chars(s: Seq<char>) -> bool {
    forall|i: int| 0 <= i < s.len() ==> is_digit_char(s[i])
}

pub open spec fn dec_val_chars(s: Seq<char>) -> nat
    decreases s.len(),
{
    if s.len() == 0 {
        0
    } else {
        dec_val_chars(s.drop_last()) * 10 + digit_char_val(s.last())
    }
}

/// What a numeric CSV cell means as an `i64`: at most one leading plus
/// or minus sign, then one or more decimal digits, the value in range —
/// the grammar of `str::parse::<i64>`.
pub open spec fn parse_i64_spec(s: Seq<char>) -> Option<i64> {
    if s.len() > 0 && s[0] == '-' {
        let m = s.skip(1);
        if m.len() > 0 && all_digit_chars(m) && dec_val_chars(m) <= 0x8000000000000000 {
            Some((0 - dec_val_chars(m)) as i64)
        } else {
            None
        }
    } else {
        let m = if s.len() > 0 && s[0] == '+' {
            s.skip(1)
        } else {
            s
        };
        if m.len() > 0 && all_digit_chars(m) && dec_val_chars(m) <= i64::MAX {
            Some(dec_val_chars(m) as i64)
        } else {
            None
        }
    }
}

/// What a numeric CSV cell means as an `i32`, with the same grammar.
pub open spec fn parse_i32_spec(s: Seq<char>) -> Option<i32> {
    if s.len() > 0 && s[0] == '-' {
        let m = s.skip(1);
        if m.len() > 0 && all_digit_chars(m) && dec_val_chars(m) <= 0x80000000 {
            Some((0 - dec_val_chars(m)) as i32)
        } else {
            None
        }
    } else {
        let m = if s.len() > 0 && s[0] == '+' {
            s.skip(1)
        } else {
            s
        };
        if m.len() > 0 && all_digit_chars(m) && dec_val_chars(m) <= i32::MAX {
            Some(dec_val_chars(m) as i32)
        } else {
            None
        }
    }
}

proof fn lemma_dec_val_chars_step(s: Seq<char>, start: int, i: int)
    requires
        0 <= start <= i < s.len(),
    ensures
        dec_val_chars(s.subrange(start, i + 1)) == dec_val_chars(s.subrange(start, i)) * 10
            + digit_char_val(s[i]),
{
    assert(s.subrange(start, i + 1).drop_last() =~= s.subrange(start, i));
    assert(s.subrange(start, i + 1).last() == s[i]);
}

proof fn lemma_dec_val_chars_prefix_le(s: Seq<char>, start: int, i: int)
    requires
        0 <= start <= i <= s.len(),
        all_digit_chars(s.skip(start)),
    ensures
        dec_val_chars(s.subrange(start, i)) <= dec_val_chars(s.skip(start)),
    decreases s.len() - i,
{
    if i == s.len() {
        assert(s.subrange(start, i) =~= s.skip(start));
    } else {
        assert(is_digit_char(s[i])) by {
            assert(s.skip(start)[i - start] == s[i]);
        }
        lemma_dec_val_chars_step(s, start, i);
        lemma_dec_val_chars_prefix_le(s, start, i + 1);
    }
}

/// Reads the digits of `s` from position `start` to its end; the result
/// is their value, if they are one or more digits and the value is at
/// most `limit`.
fn parse_digits_str(s: &str, start: usize, limit: u64) -> (r: Option<u64>)
    requires
        start <= s@.len(),
    ensures
        (match r {
            Some(v) => {
                let m = s@.skip(start as int);
                m.len() > 0 && all_digit_chars(m) && dec_val_chars(m) == v && v <= limit
            },
            None => {
                let m = s@.skip(start as int);
                !(m.len() > 0 && all_digit_chars(m) && dec_val_chars(m) <= limit)
            },
        }),
{
    let n = s.unicode_len();
    if start == n {
        return None;
    }
    let q: u64 = limit / 10;
    let rm: u64 = limit % 10;
    let mut acc: u64 = 0;
    let mut i: usize = start;
    while i < n
        invariant
            start <= i <= n,
            n == s@.len(),
            q == limit / 10,
            rm == limit % 10,
            all_digit_chars(s@.subrange(start as int, i as int)),
            acc == dec_val_chars(s@.subrange(start as int, i as int)),
            acc <= limit,
        decreases n - i,
    {
        let c = s.get_char(i);
        let u: u32 = c as u32;
        if u < 48 || u > 57 {
            assert(!is_digit_char(s@[i as int]));
            assert(s@.skip(start as int)[i - start] == s@[i as int]);
            return None;
        }
        let d: u64 = (u - 48) as u64;
        proof {
            lemma_dec_val_chars_step(s@, start as int, i as int);
            assert(limit == 10 * (limit / 10) + limit % 10) by (nonlinear_arith);
        }
        if acc > q || (acc == q && d > rm) {
            proof {
                assert(dec_val_chars(s@.subrange(start as int, i as int + 1)) > limit);
                if all_digit_chars(s@.skip(start as int)) {
                    lemma_dec_val_chars_prefix_le(s@, start as int, i as int + 1);
                }
            }
            return None;
        }
        acc = acc * 10 + d;
        i = i + 1;
    }
    proof {
        assert(s@.subrange(start as int, i as int) =~= s@.skip(start as int));
    }
    Some(acc)
}

/// Reads an `i64` from a string under the grammar of `parse_i64_spec`.
pub fn parse_i64_chars(s: &str) -> (r: Option<i64>)
    ensures
        r == parse_i64_spec(s@),
{
    let n = s.unicode_len();
    if n == 0 {
        return None;
    }
    proof {
        assert(s@.skip(0) =~= s@);
    }
    let c0 = s.get_char(0);
    if c0 == '-' {
        match parse_digits_str(s, 1, 0x8000000000000000u64) {
            Some(m) => {
                if m == 0x8000000000000000u64 {
                    Some(i64::MIN)
                } else {
                    Some(-(m as i64))
                }
            },
            None => None,
        }
    } else {
        let start: usize = if c0 == '+' {
            1
        } else {
            0
        };
        match parse_digits_str(s, start, 0x7fffffffffffffffu64) {
            Some(m) => Some(m as i64),
            None => None,
        }
    }
}

/// Reads an `i32` from a string under the grammar of `parse_i32_spec`.
pub fn parse_i32_chars(s: &str) -> (r: Option<i32>)
    ensures
        r == parse_i32_spec(s@),
{
    let n = s.unicode_len();
    if n == 0 {
        return None;
    }
    proof {
        assert(s@.skip(0) =~= s@);
    }
    let c0 = s.get_char(0);
    if c0 == '-' {
        match parse_digits_str(s, 1, 0x80000000u64) {
            Some(m) => {
                if m == 0x80000000u64 {
                    Some(i32::MIN)
                } else {
                    Some(-(m as i32))
                }
            },
            None => None,
        }
    } else {
        let start: usize = if c0 == '+' {
            1
        } else {
            0
        };
        match parse_digits_str(s, start, 0x7fffffffu64) {
            Some(m) => Some(m as i32),
            None => None,
        }
    }
}

} // verus!
