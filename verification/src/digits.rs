use vstd::prelude::*;

verus! {

/// The character for a single decimal digit value.
pub open spec fn digit_char(d: nat) -> char
    recommends
        d < 10,
{
    if d == 0 {
        '0'
    } else if d == 1 {
        '1'
    } else if d == 2 {
        '2'
    } else if d == 3 {
        '3'
    } else if d == 4 {
        '4'
    } else if d == 5 {
        '5'
    } else if d == 6 {
        '6'
    } else if d == 7 {
        '7'
    } else if d == 8 {
        '8'
    } else {
        '9'
    }
}

/// The canonical decimal rendering of a number: no sign, no leading zeros
/// (except for the single digit of zero itself).
pub open spec fn dec_rep(n: nat) -> Seq<char>
    decreases n,
{
    if n < 10 {
        seq![digit_char(n)]
    } else {
        dec_rep(n / 10).push(digit_char(n % 10))
    }
}

/// Whether a character is a decimal digit.
pub open spec fn is_digit(c: char) -> bool {
    '0' <= c && c <= '9'
}

/// The numeric value of a decimal digit character.
pub open spec fn digit_val(c: char) -> nat
    recommends
        is_digit(c),
{
    (c as nat - '0' as nat) as nat
}

/// Whether a character sequence is a plain decimal numeral: non-empty and
/// made of digits only.
pub open spec fn is_dec_seq(s: Seq<char>) -> bool {
    s.len() > 0 && forall|i: int| 0 <= i < s.len() ==> is_digit(#[trigger] s[i])
}

/// The number a digit sequence denotes, most significant digit first.
pub open spec fn dec_val(s: Seq<char>) -> nat
    decreases s.len(),
{
    if s.len() == 0 {
        0
    } else {
        dec_val(s.drop_last()) * 10 + digit_val(s.last())
    }
}

/// Renders one decimal digit as a string.
fn digit_to_str(d: u8) -> (s: &'static str)
    requires
        d < 10,
    ensures
        s@ =~= seq![digit_char(d as nat)],
        s.is_ascii(),
{
    let digits = "0123456789";
    proof {
        reveal_strlit("0123456789");
    }
    digits.substring_ascii(d as usize, d as usize + 1)
}

/// Renders a number in decimal, without sign or leading zeros.
pub fn u64_to_string(n: u64) -> (s: String)
    ensures
        s@ == dec_rep(n as nat),
    decreases n,
{
    if n < 10 {
        let d = digit_to_str(n as u8);
        String::from_str(d)
    } else {
        let mut s = u64_to_string(n / 10);
        let d = digit_to_str((n % 10) as u8);
        s.append(d);
        proof {
            assert(s@ =~= dec_rep((n / 10) as nat).push(digit_char((n % 10) as nat)));
        }
        s
    }
}

/// Renders a 16-bit number in decimal.
pub fn u16_to_string(n: u16) -> (s: String)
    ensures
        s@ == dec_rep(n as nat),
{
    u64_to_string(n as u64)
}

/// Returns the value of a digit character, or `None` for any other character.
fn char_digit_val(c: char) -> (r: Option<u8>)
    ensures
        match r {
            Some(d) => is_digit(c) && d as nat == digit_val(c) && d < 10,
            None => !is_digit(c),
        },
{
    match c {
        '0' => Some(0),
        '1' => Some(1),
        '2' => Some(2),
        '3' => Some(3),
        '4' => Some(4),
        '5' => Some(5),
        '6' => Some(6),
        '7' => Some(7),
        '8' => Some(8),
        '9' => Some(9),
        _ => None,
    }
}

/// Parses a plain decimal numeral. Returns `None` when the string is empty,
/// holds any non-digit character, or denotes a value above `u32::MAX`.
pub fn parse_decimal(s: &str) -> (r: Option<u32>)
    ensures
        match r {
            Some(v) => is_dec_seq(s@) && v as nat == dec_val(s@),
            None => !is_dec_seq(s@) || dec_val(s@) > u32::MAX,
        },
{
    let len = s.unicode_len();
    if len == 0 {
        return None;
    }
    let mut value: u64 = 0;
    let mut i: usize = 0;
    while i < len
        invariant
            0 < len == s@.len(),
            0 <= i <= len,
            is_dec_seq(s@.subrange(0, i as int)) || i == 0,
            value as nat == dec_val(s@.subrange(0, i as int)),
            value <= u32::MAX,
        decreases len - i,
    {
        let c = s.get_char(i);
        match char_digit_val(c) {
            Some(d) => {
                let next = value * 10 + d as u64;
                proof {
                    assert(s@.subrange(0, i + 1).drop_last() =~= s@.subrange(0, i as int));
                    assert(s@.subrange(0, i + 1).last() == s@[i as int]);
                }
                if next > u32::MAX as u64 {
                    proof {
                        lemma_dec_val_monotonic(s@, i + 1);
                    }
                    return None;
                }
                value = next;
            },
            None => {
                return None;
            },
        }
        i += 1;
    }
    proof {
        assert(s@.subrange(0, len as int) =~= s@);
    }
    Some(value as u32)
}

/// A numeral's value never shrinks when more digits follow: the value of a
/// prefix bounds the value of the whole from below.
proof fn lemma_dec_val_monotonic(s: Seq<char>, i: int)
    requires
        0 <= i <= s.len(),
    ensures
        dec_val(s.subrange(0, i)) <= dec_val(s),
    decreases s.len() - i,
{
    if i == s.len() {
        assert(s.subrange(0, i) =~= s);
    } else {
        lemma_dec_val_monotonic(s, i + 1);
        assert(s.subrange(0, i + 1).drop_last() =~= s.subrange(0, i));
        assert(dec_val(s.subrange(0, i + 1)) == dec_val(s.subrange(0, i)) * 10 + digit_val(
            s.subrange(0, i + 1).last(),
        ));
    }
}

/// Parses a decimal numeral that must fit in sixteen bits.
pub fn parse_u16(s: &str) -> (r: Option<u16>)
    ensures
        match r {
            Some(v) => is_dec_seq(s@) && v as nat == dec_val(s@),
            None => !is_dec_seq(s@) || dec_val(s@) > u16::MAX,
        },
{
    match parse_decimal(s) {
        Some(v) => {
            if v <= u16::MAX as u32 {
                Some(v as u16)
            } else {
                None
            }
        },
        None => None,
    }
}

/// Parses a decimal numeral that must fit in eight bits.
pub fn parse_u8(s: &str) -> (r: Option<u8>)
    ensures
        match r {
            Some(v) => is_dec_seq(s@) && v as nat == dec_val(s@),
            None => !is_dec_seq(s@) || dec_val(s@) > u8::MAX,
        },
{
    match parse_decimal(s) {
        Some(v) => {
            if v <= u8::MAX as u32 {
                Some(v as u8)
            } else {
                None
            }
        },
        None => None,
    }
}

} // verus!
