use vstd::prelude::*;
use vstd::string::*;

verus! {

pub open spec fn is_digit(c: char) -> bool {
    '0' <= c <= '9'
}

pub open spec fn all_digits(s: Seq<char>) -> bool {
    forall|i: int| 0 <= i < s.len() ==> is_digit(#[trigger] s[i])
}

/// The number that a string of decimal digits spells.
pub open spec fn digits_value(s: Seq<char>) -> int
    decreases s.len(),
{
    if s.len() == 0 {
        0
    } else {
        digits_value(s.drop_last()) * 10 + (s.last() as int - '0' as int)
    }
}

/// The value of a non-empty run of decimal digits, if it is at most `limit`.
pub open spec fn decimal_within(s: Seq<char>, limit: int) -> Option<int> {
    if s.len() > 0 && all_digits(s) && digits_value(s) <= limit {
        Some(digits_value(s))
    } else {
        None
    }
}

/// What `str::parse` gives for an unsigned type whose largest value is `max`: an
/// optional `+` and then decimal digits.
pub open spec fn unsigned_value(s: Seq<char>, max: int) -> Option<int> {
    if s.len() > 0 && s[0] == '+' {
        decimal_within(s.drop_first(), max)
    } else {
        decimal_within(s, max)
    }
}

/// What `str::parse` gives for a signed type whose largest value is `max` (and whose
/// smallest is `-max - 1`): an optional sign and then decimal digits.
pub open spec fn signed_value(s: Seq<char>, max: int) -> Option<int> {
    if s.len() > 0 && s[0] == '-' {
        match decimal_within(s.drop_first(), max + 1) {
            Some(v) => Some(-v),
            None => None,
        }
    } else {
        unsigned_value(s, max)
    }
}

/// What `str::parse::<bool>` gives.
pub open spec fn bool_value(s: Seq<char>) -> Option<bool> {
    if s == seq!['t', 'r', 'u', 'e'] {
        Some(true)
    } else if s == seq!['f', 'a', 'l', 's', 'e'] {
        Some(false)
    } else {
        None
    }
}

/// Reads the digits of `s` from `start` on, as long as their value stays within `limit`.
pub fn digits_within(s: &str, start: usize, limit: u64) -> (r: Option<u64>)
    requires
        start <= s@.len(),
    ensures
        match r {
            Some(v) => v <= limit && decimal_within(s@.subrange(start as int, s@.len() as int), limit as int) == Some(v as int),
            None => decimal_within(s@.subrange(start as int, s@.len() as int), limit as int) is None,
        },
{
    let n = s.unicode_len();
    let ghost t = s@.subrange(start as int, n as int);
    let mut i: usize = start;
    let mut v: u64 = 0;
    let mut over = false;
    assert(t.subrange(0, 0) =~= Seq::<char>::empty());
    while i < n
        invariant
            n == s@.len(),
            start <= i <= n,
            t == s@.subrange(start as int, n as int),
            all_digits(t.subrange(0, i - start)),
            !over ==> v <= limit,
            !over ==> v as int == digits_value(t.subrange(0, i - start)),
            over ==> digits_value(t.subrange(0, i - start)) > limit,
            digits_value(t.subrange(0, i - start)) >= 0,
        decreases n - i,
    {
        let c = s.get_char(i);
        let ghost pre = t.subrange(0, i - start);
        let ghost next = t.subrange(0, i - start + 1);
        assert(next.drop_last() =~= pre);
        assert(next.last() == c);
        if !('0' <= c && c <= '9') {
            assert(!all_digits(t)) by {
                assert(t[i - start] == c);
            }
            return None;
        }
        let d = (c as u32 - '0' as u32) as u64;
        if !over {
            if d > limit || v > (limit - d) / 10 {
                over = true;
                assert(digits_value(next) > limit) by (nonlinear_arith)
                    requires
                        digits_value(next) == v * 10 + d,
                        d > limit || v > (limit - d) / 10,
                        0 <= v,
                        0 <= d <= 9,
                ;
            } else {
                assert(v * 10 + d <= limit) by (nonlinear_arith)
                    requires
                        v <= (limit - d) / 10,
                        0 <= d,
                ;
                v = v * 10 + d;
            }
        } else {
            assert(digits_value(next) > limit) by (nonlinear_arith)
                requires
                    digits_value(next) == digits_value(pre) * 10 + d,
                    digits_value(pre) > limit,
                    limit >= 0,
                    0 <= d <= 9,
            ;
        }
        assert(all_digits(next)) by {
            assert forall|j: int| 0 <= j < next.len() implies is_digit(#[trigger] next[j]) by {
                if j < pre.len() {
                    assert(next[j] == pre[j]);
                }
            }
        }
        i = i + 1;
    }
    assert(t.subrange(0, n - start) =~= t);
    if i == start || over {
        None
    } else {
        Some(v)
    }
}

/// Where the digits start once an optional leading `+` is passed over.
fn after_plus(s: &str) -> (r: usize)
    ensures
        r <= s@.len(),
        r == (if s@.len() > 0 && s@[0] == '+' { 1int } else { 0int }),
{
    if s.unicode_len() > 0 && s.get_char(0) == '+' {
        1
    } else {
        0
    }
}

/// Reads an unsigned number no larger than `max`, as `str::parse` does.
pub fn parse_unsigned(s: &str, max: u64) -> (r: Option<u64>)
    ensures
        match r {
            Some(v) => v <= max && unsigned_value(s@, max as int) == Some(v as int),
            None => unsigned_value(s@, max as int) is None,
        },
{
    let start = after_plus(s);
    if start == 1 {
        assert(s@.subrange(1, s@.len() as int) =~= s@.drop_first());
    } else {
        assert(s@.subrange(0, s@.len() as int) =~= s@);
    }
    digits_within(s, start, max)
}

/// Reads a signed number within `-max - 1 ..= max`, as `str::parse` does; the result
/// is given as a sign (true for negative) and a magnitude.
pub fn parse_signed(s: &str, max: u64) -> (r: Option<(bool, u64)>)
    requires
        max < u64::MAX,
    ensures
        match r {
            Some((neg, m)) => m <= max + 1 && (!neg ==> m <= max) && signed_value(s@, max as int) == Some(
                if neg { -(m as int) } else { m as int },
            ),
            None => signed_value(s@, max as int) is None,
        },
{
    if s.unicode_len() > 0 && s.get_char(0) == '-' {
        assert(s@.subrange(1, s@.len() as int) =~= s@.drop_first());
        match digits_within(s, 1, max + 1) {
            Some(m) => Some((true, m)),
            None => None,
        }
    } else {
        match parse_unsigned(s, max) {
            Some(m) => Some((false, m)),
            None => None,
        }
    }
}

pub fn parse_u64(s: &str) -> (r: Option<u64>)
    ensures
        match r {
            Some(v) => unsigned_value(s@, u64::MAX as int) == Some(v as int),
            None => unsigned_value(s@, u64::MAX as int) is None,
        },
{
    parse_unsigned(s, u64::MAX)
}

pub fn parse_u32(s: &str) -> (r: Option<u32>)
    ensures
        match r {
            Some(v) => unsigned_value(s@, u32::MAX as int) == Some(v as int),
            None => unsigned_value(s@, u32::MAX as int) is None,
        },
{
    match parse_unsigned(s, u32::MAX as u64) {
        Some(v) => Some(v as u32),
        None => None,
    }
}

pub fn parse_usize(s: &str) -> (r: Option<usize>)
    ensures
        match r {
            Some(v) => unsigned_value(s@, usize::MAX as int) == Some(v as int),
            None => unsigned_value(s@, usize::MAX as int) is None,
        },
{
    match parse_unsigned(s, usize::MAX as u64) {
        Some(v) => Some(v as usize),
        None => None,
    }
}

pub fn parse_i64(s: &str) -> (r: Option<i64>)
    ensures
        match r {
            Some(v) => signed_value(s@, i64::MAX as int) == Some(v as int),
            None => signed_value(s@, i64::MAX as int) is None,
        },
{
    match parse_signed(s, i64::MAX as u64) {
        Some((neg, m)) => {
            if neg {
                if m == i64::MAX as u64 + 1 {
                    Some(i64::MIN)
                } else {
                    Some(-(m as i64))
                }
            } else {
                Some(m as i64)
            }
        },
        None => None,
    }
}

pub fn parse_i32(s: &str) -> (r: Option<i32>)
    ensures
        match r {
            Some(v) => signed_value(s@, i32::MAX as int) == Some(v as int),
            None => signed_value(s@, i32::MAX as int) is None,
        },
{
    match parse_signed(s, i32::MAX as u64) {
        Some((neg, m)) => {
            if neg {
                Some((0 - (m as i64)) as i32)
            } else {
                Some(m as i32)
            }
        },
        None => None,
    }
}

pub fn parse_bool(s: &str) -> (r: Option<bool>)
    ensures
        r == bool_value(s@),
{
    proof {
        reveal_strlit("true");
        reveal_strlit("false");
        assert("true"@ =~= seq!['t', 'r', 'u', 'e']);
        assert("false"@ =~= seq!['f', 'a', 'l', 's', 'e']);
    }
    let n = s.unicode_len();
    if n == 4 && crate::text::starts_with(s, "true") {
        assert(s@ =~= s@.subrange(0, 4));
        Some(true)
    } else if n == 5 && crate::text::starts_with(s, "false") {
        assert(s@ =~= s@.subrange(0, 5));
        Some(false)
    } else {
        assert(s@ != seq!['t', 'r', 'u', 'e']) by {
            if s@ == seq!['t', 'r', 'u', 'e'] {
                assert(s@.subrange(0, 4) =~= "true"@);
            }
        }
        assert(s@ != seq!['f', 'a', 'l', 's', 'e']) by {
            if s@ == seq!['f', 'a', 'l', 's', 'e'] {
                assert(s@.subrange(0, 5) =~= "false"@);
            }
        }
        None
    }
}

} // verus!
