//! Decimal integer parsing with the rules of `str::parse::<i32>` / `::<u32>`:
//! an optional sign (`+` for both, `-` for signed only), then one or more
//! ASCII digits, nothing else, and the value must fit.

use vstd::prelude::*;

verus! {

pub open spec fn is_digit(c: char) -> bool {
    '0' <= c && c <= '9'
}

pub open spec fn digit_val(c: char) -> int {
    (c as int) - ('0' as int)
}

pub open spec fn all_digits(s: Seq<char>) -> bool {
    forall|i: int| 0 <= i < s.len() ==> is_digit(#[trigger] s[i])
}

/// Value of a digit string, most significant first.
pub open spec fn digits_value(s: Seq<char>) -> int
    decreases s.len(),
{
    if s.len() == 0 {
        0
    } else {
        digits_value(s.drop_last()) * 10 + digit_val(s.last())
    }
}

/// `s.parse::<i32>()`, as an option.
pub open spec fn parse_i32_spec(s: Seq<char>) -> Option<i32> {
    let neg = s.len() > 0 && s[0] == '-';
    let body = if s.len() > 0 && (s[0] == '-' || s[0] == '+') { s.drop_first() } else { s };
    let v = if neg { -digits_value(body) } else { digits_value(body) };
    if body.len() > 0 && all_digits(body) && i32::MIN <= v <= i32::MAX {
        Some(v as i32)
    } else {
        None
    }
}

/// `s.parse::<u32>()`, as an option.
pub open spec fn parse_u32_spec(s: Seq<char>) -> Option<u32> {
    let body = if s.len() > 0 && s[0] == '+' { s.drop_first() } else { s };
    let v = digits_value(body);
    if body.len() > 0 && all_digits(body) && v <= u32::MAX {
        Some(v as u32)
    } else {
        None
    }
}

proof fn lemma_digits_nonneg(s: Seq<char>)
    requires
        all_digits(s),
    ensures
        digits_value(s) >= 0,
    decreases s.len(),
{
    if s.len() > 0 {
        lemma_digits_nonneg(s.drop_last());
    }
}

proof fn lemma_digits_step(s: Seq<char>, i: int)
    requires
        0 <= i < s.len(),
    ensures
        digits_value(s.subrange(0, i + 1)) == digits_value(s.subrange(0, i)) * 10 + digit_val(s[i]),
{
    assert(s.subrange(0, i + 1).drop_last() =~= s.subrange(0, i));
}

/// Scans `s[from..]` as digits. `Some(value)` only when all are digits, at
/// least one is present, and the value is at most `limit`.
fn scan_digits(s: &[char], from: usize, limit: u64) -> (r: Option<u64>)
    requires
        from <= s@.len(),
        limit <= 0x1_0000_0000,
    ensures
        ({
            let body = s@.subrange(from as int, s@.len() as int);
            match r {
                Some(v) => body.len() > 0 && all_digits(body) && v == digits_value(body) && v
                    <= limit,
                None => !(body.len() > 0 && all_digits(body) && digits_value(body) <= limit),
            }
        }),
{
    let ghost body = s@.subrange(from as int, s@.len() as int);
    if from >= s.len() {
        return None;
    }
    let mut acc: u64 = 0;
    let mut i: usize = from;
    while i < s.len()
        invariant
            from < s@.len(),
            from <= i <= s@.len(),
            body == s@.subrange(from as int, s@.len() as int),
            all_digits(s@.subrange(from as int, i as int)),
            acc == digits_value(s@.subrange(from as int, i as int)),
            acc <= limit,
            limit <= 0x1_0000_0000,
        decreases s@.len() - i,
    {
        let c = s[i];
        if !('0' <= c && c <= '9') {
            assert(body[i - from] == c);
            return None;
        }
        let d = (c as u32 - '0' as u32) as u64;
        proof {
            lemma_digits_step(body, (i - from) as int);
            assert(body.subrange(0, (i - from) as int) =~= s@.subrange(from as int, i as int));
            assert(body.subrange(0, (i - from + 1) as int) =~= s@.subrange(from as int, i + 1));
        }
        let next = acc * 10 + d;
        if next > limit {
            proof {
                // every further digit only grows the value
                lemma_prefix_bound(body, (i - from + 1) as int);
            }
            return None;
        }
        acc = next;
        i = i + 1;
        assert(all_digits(s@.subrange(from as int, i as int)));
    }
    assert(s@.subrange(from as int, i as int) =~= body);
    Some(acc)
}

/// A longer all-digit string is worth at least its prefix.
proof fn lemma_prefix_bound(s: Seq<char>, k: int)
    requires
        0 <= k <= s.len(),
    ensures
        all_digits(s) ==> digits_value(s) >= digits_value(s.subrange(0, k)),
    decreases s.len() - k,
{
    if k < s.len() && all_digits(s) {
        lemma_prefix_bound(s, k + 1);
        lemma_digits_step(s, k);
        assert(all_digits(s.subrange(0, k)));
        lemma_digits_nonneg(s.subrange(0, k));
        assert(digit_val(s[k]) >= 0);
    }
    if k == s.len() {
        assert(s.subrange(0, k) =~= s);
    }
}

/// `str::parse::<i32>` on characters.
pub fn parse_i32(s: &[char]) -> (r: Option<i32>)
    ensures
        r == parse_i32_spec(s@),
{
    let neg = s.len() > 0 && s[0] == '-';
    let signed = s.len() > 0 && (s[0] == '-' || s[0] == '+');
    let from: usize = if signed { 1 } else { 0 };
    let limit: u64 = if neg { 0x8000_0000 } else { 0x7fff_ffff };
    let ghost body = s@.subrange(from as int, s@.len() as int);
    assert(body =~= (if signed { s@.drop_first() } else { s@ }));
    match scan_digits(s, from, limit) {
        Some(v) => {
            if neg {
                let r: i64 = 0 - (v as i64);
                Some(r as i32)
            } else {
                Some(v as i32)
            }
        },
        None => {
            proof {
                if body.len() > 0 && all_digits(body) {
                    lemma_digits_nonneg(body);
                }
            }
            None
        },
    }
}

/// `str::parse::<u32>` on characters.
pub fn parse_u32(s: &[char]) -> (r: Option<u32>)
    ensures
        r == parse_u32_spec(s@),
{
    let signed = s.len() > 0 && s[0] == '+';
    let from: usize = if signed { 1 } else { 0 };
    let ghost body = s@.subrange(from as int, s@.len() as int);
    assert(body =~= (if signed { s@.drop_first() } else { s@ }));
    match scan_digits(s, from, 0xffff_ffff) {
        Some(v) => Some(v as u32),
        None => None,
    }
}

} // verus!
