use vstd::prelude::*;

verus! {

pub open spec fn is_digit(c: char) -> bool {
    '0' <= c <= '9'
}

/// A non-empty run of ASCII decimal digits.
pub open spec fn all_digits(s: Seq<char>) -> bool {
    s.len() > 0 && forall|i: int| 0 <= i < s.len() ==> is_digit(#[trigger] s[i])
}

/// The number that a run of decimal digits spells.
pub open spec fn digits_value(s: Seq<char>) -> int
    decreases s.len(),
{
    if s.len() == 0 {
        0
    } else {
        digits_value(s.drop_last()) * 10 + (s.last() as int - '0' as int)
    }
}

/// The text without one leading `+`, if it has one.
pub open spec fn without_plus(s: Seq<char>) -> Seq<char> {
    if s.len() > 0 && s[0] == '+' {
        s.drop_first()
    } else {
        s
    }
}

/// The unsigned 32-bit integer that `s` writes in decimal: an optional `+`, then digits only.
pub open spec fn u32_value(s: Seq<char>) -> Option<u32> {
    let d = without_plus(s);
    if all_digits(d) && digits_value(d) <= u32::MAX {
        Some(digits_value(d) as u32)
    } else {
        None
    }
}

/// The signed 32-bit integer that `s` writes in decimal: an optional `+` or `-`, then digits only.
pub open spec fn i32_value(s: Seq<char>) -> Option<i32> {
    if s.len() > 0 && s[0] == '-' {
        let d = s.drop_first();
        if all_digits(d) && digits_value(d) <= 0x8000_0000 {
            Some((-digits_value(d)) as i32)
        } else {
            None
        }
    } else {
        let d = without_plus(s);
        if all_digits(d) && digits_value(d) <= i32::MAX {
            Some(digits_value(d) as i32)
        } else {
            None
        }
    }
}

/// A count as the data holds it: unreadable or missing text counts as zero.
pub open spec fn count_value(s: Seq<char>) -> u32 {
    match u32_value(s) {
        Some(v) => v,
        None => 0,
    }
}

pub proof fn lemma_digits_value_nonneg(s: Seq<char>)
    requires
        forall|i: int| 0 <= i < s.len() ==> is_digit(#[trigger] s[i]),
    ensures
        digits_value(s) >= 0,
    decreases s.len(),
{
    if s.len() > 0 {
        lemma_digits_value_nonneg(s.drop_last());
    }
}

/// Appending digits never makes the number smaller.
pub proof fn lemma_digits_prefix_le(s: Seq<char>, j: int)
    requires
        0 <= j <= s.len(),
        forall|i: int| 0 <= i < s.len() ==> is_digit(#[trigger] s[i]),
    ensures
        digits_value(s.subrange(0, j)) <= digits_value(s),
    decreases s.len() - j,
{
    if j == s.len() {
        assert(s.subrange(0, j) =~= s);
    } else {
        let t = s.drop_last();
        assert(t.subrange(0, j) =~= s.subrange(0, j));
        lemma_digits_prefix_le(t, j);
        lemma_digits_value_nonneg(t);
    }
}

/// Reads the digits of `s` from `start` to its end, provided they spell a number up to `limit`.
fn digits_up_to(s: &str, start: usize, limit: u64) -> (r: Option<u64>)
    requires
        start <= s@.len(),
        limit <= 0x1_0000_0000,
    ensures
        r == (if all_digits(s@.subrange(start as int, s@.len() as int)) && digits_value(
            s@.subrange(start as int, s@.len() as int),
        ) <= limit {
            Some(digits_value(s@.subrange(start as int, s@.len() as int)) as u64)
        } else {
            None::<u64>
        }),
        r matches Some(v) ==> v <= limit,
{
    let n = s.unicode_len();
    let ghost full = s@.subrange(start as int, n as int);
    if start == n {
        return None;
    }
    let mut value: u64 = 0;
    let mut i: usize = start;
    while i < n
        invariant
            n == s@.len(),
            start <= i <= n,
            start < n,
            limit <= 0x1_0000_0000,
            full == s@.subrange(start as int, n as int),
            forall|k: int| start <= k < i ==> is_digit(#[trigger] s@[k]),
            value == digits_value(s@.subrange(start as int, i as int)),
            value <= limit,
        decreases n - i,
    {
        let c = s.get_char(i);
        if !('0' <= c && c <= '9') {
            assert(!is_digit(full[i - start]));
            return None;
        }
        let ghost prefix = s@.subrange(start as int, i as int + 1);
        assert(prefix.drop_last() =~= s@.subrange(start as int, i as int));
        let next = value * 10 + (c as u64 - '0' as u64);
        if next > limit {
            proof {
                if all_digits(full) {
                    assert(full.subrange(0, i - start + 1) =~= prefix);
                    lemma_digits_prefix_le(full, i - start + 1);
                }
            }
            return None;
        }
        value = next;
        i += 1;
    }
    assert(full =~= s@.subrange(start as int, i as int));
    assert forall|k: int| 0 <= k < full.len() implies is_digit(#[trigger] full[k]) by {
        assert(full[k] == s@[start + k]);
    }
    Some(value)
}

/// Parses an unsigned 32-bit decimal integer, as `str::parse::<u32>` accepts it.
pub fn parse_u32(text: &str) -> (r: Option<u32>)
    ensures
        r == u32_value(text@),
{
    let n = text.unicode_len();
    let start: usize = if n > 0 && text.get_char(0) == '+' {
        1
    } else {
        0
    };
    assert(text@.subrange(start as int, n as int) =~= without_plus(text@));
    proof {
        if all_digits(without_plus(text@)) {
            lemma_digits_value_nonneg(without_plus(text@));
        }
    }
    match digits_up_to(text, start, 0xFFFF_FFFF) {
        Some(v) => Some(v as u32),
        None => None,
    }
}

/// Parses a signed 32-bit decimal integer, as `str::parse::<i32>` accepts it.
pub fn parse_i32(text: &str) -> (r: Option<i32>)
    ensures
        r == i32_value(text@),
{
    let n = text.unicode_len();
    if n > 0 && text.get_char(0) == '-' {
        assert(text@.subrange(1, n as int) =~= text@.drop_first());
        proof {
            if all_digits(text@.drop_first()) {
                lemma_digits_value_nonneg(text@.drop_first());
            }
        }
        match digits_up_to(text, 1, 0x8000_0000) {
            Some(v) => Some((0 - v as i64) as i32),
            None => None,
        }
    } else {
        let start: usize = if n > 0 && text.get_char(0) == '+' {
            1
        } else {
            0
        };
        assert(text@.subrange(start as int, n as int) =~= without_plus(text@));
        proof {
            if all_digits(without_plus(text@)) {
                lemma_digits_value_nonneg(without_plus(text@));
            }
        }
        match digits_up_to(text, start, 0x7FFF_FFFF) {
            Some(v) => Some(v as i32),
            None => None,
        }
    }
}

/// Reads a count cell: zero where the text is not an unsigned 32-bit integer.
pub fn coerce_count(text: &str) -> (r: u32)
    ensures
        r == count_value(text@),
{
    match parse_u32(text) {
        Some(v) => v,
        None => 0,
    }
}

} // verus!
