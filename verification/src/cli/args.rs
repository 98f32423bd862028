//! The texts of the command line that take more than a number to read.

use vstd::prelude::*;
use crate::text::{
    chars_of, decimal_text, digit_char, same_ignoring_case, to_upper_code, upper_code,
};

verus! {

/// Why a text is no size.
#[derive(Debug, Clone, Copy, PartialEq, Eq, Structural)]
pub enum SizeError {
    /// The text does not begin with a number that a `u64` holds.
    InvalidNumber,
    /// What follows the number is no unit.
    InvalidSuffix,
    /// The size in bytes is more than a `u64` holds.
    TooLarge,
}

impl SizeError {
    /// What went wrong, in words.
    pub open spec fn message_text(self) -> Seq<char> {
        match self {
            SizeError::InvalidNumber => "Invalid number"@,
            SizeError::InvalidSuffix => "Invalid suffix"@,
            SizeError::TooLarge => "Size too large"@,
        }
    }

    /// What went wrong, in words.
    pub fn message(self) -> (text: &'static str)
        ensures
            text@ == self.message_text(),
    {
        match self {
            SizeError::InvalidNumber => "Invalid number",
            SizeError::InvalidSuffix => "Invalid suffix",
            SizeError::TooLarge => "Size too large",
        }
    }
}

/// `c` is white space, as Unicode defines it.
pub open spec fn is_space(c: char) -> bool {
    let u = c as u32;
    ||| 0x09 <= u <= 0x0D
    ||| u == 0x20
    ||| u == 0x85
    ||| u == 0xA0
    ||| u == 0x1680
    ||| 0x2000 <= u <= 0x200A
    ||| u == 0x2028
    ||| u == 0x2029
    ||| u == 0x202F
    ||| u == 0x205F
    ||| u == 0x3000
}

/// `c` is one of the digits `0` to `9`.
pub open spec fn is_digit(c: char) -> bool {
    '0' <= c <= '9'
}

/// How many characters of white space `s` begins with.
pub open spec fn leading_space(s: Seq<char>) -> nat
    decreases s.len(),
{
    if s.len() > 0 && is_space(s[0]) {
        1 + leading_space(s.drop_first())
    } else {
        0
    }
}

/// How many characters of white space `s` ends with.
pub open spec fn trailing_space(s: Seq<char>) -> nat
    decreases s.len(),
{
    if s.len() > 0 && is_space(s.last()) {
        1 + trailing_space(s.drop_last())
    } else {
        0
    }
}

/// `s` without the white space at its ends.
pub open spec fn trimmed(s: Seq<char>) -> Seq<char> {
    let rest = s.skip(leading_space(s) as int);
    rest.take(rest.len() - trailing_space(rest))
}

/// How many digits `s` begins with.
pub open spec fn digit_run(s: Seq<char>) -> nat
    decreases s.len(),
{
    if s.len() > 0 && is_digit(s[0]) {
        1 + digit_run(s.drop_first())
    } else {
        0
    }
}

/// The number that the digits `s` write in decimal.
pub open spec fn number(s: Seq<char>) -> nat
    decreases s.len(),
{
    if s.len() == 0 {
        0
    } else {
        number(s.drop_last()) * 10 + (s.last() as u32 - '0' as u32) as nat
    }
}

/// The letters `IB`, which may follow the letter of a unit.
pub open spec fn binary_mark() -> Seq<char> {
    seq!['I', 'B']
}

/// How many bytes the unit `suffix` stands for: one without a unit; for
/// `K`, `M`, `G` and `T` the powers of 1024, whatever the case of the letter
/// and whether or not `iB` follows it.
pub open spec fn unit_bytes(suffix: Seq<char>) -> Option<nat> {
    if suffix.len() == 0 {
        Some(1)
    } else if suffix.len() == 1 || (suffix.len() == 3 && same_ignoring_case(
        suffix.skip(1),
        binary_mark(),
    )) {
        let letter = upper_code(suffix[0]);
        if letter == 'K' as u32 {
            Some(1024)
        } else if letter == 'M' as u32 {
            Some(1024 * 1024)
        } else if letter == 'G' as u32 {
            Some(1024 * 1024 * 1024)
        } else if letter == 'T' as u32 {
            Some(1024 * 1024 * 1024 * 1024)
        } else {
            None
        }
    } else {
        None
    }
}

/// The size in bytes that `text` writes: a decimal number, then a unit or
/// none, with white space allowed around both.
pub open spec fn size_of_text(text: Seq<char>) -> Result<u64, SizeError> {
    let t = trimmed(text);
    let run = digit_run(t) as int;
    let value = number(t.take(run));
    if run == 0 || value > u64::MAX {
        Err(SizeError::InvalidNumber)
    } else {
        match unit_bytes(trimmed(t.skip(run))) {
            None => Err(SizeError::InvalidSuffix),
            Some(unit) => if value * unit > u64::MAX {
                Err(SizeError::TooLarge)
            } else {
                Ok((value * unit) as u64)
            },
        }
    }
}

proof fn lemma_leading_space(s: Seq<char>, k: int)
    requires
        0 <= k <= s.len(),
        forall|i: int| 0 <= i < k ==> is_space(#[trigger] s[i]),
        k == s.len() || !is_space(s[k]),
    ensures
        leading_space(s) == k,
    decreases k,
{
    if k > 0 {
        let rest = s.drop_first();
        assert forall|i: int| 0 <= i < k - 1 implies is_space(#[trigger] rest[i]) by {
            assert(rest[i] == s[i + 1]);
        }
        lemma_leading_space(rest, k - 1);
    }
}

proof fn lemma_trailing_space(s: Seq<char>, k: int)
    requires
        0 <= k <= s.len(),
        forall|i: int| s.len() - k <= i < s.len() ==> is_space(#[trigger] s[i]),
        k == s.len() || !is_space(s[s.len() - k - 1]),
    ensures
        trailing_space(s) == k,
    decreases k,
{
    if k > 0 {
        let rest = s.drop_last();
        assert forall|i: int| rest.len() - (k - 1) <= i < rest.len() implies is_space(
            #[trigger] rest[i],
        ) by {
            assert(rest[i] == s[i]);
        }
        lemma_trailing_space(rest, k - 1);
    }
}

proof fn lemma_digit_run(s: Seq<char>, k: int)
    requires
        0 <= k <= s.len(),
        forall|i: int| 0 <= i < k ==> is_digit(#[trigger] s[i]),
    ensures
        digit_run(s) >= k,
        (k == s.len() || !is_digit(s[k])) ==> digit_run(s) == k,
        digit_run(s) <= s.len(),
    decreases s.len(),
{
    if s.len() > 0 {
        let rest = s.drop_first();
        if k > 0 {
            assert forall|i: int| 0 <= i < k - 1 implies is_digit(#[trigger] rest[i]) by {
                assert(rest[i] == s[i + 1]);
            }
            lemma_digit_run(rest, k - 1);
        } else {
            lemma_digit_run(rest, 0);
        }
    }
}

/// The decimal text of a number is made of digits, one at least, and writes
/// that number.
proof fn lemma_decimal_digits(n: nat)
    ensures
        decimal_text(n).len() >= 1,
        forall|i: int| 0 <= i < decimal_text(n).len() ==> is_digit(#[trigger] decimal_text(n)[i]),
        number(decimal_text(n)) == n,
    decreases n,
{
    let last = digit_char((n % 10) as int);
    assert(is_digit(last) && last as u32 - '0' as u32 == n % 10);
    if n < 10 {
        let text = decimal_text(n);
        assert(text.drop_last() =~= Seq::<char>::empty());
        assert(text.last() == last);
        assert(number(text.drop_last()) == 0);
    } else {
        lemma_decimal_digits(n / 10);
        let front = decimal_text(n / 10);
        let text = decimal_text(n);
        assert(text == front.push(last));
        assert(text.drop_last() =~= front);
        assert(text.last() == last);
        assert forall|i: int| 0 <= i < text.len() implies is_digit(#[trigger] text[i]) by {
            if i < front.len() {
                assert(text[i] == front[i]);
            }
        }
    }
}

/// A number written in decimal reads back as a size of that many bytes.
pub proof fn lemma_decimal_reads_back(n: u64)
    ensures
        size_of_text(decimal_text(n as nat)) == Ok::<u64, SizeError>(n),
{
    let text = decimal_text(n as nat);
    lemma_decimal_digits(n as nat);
    assert(is_digit(text[0]) && is_digit(text[text.len() - 1]));
    lemma_leading_space(text, 0);
    assert(text.skip(0) =~= text);
    lemma_trailing_space(text, 0);
    assert(text.take(text.len() as int) =~= text);
    assert(trimmed(text) == text);
    lemma_digit_run(text, text.len() as int);
    let rest = text.skip(text.len() as int);
    assert(rest =~= Seq::<char>::empty());
    lemma_leading_space(rest, 0);
    assert(rest.skip(0) =~= rest);
    lemma_trailing_space(rest, 0);
    assert(rest.take(0) =~= rest);
    assert(trimmed(rest) == rest);
    let run = digit_run(text) as int;
    assert(run == text.len());
    assert(text.take(run) =~= text);
    assert(number(text.take(run)) == n);
    assert(trimmed(trimmed(text).skip(run)) == rest);
    assert(unit_bytes(rest) == Some(1nat));
}

/// Whether `c` is white space.
fn space(c: char) -> (yes: bool)
    ensures
        yes == is_space(c),
{
    let u = c as u32;
    (0x09 <= u && u <= 0x0D) || u == 0x20 || u == 0x85 || u == 0xA0 || u == 0x1680 || (0x2000 <= u
        && u <= 0x200A) || u == 0x2028 || u == 0x2029 || u == 0x202F || u == 0x205F || u == 0x3000
}

/// The part of `chars` between `from` and `to` that is left when the white
/// space at its ends is taken away.
fn trim_bounds(chars: &Vec<char>, from: usize, to: usize) -> (bounds: (usize, usize))
    requires
        from <= to <= chars@.len(),
    ensures
        from <= bounds.0 <= bounds.1 <= to,
        chars@.subrange(bounds.0 as int, bounds.1 as int) == trimmed(
            chars@.subrange(from as int, to as int),
        ),
        bounds.0 < bounds.1 ==> !is_space(chars@[bounds.1 - 1]),
{
    let ghost s = chars@.subrange(from as int, to as int);
    let mut lo: usize = from;
    while lo < to && space(chars[lo])
        invariant
            from <= lo <= to <= chars@.len(),
            forall|i: int| from <= i < lo ==> is_space(#[trigger] chars@[i]),
        decreases to - lo,
    {
        lo += 1;
    }
    let mut hi: usize = to;
    while hi > lo && space(chars[hi - 1])
        invariant
            lo <= hi <= to <= chars@.len(),
            forall|i: int| hi <= i < to ==> is_space(#[trigger] chars@[i]),
        decreases hi,
    {
        hi -= 1;
    }
    proof {
        assert forall|i: int| 0 <= i < lo - from implies is_space(#[trigger] s[i]) by {
            assert(s[i] == chars@[i + from]);
        }
        assert(lo < to ==> s[lo - from] == chars@[lo as int]);
        lemma_leading_space(s, lo - from);
        let rest = s.skip(lo - from);
        assert forall|i: int| rest.len() - (to - hi) <= i < rest.len() implies is_space(
            #[trigger] rest[i],
        ) by {
            assert(rest[i] == chars@[i + lo]);
        }
        assert(hi > lo ==> rest[rest.len() - (to - hi) - 1] == chars@[hi - 1]);
        lemma_trailing_space(rest, to - hi);
        assert(rest.take(rest.len() - (to - hi)) =~= chars@.subrange(lo as int, hi as int));
    }
    (lo, hi)
}

/// The number that the digits at the start of the part of `chars` between
/// `from` and `to` write, if a `u64` holds it, and where those digits end.
fn read_number(chars: &Vec<char>, from: usize, to: usize) -> (read: (Option<u64>, usize))
    requires
        from <= to <= chars@.len(),
    ensures
        from <= read.1 <= to,
        read.1 - from == digit_run(chars@.subrange(from as int, to as int)),
        match read.0 {
            Some(v) => v == number(chars@.subrange(from as int, read.1 as int)),
            None => number(chars@.subrange(from as int, read.1 as int)) > u64::MAX,
        },
{
    let ghost t = chars@.subrange(from as int, to as int);
    let mut k: usize = from;
    let mut value: Option<u64> = Some(0);
    assert(t.take(0) =~= Seq::<char>::empty());
    while k < to && chars[k] >= '0' && chars[k] <= '9'
        invariant
            from <= k <= to <= chars@.len(),
            t == chars@.subrange(from as int, to as int),
            forall|i: int| 0 <= i < k - from ==> is_digit(#[trigger] t[i]),
            match value {
                Some(v) => v == number(t.take(k - from)),
                None => number(t.take(k - from)) > u64::MAX,
            },
        decreases to - k,
    {
        let d = (chars[k] as u32 - '0' as u32) as u64;
        proof {
            assert(t[k - from] == chars@[k as int]);
            assert(t.take(k - from + 1).drop_last() =~= t.take(k - from));
            assert(t.take(k - from + 1).last() == t[k - from]);
            assert(number(t.take(k - from + 1)) == number(t.take(k - from)) * 10 + d);
        }
        value = match value {
            Some(v) => match v.checked_mul(10) {
                Some(w) => w.checked_add(d),
                None => None,
            },
            None => None,
        };
        k += 1;
    }
    proof {
        assert(k < to ==> t[k - from] == chars@[k as int]);
        lemma_digit_run(t, k - from);
        assert(t.take(k - from) =~= chars@.subrange(from as int, k as int));
    }
    (value, k)
}

/// How many bytes the unit stands for that is written in `chars` between
/// `from` and `to`, if it is a unit.
fn read_unit(chars: &Vec<char>, from: usize, to: usize) -> (unit: Option<u64>)
    requires
        from <= to <= chars@.len(),
    ensures
        match unit {
            Some(u) => unit_bytes(chars@.subrange(from as int, to as int)) == Some(u as nat),
            None => unit_bytes(chars@.subrange(from as int, to as int)) is None,
        },
{
    let ghost suffix = chars@.subrange(from as int, to as int);
    let len = to - from;
    if len == 0 {
        return Some(1);
    }
    let marked = len == 3 && to_upper_code(chars[from + 1]) == 'I' as u32 && to_upper_code(
        chars[from + 2],
    ) == 'B' as u32;
    proof {
        assert(suffix[0] == chars@[from as int]);
        if len == 3 {
            let mark = suffix.skip(1);
            assert(mark[0] == chars@[from + 1]);
            assert(mark[1] == chars@[from + 2]);
            assert(binary_mark()[0] == 'I' && binary_mark()[1] == 'B');
            assert(marked == same_ignoring_case(mark, binary_mark()));
        }
    }
    if len == 1 || marked {
        let letter = to_upper_code(chars[from]);
        if letter == 'K' as u32 {
            Some(1024)
        } else if letter == 'M' as u32 {
            Some(1024 * 1024)
        } else if letter == 'G' as u32 {
            Some(1024 * 1024 * 1024)
        } else if letter == 'T' as u32 {
            Some(1024 * 1024 * 1024 * 1024)
        } else {
            None
        }
    } else {
        None
    }
}

/// Reads a size in bytes: a decimal number, then a unit or none, with white
/// space allowed around both. The units are `K`, `M`, `G` and `T` for the
/// powers of 1024, in either case, with or without `iB` after the letter.
pub fn parse_size(arg: &str) -> (res: Result<u64, SizeError>)
    ensures
        res == size_of_text(arg@),
{
    let chars = chars_of(arg);
    let (lo, hi) = trim_bounds(&chars, 0, chars.len());
    assert(chars@.subrange(0, chars@.len() as int) =~= chars@);
    let ghost t = chars@.subrange(lo as int, hi as int);
    let (value, k) = read_number(&chars, lo, hi);
    assert(t.take(k - lo) =~= chars@.subrange(lo as int, k as int));
    assert(t.skip(k - lo) =~= chars@.subrange(k as int, hi as int));
    if k == lo {
        return Err(SizeError::InvalidNumber);
    }
    let value = match value {
        Some(v) => v,
        None => {
            return Err(SizeError::InvalidNumber);
        },
    };
    let (from, to) = trim_bounds(&chars, k, hi);
    match read_unit(&chars, from, to) {
        Some(unit) => match value.checked_mul(unit) {
            Some(bytes) => Ok(bytes),
            None => Err(SizeError::TooLarge),
        },
        None => Err(SizeError::InvalidSuffix),
    }
}

} // verus!
