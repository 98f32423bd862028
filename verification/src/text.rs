//! Text for what the session shows.

use vstd::prelude::*;
use vstd::string::*;

verus! {

/// The character for the decimal digit `d`.
pub open spec fn digit_char(d: int) -> char {
    seq!['0', '1', '2', '3', '4', '5', '6', '7', '8', '9'][d]
}

/// `n` in decimal, without leading zeros.
pub open spec fn decimal_text(n: nat) -> Seq<char>
    decreases n,
{
    if n < 10 {
        seq![digit_char(n as int)]
    } else {
        decimal_text(n / 10).push(digit_char((n % 10) as int))
    }
}

fn digit_str(d: u128) -> (s: &'static str)
    requires
        d < 10,
    ensures
        s@ == seq![digit_char(d as int)],
{
    proof {
        reveal_strlit("0");
        reveal_strlit("1");
        reveal_strlit("2");
        reveal_strlit("3");
        reveal_strlit("4");
        reveal_strlit("5");
        reveal_strlit("6");
        reveal_strlit("7");
        reveal_strlit("8");
        reveal_strlit("9");
    }
    let s = match d {
        0 => "0",
        1 => "1",
        2 => "2",
        3 => "3",
        4 => "4",
        5 => "5",
        6 => "6",
        7 => "7",
        8 => "8",
        _ => "9",
    };
    assert(s@ =~= seq![digit_char(d as int)]);
    s
}

/// `n` in decimal, without leading zeros.
pub fn decimal(n: u128) -> (s: String)
    ensures
        s@ == decimal_text(n as nat),
    decreases n,
{
    if n < 10 {
        String::from_str(digit_str(n))
    } else {
        let mut s = decimal(n / 10);
        s.append(digit_str(n % 10));
        s
    }
}

/// The characters of `s`.
pub fn chars_of(s: &str) -> (chars: Vec<char>)
    ensures
        chars@ == s@,
{
    let n = s.unicode_len();
    let mut chars: Vec<char> = Vec::new();
    let mut i: usize = 0;
    while i < n
        invariant
            i <= n,
            n == s@.len(),
            chars@ == s@.take(i as int),
        decreases n - i,
    {
        chars.push(s.get_char(i));
        assert(s@.take(i as int).push(s@[i as int]) =~= s@.take(i + 1));
        i += 1;
    }
    assert(s@.take(n as int) =~= s@);
    chars
}

/// The code of `c`, or of its capital where `c` is one of `a` to `z`.
pub open spec fn upper_code(c: char) -> u32 {
    if 'a' <= c <= 'z' {
        (c as u32 - 32) as u32
    } else {
        c as u32
    }
}

/// The two texts are equal but for the case of the letters `a` to `z`.
pub open spec fn same_ignoring_case(a: Seq<char>, b: Seq<char>) -> bool {
    &&& a.len() == b.len()
    &&& forall|i: int| 0 <= i < a.len() ==> upper_code(#[trigger] a[i]) == upper_code(b[i])
}

/// The code of `c`, or of its capital where `c` is one of `a` to `z`.
pub fn to_upper_code(c: char) -> (code: u32)
    ensures
        code == upper_code(c),
{
    if c >= 'a' && c <= 'z' {
        c as u32 - 32
    } else {
        c as u32
    }
}

/// Whether the two texts are equal but for the case of the letters `a` to
/// `z`.
pub fn eq_ignoring_case(a: &[char], b: &[char]) -> (same: bool)
    ensures
        same == same_ignoring_case(a@, b@),
{
    if a.len() != b.len() {
        return false;
    }
    let n = a.len();
    let mut i: usize = 0;
    while i < n
        invariant
            i <= n,
            n == a@.len(),
            n == b@.len(),
            forall|j: int| 0 <= j < i ==> upper_code(#[trigger] a@[j]) == upper_code(b@[j]),
        decreases n - i,
    {
        if to_upper_code(a[i]) != to_upper_code(b[i]) {
            return false;
        }
        i += 1;
    }
    true
}

/// The character for the hexadecimal digit `d`, in lower case.
pub open spec fn hex_char(d: int) -> char {
    seq!['0', '1', '2', '3', '4', '5', '6', '7', '8', '9', 'a', 'b', 'c', 'd', 'e', 'f'][d]
}

/// The hexadecimal digit of `id` at place `k`, counted from the most
/// significant one, which is place 0.
pub open spec fn hex_digit(id: u128, k: int) -> int {
    ((id >> ((4 * (31 - k)) as u128)) & 0xf) as int
}

/// How many hyphens stand before place `i` of a hyphenated identifier.
pub open spec fn hyphens_before(i: int) -> int {
    if i < 8 {
        0
    } else if i < 13 {
        1
    } else if i < 18 {
        2
    } else if i < 23 {
        3
    } else {
        4
    }
}

/// `id` as 32 hexadecimal digits in lower case, in groups of 8, 4, 4, 4 and
/// 12 with hyphens between them.
pub open spec fn hyphenated(id: u128) -> Seq<char> {
    Seq::new(
        36,
        |i: int|
            if i == 8 || i == 13 || i == 18 || i == 23 {
                '-'
            } else {
                hex_char(hex_digit(id, i - hyphens_before(i)))
            },
    )
}

/// Formats the identifier with `uuid::Uuid`: the identifier is made with
/// `Uuid::from_u128`, most significant byte first, and written by its
/// `Display`, which is the hyphenated form in lower case.
#[verifier::external_body]
pub(crate) fn uuid_text(id: u128) -> (text: String)
    ensures
        text@ == hyphenated(id),
{
    uuid::Uuid::from_u128(id).to_string()
}

/// What `byte_unit` writes for a number of bytes in the unit that suits it,
/// in multiples of 1024.
pub uninterp spec fn appropriate_unit(bytes: u64) -> Seq<char>;

/// Formats a number of bytes with `byte_unit`: `Byte::from_bytes`, then
/// `get_appropriate_unit(true)`, written by its `Display`. The text depends
/// on the number alone; nothing more is claimed of it.
#[verifier::external_body]
pub(crate) fn size_text(bytes: u64) -> (text: String)
    ensures
        text@ == appropriate_unit(bytes),
{
    byte_unit::Byte::from_bytes(u128::from(bytes)).get_appropriate_unit(true).to_string()
}

} // verus!
