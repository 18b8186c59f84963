//! Characters and character sequences.

use vstd::prelude::*;
use vstd::string::StringExecFns;

verus! {

/// The characters of a string slice, in order.
pub fn chars_of(s: &str) -> (v: Vec<char>)
    ensures
        v@ == s@,
{
    let mut v: Vec<char> = Vec::new();
    for c in it: s.chars()
        invariant
            v@ == it.seq().take(it.index() as int),
            it.seq() == s@,
    {
        v.push(c);
    }
    v
}

/// The character of the decimal digit `d`.
pub open spec fn digit_char(d: nat) -> char {
    (48 + d) as char
}

/// The decimal numeral of `n`, without leading zeros.
pub open spec fn decimal(n: nat) -> Seq<char>
    decreases n,
{
    if n < 10 {
        seq![digit_char(n)]
    } else {
        decimal(n / 10).push(digit_char(n % 10))
    }
}

/// The one-character string of the decimal digit `d`.
fn digit_str(d: usize) -> (s: &'static str)
    requires
        d < 10,
    ensures
        s@ == seq![digit_char(d as nat)],
{
    proof {
        reveal_strlit("0");
        reveal_strlit("1");
        reveal_strlit("2");
        reveal_strlit("3");
        reveal_strlit("4");
        reveal_strlit("5");
        reveal_strlit("6");
        reveal_strlit("7");
        reveal_strlit("8");
        reveal_strlit("9");
    }
    match d {
        0 => "0",
        1 => "1",
        2 => "2",
        3 => "3",
        4 => "4",
        5 => "5",
        6 => "6",
        7 => "7",
        8 => "8",
        _ => "9",
    }
}

/// The decimal numeral of `n` as a string.
pub fn decimal_string(n: usize) -> (s: String)
    ensures
        s@ == decimal(n as nat),
    decreases n,
{
    if n < 10 {
        String::from_str(digit_str(n))
    } else {
        let mut s = decimal_string(n / 10);
        s.append(digit_str(n % 10));
        s
    }
}

/// The lower-case form of an ASCII capital letter; any other character
/// unchanged.
pub open spec fn lower(c: char) -> char {
    if 'A' <= c && c <= 'Z' {
        ((c as u8) + 32) as char
    } else {
        c
    }
}

/// The lower-case form of `c`.
pub fn to_lower(c: char) -> (r: char)
    ensures
        r == lower(c),
{
    if 'A' <= c && c <= 'Z' {
        ((c as u8) + 32) as char
    } else {
        c
    }
}

/// The text with every ASCII capital letter in lower case.
pub open spec fn lowered(s: Seq<char>) -> Seq<char> {
    Seq::new(s.len(), |i: int| lower(s[i]))
}

/// White space as Unicode defines it: the characters that it marks
/// `White_Space`.
pub open spec fn is_space(c: char) -> bool {
    let n = c as u32;
    ||| 0x09 <= n <= 0x0d
    ||| n == 0x20
    ||| n == 0x85
    ||| n == 0xa0
    ||| n == 0x1680
    ||| 0x2000 <= n <= 0x200a
    ||| n == 0x2028
    ||| n == 0x2029
    ||| n == 0x202f
    ||| n == 0x205f
    ||| n == 0x3000
}

/// Whether `c` is white space.
pub fn is_space_char(c: char) -> (b: bool)
    ensures
        b == is_space(c),
{
    let n: u32 = c as u32;
    (0x09 <= n && n <= 0x0d) || n == 0x20 || n == 0x85 || n == 0xa0 || n == 0x1680 || (0x2000 <= n
        && n <= 0x200a) || n == 0x2028 || n == 0x2029 || n == 0x202f || n == 0x205f || n == 0x3000
}

/// The first place at or after `from` that holds no white space, or the
/// length of the text.
pub open spec fn trim_start(s: Seq<char>, from: int) -> int
    decreases s.len() - from,
{
    if 0 <= from < s.len() && is_space(s[from]) {
        trim_start(s, from + 1)
    } else {
        from
    }
}

/// The end of the text between `from` and `to` once the white space at
/// its end is dropped.
pub open spec fn trim_end(s: Seq<char>, from: int, to: int) -> int
    decreases to,
{
    if 0 <= from < to <= s.len() && is_space(s[to - 1]) {
        trim_end(s, from, to - 1)
    } else {
        to
    }
}

/// The text without the white space at its start and at its end.
pub open spec fn trimmed(s: Seq<char>) -> Seq<char> {
    let from = trim_start(s, 0);
    s.subrange(from, trim_end(s, from, s.len() as int))
}

/// The form under which a name is looked up: in lower case, without the
/// white space around it.
pub open spec fn normal_form(s: Seq<char>) -> Seq<char> {
    trimmed(lowered(s))
}

/// The normal form of the characters `s`.
pub fn normalize(s: &[char]) -> (v: Vec<char>)
    ensures
        v@ == normal_form(s@),
{
    let ghost low = lowered(s@);
    let mut from: usize = 0;
    while from < s.len() && is_space_char(to_lower(s[from]))
        invariant
            from <= s.len(),
            low == lowered(s@),
            trim_start(low, 0) == trim_start(low, from as int),
        decreases s.len() - from,
    {
        from += 1;
    }
    let mut to: usize = s.len();
    while from < to && is_space_char(to_lower(s[to - 1]))
        invariant
            from <= to <= s.len(),
            low == lowered(s@),
            trim_end(low, from as int, low.len() as int) == trim_end(low, from as int, to as int),
        decreases to,
    {
        to -= 1;
    }
    let mut v: Vec<char> = Vec::new();
    let mut i: usize = from;
    while i < to
        invariant
            from <= i <= to <= s.len(),
            low == lowered(s@),
            v@ == low.subrange(from as int, i as int),
        decreases to - i,
    {
        v.push(to_lower(s[i]));
        i += 1;
    }
    v
}

/// Whether the characters of `s` from `from` up to `to` are those of
/// `key`.
pub fn range_is(s: &[char], from: usize, to: usize, key: &[char]) -> (b: bool)
    requires
        from <= to <= s.len(),
    ensures
        b == (s@.subrange(from as int, to as int) == key@),
{
    if to - from != key.len() {
        return false;
    }
    let mut i: usize = 0;
    while i < key.len()
        invariant
            from <= to <= s.len(),
            to - from == key.len(),
            i <= key.len(),
            s@.subrange(from as int, from + i) == key@.take(i as int),
        decreases key.len() - i,
    {
        if s[from + i] != key[i] {
            assert(s@.subrange(from as int, to as int)[i as int] != key@[i as int]);
            return false;
        }
        assert(s@.subrange(from as int, from + i + 1) == s@.subrange(from as int, from + i).push(
            s@[from + i],
        ));
        assert(key@.take(i + 1) == key@.take(i as int).push(key@[i as int]));
        i += 1;
    }
    assert(key@.take(key.len() as int) == key@);
    true
}

} // verus!
