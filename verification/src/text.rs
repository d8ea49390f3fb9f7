//! Characters: the classes that tokens are made of, runs of a class in a
//! text, and the decimal notation of integers.

use vstd::prelude::*;

verus! {

/// The classes of characters that the grammar tells apart.
#[derive(Debug, Clone, Copy, PartialEq, Eq, Structural)]
pub enum CharClass {
    /// Space, tab, carriage return and line feed.
    Space,
    /// The ASCII letters.
    Letter,
    /// The ASCII digits.
    Digit,
}

impl CharClass {
    /// Whether the character belongs to the class.
    pub open spec fn contains(self, c: char) -> bool {
        match self {
            CharClass::Space => c == ' ' || c == '\t' || c == '\r' || c == '\n',
            CharClass::Letter => ('a' <= c && c <= 'z') || ('A' <= c && c <= 'Z'),
            CharClass::Digit => '0' <= c && c <= '9',
        }
    }

    /// Whether the character belongs to the class.
    pub fn has(self, c: char) -> (r: bool)
        ensures
            r == self.contains(c),
    {
        match self {
            CharClass::Space => c == ' ' || c == '\t' || c == '\r' || c == '\n',
            CharClass::Letter => ('a' <= c && c <= 'z') || ('A' <= c && c <= 'Z'),
            CharClass::Digit => '0' <= c && c <= '9',
        }
    }
}

/// The distance from position `i` to the end of `s`, zero at and past the
/// end.
pub open spec fn rest(s: Seq<char>, i: int) -> nat {
    if i < s.len() {
        (s.len() - i) as nat
    } else {
        0
    }
}

/// The length of the longest run of characters of the class that starts at
/// position `i`.
pub open spec fn run(s: Seq<char>, i: int, class: CharClass) -> nat
    decreases rest(s, i),
{
    if 0 <= i < s.len() && class.contains(s[i]) {
        1 + run(s, i + 1, class)
    } else {
        0
    }
}

/// A run ends inside the text, at a character outside the class or at the
/// end.
pub proof fn lemma_run_end(s: Seq<char>, i: int, class: CharClass)
    requires
        0 <= i <= s.len(),
    ensures
        i + run(s, i, class) <= s.len(),
        i + run(s, i, class) < s.len() ==> !class.contains(s[i + run(s, i, class)]),
        forall|j: int| i <= j < i + run(s, i, class) ==> class.contains(#[trigger] s[j]),
    decreases rest(s, i),
{
    if i < s.len() && class.contains(s[i]) {
        lemma_run_end(s, i + 1, class);
    }
}

/// A run that starts where characters of the class were seen up to `j`
/// goes on from `j`.
pub proof fn lemma_run_split(s: Seq<char>, i: int, j: int, class: CharClass)
    requires
        0 <= i <= j <= s.len(),
        forall|k: int| i <= k < j ==> class.contains(#[trigger] s[k]),
    ensures
        run(s, i, class) == (j - i) + run(s, j, class),
    decreases j - i,
{
    if i < j {
        lemma_run_split(s, i + 1, j, class);
    }
}

/// The end of the longest run of characters of the class from `start`.
pub fn scan(input: &Vec<char>, start: usize, class: CharClass) -> (end: usize)
    requires
        start <= input.len(),
    ensures
        start <= end <= input.len(),
        end == start + run(input@, start as int, class),
{
    let mut end = start;
    while end < input.len() && class.has(input[end])
        invariant
            start <= end <= input.len(),
            forall|k: int| start <= k < end ==> class.contains(#[trigger] input@[k]),
        decreases input.len() - end,
    {
        end += 1;
    }
    proof {
        lemma_run_split(input@, start as int, end as int, class);
    }
    end
}

/// The characters of a text.
pub fn characters(text: &str) -> (out: Vec<char>)
    ensures
        out@ == text@,
{
    let mut out: Vec<char> = Vec::new();
    for c in it: text.chars()
        invariant
            out@ == it.seq().take(it.index() as int),
            it.seq() == text@,
    {
        out.push(c);
    }
    out
}

/// Appends one character to a text: `String::push` of the standard
/// library. Claimed: the text afterwards is the text before, followed by
/// the character.
#[verifier::external_body]
pub(crate) fn push_char(text: &mut String, c: char)
    ensures
        final(text)@ == old(text)@.push(c),
{
    text.push(c)
}

/// The characters of `input` from `from` up to `to`, as a text.
pub fn spell(input: &Vec<char>, from: usize, to: usize) -> (out: String)
    requires
        from <= to <= input.len(),
    ensures
        out@ == input@.subrange(from as int, to as int),
{
    let mut out = String::new();
    let mut i = from;
    while i < to
        invariant
            from <= i <= to <= input.len(),
            out@ == input@.subrange(from as int, i as int),
        decreases to - i,
    {
        push_char(&mut out, input[i]);
        i += 1;
    }
    out
}

/// The value of a decimal digit.
pub open spec fn digit_value(c: char) -> nat {
    (c as u32 - '0' as u32) as nat
}

/// The number that the digits of `s` from `from` up to `to` denote.
pub open spec fn number(s: Seq<char>, from: int, to: int) -> nat
    decreases to - from,
{
    if to <= from {
        0
    } else {
        number(s, from, to - 1) * 10 + digit_value(s[to - 1])
    }
}

/// More digits never denote a smaller number.
pub proof fn lemma_number_grows(s: Seq<char>, from: int, mid: int, to: int)
    requires
        from <= mid <= to,
    ensures
        number(s, from, mid) <= number(s, from, to),
    decreases to - mid,
{
    if mid < to {
        lemma_number_grows(s, from, mid, to - 1);
    }
}

/// The number that the digits from `from` up to `to` denote, if it fits
/// the fixed-width integers.
pub fn read_number(input: &Vec<char>, from: usize, to: usize) -> (value: Option<i64>)
    requires
        from <= to <= input.len(),
        forall|k: int| from <= k < to ==> CharClass::Digit.contains(#[trigger] input@[k]),
    ensures
        match value {
            Some(n) => n == number(input@, from as int, to as int),
            None => number(input@, from as int, to as int) > i64::MAX,
        },
{
    let mut acc: i64 = 0;
    let mut i = from;
    while i < to
        invariant
            from <= i <= to <= input.len(),
            forall|k: int| from <= k < to ==> CharClass::Digit.contains(#[trigger] input@[k]),
            acc == number(input@, from as int, i as int),
        decreases to - i,
    {
        let digit: i64 = (input[i] as u32 - '0' as u32) as i64;
        let next = match acc.checked_mul(10) {
            Some(scaled) => scaled.checked_add(digit),
            None => None,
        };
        match next {
            Some(n) => {
                acc = n;
            },
            None => {
                proof {
                    lemma_number_grows(input@, from as int, i + 1, to as int);
                }
                return None;
            },
        }
        i += 1;
    }
    Some(acc)
}

/// The character of a decimal digit.
pub open spec fn digit_char(d: nat) -> char
    recommends
        d < 10,
{
    ((48 + d) as u8) as char
}

/// The decimal notation of a natural number, without leading zeros.
pub open spec fn natural_text(n: nat) -> Seq<char>
    decreases n,
{
    if n < 10 {
        seq![digit_char(n)]
    } else {
        natural_text(n / 10).push(digit_char(n % 10))
    }
}

/// The decimal notation of an integer: a minus sign before the digits of a
/// negative one.
pub open spec fn integer_text(n: int) -> Seq<char> {
    if n < 0 {
        seq!['-'] + natural_text((-n) as nat)
    } else {
        natural_text(n as nat)
    }
}

/// Appends the decimal notation of a natural number.
pub fn write_natural(out: &mut String, n: u64)
    ensures
        final(out)@ == old(out)@ + natural_text(n as nat),
    decreases n,
{
    if n >= 10 {
        write_natural(out, n / 10);
    }
    let d: u8 = (n % 10) as u8;
    push_char(out, (48u8 + d) as char);
}

/// Appends the decimal notation of an integer.
pub fn write_integer(out: &mut String, n: i64)
    ensures
        final(out)@ == old(out)@ + integer_text(n as int),
{
    if n < 0 {
        push_char(out, '-');
        let m: u64 = if n == i64::MIN {
            0x8000_0000_0000_0000
        } else {
            (-n) as u64
        };
        write_natural(out, m);
    } else {
        write_natural(out, n as u64);
    }
}

} // verus!
