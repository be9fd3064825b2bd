//! Text as sequences of characters: numbers in decimal, padding, searching.

use vstd::prelude::*;
use vstd::string::*;

verus! {

/// `String::push`: the character is appended to the end of the string.
#[verifier::external_body]
pub(crate) fn push_char(text: &mut String, c: char)
    ensures
        final(text)@ == old(text)@.push(c),
{
    text.push(c)
}

/// The texts of a list of strings.
pub open spec fn texts_of(strings: Seq<String>) -> Seq<Seq<char>> {
    strings.map_values(|s: String| s@)
}

/// The characters of a text, in order.
pub fn chars_of(text: &str) -> (chars: Vec<char>)
    ensures
        chars@ == text@,
{
    let mut chars: Vec<char> = Vec::new();
    let n = text.unicode_len();
    let mut i: usize = 0;
    while i < n
        invariant
            n == text@.len(),
            i <= n,
            chars@ == text@.subrange(0, i as int),
        decreases n - i,
    {
        chars.push(text.get_char(i));
        assert(text@.subrange(0, i + 1) == text@.subrange(0, i as int).push(text@[i as int]));
        i = i + 1;
    }
    assert(text@.subrange(0, n as int) == text@);
    chars
}

/// Whether two texts hold the same characters.
pub fn same_text(a: &str, b: &str) -> (same: bool)
    ensures
        same == (a@ == b@),
{
    a.to_owned() == b.to_owned()
}

/// Why a text is no number of the kind asked for.
#[derive(Clone, Copy, Debug, PartialEq, Eq, Structural)]
pub enum NumberError {
    /// The text is empty.
    Empty,
    /// A character is no decimal digit, or there is a sign and no digit.
    InvalidDigit,
    /// The number does not fit in 32 bits.
    TooLarge,
    /// The number is zero where zero is not allowed.
    Zero,
}

/// Whether a character is one of the ten decimal digits.
pub open spec fn is_digit(c: char) -> bool {
    '0' <= c <= '9'
}

/// The number a decimal digit stands for.
pub open spec fn digit_value(c: char) -> nat {
    (c as u32 - '0' as u32) as nat
}

/// The decimal digit that stands for a number below ten.
pub open spec fn digit_char(d: nat) -> char {
    (d + '0' as u32) as char
}

/// Reads digits from left to right on top of the number read so far. The first character
/// that is no digit, or the first digit with which the number leaves 32 bits, ends the
/// reading with that error.
pub open spec fn read_digits(digits: Seq<char>, so_far: nat) -> Result<nat, NumberError>
    decreases digits.len(),
{
    if digits.len() == 0 {
        Ok(so_far)
    } else if !is_digit(digits[0]) {
        Err(NumberError::InvalidDigit)
    } else if so_far * 10 + digit_value(digits[0]) > u32::MAX {
        Err(NumberError::TooLarge)
    } else {
        read_digits(digits.drop_first(), so_far * 10 + digit_value(digits[0]))
    }
}

/// The unsigned number that a text writes in decimal: digits only, but for one `+` that may
/// stand in front of them.
pub open spec fn unsigned_of(text: Seq<char>) -> Result<nat, NumberError> {
    if text.len() == 0 {
        Err(NumberError::Empty)
    } else if text.len() == 1 && (text[0] == '+' || text[0] == '-') {
        Err(NumberError::InvalidDigit)
    } else if text[0] == '+' {
        read_digits(text.drop_first(), 0)
    } else {
        read_digits(text, 0)
    }
}

/// Reads an unsigned number of at most 32 bits from its decimal text.
pub fn parse_u32(text: &str) -> (r: Result<u32, NumberError>)
    ensures
        match r {
            Ok(n) => unsigned_of(text@) == Ok::<nat, NumberError>(n as nat),
            Err(e) => unsigned_of(text@) == Err::<nat, NumberError>(e),
        },
{
    let chars = chars_of(text);
    if chars.len() == 0 {
        return Err(NumberError::Empty);
    }
    if chars.len() == 1 && (chars[0] == '+' || chars[0] == '-') {
        return Err(NumberError::InvalidDigit);
    }
    let start: usize = if chars[0] == '+' { 1 } else { 0 };
    let ghost digits = text@.subrange(start as int, text@.len() as int);
    assert(start == 1 ==> digits == text@.drop_first());
    assert(start == 0 ==> digits == text@);
    assert(unsigned_of(text@) == read_digits(digits, 0));
    let mut i: usize = start;
    let mut so_far: u32 = 0;
    while i < chars.len()
        invariant
            chars@ == text@,
            start <= i <= chars@.len(),
            unsigned_of(text@) == read_digits(digits, 0),
            read_digits(digits, 0) == read_digits(text@.subrange(i as int, text@.len() as int), so_far as nat),
        decreases chars@.len() - i,
    {
        let c = chars[i];
        let ghost rest = text@.subrange(i as int, text@.len() as int);
        assert(rest[0] == c);
        assert(rest.drop_first() == text@.subrange(i + 1, text@.len() as int));
        if c < '0' || c > '9' {
            return Err(NumberError::InvalidDigit);
        }
        let d: u32 = c as u32 - '0' as u32;
        if so_far > (u32::MAX - d) / 10 {
            return Err(NumberError::TooLarge);
        }
        so_far = so_far * 10 + d;
        i = i + 1;
    }
    assert(text@.subrange(i as int, text@.len() as int).len() == 0);
    Ok(so_far)
}

/// The decimal text of a number: no sign, no leading zero but for zero itself.
pub open spec fn decimal_of(n: nat) -> Seq<char>
    decreases n,
{
    if n < 10 {
        seq![digit_char(n)]
    } else {
        decimal_of(n / 10).push(digit_char(n % 10))
    }
}

/// Writes a number in decimal.
pub fn decimal(n: u64) -> (text: String)
    ensures
        text@ == decimal_of(n as nat),
{
    let mut reversed: Vec<char> = Vec::new();
    let mut rest: u64 = n;
    while rest >= 10
        invariant
            decimal_of(n as nat) == decimal_of(rest as nat) + reversed@.reverse(),
        decreases rest,
    {
        let d: u8 = (rest % 10) as u8;
        let c: char = (d + 48u8) as char;
        assert(c == digit_char((rest % 10) as nat));
        assert(decimal_of(rest as nat) == decimal_of((rest / 10) as nat).push(c));
        assert(reversed@.push(c).reverse() == seq![c] + reversed@.reverse());
        reversed.push(c);
        rest = rest / 10;
    }
    let d: u8 = rest as u8;
    let c: char = (d + 48u8) as char;
    assert(c == digit_char(rest as nat));
    let mut text = String::new();
    push_char(&mut text, c);
    let mut i: usize = reversed.len();
    while i > 0
        invariant
            i <= reversed@.len(),
            text@ == seq![c] + reversed@.reverse().subrange(0, reversed@.len() - i),
        decreases i,
    {
        i = i - 1;
        push_char(&mut text, reversed[i]);
        assert(reversed@.reverse().subrange(0, reversed@.len() - i) == reversed@.reverse().subrange(
            0,
            reversed@.len() - i - 1,
        ).push(reversed@[i as int]));
    }
    assert(reversed@.reverse().subrange(0, reversed@.len() as int) == reversed@.reverse());
    text
}

/// Whether `needle` stands at position `at` of `hay`.
pub open spec fn occurs_at(needle: Seq<char>, hay: Seq<char>, at: int) -> bool {
    0 <= at && at + needle.len() <= hay.len() && hay.subrange(at, at + needle.len()) == needle
}

/// Whether `needle` stands somewhere in `hay`. The empty text stands in every text.
pub open spec fn occurs_in(needle: Seq<char>, hay: Seq<char>) -> bool {
    exists|at: int| occurs_at(needle, hay, at)
}

/// Whether a text holds another.
pub fn contains(hay: &str, needle: &str) -> (found: bool)
    ensures
        found == occurs_in(needle@, hay@),
{
    let hay_chars = chars_of(hay);
    let needle_chars = chars_of(needle);
    let n = hay_chars.len();
    let m = needle_chars.len();
    if m > n {
        assert(!occurs_in(needle@, hay@)) by {
            assert forall|at: int| !occurs_at(needle@, hay@, at) by {}
        }
        return false;
    }
    let mut at: usize = 0;
    while at <= n - m
        invariant
            hay_chars@ == hay@,
            needle_chars@ == needle@,
            n == hay@.len(),
            m == needle@.len(),
            m <= n,
            at <= n - m + 1,
            forall|before: int| 0 <= before < at ==> !occurs_at(needle@, hay@, before),
        decreases n - m + 1 - at,
    {
        let mut matched: usize = 0;
        while matched < m && hay_chars[at + matched] == needle_chars[matched]
            invariant
                hay_chars@ == hay@,
                needle_chars@ == needle@,
                n == hay@.len(),
                m == needle@.len(),
                at + m <= n,
                matched <= m,
                forall|k: int| 0 <= k < matched ==> hay@[at + k] == needle@[k],
            decreases m - matched,
        {
            matched = matched + 1;
        }
        if matched == m {
            assert(hay@.subrange(at as int, at + m) =~= needle@);
            assert(occurs_at(needle@, hay@, at as int));
            return true;
        }
        assert(!occurs_at(needle@, hay@, at as int)) by {
            if occurs_at(needle@, hay@, at as int) {
                assert(hay@.subrange(at as int, at + m)[matched as int] == needle@[matched as int]);
            }
        }
        at = at + 1;
    }
    assert(!occurs_in(needle@, hay@)) by {
        assert forall|k: int| !occurs_at(needle@, hay@, k) by {}
    }
    false
}

/// How two texts stand to each other in the order of a dictionary.
#[derive(Clone, Copy, Debug, PartialEq, Eq, Structural)]
pub enum Order {
    Before,
    Same,
    After,
}

/// Whether a text comes before another in the order of a dictionary: at the first place
/// where they differ it has the smaller character, or it ends there and the other goes on.
pub open spec fn precedes(a: Seq<char>, b: Seq<char>) -> bool
    decreases a.len(),
{
    if b.len() == 0 {
        false
    } else if a.len() == 0 {
        true
    } else if a[0] != b[0] {
        a[0] < b[0]
    } else {
        precedes(a.drop_first(), b.drop_first())
    }
}

/// Of two texts one comes before the other, or they are the same text; no two of the
/// three hold together.
pub proof fn lemma_precedes_total(a: Seq<char>, b: Seq<char>)
    ensures
        precedes(a, b) || precedes(b, a) || a == b,
        !(precedes(a, b) && precedes(b, a)),
        !(precedes(a, b) && a == b),
    decreases a.len(),
{
    if a.len() == 0 || b.len() == 0 {
        if a.len() == 0 && b.len() == 0 {
            assert(a =~= b);
        }
    } else if a[0] == b[0] {
        lemma_precedes_total(a.drop_first(), b.drop_first());
        if a.drop_first() == b.drop_first() {
            assert(a =~= seq![a[0]] + a.drop_first());
            assert(b =~= seq![b[0]] + b.drop_first());
        }
    }
}

/// What comes before a text comes before everything after it.
pub proof fn lemma_precedes_transitive(a: Seq<char>, b: Seq<char>, c: Seq<char>)
    requires
        precedes(a, b),
        precedes(b, c),
    ensures
        precedes(a, c),
    decreases a.len(),
{
    if a.len() > 0 && a[0] == b[0] && b[0] == c[0] {
        lemma_precedes_transitive(a.drop_first(), b.drop_first(), c.drop_first());
    }
}

/// Compares two texts in the order of a dictionary.
pub fn compare(a: &str, b: &str) -> (order: Order)
    ensures
        match order {
            Order::Before => precedes(a@, b@),
            Order::Same => a@ == b@,
            Order::After => precedes(b@, a@),
        },
{
    let a_chars = chars_of(a);
    let b_chars = chars_of(b);
    let mut i: usize = 0;
    assert(a@.subrange(0, a@.len() as int) == a@);
    assert(b@.subrange(0, b@.len() as int) == b@);
    while i < a_chars.len() && i < b_chars.len() && a_chars[i] == b_chars[i]
        invariant
            a_chars@ == a@,
            b_chars@ == b@,
            i <= a@.len(),
            i <= b@.len(),
            a@.subrange(0, i as int) == b@.subrange(0, i as int),
            precedes(a@, b@) == precedes(a@.subrange(i as int, a@.len() as int), b@.subrange(i as int, b@.len() as int)),
            precedes(b@, a@) == precedes(b@.subrange(i as int, b@.len() as int), a@.subrange(i as int, a@.len() as int)),
        decreases a@.len() - i,
    {
        proof {
            let a_rest = a@.subrange(i as int, a@.len() as int);
            let b_rest = b@.subrange(i as int, b@.len() as int);
            assert(a_rest[0] == b_rest[0]);
            assert(a_rest.drop_first() == a@.subrange(i + 1, a@.len() as int));
            assert(b_rest.drop_first() == b@.subrange(i + 1, b@.len() as int));
            assert(a@.subrange(0, i + 1) == a@.subrange(0, i as int).push(a@[i as int]));
            assert(b@.subrange(0, i + 1) == b@.subrange(0, i as int).push(b@[i as int]));
        }
        i = i + 1;
    }
    let ghost a_rest = a@.subrange(i as int, a@.len() as int);
    let ghost b_rest = b@.subrange(i as int, b@.len() as int);
    if i == a_chars.len() && i == b_chars.len() {
        assert(a@ == a@.subrange(0, i as int));
        assert(b@ == b@.subrange(0, i as int));
        Order::Same
    } else if i == a_chars.len() {
        assert(a_rest.len() == 0 && b_rest.len() > 0);
        Order::Before
    } else if i == b_chars.len() {
        assert(b_rest.len() == 0 && a_rest.len() > 0);
        Order::After
    } else {
        assert(a_rest[0] == a@[i as int] && b_rest[0] == b@[i as int]);
        if a_chars[i] < b_chars[i] {
            Order::Before
        } else {
            Order::After
        }
    }
}

/// A text behind as many spaces as it lacks to the width; itself if it is as wide or wider.
pub open spec fn right_aligned(text: Seq<char>, width: nat) -> Seq<char> {
    if text.len() >= width {
        text
    } else {
        Seq::new((width - text.len()) as nat, |i: int| ' ') + text
    }
}

/// A text before as many spaces as it lacks to the width; itself if it is as wide or wider.
pub open spec fn left_aligned(text: Seq<char>, width: nat) -> Seq<char> {
    if text.len() >= width {
        text
    } else {
        text + Seq::new((width - text.len()) as nat, |i: int| ' ')
    }
}

/// Appends so many spaces.
pub fn push_spaces(text: &mut String, count: usize)
    ensures
        final(text)@ == old(text)@ + Seq::new(count as nat, |i: int| ' '),
{
    let mut done: usize = 0;
    while done < count
        invariant
            done <= count,
            text@ == old(text)@ + Seq::new(done as nat, |i: int| ' '),
        decreases count - done,
    {
        push_char(text, ' ');
        done = done + 1;
        assert(text@ =~= old(text)@ + Seq::new(done as nat, |i: int| ' '));
    }
}

/// Pads a text with spaces on the left up to a width, counted in characters.
pub fn align_right(text: &str, width: usize) -> (padded: String)
    ensures
        padded@ == right_aligned(text@, width as nat),
{
    let len = text.unicode_len();
    let mut padded = String::new();
    if len < width {
        push_spaces(&mut padded, width - len);
    }
    padded.append(text);
    assert(padded@ =~= right_aligned(text@, width as nat));
    padded
}

/// Pads a text with spaces on the right up to a width, counted in characters.
pub fn align_left(text: &str, width: usize) -> (padded: String)
    ensures
        padded@ == left_aligned(text@, width as nat),
{
    let len = text.unicode_len();
    let mut padded = String::new();
    padded.append(text);
    if len < width {
        push_spaces(&mut padded, width - len);
    }
    assert(padded@ =~= left_aligned(text@, width as nat));
    padded
}

} // verus!
