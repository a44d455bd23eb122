use vstd::prelude::*;

verus! {

broadcast use vstd::string::group_string_axioms;

/// Why a decimal text is not an unsigned integer of the wanted width.
#[derive(Clone, Copy, Debug, PartialEq, Eq, Structural)]
pub enum IntErrorKind {
    Empty,
    InvalidDigit,
    PosOverflow,
}

pub open spec fn is_digit(c: char) -> bool {
    '0' <= c && c <= '9'
}

pub open spec fn digit_value(c: char) -> int {
    (c as int) - ('0' as int)
}

/// Reads the digits `d` left to right onto the value `acc`; the first
/// character that is not a digit, or the first digit that takes the value
/// past `max`, decides the error.
pub open spec fn parse_digits(d: Seq<char>, acc: int, max: int) -> Result<int, IntErrorKind>
    decreases d.len(),
{
    if d.len() == 0 {
        Ok(acc)
    } else if !is_digit(d[0]) {
        Err(IntErrorKind::InvalidDigit)
    } else if acc * 10 + digit_value(d[0]) > max {
        Err(IntErrorKind::PosOverflow)
    } else {
        parse_digits(d.drop_first(), acc * 10 + digit_value(d[0]), max)
    }
}

/// The value of the decimal text `s` as an unsigned integer no larger than
/// `max`, as `str::parse` reads it: an optional leading `+`, then at least one
/// digit.
pub open spec fn parse_unsigned(s: Seq<char>, max: int) -> Result<int, IntErrorKind> {
    if s.len() == 0 {
        Err(IntErrorKind::Empty)
    } else if s.len() == 1 && (s[0] == '+' || s[0] == '-') {
        Err(IntErrorKind::InvalidDigit)
    } else if s[0] == '+' {
        parse_digits(s.drop_first(), 0, max)
    } else {
        parse_digits(s, 0, max)
    }
}

proof fn lemma_parse_digits_bounded(d: Seq<char>, acc: int, max: int)
    requires
        0 <= acc <= max,
    ensures
        parse_digits(d, acc, max) matches Ok(v) ==> 0 <= v <= max,
    decreases d.len(),
{
    if d.len() > 0 && is_digit(d[0]) && acc * 10 + digit_value(d[0]) <= max {
        lemma_parse_digits_bounded(d.drop_first(), acc * 10 + digit_value(d[0]), max);
    }
}

/// A value that `parse_unsigned` accepts lies between 0 and `max`.
pub(crate) proof fn lemma_parse_unsigned_bounded(s: Seq<char>, max: int)
    requires
        0 <= max,
    ensures
        parse_unsigned(s, max) matches Ok(v) ==> 0 <= v <= max,
{
    lemma_parse_digits_bounded(s, 0, max);
    if s.len() > 0 {
        lemma_parse_digits_bounded(s.drop_first(), 0, max);
    }
}

/// The characters of `s`, in order.
pub fn chars_of(s: &str) -> (v: Vec<char>)
    ensures
        v@ == s@,
{
    let mut v: Vec<char> = Vec::new();
    for c in it: s.chars()
        invariant
            v@ == it.seq().take(it.index() as int),
    {
        v.push(c);
    }
    v
}

fn parse_digits_exec(d: &Vec<char>, start: usize, max: u64) -> (res: Result<u64, IntErrorKind>)
    requires
        start <= d@.len(),
    ensures
        match parse_digits(d@.subrange(start as int, d@.len() as int), 0, max as int) {
            Ok(v) => res == Ok::<u64, IntErrorKind>(v as u64),
            Err(e) => res == Err::<u64, IntErrorKind>(e),
        },
{
    let mut acc: u64 = 0;
    let mut i: usize = start;
    while i < d.len()
        invariant
            start <= i <= d@.len(),
            acc <= max,
            parse_digits(d@.subrange(start as int, d@.len() as int), 0, max as int)
                == parse_digits(d@.subrange(i as int, d@.len() as int), acc as int, max as int),
        decreases d@.len() - i,
    {
        let c = d[i];
        let ghost rest = d@.subrange(i as int, d@.len() as int);
        assert(rest[0] == c);
        assert(rest.drop_first() =~= d@.subrange(i + 1, d@.len() as int));
        if !('0' <= c && c <= '9') {
            return Err(IntErrorKind::InvalidDigit);
        }
        let digit: u128 = ((c as u32) - ('0' as u32)) as u128;
        let next: u128 = (acc as u128) * 10 + digit;
        if next > max as u128 {
            return Err(IntErrorKind::PosOverflow);
        }
        acc = next as u64;
        i = i + 1;
    }
    assert(d@.subrange(i as int, d@.len() as int) =~= Seq::<char>::empty());
    proof {
        lemma_parse_digits_bounded(d@.subrange(start as int, d@.len() as int), 0, max as int);
    }
    Ok(acc)
}

/// Reads `s` as an unsigned decimal number no larger than `max`.
pub fn parse_unsigned_exec(s: &str, max: u64) -> (res: Result<u64, IntErrorKind>)
    ensures
        match parse_unsigned(s@, max as int) {
            Ok(v) => res == Ok::<u64, IntErrorKind>(v as u64) && 0 <= v <= max,
            Err(e) => res == Err::<u64, IntErrorKind>(e),
        },
{
    let d = chars_of(s);
    parse_unsigned_chars(&d, max)
}

/// Reads the characters `d` as an unsigned decimal number no larger than
/// `max`.
pub fn parse_unsigned_chars(d: &Vec<char>, max: u64) -> (res: Result<u64, IntErrorKind>)
    ensures
        match parse_unsigned(d@, max as int) {
            Ok(v) => res == Ok::<u64, IntErrorKind>(v as u64) && 0 <= v <= max,
            Err(e) => res == Err::<u64, IntErrorKind>(e),
        },
{
    if d.len() == 0 {
        return Err(IntErrorKind::Empty);
    }
    if d.len() == 1 && (d[0] == '+' || d[0] == '-') {
        return Err(IntErrorKind::InvalidDigit);
    }
    proof {
        lemma_parse_digits_bounded(d@.subrange(1, d@.len() as int), 0, max as int);
        lemma_parse_digits_bounded(d@, 0, max as int);
    }
    if d[0] == '+' {
        assert(d@.subrange(1, d@.len() as int) =~= d@.drop_first());
        parse_digits_exec(d, 1, max)
    } else {
        assert(d@.subrange(0, d@.len() as int) =~= d@);
        parse_digits_exec(d, 0, max)
    }
}

} // verus!

verus! {

impl IntErrorKind {
    /// The text that `ParseIntError` displays for this kind.
    pub open spec fn spec_message(self) -> Seq<char> {
        match self {
            IntErrorKind::Empty => "cannot parse integer from empty string"@,
            IntErrorKind::InvalidDigit => "invalid digit found in string"@,
            IntErrorKind::PosOverflow => "number too large to fit in target type"@,
        }
    }

    pub fn message(&self) -> (m: String)
        ensures
            m@ == self.spec_message(),
    {
        match self {
            IntErrorKind::Empty => String::from_str("cannot parse integer from empty string"),
            IntErrorKind::InvalidDigit => String::from_str("invalid digit found in string"),
            IntErrorKind::PosOverflow => String::from_str("number too large to fit in target type"),
        }
    }
}

} // verus!
