use vstd::prelude::*;

verus! {

/// The value of a run of decimal digits.
pub open spec fn digits_value(s: Seq<char>) -> int
    decreases s.len(),
{
    if s.len() == 0 {
        0
    } else {
        digits_value(s.drop_last()) * 10 + (s.last() as int - '0' as int)
    }
}

pub open spec fn is_digit(c: char) -> bool {
    '0' <= c && c <= '9'
}

pub open spec fn all_digits(s: Seq<char>) -> bool {
    s.len() > 0 && forall|i: int| 0 <= i < s.len() ==> is_digit(#[trigger] s[i])
}

/// An optional sign followed by one or more decimal digits, as a number.
pub open spec fn decimal_value(s: Seq<char>) -> Option<int> {
    if s.len() > 0 && s[0] == '-' && all_digits(s.drop_first()) {
        Some(-digits_value(s.drop_first()))
    } else if s.len() > 0 && s[0] == '+' && all_digits(s.drop_first()) {
        Some(digits_value(s.drop_first()))
    } else if all_digits(s) {
        Some(digits_value(s))
    } else {
        None
    }
}

/// What parsing `s` as an `i64` gives: a well-formed decimal that fits.
pub open spec fn parsed_i64(s: Seq<char>) -> Option<i64> {
    match decimal_value(s) {
        Some(v) => if i64::MIN <= v && v <= i64::MAX {
            Some(v as i64)
        } else {
            None
        },
        None => None,
    }
}

/// Relies on `<i64 as FromStr>::from_str`: an optional `+` or `-` and decimal
/// digits, nothing else, and a value in range.
#[verifier::external_body]
pub(crate) fn parse_i64(s: &str) -> (r: Option<i64>)
    ensures
        r == parsed_i64(s@),
{
    s.parse::<i64>().ok()
}

/// Relies on `str::chars`, collected: the characters of `s` in order.
#[verifier::external_body]
pub(crate) fn chars_of(s: &str) -> (r: Vec<char>)
    ensures
        r@ == s@,
{
    s.chars().collect()
}

/// Relies on `String: FromIterator<char>`: the string of these characters.
#[verifier::external_body]
pub(crate) fn string_of(v: &Vec<char>) -> (r: String)
    ensures
        r@ == v@,
{
    v.iter().collect()
}


/// The characters of `t` from `a` up to `b`.
pub(crate) fn slice_of(t: &Vec<char>, a: usize, b: usize) -> (r: Vec<char>)
    requires
        a <= b <= t@.len(),
    ensures
        r@ == t@.subrange(a as int, b as int),
{
    let mut r: Vec<char> = Vec::new();
    let mut k = a;
    while k < b
        invariant
            a <= k <= b,
            b <= t@.len(),
            r@ == t@.subrange(a as int, k as int),
        decreases b - k,
    {
        r.push(t[k]);
        k += 1;
        assert(r@ =~= t@.subrange(a as int, k as int));
    }
    r
}

} // verus!

verus! {

/// What `str::to_lowercase` gives for these characters.
pub uninterp spec fn lower_of(s: Seq<char>) -> Seq<char>;

/// Relies on `str::to_lowercase`: the result depends on the characters alone,
/// and nothing stays nothing.
#[verifier::external_body]
pub(crate) fn lowercase(v: &Vec<char>) -> (r: Vec<char>)
    ensures
        r@ == lower_of(v@),
        v@.len() == 0 ==> r@.len() == 0,
{
    let s: String = v.iter().collect();
    s.to_lowercase().chars().collect()
}

/// What `str::replace` gives: every match of `from` in `s` replaced by `to`.
pub uninterp spec fn replaced(s: Seq<char>, from: Seq<char>, to: Seq<char>) -> Seq<char>;

/// Relies on `str::replace`: the result depends on the three strings alone.
#[verifier::external_body]
pub(crate) fn replace_all(s: &Vec<char>, from: &Vec<char>, to: &Vec<char>) -> (r: Vec<char>)
    ensures
        r@ == replaced(s@, from@, to@),
{
    let s: String = s.iter().collect();
    let from: String = from.iter().collect();
    let to: String = to.iter().collect();
    s.replace(from.as_str(), to.as_str()).chars().collect()
}

pub open spec fn digit_char(d: int) -> char {
    ((d + '0' as int) as u32) as char
}

/// The decimal digits of a natural number.
pub open spec fn digits_of(n: nat) -> Seq<char>
    decreases n,
{
    if n < 10 {
        seq![digit_char(n as int)]
    } else {
        digits_of(n / 10).push(digit_char((n % 10) as int))
    }
}

/// An integer written in decimal, with a `-` where it is negative.
pub open spec fn decimal(n: int) -> Seq<char> {
    if n < 0 {
        seq!['-'] + digits_of((-n) as nat)
    } else {
        digits_of(n as nat)
    }
}

fn digit(d: u128) -> (c: char)
    requires
        d < 10,
    ensures
        c == digit_char(d as int),
{
    let v: Vec<char> = vec!['0', '1', '2', '3', '4', '5', '6', '7', '8', '9'];
    proof {
        assert(v@[0] == '0');
    }
    let c = v[d as usize];
    assert(c == digit_char(d as int)) by {
        assert(digit_char(0) == '0' && digit_char(1) == '1' && digit_char(2) == '2');
        assert(digit_char(3) == '3' && digit_char(4) == '4' && digit_char(5) == '5');
        assert(digit_char(6) == '6' && digit_char(7) == '7' && digit_char(8) == '8');
        assert(digit_char(9) == '9');
    }
    c
}

fn digits_chars(n: u128) -> (r: Vec<char>)
    ensures
        r@ == digits_of(n as nat),
    decreases n,
{
    if n < 10 {
        let r = vec![digit(n)];
        assert(r@ =~= digits_of(n as nat));
        r
    } else {
        let mut r = digits_chars(n / 10);
        r.push(digit(n % 10));
        r
    }
}

/// Writes an integer in decimal.
pub fn decimal_chars(n: i128) -> (r: Vec<char>)
    ensures
        r@ == decimal(n as int),
{
    if n < 0 {
        let mut r = vec!['-'];
        let magnitude: u128 = (-(n + 1)) as u128 + 1;
        let mut d = digits_chars(magnitude);
        r.append(&mut d);
        assert(r@ =~= decimal(n as int));
        r
    } else {
        digits_chars(n as u128)
    }
}

} // verus!
