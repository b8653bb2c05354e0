//! Integers of every width, and their decimal text.

use vstd::prelude::*;

verus! {

/// The width tag of an integer type.
#[derive(Debug, Clone, Copy, PartialEq, Eq, Structural)]
pub enum IntegerWidth {
    U8,
    U16,
    U32,
    U64,
    U128,
    I8,
    I16,
    I32,
    I64,
    I128,
}

/// The width tag of a floating point type.
#[derive(Debug, Clone, Copy, PartialEq, Eq, Structural)]
pub enum FloatWidth {
    F32,
    F64,
}

impl IntegerWidth {
    /// The least value of the width.
    pub open spec fn min(self) -> int {
        match self {
            IntegerWidth::I8 => -0x80,
            IntegerWidth::I16 => -0x8000,
            IntegerWidth::I32 => -0x8000_0000,
            IntegerWidth::I64 => -0x8000_0000_0000_0000,
            IntegerWidth::I128 => -0x8000_0000_0000_0000_0000_0000_0000_0000,
            _ => 0,
        }
    }

    /// The greatest value of the width.
    pub open spec fn max(self) -> int {
        match self {
            IntegerWidth::U8 => 0xff,
            IntegerWidth::U16 => 0xffff,
            IntegerWidth::U32 => 0xffff_ffff,
            IntegerWidth::U64 => 0xffff_ffff_ffff_ffff,
            IntegerWidth::U128 => 0xffff_ffff_ffff_ffff_ffff_ffff_ffff_ffff,
            IntegerWidth::I8 => 0x7f,
            IntegerWidth::I16 => 0x7fff,
            IntegerWidth::I32 => 0x7fff_ffff,
            IntegerWidth::I64 => 0x7fff_ffff_ffff_ffff,
            IntegerWidth::I128 => 0x7fff_ffff_ffff_ffff_ffff_ffff_ffff_ffff,
        }
    }

    /// Whether `v` is a value of the width.
    pub open spec fn holds(self, v: int) -> bool {
        self.min() <= v <= self.max()
    }

    /// The magnitude of the least value.
    fn min_magnitude(self) -> (m: u128)
        ensures
            m == -self.min(),
    {
        match self {
            IntegerWidth::I8 => 0x80,
            IntegerWidth::I16 => 0x8000,
            IntegerWidth::I32 => 0x8000_0000,
            IntegerWidth::I64 => 0x8000_0000_0000_0000,
            IntegerWidth::I128 => 0x8000_0000_0000_0000_0000_0000_0000_0000,
            _ => 0,
        }
    }

    /// The greatest value.
    fn max_magnitude(self) -> (m: u128)
        ensures
            m == self.max(),
    {
        match self {
            IntegerWidth::U8 => 0xff,
            IntegerWidth::U16 => 0xffff,
            IntegerWidth::U32 => 0xffff_ffff,
            IntegerWidth::U64 => 0xffff_ffff_ffff_ffff,
            IntegerWidth::U128 => 0xffff_ffff_ffff_ffff_ffff_ffff_ffff_ffff,
            IntegerWidth::I8 => 0x7f,
            IntegerWidth::I16 => 0x7fff,
            IntegerWidth::I32 => 0x7fff_ffff,
            IntegerWidth::I64 => 0x7fff_ffff_ffff_ffff,
            IntegerWidth::I128 => 0x7fff_ffff_ffff_ffff_ffff_ffff_ffff_ffff,
        }
    }
}

/// An integer between `-(2^128 - 1)` and `2^128 - 1`, kept as sign and magnitude.
/// Zero is never negative.
#[derive(Debug, Clone, Copy, PartialEq, Eq)]
pub struct Integer {
    negative: bool,
    magnitude: u128,
}

impl View for Integer {
    type V = int;

    closed spec fn view(&self) -> int {
        if self.negative {
            -(self.magnitude as int)
        } else {
            self.magnitude as int
        }
    }
}

impl Integer {
    /// The integer of the given sign and magnitude.
    pub fn new(negative: bool, magnitude: u128) -> (i: Integer)
        ensures
            i@ == if negative { -(magnitude as int) } else { magnitude as int },
    {
        Integer { negative: negative && magnitude != 0, magnitude }
    }

    /// Whether the integer is below zero.
    pub fn is_negative(&self) -> (b: bool)
        ensures
            b == (self@ < 0),
    {
        self.negative && self.magnitude != 0
    }

    /// The absolute value.
    pub fn magnitude(&self) -> (m: u128)
        ensures
            m == if self@ < 0 { -self@ } else { self@ },
    {
        self.magnitude
    }

    /// Whether two integers are the same number.
    pub fn same(&self, other: &Integer) -> (b: bool)
        ensures
            b == (self@ == other@),
    {
        self.magnitude == other.magnitude && (self.is_negative() == other.is_negative())
    }

    /// Whether the integer is a value of `width`.
    pub fn fits(&self, width: IntegerWidth) -> (b: bool)
        ensures
            b == width.holds(self@),
    {
        if self.is_negative() {
            self.magnitude <= width.min_magnitude()
        } else {
            self.magnitude <= width.max_magnitude()
        }
    }

    /// Reads decimal text: an optional sign, then one digit or more.
    /// `None` where the text is no such number or its magnitude is 2^128 or more.
    pub fn from_decimal(text: &str) -> (r: Option<Integer>)
        ensures
            match r {
                Some(i) => parse_integer(text@) == Some(i@),
                None => match parse_integer(text@) {
                    Some(v) => v < -0xffff_ffff_ffff_ffff_ffff_ffff_ffff_ffff || v
                        > 0xffff_ffff_ffff_ffff_ffff_ffff_ffff_ffff,
                    None => true,
                },
            },
    {
        let n: usize = text.unicode_len();
        if n == 0 {
            return None;
        }
        let first: char = text.get_char(0);
        let negative: bool = first == '-';
        let start: usize = if first == '-' || first == '+' {
            1
        } else {
            0
        };
        if start == n {
            return None;
        }
        let ghost digits: Seq<char> = text@.skip(start as int);
        proof {
            if start == 0 {
                assert(digits =~= text@);
            }
        }
        let mut acc: u128 = 0;
        let mut i: usize = start;
        while i < n
            invariant
                start <= i <= n,
                n == text@.len(),
                n > 0,
                start == 0 || start == 1,
                (start == 1) == (text@[0] == '-' || text@[0] == '+'),
                negative == (text@[0] == '-'),
                digits == text@.skip(start as int),
                start == 0 ==> digits == text@,
                all_digits(digits.take(i - start)),
                acc == digits_value(digits.take(i - start)),
            decreases n - i,
        {
            let c: char = text.get_char(i);
            let ghost k: int = i - start;
            proof {
                assert(digits[k] == c);
                assert(digits.take(k + 1).drop_last() =~= digits.take(k));
                assert(digits.take(k + 1).last() == c);
            }
            match digit_of(c) {
                None => {
                    proof {
                        assert(!all_digits(digits)) by {
                            if all_digits(digits) {
                                assert(is_digit(digits[k]));
                            }
                        }
                    }
                    return None;
                },
                Some(d) => {
                    let next: Option<u128> = match acc.checked_mul(10) {
                        Some(m) => m.checked_add(d as u128),
                        None => None,
                    };
                    match next {
                        Some(v) => {
                            acc = v;
                        },
                        None => {
                            proof {
                                assert(digits_value(digits.take(k + 1)) > u128::MAX);
                                if all_digits(digits) {
                                    lemma_digits_value_prefix(digits, k + 1);
                                }
                            }
                            return None;
                        },
                    }
                    proof {
                        assert forall|j: int| 0 <= j < k + 1 implies is_digit(
                            #[trigger] digits.take(k + 1)[j],
                        ) by {
                            if j < k {
                                assert(digits.take(k)[j] == digits[j]);
                            }
                        }
                    }
                },
            }
            i = i + 1;
        }
        proof {
            assert(digits.take(n - start) =~= digits);
        }
        Some(Integer::new(negative, acc))
    }

    /// The decimal text of the integer: its digits, after a `-` where it is
    /// below zero.
    pub fn to_decimal(&self) -> (s: String)
        ensures
            s@ == integer_text(self@),
    {
        let digits: String = nat_to_decimal(self.magnitude);
        if self.is_negative() {
            proof {
                reveal_strlit("-");
                assert("-"@ =~= seq!['-']);
            }
            String::from_str("-").concat(digits.as_str())
        } else {
            digits
        }
    }
}

/// Whether `c` is one of the ten decimal digits.
pub open spec fn is_digit(c: char) -> bool {
    c == '0' || c == '1' || c == '2' || c == '3' || c == '4' || c == '5' || c == '6' || c == '7'
        || c == '8' || c == '9'
}

/// The value of a decimal digit.
pub open spec fn digit_value(c: char) -> nat {
    if c == '1' {
        1
    } else if c == '2' {
        2
    } else if c == '3' {
        3
    } else if c == '4' {
        4
    } else if c == '5' {
        5
    } else if c == '6' {
        6
    } else if c == '7' {
        7
    } else if c == '8' {
        8
    } else if c == '9' {
        9
    } else {
        0
    }
}

/// The digit that stands for a value below ten.
pub open spec fn digit_char(d: nat) -> char {
    if d == 1 {
        '1'
    } else if d == 2 {
        '2'
    } else if d == 3 {
        '3'
    } else if d == 4 {
        '4'
    } else if d == 5 {
        '5'
    } else if d == 6 {
        '6'
    } else if d == 7 {
        '7'
    } else if d == 8 {
        '8'
    } else if d == 9 {
        '9'
    } else {
        '0'
    }
}

/// Whether every character of `s` is a decimal digit.
pub open spec fn all_digits(s: Seq<char>) -> bool {
    forall|i: int| 0 <= i < s.len() ==> is_digit(#[trigger] s[i])
}

/// The number that a sequence of decimal digits denotes.
pub open spec fn digits_value(s: Seq<char>) -> nat
    decreases s.len(),
{
    if s.len() == 0 {
        0
    } else {
        digits_value(s.drop_last()) * 10 + digit_value(s.last())
    }
}

/// The number that decimal text denotes: an optional `+` or `-`, then one digit
/// or more. `None` for any other text.
pub open spec fn parse_integer(s: Seq<char>) -> Option<int> {
    if s.len() == 0 {
        None
    } else if s[0] == '-' || s[0] == '+' {
        let digits = s.skip(1);
        if digits.len() > 0 && all_digits(digits) {
            if s[0] == '-' {
                Some(-(digits_value(digits) as int))
            } else {
                Some(digits_value(digits) as int)
            }
        } else {
            None
        }
    } else if all_digits(s) {
        Some(digits_value(s) as int)
    } else {
        None
    }
}

/// The decimal digits of a natural number, without leading zeros.
pub open spec fn nat_text(n: nat) -> Seq<char>
    decreases n,
{
    if n < 10 {
        seq![digit_char(n)]
    } else {
        nat_text(n / 10).push(digit_char(n % 10))
    }
}

/// The decimal text of an integer.
pub open spec fn integer_text(v: int) -> Seq<char> {
    if v < 0 {
        seq!['-'] + nat_text((-v) as nat)
    } else {
        nat_text(v as nat)
    }
}

/// A prefix of a digit sequence denotes no more than the whole.
pub proof fn lemma_digits_value_prefix(s: Seq<char>, k: int)
    requires
        0 <= k <= s.len(),
    ensures
        digits_value(s.take(k)) <= digits_value(s),
    decreases s.len(),
{
    if k == s.len() {
        assert(s.take(k) =~= s);
    } else {
        assert(s.drop_last().take(k) =~= s.take(k));
        lemma_digits_value_prefix(s.drop_last(), k);
    }
}

/// The digits of a number are digits, and denote the number.
pub proof fn lemma_nat_text(n: nat)
    ensures
        nat_text(n).len() > 0,
        all_digits(nat_text(n)),
        digits_value(nat_text(n)) == n,
    decreases n,
{
    if n < 10 {
        let s = nat_text(n);
        assert(s.drop_last() =~= Seq::<char>::empty());
        assert(digits_value(s.drop_last()) == 0);
    } else {
        lemma_nat_text(n / 10);
        let s = nat_text(n);
        assert(s.drop_last() =~= nat_text(n / 10));
        assert forall|i: int| 0 <= i < s.len() implies is_digit(#[trigger] s[i]) by {
            if i < s.len() - 1 {
                assert(s[i] == nat_text(n / 10)[i]);
            }
        }
    }
}

/// Decimal text reads back as the integer it was written from.
pub proof fn lemma_integer_text_round_trip(v: int)
    ensures
        parse_integer(integer_text(v)) == Some(v),
{
    if v < 0 {
        let n = (-v) as nat;
        lemma_nat_text(n);
        let s = integer_text(v);
        assert(s.skip(1) =~= nat_text(n));
    } else {
        lemma_nat_text(v as nat);
        let s = nat_text(v as nat);
        assert(is_digit(s[0]));
    }
}

/// The value of `c` where it is a decimal digit.
fn digit_of(c: char) -> (r: Option<u8>)
    ensures
        r is Some == is_digit(c),
        r matches Some(d) ==> d == digit_value(c) && d < 10,
{
    if c == '0' {
        Some(0)
    } else if c == '1' {
        Some(1)
    } else if c == '2' {
        Some(2)
    } else if c == '3' {
        Some(3)
    } else if c == '4' {
        Some(4)
    } else if c == '5' {
        Some(5)
    } else if c == '6' {
        Some(6)
    } else if c == '7' {
        Some(7)
    } else if c == '8' {
        Some(8)
    } else if c == '9' {
        Some(9)
    } else {
        None
    }
}

/// The one-character text of a digit.
fn digit_str(d: u8) -> (s: &'static str)
    requires
        d < 10,
    ensures
        s@ == seq![digit_char(d as nat)],
{
    proof {
        reveal_strlit("0");
        reveal_strlit("1");
        reveal_strlit("2");
        reveal_strlit("3");
        reveal_strlit("4");
        reveal_strlit("5");
        reveal_strlit("6");
        reveal_strlit("7");
        reveal_strlit("8");
        reveal_strlit("9");
    }
    let s: &'static str = if d == 0 {
        "0"
    } else if d == 1 {
        "1"
    } else if d == 2 {
        "2"
    } else if d == 3 {
        "3"
    } else if d == 4 {
        "4"
    } else if d == 5 {
        "5"
    } else if d == 6 {
        "6"
    } else if d == 7 {
        "7"
    } else if d == 8 {
        "8"
    } else {
        "9"
    };
    assert(s@ =~= seq![digit_char(d as nat)]);
    s
}

/// The decimal digits of `n`.
pub fn nat_to_decimal(n: u128) -> (s: String)
    ensures
        s@ == nat_text(n as nat),
    decreases n,
{
    if n < 10 {
        String::from_str(digit_str(n as u8))
    } else {
        let head: String = nat_to_decimal(n / 10);
        let s: String = head.concat(digit_str((n % 10) as u8));
        assert(s@ =~= nat_text(n as nat));
        s
    }
}

/// Whether `c` is a sign.
pub open spec fn is_sign(c: char) -> bool {
    c == '+' || c == '-'
}

/// The end of the run of decimal digits that begins at `from`.
pub open spec fn digits_end(s: Seq<char>, from: int) -> int
    decreases s.len() - from,
{
    if 0 <= from < s.len() && is_digit(s[from]) {
        digits_end(s, from + 1)
    } else {
        from
    }
}

/// Whether `s` is a decimal number: digits with or without a point among or
/// beside them, at least one digit in all, and after them, or not, an exponent:
/// `e` or `E`, a sign or none, and one digit or more.
pub open spec fn is_number(s: Seq<char>) -> bool {
    let whole = digits_end(s, 0);
    let point = whole < s.len() && s[whole] == '.';
    let mantissa = if point {
        digits_end(s, whole + 1)
    } else {
        whole
    };
    let digits = if point {
        mantissa - 1
    } else {
        mantissa
    };
    digits > 0 && (mantissa == s.len() || ((s[mantissa] == 'e' || s[mantissa] == 'E') && {
        let start = if mantissa + 1 < s.len() && is_sign(s[mantissa + 1]) {
            mantissa + 2
        } else {
            mantissa + 1
        };
        digits_end(s, start) > start && digits_end(s, start) == s.len()
    }))
}

/// Whether `s` is `inf`, `infinity` or `nan`, in letters of either case.
pub open spec fn is_special(s: Seq<char>) -> bool {
    ||| is_word(s, "inf"@, "INF"@)
    ||| is_word(s, "infinity"@, "INFINITY"@)
    ||| is_word(s, "nan"@, "NAN"@)
}

/// Whether `s` is the word `lower`, each letter in lower or in upper case.
pub open spec fn is_word(s: Seq<char>, lower: Seq<char>, upper: Seq<char>) -> bool {
    s.len() == lower.len() && forall|i: int|
        0 <= i < s.len() ==> (#[trigger] s[i]) == lower[i] || s[i] == upper[i]
}

/// Whether `s` is the text of a floating point number: a sign or none, and then
/// a decimal number or one of `inf`, `infinity` and `nan`.
pub open spec fn float_text(s: Seq<char>) -> bool {
    let body = if s.len() > 0 && is_sign(s[0]) {
        s.skip(1)
    } else {
        s
    };
    is_special(body) || is_number(body)
}

/// The end of the run of decimal digits of `text` that begins at `from`, the
/// first `skip` characters of `text` left aside.
fn scan_digits(text: &str, skip: usize, from: usize) -> (end: usize)
    requires
        skip <= text@.len(),
        from <= text@.len() - skip,
    ensures
        end == digits_end(text@.skip(skip as int), from as int),
        from <= end <= text@.len() - skip,
{
    let n: usize = text.unicode_len();
    let ghost body = text@.skip(skip as int);
    let mut i: usize = from;
    while i < n - skip
        invariant
            from <= i <= n - skip,
            skip <= n,
            n == text@.len(),
            body == text@.skip(skip as int),
            digits_end(body, from as int) == digits_end(body, i as int),
        decreases n - skip - i,
    {
        let c: char = text.get_char(i + skip);
        assert(body[i as int] == c);
        if digit_of(c).is_none() {
            return i;
        }
        i = i + 1;
    }
    i
}

/// Whether `text`, its first `skip` characters left aside, is the word
/// `lower`, each letter in lower or in upper case.
fn matches_word(text: &str, skip: usize, lower: &str, upper: &str) -> (b: bool)
    requires
        skip <= text@.len(),
        lower@.len() == upper@.len(),
    ensures
        b == is_word(text@.skip(skip as int), lower@, upper@),
{
    let n: usize = text.unicode_len();
    let m: usize = lower.unicode_len();
    if n - skip != m {
        return false;
    }
    let ghost body = text@.skip(skip as int);
    let mut i: usize = 0;
    while i < m
        invariant
            i <= m,
            skip <= n,
            n - skip == m,
            n == text@.len(),
            m == lower@.len(),
            m == upper@.len(),
            body == text@.skip(skip as int),
            forall|k: int| 0 <= k < i ==> (#[trigger] body[k]) == lower@[k] || body[k] == upper@[k],
        decreases m - i,
    {
        let c: char = text.get_char(i + skip);
        assert(body[i as int] == c);
        if c != lower.get_char(i) && c != upper.get_char(i) {
            return false;
        }
        i = i + 1;
    }
    true
}

/// Whether `text` is the text of a floating point number.
pub fn is_float_text(text: &str) -> (b: bool)
    ensures
        b == float_text(text@),
{
    let n: usize = text.unicode_len();
    let skip: usize = if n > 0 && (text.get_char(0) == '+' || text.get_char(0) == '-') {
        1
    } else {
        0
    };
    let ghost body = text@.skip(skip as int);
    proof {
        if skip == 0 {
            assert(body =~= text@);
        }
        reveal_strlit("inf");
        reveal_strlit("INF");
        reveal_strlit("infinity");
        reveal_strlit("INFINITY");
        reveal_strlit("nan");
        reveal_strlit("NAN");
    }
    if matches_word(text, skip, "inf", "INF") || matches_word(text, skip, "infinity", "INFINITY")
        || matches_word(text, skip, "nan", "NAN") {
        return true;
    }
    let m: usize = n - skip;
    let whole: usize = scan_digits(text, skip, 0);
    let point: bool = whole < m && text.get_char(whole + skip) == '.';
    assert(whole < m ==> body[whole as int] == text@[whole + skip]);
    let mantissa: usize = if point {
        scan_digits(text, skip, whole + 1)
    } else {
        whole
    };
    let digits: usize = if point {
        mantissa - 1
    } else {
        mantissa
    };
    if digits == 0 {
        return false;
    }
    if mantissa == m {
        return true;
    }
    let e: char = text.get_char(mantissa + skip);
    assert(body[mantissa as int] == e);
    if e != 'e' && e != 'E' {
        return false;
    }
    assert(mantissa + 1 < m ==> body[mantissa + 1] == text@[mantissa + 1 + skip]);
    let start: usize = if mantissa + 1 < m && (text.get_char(mantissa + 1 + skip) == '+'
        || text.get_char(mantissa + 1 + skip) == '-') {
        mantissa + 2
    } else {
        mantissa + 1
    };
    if start > m {
        return false;
    }
    let end: usize = scan_digits(text, skip, start);
    end > start && end == m
}

} // verus!
