//! Character sequences: conversions between strings and `Vec<char>`, character
//! classes, trimming, searching, and the decimal and hexadecimal renderings of
//! integers.

use vstd::prelude::*;

verus! {

/// `String::push` appends one character at the end.
pub assume_specification[ std::string::String::push ](s: &mut std::string::String, c: char)
    ensures
        final(s)@ == old(s)@.push(c),
;

// ---------------------------------------------------------------------------
// Views of collections of viewed values

/// The views of the elements of a sequence.
pub open spec fn views<T: View>(s: Seq<T>) -> Seq<T::V> {
    Seq::new(s.len(), |i: int| s[i]@)
}

/// The view of an optional value.
pub open spec fn opt_view<T: View>(o: Option<T>) -> Option<T::V> {
    match o {
        Some(x) => Some(x@),
        None => None,
    }
}

pub broadcast proof fn lemma_views_push<T: View>(s: Seq<T>, x: T)
    ensures
        #[trigger] views(s.push(x)) == views(s).push(x@),
{
    assert(views(s.push(x)) =~= views(s).push(x@));
}

// ---------------------------------------------------------------------------
// Strings and vectors of characters

/// The characters of a string.
pub fn chars_of(s: &str) -> (r: Vec<char>)
    ensures
        r@ == s@,
{
    let mut out: Vec<char> = Vec::new();
    for c in it: s.chars()
        invariant
            it.seq() == s@,
            out@ == s@.take(it.index() as int),
    {
        out.push(c);
        assert(s@.take(it.index() as int).push(c) =~= s@.take(it.index() as int + 1));
    }
    assert(s@.take(s@.len() as int) =~= s@);
    out
}

/// The string made of the characters `v[from..to]`.
pub fn string_of(v: &Vec<char>, from: usize, to: usize) -> (r: String)
    requires
        from <= to <= v@.len(),
    ensures
        r@ == v@.subrange(from as int, to as int),
{
    let mut out = String::new();
    let mut i: usize = from;
    while i < to
        invariant
            from <= i <= to <= v@.len(),
            out@ == v@.subrange(from as int, i as int),
        decreases to - i,
    {
        out.push(v[i]);
        assert(v@.subrange(from as int, i as int).push(v@[i as int]) =~= v@.subrange(
            from as int,
            i as int + 1,
        ));
        i = i + 1;
    }
    out
}

/// The concatenation of two strings.
pub fn cat2(a: &str, b: &str) -> (r: String)
    ensures
        r@ == a@ + b@,
{
    let mut s = a.to_owned();
    s.append(b);
    s
}

/// The concatenation of three strings.
pub fn cat3(a: &str, b: &str, c: &str) -> (r: String)
    ensures
        r@ == a@ + b@ + c@,
{
    let mut s = cat2(a, b);
    s.append(c);
    s
}

/// The concatenation of four strings.
pub fn cat4(a: &str, b: &str, c: &str, d: &str) -> (r: String)
    ensures
        r@ == a@ + b@ + c@ + d@,
{
    let mut s = cat3(a, b, c);
    s.append(d);
    s
}

/// The concatenation of five strings.
pub fn cat5(a: &str, b: &str, c: &str, d: &str, e: &str) -> (r: String)
    ensures
        r@ == a@ + b@ + c@ + d@ + e@,
{
    let mut s = cat4(a, b, c, d);
    s.append(e);
    s
}

/// The concatenation of six strings.
pub fn cat6(a: &str, b: &str, c: &str, d: &str, e: &str, f: &str) -> (r: String)
    ensures
        r@ == a@ + b@ + c@ + d@ + e@ + f@,
{
    let mut s = cat5(a, b, c, d, e);
    s.append(f);
    s
}

/// The concatenation of seven strings.
pub fn cat7(a: &str, b: &str, c: &str, d: &str, e: &str, f: &str, g: &str) -> (r: String)
    ensures
        r@ == a@ + b@ + c@ + d@ + e@ + f@ + g@,
{
    let mut s = cat6(a, b, c, d, e, f);
    s.append(g);
    s
}

/// Whether two strings hold the same characters.
pub fn same(a: &str, b: &str) -> (r: bool)
    ensures
        r == (a@ == b@),
{
    a.to_owned() == b.to_owned()
}

/// A copy of an optional string.
pub fn copy_opt(o: &Option<String>) -> (r: Option<String>)
    ensures
        opt_view(r) == opt_view(*o),
{
    match o {
        Some(s) => Some(s.clone()),
        None => None,
    }
}

/// A copy of a vector of strings.
pub fn copy_strings(v: &Vec<String>) -> (r: Vec<String>)
    ensures
        views(r@) == views(v@),
{
    let mut out: Vec<String> = Vec::new();
    let mut i: usize = 0;
    while i < v.len()
        invariant
            i <= v@.len(),
            views(out@) == views(v@).take(i as int),
        decreases v@.len() - i,
    {
        let s = v[i].clone();
        proof {
            lemma_views_push(out@, s);
            assert(views(v@).take(i as int).push(v@[i as int]@) =~= views(v@).take(i as int + 1));
        }
        out.push(s);
        i = i + 1;
    }
    assert(views(v@).take(v@.len() as int) =~= views(v@));
    out
}

// ---------------------------------------------------------------------------
// Character classes

pub open spec fn is_upper(c: char) -> bool {
    'A' <= c <= 'Z'
}

pub open spec fn is_lower(c: char) -> bool {
    'a' <= c <= 'z'
}

pub open spec fn is_digit(c: char) -> bool {
    '0' <= c <= '9'
}

pub open spec fn is_alnum(c: char) -> bool {
    is_upper(c) || is_lower(c) || is_digit(c)
}

/// The characters with the Unicode property White_Space.
pub open spec fn is_space(c: char) -> bool {
    ||| '\u{9}' <= c <= '\u{d}'
    ||| c == ' '
    ||| c == '\u{85}'
    ||| c == '\u{a0}'
    ||| c == '\u{1680}'
    ||| '\u{2000}' <= c <= '\u{200a}'
    ||| c == '\u{2028}'
    ||| c == '\u{2029}'
    ||| c == '\u{202f}'
    ||| c == '\u{205f}'
    ||| c == '\u{3000}'
}

pub fn upper(c: char) -> (r: bool)
    ensures
        r == is_upper(c),
{
    'A' <= c && c <= 'Z'
}

pub fn lower(c: char) -> (r: bool)
    ensures
        r == is_lower(c),
{
    'a' <= c && c <= 'z'
}

pub fn digit(c: char) -> (r: bool)
    ensures
        r == is_digit(c),
{
    '0' <= c && c <= '9'
}

pub fn alnum(c: char) -> (r: bool)
    ensures
        r == is_alnum(c),
{
    upper(c) || lower(c) || digit(c)
}

pub fn space(c: char) -> (r: bool)
    ensures
        r == is_space(c),
{
    ('\u{9}' <= c && c <= '\u{d}') || c == ' ' || c == '\u{85}' || c == '\u{a0}' || c == '\u{1680}' || (
    '\u{2000}' <= c && c <= '\u{200a}') || c == '\u{2028}' || c == '\u{2029}' || c == '\u{202f}' || c
        == '\u{205f}' || c == '\u{3000}'
}

/// Whether a text is empty or all white space.
pub open spec fn is_blank(s: Seq<char>) -> bool {
    forall|i: int| 0 <= i < s.len() ==> is_space(#[trigger] s[i])
}

pub fn blank(s: &str) -> (r: bool)
    ensures
        r == is_blank(s@),
{
    let v = chars_of(s);
    let mut i: usize = 0;
    while i < v.len()
        invariant
            v@ == s@,
            i <= v@.len(),
            forall|j: int| 0 <= j < i ==> is_space(#[trigger] s@[j]),
        decreases v@.len() - i,
    {
        if !space(v[i]) {
            return false;
        }
        i = i + 1;
    }
    true
}

// ---------------------------------------------------------------------------
// Decimal numbers

/// The character of a decimal digit.
pub open spec fn digit_char(d: int) -> char {
    (('0' as int) + d) as char
}

/// The decimal digits of a natural number, without leading zeros.
pub open spec fn decimal(n: nat) -> Seq<char>
    decreases n,
{
    if n < 10 {
        seq![digit_char(n as int)]
    } else {
        decimal(n / 10).push(digit_char(n as int % 10))
    }
}

fn digit_of(d: u64) -> (c: char)
    requires
        d < 10,
    ensures
        c == digit_char(d as int),
{
    (48u8 + d as u8) as char
}

/// The decimal rendering of an unsigned number.
pub fn decimal_u64(n: u64) -> (r: String)
    ensures
        r@ == decimal(n as nat),
    decreases n,
{
    if n < 10 {
        let mut s = String::new();
        s.push(digit_of(n));
        assert(s@ =~= decimal(n as nat));
        s
    } else {
        let mut s = decimal_u64(n / 10);
        s.push(digit_of(n % 10));
        s
    }
}

/// Why a text is not an integer of the wanted range.
#[derive(Debug, Clone, Copy, PartialEq, Eq, Structural)]
pub enum IntError {
    Empty,
    InvalidDigit,
    TooLarge,
    TooSmall,
}

/// The text shown for an `IntError`.
pub open spec fn int_error_text(e: IntError) -> Seq<char> {
    match e {
        IntError::Empty => "cannot parse integer from empty string"@,
        IntError::InvalidDigit => "invalid digit found in string"@,
        IntError::TooLarge => "number too large to fit in target type"@,
        IntError::TooSmall => "number too small to fit in target type"@,
    }
}

impl IntError {
    /// The text shown for the error.
    pub fn message(&self) -> (r: &'static str)
        ensures
            r@ == int_error_text(*self),
    {
        match self {
            IntError::Empty => "cannot parse integer from empty string",
            IntError::InvalidDigit => "invalid digit found in string",
            IntError::TooLarge => "number too large to fit in target type",
            IntError::TooSmall => "number too small to fit in target type",
        }
    }
}

/// Reads the decimal digits from position `i` on behind the value `acc`, towards the
/// side of zero that `negative` gives; the first position that fails decides the error.
pub open spec fn read_digits(
    s: Seq<char>,
    i: int,
    acc: int,
    negative: bool,
    min: int,
    max: int,
) -> Result<int, IntError>
    decreases s.len() - i,
{
    if i >= s.len() {
        Ok(acc)
    } else if !is_digit(s[i]) {
        Err(IntError::InvalidDigit)
    } else {
        let d = (s[i] as int) - ('0' as int);
        let next = if negative {
            acc * 10 - d
        } else {
            acc * 10 + d
        };
        if next > max {
            Err(IntError::TooLarge)
        } else if next < min {
            Err(IntError::TooSmall)
        } else {
            read_digits(s, i + 1, next, negative, min, max)
        }
    }
}

/// The integer between `min` and `max` that a text stands for: decimal digits, with a
/// sign in front if wanted, where `-` is a sign only if negative values are in range.
pub open spec fn read_int(s: Seq<char>, min: int, max: int) -> Result<int, IntError> {
    if s.len() == 0 {
        Err(IntError::Empty)
    } else if s.len() == 1 && (s[0] == '+' || s[0] == '-') {
        Err(IntError::InvalidDigit)
    } else if s[0] == '+' {
        read_digits(s, 1, 0, false, min, max)
    } else if s[0] == '-' && min < 0 {
        read_digits(s, 1, 0, true, min, max)
    } else {
        read_digits(s, 0, 0, false, min, max)
    }
}

/// The integer of a range that a text stands for.
pub fn parse_int(s: &str, min: i128, max: i128) -> (r: Result<i128, IntError>)
    requires
        -0x1_0000_0000_0000_0000 <= min <= 0 <= max <= 0x1_0000_0000_0000_0000,
    ensures
        match r {
            Ok(n) => read_int(s@, min as int, max as int) == Ok::<int, IntError>(n as int) && min
                <= n <= max,
            Err(e) => read_int(s@, min as int, max as int) == Err::<int, IntError>(e),
        },
{
    let v = chars_of(s);
    if v.len() == 0 {
        return Err(IntError::Empty);
    }
    if v.len() == 1 && (v[0] == '+' || v[0] == '-') {
        return Err(IntError::InvalidDigit);
    }
    let negative = v[0] == '-' && min < 0;
    let mut i: usize = if v[0] == '+' || negative {
        1
    } else {
        0
    };
    let mut n: i128 = 0;
    while i < v.len()
        invariant
            v@ == s@,
            i <= v@.len(),
            -0x1_0000_0000_0000_0000 <= min <= n <= max <= 0x1_0000_0000_0000_0000,
            read_int(s@, min as int, max as int) == read_digits(
                s@,
                i as int,
                n as int,
                negative,
                min as int,
                max as int,
            ),
        decreases v@.len() - i,
    {
        let c: char = v[i];
        if !digit(c) {
            return Err(IntError::InvalidDigit);
        }
        let d: i128 = (c as u32 - 48) as i128;
        let next: i128 = if negative {
            n * 10 - d
        } else {
            n * 10 + d
        };
        if next > max {
            return Err(IntError::TooLarge);
        }
        if next < min {
            return Err(IntError::TooSmall);
        }
        n = next;
        i = i + 1;
    }
    Ok(n)
}

// ---------------------------------------------------------------------------
// Hexadecimal

/// The lower case character of a hexadecimal digit.
pub open spec fn hex_digit(d: int) -> char {
    if d < 10 {
        (('0' as int) + d) as char
    } else {
        (('a' as int) + (d - 10)) as char
    }
}

/// The last `width` hexadecimal digits of a number.
pub open spec fn hex_fixed(n: nat, width: nat) -> Seq<char>
    decreases width,
{
    if width == 0 {
        Seq::empty()
    } else {
        hex_fixed(n / 16, (width - 1) as nat).push(hex_digit(n as int % 16))
    }
}

fn hex_char(d: u64) -> (c: char)
    requires
        d < 16,
    ensures
        c == hex_digit(d as int),
{
    if d < 10 {
        (48u8 + d as u8) as char
    } else {
        (87u8 + d as u8) as char
    }
}

/// The last `width` hexadecimal digits of a number.
pub fn hex_padded(n: u64, width: u32) -> (r: String)
    ensures
        r@ == hex_fixed(n as nat, width as nat),
    decreases width,
{
    if width == 0 {
        let s = String::new();
        assert(s@ =~= Seq::<char>::empty());
        s
    } else {
        let mut s = hex_padded(n / 16, width - 1);
        s.push(hex_char(n % 16));
        s
    }
}

/// The decimal form of a number is digits, one or more.
pub proof fn lemma_decimal_digits(n: nat)
    ensures
        decimal(n).len() > 0,
        forall|k: int| 0 <= k < decimal(n).len() ==> is_digit(#[trigger] decimal(n)[k]),
    decreases n,
{
    if n >= 10 {
        lemma_decimal_digits(n / 10);
    }
}

proof fn lemma_read_one_more(s: Seq<char>, d: int, i: int, acc: int, v: int, max: int)
    requires
        0 <= i <= s.len(),
        0 <= d < 10,
        0 <= acc,
        0 <= v,
        read_digits(s, i, acc, false, 0, max) == Ok::<int, IntError>(v),
        v * 10 + d <= max,
    ensures
        read_digits(s.push(digit_char(d)), i, acc, false, 0, max) == Ok::<int, IntError>(v * 10 + d),
    decreases s.len() - i,
{
    let t = s.push(digit_char(d));
    if i == s.len() {
        assert(t[i] == digit_char(d));
        assert((digit_char(d) as int) - ('0' as int) == d);
        assert(read_digits(t, i + 1, v * 10 + d, false, 0, max) == Ok::<int, IntError>(v * 10 + d));
    } else {
        assert(t[i] == s[i]);
        lemma_read_one_more(
            s,
            d,
            i + 1,
            acc * 10 + ((s[i] as int) - ('0' as int)),
            v,
            max,
        );
    }
}

proof fn lemma_decimal_read(n: nat, max: int)
    requires
        n <= max,
    ensures
        read_digits(decimal(n), 0, 0, false, 0, max) == Ok::<int, IntError>(n as int),
    decreases n,
{
    if n < 10 {
        let s = decimal(n);
        assert(s[0] == digit_char(n as int));
        assert((digit_char(n as int) as int) - ('0' as int) == n);
        assert(read_digits(s, 1, n as int, false, 0, max) == Ok::<int, IntError>(n as int));
    } else {
        lemma_decimal_read(n / 10, max);
        lemma_read_one_more(decimal(n / 10), n as int % 10, 0, 0, (n / 10) as int, max);
    }
}

/// The decimal form of a number is read as that number.
pub proof fn law_decimals_are_read_back(n: nat, max: int)
    requires
        n <= max,
    ensures
        read_int(decimal(n), 0, max) == Ok::<int, IntError>(n as int),
{
    lemma_decimal_digits(n);
    lemma_decimal_read(n, max);
    assert(is_digit(decimal(n)[0]));
}

/// Different numbers have different decimal forms.
pub proof fn law_decimals_are_distinct(a: nat, b: nat)
    requires
        decimal(a) == decimal(b),
    ensures
        a == b,
{
    let max = if a <= b {
        b as int
    } else {
        a as int
    };
    law_decimals_are_read_back(a, max);
    law_decimals_are_read_back(b, max);
}

/// Digits behind a text of digits, read towards either side of zero.
proof fn lemma_read_signed(s: Seq<char>, d: int, i: int, acc: int, v: int, minus: bool, min: int, max: int)
    requires
        0 <= i <= s.len(),
        0 <= d < 10,
        min <= 0 <= max,
        read_digits(s, i, acc, minus, min, max) == Ok::<int, IntError>(v),
        min <= (if minus {
            v * 10 - d
        } else {
            v * 10 + d
        }) <= max,
    ensures
        read_digits(s.push(digit_char(d)), i, acc, minus, min, max) == Ok::<int, IntError>(
            if minus {
                v * 10 - d
            } else {
                v * 10 + d
            },
        ),
    decreases s.len() - i,
{
    let t = s.push(digit_char(d));
    if i == s.len() {
        assert(t[i] == digit_char(d));
        assert((digit_char(d) as int) - ('0' as int) == d);
        let w = if minus {
            v * 10 - d
        } else {
            v * 10 + d
        };
        assert(read_digits(t, i + 1, w, minus, min, max) == Ok::<int, IntError>(w));
    } else {
        assert(t[i] == s[i]);
        let e = (s[i] as int) - ('0' as int);
        lemma_read_signed(
            s,
            d,
            i + 1,
            if minus {
                acc * 10 - e
            } else {
                acc * 10 + e
            },
            v,
            minus,
            min,
            max,
        );
    }
}

proof fn lemma_signed_decimal(n: nat, minus: bool, min: int, max: int)
    requires
        min <= 0 <= max,
        min <= (if minus {
            -(n as int)
        } else {
            n as int
        }) <= max,
    ensures
        read_digits(decimal(n), 0, 0, minus, min, max) == Ok::<int, IntError>(
            if minus {
                -(n as int)
            } else {
                n as int
            },
        ),
    decreases n,
{
    if n < 10 {
        let s = decimal(n);
        assert(s[0] == digit_char(n as int));
        assert((digit_char(n as int) as int) - ('0' as int) == n);
        let w = if minus {
            -(n as int)
        } else {
            n as int
        };
        assert(read_digits(s, 1, w, minus, min, max) == Ok::<int, IntError>(w));
    } else {
        lemma_signed_decimal(n / 10, minus, min, max);
        let v = if minus {
            -((n / 10) as int)
        } else {
            (n / 10) as int
        };
        lemma_read_signed(decimal(n / 10), n as int % 10, 0, 0, v, minus, min, max);
    }
}

/// Digits are read alike behind a sign.
proof fn lemma_read_behind(c: char, s: Seq<char>, i: int, acc: int, minus: bool, min: int, max: int)
    requires
        0 <= i <= s.len(),
    ensures
        read_digits(seq![c] + s, i + 1, acc, minus, min, max) == read_digits(
            s,
            i,
            acc,
            minus,
            min,
            max,
        ),
    decreases s.len() - i,
{
    if i < s.len() {
        assert((seq![c] + s)[i + 1] == s[i]);
        let d = (s[i] as int) - ('0' as int);
        lemma_read_behind(
            c,
            s,
            i + 1,
            if minus {
                acc * 10 - d
            } else {
                acc * 10 + d
            },
            minus,
            min,
            max,
        );
    }
}

/// What was read is in range, and is read in every larger range too.
proof fn lemma_read_in_range(s: Seq<char>, i: int, acc: int, min: int, max: int, wider: int)
    requires
        0 <= i <= s.len(),
        min <= acc <= max <= wider,
        read_digits(s, i, acc, false, min, max) is Ok,
    ensures
        read_digits(s, i, acc, false, min, max) == read_digits(s, i, acc, false, min, wider),
        min <= read_digits(s, i, acc, false, min, max)->Ok_0 <= max,
    decreases s.len() - i,
{
    if i < s.len() {
        let d = (s[i] as int) - ('0' as int);
        lemma_read_in_range(s, i + 1, acc * 10 + d, min, max, wider);
    }
}

/// Whatever text is read as an integer, the characters behind its first are digits.
proof fn lemma_read_are_digits(s: Seq<char>, i: int, acc: int, minus: bool, min: int, max: int, k: int)
    requires
        0 <= i <= k < s.len(),
        read_digits(s, i, acc, minus, min, max) is Ok,
    ensures
        '0' <= s[k] <= '9',
    decreases s.len() - i,
{
    if i < k {
        let d = (s[i] as int) - ('0' as int);
        lemma_read_are_digits(
            s,
            i + 1,
            if minus {
                acc * 10 - d
            } else {
                acc * 10 + d
            },
            minus,
            min,
            max,
            k,
        );
    }
}

/// The decimal form of a number is read as that number, with or without a plus sign, where
/// it is in range, and refused where it is too large. Behind a minus sign it is read as the
/// negative number, if such are in range.
pub proof fn law_signed_decimals_are_read_back(n: nat, min: int, max: int)
    requires
        min <= 0 <= max,
    ensures
        n <= max ==> read_int(decimal(n), min, max) == Ok::<int, IntError>(n as int),
        n <= max ==> read_int(seq!['+'] + decimal(n), min, max) == Ok::<int, IntError>(n as int),
        n > max ==> read_int(decimal(n), min, max) is Err,
        min < 0 && min <= -n ==> read_int(seq!['-'] + decimal(n), min, max) == Ok::<int, IntError>(
            -n,
        ),
        min == 0 ==> read_int(seq!['-'] + decimal(n), min, max) is Err,
{
    lemma_decimal_digits(n);
    assert(is_digit(decimal(n)[0]));
    assert((seq!['+'] + decimal(n))[0] == '+');
    assert((seq!['-'] + decimal(n))[0] == '-');
    lemma_read_behind('+', decimal(n), 0, 0, false, min, max);
    lemma_read_behind('-', decimal(n), 0, 0, true, min, max);
    if n <= max {
        lemma_signed_decimal(n, false, min, max);
    } else {
        lemma_signed_decimal(n, false, min, n as int);
        if read_int(decimal(n), min, max) is Ok {
            lemma_read_in_range(decimal(n), 0, 0, min, max, n as int);
        }
    }
    if min < 0 && min <= -n {
        lemma_signed_decimal(n, true, min, max);
    }
}

/// What is read as an integer is made of digits, behind a sign if it has one.
pub proof fn law_integers_are_made_of_digits(s: Seq<char>, min: int, max: int, k: int)
    requires
        read_int(s, min, max) is Ok,
        0 <= k < s.len(),
    ensures
        '0' <= s[k] <= '9' || (k == 0 && s.len() > 1 && (s[0] == '+' || (s[0] == '-' && min < 0))),
{
    if s[0] == '+' {
        if k > 0 {
            lemma_read_are_digits(s, 1, 0, false, min, max, k);
        }
    } else if s[0] == '-' && min < 0 {
        if k > 0 {
            lemma_read_are_digits(s, 1, 0, true, min, max, k);
        }
    } else {
        lemma_read_are_digits(s, 0, 0, false, min, max, k);
    }
}

} // verus!
