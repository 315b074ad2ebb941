//! Text: joining, decimal numbers, trimming.

use vstd::prelude::*;
use vstd::string::StringExecFns;

verus! {

/// Appends a character to a string.
pub assume_specification[ String::push ](s: &mut String, c: char)
    ensures
        final(s)@ == old(s)@.push(c),
;

/// Values that can be shown as text.
pub trait Text {
    /// The text that shows the value.
    spec fn text(&self) -> Seq<char>;

    /// Shows the value.
    fn to_text(&self) -> (r: String)
        ensures
            r@ == self.text(),
    ;
}

impl Text for String {
    open spec fn text(&self) -> Seq<char> {
        self@
    }

    fn to_text(&self) -> (r: String) {
        self.clone()
    }
}

/// The decimal digit of a number below ten.
pub open spec fn digit(d: nat) -> char {
    if d == 0 {
        '0'
    } else if d == 1 {
        '1'
    } else if d == 2 {
        '2'
    } else if d == 3 {
        '3'
    } else if d == 4 {
        '4'
    } else if d == 5 {
        '5'
    } else if d == 6 {
        '6'
    } else if d == 7 {
        '7'
    } else if d == 8 {
        '8'
    } else {
        '9'
    }
}

/// The decimal text of a natural number, without leading zeros.
pub open spec fn nat_text(n: nat) -> Seq<char>
    decreases n,
{
    if n < 10 {
        seq![digit(n)]
    } else {
        nat_text(n / 10).push(digit(n % 10))
    }
}

/// The decimal text of an integer.
pub open spec fn int_text(n: int) -> Seq<char> {
    if n < 0 {
        seq!['-'] + nat_text((-n) as nat)
    } else {
        nat_text(n as nat)
    }
}

/// The decimal digit of a number below ten.
pub fn digit_char(d: u8) -> (r: char)
    requires
        d < 10,
    ensures
        r == digit(d as nat),
{
    match d {
        0 => '0',
        1 => '1',
        2 => '2',
        3 => '3',
        4 => '4',
        5 => '5',
        6 => '6',
        7 => '7',
        8 => '8',
        _ => '9',
    }
}

fn push_decimal(out: &mut String, n: u128)
    ensures
        final(out)@ == old(out)@ + nat_text(n as nat),
    decreases n,
{
    if n >= 10 {
        push_decimal(out, n / 10);
    }
    out.push(digit_char((n % 10) as u8));
    assert(out@ =~= old(out)@ + nat_text(n as nat));
}

/// The decimal text of an unsigned number.
pub fn unsigned_text(n: u128) -> (r: String)
    ensures
        r@ == nat_text(n as nat),
{
    let mut out = String::new();
    push_decimal(&mut out, n);
    assert(out@ =~= nat_text(n as nat));
    out
}

/// The decimal text of a signed number.
pub fn signed_text(n: i128) -> (r: String)
    ensures
        r@ == int_text(n as int),
{
    let mut out = String::new();
    if n < 0 {
        out.push('-');
        let size: u128 = (-(n + 1)) as u128 + 1;
        push_decimal(&mut out, size);
        assert(out@ =~= int_text(n as int));
    } else {
        push_decimal(&mut out, n as u128);
        assert(out@ =~= int_text(n as int));
    }
    out
}

impl Text for i64 {
    open spec fn text(&self) -> Seq<char> {
        int_text(*self as int)
    }

    fn to_text(&self) -> (r: String) {
        signed_text(*self as i128)
    }
}

impl Text for i32 {
    open spec fn text(&self) -> Seq<char> {
        int_text(*self as int)
    }

    fn to_text(&self) -> (r: String) {
        signed_text(*self as i128)
    }
}

impl Text for isize {
    open spec fn text(&self) -> Seq<char> {
        int_text(*self as int)
    }

    fn to_text(&self) -> (r: String) {
        signed_text(*self as i128)
    }
}

impl Text for u64 {
    open spec fn text(&self) -> Seq<char> {
        nat_text(*self as nat)
    }

    fn to_text(&self) -> (r: String) {
        unsigned_text(*self as u128)
    }
}

impl Text for u16 {
    open spec fn text(&self) -> Seq<char> {
        nat_text(*self as nat)
    }

    fn to_text(&self) -> (r: String) {
        unsigned_text(*self as u128)
    }
}

/// Joins two texts.
pub fn cat2(a: &str, b: &str) -> (r: String)
    ensures
        r@ == a@ + b@,
{
    let mut out = String::new();
    out.append(a);
    out.append(b);
    assert(out@ =~= a@ + b@);
    out
}

/// Joins three texts.
pub fn cat3(a: &str, b: &str, c: &str) -> (r: String)
    ensures
        r@ == a@ + b@ + c@,
{
    let mut out = cat2(a, b);
    out.append(c);
    out
}

/// Joins four texts.
pub fn cat4(a: &str, b: &str, c: &str, d: &str) -> (r: String)
    ensures
        r@ == a@ + b@ + c@ + d@,
{
    let mut out = cat3(a, b, c);
    out.append(d);
    out
}

/// Joins five texts.
pub fn cat5(a: &str, b: &str, c: &str, d: &str, e: &str) -> (r: String)
    ensures
        r@ == a@ + b@ + c@ + d@ + e@,
{
    let mut out = cat4(a, b, c, d);
    out.append(e);
    out
}

/// Joins seven texts.
pub fn cat7(a: &str, b: &str, c: &str, d: &str, e: &str, f: &str, g: &str) -> (r: String)
    ensures
        r@ == a@ + b@ + c@ + d@ + e@ + f@ + g@,
{
    let mut out = cat5(a, b, c, d, e);
    out.append(f);
    out.append(g);
    out
}

/// The characters of a text.
pub fn chars_of(s: &str) -> (r: Vec<char>)
    ensures
        r@ == s@,
{
    let mut out: Vec<char> = Vec::new();
    for c in it: s.chars()
        invariant
            it.seq() == s@,
            out@ == s@.take(it.index()),
    {
        out.push(c);
        assert(out@ =~= s@.take(it.index() + 1));
    }
    assert(out@ =~= s@);
    out
}

/// The text of a run of characters.
pub fn text_of(chars: &Vec<char>, from: usize, to: usize) -> (r: String)
    requires
        from <= to <= chars@.len(),
    ensures
        r@ == chars@.subrange(from as int, to as int),
{
    let mut out = String::new();
    let mut i = from;
    while i < to
        invariant
            from <= i <= to <= chars@.len(),
            out@ =~= chars@.subrange(from as int, i as int),
        decreases to - i,
    {
        out.push(chars[i]);
        i += 1;
    }
    out
}

/// The characters that count as white space.
pub open spec fn is_white(c: char) -> bool {
    let n = c as u32;
    9 <= n <= 13 || n == 0x20 || n == 0x85 || n == 0xA0 || n == 0x1680 || 0x2000 <= n <= 0x200A
        || n == 0x2028 || n == 0x2029 || n == 0x202F || n == 0x205F || n == 0x3000
}

fn white(c: char) -> (r: bool)
    ensures
        r == is_white(c),
{
    let n: u32 = c as u32;
    (9 <= n && n <= 13) || n == 0x20 || n == 0x85 || n == 0xA0 || n == 0x1680 || (0x2000 <= n && n
        <= 0x200A) || n == 0x2028 || n == 0x2029 || n == 0x202F || n == 0x205F || n == 0x3000
}

/// The text without the white space at its start.
pub open spec fn trim_start(s: Seq<char>) -> Seq<char>
    decreases s.len(),
{
    if s.len() > 0 && is_white(s[0]) {
        trim_start(s.skip(1))
    } else {
        s
    }
}

/// The text without the white space at its end.
pub open spec fn trim_end(s: Seq<char>) -> Seq<char>
    decreases s.len(),
{
    if s.len() > 0 && is_white(s.last()) {
        trim_end(s.drop_last())
    } else {
        s
    }
}

/// The text without the white space at its ends.
pub open spec fn trimmed(s: Seq<char>) -> Seq<char> {
    trim_end(trim_start(s))
}

/// Takes the white space off both ends of a text.
pub fn trim(s: &str) -> (r: String)
    ensures
        r@ == trimmed(s@),
{
    let chars = chars_of(s);
    let mut from: usize = 0;
    let mut to: usize = chars.len();
    proof {
        assert(chars@.subrange(0, to as int) =~= chars@);
    }
    while from < to && white(chars[from])
        invariant
            from <= to == chars@.len(),
            trim_start(chars@.subrange(from as int, to as int)) == trim_start(chars@),
        decreases to - from,
    {
        proof {
            assert(chars@.subrange(from as int, to as int).skip(1) =~= chars@.subrange(
                from + 1,
                to as int,
            ));
        }
        from += 1;
    }
    let ghost start = trim_start(chars@);
    assert(start == chars@.subrange(from as int, to as int));
    while from < to && white(chars[to - 1])
        invariant
            from <= to <= chars@.len(),
            trim_end(chars@.subrange(from as int, to as int)) == trim_end(start),
        decreases to - from,
    {
        proof {
            assert(chars@.subrange(from as int, to as int).drop_last() =~= chars@.subrange(
                from as int,
                to - 1,
            ));
        }
        to -= 1;
    }
    text_of(&chars, from, to)
}

/// Why a text is not a number.
#[derive(Debug, Clone, Copy, PartialEq, Eq, Structural)]
pub enum NumberError {
    /// There is no text.
    Empty,
    /// Something other than a digit occurs.
    InvalidDigit,
    /// The number is too large.
    TooLarge,
}

impl NumberError {
    /// What the error says.
    pub open spec fn message(self) -> Seq<char> {
        match self {
            NumberError::Empty => "cannot parse integer from empty string"@,
            NumberError::InvalidDigit => "invalid digit found in string"@,
            NumberError::TooLarge => "number too large to fit in target type"@,
        }
    }

    /// What the error says.
    pub fn text(self) -> (r: &'static str)
        ensures
            r@ == self.message(),
    {
        match self {
            NumberError::Empty => "cannot parse integer from empty string",
            NumberError::InvalidDigit => "invalid digit found in string",
            NumberError::TooLarge => "number too large to fit in target type",
        }
    }
}

/// The value of a digit, or ten for other characters.
pub open spec fn digit_value(c: char) -> nat {
    let n = c as u32;
    if 48 <= n <= 57 {
        (n - 48) as nat
    } else {
        10
    }
}

fn value_of(c: char) -> (r: u32)
    ensures
        r == digit_value(c),
{
    let n: u32 = c as u32;
    if 48 <= n && n <= 57 {
        n - 48
    } else {
        10
    }
}

/// The number that a run of digits stands for, read from the left up to the first
/// fault.
pub open spec fn digits_value(s: Seq<char>) -> Result<nat, NumberError>
    decreases s.len(),
{
    if s.len() == 0 {
        Ok(0)
    } else {
        match digits_value(s.drop_last()) {
            Err(e) => Err(e),
            Ok(v) => {
                let d = digit_value(s.last());
                if d == 10 {
                    Err(NumberError::InvalidDigit)
                } else if 10 * v + d > u16::MAX {
                    Err(NumberError::TooLarge)
                } else {
                    Ok(10 * v + d)
                }
            },
        }
    }
}

/// The port number that a text stands for: digits, with a plus sign at most in
/// front.
pub open spec fn port_value(s: Seq<char>) -> Result<nat, NumberError> {
    if s.len() == 0 {
        Err(NumberError::Empty)
    } else if s.len() == 1 && (s[0] == '+' || s[0] == '-') {
        Err(NumberError::InvalidDigit)
    } else if s[0] == '+' {
        digits_value(s.skip(1))
    } else {
        digits_value(s)
    }
}

/// What comes behind a fault does not change it.
proof fn lemma_fault_stays(s: Seq<char>, n: int)
    requires
        0 <= n <= s.len(),
        digits_value(s.take(n)) is Err,
    ensures
        digits_value(s) == digits_value(s.take(n)),
    decreases s.len(),
{
    if n == s.len() {
        assert(s.take(n) =~= s);
    } else {
        assert(s.drop_last().take(n) =~= s.take(n));
        lemma_fault_stays(s.drop_last(), n);
    }
}

/// Reads a port number.
pub fn parse_port(s: &str) -> (r: Result<u16, NumberError>)
    ensures
        match r {
            Ok(port) => port_value(s@) == Ok::<nat, NumberError>(port as nat),
            Err(e) => port_value(s@) == Err::<nat, NumberError>(e),
        },
{
    let chars = chars_of(s);
    if chars.len() == 0 {
        return Err(NumberError::Empty);
    }
    if chars.len() == 1 && (chars[0] == '+' || chars[0] == '-') {
        return Err(NumberError::InvalidDigit);
    }
    let start: usize = if chars[0] == '+' {
        1
    } else {
        0
    };
    let ghost digits = chars@.skip(start as int);
    proof {
        assert(start == 0 ==> digits =~= chars@);
    }
    let mut value: u32 = 0;
    let mut i: usize = start;
    while i < chars.len()
        invariant
            start <= i <= chars@.len(),
            digits == chars@.skip(start as int),
            start == 0 ==> digits == chars@,
            chars@ == s@,
            port_value(s@) == digits_value(digits),
            value <= u16::MAX,
            digits_value(digits.take(i - start)) == Ok::<nat, NumberError>(value as nat),
        decreases chars@.len() - i,
    {
        let d: u32 = value_of(chars[i]);
        proof {
            let next = digits.take(i + 1 - start);
            assert(next.drop_last() =~= digits.take(i - start));
            assert(next.last() == chars@[i as int]);
        }
        if d == 10 {
            proof {
                lemma_fault_stays(digits, i + 1 - start);
            }
            return Err(NumberError::InvalidDigit);
        }
        if 10 * value + d > 65535 {
            proof {
                lemma_fault_stays(digits, i + 1 - start);
            }
            return Err(NumberError::TooLarge);
        }
        value = 10 * value + d;
        i += 1;
    }
    proof {
        assert(digits.take(digits.len() as int) =~= digits);
    }
    Ok(value as u16)
}

/// The decimal text of a number that fits is read back as the number.
pub proof fn lemma_digits_read_back(n: nat)
    requires
        n <= u16::MAX,
    ensures
        digits_value(nat_text(n)) == Ok::<nat, NumberError>(n),
        nat_text(n).len() > 0,
        forall|i: int| 0 <= i < nat_text(n).len() ==> 48 <= (#[trigger] nat_text(n)[i]) as u32 <= 57,
    decreases n,
{
    reveal_with_fuel(digits_value, 2);
    if n < 10 {
        assert(nat_text(n).drop_last() =~= Seq::empty());
    } else {
        lemma_digits_read_back(n / 10);
        assert(nat_text(n).drop_last() =~= nat_text(n / 10));
        assert(digit_value(digit(n % 10)) == n % 10);
    }
}

/// A port number written in decimal with a line end behind it is read back as
/// that port number.
pub proof fn port_is_read_back(port: u16)
    ensures
        port_value(trimmed(nat_text(port as nat).push('\n'))) == Ok::<nat, NumberError>(
            port as nat,
        ),
{
    let t = nat_text(port as nat);
    let line = t.push('\n');
    lemma_digits_read_back(port as nat);
    assert(line[0] == t[0]);
    assert(!is_white(t[0]));
    assert(trim_start(line) == line);
    assert(line.drop_last() =~= t);
    assert(!is_white(t.last()));
    assert(trim_end(t) == t);
    reveal_with_fuel(trim_end, 2);
    assert(trim_end(line) == t);
}

/// The number that a text stands for when each of its characters is read as a decimal
/// digit by its code.
pub open spec fn decimal_value(s: Seq<char>) -> int
    decreases s.len(),
{
    if s.len() == 0 {
        0
    } else {
        10 * decimal_value(s.drop_last()) + (s.last() as u32 - 48)
    }
}

/// All characters are decimal digits, by their codes.
pub open spec fn all_digits(s: Seq<char>) -> bool {
    forall|i: int| 0 <= i < s.len() ==> 48 <= (#[trigger] s[i]) as u32 <= 57
}

/// The decimal text of a number is read back as the number.
pub proof fn lemma_decimal_text(n: nat)
    ensures
        decimal_value(nat_text(n)) == n,
        all_digits(nat_text(n)),
        nat_text(n).len() > 0,
        n > 0 ==> nat_text(n)[0] != '0',
        n < 10 ==> nat_text(n).len() == 1,
    decreases n,
{
    reveal_with_fuel(decimal_value, 2);
    if n < 10 {
        assert(nat_text(n).drop_last() =~= Seq::empty());
    } else {
        lemma_decimal_text(n / 10);
        assert(nat_text(n).drop_last() =~= nat_text(n / 10));
        assert(nat_text(n)[0] == nat_text(n / 10)[0]);
    }
}

/// A natural number is written with decimal digits, the first of which is zero only in the
/// text of zero, and reading the digits gives the number back.
pub proof fn numbers_are_written_in_decimal(n: u128, r: String)
    requires
        call_ensures(unsigned_text, (n,), r),
    ensures
        all_digits(r@),
        decimal_value(r@) == n,
        r@.len() > 0,
        r@[0] == '0' ==> n == 0 && r@.len() == 1,
{
    lemma_decimal_text(n as nat);
}

/// A negative number is written as its opposite behind a minus sign, and others as they
/// are.
pub proof fn signed_numbers_are_written_in_decimal(n: i128, r: String)
    requires
        call_ensures(signed_text, (n,), r),
    ensures
        r@.len() > 0,
        n >= 0 ==> all_digits(r@) && decimal_value(r@) == n && (r@[0] == '0' ==> r@.len() == 1),
        n < 0 ==> r@.len() > 1 && r@[0] == '-' && r@[1] != '0' && all_digits(r@.skip(1))
            && decimal_value(r@.skip(1)) == -n,
{
    if n < 0 {
        lemma_decimal_text((-n) as nat);
        assert(r@.skip(1) =~= nat_text((-n) as nat));
    } else {
        lemma_decimal_text(n as nat);
    }
}

/// Machine integers are shown as the decimal texts of their values.
pub proof fn machine_integers_are_shown_in_decimal(
    a: i64,
    b: i32,
    c: isize,
    d: u64,
    e: u16,
    r: String,
)
    ensures
        call_ensures(<u64 as Text>::to_text, (&d,), r) ==> all_digits(r@) && decimal_value(r@)
            == d,
        call_ensures(<u16 as Text>::to_text, (&e,), r) ==> all_digits(r@) && decimal_value(r@)
            == e,
        call_ensures(<i64 as Text>::to_text, (&a,), r) && a >= 0 ==> all_digits(r@)
            && decimal_value(r@) == a,
        call_ensures(<i64 as Text>::to_text, (&a,), r) && a < 0 ==> r@.len() > 1 && r@[0] == '-'
            && all_digits(r@.skip(1)) && decimal_value(r@.skip(1)) == -a,
        call_ensures(<i32 as Text>::to_text, (&b,), r) && b >= 0 ==> all_digits(r@)
            && decimal_value(r@) == b,
        call_ensures(<i32 as Text>::to_text, (&b,), r) && b < 0 ==> r@.len() > 1 && r@[0] == '-'
            && all_digits(r@.skip(1)) && decimal_value(r@.skip(1)) == -b,
        call_ensures(<isize as Text>::to_text, (&c,), r) && c >= 0 ==> all_digits(r@)
            && decimal_value(r@) == c,
        call_ensures(<isize as Text>::to_text, (&c,), r) && c < 0 ==> r@.len() > 1 && r@[0] == '-'
            && all_digits(r@.skip(1)) && decimal_value(r@.skip(1)) == -c,
{
    lemma_int_text(a as int);
    lemma_int_text(b as int);
    lemma_int_text(c as int);
    lemma_decimal_text(d as nat);
    lemma_decimal_text(e as nat);
}

proof fn lemma_int_text(n: int)
    ensures
        n >= 0 ==> all_digits(int_text(n)) && decimal_value(int_text(n)) == n,
        n < 0 ==> int_text(n).len() > 1 && int_text(n)[0] == '-' && all_digits(int_text(n).skip(1))
            && decimal_value(int_text(n).skip(1)) == -n,
{
    if n < 0 {
        lemma_decimal_text((-n) as nat);
        assert(int_text(n).skip(1) =~= nat_text((-n) as nat));
    } else {
        lemma_decimal_text(n as nat);
    }
}

proof fn lemma_digits_value(s: Seq<char>)
    ensures
        all_digits(s) ==> decimal_value(s) >= 0,
        digits_value(s) matches Ok(v) ==> all_digits(s) && v == decimal_value(s) && v <= 65535,
        all_digits(s) && decimal_value(s) <= 65535 ==> digits_value(s) is Ok,
        all_digits(s) && decimal_value(s) > 65535 ==> digits_value(s) == Err::<nat, NumberError>(
            NumberError::TooLarge,
        ),
        digits_value(s) matches Err(e) ==> e == NumberError::InvalidDigit || e
            == NumberError::TooLarge,
        digits_value(s) == Err::<nat, NumberError>(NumberError::InvalidDigit) ==> !all_digits(s),
    decreases s.len(),
{
    if s.len() > 0 {
        let t = s.drop_last();
        lemma_digits_value(t);
        if all_digits(s) {
            assert(all_digits(t)) by {
                assert forall|i: int| 0 <= i < t.len() implies 48 <= (#[trigger] t[i]) as u32 <= 57 by {
                    assert(t[i] == s[i]);
                }
            }
            assert(48 <= s[s.len() - 1] as u32 <= 57);
        }
        if digits_value(s) is Ok {
            assert(48 <= s.last() as u32 <= 57);
        }
        if all_digits(t) && 48 <= s.last() as u32 <= 57 {
            assert forall|i: int| 0 <= i < s.len() implies 48 <= (#[trigger] s[i]) as u32 <= 57 by {
                if i < t.len() {
                    assert(t[i] == s[i]);
                }
            }
        }
    }
}

/// A port number is read exactly from a run of decimal digits, behind a plus sign or not,
/// whose value fits in 16 bits, and the number read is that value.
pub proof fn ports_are_read_in_decimal(s: &str, r: Result<u16, NumberError>)
    requires
        call_ensures(parse_port, (s,), r),
    ensures
        ({
            let digits = if s@.len() > 0 && s@[0] == '+' {
                s@.skip(1)
            } else {
                s@
            };
            &&& r matches Ok(port) ==> digits.len() > 0 && all_digits(digits) && decimal_value(
                digits,
            ) == port
            &&& digits.len() > 0 && all_digits(digits) && decimal_value(digits) <= 65535 ==> r is Ok
            &&& digits.len() > 0 && all_digits(digits) && decimal_value(digits) > 65535 ==> r
                == Err::<u16, NumberError>(NumberError::TooLarge)
            &&& r == Err::<u16, NumberError>(NumberError::InvalidDigit) ==> digits.len() == 0
                || !all_digits(digits)
            &&& r == Err::<u16, NumberError>(NumberError::Empty) <==> s@.len() == 0
        }),
{
    let digits = if s@.len() > 0 && s@[0] == '+' {
        s@.skip(1)
    } else {
        s@
    };
    lemma_digits_value(digits);
    if s@.len() == 1 && (s@[0] == '+' || s@[0] == '-') {
        if s@[0] == '-' {
            assert(!all_digits(digits)) by {
                assert(digits[0] == '-');
            }
        }
    }
}

/// Trimming takes white space off both ends of a text, and no other character: what is left
/// is a run of the text that neither starts nor ends with white space.
pub proof fn trimming_takes_white_space_off(s: &str, r: String)
    requires
        call_ensures(trim, (s,), r),
    ensures
        exists|from: int, to: int|
            0 <= from <= to <= s@.len() && r@ == #[trigger] s@.subrange(from, to) && (forall|i: int|
                (0 <= i < from || to <= i < s@.len()) ==> is_white(#[trigger] s@[i])),
        r@.len() > 0 ==> !is_white(r@[0]) && !is_white(r@.last()),
{
    let from = lemma_trim_start(s@);
    let t = trim_start(s@);
    let len = lemma_trim_end(t);
    assert(trimmed(s@) =~= s@.subrange(from, from + len));
    assert forall|i: int| (0 <= i < from || from + len <= i < s@.len()) implies is_white(
        #[trigger] s@[i],
    ) by {
        if i >= from {
            assert(t[i - from] == s@[i]);
        }
    }
}

proof fn lemma_trim_start(s: Seq<char>) -> (n: int)
    ensures
        0 <= n <= s.len(),
        trim_start(s) == s.skip(n),
        forall|i: int| 0 <= i < n ==> is_white(#[trigger] s[i]),
        n < s.len() ==> !is_white(s[n]),
    decreases s.len(),
{
    if s.len() > 0 && is_white(s[0]) {
        let m = lemma_trim_start(s.skip(1));
        assert(s.skip(1).skip(m) =~= s.skip(m + 1));
        assert forall|i: int| 0 <= i < m + 1 implies is_white(#[trigger] s[i]) by {
            if i > 0 {
                assert(s.skip(1)[i - 1] == s[i]);
            }
        }
        m + 1
    } else {
        assert(s.skip(0) =~= s);
        0
    }
}

proof fn lemma_trim_end(s: Seq<char>) -> (n: int)
    ensures
        0 <= n <= s.len(),
        trim_end(s) == s.take(n),
        forall|i: int| n <= i < s.len() ==> is_white(#[trigger] s[i]),
        n > 0 ==> !is_white(s[n - 1]),
    decreases s.len(),
{
    if s.len() > 0 && is_white(s.last()) {
        let m = lemma_trim_end(s.drop_last());
        assert(s.drop_last().take(m) =~= s.take(m));
        assert forall|i: int| m <= i < s.len() implies is_white(#[trigger] s[i]) by {
            if i < s.len() - 1 {
                assert(s.drop_last()[i] == s[i]);
            }
        }
        m
    } else {
        assert(s.take(s.len() as int) =~= s);
        s.len() as int
    }
}

/// The tab, the line ends and the space are white space, and so are the spaces outside of
/// ASCII; no character that prints in ASCII is.
pub proof fn white_space_does_not_print(c: char)
    ensures
        c == ' ' || c == '\t' || c == '\n' || c == '\r' || c as u32 == 0x0B || c as u32 == 0x0C
            ==> is_white(c),
        '!' <= c <= '~' ==> !is_white(c),
        is_white(c) && c as u32 >= 0x80 <==> set![
            0x85u32, 0xA0, 0x1680, 0x2000, 0x2001, 0x2002, 0x2003, 0x2004, 0x2005, 0x2006, 0x2007,
            0x2008, 0x2009, 0x200A, 0x2028, 0x2029, 0x202F, 0x205F, 0x3000,
        ].contains(c as u32),
        is_white(c) && (c as u32) < 0x80 ==> c == ' ' || '\t' <= c <= '\r',
{
}

/// Why a text is not a number is told in these words.
pub proof fn number_errors_are_told(e: NumberError, r: &'static str)
    requires
        call_ensures(NumberError::text, (e,), r),
    ensures
        r@ == if e == NumberError::Empty {
            "cannot parse integer from empty string"@
        } else if e == NumberError::InvalidDigit {
            "invalid digit found in string"@
        } else {
            "number too large to fit in target type"@
        },
{
}

/// A text is shown as it is, and texts are joined in their order.
pub proof fn texts_are_shown_as_they_are(s: String, a: &str, b: &str, c: &str, r: String)
    ensures
        call_ensures(<String as Text>::to_text, (&s,), r) ==> r@ == s@,
        call_ensures(cat2, (a, b), r) ==> r@ == a@ + b@,
        call_ensures(cat3, (a, b, c), r) ==> r@ == a@ + b@ + c@,
{
}

} // verus!
