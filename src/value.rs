//! Script values and the version-gated coercion, arithmetic and comparison rules.
//!
//! Numbers here are integral: besides the three special values, a number is a
//! 64-bit integer, a result beyond that range becomes an infinity, and a quotient
//! that is not whole is rounded toward zero.
use vstd::prelude::*;

verus! {

/// The first content version with strict `undefined`/`null` coercion: from it on
/// they convert to `NaN` and `undefined` prints as `undefined`, and a string is
/// true exactly when it is non-empty.
pub const STRICT_COERCION_VERSION: u8 = 7;

/// A script number.
#[derive(Clone, Copy, Debug, PartialEq, Eq, Structural)]
pub enum Number {
    /// Not a number.
    NaN,
    /// Positive infinity.
    Infinity,
    /// Negative infinity.
    NegInfinity,
    /// An integral number.
    Int(i64),
}

/// A script value.
#[derive(Debug)]
pub enum Value {
    /// The undefined value.
    Undefined,
    /// The null value.
    Null,
    /// A boolean.
    Bool(bool),
    /// A number.
    Num(Number),
    /// A string, as its characters.
    Str(Vec<char>),
    /// A reference to an object, by its index in the object store.
    Object(usize),
    /// A reference to a function, by its index in the movie.
    Function(usize),
}

/// What a script value denotes.
pub enum ValueModel {
    /// The undefined value.
    Undefined,
    /// The null value.
    Null,
    /// A boolean.
    Bool(bool),
    /// A number.
    Num(Number),
    /// A string.
    Str(Seq<char>),
    /// A reference to an object.
    Object(usize),
    /// A reference to a function.
    Function(usize),
}

impl View for Value {
    type V = ValueModel;

    open spec fn view(&self) -> ValueModel {
        match self {
            Value::Undefined => ValueModel::Undefined,
            Value::Null => ValueModel::Null,
            Value::Bool(b) => ValueModel::Bool(*b),
            Value::Num(n) => ValueModel::Num(*n),
            Value::Str(s) => ValueModel::Str(s@),
            Value::Object(o) => ValueModel::Object(*o),
            Value::Function(f) => ValueModel::Function(*f),
        }
    }
}

/// Copy a character vector.
pub fn copy_chars(s: &Vec<char>) -> (r: Vec<char>)
    ensures
        r@ == s@,
{
    let mut r: Vec<char> = Vec::new();
    let mut i: usize = 0;
    while i < s.len()
        invariant
            i <= s.len(),
            r@ == s@.take(i as int),
        decreases s.len() - i,
    {
        r.push(s[i]);
        assert(s@.take(i + 1) =~= s@.take(i as int).push(s@[i as int]));
        i += 1;
    }
    assert(s@.take(i as int) =~= s@);
    r
}

/// Whether two character sequences are equal.
pub fn chars_eq(a: &Vec<char>, b: &Vec<char>) -> (r: bool)
    ensures
        r == (a@ == b@),
{
    if a.len() != b.len() {
        return false;
    }
    let mut i: usize = 0;
    while i < a.len()
        invariant
            a.len() == b.len(),
            i <= a.len(),
            a@.take(i as int) == b@.take(i as int),
        decreases a.len() - i,
    {
        if a[i] != b[i] {
            return false;
        }
        assert(a@.take(i + 1) =~= a@.take(i as int).push(a@[i as int]));
        assert(b@.take(i + 1) =~= b@.take(i as int).push(b@[i as int]));
        i += 1;
    }
    assert(a@.take(i as int) =~= a@);
    assert(b@.take(i as int) =~= b@);
    true
}

/// Append `b` to `a`.
pub fn append_chars(a: &mut Vec<char>, b: &Vec<char>)
    ensures
        final(a)@ == old(a)@ + b@,
{
    let mut i: usize = 0;
    while i < b.len()
        invariant
            i <= b.len(),
            a@ == old(a)@ + b@.take(i as int),
        decreases b.len() - i,
    {
        a.push(b[i]);
        assert(b@.take(i + 1) =~= b@.take(i as int).push(b@[i as int]));
        i += 1;
    }
    assert(b@.take(i as int) =~= b@);
}

impl Value {
    /// A copy of this value.
    pub fn copy(&self) -> (r: Value)
        ensures
            r@ == self@,
    {
        match self {
            Value::Undefined => Value::Undefined,
            Value::Null => Value::Null,
            Value::Bool(b) => Value::Bool(*b),
            Value::Num(n) => Value::Num(*n),
            Value::Str(s) => Value::Str(copy_chars(s)),
            Value::Object(o) => Value::Object(*o),
            Value::Function(f) => Value::Function(*f),
        }
    }
}

/// The number for an integer: itself within the 64-bit range, else an infinity.
pub open spec fn num_of_int(x: int) -> Number {
    if x > i64::MAX {
        Number::Infinity
    } else if x < i64::MIN {
        Number::NegInfinity
    } else {
        Number::Int(x as i64)
    }
}

/// The sign of a number: -1, 0 or 1, and 0 for `NaN`.
pub open spec fn sign(n: Number) -> int {
    match n {
        Number::NaN => 0,
        Number::Infinity => 1,
        Number::NegInfinity => -1,
        Number::Int(i) => if i > 0 {
            1
        } else if i < 0 {
            -1
        } else {
            0
        },
    }
}

/// The infinity with the given sign.
pub open spec fn inf_of_sign(s: int) -> Number {
    if s > 0 {
        Number::Infinity
    } else {
        Number::NegInfinity
    }
}

/// The sum of two numbers.
pub open spec fn num_add(a: Number, b: Number) -> Number {
    match (a, b) {
        (Number::Int(x), Number::Int(y)) => num_of_int(x + y),
        (Number::NaN, _) | (_, Number::NaN) => Number::NaN,
        (Number::Infinity, Number::NegInfinity) | (Number::NegInfinity, Number::Infinity) => Number::NaN,
        (Number::Infinity, _) | (_, Number::Infinity) => Number::Infinity,
        _ => Number::NegInfinity,
    }
}

/// The negation of a number.
pub open spec fn num_neg(a: Number) -> Number {
    match a {
        Number::NaN => Number::NaN,
        Number::Infinity => Number::NegInfinity,
        Number::NegInfinity => Number::Infinity,
        Number::Int(x) => num_of_int(-x),
    }
}

/// The difference of two numbers.
pub open spec fn num_sub(a: Number, b: Number) -> Number {
    num_add(a, num_neg(b))
}

/// The product of two numbers.
pub open spec fn num_mul(a: Number, b: Number) -> Number {
    match (a, b) {
        (Number::Int(x), Number::Int(y)) => num_of_int(x * y),
        (Number::NaN, _) | (_, Number::NaN) => Number::NaN,
        _ => if sign(a) * sign(b) == 0 {
            Number::NaN
        } else {
            inf_of_sign(sign(a) * sign(b))
        },
    }
}

/// The quotient of two numbers; a quotient of integers that is not whole is
/// rounded toward zero.
pub open spec fn num_div(a: Number, b: Number) -> Number {
    match (a, b) {
        (Number::NaN, _) | (_, Number::NaN) => Number::NaN,
        (Number::Int(x), Number::Int(y)) => if y == 0 {
            if x == 0 {
                Number::NaN
            } else {
                inf_of_sign(sign(a))
            }
        } else {
            num_of_int(
                if (x < 0) == (y < 0) {
                    (if x < 0 { -x } else { x as int }) / (if y < 0 { -y } else { y as int })
                } else {
                    -((if x < 0 { -x } else { x as int }) / (if y < 0 { -y } else { y as int }))
                },
            )
        },
        (Number::Int(_), _) => Number::Int(0),
        (_, Number::Int(y)) => if y == 0 {
            a
        } else {
            inf_of_sign(sign(a) * sign(b))
        },
        _ => Number::NaN,
    }
}

/// Numeric equality; `NaN` equals nothing.
pub open spec fn num_eq(a: Number, b: Number) -> bool {
    a != Number::NaN && b != Number::NaN && a == b
}

/// The order of two numbers, neither of them `NaN`.
pub open spec fn num_lt(a: Number, b: Number) -> bool {
    match (a, b) {
        (Number::Int(x), Number::Int(y)) => x < y,
        (Number::NegInfinity, Number::NegInfinity) => false,
        (Number::NegInfinity, _) => true,
        (_, Number::Infinity) => a != Number::Infinity,
        _ => false,
    }
}


/// The number for an integer computed in 128 bits.
fn int_result(x: i128) -> (r: Number)
    ensures
        r == num_of_int(x as int),
{
    if x > i64::MAX as i128 {
        Number::Infinity
    } else if x < i64::MIN as i128 {
        Number::NegInfinity
    } else {
        Number::Int(x as i64)
    }
}

/// The sign of a number.
fn sign_of(n: Number) -> (r: i8)
    ensures
        r as int == sign(n),
{
    match n {
        Number::NaN => 0,
        Number::Infinity => 1,
        Number::NegInfinity => -1,
        Number::Int(i) => if i > 0 {
            1
        } else if i < 0 {
            -1
        } else {
            0
        },
    }
}

/// The sum of two numbers.
pub fn add_numbers(a: Number, b: Number) -> (r: Number)
    ensures
        r == num_add(a, b),
{
    match (a, b) {
        (Number::Int(x), Number::Int(y)) => int_result(x as i128 + y as i128),
        (Number::NaN, _) | (_, Number::NaN) => Number::NaN,
        (Number::Infinity, Number::NegInfinity) | (Number::NegInfinity, Number::Infinity) => Number::NaN,
        (Number::Infinity, _) | (_, Number::Infinity) => Number::Infinity,
        _ => Number::NegInfinity,
    }
}

/// The negation of a number.
pub fn negate_number(a: Number) -> (r: Number)
    ensures
        r == num_neg(a),
{
    match a {
        Number::NaN => Number::NaN,
        Number::Infinity => Number::NegInfinity,
        Number::NegInfinity => Number::Infinity,
        Number::Int(x) => int_result(-(x as i128)),
    }
}

/// The difference of two numbers.
pub fn subtract_numbers(a: Number, b: Number) -> (r: Number)
    ensures
        r == num_sub(a, b),
{
    add_numbers(a, negate_number(b))
}

/// The product of two numbers.
pub fn multiply_numbers(a: Number, b: Number) -> (r: Number)
    ensures
        r == num_mul(a, b),
{
    match (a, b) {
        (Number::Int(x), Number::Int(y)) => {
            let xx = x as i128;
            let yy = y as i128;
            assert(-0x8000_0000_0000_0000 <= xx < 0x8000_0000_0000_0000);
            assert(-0x8000_0000_0000_0000 <= yy < 0x8000_0000_0000_0000);
            assert(-0x4000_0000_0000_0000_0000_0000_0000_0000 <= xx * yy
                <= 0x4000_0000_0000_0000_0000_0000_0000_0000) by (nonlinear_arith)
                requires
                    -0x8000_0000_0000_0000 <= xx < 0x8000_0000_0000_0000,
                    -0x8000_0000_0000_0000 <= yy < 0x8000_0000_0000_0000,
            ;
            int_result(xx * yy)
        },
        (Number::NaN, _) | (_, Number::NaN) => Number::NaN,
        _ => {
            let s = sign_of(a) * sign_of(b);
            if s == 0 {
                Number::NaN
            } else if s > 0 {
                Number::Infinity
            } else {
                Number::NegInfinity
            }
        },
    }
}

/// The quotient of two numbers; a quotient of integers that is not whole is
/// rounded toward zero.
pub fn divide_numbers(a: Number, b: Number) -> (r: Number)
    ensures
        r == num_div(a, b),
{
    match (a, b) {
        (Number::NaN, _) | (_, Number::NaN) => Number::NaN,
        (Number::Int(x), Number::Int(y)) => {
            if y == 0 {
                if x == 0 {
                    Number::NaN
                } else if x > 0 {
                    Number::Infinity
                } else {
                    Number::NegInfinity
                }
            } else {
                let ax: i128 = if x < 0 { -(x as i128) } else { x as i128 };
                let ay: i128 = if y < 0 { -(y as i128) } else { y as i128 };
                let q = ax / ay;
                if (x < 0) == (y < 0) {
                    int_result(q)
                } else {
                    int_result(-q)
                }
            }
        },
        (Number::Int(_), _) => Number::Int(0),
        (_, Number::Int(y)) => {
            if y == 0 {
                a
            } else if sign_of(a) * sign_of(b) > 0 {
                Number::Infinity
            } else {
                Number::NegInfinity
            }
        },
        _ => Number::NaN,
    }
}

/// Numeric equality; `NaN` equals nothing.
pub fn numbers_equal(a: Number, b: Number) -> (r: bool)
    ensures
        r == num_eq(a, b),
{
    match (a, b) {
        (Number::NaN, _) | (_, Number::NaN) => false,
        (Number::Int(x), Number::Int(y)) => x == y,
        (Number::Infinity, Number::Infinity) => true,
        (Number::NegInfinity, Number::NegInfinity) => true,
        _ => false,
    }
}

/// The order of two numbers, neither of them `NaN`.
pub fn number_less(a: Number, b: Number) -> (r: bool)
    ensures
        r == num_lt(a, b),
{
    match (a, b) {
        (Number::Int(x), Number::Int(y)) => x < y,
        (Number::NegInfinity, Number::NegInfinity) => false,
        (Number::NegInfinity, _) => true,
        (Number::Infinity, Number::Infinity) => false,
        (_, Number::Infinity) => true,
        _ => false,
    }
}


/// The decimal digit character for `d` in `0..10`.
pub open spec fn digit_char(d: int) -> char {
    if d == 0 {
        '0'
    } else if d == 1 {
        '1'
    } else if d == 2 {
        '2'
    } else if d == 3 {
        '3'
    } else if d == 4 {
        '4'
    } else if d == 5 {
        '5'
    } else if d == 6 {
        '6'
    } else if d == 7 {
        '7'
    } else if d == 8 {
        '8'
    } else {
        '9'
    }
}

/// The value of a decimal digit character, if it is one.
pub open spec fn digit_value(c: char) -> Option<int> {
    if c == '0' {
        Some(0)
    } else if c == '1' {
        Some(1)
    } else if c == '2' {
        Some(2)
    } else if c == '3' {
        Some(3)
    } else if c == '4' {
        Some(4)
    } else if c == '5' {
        Some(5)
    } else if c == '6' {
        Some(6)
    } else if c == '7' {
        Some(7)
    } else if c == '8' {
        Some(8)
    } else if c == '9' {
        Some(9)
    } else {
        None
    }
}

/// The decimal digits of a natural number, most significant first.
pub open spec fn nat_digits(n: nat) -> Seq<char>
    decreases n,
{
    if n < 10 {
        seq![digit_char(n as int)]
    } else {
        nat_digits(n / 10).push(digit_char((n % 10) as int))
    }
}

/// The decimal text of an integer.
pub open spec fn int_text(i: int) -> Seq<char> {
    if i < 0 {
        seq!['-'] + nat_digits((-i) as nat)
    } else {
        nat_digits(i as nat)
    }
}

/// The text of a number.
pub open spec fn number_text(n: Number) -> Seq<char> {
    match n {
        Number::NaN => seq!['N', 'a', 'N'],
        Number::Infinity => seq!['I', 'n', 'f', 'i', 'n', 'i', 't', 'y'],
        Number::NegInfinity => seq!['-', 'I', 'n', 'f', 'i', 'n', 'i', 't', 'y'],
        Number::Int(i) => int_text(i as int),
    }
}

/// Every character of `s` is a decimal digit.
pub open spec fn all_digits(s: Seq<char>) -> bool {
    forall|i: int| 0 <= i < s.len() ==> (#[trigger] digit_value(s[i])).is_some()
}

/// The value of a string of decimal digits.
pub open spec fn digits_value(s: Seq<char>) -> int
    decreases s.len(),
{
    if s.len() == 0 {
        0
    } else {
        digits_value(s.drop_last()) * 10 + digit_value(s.last()).unwrap_or(0)
    }
}

/// The number a string denotes: an optional `-` and at least one decimal digit;
/// any other string is `NaN`.
pub open spec fn text_number(s: Seq<char>) -> Number {
    if s.len() > 0 && s[0] == '-' {
        let t = s.drop_first();
        if t.len() > 0 && all_digits(t) {
            num_of_int(-digits_value(t))
        } else {
            Number::NaN
        }
    } else if s.len() > 0 && all_digits(s) {
        num_of_int(digits_value(s))
    } else {
        Number::NaN
    }
}

/// The digit character for `d`.
fn digit_to_char(d: u64) -> (r: char)
    requires
        d < 10,
    ensures
        r == digit_char(d as int),
{
    if d == 0 {
        '0'
    } else if d == 1 {
        '1'
    } else if d == 2 {
        '2'
    } else if d == 3 {
        '3'
    } else if d == 4 {
        '4'
    } else if d == 5 {
        '5'
    } else if d == 6 {
        '6'
    } else if d == 7 {
        '7'
    } else if d == 8 {
        '8'
    } else {
        '9'
    }
}

/// The value of a digit character.
fn char_to_digit(c: char) -> (r: Option<u8>)
    ensures
        r is Some <==> digit_value(c) is Some,
        r is Some ==> r.unwrap() as int == digit_value(c).unwrap() && r.unwrap() < 10,
{
    if c == '0' {
        Some(0)
    } else if c == '1' {
        Some(1)
    } else if c == '2' {
        Some(2)
    } else if c == '3' {
        Some(3)
    } else if c == '4' {
        Some(4)
    } else if c == '5' {
        Some(5)
    } else if c == '6' {
        Some(6)
    } else if c == '7' {
        Some(7)
    } else if c == '8' {
        Some(8)
    } else if c == '9' {
        Some(9)
    } else {
        None
    }
}

/// Append the decimal digits of `n`.
fn push_digits(n: u64, out: &mut Vec<char>)
    ensures
        final(out)@ == old(out)@ + nat_digits(n as nat),
    decreases n,
{
    if n >= 10 {
        push_digits(n / 10, out);
    }
    out.push(digit_to_char(n % 10));
    proof {
        if n >= 10 {
            assert(old(out)@ + nat_digits(n as nat) =~= (old(out)@ + nat_digits((n / 10) as nat)).push(
                digit_char((n % 10) as int)));
        } else {
            assert(old(out)@ + nat_digits(n as nat) =~= old(out)@.push(digit_char(n as int)));
        }
    }
}

/// The decimal text of a natural number.
pub fn nat_to_chars(n: u64) -> (r: Vec<char>)
    ensures
        r@ == nat_digits(n as nat),
{
    let mut r: Vec<char> = Vec::new();
    push_digits(n, &mut r);
    assert(r@ =~= nat_digits(n as nat));
    r
}

/// The text of a number.
pub fn number_to_chars(n: Number) -> (r: Vec<char>)
    ensures
        r@ == number_text(n),
{
    match n {
        Number::NaN => {
            let r = vec!['N', 'a', 'N'];
            assert(r@ =~= number_text(n));
            r
        },
        Number::Infinity => {
            let r = vec!['I', 'n', 'f', 'i', 'n', 'i', 't', 'y'];
            assert(r@ =~= number_text(n));
            r
        },
        Number::NegInfinity => {
            let r = vec!['-', 'I', 'n', 'f', 'i', 'n', 'i', 't', 'y'];
            assert(r@ =~= number_text(n));
            r
        },
        Number::Int(i) => {
            let mut r: Vec<char> = Vec::new();
            if i < 0 {
                r.push('-');
                let m: u64 = (-(i as i128)) as u64;
                push_digits(m, &mut r);
                assert(r@ =~= seq!['-'] + nat_digits((-i) as nat));
            } else {
                push_digits(i as u64, &mut r);
                assert(r@ =~= nat_digits(i as nat));
            }
            r
        },
    }
}

/// The number a string denotes, as `text_number` says.
pub fn chars_to_number(s: &Vec<char>) -> (r: Number)
    ensures
        r == text_number(s@),
{
    let negative = s.len() > 0 && s[0] == '-';
    let start: usize = if negative { 1 } else { 0 };
    let ghost t = s@.subrange(start as int, s@.len() as int);
    if start >= s.len() {
        return Number::NaN;
    }
    let mut acc: u128 = 0;
    let mut saturated = false;
    let mut i: usize = start;
    while i < s.len()
        invariant
            start <= i <= s.len(),
            start < s.len(),
            start == (if negative { 1usize } else { 0usize }),
            negative == (s@.len() > 0 && s@[0] == '-'),
            t == s@.subrange(start as int, s@.len() as int),
            all_digits(s@.subrange(start as int, i as int)),
            saturated ==> digits_value(s@.subrange(start as int, i as int)) > 0x8000_0000_0000_0000,
            !saturated ==> acc as int == digits_value(s@.subrange(start as int, i as int)) && acc
                <= 0x8000_0000_0000_0000,
        decreases s.len() - i,
    {
        let d = char_to_digit(s[i]);
        let ghost pre = s@.subrange(start as int, i as int);
        let ghost next = s@.subrange(start as int, i + 1);
        assert(next.drop_last() =~= pre);
        assert(next.last() == s@[i as int]);
        match d {
            None => {
                assert(t[i - start] == s@[i as int]);
                assert(!all_digits(t));
                if negative {
                    assert(t =~= s@.drop_first());
                } else {
                    assert(t =~= s@);
                }
                return Number::NaN;
            },
            Some(dv) => {
                assert forall|j: int| 0 <= j < next.len() implies (#[trigger] digit_value(
                    next[j],
                )).is_some() by {
                    if j < pre.len() {
                        assert(next[j] == pre[j]);
                    }
                }
                if !saturated {
                    let v = acc * 10 + dv as u128;
                    if v > 0x8000_0000_0000_0000 {
                        saturated = true;
                    } else {
                        acc = v;
                    }
                }
            },
        }
        i += 1;
    }
    assert(s@.subrange(start as int, i as int) =~= t);
    if negative {
        assert(t =~= s@.drop_first());
        if saturated {
            Number::NegInfinity
        } else {
            int_result(-(acc as i128))
        }
    } else {
        assert(t =~= s@);
        if saturated {
            Number::Infinity
        } else {
            int_result(acc as i128)
        }
    }
}


/// Whether content of this version coerces strictly.
pub open spec fn is_strict(version: u8) -> bool {
    version >= STRICT_COERCION_VERSION
}

/// The number a value converts to under the given content version.
pub open spec fn value_number(version: u8, v: ValueModel) -> Number {
    match v {
        ValueModel::Undefined | ValueModel::Null => if is_strict(version) {
            Number::NaN
        } else {
            Number::Int(0)
        },
        ValueModel::Bool(b) => Number::Int(if b { 1 } else { 0 }),
        ValueModel::Num(n) => n,
        ValueModel::Str(s) => text_number(s),
        ValueModel::Object(_) | ValueModel::Function(_) => Number::NaN,
    }
}

/// The text an object converts to.
pub open spec fn object_text() -> Seq<char> {
    seq!['[', 'o', 'b', 'j', 'e', 'c', 't', ' ', 'O', 'b', 'j', 'e', 'c', 't', ']']
}

/// The text a function converts to.
pub open spec fn function_text() -> Seq<char> {
    seq!['[', 't', 'y', 'p', 'e', ' ', 'F', 'u', 'n', 'c', 't', 'i', 'o', 'n', ']']
}

/// The text a value converts to under the given content version.
pub open spec fn value_text(version: u8, v: ValueModel) -> Seq<char> {
    match v {
        ValueModel::Undefined => if is_strict(version) {
            seq!['u', 'n', 'd', 'e', 'f', 'i', 'n', 'e', 'd']
        } else {
            seq![]
        },
        ValueModel::Null => seq!['n', 'u', 'l', 'l'],
        ValueModel::Bool(b) => if b {
            seq!['t', 'r', 'u', 'e']
        } else {
            seq!['f', 'a', 'l', 's', 'e']
        },
        ValueModel::Num(n) => number_text(n),
        ValueModel::Str(s) => s,
        ValueModel::Object(_) => object_text(),
        ValueModel::Function(_) => function_text(),
    }
}

/// The truth of a value under the given content version.
pub open spec fn value_truth(version: u8, v: ValueModel) -> bool {
    match v {
        ValueModel::Undefined | ValueModel::Null => false,
        ValueModel::Bool(b) => b,
        ValueModel::Num(n) => sign(n) != 0,
        ValueModel::Str(s) => if is_strict(version) {
            s.len() > 0
        } else {
            sign(text_number(s)) != 0
        },
        ValueModel::Object(_) | ValueModel::Function(_) => true,
    }
}

/// Whether a value is a string, an object or a function, whose sum is a concatenation.
pub open spec fn is_textual(v: ValueModel) -> bool {
    v is Str || v is Object || v is Function
}

/// The sum of two values: the concatenation of their texts once either is a
/// string or an object, else the sum of their numbers.
pub open spec fn value_add(version: u8, a: ValueModel, b: ValueModel) -> ValueModel {
    if is_textual(a) || is_textual(b) {
        ValueModel::Str(value_text(version, a) + value_text(version, b))
    } else {
        ValueModel::Num(num_add(value_number(version, a), value_number(version, b)))
    }
}

/// Booleans compare as the numbers 0 and 1.
pub open spec fn bool_as_number(v: ValueModel) -> ValueModel {
    match v {
        ValueModel::Bool(b) => ValueModel::Num(Number::Int(if b { 1 } else { 0 })),
        _ => v,
    }
}

/// Whether a value is `undefined` or `null`.
pub open spec fn is_nullish(v: ValueModel) -> bool {
    v is Undefined || v is Null
}

/// Loose equality (`==`) under the given content version.
pub open spec fn loose_equal(version: u8, a: ValueModel, b: ValueModel) -> bool {
    let x = bool_as_number(a);
    let y = bool_as_number(b);
    if is_nullish(x) || is_nullish(y) {
        is_nullish(x) && is_nullish(y)
    } else {
        match (x, y) {
            (ValueModel::Num(m), ValueModel::Num(n)) => num_eq(m, n),
            (ValueModel::Str(s), ValueModel::Str(t)) => s == t,
            (ValueModel::Num(m), ValueModel::Str(t)) => num_eq(m, text_number(t)),
            (ValueModel::Str(s), ValueModel::Num(n)) => num_eq(text_number(s), n),
            (ValueModel::Object(i), ValueModel::Object(j)) => i == j,
            (ValueModel::Function(i), ValueModel::Function(j)) => i == j,
            _ => false,
        }
    }
}

/// Strict equality (`===`): the same kind and the same value; `NaN` equals nothing.
pub open spec fn strict_equal(a: ValueModel, b: ValueModel) -> bool {
    match (a, b) {
        (ValueModel::Undefined, ValueModel::Undefined) => true,
        (ValueModel::Null, ValueModel::Null) => true,
        (ValueModel::Bool(p), ValueModel::Bool(q)) => p == q,
        (ValueModel::Num(m), ValueModel::Num(n)) => num_eq(m, n),
        (ValueModel::Str(s), ValueModel::Str(t)) => s == t,
        (ValueModel::Object(i), ValueModel::Object(j)) => i == j,
        (ValueModel::Function(i), ValueModel::Function(j)) => i == j,
        _ => false,
    }
}

/// Lexicographic order of character sequences, by code point.
pub open spec fn text_less(s: Seq<char>, t: Seq<char>) -> bool
    decreases s.len(),
{
    if t.len() == 0 {
        false
    } else if s.len() == 0 {
        true
    } else if s[0] != t[0] {
        (s[0] as u32) < (t[0] as u32)
    } else {
        text_less(s.drop_first(), t.drop_first())
    }
}

/// The relational `<`: strings compare by their characters; otherwise numbers
/// compare, and a `NaN` operand makes the result `undefined`.
pub open spec fn value_less(version: u8, a: ValueModel, b: ValueModel) -> ValueModel {
    match (a, b) {
        (ValueModel::Str(s), ValueModel::Str(t)) => ValueModel::Bool(text_less(s, t)),
        _ => {
            let m = value_number(version, a);
            let n = value_number(version, b);
            if m == Number::NaN || n == Number::NaN {
                ValueModel::Undefined
            } else {
                ValueModel::Bool(num_lt(m, n))
            }
        },
    }
}

/// The number a value converts to.
pub fn to_number(version: u8, v: &Value) -> (r: Number)
    ensures
        r == value_number(version, v@),
{
    match v {
        Value::Undefined | Value::Null => if version >= STRICT_COERCION_VERSION {
            Number::NaN
        } else {
            Number::Int(0)
        },
        Value::Bool(b) => Number::Int(if *b { 1 } else { 0 }),
        Value::Num(n) => *n,
        Value::Str(s) => chars_to_number(s),
        Value::Object(_) | Value::Function(_) => Number::NaN,
    }
}

/// The text a value converts to.
pub fn to_text(version: u8, v: &Value) -> (r: Vec<char>)
    ensures
        r@ == value_text(version, v@),
{
    let r = match v {
        Value::Undefined => if version >= STRICT_COERCION_VERSION {
            vec!['u', 'n', 'd', 'e', 'f', 'i', 'n', 'e', 'd']
        } else {
            Vec::new()
        },
        Value::Null => vec!['n', 'u', 'l', 'l'],
        Value::Bool(b) => if *b {
            vec!['t', 'r', 'u', 'e']
        } else {
            vec!['f', 'a', 'l', 's', 'e']
        },
        Value::Num(n) => number_to_chars(*n),
        Value::Str(s) => copy_chars(s),
        Value::Object(_) => vec!['[', 'o', 'b', 'j', 'e', 'c', 't', ' ', 'O', 'b', 'j', 'e', 'c', 't', ']'],
        Value::Function(_) => vec!['[', 't', 'y', 'p', 'e', ' ', 'F', 'u', 'n', 'c', 't', 'i', 'o', 'n', ']'],
    };
    assert(r@ =~= value_text(version, v@));
    r
}

/// The truth of a value.
pub fn to_boolean(version: u8, v: &Value) -> (r: bool)
    ensures
        r == value_truth(version, v@),
{
    match v {
        Value::Undefined | Value::Null => false,
        Value::Bool(b) => *b,
        Value::Num(n) => sign_of(*n) != 0,
        Value::Str(s) => if version >= STRICT_COERCION_VERSION {
            s.len() > 0
        } else {
            sign_of(chars_to_number(s)) != 0
        },
        Value::Object(_) | Value::Function(_) => true,
    }
}

/// The sum of two values (`+`).
pub fn add_values(version: u8, a: &Value, b: &Value) -> (r: Value)
    ensures
        r@ == value_add(version, a@, b@),
{
    let textual = match (a, b) {
        (Value::Str(_), _) | (Value::Object(_), _) | (Value::Function(_), _) | (_, Value::Str(_)) | (
            _,
            Value::Object(_),
        ) | (_, Value::Function(_)) => true,
        _ => false,
    };
    if textual {
        let mut s = to_text(version, a);
        let t = to_text(version, b);
        append_chars(&mut s, &t);
        Value::Str(s)
    } else {
        Value::Num(add_numbers(to_number(version, a), to_number(version, b)))
    }
}

/// Loose equality (`==`).
pub fn loose_equals(version: u8, a: &Value, b: &Value) -> (r: bool)
    ensures
        r == loose_equal(version, a@, b@),
{
    let x = match a {
        Value::Bool(p) => Value::Num(Number::Int(if *p { 1 } else { 0 })),
        _ => a.copy(),
    };
    let y = match b {
        Value::Bool(q) => Value::Num(Number::Int(if *q { 1 } else { 0 })),
        _ => b.copy(),
    };
    assert(x@ == bool_as_number(a@));
    assert(y@ == bool_as_number(b@));
    let xn = match x {
        Value::Undefined | Value::Null => true,
        _ => false,
    };
    let yn = match y {
        Value::Undefined | Value::Null => true,
        _ => false,
    };
    if xn || yn {
        return xn && yn;
    }
    match (&x, &y) {
        (Value::Num(m), Value::Num(n)) => numbers_equal(*m, *n),
        (Value::Str(s), Value::Str(t)) => chars_eq(s, t),
        (Value::Num(m), Value::Str(t)) => numbers_equal(*m, chars_to_number(t)),
        (Value::Str(s), Value::Num(n)) => numbers_equal(chars_to_number(s), *n),
        (Value::Object(i), Value::Object(j)) => *i == *j,
        (Value::Function(i), Value::Function(j)) => *i == *j,
        _ => false,
    }
}

/// Strict equality (`===`).
pub fn strict_equals(a: &Value, b: &Value) -> (r: bool)
    ensures
        r == strict_equal(a@, b@),
{
    match (a, b) {
        (Value::Undefined, Value::Undefined) => true,
        (Value::Null, Value::Null) => true,
        (Value::Bool(p), Value::Bool(q)) => *p == *q,
        (Value::Num(m), Value::Num(n)) => numbers_equal(*m, *n),
        (Value::Str(s), Value::Str(t)) => chars_eq(s, t),
        (Value::Object(i), Value::Object(j)) => *i == *j,
        (Value::Function(i), Value::Function(j)) => *i == *j,
        _ => false,
    }
}

/// Lexicographic order of two character vectors.
fn chars_less(s: &Vec<char>, t: &Vec<char>) -> (r: bool)
    ensures
        r == text_less(s@, t@),
{
    let mut i: usize = 0;
    assert(s@.skip(0) =~= s@);
    assert(t@.skip(0) =~= t@);
    while i < s.len() && i < t.len()
        invariant
            i <= s.len(),
            i <= t.len(),
            s@.take(i as int) == t@.take(i as int),
            text_less(s@, t@) == text_less(s@.skip(i as int), t@.skip(i as int)),
        decreases s.len() - i,
    {
        let ghost ss = s@.skip(i as int);
        let ghost tt = t@.skip(i as int);
        assert(ss[0] == s@[i as int]);
        assert(tt[0] == t@[i as int]);
        if s[i] != t[i] {
            return (s[i] as u32) < (t[i] as u32);
        }
        assert(ss.drop_first() =~= s@.skip(i + 1));
        assert(tt.drop_first() =~= t@.skip(i + 1));
        assert(s@.take(i + 1) =~= s@.take(i as int).push(s@[i as int]));
        assert(t@.take(i + 1) =~= t@.take(i as int).push(t@[i as int]));
        i += 1;
    }
    assert(s@.skip(i as int).len() == 0 || t@.skip(i as int).len() == 0);
    i < t.len()
}

/// The relational `<`.
pub fn less_than(version: u8, a: &Value, b: &Value) -> (r: Value)
    ensures
        r@ == value_less(version, a@, b@),
{
    match (a, b) {
        (Value::Str(s), Value::Str(t)) => Value::Bool(chars_less(s, t)),
        _ => {
            let m = to_number(version, a);
            let n = to_number(version, b);
            if m == Number::NaN || n == Number::NaN {
                Value::Undefined
            } else {
                Value::Bool(number_less(m, n))
            }
        },
    }
}


/// The coercion and comparison table, row by row: each result is a function of
/// the content version and the operands alone. `undefined` and `null` are 0 and
/// `undefined` prints empty before the strict version, `NaN` and `undefined`
/// from it on; a string's truth is its number's before it, its non-emptiness
/// from it on; `null == undefined` but not strictly; `NaN` equals nothing; a
/// string and a number compare as numbers; and `+` concatenates once either
/// operand is a string.
pub proof fn lemma_coercion_table(version: u8, s: Seq<char>, t: Seq<char>, n: Number, v: ValueModel)
    ensures
        value_number(version, ValueModel::Undefined) == (if version >= STRICT_COERCION_VERSION {
            Number::NaN
        } else {
            Number::Int(0)
        }),
        value_number(version, ValueModel::Null) == value_number(version, ValueModel::Undefined),
        value_text(version, ValueModel::Undefined).len() == (if version >= STRICT_COERCION_VERSION {
            9int
        } else {
            0int
        }),
        value_truth(version, ValueModel::Str(s)) == (if version >= STRICT_COERCION_VERSION {
            s.len() > 0
        } else {
            sign(text_number(s)) != 0
        }),
        loose_equal(version, ValueModel::Null, ValueModel::Undefined),
        !strict_equal(ValueModel::Null, ValueModel::Undefined),
        !loose_equal(version, ValueModel::Num(Number::NaN), v),
        !strict_equal(ValueModel::Num(Number::NaN), v),
        loose_equal(version, ValueModel::Num(n), ValueModel::Str(t)) == num_eq(n, text_number(t)),
        value_add(version, ValueModel::Str(s), v) == ValueModel::Str(s + value_text(version, v)),
        value_add(version, v, ValueModel::Str(s)) == ValueModel::Str(value_text(version, v) + s),
        value_less(version, ValueModel::Str(s), ValueModel::Str(t)) == ValueModel::Bool(text_less(s, t)),
{
}

} // verus!
