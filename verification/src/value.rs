use vstd::prelude::*;

use crate::text::{
    chars_of, i32_decimal, int_decimal, is_digit, lemma_int_decimal_parse, parse_i32,
    parse_i32_chars, parse_int, same_chars, string_of,
};

verus! {

/// SQL value.
///
/// Display and parse format:
/// - Null: `null`
/// - Bool: `false`
/// - Integer: `1`
/// - String: `'string'`
#[derive(Debug, Clone, PartialEq, Eq, PartialOrd, Ord, Hash)]
pub enum Value {
    Null,
    Bool(bool),
    Int(i32),
    String(String),
}

/// The mathematical content of a [`Value`]: strings are seen as their characters.
pub enum ValueView {
    Null,
    Bool(bool),
    Int(i32),
    String(Seq<char>),
}

impl View for Value {
    type V = ValueView;

    open spec fn view(&self) -> ValueView {
        match self {
            Value::Null => ValueView::Null,
            Value::Bool(b) => ValueView::Bool(*b),
            Value::Int(i) => ValueView::Int(*i),
            Value::String(s) => ValueView::String(s@),
        }
    }
}


/// The characters `null`.
pub open spec fn null_text() -> Seq<char> {
    seq!['n', 'u', 'l', 'l']
}

/// The characters `true`.
pub open spec fn true_text() -> Seq<char> {
    seq!['t', 'r', 'u', 'e']
}

/// The characters `false`.
pub open spec fn false_text() -> Seq<char> {
    seq!['f', 'a', 'l', 's', 'e']
}

/// The display format of a value: `null`, `true`/`false`, a decimal integer,
/// or a string between single quotes.
pub open spec fn display_value(v: ValueView) -> Seq<char> {
    match v {
        ValueView::Null => null_text(),
        ValueView::Bool(b) => if b { true_text() } else { false_text() },
        ValueView::Int(i) => int_decimal(i as int),
        ValueView::String(s) => seq!['\''] + s + seq!['\''],
    }
}

/// The parse format of a value, tried in order: `null`, a boolean, an `i32`,
/// a string between single quotes (at least two characters, so a lone quote
/// is not a string). The error carries the text.
pub open spec fn parse_value(s: Seq<char>) -> Result<ValueView, Seq<char>> {
    if s == null_text() {
        Ok(ValueView::Null)
    } else if s == true_text() {
        Ok(ValueView::Bool(true))
    } else if s == false_text() {
        Ok(ValueView::Bool(false))
    } else if parse_i32(s) is Some {
        Ok(ValueView::Int(parse_i32(s)->0))
    } else if s.len() >= 2 && s[0] == '\'' && s.last() == '\'' {
        Ok(ValueView::String(s.subrange(1, s.len() - 1)))
    } else {
        Err(s)
    }
}

/// Parsing the display of any value gives the value back.
pub proof fn lemma_parse_display(v: ValueView)
    ensures
        parse_value(display_value(v)) == Ok::<ValueView, Seq<char>>(v),
{
    let d = display_value(v);
    match v {
        ValueView::Null => {},
        ValueView::Bool(b) => {
            assert(d[0] != 'n');
            if b {
                assert(d != false_text());
            }
        },
        ValueView::Int(i) => {
            lemma_int_decimal_parse(i as int);
            assert(d[0] != 'n' && d[0] != 't' && d[0] != 'f');
            assert(d != null_text() && d != true_text() && d != false_text());
        },
        ValueView::String(s) => {
            assert(d[0] == '\'');
            assert(d != null_text() && d != true_text() && d != false_text());
            assert(parse_int(d) is None);
            assert(d.subrange(1, d.len() - 1) == s);
        },
    }
}

/// SQL `AND` is defined on booleans and NULL; any other pairing is a type error
/// unless one side is `false`.
pub open spec fn and_defined(a: ValueView, b: ValueView) -> bool {
    ||| (a is Bool && b is Bool)
    ||| a == ValueView::Bool(false)
    ||| b == ValueView::Bool(false)
    ||| a is Null
    ||| b is Null
}

/// Three-valued `AND`.
pub open spec fn spec_and(a: ValueView, b: ValueView) -> ValueView {
    match (a, b) {
        (ValueView::Bool(x), ValueView::Bool(y)) => ValueView::Bool(x && y),
        _ => if a == ValueView::Bool(false) || b == ValueView::Bool(false) {
            ValueView::Bool(false)
        } else {
            ValueView::Null
        },
    }
}

/// SQL `OR` is defined on booleans and NULL; any other pairing is a type error
/// unless one side is `true`.
pub open spec fn or_defined(a: ValueView, b: ValueView) -> bool {
    ||| (a is Bool && b is Bool)
    ||| a == ValueView::Bool(true)
    ||| b == ValueView::Bool(true)
    ||| a is Null
    ||| b is Null
}

/// Three-valued `OR`.
pub open spec fn spec_or(a: ValueView, b: ValueView) -> ValueView {
    match (a, b) {
        (ValueView::Bool(x), ValueView::Bool(y)) => ValueView::Bool(x || y),
        _ => if a == ValueView::Bool(true) || b == ValueView::Bool(true) {
            ValueView::Bool(true)
        } else {
            ValueView::Null
        },
    }
}

/// SQL `XOR` is defined on booleans and NULL.
pub open spec fn xor_defined(a: ValueView, b: ValueView) -> bool {
    ||| (a is Bool && b is Bool)
    ||| a is Null
    ||| b is Null
}

/// Three-valued `XOR`.
pub open spec fn spec_xor(a: ValueView, b: ValueView) -> ValueView {
    match (a, b) {
        (ValueView::Bool(x), ValueView::Bool(y)) => ValueView::Bool(x != y),
        _ => ValueView::Null,
    }
}


/// SQL `NOT` is defined on booleans and NULL.
pub open spec fn not_defined(a: ValueView) -> bool {
    a is Bool || a is Null
}

/// Three-valued `NOT`.
pub open spec fn spec_not(a: ValueView) -> ValueView {
    match a {
        ValueView::Bool(b) => ValueView::Bool(!b),
        _ => ValueView::Null,
    }
}

/// Arithmetic negation is defined on NULL and on integers other than `i32::MIN`
/// (whose negation overflows).
pub open spec fn neg_defined(a: ValueView) -> bool {
    ||| a is Null
    ||| (a is Int && a->Int_0 != i32::MIN)
}

/// Arithmetic negation; NULL stays NULL.
pub open spec fn spec_neg(a: ValueView) -> ValueView {
    match a {
        ValueView::Int(i) => ValueView::Int((-i) as i32),
        _ => ValueView::Null,
    }
}

/// The binary arithmetic operators on values.
pub enum ArithOp {
    Add,
    Sub,
    Mul,
    Div,
    Rem,
}

/// Division truncating toward zero, as Rust's `/` on integers.
pub open spec fn trunc_div(a: int, b: int) -> int {
    if a >= 0 {
        a / b
    } else {
        -((-a) / b)
    }
}

/// Remainder with the sign of the dividend, as Rust's `%` on integers.
pub open spec fn trunc_rem(a: int, b: int) -> int {
    if a >= 0 {
        a % b
    } else {
        -((-a) % b)
    }
}

/// The exact integer result of an arithmetic operator; `None` for a zero divisor.
pub open spec fn int_arith(op: ArithOp, a: int, b: int) -> Option<int> {
    match op {
        ArithOp::Add => Some(a + b),
        ArithOp::Sub => Some(a - b),
        ArithOp::Mul => Some(a * b),
        ArithOp::Div => if b == 0 { None } else { Some(trunc_div(a, b)) },
        ArithOp::Rem => if b == 0 { None } else { Some(trunc_rem(a, b)) },
    }
}

/// Whether `op` on two `i32` values neither divides by zero nor overflows
/// (`i32::MIN % -1` overflows in Rust as `i32::MIN / -1` does).
pub open spec fn int_arith_ok(op: ArithOp, a: i32, b: i32) -> bool {
    &&& int_arith(op, a as int, b as int) is Some
    &&& i32::MIN <= int_arith(op, a as int, b as int)->0 <= i32::MAX
    &&& !(op is Rem && a == i32::MIN && b == -1)
}

/// Arithmetic is defined on two integers (without overflow or zero division)
/// and on any pair that holds a NULL.
pub open spec fn arith_defined(op: ArithOp, a: ValueView, b: ValueView) -> bool {
    match (a, b) {
        (ValueView::Int(x), ValueView::Int(y)) => int_arith_ok(op, x, y),
        _ => a is Null || b is Null,
    }
}

/// Arithmetic on values: integers compute, NULL propagates.
pub open spec fn spec_arith(op: ArithOp, a: ValueView, b: ValueView) -> ValueView {
    match (a, b) {
        (ValueView::Int(x), ValueView::Int(y)) => ValueView::Int(
            int_arith(op, x as int, y as int)->0 as i32,
        ),
        _ => ValueView::Null,
    }
}

impl Value {
    /// Whether the value is the integer zero.
    pub fn is_zero(&self) -> (r: bool)
        ensures
            r == (self@ == ValueView::Int(0)),
    {
        match self {
            Value::Int(i) => *i == 0,
            _ => false,
        }
    }

    /// Whether the value is NULL.
    pub fn is_null(&self) -> (r: bool)
        ensures
            r == (self@ is Null),
    {
        match self {
            Value::Null => true,
            _ => false,
        }
    }

    /// Three-valued logical `AND`.
    pub fn and(&self, other: &Self) -> (r: Value)
        requires
            and_defined(self@, other@),
        ensures
            r@ == spec_and(self@, other@),
    {
        match (self, other) {
            (Value::Bool(a), Value::Bool(b)) => Value::Bool(*a && *b),
            (Value::Bool(false), _) | (_, Value::Bool(false)) => Value::Bool(false),
            _ => Value::Null,
        }
    }

    /// Three-valued logical `OR`.
    pub fn or(&self, other: &Self) -> (r: Value)
        requires
            or_defined(self@, other@),
        ensures
            r@ == spec_or(self@, other@),
    {
        match (self, other) {
            (Value::Bool(a), Value::Bool(b)) => Value::Bool(*a || *b),
            (Value::Bool(true), _) | (_, Value::Bool(true)) => Value::Bool(true),
            _ => Value::Null,
        }
    }

    /// Three-valued logical `XOR`.
    pub fn xor(&self, other: &Self) -> (r: Value)
        requires
            xor_defined(self@, other@),
        ensures
            r@ == spec_xor(self@, other@),
    {
        match (self, other) {
            (Value::Bool(a), Value::Bool(b)) => Value::Bool(*a != *b),
            _ => Value::Null,
        }
    }


    /// A copy of the value.
    pub fn copy(&self) -> (r: Value)
        ensures
            r == *self,
    {
        match self {
            Value::Null => Value::Null,
            Value::Bool(b) => Value::Bool(*b),
            Value::Int(i) => Value::Int(*i),
            Value::String(s) => Value::String(s.clone()),
        }
    }

    /// The display format of the value (see [`display_value`]).
    pub fn to_string(&self) -> (r: String)
        ensures
            r@ == display_value(self@),
    {
        let mut out: Vec<char> = Vec::new();
        match self {
            Value::Null => {
                out = vec!['n', 'u', 'l', 'l'];
            },
            Value::Bool(b) => {
                if *b {
                    out = vec!['t', 'r', 'u', 'e'];
                } else {
                    out = vec!['f', 'a', 'l', 's', 'e'];
                }
            },
            Value::Int(i) => {
                out = i32_decimal(*i);
            },
            Value::String(s) => {
                let inner = chars_of(s.as_str());
                out.push('\'');
                crate::text::extend_chars(&mut out, &inner);
                out.push('\'');
            },
        }
        assert(out@ == display_value(self@));
        string_of(&out)
    }

    /// Parses the display format of a value (see [`parse_value`]); the error
    /// is the text itself.
    pub fn from_str(s: &str) -> (r: Result<Value, String>)
        ensures
            match (r, parse_value(s@)) {
                (Ok(v), Ok(w)) => v@ == w,
                (Err(e), Err(t)) => e@ == t,
                _ => false,
            },
    {
        let v = chars_of(s);
        if same_chars(&v, &vec!['n', 'u', 'l', 'l']) {
            return Ok(Value::Null);
        }
        if same_chars(&v, &vec!['t', 'r', 'u', 'e']) {
            return Ok(Value::Bool(true));
        }
        if same_chars(&v, &vec!['f', 'a', 'l', 's', 'e']) {
            return Ok(Value::Bool(false));
        }
        if let Some(i) = parse_i32_chars(&v) {
            return Ok(Value::Int(i));
        }
        let n = v.len();
        if n >= 2 && v[0] == '\'' && v[n - 1] == '\'' {
            let inner = s.substring_char(1, n - 1);
            return Ok(Value::String(String::from_str(inner)));
        }
        Err(String::from_str(s))
    }

    /// Three-valued logical `NOT`.
    pub fn not(self) -> (r: Value)
        requires
            not_defined(self@),
        ensures
            r@ == spec_not(self@),
    {
        match self {
            Value::Bool(b) => Value::Bool(!b),
            _ => Value::Null,
        }
    }

    /// Arithmetic negation.
    pub fn neg(self) -> (r: Value)
        requires
            neg_defined(self@),
        ensures
            r@ == spec_neg(self@),
    {
        match self {
            Value::Int(i) => Value::Int(-i),
            _ => Value::Null,
        }
    }

    /// Applies a binary arithmetic operator.
    pub fn arith(&self, op: ArithOp, other: &Self) -> (r: Value)
        requires
            arith_defined(op, self@, other@),
        ensures
            r@ == spec_arith(op, self@, other@),
    {
        match (self, other) {
            (Value::Int(a), Value::Int(b)) => {
                let (a, b) = (*a, *b);
                let v = match op {
                    ArithOp::Add => a + b,
                    ArithOp::Sub => a - b,
                    ArithOp::Mul => a * b,
                    ArithOp::Div => a / b,
                    ArithOp::Rem => a % b,
                };
                Value::Int(v)
            },
            _ => Value::Null,
        }
    }

    /// Integer addition; NULL propagates.
    pub fn add(&self, other: &Self) -> (r: Value)
        requires
            arith_defined(ArithOp::Add, self@, other@),
        ensures
            r@ == spec_arith(ArithOp::Add, self@, other@),
    {
        self.arith(ArithOp::Add, other)
    }

    /// Integer subtraction; NULL propagates.
    pub fn sub(&self, other: &Self) -> (r: Value)
        requires
            arith_defined(ArithOp::Sub, self@, other@),
        ensures
            r@ == spec_arith(ArithOp::Sub, self@, other@),
    {
        self.arith(ArithOp::Sub, other)
    }

    /// Integer multiplication; NULL propagates.
    pub fn mul(&self, other: &Self) -> (r: Value)
        requires
            arith_defined(ArithOp::Mul, self@, other@),
        ensures
            r@ == spec_arith(ArithOp::Mul, self@, other@),
    {
        self.arith(ArithOp::Mul, other)
    }

    /// Integer division truncating toward zero; NULL propagates.
    pub fn div(&self, other: &Self) -> (r: Value)
        requires
            arith_defined(ArithOp::Div, self@, other@),
        ensures
            r@ == spec_arith(ArithOp::Div, self@, other@),
    {
        self.arith(ArithOp::Div, other)
    }

    /// Integer remainder with the sign of the dividend; NULL propagates.
    pub fn rem(&self, other: &Self) -> (r: Value)
        requires
            arith_defined(ArithOp::Rem, self@, other@),
        ensures
            r@ == spec_arith(ArithOp::Rem, self@, other@),
    {
        self.arith(ArithOp::Rem, other)
    }
}


impl From<bool> for Value {
    fn from(b: bool) -> (r: Self) {
        Value::Bool(b)
    }
}

impl vstd::std_specs::convert::FromSpecImpl<bool> for Value {
    open spec fn obeys_from_spec() -> bool {
        true
    }

    open spec fn from_spec(b: bool) -> Value {
        Value::Bool(b)
    }
}

/// `AND` and `OR` are commutative, on the pairs where they are defined.
pub proof fn lemma_and_or_commutative(a: ValueView, b: ValueView)
    ensures
        and_defined(a, b) == and_defined(b, a),
        and_defined(a, b) ==> spec_and(a, b) == spec_and(b, a),
        or_defined(a, b) == or_defined(b, a),
        or_defined(a, b) ==> spec_or(a, b) == spec_or(b, a),
        xor_defined(a, b) == xor_defined(b, a),
        xor_defined(a, b) ==> spec_xor(a, b) == spec_xor(b, a),
{
}

/// `false` absorbs `AND` and `true` absorbs `OR`, whatever the other side.
pub proof fn lemma_absorbing(x: ValueView)
    ensures
        and_defined(ValueView::Bool(false), x),
        spec_and(ValueView::Bool(false), x) == ValueView::Bool(false),
        or_defined(ValueView::Bool(true), x),
        spec_or(ValueView::Bool(true), x) == ValueView::Bool(true),
{
}

/// NULL propagates: `NOT NULL` is NULL; `NULL AND x` is NULL unless `x` is
/// `false`; `NULL OR x` is NULL unless `x` is `true`; `NULL XOR x` and any
/// arithmetic with NULL are NULL.
pub proof fn lemma_null_propagates(op: ArithOp, x: ValueView)
    ensures
        spec_not(ValueView::Null) == ValueView::Null,
        x != ValueView::Bool(false) ==> spec_and(ValueView::Null, x) == ValueView::Null,
        x != ValueView::Bool(true) ==> spec_or(ValueView::Null, x) == ValueView::Null,
        spec_xor(ValueView::Null, x) == ValueView::Null,
        arith_defined(op, ValueView::Null, x) && spec_arith(op, ValueView::Null, x) == ValueView::Null,
        arith_defined(op, x, ValueView::Null) && spec_arith(op, x, ValueView::Null) == ValueView::Null,
{
}

/// `NOT` undoes itself, and De Morgan's laws hold in three-valued logic.
pub proof fn lemma_not_de_morgan(a: ValueView, b: ValueView)
    requires
        not_defined(a),
        not_defined(b),
    ensures
        spec_not(spec_not(a)) == a,
        spec_not(spec_and(a, b)) == spec_or(spec_not(a), spec_not(b)),
        spec_not(spec_or(a, b)) == spec_and(spec_not(a), spec_not(b)),
{
}

/// Negation undoes itself where it is defined.
pub proof fn lemma_neg_involutive(a: ValueView)
    requires
        neg_defined(a),
    ensures
        neg_defined(spec_neg(a)),
        spec_neg(spec_neg(a)) == a,
{
}
} // verus!
