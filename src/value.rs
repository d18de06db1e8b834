//! Values of the language: text, numbers and booleans, with the operator table
//! that says which operand types each operator accepts.
use vstd::prelude::*;
use vstd::string::StringExecFns;

verus! {

/// The numbers of the language, supplied by the host (the language's numbers
/// are floating point, which this library does not hold). Each operation is a
/// function of its operands alone; the spec function of the same name names its
/// result, and an implementation meets the contract by giving the spec function
/// the body of the operation.
pub trait YarnNumber: Sized + Copy {
    /// The number that a literal `digits` or `digits.digits` denotes.
    spec fn spec_from_literal(text: &String) -> Self;

    spec fn spec_plus(self, other: Self) -> Self;

    spec fn spec_minus(self, other: Self) -> Self;

    spec fn spec_times(self, other: Self) -> Self;

    spec fn spec_divided_by(self, other: Self) -> Self;

    spec fn spec_equals(self, other: Self) -> bool;

    spec fn spec_less_than(self, other: Self) -> bool;

    spec fn spec_less_than_eq(self, other: Self) -> bool;

    spec fn spec_greater_than(self, other: Self) -> bool;

    spec fn spec_greater_than_eq(self, other: Self) -> bool;

    spec fn spec_negated(self) -> Self;

    /// The text that a number turns into when it is joined to a string.
    spec fn spec_text(self) -> String;

    fn from_literal(text: &String) -> (r: Self)
        ensures
            r == Self::spec_from_literal(text),
    ;

    fn plus(self, other: Self) -> (r: Self)
        ensures
            r == self.spec_plus(other),
    ;

    fn minus(self, other: Self) -> (r: Self)
        ensures
            r == self.spec_minus(other),
    ;

    fn times(self, other: Self) -> (r: Self)
        ensures
            r == self.spec_times(other),
    ;

    fn divided_by(self, other: Self) -> (r: Self)
        ensures
            r == self.spec_divided_by(other),
    ;

    fn equals(self, other: Self) -> (r: bool)
        ensures
            r == self.spec_equals(other),
    ;

    fn less_than(self, other: Self) -> (r: bool)
        ensures
            r == self.spec_less_than(other),
    ;

    fn less_than_eq(self, other: Self) -> (r: bool)
        ensures
            r == self.spec_less_than_eq(other),
    ;

    fn greater_than(self, other: Self) -> (r: bool)
        ensures
            r == self.spec_greater_than(other),
    ;

    fn greater_than_eq(self, other: Self) -> (r: bool)
        ensures
            r == self.spec_greater_than_eq(other),
    ;

    fn negated(self) -> (r: Self)
        ensures
            r == self.spec_negated(),
    ;

    fn to_text(self) -> (r: String)
        ensures
            r == self.spec_text(),
    ;
}

/// A value: text, a number or a boolean.
#[derive(Clone, Debug, PartialEq)]
pub enum YarnValue<N> {
    STRING(String),
    NUMBER(N),
    BOOL(bool),
}

/// The mathematical model of a value.
pub enum SpecValue<N> {
    Str(Seq<char>),
    Num(N),
    Bool(bool),
}

impl<N> View for YarnValue<N> {
    type V = SpecValue<N>;

    open spec fn view(&self) -> SpecValue<N> {
        match self {
            YarnValue::STRING(s) => SpecValue::Str(s@),
            YarnValue::NUMBER(n) => SpecValue::Num(*n),
            YarnValue::BOOL(b) => SpecValue::Bool(*b),
        }
    }
}

/// The model of an optional value.
pub open spec fn opt_view<N>(o: Option<YarnValue<N>>) -> Option<SpecValue<N>> {
    match o {
        Some(v) => Some(v@),
        None => None,
    }
}

/// The text of a boolean.
pub open spec fn bool_text(b: bool) -> Seq<char> {
    if b {
        "true"@
    } else {
        "false"@
    }
}

/// `==`: defined on two values of the same type.
pub open spec fn spec_is_equal<N: YarnNumber>(a: SpecValue<N>, b: SpecValue<N>) -> Option<SpecValue<N>> {
    match (a, b) {
        (SpecValue::Str(x), SpecValue::Str(y)) => Some(SpecValue::Bool(x == y)),
        (SpecValue::Num(x), SpecValue::Num(y)) => Some(SpecValue::Bool(x.spec_equals(y))),
        (SpecValue::Bool(x), SpecValue::Bool(y)) => Some(SpecValue::Bool(x == y)),
        _ => None,
    }
}

/// `!=`: defined on two values of the same type.
pub open spec fn spec_is_not_equal<N: YarnNumber>(a: SpecValue<N>, b: SpecValue<N>) -> Option<
    SpecValue<N>,
> {
    match (a, b) {
        (SpecValue::Str(x), SpecValue::Str(y)) => Some(SpecValue::Bool(x != y)),
        (SpecValue::Num(x), SpecValue::Num(y)) => Some(SpecValue::Bool(!x.spec_equals(y))),
        (SpecValue::Bool(x), SpecValue::Bool(y)) => Some(SpecValue::Bool(x != y)),
        _ => None,
    }
}

/// `-`: defined on two numbers only.
pub open spec fn spec_sub<N: YarnNumber>(a: SpecValue<N>, b: SpecValue<N>) -> Option<SpecValue<N>> {
    match (a, b) {
        (SpecValue::Num(x), SpecValue::Num(y)) => Some(SpecValue::Num(x.spec_minus(y))),
        _ => None,
    }
}

/// `*`: defined on two numbers only.
pub open spec fn spec_mult<N: YarnNumber>(a: SpecValue<N>, b: SpecValue<N>) -> Option<SpecValue<N>> {
    match (a, b) {
        (SpecValue::Num(x), SpecValue::Num(y)) => Some(SpecValue::Num(x.spec_times(y))),
        _ => None,
    }
}

/// `/`: defined on two numbers only.
pub open spec fn spec_div<N: YarnNumber>(a: SpecValue<N>, b: SpecValue<N>) -> Option<SpecValue<N>> {
    match (a, b) {
        (SpecValue::Num(x), SpecValue::Num(y)) => Some(SpecValue::Num(x.spec_divided_by(y))),
        _ => None,
    }
}

/// `<`: defined on two numbers only.
pub open spec fn spec_is_less_than<N: YarnNumber>(a: SpecValue<N>, b: SpecValue<N>) -> Option<SpecValue<N>> {
    match (a, b) {
        (SpecValue::Num(x), SpecValue::Num(y)) => Some(SpecValue::Bool(x.spec_less_than(y))),
        _ => None,
    }
}

/// `<=`: defined on two numbers only.
pub open spec fn spec_is_less_than_eq<N: YarnNumber>(a: SpecValue<N>, b: SpecValue<N>) -> Option<SpecValue<N>> {
    match (a, b) {
        (SpecValue::Num(x), SpecValue::Num(y)) => Some(SpecValue::Bool(x.spec_less_than_eq(y))),
        _ => None,
    }
}

/// `>`: defined on two numbers only.
pub open spec fn spec_is_greater_than<N: YarnNumber>(a: SpecValue<N>, b: SpecValue<N>) -> Option<SpecValue<N>> {
    match (a, b) {
        (SpecValue::Num(x), SpecValue::Num(y)) => Some(SpecValue::Bool(x.spec_greater_than(y))),
        _ => None,
    }
}

/// `>=`: defined on two numbers only.
pub open spec fn spec_is_greater_than_eq<N: YarnNumber>(a: SpecValue<N>, b: SpecValue<N>) -> Option<SpecValue<N>> {
    match (a, b) {
        (SpecValue::Num(x), SpecValue::Num(y)) => Some(SpecValue::Bool(x.spec_greater_than_eq(y))),
        _ => None,
    }
}

/// `+`: numbers add; when either side is text, the other side's text is
/// joined to it; a boolean and a number do not add, nor two booleans.
pub open spec fn spec_add<N: YarnNumber>(a: SpecValue<N>, b: SpecValue<N>) -> Option<SpecValue<N>> {
    match (a, b) {
        (SpecValue::Str(x), SpecValue::Str(y)) => Some(SpecValue::Str(x + y)),
        (SpecValue::Str(x), SpecValue::Num(y)) => Some(SpecValue::Str(x + y.spec_text()@)),
        (SpecValue::Str(x), SpecValue::Bool(y)) => Some(SpecValue::Str(x + bool_text(y))),
        (SpecValue::Num(x), SpecValue::Str(y)) => Some(SpecValue::Str(x.spec_text()@ + y)),
        (SpecValue::Num(x), SpecValue::Num(y)) => Some(SpecValue::Num(x.spec_plus(y))),
        (SpecValue::Bool(x), SpecValue::Str(y)) => Some(SpecValue::Str(bool_text(x) + y)),
        _ => None,
    }
}

fn bool_string(b: bool) -> (r: String)
    ensures
        r@ == bool_text(b),
{
    if b {
        String::from_str("true")
    } else {
        String::from_str("false")
    }
}

fn joined(a: &String, b: &String) -> (r: String)
    ensures
        r@ == a@ + b@,
{
    let mut s = a.clone();
    s.append(b.as_str());
    s
}

impl<N: YarnNumber> YarnValue<N> {
    /// A copy of this value.
    pub fn duplicate(&self) -> (r: Self)
        ensures
            r@ == self@,
    {
        match self {
            YarnValue::STRING(s) => YarnValue::STRING(s.clone()),
            YarnValue::NUMBER(n) => YarnValue::NUMBER(*n),
            YarnValue::BOOL(b) => YarnValue::BOOL(*b),
        }
    }

    /// `"STRING"`, `"NUMBER"` or `"BOOL"`.
    pub fn get_type_as_string(&self) -> (r: String)
        ensures
            r@ == match self@ {
                SpecValue::Str(_) => "STRING"@,
                SpecValue::Num(_) => "NUMBER"@,
                SpecValue::Bool(_) => "BOOL"@,
            },
    {
        match self {
            YarnValue::STRING(_) => String::from_str("STRING"),
            YarnValue::NUMBER(_) => String::from_str("NUMBER"),
            YarnValue::BOOL(_) => String::from_str("BOOL"),
        }
    }

    pub fn is_number(&self) -> (r: bool)
        ensures
            r == (self@ is Num),
    {
        match self {
            YarnValue::NUMBER(_) => true,
            _ => false,
        }
    }

    /// The number, when this value is one.
    pub fn as_number(&self) -> (r: Option<N>)
        ensures
            r == match self@ {
                SpecValue::Num(n) => Some(n),
                _ => None,
            },
    {
        match self {
            YarnValue::NUMBER(n) => Some(*n),
            _ => None,
        }
    }

    pub fn is_equal(&self, other: &YarnValue<N>) -> (r: Option<YarnValue<N>>)
        ensures
            opt_view(r) == spec_is_equal(self@, other@),
    {
        match (self, other) {
            (YarnValue::STRING(a), YarnValue::STRING(b)) => Some(YarnValue::BOOL(*a == *b)),
            (YarnValue::NUMBER(a), YarnValue::NUMBER(b)) => Some(YarnValue::BOOL(a.equals(*b))),
            (YarnValue::BOOL(a), YarnValue::BOOL(b)) => Some(YarnValue::BOOL(*a == *b)),
            _ => None,
        }
    }

    pub fn is_not_equal(&self, other: &YarnValue<N>) -> (r: Option<YarnValue<N>>)
        ensures
            opt_view(r) == spec_is_not_equal(self@, other@),
    {
        match (self, other) {
            (YarnValue::STRING(a), YarnValue::STRING(b)) => Some(YarnValue::BOOL(!(*a == *b))),
            (YarnValue::NUMBER(a), YarnValue::NUMBER(b)) => Some(YarnValue::BOOL(!a.equals(*b))),
            (YarnValue::BOOL(a), YarnValue::BOOL(b)) => Some(YarnValue::BOOL(*a != *b)),
            _ => None,
        }
    }

    pub fn is_less_than(&self, other: &YarnValue<N>) -> (r: Option<YarnValue<N>>)
        ensures
            opt_view(r) == spec_is_less_than(self@, other@),
    {
        match (self, other) {
            (YarnValue::NUMBER(a), YarnValue::NUMBER(b)) => Some(YarnValue::BOOL(a.less_than(*b))),
            _ => None,
        }
    }

    pub fn is_less_than_eq(&self, other: &YarnValue<N>) -> (r: Option<YarnValue<N>>)
        ensures
            opt_view(r) == spec_is_less_than_eq(self@, other@),
    {
        match (self, other) {
            (YarnValue::NUMBER(a), YarnValue::NUMBER(b)) => Some(
                YarnValue::BOOL(a.less_than_eq(*b)),
            ),
            _ => None,
        }
    }

    pub fn is_greater_than(&self, other: &YarnValue<N>) -> (r: Option<YarnValue<N>>)
        ensures
            opt_view(r) == spec_is_greater_than(self@, other@),
    {
        match (self, other) {
            (YarnValue::NUMBER(a), YarnValue::NUMBER(b)) => Some(
                YarnValue::BOOL(a.greater_than(*b)),
            ),
            _ => None,
        }
    }

    pub fn is_greater_than_eq(&self, other: &YarnValue<N>) -> (r: Option<YarnValue<N>>)
        ensures
            opt_view(r) == spec_is_greater_than_eq(self@, other@),
    {
        match (self, other) {
            (YarnValue::NUMBER(a), YarnValue::NUMBER(b)) => Some(
                YarnValue::BOOL(a.greater_than_eq(*b)),
            ),
            _ => None,
        }
    }

    pub fn add(&self, other: &YarnValue<N>) -> (r: Option<YarnValue<N>>)
        ensures
            opt_view(r) == spec_add(self@, other@),
    {
        match (self, other) {
            (YarnValue::STRING(a), YarnValue::STRING(b)) => Some(YarnValue::STRING(joined(a, b))),
            (YarnValue::STRING(a), YarnValue::NUMBER(b)) => {
                let t = b.to_text();
                Some(YarnValue::STRING(joined(a, &t)))
            },
            (YarnValue::STRING(a), YarnValue::BOOL(b)) => {
                let t = bool_string(*b);
                Some(YarnValue::STRING(joined(a, &t)))
            },
            (YarnValue::NUMBER(a), YarnValue::STRING(b)) => {
                let t = a.to_text();
                Some(YarnValue::STRING(joined(&t, b)))
            },
            (YarnValue::NUMBER(a), YarnValue::NUMBER(b)) => Some(YarnValue::NUMBER(a.plus(*b))),
            (YarnValue::BOOL(a), YarnValue::STRING(b)) => {
                let t = bool_string(*a);
                Some(YarnValue::STRING(joined(&t, b)))
            },
            _ => None,
        }
    }

    pub fn mult(&self, other: &YarnValue<N>) -> (r: Option<YarnValue<N>>)
        ensures
            opt_view(r) == spec_mult(self@, other@),
    {
        match (self, other) {
            (YarnValue::NUMBER(a), YarnValue::NUMBER(b)) => Some(YarnValue::NUMBER(a.times(*b))),
            _ => None,
        }
    }

    pub fn sub(&self, other: &YarnValue<N>) -> (r: Option<YarnValue<N>>)
        ensures
            opt_view(r) == spec_sub(self@, other@),
    {
        match (self, other) {
            (YarnValue::NUMBER(a), YarnValue::NUMBER(b)) => Some(YarnValue::NUMBER(a.minus(*b))),
            _ => None,
        }
    }

    pub fn div(&self, other: &YarnValue<N>) -> (r: Option<YarnValue<N>>)
        ensures
            opt_view(r) == spec_div(self@, other@),
    {
        match (self, other) {
            (YarnValue::NUMBER(a), YarnValue::NUMBER(b)) => Some(
                YarnValue::NUMBER(a.divided_by(*b)),
            ),
            _ => None,
        }
    }
}

} // verus!
