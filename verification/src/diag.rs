//! The texts of the diagnostics.

use vstd::prelude::*;
use vstd::string::StringExecFns;
use crate::value::{ErrorKind, GenError, TypeError};

verus! {

/// The character of a decimal digit.
pub open spec fn digit_char(d: nat) -> char {
    if d == 0 {
        '0'
    } else if d == 1 {
        '1'
    } else if d == 2 {
        '2'
    } else if d == 3 {
        '3'
    } else if d == 4 {
        '4'
    } else if d == 5 {
        '5'
    } else if d == 6 {
        '6'
    } else if d == 7 {
        '7'
    } else if d == 8 {
        '8'
    } else {
        '9'
    }
}

/// A number in decimal digits, without leading zeros.
pub open spec fn decimal_text(n: nat) -> Seq<char>
    decreases n,
{
    if n < 10 {
        seq![digit_char(n)]
    } else {
        decimal_text(n / 10).push(digit_char(n % 10))
    }
}

/// The text of the diagnostic for a name that is bound nowhere.
pub open spec fn undefined_text(name: Seq<char>) -> Seq<char> {
    "undefined: "@ + name
}

/// The text of the diagnostic for targets and values that do not match.
pub open spec fn mismatch_text(l: nat, r: nat) -> Seq<char> {
    "assignment mismatch: "@ + decimal_text(l) + " variables but "@ + decimal_text(r) + " values"@
}

/// The text of the diagnostic for what a type checker would refuse.
pub open spec fn type_text(msg: Seq<char>) -> Seq<char> {
    "type error(should be caught by Type Checker when it's in place): "@ + msg
}

/// The text of the diagnostic for a constant literal that was refused, or
/// another type error. `text` is the literal as it was written.
pub open spec fn type_error_text(t: TypeError, text: Seq<char>) -> Seq<char> {
    match t {
        TypeError::Truncated => "constant "@ + text + " truncated to integer"@,
        TypeError::OverflowsInt => text + " overflows int"@,
        TypeError::InvalidLiteral => "invalid constant literal"@,
        TypeError::ComplexConstant => "complex constant not supported yet"@,
        TypeError::NotAType => type_text("not a type"@),
        TypeError::NotAStruct => type_text("the receiver is no struct"@),
        TypeError::NoResultSlot => type_text("no slot for the result"@),
        TypeError::MisplacedVariadic => type_text(
            "... is permitted for the last parameter only"@,
        ),
    }
}

/// The text of a diagnostic. `text` is what stands at its position in the
/// source: the name for a name that is bound nowhere, the literal for a
/// constant that was refused.
pub open spec fn message_text(e: GenError, text: Seq<char>) -> Seq<char> {
    match e.kind {
        ErrorKind::Undefined => undefined_text(text),
        ErrorKind::AssignMismatch(l, r) => mismatch_text(l as nat, r as nat),
        ErrorKind::Type(t) => type_error_text(t, text),
        ErrorKind::NotImplemented => "not implemented"@,
        ErrorKind::Overflow => "jump offset, index or count overflows a code word"@,
    }
}

/// A decimal digit as a text.
fn digit(d: usize) -> (r: &'static str)
    requires
        d < 10,
    ensures
        r@ == seq![digit_char(d as nat)],
{
    proof {
        reveal_strlit("0");
        reveal_strlit("1");
        reveal_strlit("2");
        reveal_strlit("3");
        reveal_strlit("4");
        reveal_strlit("5");
        reveal_strlit("6");
        reveal_strlit("7");
        reveal_strlit("8");
        reveal_strlit("9");
    }
    let r = if d == 0 {
        "0"
    } else if d == 1 {
        "1"
    } else if d == 2 {
        "2"
    } else if d == 3 {
        "3"
    } else if d == 4 {
        "4"
    } else if d == 5 {
        "5"
    } else if d == 6 {
        "6"
    } else if d == 7 {
        "7"
    } else if d == 8 {
        "8"
    } else {
        "9"
    };
    assert(r@ =~= seq![digit_char(d as nat)]);
    r
}

/// Writes a number in decimal digits.
pub fn decimal(n: usize) -> (r: String)
    ensures
        r@ == decimal_text(n as nat),
    decreases n,
{
    if n < 10 {
        digit(n).to_owned()
    } else {
        let mut s = decimal(n / 10);
        s.append(digit(n % 10));
        proof {
            assert(decimal_text((n / 10) as nat) + seq![digit_char((n % 10) as nat)]
                =~= decimal_text((n / 10) as nat).push(digit_char((n % 10) as nat)));
        }
        s
    }
}

/// The text of the diagnostic for a name that is bound nowhere.
pub fn error_undefined(name: &str) -> (r: String)
    ensures
        r@ == undefined_text(name@),
{
    let mut s = "undefined: ".to_owned();
    s.append(name);
    s
}

/// The text of the diagnostic for targets and values that do not match.
pub fn error_mismatch(l: usize, r: usize) -> (s: String)
    ensures
        s@ == mismatch_text(l as nat, r as nat),
{
    let mut s = "assignment mismatch: ".to_owned();
    s.append(decimal(l).as_str());
    s.append(" variables but ");
    s.append(decimal(r).as_str());
    s.append(" values");
    s
}

/// The text of the diagnostic for what a type checker would refuse.
pub fn error_type(msg: &str) -> (r: String)
    ensures
        r@ == type_text(msg@),
{
    let mut s = "type error(should be caught by Type Checker when it's in place): ".to_owned();
    s.append(msg);
    s
}

/// The text of the diagnostic for a constant literal that was refused, or
/// another type error.
pub fn type_error_message(t: TypeError, text: &str) -> (r: String)
    ensures
        r@ == type_error_text(t, text@),
{
    match t {
        TypeError::Truncated => {
            let mut s = "constant ".to_owned();
            s.append(text);
            s.append(" truncated to integer");
            s
        },
        TypeError::OverflowsInt => {
            let mut s = text.to_owned();
            s.append(" overflows int");
            s
        },
        TypeError::InvalidLiteral => "invalid constant literal".to_owned(),
        TypeError::ComplexConstant => "complex constant not supported yet".to_owned(),
        TypeError::NotAType => error_type("not a type"),
        TypeError::NotAStruct => error_type("the receiver is no struct"),
        TypeError::NoResultSlot => error_type("no slot for the result"),
        TypeError::MisplacedVariadic => error_type("... is permitted for the last parameter only"),
    }
}

impl GenError {
    /// The text of the diagnostic. `text` is what stands at its position in
    /// the source: the name for a name that is bound nowhere, the literal
    /// for a constant that was refused.
    pub fn message(&self, text: &str) -> (r: String)
        ensures
            r@ == message_text(*self, text@),
    {
        match self.kind {
            ErrorKind::Undefined => error_undefined(text),
            ErrorKind::AssignMismatch(l, r) => error_mismatch(l, r),
            ErrorKind::Type(t) => type_error_message(t, text),
            ErrorKind::NotImplemented => "not implemented".to_owned(),
            ErrorKind::Overflow => "jump offset, index or count overflows a code word".to_owned(),
        }
    }
}

} // verus!
