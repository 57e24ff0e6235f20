use gos_codegen::diag::{decimal, error_mismatch, error_type, error_undefined, type_error_message};
use gos_codegen::literal::{convert_float, parse_char, parse_int, parse_string};
use gos_codegen::value::{ErrorKind, GenError, TypeError};

#[test]
fn integer_literals() {
    assert_eq!(parse_int("0"), Ok(0));
    assert_eq!(parse_int("7"), Ok(7));
    assert_eq!(parse_int("0042"), Ok(42));
    assert_eq!(parse_int("1234567890"), Ok(1234567890));
    assert_eq!(parse_int("9223372036854775807"), Ok(i64::MAX));
}

#[test]
fn integer_literals_out_of_range() {
    assert_eq!(parse_int("9223372036854775808"), Err(TypeError::OverflowsInt));
    assert_eq!(parse_int("99999999999999999999999999"), Err(TypeError::OverflowsInt));
}

#[test]
fn integer_literals_that_are_no_decimal_digits() {
    assert_eq!(parse_int(""), Err(TypeError::InvalidLiteral));
    assert_eq!(parse_int("0x10"), Err(TypeError::InvalidLiteral));
    assert_eq!(parse_int("1_000"), Err(TypeError::InvalidLiteral));
    assert_eq!(parse_int("-1"), Err(TypeError::InvalidLiteral));
    assert_eq!(parse_int("+1"), Err(TypeError::InvalidLiteral));
    assert_eq!(parse_int(" 1"), Err(TypeError::InvalidLiteral));
    // the overflow of the digits before it does not hide a character that is no digit
    assert_eq!(parse_int("99999999999999999999999999x"), Err(TypeError::InvalidLiteral));
}

#[test]
fn character_literals() {
    assert_eq!(parse_char("'a'"), Ok(97));
    assert_eq!(parse_char("'0'"), Ok(48));
    assert_eq!(parse_char("'\u{4e16}'"), Ok(0x4e16));
    // the character after the opening quote counts, whatever follows
    assert_eq!(parse_char("'\\n'"), Ok(92));
    assert_eq!(parse_char("'"), Err(TypeError::InvalidLiteral));
    assert_eq!(parse_char(""), Err(TypeError::InvalidLiteral));
}

#[test]
fn string_literals_shed_their_quotes() {
    assert_eq!(parse_string("\"abc\""), Ok("abc".to_string()));
    assert_eq!(parse_string("\"\""), Ok("".to_string()));
    assert_eq!(parse_string("`raw`"), Ok("raw".to_string()));
    assert_eq!(parse_string("\"h\u{e9}llo\""), Ok("h\u{e9}llo".to_string()));
    assert_eq!(parse_string("\""), Err(TypeError::InvalidLiteral));
    assert_eq!(parse_string(""), Err(TypeError::InvalidLiteral));
}

fn convert(x: f64) -> Result<i64, TypeError> {
    convert_float(x.to_bits())
}

#[test]
fn whole_floats_convert() {
    assert_eq!(convert(0.0), Ok(0));
    assert_eq!(convert(-0.0), Ok(0));
    assert_eq!(convert(1.0), Ok(1));
    assert_eq!(convert(2.0), Ok(2));
    assert_eq!(convert(3.0), Ok(3));
    assert_eq!(convert(-7.0), Ok(-7));
    assert_eq!(convert(1e3), Ok(1000));
    assert_eq!(convert(123456789.0), Ok(123456789));
    assert_eq!(convert(4503599627370496.0), Ok(1 << 52));
    assert_eq!(convert(9007199254740991.0), Ok((1 << 53) - 1));
    assert_eq!(convert(9007199254740992.0), Ok(1 << 53));
    assert_eq!(convert(1e18), Ok(1_000_000_000_000_000_000));
    assert_eq!(convert(4611686018427387904.0), Ok(1 << 62));
    // the largest double below 2^63
    assert_eq!(convert(9223372036854774784.0), Ok(9223372036854774784));
    assert_eq!(convert(-9223372036854775808.0), Ok(i64::MIN));
}

#[test]
fn floats_with_a_fraction_are_truncated() {
    assert_eq!(convert(0.5), Err(TypeError::Truncated));
    assert_eq!(convert(1.5), Err(TypeError::Truncated));
    assert_eq!(convert(-2.25), Err(TypeError::Truncated));
    assert_eq!(convert(0.1), Err(TypeError::Truncated));
    assert_eq!(convert(1e-300), Err(TypeError::Truncated));
    assert_eq!(convert(4503599627370495.5), Err(TypeError::Truncated));
    // the smallest positive double
    assert_eq!(convert_float(1), Err(TypeError::Truncated));
}

#[test]
fn floats_out_of_range_overflow() {
    assert_eq!(convert(9223372036854775808.0), Err(TypeError::OverflowsInt));
    assert_eq!(convert(-9223372036854777856.0), Err(TypeError::OverflowsInt));
    assert_eq!(convert(1e19), Err(TypeError::OverflowsInt));
    assert_eq!(convert(-1e19), Err(TypeError::OverflowsInt));
    assert_eq!(convert(1e300), Err(TypeError::OverflowsInt));
    assert_eq!(convert(f64::MAX), Err(TypeError::OverflowsInt));
    assert_eq!(convert(f64::INFINITY), Err(TypeError::OverflowsInt));
    assert_eq!(convert(f64::NEG_INFINITY), Err(TypeError::OverflowsInt));
    assert_eq!(convert(f64::NAN), Err(TypeError::OverflowsInt));
}

#[test]
fn conversion_agrees_with_the_integers_that_doubles_hold() {
    let mut k: i64 = 1;
    for _ in 0..62 {
        assert_eq!(convert(k as f64), Ok(k));
        assert_eq!(convert(-(k as f64)), Ok(-k));
        assert_eq!(convert(k as f64 + 0.5), if k < (1 << 52) { Err(TypeError::Truncated) } else { Ok(k) });
        k *= 2;
    }
    for n in -1000i64..1000 {
        assert_eq!(convert(n as f64), Ok(n));
        assert_eq!(convert(n as f64 + 0.25), Err(TypeError::Truncated));
    }
}

#[test]
fn numbers_are_written_in_decimal_digits() {
    assert_eq!(decimal(0), "0");
    assert_eq!(decimal(7), "7");
    assert_eq!(decimal(10), "10");
    assert_eq!(decimal(42), "42");
    assert_eq!(decimal(1234567890), "1234567890");
    assert_eq!(decimal(usize::MAX), usize::MAX.to_string());
    for n in [0usize, 9, 10, 99, 100, 101, 65535, 1 << 40] {
        assert_eq!(parse_int(&decimal(n)), Ok(n as i64));
    }
}

#[test]
fn texts_of_the_diagnostics() {
    assert_eq!(error_undefined("x"), "undefined: x");
    assert_eq!(error_mismatch(2, 1), "assignment mismatch: 2 variables but 1 values");
    assert_eq!(
        error_type("not a type"),
        "type error(should be caught by Type Checker when it's in place): not a type"
    );
    let at = |kind: ErrorKind| GenError { pos: 0, kind };
    assert_eq!(at(ErrorKind::Undefined).message("print"), "undefined: print");
    assert_eq!(
        at(ErrorKind::AssignMismatch(12, 305)).message(""),
        "assignment mismatch: 12 variables but 305 values"
    );
    assert_eq!(
        at(ErrorKind::Type(TypeError::Truncated)).message("1.5"),
        "constant 1.5 truncated to integer"
    );
    assert_eq!(at(ErrorKind::Type(TypeError::OverflowsInt)).message("1e30"), "1e30 overflows int");
    assert_eq!(
        at(ErrorKind::Type(TypeError::InvalidLiteral)).message("x"),
        "invalid constant literal"
    );
    assert_eq!(
        at(ErrorKind::Type(TypeError::ComplexConstant)).message("x"),
        "complex constant not supported yet"
    );
    assert_eq!(
        type_error_message(TypeError::NotAStruct, ""),
        "type error(should be caught by Type Checker when it's in place): the receiver is no struct"
    );
    assert_eq!(at(ErrorKind::NotImplemented).message(""), "not implemented");
    assert_eq!(
        at(ErrorKind::Overflow).message(""),
        "jump offset, index or count overflows a code word"
    );
}
