use imt_cli::numeric::{decimal_string, parse_i32, NumberError};
use imt_cli::calculator::{calculate, calc_operator, calc_sum, CalcError, CalcOp};

fn strings(v: &[&str]) -> Vec<String> {
    v.iter().map(|s| s.to_string()).collect()
}

#[test]
fn parse_reads_plain_and_signed_numbers() {
    assert_eq!(parse_i32("42"), Ok(42));
    assert_eq!(parse_i32("-7"), Ok(-7));
    assert_eq!(parse_i32("+5"), Ok(5));
    assert_eq!(parse_i32("007"), Ok(7));
    assert_eq!(parse_i32("2147483647"), Ok(i32::MAX));
    assert_eq!(parse_i32("-2147483648"), Ok(i32::MIN));
}

#[test]
fn parse_reports_each_error_kind() {
    assert_eq!(parse_i32(""), Err(NumberError::Empty));
    assert_eq!(parse_i32("-"), Err(NumberError::InvalidDigit));
    assert_eq!(parse_i32("+"), Err(NumberError::InvalidDigit));
    assert_eq!(parse_i32("12a"), Err(NumberError::InvalidDigit));
    assert_eq!(parse_i32("+-5"), Err(NumberError::InvalidDigit));
    assert_eq!(parse_i32(" 1"), Err(NumberError::InvalidDigit));
    assert_eq!(parse_i32("é1"), Err(NumberError::InvalidDigit));
    assert_eq!(parse_i32("2147483648"), Err(NumberError::PosOverflow));
    assert_eq!(parse_i32("-2147483649"), Err(NumberError::NegOverflow));
    // the overflow comes before the bad digit that follows it
    assert_eq!(parse_i32("99999999999x"), Err(NumberError::PosOverflow));
    assert_eq!(parse_i32("x99999999999"), Err(NumberError::InvalidDigit));
}

#[test]
fn parse_agrees_with_std() {
    let cases = [
        "", "0", "-0", "+0", "1", "-1", "+", "-", "a", "1a", "2147483647", "2147483648",
        "-2147483648", "-2147483649", "99999999999x", "--1", "++1", "1 ", "12345678901234567890",
    ];
    for c in cases.iter() {
        let ours = parse_i32(c);
        let std = c.parse::<i32>();
        match (ours, std) {
            (Ok(a), Ok(b)) => assert_eq!(a, b, "{:?}", c),
            (Err(k), Err(e)) => {
                let expected = match e.kind() {
                    std::num::IntErrorKind::Empty => NumberError::Empty,
                    std::num::IntErrorKind::InvalidDigit => NumberError::InvalidDigit,
                    std::num::IntErrorKind::PosOverflow => NumberError::PosOverflow,
                    std::num::IntErrorKind::NegOverflow => NumberError::NegOverflow,
                    _ => panic!("unexpected kind"),
                };
                assert_eq!(k, expected, "{:?}", c);
            },
            _ => panic!("disagreement on {:?}", c),
        }
    }
}

#[test]
fn decimal_string_writes_like_display() {
    assert_eq!(decimal_string(0), "0");
    assert_eq!(decimal_string(7), "7");
    assert_eq!(decimal_string(-5), "-5");
    assert_eq!(decimal_string(1200), "1200");
    assert_eq!(decimal_string(i64::MAX), i64::MAX.to_string());
    assert_eq!(decimal_string(i64::MIN), i64::MIN.to_string());
}

#[test]
fn printed_numbers_read_back() {
    for n in [0, 1, -1, 9, 10, -10, 12345, i32::MAX, i32::MIN, i32::MAX - 1, i32::MIN + 1] {
        assert_eq!(parse_i32(&decimal_string(n as i64)), Ok(n));
    }
}

#[test]
fn calc_adds_and_subtracts() {
    assert_eq!(calculate(Some("add"), &strings(&["1", "2", "3"])), Ok(6));
    assert_eq!(calculate(Some("sub"), &strings(&["1", "2", "3"])), Ok(-6));
    assert_eq!(calculate(Some("add"), &strings(&[])), Ok(0));
    assert_eq!(calculate(Some("sub"), &strings(&["-4", "+1"])), Ok(3));
}

#[test]
fn calc_errors() {
    assert_eq!(calculate(None, &strings(&["1"])), Err(CalcError::MissingOperator));
    assert_eq!(calculate(Some("mul"), &strings(&["1"])), Err(CalcError::UndefinedOperator));
    // the operator is checked before any number is read
    assert_eq!(calculate(Some("div"), &strings(&["x"])), Err(CalcError::UndefinedOperator));
    assert_eq!(
        calculate(Some("add"), &strings(&["1", "two"])),
        Err(CalcError::InvalidNumber(NumberError::InvalidDigit))
    );
    assert_eq!(calculate(Some("add"), &strings(&["1", ""])), Err(CalcError::InvalidNumber(NumberError::Empty)));
    assert_eq!(calculate(Some("add"), &strings(&["2147483647", "1"])), Err(CalcError::SumOverflow));
    assert_eq!(calculate(Some("sub"), &strings(&["-2147483648"])), Err(CalcError::NegationOverflow));
    assert_eq!(calculate(Some("add"), &strings(&["-2147483648"])), Ok(i32::MIN));
    assert_eq!(calculate(Some("sub"), &strings(&["2147483647", "2"])), Err(CalcError::SumOverflow));
    // an overflow in an early partial sum comes before a bad later number
    assert_eq!(calculate(Some("add"), &strings(&["2147483647", "1", "x"])), Err(CalcError::SumOverflow));
    // a partial sum that goes out of range and comes back is still an overflow
    assert_eq!(calculate(Some("add"), &strings(&["2147483647", "1", "-1"])), Err(CalcError::SumOverflow));
}

#[test]
fn calc_operator_reads_the_flag() {
    assert_eq!(calc_operator(Some("add")), Ok(CalcOp::Add));
    assert_eq!(calc_operator(Some("sub")), Ok(CalcOp::Sub));
    assert_eq!(calc_operator(Some("Add")), Err(CalcError::UndefinedOperator));
    assert_eq!(calc_operator(Some("")), Err(CalcError::UndefinedOperator));
    assert_eq!(calc_operator(None), Err(CalcError::MissingOperator));
}

#[test]
fn subtracting_negates_adding() {
    let args = strings(&["5", "-17", "300", "+2"]);
    let a = calc_sum(CalcOp::Add, &args).unwrap();
    let s = calc_sum(CalcOp::Sub, &args).unwrap();
    assert_eq!(a, 290);
    assert_eq!(s, -a);
}

#[test]
fn adding_a_printed_number_gives_it_back() {
    for n in [0, 42, -42, i32::MAX, i32::MIN] {
        let args = vec![decimal_string(n as i64)];
        assert_eq!(calc_sum(CalcOp::Add, &args), Ok(n));
    }
}

#[test]
fn plus_sign_changes_nothing() {
    for s in ["0", "123", "2147483647", "2147483648", "12x"] {
        assert_eq!(parse_i32(&format!("+{}", s)), parse_i32(s));
    }
}

#[test]
fn a_successful_total_is_the_sum() {
    let args = strings(&["10", "-3", "+8", "0"]);
    let values: Vec<i64> = args.iter().map(|a| a.parse::<i64>().unwrap()).collect();
    assert_eq!(calc_sum(CalcOp::Add, &args), Ok(values.iter().sum::<i64>() as i32));
    assert_eq!(calc_sum(CalcOp::Sub, &args), Ok(-values.iter().sum::<i64>() as i32));
}

#[test]
fn total_does_not_depend_on_order() {
    let a = strings(&["7", "-2", "40", "+1"]);
    let b = strings(&["+1", "40", "7", "-2"]);
    assert_eq!(calc_sum(CalcOp::Add, &a), calc_sum(CalcOp::Add, &b));
    assert_eq!(calc_sum(CalcOp::Sub, &a), calc_sum(CalcOp::Sub, &b));
    // where a partial sum overflows in one order only, the orders differ
    let c = strings(&["2147483647", "1", "-1"]);
    let d = strings(&["-1", "2147483647", "1"]);
    assert_eq!(calc_sum(CalcOp::Add, &c), Err(CalcError::SumOverflow));
    assert_eq!(calc_sum(CalcOp::Add, &d), Ok(2147483647));
}
