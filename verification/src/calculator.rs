//! The `calc` subcommand: sums its number arguments, or their negations.

use vstd::prelude::*;
use crate::numeric::{NumberError, parse_i32, parsed_i32, decimal_text};
use crate::text::{texts, opt_text, text_eq};

verus! {

#[derive(Clone, Copy, Debug, PartialEq, Eq, Structural)]
pub enum CalcOp {
    /// `--operator add`: the sum of the numbers.
    Add,
    /// `--operator sub`: the sum of the negated numbers.
    Sub,
}

#[derive(Clone, Copy, Debug, PartialEq, Eq, Structural)]
pub enum CalcError {
    /// No `--operator` flag was given.
    MissingOperator,
    /// The operator is neither `add` nor `sub`.
    UndefinedOperator,
    /// An argument is not a decimal `i32`.
    InvalidNumber(NumberError),
    /// Negating a number (for `Sub`) leaves the `i32` range.
    NegationOverflow,
    /// A partial sum leaves the `i32` range.
    SumOverflow,
}

/// The operator that the `--operator` flag names.
pub open spec fn operator_of(flag: Option<Seq<char>>) -> Result<CalcOp, CalcError> {
    match flag {
        None => Err(CalcError::MissingOperator),
        Some(s) => if s == "add"@ {
            Ok(CalcOp::Add)
        } else if s == "sub"@ {
            Ok(CalcOp::Sub)
        } else {
            Err(CalcError::UndefinedOperator)
        },
    }
}

pub open spec fn fits_i32(v: int) -> bool {
    i32::MIN <= v <= i32::MAX
}

/// Folds the arguments from the left, starting from 0: each one is read as
/// an `i32`, negated for `Sub`, and added to the running total. The first
/// argument that does not read, or the first step that leaves the `i32`
/// range, decides the error.
pub open spec fn calc_total(op: CalcOp, args: Seq<Seq<char>>) -> Result<int, CalcError>
    decreases args.len(),
{
    if args.len() == 0 {
        Ok(0)
    } else {
        match calc_total(op, args.drop_last()) {
            Err(e) => Err(e),
            Ok(total) => match parsed_i32(args.last()) {
                Err(k) => Err(CalcError::InvalidNumber(k)),
                Ok(n) => {
                    let term = if op == CalcOp::Sub { -(n as int) } else { n as int };
                    if !fits_i32(term) {
                        Err(CalcError::NegationOverflow)
                    } else if !fits_i32(total + term) {
                        Err(CalcError::SumOverflow)
                    } else {
                        Ok(total + term)
                    }
                },
            },
        }
    }
}

/// What `calc` answers for an `--operator` flag and the arguments.
pub open spec fn calc_result(flag: Option<Seq<char>>, args: Seq<Seq<char>>) -> Result<i32, CalcError> {
    match operator_of(flag) {
        Err(e) => Err(e),
        Ok(op) => match calc_total(op, args) {
            Ok(v) => Ok(v as i32),
            Err(e) => Err(e),
        },
    }
}

proof fn lemma_calc_total_prefix_error(op: CalcOp, args: Seq<Seq<char>>, k: int)
    requires
        0 <= k <= args.len(),
        calc_total(op, args.subrange(0, k)) is Err,
    ensures
        calc_total(op, args) == calc_total(op, args.subrange(0, k)),
    decreases args.len() - k,
{
    if k < args.len() {
        assert(args.subrange(0, k + 1).drop_last() =~= args.subrange(0, k));
        lemma_calc_total_prefix_error(op, args, k + 1);
    } else {
        assert(args.subrange(0, k) =~= args);
    }
}

/// Reads the operator flag.
pub fn calc_operator(flag: Option<&str>) -> (r: Result<CalcOp, CalcError>)
    ensures
        r == operator_of(opt_text(flag)),
{
    match flag {
        None => Err(CalcError::MissingOperator),
        Some(s) => if text_eq(s, "add") {
            Ok(CalcOp::Add)
        } else if text_eq(s, "sub") {
            Ok(CalcOp::Sub)
        } else {
            Err(CalcError::UndefinedOperator)
        },
    }
}

/// Sums the numbers in `args` (negated for `Sub`), from left to right.
pub fn calc_sum(op: CalcOp, args: &Vec<String>) -> (r: Result<i32, CalcError>)
    ensures
        match calc_total(op, texts(args@)) {
            Ok(v) => r == Ok::<i32, CalcError>(v as i32),
            Err(e) => r == Err::<i32, CalcError>(e),
        },
{
    let ghost all = texts(args@);
    let mut total: i32 = 0;
    let mut i: usize = 0;
    assert(all.subrange(0, 0) =~= Seq::<Seq<char>>::empty());
    while i < args.len()
        invariant
            i <= args.len(),
            all == texts(args@),
            calc_total(op, all.subrange(0, i as int)) == Ok::<int, CalcError>(total as int),
        decreases args.len() - i,
    {
        let ghost cur = all.subrange(0, i + 1);
        assert(cur.drop_last() =~= all.subrange(0, i as int));
        assert(cur.last() == args@[i as int]@);
        let parsed = parse_i32(args[i].as_str());
        match parsed {
            Err(k) => {
                proof {
                    lemma_calc_total_prefix_error(op, all, i + 1);
                }
                return Err(CalcError::InvalidNumber(k));
            },
            Ok(n) => {
                let term: i64 = match op {
                    CalcOp::Add => n as i64,
                    CalcOp::Sub => -(n as i64),
                };
                if term > (i32::MAX as i64) {
                    proof {
                        lemma_calc_total_prefix_error(op, all, i + 1);
                    }
                    return Err(CalcError::NegationOverflow);
                }
                let next: i64 = (total as i64) + term;
                if next < (i32::MIN as i64) || next > (i32::MAX as i64) {
                    proof {
                        lemma_calc_total_prefix_error(op, all, i + 1);
                    }
                    return Err(CalcError::SumOverflow);
                }
                total = next as i32;
            },
        }
        i = i + 1;
    }
    assert(all.subrange(0, i as int) =~= all);
    Ok(total)
}

/// The `calc` subcommand: reads the operator, then sums the arguments.
pub fn calculate(operator: Option<&str>, args: &Vec<String>) -> (r: Result<i32, CalcError>)
    ensures
        r == calc_result(opt_text(operator), texts(args@)),
{
    let op = calc_operator(operator)?;
    calc_sum(op, args)
}

/// Where both succeed, subtracting the arguments gives the negation of
/// adding them.
pub proof fn subtraction_negates_addition(args: Seq<Seq<char>>)
    requires
        calc_total(CalcOp::Add, args) is Ok,
        calc_total(CalcOp::Sub, args) is Ok,
    ensures
        calc_total(CalcOp::Sub, args)->Ok_0 == -calc_total(CalcOp::Add, args)->Ok_0,
    decreases args.len(),
{
    if args.len() > 0 {
        subtraction_negates_addition(args.drop_last());
    }
}

/// Adding the single argument that `Display` writes for an `i32` gives that
/// number back.
pub proof fn adding_a_printed_number_gives_it_back(n: i32)
    ensures
        calc_total(CalcOp::Add, seq![decimal_text(n as int)]) == Ok::<int, CalcError>(n as int),
{
    crate::numeric::decimal_text_reads_back(n);
    let args = seq![decimal_text(n as int)];
    assert(args.drop_last() =~= Seq::<Seq<char>>::empty());
    assert(calc_total(CalcOp::Add, args.drop_last()) == Ok::<int, CalcError>(0));
}

/// The value an argument adds: its number, negated for `Sub`; 0 where it
/// does not read.
pub open spec fn term_value(op: CalcOp, arg: Seq<char>) -> int {
    let n = match parsed_i32(arg) {
        Ok(n) => n as int,
        Err(_) => 0,
    };
    if op == CalcOp::Sub {
        -n
    } else {
        n
    }
}

/// The plain sum of the arguments' values (negated for `Sub`), with no
/// range limit; arguments that do not read count as 0.
pub open spec fn plain_sum(op: CalcOp, args: Seq<Seq<char>>) -> int
    decreases args.len(),
{
    if args.len() == 0 {
        0
    } else {
        plain_sum(op, args.drop_last()) + term_value(op, args.last())
    }
}

/// When `calc` succeeds, every argument is a number and the answer is the
/// sum of their values (negated for `Sub`).
pub proof fn a_successful_total_is_the_sum(op: CalcOp, args: Seq<Seq<char>>)
    requires
        calc_total(op, args) is Ok,
    ensures
        forall|i: int| 0 <= i < args.len() ==> #[trigger] parsed_i32(args[i]) is Ok,
        calc_total(op, args)->Ok_0 == plain_sum(op, args),
    decreases args.len(),
{
    if args.len() > 0 {
        let prefix = args.drop_last();
        a_successful_total_is_the_sum(op, prefix);
        assert forall|i: int| 0 <= i < args.len() implies #[trigger] parsed_i32(args[i]) is Ok by {
            if i < args.len() - 1 {
                assert(args[i] == prefix[i]);
            }
        }
    }
}

proof fn lemma_plain_sum_remove(op: CalcOp, args: Seq<Seq<char>>, j: int)
    requires
        0 <= j < args.len(),
    ensures
        plain_sum(op, args) == plain_sum(op, args.remove(j)) + term_value(op, args[j]),
    decreases args.len(),
{
    if j == args.len() - 1 {
        assert(args.remove(j) =~= args.drop_last());
    } else {
        let prefix = args.drop_last();
        lemma_plain_sum_remove(op, prefix, j);
        assert(args.remove(j).drop_last() =~= prefix.remove(j));
        assert(args.remove(j).last() == args.last());
    }
}

proof fn lemma_plain_sum_permutation(op: CalcOp, a: Seq<Seq<char>>, b: Seq<Seq<char>>)
    requires
        a.to_multiset() =~= b.to_multiset(),
    ensures
        plain_sum(op, a) == plain_sum(op, b),
    decreases a.len(),
{
    broadcast use vstd::seq_lib::group_to_multiset_ensures;

    if a.len() == 0 {
        assert(a.to_multiset().len() == a.len());
        assert(b.to_multiset().len() == b.len());
        assert(b.len() == 0);
        assert(b =~= a);
    } else {
        let x = a.last();
        let rest = a.drop_last();
        assert(rest.push(x) =~= a);
        assert(a.to_multiset() =~= rest.to_multiset().insert(x));
        assert(b.to_multiset().count(x) > 0);
        assert(b.contains(x));
        let j = choose|j: int| 0 <= j < b.len() && b[j] == x;
        assert(b.remove(j).to_multiset() =~= b.to_multiset().remove(x));
        assert(rest.to_multiset() =~= b.remove(j).to_multiset());
        lemma_plain_sum_permutation(op, rest, b.remove(j));
        lemma_plain_sum_remove(op, b, j);
    }
}

/// Where the arguments come in another order and both totals succeed, the
/// total is the same.
pub proof fn total_does_not_depend_on_order(op: CalcOp, a: Seq<Seq<char>>, b: Seq<Seq<char>>)
    requires
        a.to_multiset() =~= b.to_multiset(),
        calc_total(op, a) is Ok,
        calc_total(op, b) is Ok,
    ensures
        calc_total(op, a)->Ok_0 == calc_total(op, b)->Ok_0,
{
    a_successful_total_is_the_sum(op, a);
    a_successful_total_is_the_sum(op, b);
    lemma_plain_sum_permutation(op, a, b);
}

/// No arguments sum to 0.
pub proof fn no_arguments_sum_to_zero(op: CalcOp)
    ensures
        calc_total(op, Seq::empty()) == Ok::<int, CalcError>(0),
{
}

/// One more argument that reads, whose term fits in `i32` and keeps the
/// running total in `i32`, adds its term to a successful total; the length
/// of what came before plays no part.
pub proof fn one_more_argument_adds_its_term(op: CalcOp, args: Seq<Seq<char>>, x: Seq<char>)
    requires
        calc_total(op, args) is Ok,
        parsed_i32(x) is Ok,
        fits_i32(term_value(op, x)),
        fits_i32(calc_total(op, args)->Ok_0 + term_value(op, x)),
    ensures
        calc_total(op, args.push(x)) == Ok::<int, CalcError>(
            calc_total(op, args)->Ok_0 + term_value(op, x),
        ),
{
    assert(args.push(x).drop_last() =~= args);
}

/// An error after one more argument has one of four causes: an earlier
/// error, unchanged; the new argument does not read; its negation leaves
/// `i32`; or the new partial sum leaves `i32`.
pub proof fn an_error_has_a_cause(op: CalcOp, args: Seq<Seq<char>>, x: Seq<char>)
    requires
        calc_total(op, args.push(x)) is Err,
    ensures
        ({
            let e = calc_total(op, args.push(x))->Err_0;
            ||| calc_total(op, args) == Err::<int, CalcError>(e)
            ||| (parsed_i32(x) matches Err(k) && e == CalcError::InvalidNumber(k) && calc_total(
                op,
                args,
            ) is Ok)
            ||| (calc_total(op, args) is Ok && parsed_i32(x) is Ok && !fits_i32(term_value(op, x))
                && e == CalcError::NegationOverflow && op == CalcOp::Sub)
            ||| (calc_total(op, args) is Ok && parsed_i32(x) is Ok && fits_i32(term_value(op, x))
                && !fits_i32(calc_total(op, args)->Ok_0 + term_value(op, x))
                && e == CalcError::SumOverflow)
        }),
{
    assert(args.push(x).drop_last() =~= args);
}

/// The operator flag picks `Add` for `add`, `Sub` for `sub`; any other text
/// is undefined and a missing flag is missing.
pub proof fn the_operator_flag_picks_the_operation(flag: Option<Seq<char>>)
    ensures
        flag == Some("add"@) ==> operator_of(flag) == Ok::<CalcOp, CalcError>(CalcOp::Add),
        flag == Some("sub"@) ==> operator_of(flag) == Ok::<CalcOp, CalcError>(CalcOp::Sub),
        flag is None ==> operator_of(flag) == Err::<CalcOp, CalcError>(CalcError::MissingOperator),
        (flag matches Some(t) && t != "add"@ && t != "sub"@) ==> operator_of(flag) == Err::<
            CalcOp,
            CalcError,
        >(CalcError::UndefinedOperator),
{
    reveal_strlit("add");
    reveal_strlit("sub");
    assert("add"@[0] != "sub"@[0]);
}

} // verus!
