//! Evaluation of a tree against a variable environment and a registry of
//! native functions.
use vstd::prelude::*;
use crate::ast::{
    AdditiveOperator, BinaryOperator, ComparisonOperator, EqualityOperator, FactorOperator,
    FunctionNode, UnaryOperator, YarnExpression,
};
use crate::error::{YarnError, YarnErrorKind};
use crate::value::{
    opt_view, spec_add, spec_div, spec_is_equal, spec_is_greater_than, spec_is_greater_than_eq,
    spec_is_less_than, spec_is_less_than_eq, spec_is_not_equal, spec_mult, spec_sub, SpecValue,
    YarnNumber, YarnValue,
};
use crate::variables::YarnVariableMap;

verus! {

broadcast use vstd::std_specs::vec::axiom_vec_index_decreases,
    vstd::std_specs::vec::axiom_vec_decreases_to_view, vstd::seq::axiom_seq_index_decreases,
    vstd::seq::axiom_seq_subrange_decreases;

/// The registry of native functions, supplied by the host. A native function
/// receives the evaluated arguments and the position of the call.
pub trait YarnFunctions<N> {
    /// The answers that a call of `name` with `arguments` at (`line`, `col`)
    /// may give: `None` when no function of that name is registered, else the
    /// function's result. A function that draws at random may give several.
    spec fn may_answer(
        &self,
        name: &String,
        arguments: &Vec<YarnValue<N>>,
        line: usize,
        col: usize,
        answer: &Option<Result<Option<YarnValue<N>>, YarnError>>,
    ) -> bool;

    /// Calls the function registered as `name`; `None` when there is none.
    fn call(
        &self,
        name: &String,
        arguments: Vec<YarnValue<N>>,
        line: usize,
        col: usize,
    ) -> (r: Option<Result<Option<YarnValue<N>>, YarnError>>)
        ensures
            self.may_answer(name, &arguments, line, col, &r),
    ;
}

/// The model of an evaluation result.
pub open spec fn result_view<N>(r: Result<Option<YarnValue<N>>, YarnError>) -> Result<
    Option<SpecValue<N>>,
    YarnError,
> {
    match r {
        Ok(o) => Ok(opt_view(o)),
        Err(e) => Err(e),
    }
}

/// The models of a list of values.
pub open spec fn values_view<N>(v: Seq<YarnValue<N>>) -> Seq<SpecValue<N>> {
    v.map_values(|x: YarnValue<N>| x@)
}

/// An invalid operation at (`line`, `col`).
pub open spec fn invalid_op(line: usize, col: usize) -> YarnError {
    YarnError { kind: YarnErrorKind::InvalidOperation, line, col }
}

/// A unary node at (`line`, `col`) whose operand gave `c`: an error or a
/// missing value passes through; `!` negates a boolean, `-` negates a number;
/// anything else is an invalid operation.
pub open spec fn unary_apply<N: YarnNumber>(
    op: UnaryOperator,
    c: Result<Option<SpecValue<N>>, YarnError>,
    line: usize,
    col: usize,
) -> Result<Option<SpecValue<N>>, YarnError> {
    match c {
        Ok(Some(v)) => match (op, v) {
            (UnaryOperator::NOT, SpecValue::Bool(b)) => Ok(Some(SpecValue::Bool(!b))),
            (UnaryOperator::NEGATIVE, SpecValue::Num(n)) => Ok(Some(SpecValue::Num(n.spec_negated()))),
            _ => Err(invalid_op(line, col)),
        },
        other => other,
    }
}

/// The operator table for each binary operator.
pub open spec fn binary_apply<N: YarnNumber>(op: BinaryOperator, a: SpecValue<N>, b: SpecValue<N>) -> Option<
    SpecValue<N>,
> {
    match op {
        BinaryOperator::Factor(FactorOperator::MUL) => spec_mult(a, b),
        BinaryOperator::Factor(FactorOperator::DIV) => spec_div(a, b),
        BinaryOperator::Additive(AdditiveOperator::ADD) => spec_add(a, b),
        BinaryOperator::Additive(AdditiveOperator::SUB) => spec_sub(a, b),
        BinaryOperator::Comparison(ComparisonOperator::LESS_THAN) => spec_is_less_than(a, b),
        BinaryOperator::Comparison(ComparisonOperator::GREATER_THAN) => spec_is_greater_than(a, b),
        BinaryOperator::Comparison(ComparisonOperator::GREATER_THAN_EQ) => spec_is_greater_than_eq(
            a,
            b,
        ),
        BinaryOperator::Comparison(ComparisonOperator::LESS_THAN_EQ) => spec_is_less_than_eq(a, b),
        BinaryOperator::Equality(EqualityOperator::EQUAL_TOO) => spec_is_equal(a, b),
        BinaryOperator::Equality(EqualityOperator::NOT_EQUAL_TOO) => spec_is_not_equal(a, b),
    }
}

/// A binary node at (`line`, `col`) whose operands gave `l` and `r`: the left
/// error first, then the right one; an operand without a value, or an
/// operator that the table does not define on the operands, is an invalid
/// operation.
pub open spec fn binary_combine<N: YarnNumber>(
    op: BinaryOperator,
    l: Result<Option<SpecValue<N>>, YarnError>,
    r: Result<Option<SpecValue<N>>, YarnError>,
    line: usize,
    col: usize,
) -> Result<Option<SpecValue<N>>, YarnError> {
    match (l, r) {
        (Err(e), _) => Err(e),
        (Ok(_), Err(e)) => Err(e),
        (Ok(Some(x)), Ok(Some(y))) => match binary_apply(op, x, y) {
            Some(v) => Ok(Some(v)),
            None => Err(invalid_op(line, col)),
        },
        _ => Err(invalid_op(line, col)),
    }
}

/// The result of a call at (`line`, `col`) given the registry's answer.
pub open spec fn call_result<N>(
    answer: Option<Result<Option<YarnValue<N>>, YarnError>>,
    line: usize,
    col: usize,
) -> Result<Option<YarnValue<N>>, YarnError> {
    match answer {
        Some(x) => x,
        None => Err(YarnError { kind: YarnErrorKind::UndefinedFunction, line, col }),
    }
}

/// The results that evaluating `e` against `vars` may give, where the native
/// functions answer as `funcs` allows. Both operands of a binary node are
/// evaluated; a call evaluates its arguments first and then asks the registry
/// with exactly their values. Where no call is involved there is one result.
pub open spec fn eval_outcomes<N: YarnNumber, F: YarnFunctions<N>>(
    e: YarnExpression,
    vars: Map<Seq<char>, SpecValue<N>>,
    funcs: F,
) -> Set<Result<Option<SpecValue<N>>, YarnError>>
    decreases e,
{
    match e {
        YarnExpression::Number(n) => set![Ok(Some(SpecValue::Num(N::spec_from_literal(&n.value))))],
        YarnExpression::Str(s) => set![Ok(Some(SpecValue::Str(s.value@)))],
        YarnExpression::Bool(b) => set![Ok(Some(SpecValue::Bool(b.value)))],
        YarnExpression::Variable(v) => set![
            if vars.contains_key(v.identifier@) {
                Ok(Some(vars[v.identifier@]))
            } else {
                Err(YarnError { kind: YarnErrorKind::VariableNotDeclared, line: v.line, col: v.col })
            },
        ],
        YarnExpression::Unary(u) => {
            let cs = eval_outcomes(*u.child, vars, funcs);
            Set::new(|r| exists|c| cs.contains(c) && r == unary_apply(u.operator, c, u.line, u.col))
        },
        YarnExpression::Factor(b) => binary_outcomes(
            BinaryOperator::Factor(b.operator),
            eval_outcomes(*b.lhs, vars, funcs),
            eval_outcomes(*b.rhs, vars, funcs),
            b.line,
            b.col,
        ),
        YarnExpression::Additive(b) => binary_outcomes(
            BinaryOperator::Additive(b.operator),
            eval_outcomes(*b.lhs, vars, funcs),
            eval_outcomes(*b.rhs, vars, funcs),
            b.line,
            b.col,
        ),
        YarnExpression::Comparison(b) => binary_outcomes(
            BinaryOperator::Comparison(b.operator),
            eval_outcomes(*b.lhs, vars, funcs),
            eval_outcomes(*b.rhs, vars, funcs),
            b.line,
            b.col,
        ),
        YarnExpression::Equality(b) => binary_outcomes(
            BinaryOperator::Equality(b.operator),
            eval_outcomes(*b.lhs, vars, funcs),
            eval_outcomes(*b.rhs, vars, funcs),
            b.line,
            b.col,
        ),
        YarnExpression::Function(f) => {
            let args = args_outcomes(f.arguments@, vars, funcs, f.line, f.col);
            Set::new(
                |r|
                    exists|a|
                        args.contains(a) && match a {
                            Err(e) => r == Err::<Option<SpecValue<N>>, YarnError>(e),
                            Ok(vs) => call_answers(funcs, f, vs).contains(r),
                        },
            )
        },
    }
}

/// The results of a binary node at (`line`, `col`) whose operands may give
/// `ls` and `rs`.
pub open spec fn binary_outcomes<N: YarnNumber>(
    op: BinaryOperator,
    ls: Set<Result<Option<SpecValue<N>>, YarnError>>,
    rs: Set<Result<Option<SpecValue<N>>, YarnError>>,
    line: usize,
    col: usize,
) -> Set<Result<Option<SpecValue<N>>, YarnError>> {
    Set::new(
        |r| exists|x, y| ls.contains(x) && rs.contains(y) && r == binary_combine(op, x, y, line, col),
    )
}

/// The results of the call `f` once its arguments have the values `vs`: the
/// registry is asked with exactly those values, and its answer is returned,
/// or an undefined-function error when it has no function of that name.
pub open spec fn call_answers<N: YarnNumber, F: YarnFunctions<N>>(
    funcs: F,
    f: FunctionNode,
    vs: Seq<SpecValue<N>>,
) -> Set<Result<Option<SpecValue<N>>, YarnError>> {
    Set::new(
        |r|
            exists|values: Vec<YarnValue<N>>, answer|
                values_view(values@) == vs && funcs.may_answer(
                    &f.function_name,
                    &values,
                    f.line,
                    f.col,
                    &answer,
                ) && r == result_view(call_result(answer, f.line, f.col)),
    )
}

/// What evaluating the arguments `args` of a call at (`line`, `col`) left to
/// right may give: their values, or the first error, where an argument
/// without a value is a null-argument error. Evaluation stops there.
pub open spec fn args_outcomes<N: YarnNumber, F: YarnFunctions<N>>(
    args: Seq<YarnExpression>,
    vars: Map<Seq<char>, SpecValue<N>>,
    funcs: F,
    line: usize,
    col: usize,
) -> Set<Result<Seq<SpecValue<N>>, YarnError>>
    decreases args,
{
    if args.len() == 0 {
        set![Ok(seq![])]
    } else {
        let before = args_outcomes(args.drop_last(), vars, funcs, line, col);
        let lasts = eval_outcomes(args.last(), vars, funcs);
        Set::new(
            |out|
                exists|prev|
                    before.contains(prev) && match prev {
                        Err(e) => out == Err::<Seq<SpecValue<N>>, YarnError>(e),
                        Ok(vs) => exists|last|
                            lasts.contains(last) && out == match last {
                                Err(e) => Err(e),
                                Ok(None) => Err(
                                    YarnError { kind: YarnErrorKind::NullFunctionArg, line, col },
                                ),
                                Ok(Some(v)) => Ok(vs.push(v)),
                            },
                    },
        )
    }
}

/// Once the arguments up to some point give an error, so do all of them.
proof fn lemma_args_error_stays<N: YarnNumber, F: YarnFunctions<N>>(
    args: Seq<YarnExpression>,
    vars: Map<Seq<char>, SpecValue<N>>,
    funcs: F,
    line: usize,
    col: usize,
    k: int,
    e: YarnError,
)
    requires
        0 <= k <= args.len(),
        args_outcomes(args.subrange(0, k), vars, funcs, line, col).contains(Err(e)),
    ensures
        args_outcomes(args, vars, funcs, line, col).contains(Err(e)),
    decreases args.len() - k,
{
    if k < args.len() {
        let next = args.subrange(0, k + 1);
        assert(next.drop_last() =~= args.subrange(0, k));
        assert(next.len() > 0);
        assert(args_outcomes(next.drop_last(), vars, funcs, line, col).contains(Err(e)));
        assert(args_outcomes(next, vars, funcs, line, col).contains(Err(e)));
        lemma_args_error_stays(args, vars, funcs, line, col, k + 1, e);
    } else {
        assert(args.subrange(0, k) =~= args);
    }
}

/// The registry's answer is a function of the name, the arguments' values and
/// the position (no function draws at random).
pub open spec fn answers_uniquely<N, F: YarnFunctions<N>>(funcs: F) -> bool {
    forall|name: String, v1: Vec<YarnValue<N>>, v2: Vec<YarnValue<N>>, line: usize, col: usize, a1, a2|
        values_view(v1@) == values_view(v2@) && #[trigger] funcs.may_answer(&name, &v1, line, col, &a1)
            && #[trigger] funcs.may_answer(&name, &v2, line, col, &a2) ==> result_view(
            call_result(a1, line, col),
        ) == result_view(call_result(a2, line, col))
}

/// Evaluation has no hidden state: where the registry answers as a function of
/// its inputs, evaluating the same tree against the same bindings can give one
/// result only, so evaluating it twice (`eval` leaves the bindings as they
/// were) gives the same result twice.
pub proof fn lemma_evaluation_repeatable<N: YarnNumber, F: YarnFunctions<N>>(
    e: YarnExpression,
    vars: Map<Seq<char>, SpecValue<N>>,
    funcs: F,
    r1: Result<Option<SpecValue<N>>, YarnError>,
    r2: Result<Option<SpecValue<N>>, YarnError>,
)
    requires
        answers_uniquely(funcs),
        eval_outcomes(e, vars, funcs).contains(r1),
        eval_outcomes(e, vars, funcs).contains(r2),
    ensures
        r1 == r2,
    decreases e,
{
    match e {
        YarnExpression::Unary(u) => {
            let cs = eval_outcomes(*u.child, vars, funcs);
            let c1 = choose|c| cs.contains(c) && r1 == unary_apply(u.operator, c, u.line, u.col);
            let c2 = choose|c| cs.contains(c) && r2 == unary_apply(u.operator, c, u.line, u.col);
            lemma_evaluation_repeatable(*u.child, vars, funcs, c1, c2);
        },
        YarnExpression::Factor(b) => {
            assert forall|x1, x2|
                eval_outcomes(*b.lhs, vars, funcs).contains(x1) && eval_outcomes(*b.lhs, vars, funcs).contains(x2)
                    implies x1 == x2 by {
                lemma_evaluation_repeatable(*b.lhs, vars, funcs, x1, x2);
            }
            assert forall|y1, y2|
                eval_outcomes(*b.rhs, vars, funcs).contains(y1) && eval_outcomes(*b.rhs, vars, funcs).contains(y2)
                    implies y1 == y2 by {
                lemma_evaluation_repeatable(*b.rhs, vars, funcs, y1, y2);
            }
            lemma_binary_repeatable(*b.lhs, *b.rhs, BinaryOperator::Factor(b.operator), b.line, b.col, vars, funcs, r1, r2);
        },
        YarnExpression::Additive(b) => {
            assert forall|x1, x2|
                eval_outcomes(*b.lhs, vars, funcs).contains(x1) && eval_outcomes(*b.lhs, vars, funcs).contains(x2)
                    implies x1 == x2 by {
                lemma_evaluation_repeatable(*b.lhs, vars, funcs, x1, x2);
            }
            assert forall|y1, y2|
                eval_outcomes(*b.rhs, vars, funcs).contains(y1) && eval_outcomes(*b.rhs, vars, funcs).contains(y2)
                    implies y1 == y2 by {
                lemma_evaluation_repeatable(*b.rhs, vars, funcs, y1, y2);
            }
            lemma_binary_repeatable(*b.lhs, *b.rhs, BinaryOperator::Additive(b.operator), b.line, b.col, vars, funcs, r1, r2);
        },
        YarnExpression::Comparison(b) => {
            assert forall|x1, x2|
                eval_outcomes(*b.lhs, vars, funcs).contains(x1) && eval_outcomes(*b.lhs, vars, funcs).contains(x2)
                    implies x1 == x2 by {
                lemma_evaluation_repeatable(*b.lhs, vars, funcs, x1, x2);
            }
            assert forall|y1, y2|
                eval_outcomes(*b.rhs, vars, funcs).contains(y1) && eval_outcomes(*b.rhs, vars, funcs).contains(y2)
                    implies y1 == y2 by {
                lemma_evaluation_repeatable(*b.rhs, vars, funcs, y1, y2);
            }
            lemma_binary_repeatable(*b.lhs, *b.rhs, BinaryOperator::Comparison(b.operator), b.line, b.col, vars, funcs, r1, r2);
        },
        YarnExpression::Equality(b) => {
            assert forall|x1, x2|
                eval_outcomes(*b.lhs, vars, funcs).contains(x1) && eval_outcomes(*b.lhs, vars, funcs).contains(x2)
                    implies x1 == x2 by {
                lemma_evaluation_repeatable(*b.lhs, vars, funcs, x1, x2);
            }
            assert forall|y1, y2|
                eval_outcomes(*b.rhs, vars, funcs).contains(y1) && eval_outcomes(*b.rhs, vars, funcs).contains(y2)
                    implies y1 == y2 by {
                lemma_evaluation_repeatable(*b.rhs, vars, funcs, y1, y2);
            }
            lemma_binary_repeatable(*b.lhs, *b.rhs, BinaryOperator::Equality(b.operator), b.line, b.col, vars, funcs, r1, r2);
        },
        YarnExpression::Function(f) => {
            let args = args_outcomes(f.arguments@, vars, funcs, f.line, f.col);
            let a1 = choose|a|
                args.contains(a) && match a {
                    Err(e) => r1 == Err::<Option<SpecValue<N>>, YarnError>(e),
                    Ok(vs) => call_answers(funcs, f, vs).contains(r1),
                };
            let a2 = choose|a|
                args.contains(a) && match a {
                    Err(e) => r2 == Err::<Option<SpecValue<N>>, YarnError>(e),
                    Ok(vs) => call_answers(funcs, f, vs).contains(r2),
                };
            assert(decreases_to!(e => f.arguments@));
            lemma_args_repeatable(f.arguments@, vars, funcs, f.line, f.col, a1, a2);
            if let Ok(vs) = a1 {
                let (v1, x1) = choose|values: Vec<YarnValue<N>>, answer: Option<Result<Option<YarnValue<N>>, YarnError>>|
                    values_view(values@) == vs && funcs.may_answer(
                        &f.function_name,
                        &values,
                        f.line,
                        f.col,
                        &answer,
                    ) && r1 == result_view(call_result(answer, f.line, f.col));
                let (v2, x2) = choose|values: Vec<YarnValue<N>>, answer: Option<Result<Option<YarnValue<N>>, YarnError>>|
                    values_view(values@) == vs && funcs.may_answer(
                        &f.function_name,
                        &values,
                        f.line,
                        f.col,
                        &answer,
                    ) && r2 == result_view(call_result(answer, f.line, f.col));
                assert(funcs.may_answer(&f.function_name, &v1, f.line, f.col, &x1));
                assert(funcs.may_answer(&f.function_name, &v2, f.line, f.col, &x2));
            }
        },
        _ => {},
    }
}

proof fn lemma_binary_repeatable<N: YarnNumber, F: YarnFunctions<N>>(
    lhs: YarnExpression,
    rhs: YarnExpression,
    op: BinaryOperator,
    line: usize,
    col: usize,
    vars: Map<Seq<char>, SpecValue<N>>,
    funcs: F,
    r1: Result<Option<SpecValue<N>>, YarnError>,
    r2: Result<Option<SpecValue<N>>, YarnError>,
)
    requires
        answers_uniquely(funcs),
        forall|x1, x2|
            eval_outcomes(lhs, vars, funcs).contains(x1) && eval_outcomes(lhs, vars, funcs).contains(x2)
                ==> x1 == x2,
        forall|y1, y2|
            eval_outcomes(rhs, vars, funcs).contains(y1) && eval_outcomes(rhs, vars, funcs).contains(y2)
                ==> y1 == y2,
        binary_outcomes(op, eval_outcomes(lhs, vars, funcs), eval_outcomes(rhs, vars, funcs), line, col).contains(r1),
        binary_outcomes(op, eval_outcomes(lhs, vars, funcs), eval_outcomes(rhs, vars, funcs), line, col).contains(r2),
    ensures
        r1 == r2,
{
    let ls = eval_outcomes(lhs, vars, funcs);
    let rs = eval_outcomes(rhs, vars, funcs);
    let (x1, y1) = choose|x: Result<Option<SpecValue<N>>, YarnError>, y: Result<Option<SpecValue<N>>, YarnError>| ls.contains(x) && rs.contains(y) && r1 == binary_combine(op, x, y, line, col);
    let (x2, y2) = choose|x: Result<Option<SpecValue<N>>, YarnError>, y: Result<Option<SpecValue<N>>, YarnError>| ls.contains(x) && rs.contains(y) && r2 == binary_combine(op, x, y, line, col);
    assert(x1 == x2);
    assert(y1 == y2);
}

proof fn lemma_args_repeatable<N: YarnNumber, F: YarnFunctions<N>>(
    args: Seq<YarnExpression>,
    vars: Map<Seq<char>, SpecValue<N>>,
    funcs: F,
    line: usize,
    col: usize,
    o1: Result<Seq<SpecValue<N>>, YarnError>,
    o2: Result<Seq<SpecValue<N>>, YarnError>,
)
    requires
        answers_uniquely(funcs),
        args_outcomes(args, vars, funcs, line, col).contains(o1),
        args_outcomes(args, vars, funcs, line, col).contains(o2),
    ensures
        o1 == o2,
    decreases args,
{
    if args.len() > 0 {
        let before = args_outcomes(args.drop_last(), vars, funcs, line, col);
        let lasts = eval_outcomes(args.last(), vars, funcs);
        let p1 = choose|prev|
            before.contains(prev) && match prev {
                Err(e) => o1 == Err::<Seq<SpecValue<N>>, YarnError>(e),
                Ok(vs) => exists|last|
                    lasts.contains(last) && o1 == match last {
                        Err(e) => Err(e),
                        Ok(None) => Err(YarnError { kind: YarnErrorKind::NullFunctionArg, line, col }),
                        Ok(Some(v)) => Ok(vs.push(v)),
                    },
            };
        let p2 = choose|prev|
            before.contains(prev) && match prev {
                Err(e) => o2 == Err::<Seq<SpecValue<N>>, YarnError>(e),
                Ok(vs) => exists|last|
                    lasts.contains(last) && o2 == match last {
                        Err(e) => Err(e),
                        Ok(None) => Err(YarnError { kind: YarnErrorKind::NullFunctionArg, line, col }),
                        Ok(Some(v)) => Ok(vs.push(v)),
                    },
            };
        lemma_args_repeatable(args.drop_last(), vars, funcs, line, col, p1, p2);
        if let Ok(vs) = p1 {
            let l1 = choose|last|
                lasts.contains(last) && o1 == match last {
                    Err(e) => Err(e),
                    Ok(None) => Err(YarnError { kind: YarnErrorKind::NullFunctionArg, line, col }),
                    Ok(Some(v)) => Ok(vs.push(v)),
                };
            let l2 = choose|last|
                lasts.contains(last) && o2 == match last {
                    Err(e) => Err(e),
                    Ok(None) => Err(YarnError { kind: YarnErrorKind::NullFunctionArg, line, col }),
                    Ok(Some(v)) => Ok(vs.push(v)),
                };
            lemma_evaluation_repeatable(args.last(), vars, funcs, l1, l2);
        }
    }
}

impl FunctionNode {
    /// The outcome of a call at (`line`, `col`) given what the registry
    /// answered: the function's own result, or an undefined-function error
    /// when no function of that name is registered.
    pub fn call_outcome<N>(
        found: Option<Result<Option<YarnValue<N>>, YarnError>>,
        line: usize,
        col: usize,
    ) -> (r: Result<Option<YarnValue<N>>, YarnError>)
        ensures
            r == call_result(found, line, col),
    {
        match found {
            Some(result) => result,
            None => Err(YarnError::new_undefined_function_error(line, col)),
        }
    }

    /// Evaluates the arguments left to right, stopping at the first error or at
    /// the first argument without a value. On success they are the values that
    /// the call hands to the native function, one for each argument.
    pub fn eval_arguments<N: YarnNumber, F: YarnFunctions<N>>(
        &self,
        variables: &mut YarnVariableMap<N>,
        functions: &F,
    ) -> (r: Result<Vec<YarnValue<N>>, YarnError>)
        ensures
            final(variables)@ == old(variables)@,
            args_outcomes(self.arguments@, old(variables)@, *functions, self.line, self.col).contains(
                match r {
                    Ok(values) => Ok(values_view(values@)),
                    Err(e) => Err(e),
                },
            ),
        decreases self,
    {
        let ghost vars = old(variables)@;
        let ghost args = self.arguments@;
        let n = self.arguments.len();
        let mut values: Vec<YarnValue<N>> = Vec::new();
        let mut i: usize = 0;
        assert(args.subrange(0, 0) =~= Seq::<YarnExpression>::empty());
        assert(values_view(values@) =~= seq![]);
        while i < n
            invariant
                n == args.len(),
                args == self.arguments@,
                i <= n,
                variables@ == vars,
                vars == old(variables)@,
                args_outcomes(args.subrange(0, i as int), vars, *functions, self.line, self.col).contains(
                    Ok(values_view(values@)),
                ),
            decreases n - i,
        {
            let ghost prefix = args.subrange(0, i as int);
            let ghost next = args.subrange(0, i + 1);
            assert(next.drop_last() =~= prefix);
            assert(next.last() == args[i as int]);
            proof {
                vstd::std_specs::vec::axiom_vec_index_decreases(self.arguments, i as int);
                assert(decreases_to!(self.arguments => self.arguments[i as int]));
                assert(decreases_to!(*self => self.arguments));
            }
            let ghost vs = values_view(values@);
            let value = self.arguments[i].eval(variables, functions);
            let ghost last = result_view(value);
            assert(next.len() > 0);
            assert(args_outcomes(next.drop_last(), vars, *functions, self.line, self.col).contains(Ok(vs)));
            assert(eval_outcomes(next.last(), vars, *functions).contains(last));
            match value {
                Ok(Some(v)) => {
                    values.push(v);
                    assert(values_view(values@) =~= vs.push(v@));
                    assert(args_outcomes(next, vars, *functions, self.line, self.col).contains(Ok(vs.push(v@))));
                },
                Ok(None) => {
                    let e = YarnError::new_null_function_arg_error(self.line, self.col);
                    assert(args_outcomes(next, vars, *functions, self.line, self.col).contains(Err(e)));
                    proof {
                        lemma_args_error_stays(args, vars, *functions, self.line, self.col, i + 1, e);
                    }
                    return Err(e);
                },
                Err(e) => {
                    assert(args_outcomes(next, vars, *functions, self.line, self.col).contains(Err(e)));
                    proof {
                        lemma_args_error_stays(args, vars, *functions, self.line, self.col, i + 1, e);
                    }
                    return Err(e);
                },
            }
            i = i + 1;
        }
        assert(args.subrange(0, n as int) =~= args);
        Ok(values)
    }
}

impl YarnExpression {
    /// Evaluates this tree. The environment is only read; native functions are
    /// called through `functions`.
    pub fn eval<N: YarnNumber, F: YarnFunctions<N>>(
        &self,
        variables: &mut YarnVariableMap<N>,
        functions: &F,
    ) -> (r: Result<Option<YarnValue<N>>, YarnError>)
        ensures
            final(variables)@ == old(variables)@,
            eval_outcomes(*self, old(variables)@, *functions).contains(result_view(r)),
        decreases self,
    {
        let ghost vars = old(variables)@;
        match self {
            YarnExpression::Number(n) => Ok(Some(YarnValue::NUMBER(N::from_literal(&n.value)))),
            YarnExpression::Str(s) => Ok(Some(YarnValue::STRING(s.value.clone()))),
            YarnExpression::Bool(b) => Ok(Some(YarnValue::BOOL(b.value))),
            YarnExpression::Variable(v) => match variables.get(v.identifier.as_str()) {
                Some(value) => Ok(Some(value.duplicate())),
                None => Err(YarnError::new_variable_not_declared_error(v.line, v.col)),
            },
            YarnExpression::Unary(u) => {
                let value = u.child.eval(variables, functions);
                let ghost c = result_view(value);
                let r = match value {
                    Ok(Some(v)) => match (u.operator, v) {
                        (UnaryOperator::NOT, YarnValue::BOOL(b)) => Ok(Some(YarnValue::BOOL(!b))),
                        (UnaryOperator::NEGATIVE, YarnValue::NUMBER(n)) => Ok(
                            Some(YarnValue::NUMBER(n.negated())),
                        ),
                        _ => Err(YarnError::new_invalid_operation_error(u.line, u.col)),
                    },
                    other => other,
                };
                assert(eval_outcomes(*u.child, vars, *functions).contains(c));
                assert(result_view(r) == unary_apply(u.operator, c, u.line, u.col));
                assert(exists|c2| #[trigger] eval_outcomes(*u.child, vars, *functions).contains(c2) && result_view(r) == unary_apply(u.operator, c2, u.line, u.col));
                assert(*self == YarnExpression::Unary(*u));
                assert(eval_outcomes(*self, vars, *functions).contains(result_view(r)));
                r
            },
            YarnExpression::Factor(b) => {
                let lhs = b.lhs.eval(variables, functions);
                let rhs = b.rhs.eval(variables, functions);
                let ghost (x, y) = (result_view(lhs), result_view(rhs));
                let r = match (lhs, rhs) {
                    (Err(e), _) => Err(e),
                    (Ok(_), Err(e)) => Err(e),
                    (Ok(Some(x)), Ok(Some(y))) => {
                        let value = match b.operator {
                            FactorOperator::MUL => x.mult(&y),
                            FactorOperator::DIV => x.div(&y),
                        };
                        match value {
                            Some(v) => Ok(Some(v)),
                            None => Err(YarnError::new_invalid_operation_error(b.line, b.col)),
                        }
                    },
                    _ => Err(YarnError::new_invalid_operation_error(b.line, b.col)),
                };
                assert(eval_outcomes(*b.lhs, vars, *functions).contains(x) && eval_outcomes(*b.rhs, vars, *functions).contains(y));
                assert(result_view(r) == binary_combine(BinaryOperator::Factor(b.operator), x, y, b.line, b.col));
                assert(eval_outcomes(*self, vars, *functions).contains(result_view(r)));
                r
            },
            YarnExpression::Additive(b) => {
                let lhs = b.lhs.eval(variables, functions);
                let rhs = b.rhs.eval(variables, functions);
                let ghost (x, y) = (result_view(lhs), result_view(rhs));
                let r = match (lhs, rhs) {
                    (Err(e), _) => Err(e),
                    (Ok(_), Err(e)) => Err(e),
                    (Ok(Some(x)), Ok(Some(y))) => {
                        let value = match b.operator {
                            AdditiveOperator::ADD => x.add(&y),
                            AdditiveOperator::SUB => x.sub(&y),
                        };
                        match value {
                            Some(v) => Ok(Some(v)),
                            None => Err(YarnError::new_invalid_operation_error(b.line, b.col)),
                        }
                    },
                    _ => Err(YarnError::new_invalid_operation_error(b.line, b.col)),
                };
                assert(eval_outcomes(*b.lhs, vars, *functions).contains(x) && eval_outcomes(*b.rhs, vars, *functions).contains(y));
                assert(result_view(r) == binary_combine(BinaryOperator::Additive(b.operator), x, y, b.line, b.col));
                assert(eval_outcomes(*self, vars, *functions).contains(result_view(r)));
                r
            },
            YarnExpression::Comparison(b) => {
                let lhs = b.lhs.eval(variables, functions);
                let rhs = b.rhs.eval(variables, functions);
                let ghost (x, y) = (result_view(lhs), result_view(rhs));
                let r = match (lhs, rhs) {
                    (Err(e), _) => Err(e),
                    (Ok(_), Err(e)) => Err(e),
                    (Ok(Some(x)), Ok(Some(y))) => {
                        let value = match b.operator {
                            ComparisonOperator::LESS_THAN => x.is_less_than(&y),
                            ComparisonOperator::GREATER_THAN => x.is_greater_than(&y),
                            ComparisonOperator::GREATER_THAN_EQ => x.is_greater_than_eq(&y),
                            ComparisonOperator::LESS_THAN_EQ => x.is_less_than_eq(&y),
                        };
                        match value {
                            Some(v) => Ok(Some(v)),
                            None => Err(YarnError::new_invalid_operation_error(b.line, b.col)),
                        }
                    },
                    _ => Err(YarnError::new_invalid_operation_error(b.line, b.col)),
                };
                assert(eval_outcomes(*b.lhs, vars, *functions).contains(x) && eval_outcomes(*b.rhs, vars, *functions).contains(y));
                assert(result_view(r) == binary_combine(BinaryOperator::Comparison(b.operator), x, y, b.line, b.col));
                assert(eval_outcomes(*self, vars, *functions).contains(result_view(r)));
                r
            },
            YarnExpression::Equality(b) => {
                let lhs = b.lhs.eval(variables, functions);
                let rhs = b.rhs.eval(variables, functions);
                let ghost (x, y) = (result_view(lhs), result_view(rhs));
                let r = match (lhs, rhs) {
                    (Err(e), _) => Err(e),
                    (Ok(_), Err(e)) => Err(e),
                    (Ok(Some(x)), Ok(Some(y))) => {
                        let value = match b.operator {
                            EqualityOperator::EQUAL_TOO => x.is_equal(&y),
                            EqualityOperator::NOT_EQUAL_TOO => x.is_not_equal(&y),
                        };
                        match value {
                            Some(v) => Ok(Some(v)),
                            None => Err(YarnError::new_invalid_operation_error(b.line, b.col)),
                        }
                    },
                    _ => Err(YarnError::new_invalid_operation_error(b.line, b.col)),
                };
                assert(eval_outcomes(*b.lhs, vars, *functions).contains(x) && eval_outcomes(*b.rhs, vars, *functions).contains(y));
                assert(result_view(r) == binary_combine(BinaryOperator::Equality(b.operator), x, y, b.line, b.col));
                assert(eval_outcomes(*self, vars, *functions).contains(result_view(r)));
                r
            },
            YarnExpression::Function(f) => {
                proof {
                    assert(decreases_to!(*self => *f));
                }
                match f.eval_arguments(variables, functions) {
                    Ok(values) => {
                        let ghost vs = values_view(values@);
                        let ghost passed = values;
                        let found = functions.call(&f.function_name, values, f.line, f.col);
                        assert(args_outcomes(f.arguments@, vars, *functions, f.line, f.col).contains(Ok(vs)));
                        assert(functions.may_answer(&f.function_name, &passed, f.line, f.col, &found));
                        let r = FunctionNode::call_outcome(found, f.line, f.col);
                        assert(values_view(passed@) == vs);
                        assert(eval_outcomes(*self, vars, *functions).contains(result_view(r)));
                        r
                    },
                    Err(e) => {
                        assert(args_outcomes(f.arguments@, vars, *functions, f.line, f.col).contains(Err(e)));
                        assert(eval_outcomes(*self, vars, *functions).contains(Err(e)));
                        Err(e)
                    },
                }
            },
        }
    }
}

} // verus!
