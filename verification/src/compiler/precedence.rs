use vstd::prelude::*;
use crate::compiler::ast::{BinaryOperator, ExprV, StmtV};
use crate::compiler::lexer::{TokenV, SpannedTokenV};
use crate::compiler::parser::{ParseFail, binop_of, parse_expr, parse_prec, parse_primary, parse_postfix, climb, parse_expr_statement};

verus! {

/// How tightly a binary operator binds by the usual convention, loosest
/// first: `||`, then `&&`, then the comparisons, then `+` and `-`, then `*`,
/// `/` and `%`; -1 for a token that is no binary operator.
pub open spec fn operator_rank(t: TokenV) -> int {
    match t {
        TokenV::OrOr => 0,
        TokenV::AndAnd => 1,
        TokenV::EqualEqual | TokenV::NotEqual | TokenV::Lt | TokenV::Gt | TokenV::Le | TokenV::Ge => 2,
        TokenV::Plus | TokenV::Minus => 3,
        TokenV::Star | TokenV::Slash | TokenV::Percent => 4,
        _ => -1,
    }
}

/// The operator that a binary operator token writes.
pub open spec fn operator_written(t: TokenV) -> BinaryOperator {
    match t {
        TokenV::OrOr => BinaryOperator::Or,
        TokenV::AndAnd => BinaryOperator::And,
        TokenV::EqualEqual => BinaryOperator::Eq,
        TokenV::NotEqual => BinaryOperator::Ne,
        TokenV::Lt => BinaryOperator::Lt,
        TokenV::Gt => BinaryOperator::Gt,
        TokenV::Le => BinaryOperator::Le,
        TokenV::Ge => BinaryOperator::Ge,
        TokenV::Plus => BinaryOperator::Add,
        TokenV::Minus => BinaryOperator::Sub,
        TokenV::Star => BinaryOperator::Mul,
        TokenV::Slash => BinaryOperator::Div,
        _ => BinaryOperator::Mod,
    }
}

/// The parser reads each binary operator token as the operator it writes,
/// binding as tightly as the convention says: a token of a higher rank gets
/// a higher precedence.
pub proof fn lemma_operator_table(t: TokenV, u: TokenV)
    ensures
        operator_rank(t) >= 0 <==> binop_of(t) is Some,
        binop_of(t) matches Some((o, pr)) ==> o == operator_written(t) && pr == operator_rank(t) + 1,
        binop_of(t) is Some && binop_of(u) is Some ==> (binop_of(t)->Some_0.1 < binop_of(u)->Some_0.1
            <==> operator_rank(t) < operator_rank(u)),
{
}

/// A name followed by a token that starts no call, macro call or method call
/// is a whole operand.
proof fn lemma_name_operand(ts: Seq<SpannedTokenV>, q: int, name: Seq<char>)
    requires
        0 <= q,
        q + 1 < ts.len(),
        ts[q].token == TokenV::Identifier(name),
        ts[q + 1].token != TokenV::Bang,
        ts[q + 1].token != TokenV::LParen,
        ts[q + 1].token != TokenV::Dot,
    ensures
        parse_primary(ts, q) == Ok::<(ExprV, int), ParseFail>((ExprV::Identifier(name), q + 1)),
{
    assert(parse_postfix(ts, q + 1, ExprV::Identifier(name)) == Ok::<(ExprV, int), ParseFail>(
        (ExprV::Identifier(name), q + 1),
    ));
}

/// How two binary operators group: in `x op1 y op2 z` (three names, followed
/// by the end of the tokens or a token that continues no expression), the
/// second operator takes `y` first exactly when it binds more tightly by the
/// usual convention; otherwise, for equal or looser binding, the first
/// operator groups first (left associativity). So `x || y && z` is
/// `x || (y && z)`, `x * y + z` is `(x * y) + z` and `x - y - z` is
/// `(x - y) - z`.
pub proof fn lemma_two_operators_group(
    ts: Seq<SpannedTokenV>,
    p: int,
    x: Seq<char>,
    y: Seq<char>,
    z: Seq<char>,
)
    requires
        0 <= p,
        p + 5 <= ts.len(),
        ts[p].token == TokenV::Identifier(x),
        operator_rank(ts[p + 1].token) >= 0,
        ts[p + 2].token == TokenV::Identifier(y),
        operator_rank(ts[p + 3].token) >= 0,
        ts[p + 4].token == TokenV::Identifier(z),
        p + 5 == ts.len() || (operator_rank(ts[p + 5].token) < 0 && ts[p + 5].token != TokenV::Bang
            && ts[p + 5].token != TokenV::LParen && ts[p + 5].token != TokenV::Dot),
    ensures
        ({
            let t1 = ts[p + 1].token;
            let t2 = ts[p + 3].token;
            let (o1, o2) = (operator_written(t1), operator_written(t2));
            let ex = ExprV::Identifier(x);
            let ey = ExprV::Identifier(y);
            let ez = ExprV::Identifier(z);
            parse_expr(ts, p) == Ok::<(ExprV, int), ParseFail>(
                (
                    if operator_rank(t2) > operator_rank(t1) {
                        ExprV::BinaryOp(Box::new(ex), o1, Box::new(ExprV::BinaryOp(Box::new(ey), o2, Box::new(ez))))
                    } else {
                        ExprV::BinaryOp(Box::new(ExprV::BinaryOp(Box::new(ex), o1, Box::new(ey))), o2, Box::new(ez))
                    },
                    p + 5,
                ),
            )
        }),
{
    let t1 = ts[p + 1].token;
    let t2 = ts[p + 3].token;
    lemma_operator_table(t1, t2);
    lemma_operator_table(t2, t1);
    let (o1, pr1) = binop_of(t1)->Some_0;
    let (o2, pr2) = binop_of(t2)->Some_0;
    let ex = ExprV::Identifier(x);
    let ey = ExprV::Identifier(y);
    let ez = ExprV::Identifier(z);
    lemma_name_operand(ts, p, x);
    lemma_name_operand(ts, p + 2, y);
    if p + 5 < ts.len() {
        lemma_name_operand(ts, p + 4, z);
    } else {
        assert(parse_postfix(ts, p + 5, ez) == Ok::<(ExprV, int), ParseFail>((ez, p + 5)));
        assert(parse_primary(ts, p + 4) == Ok::<(ExprV, int), ParseFail>((ez, p + 5)));
    }
    assert forall|e: ExprV, m: u8| #[trigger] climb(ts, p + 5, e, m) == Ok::<(ExprV, int), ParseFail>((e, p + 5)) by {}
    let ok = |e: ExprV, q: int| Ok::<(ExprV, int), ParseFail>((e, q));
    assert(parse_prec(ts, p + 4, (pr2 + 1) as u8) == ok(ez, p + 5));
    if operator_rank(t2) > operator_rank(t1) {
        let yz = ExprV::BinaryOp(Box::new(ey), o2, Box::new(ez));
        let whole = ExprV::BinaryOp(Box::new(ex), o1, Box::new(yz));
        assert(climb(ts, p + 5, yz, (pr1 + 1) as u8) == ok(yz, p + 5));
        assert(binop_of(ts[p + 3].token) == Some((o2, pr2)));
        assert(!(pr2 < (pr1 + 1) as u8));
        assert(p + 3 + 1 == p + 4);
        assert(climb(ts, p + 3, ey, (pr1 + 1) as u8) == ok(yz, p + 5));
        assert(parse_prec(ts, p + 2, (pr1 + 1) as u8) == ok(yz, p + 5));
        assert(climb(ts, p + 1, ex, 0) == ok(whole, p + 5));
    } else {
        let xy = ExprV::BinaryOp(Box::new(ex), o1, Box::new(ey));
        let whole = ExprV::BinaryOp(Box::new(xy), o2, Box::new(ez));
        assert(climb(ts, p + 3, ey, (pr1 + 1) as u8) == ok(ey, p + 3));
        assert(parse_prec(ts, p + 2, (pr1 + 1) as u8) == ok(ey, p + 3));
        assert(climb(ts, p + 5, whole, 0) == ok(whole, p + 5));
        assert(binop_of(ts[p + 3].token) == Some((o2, pr2)));
        assert(climb(ts, p + 3, xy, 0) == ok(whole, p + 5));
        assert(climb(ts, p + 1, ex, 0) == ok(whole, p + 5));
    }
}


/// The three assignment forms: `x = v;` stores `v` in `x`, `x += v;` stores
/// `x + v` and `x -= v;` stores `x - v`, for any name `x` and any
/// expression `v`.
pub proof fn lemma_assignment_forms(ts: Seq<SpannedTokenV>, p: int, x: Seq<char>, v: ExprV, q2: int)
    requires
        0 <= p,
        p + 2 < ts.len(),
        ts[p].token == TokenV::Identifier(x),
        ts[p + 1].token == TokenV::Equal || ts[p + 1].token == TokenV::PlusEqual || ts[p + 1].token
            == TokenV::MinusEqual,
        parse_expr(ts, p + 2) == Ok::<(ExprV, int), ParseFail>((v, q2)),
        0 <= q2 < ts.len(),
        ts[q2].token == TokenV::Semicolon,
    ensures
        parse_expr_statement(ts, p) == Ok::<(StmtV, int), ParseFail>(
            (
                StmtV::Assign(
                    x,
                    if ts[p + 1].token == TokenV::PlusEqual {
                        ExprV::BinaryOp(Box::new(ExprV::Identifier(x)), BinaryOperator::Add, Box::new(v))
                    } else if ts[p + 1].token == TokenV::MinusEqual {
                        ExprV::BinaryOp(Box::new(ExprV::Identifier(x)), BinaryOperator::Sub, Box::new(v))
                    } else {
                        v
                    },
                ),
                q2 + 1,
            ),
        ),
{
    lemma_name_operand(ts, p, x);
    let ex = ExprV::Identifier(x);
    assert(climb(ts, p + 1, ex, 0) == Ok::<(ExprV, int), ParseFail>((ex, p + 1)));
    assert(parse_expr(ts, p) == Ok::<(ExprV, int), ParseFail>((ex, p + 1)));
}

} // verus!
