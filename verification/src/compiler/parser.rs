use vstd::prelude::*;
use crate::compiler::ast::{Type, BinaryOperator, Expr, ExprV, Statement, StmtV, Program, exprs_view, stmts_view, params_view};
use crate::compiler::lexer::{Token, TokenV, SpannedToken, SpannedTokenV, Position};
use crate::text::{syntax_error, syntax_error_text, str_chars, string_from_chars, str_eq, concat_chars};

verus! {

/// A parse failure: the index of the token whose position the message
/// reports, and the message.
pub type ParseFail = (int, Seq<char>);

/// The token at index `p`, if there is one.
pub open spec fn tok_at(ts: Seq<SpannedTokenV>, p: int) -> Option<TokenV> {
    if 0 <= p < ts.len() { Some(ts[p].token) } else { None }
}

/// Whether the token at index `p` is `t`.
pub open spec fn is_at(ts: Seq<SpannedTokenV>, p: int, t: TokenV) -> bool {
    tok_at(ts, p) == Some(t)
}

/// The position an error at token `p` reports: that token's, or line 1,
/// column 1 past the end.
pub open spec fn pos_of(ts: Seq<SpannedTokenV>, p: int) -> Position {
    if 0 <= p < ts.len() { ts[p].pos } else { Position { line: 1, column: 1 } }
}

/// The message of a parse failure.
pub open spec fn parse_error_text(ts: Seq<SpannedTokenV>, f: ParseFail) -> Seq<char> {
    syntax_error_text(pos_of(ts, f.0).line as nat, pos_of(ts, f.0).column as nat, f.1)
}

/// A parse that made no progress. No parse returns it: every parse that
/// succeeds consumes what it reports; the checks that could return it only
/// make the termination of the grammar's recursion evident.
pub open spec fn stuck(q: int) -> ParseFail {
    (q, Seq::empty())
}

/// After `p`, when token `p` is `t`; else a failure with `msg` at `p`.
pub open spec fn expect(ts: Seq<SpannedTokenV>, p: int, t: TokenV, msg: Seq<char>) -> Result<int, ParseFail> {
    if is_at(ts, p, t) { Ok(p + 1) } else { Err((p, msg)) }
}

/// The type a name denotes.
pub open spec fn type_named(name: Seq<char>) -> Option<Type> {
    if name == "Int"@ {
        Some(Type::Int)
    } else if name == "Float"@ {
        Some(Type::Float)
    } else if name == "String"@ {
        Some(Type::String)
    } else if name == "Tensor"@ {
        Some(Type::Tensor)
    } else if name == "DynamicArray"@ {
        Some(Type::DynamicArray)
    } else {
        None
    }
}

/// The binary operator a token stands for and its precedence (higher binds
/// tighter).
pub open spec fn binop_of(t: TokenV) -> Option<(BinaryOperator, u8)> {
    match t {
        TokenV::OrOr => Some((BinaryOperator::Or, 1)),
        TokenV::AndAnd => Some((BinaryOperator::And, 2)),
        TokenV::EqualEqual => Some((BinaryOperator::Eq, 3)),
        TokenV::NotEqual => Some((BinaryOperator::Ne, 3)),
        TokenV::Lt => Some((BinaryOperator::Lt, 3)),
        TokenV::Gt => Some((BinaryOperator::Gt, 3)),
        TokenV::Le => Some((BinaryOperator::Le, 3)),
        TokenV::Ge => Some((BinaryOperator::Ge, 3)),
        TokenV::Plus => Some((BinaryOperator::Add, 4)),
        TokenV::Minus => Some((BinaryOperator::Sub, 4)),
        TokenV::Star => Some((BinaryOperator::Mul, 5)),
        TokenV::Slash => Some((BinaryOperator::Div, 5)),
        TokenV::Percent => Some((BinaryOperator::Mod, 5)),
        _ => None,
    }
}

/// The name a macro method call gets: `name.method` on an identifier, else
/// `<expr>.method`.
pub open spec fn macro_method_name(target: ExprV, method: Seq<char>) -> Seq<char> {
    match target {
        ExprV::Identifier(name) => name + "."@ + method,
        _ => "<expr>."@ + method,
    }
}

/// An expression whose operators all bind at least as tightly as `m`,
/// starting at token `p`, and the index after it.
pub open spec fn parse_prec(ts: Seq<SpannedTokenV>, p: int, m: u8) -> Result<(ExprV, int), ParseFail>
    decreases ts.len() - p, 5int,
{
    if p < 0 || p > ts.len() {
        Err(stuck(p))
    } else {
        match parse_primary(ts, p) {
            Err(f) => Err(f),
            Ok((left, q)) => if q <= p || q > ts.len() {
                Err(stuck(q))
            } else {
                climb(ts, q, left, m)
            },
        }
    }
}

/// A whole expression.
pub open spec fn parse_expr(ts: Seq<SpannedTokenV>, p: int) -> Result<(ExprV, int), ParseFail>
    decreases ts.len() - p, 6int,
{
    parse_prec(ts, p, 0)
}

/// Extends `left` with the operators from `q` on that bind at least as
/// tightly as `m`; operators of one precedence group to the left.
pub open spec fn climb(ts: Seq<SpannedTokenV>, q: int, left: ExprV, m: u8) -> Result<(ExprV, int), ParseFail>
    decreases ts.len() - q, 4int,
{
    if q < 0 || q >= ts.len() {
        Ok((left, q))
    } else {
        match binop_of(ts[q].token) {
            None => Ok((left, q)),
            Some((op, prec)) => if prec < m {
                Ok((left, q))
            } else {
                match parse_prec(ts, q + 1, (prec + 1) as u8) {
                    Err(f) => Err(f),
                    Ok((right, q2)) => if q2 <= q || q2 > ts.len() {
                        Err(stuck(q2))
                    } else {
                        climb(ts, q2, ExprV::BinaryOp(Box::new(left), op, Box::new(right)), m)
                    },
                }
            },
        }
    }
}

/// An operand: a literal, a name, a call, a macro call or a parenthesized
/// expression, followed by any method calls.
pub open spec fn parse_primary(ts: Seq<SpannedTokenV>, p: int) -> Result<(ExprV, int), ParseFail>
    decreases ts.len() - p, 3int,
{
    if p < 0 || p >= ts.len() {
        Err((p, "Unexpected token in expression"@))
    } else {
        match ts[p].token {
            TokenV::IntLiteral(v) => parse_postfix(ts, p + 1, ExprV::IntLiteral(v)),
            TokenV::FloatLiteral(v) => parse_postfix(ts, p + 1, ExprV::FloatLiteral(v)),
            TokenV::StringLiteral(v) => parse_postfix(ts, p + 1, ExprV::StringLiteral(v)),
            TokenV::Identifier(v) => {
                let is_macro = is_at(ts, p + 1, TokenV::Bang);
                let q = if is_macro { p + 2 } else { p + 1 };
                if is_at(ts, q, TokenV::LParen) {
                    match call_args(ts, q + 1, "Expected ')' after function arguments"@) {
                        Err(f) => Err(f),
                        Ok((args, q2)) => if q2 <= q || q2 > ts.len() {
                            Err(stuck(q2))
                        } else {
                            parse_postfix(
                                ts,
                                q2,
                                if is_macro { ExprV::MacroCall(v, args) } else { ExprV::Call(v, args) },
                            )
                        },
                    }
                } else {
                    parse_postfix(ts, q, ExprV::Identifier(v))
                }
            },
            TokenV::LParen => match parse_expr(ts, p + 1) {
                Err(f) => Err(f),
                Ok((inner, q)) => if q <= p || q > ts.len() {
                    Err(stuck(q))
                } else {
                    match expect(ts, q, TokenV::RParen, "Expected ')' after parenthesized expression"@) {
                        Err(f) => Err(f),
                        Ok(q2) => parse_postfix(ts, q2, inner),
                    }
                },
            },
            _ => Err((p, "Unexpected token in expression"@)),
        }
    }
}

/// Method calls `.name(args)` and macro method calls `.name!(args)` on `e`
/// from token `q` on.
pub open spec fn parse_postfix(ts: Seq<SpannedTokenV>, q: int, e: ExprV) -> Result<(ExprV, int), ParseFail>
    decreases ts.len() - q, 2int,
{
    if q < 0 || q > ts.len() || !is_at(ts, q, TokenV::Dot) {
        Ok((e, q))
    } else {
        match tok_at(ts, q + 1) {
            Some(TokenV::Identifier(name)) => {
                let is_macro = is_at(ts, q + 2, TokenV::Bang);
                let q3 = if is_macro { q + 3 } else { q + 2 };
                if !is_at(ts, q3, TokenV::LParen) {
                    Err((q3, "Expected '(' after method name"@))
                } else {
                    match call_args(ts, q3 + 1, "Expected ')' after method arguments"@) {
                        Err(f) => Err(f),
                        Ok((args, q4)) => if q4 <= q || q4 > ts.len() {
                            Err(stuck(q4))
                        } else {
                            parse_postfix(
                                ts,
                                q4,
                                if is_macro {
                                    ExprV::MacroCall(macro_method_name(e, name), args)
                                } else {
                                    ExprV::MethodCall(Box::new(e), name, args)
                                },
                            )
                        },
                    }
                }
            },
            _ => Err((q + 1, "Expected method name after '.'"@)),
        }
    }
}

/// The arguments of a call after its `(`, through the closing `)`.
pub open spec fn call_args(ts: Seq<SpannedTokenV>, q: int, close_msg: Seq<char>) -> Result<(Seq<ExprV>, int), ParseFail>
    decreases ts.len() - q, 8int,
{
    if q < 0 || q > ts.len() {
        Err(stuck(q))
    } else if is_at(ts, q, TokenV::RParen) {
        Ok((Seq::empty(), q + 1))
    } else {
        match arg_list(ts, q) {
            Err(f) => Err(f),
            Ok((args, q2)) => match expect(ts, q2, TokenV::RParen, close_msg) {
                Err(f) => Err(f),
                Ok(q3) => Ok((args, q3)),
            },
        }
    }
}

/// Expressions separated by commas, from token `q` on.
pub open spec fn arg_list(ts: Seq<SpannedTokenV>, q: int) -> Result<(Seq<ExprV>, int), ParseFail>
    decreases ts.len() - q, 7int,
{
    if q < 0 || q > ts.len() {
        Err(stuck(q))
    } else {
        match parse_expr(ts, q) {
            Err(f) => Err(f),
            Ok((e, q1)) => if q1 <= q || q1 > ts.len() {
                Err(stuck(q1))
            } else if is_at(ts, q1, TokenV::Comma) {
                match arg_list(ts, q1 + 1) {
                    Err(f) => Err(f),
                    Ok((rest, q2)) => Ok((seq![e] + rest, q2)),
                }
            } else {
                Ok((seq![e], q1))
            },
        }
    }
}

/// A type name at token `p`; `unknown` is the message for a name that is no
/// type, `missing` for a token that is no name.
pub open spec fn type_at(ts: Seq<SpannedTokenV>, p: int, unknown: Seq<char>, missing: Seq<char>) -> Result<Type, ParseFail> {
    match tok_at(ts, p) {
        Some(TokenV::Identifier(name)) => match type_named(name) {
            Some(t) => Ok(t),
            None => Err((p, unknown)),
        },
        _ => Err((p, missing)),
    }
}

/// Function parameters `name: Type` separated by commas, from token `q` on.
pub open spec fn params(ts: Seq<SpannedTokenV>, q: int) -> Result<(Seq<(Seq<char>, Type)>, int), ParseFail>
    decreases ts.len() - q,
{
    match tok_at(ts, q) {
        Some(TokenV::Identifier(name)) => match expect(
            ts,
            q + 1,
            TokenV::Colon,
            "Expected ':' after argument name"@,
        ) {
            Err(f) => Err(f),
            Ok(q2) => match type_at(ts, q2, "Unknown type"@, "Expected type for argument"@) {
                Err(f) => Err(f),
                Ok(t) => if is_at(ts, q2 + 1, TokenV::Comma) {
                    match params(ts, q2 + 2) {
                        Err(f) => Err(f),
                        Ok((rest, q3)) => Ok((seq![(name, t)] + rest, q3)),
                    }
                } else {
                    Ok((seq![(name, t)], q2 + 1))
                },
            },
        },
        _ => Err((q, "Expected argument name"@)),
    }
}

/// Statements from token `p` on, up to the end of a program (`top`: where
/// the tokens run out or `EOF` comes) or of a block (a closing brace or
/// `EOF`).
pub open spec fn parse_items(ts: Seq<SpannedTokenV>, p: int, top: bool) -> Result<(Seq<StmtV>, int), ParseFail>
    decreases ts.len() - p, 10int,
{
    if p < 0 || p > ts.len() {
        Err(stuck(p))
    } else if is_at(ts, p, TokenV::EOF) || (top && p >= ts.len()) || (!top && is_at(
        ts,
        p,
        TokenV::RBrace,
    )) {
        Ok((Seq::empty(), p))
    } else {
        match parse_statement(ts, p) {
            Err(f) => Err(f),
            Ok((s, q)) => if q <= p || q > ts.len() {
                Err(stuck(q))
            } else {
                match parse_items(ts, q, top) {
                    Err(f) => Err(f),
                    Ok((rest, q2)) => Ok((seq![s] + rest, q2)),
                }
            },
        }
    }
}

/// A block body after its opening brace, through the closing brace.
pub open spec fn parse_block(ts: Seq<SpannedTokenV>, p: int, close_msg: Seq<char>) -> Result<(Seq<StmtV>, int), ParseFail>
    decreases ts.len() - p, 11int,
{
    match parse_items(ts, p, false) {
        Err(f) => Err(f),
        Ok((body, q)) => match expect(ts, q, TokenV::RBrace, close_msg) {
            Err(f) => Err(f),
            Ok(q2) => Ok((body, q2)),
        },
    }
}

/// `Assign`, or a compound assignment `name op= value` as `name = name op
/// value`.
pub open spec fn assignment(target: ExprV, op: Option<BinaryOperator>, value: ExprV) -> Option<StmtV> {
    match target {
        ExprV::Identifier(name) => Some(
            StmtV::Assign(
                name,
                match op {
                    Some(o) => ExprV::BinaryOp(Box::new(ExprV::Identifier(name)), o, Box::new(value)),
                    None => value,
                },
            ),
        ),
        _ => None,
    }
}

/// A statement starting at token `p`, and the index after it.
pub open spec fn parse_statement(ts: Seq<SpannedTokenV>, p: int) -> Result<(StmtV, int), ParseFail>
    decreases ts.len() - p, 9int,
{
    if p < 0 || p > ts.len() {
        Err(stuck(p))
    } else if is_at(ts, p, TokenV::Let) {
        parse_let(ts, p)
    } else if is_at(ts, p, TokenV::If) {
        parse_if(ts, p)
    } else if is_at(ts, p, TokenV::While) {
        parse_while(ts, p)
    } else if is_at(ts, p, TokenV::Return) {
        parse_return(ts, p)
    } else if is_at(ts, p, TokenV::Fn) {
        parse_function(ts, p)
    } else {
        parse_expr_statement(ts, p)
    }
}

/// `let name [: Type] = value;` at token `p`; the type is `Int` when none
/// is written.
pub open spec fn parse_let(ts: Seq<SpannedTokenV>, p: int) -> Result<(StmtV, int), ParseFail>
    decreases ts.len() - p, 8int,
{
    match tok_at(ts, p + 1) {
        Some(TokenV::Identifier(name)) => {
            let typed = is_at(ts, p + 2, TokenV::Colon);
            let ty = if typed {
                type_at(ts, p + 3, "Unknown type"@, "Expected type name after ':'"@)
            } else {
                Ok(Type::Int)
            };
            match ty {
                Err(f) => Err(f),
                Ok(t) => {
                    let q = if typed { p + 4 } else { p + 2 };
                    match expect(ts, q, TokenV::Equal, "Expected '=' in let declaration"@) {
                        Err(f) => Err(f),
                        Ok(q1) => if q1 <= p || q1 > ts.len() {
                            Err(stuck(q1))
                        } else {
                            match parse_expr(ts, q1) {
                                Err(f) => Err(f),
                                Ok((e, q2)) => match expect(
                                    ts,
                                    q2,
                                    TokenV::Semicolon,
                                    "Expected ';' after let declaration"@,
                                ) {
                                    Err(f) => Err(f),
                                    Ok(q3) => Ok((StmtV::LetDecl(name, t, e), q3)),
                                },
                            }
                        },
                    }
                },
            }
        },
        _ => Err((p + 1, "Expected identifier after 'let'"@)),
    }
}

/// `if cond { then } [else { else }]` at token `p`.
pub open spec fn parse_if(ts: Seq<SpannedTokenV>, p: int) -> Result<(StmtV, int), ParseFail>
    decreases ts.len() - p, 8int,
{
    if p < 0 || p >= ts.len() {
        Err(stuck(p))
    } else {
        match parse_expr(ts, p + 1) {
            Err(f) => Err(f),
            Ok((c, q)) => match expect(ts, q, TokenV::LBrace, "Expected '{' after if condition"@) {
                Err(f) => Err(f),
                Ok(q1) => if q1 <= p || q1 > ts.len() {
                    Err(stuck(q1))
                } else {
                    match parse_block(ts, q1, "Expected '}' at end of if block"@) {
                        Err(f) => Err(f),
                        Ok((then_b, q2)) => if q2 <= p || q2 > ts.len() {
                            Err(stuck(q2))
                        } else if is_at(ts, q2, TokenV::Else) {
                            match expect(ts, q2 + 1, TokenV::LBrace, "Expected '{' after else"@) {
                                Err(f) => Err(f),
                                Ok(q3) => match parse_block(ts, q3, "Expected '}' at end of else block"@) {
                                    Err(f) => Err(f),
                                    Ok((else_b, q4)) => Ok((StmtV::If(c, then_b, else_b), q4)),
                                },
                            }
                        } else {
                            Ok((StmtV::If(c, then_b, Seq::empty()), q2))
                        },
                    }
                },
            },
        }
    }
}

/// `while cond { body }` at token `p`.
pub open spec fn parse_while(ts: Seq<SpannedTokenV>, p: int) -> Result<(StmtV, int), ParseFail>
    decreases ts.len() - p, 8int,
{
    if p < 0 || p >= ts.len() {
        Err(stuck(p))
    } else {
        match parse_expr(ts, p + 1) {
            Err(f) => Err(f),
            Ok((c, q)) => match expect(ts, q, TokenV::LBrace, "Expected '{' after while condition"@) {
                Err(f) => Err(f),
                Ok(q1) => if q1 <= p || q1 > ts.len() {
                    Err(stuck(q1))
                } else {
                    match parse_block(ts, q1, "Expected '}' at end of while block"@) {
                        Err(f) => Err(f),
                        Ok((body, q2)) => Ok((StmtV::While(c, body), q2)),
                    }
                },
            },
        }
    }
}

/// `return;` or `return value;` at token `p`.
pub open spec fn parse_return(ts: Seq<SpannedTokenV>, p: int) -> Result<(StmtV, int), ParseFail>
    decreases ts.len() - p, 8int,
{
    if p < 0 || p >= ts.len() {
        Err(stuck(p))
    } else if is_at(ts, p + 1, TokenV::Semicolon) {
        Ok((StmtV::Return(None), p + 2))
    } else {
        match parse_expr(ts, p + 1) {
            Err(f) => Err(f),
            Ok((e, q)) => match expect(ts, q, TokenV::Semicolon, "Expected ';' after return value"@) {
                Err(f) => Err(f),
                Ok(q1) => Ok((StmtV::Return(Some(e)), q1)),
            },
        }
    }
}

/// An expression statement `e;`, or an assignment `name = e;`, `name += e;`
/// or `name -= e;`, at token `p`.
pub open spec fn parse_expr_statement(ts: Seq<SpannedTokenV>, p: int) -> Result<(StmtV, int), ParseFail>
    decreases ts.len() - p, 8int,
{
    match parse_expr(ts, p) {
        Err(f) => Err(f),
        Ok((e, q)) => {
            let op: Option<Option<BinaryOperator>> = if is_at(ts, q, TokenV::Equal) {
                Some(None)
            } else if is_at(ts, q, TokenV::PlusEqual) {
                Some(Some(BinaryOperator::Add))
            } else if is_at(ts, q, TokenV::MinusEqual) {
                Some(Some(BinaryOperator::Sub))
            } else {
                None
            };
            match op {
                None => match expect(ts, q, TokenV::Semicolon, "Expected ';' after expression"@) {
                    Err(f) => Err(f),
                    Ok(q1) => Ok((StmtV::ExprStmt(e), q1)),
                },
                Some(o) => if !(e is Identifier) {
                    Err((q + 1, "Invalid assignment target"@))
                } else if q < p || q >= ts.len() {
                    Err(stuck(q))
                } else {
                    match parse_expr(ts, q + 1) {
                        Err(f) => Err(f),
                        Ok((v, q2)) => match expect(
                            ts,
                            q2,
                            TokenV::Semicolon,
                            "Expected ';' after assignment"@,
                        ) {
                            Err(f) => Err(f),
                            Ok(q3) => Ok((assignment(e, o, v).unwrap(), q3)),
                        },
                    }
                },
            }
        },
    }
}

/// The parameter list of a function after its `(`, through the closing `)`.
pub open spec fn fn_params(ts: Seq<SpannedTokenV>, q: int) -> Result<(Seq<(Seq<char>, Type)>, int), ParseFail> {
    if is_at(ts, q, TokenV::RParen) {
        Ok((Seq::empty(), q + 1))
    } else {
        match params(ts, q) {
            Err(f) => Err(f),
            Ok((ps, q1)) => match expect(ts, q1, TokenV::RParen, "Expected ')' after parameters"@) {
                Err(f) => Err(f),
                Ok(q2) => Ok((ps, q2)),
            },
        }
    }
}

/// The return type of a function from token `q` on: `Void` without an arrow;
/// the arrow may also be written as `-` followed by `>`.
pub open spec fn fn_return(ts: Seq<SpannedTokenV>, q: int) -> Result<(Type, int), ParseFail> {
    let arrow_end = if is_at(ts, q, TokenV::Arrow) {
        Some(q + 1)
    } else if is_at(ts, q, TokenV::Minus) && is_at(ts, q + 1, TokenV::Gt) {
        Some(q + 2)
    } else {
        None
    };
    match arrow_end {
        Some(r) => match type_at(ts, r, "Unknown return type"@, "Expected return type after '->'"@) {
            Err(f) => Err(f),
            Ok(t) => Ok((t, r + 1)),
        },
        None => Ok((Type::Void, q)),
    }
}

/// A function declaration `fn name(params) -> Type` followed by its body in
/// braces, at token `p`.
pub open spec fn parse_function(ts: Seq<SpannedTokenV>, p: int) -> Result<(StmtV, int), ParseFail>
    decreases ts.len() - p, 8int,
{
    match tok_at(ts, p + 1) {
        Some(TokenV::Identifier(name)) => match expect(
            ts,
            p + 2,
            TokenV::LParen,
            "Expected '(' after function name"@,
        ) {
            Err(f) => Err(f),
            Ok(q) => match fn_params(ts, q) {
                Err(f) => Err(f),
                Ok((ps, q1)) => match fn_return(ts, q1) {
                    Err(f) => Err(f),
                    Ok((rt, q2)) => match expect(
                        ts,
                        q2,
                        TokenV::LBrace,
                        "Expected '{' after function signature"@,
                    ) {
                        Err(f) => Err(f),
                        Ok(q3) => if q3 <= p || q3 > ts.len() {
                            Err(stuck(q3))
                        } else {
                            match parse_block(ts, q3, "Expected '}' at end of function body"@) {
                                Err(f) => Err(f),
                                Ok((body, q4)) => Ok((StmtV::FunctionDecl(name, ps, rt, body), q4)),
                            }
                        },
                    },
                },
            },
        },
        _ => Err((p + 1, "Expected function name"@)),
    }
}

/// The statements of a program from token `p` on.
pub open spec fn parse_program(ts: Seq<SpannedTokenV>, p: int) -> Result<Seq<StmtV>, ParseFail> {
    match parse_items(ts, p, true) {
        Err(f) => Err(f),
        Ok((ss, _)) => Ok(ss),
    }
}

/// A recursive-descent parser over the tokens of the lexer.
pub struct Parser {
    tokens: Vec<SpannedToken>,
    position: usize,
}

/// The mathematical values of a list of tokens.
pub open spec fn tokens_view(ts: Seq<SpannedToken>) -> Seq<SpannedTokenV> {
    ts.map_values(|t: SpannedToken| t@)
}

/// The binary operator a token stands for and its precedence.
fn binop_token(t: &Token) -> (r: Option<(BinaryOperator, u8)>)
    ensures
        r == binop_of(t@),
{
    match t {
        Token::OrOr => Some((BinaryOperator::Or, 1)),
        Token::AndAnd => Some((BinaryOperator::And, 2)),
        Token::EqualEqual => Some((BinaryOperator::Eq, 3)),
        Token::NotEqual => Some((BinaryOperator::Ne, 3)),
        Token::Lt => Some((BinaryOperator::Lt, 3)),
        Token::Gt => Some((BinaryOperator::Gt, 3)),
        Token::Le => Some((BinaryOperator::Le, 3)),
        Token::Ge => Some((BinaryOperator::Ge, 3)),
        Token::Plus => Some((BinaryOperator::Add, 4)),
        Token::Minus => Some((BinaryOperator::Sub, 4)),
        Token::Star => Some((BinaryOperator::Mul, 5)),
        Token::Slash => Some((BinaryOperator::Div, 5)),
        Token::Percent => Some((BinaryOperator::Mod, 5)),
        _ => None,
    }
}

/// The type a name denotes.
fn type_from_name(name: &String) -> (r: Option<Type>)
    ensures
        r == type_named(name@),
{
    let n = name.as_str();
    if str_eq(n, "Int") {
        Some(Type::Int)
    } else if str_eq(n, "Float") {
        Some(Type::Float)
    } else if str_eq(n, "String") {
        Some(Type::String)
    } else if str_eq(n, "Tensor") {
        Some(Type::Tensor)
    } else if str_eq(n, "DynamicArray") {
        Some(Type::DynamicArray)
    } else {
        None
    }
}

/// The name of a macro method call on `target`.
fn macro_name(target: &Expr, method: &String) -> (r: String)
    ensures
        r@ == macro_method_name(target@, method@),
{
    let m = str_chars(method.as_str());
    let head = match target {
        Expr::Identifier(name) => {
            let mut h = str_chars(name.as_str());
            h.push('.');
            h
        },
        _ => str_chars("<expr>."),
    };
    proof {
        reveal_strlit("<expr>.");
        reveal_strlit(".");
    }
    string_from_chars(&concat_chars(&head, &m))
}

impl Parser {
    /// The tokens being parsed.
    pub closed spec fn ts(&self) -> Seq<SpannedTokenV> {
        tokens_view(self.tokens@)
    }

    /// The index of the next token.
    pub closed spec fn pos(&self) -> int {
        self.position as int
    }

    pub closed spec fn inv(&self) -> bool {
        self.position <= self.tokens@.len()
    }

    /// A parser at the first of `tokens`.
    pub fn new(tokens: Vec<SpannedToken>) -> (r: Self)
        ensures
            r.ts() == tokens_view(tokens@),
            r.pos() == 0,
            r.inv(),
    {
        Self { tokens, position: 0 }
    }

    fn current_token(&self) -> (r: Option<&Token>)
        requires
            self.inv(),
        ensures
            match r {
                Some(t) => self.pos() < self.ts().len() && t@ == self.ts()[self.pos()].token,
                None => self.pos() >= self.ts().len(),
            },
    {
        if self.position < self.tokens.len() {
            Some(&self.tokens[self.position].token)
        } else {
            None
        }
    }

    fn current_pos(&self) -> (r: Position)
        requires
            self.inv(),
        ensures
            r == pos_of(self.ts(), self.pos()),
    {
        if self.position < self.tokens.len() {
            self.tokens[self.position].pos
        } else {
            Position::new(1, 1)
        }
    }

    fn advance(&mut self)
        requires
            old(self).inv(),
        ensures
            final(self).inv(),
            final(self).ts() == old(self).ts(),
            final(self).pos() == (if old(self).pos() < old(self).ts().len() {
                old(self).pos() + 1
            } else {
                old(self).pos()
            }),
    {
        if self.position < self.tokens.len() {
            self.position = self.position + 1;
        }
    }

    fn error(&self, msg: &str) -> (r: String)
        requires
            self.inv(),
        ensures
            r@ == parse_error_text(self.ts(), (self.pos(), msg@)),
    {
        let pos = self.current_pos();
        syntax_error(pos.line, pos.column, &str_chars(msg))
    }

    /// Consumes the current token when `ok` (the caller's test of it), else
    /// reports `msg` at it.
    fn expect(&mut self, ok: bool, msg: &str) -> (r: Result<(), String>)
        requires
            old(self).inv(),
            ok ==> old(self).pos() < old(self).ts().len(),
        ensures
            final(self).inv(),
            final(self).ts() == old(self).ts(),
            ok ==> r is Ok && final(self).pos() == old(self).pos() + 1,
            !ok ==> r is Err && r->Err_0@ == parse_error_text(old(self).ts(), (old(self).pos(), msg@)),
    {
        if ok {
            self.advance();
            Ok(())
        } else {
            Err(self.error(msg))
        }
    }

    /// The type named by the current token.
    fn type_here(&mut self, unknown: &str, missing: &str) -> (r: Result<Type, String>)
        requires
            old(self).inv(),
        ensures
            final(self).inv(),
            final(self).ts() == old(self).ts(),
            match type_at(old(self).ts(), old(self).pos(), unknown@, missing@) {
                Ok(t) => r == Ok::<Type, String>(t) && final(self).pos() == old(self).pos() + 1,
                Err(f) => r is Err && r->Err_0@ == parse_error_text(old(self).ts(), f),
            },
    {
        let t = match self.current_token() {
            Some(Token::Identifier(name)) => type_from_name(name),
            _ => {
                return Err(self.error(missing));
            },
        };
        match t {
            Some(ty) => {
                self.advance();
                Ok(ty)
            },
            None => Err(self.error(unknown)),
        }
    }

    fn parse_expr(&mut self) -> (r: Result<Expr, String>)
        requires
            old(self).inv(),
        ensures
            final(self).inv(),
            final(self).ts() == old(self).ts(),
            r is Ok ==> old(self).pos() < final(self).pos(),
            match parse_expr(old(self).ts(), old(self).pos()) {
                Ok((e, q)) => r is Ok && r->Ok_0@ == e && final(self).pos() == q,
                Err(f) => r is Err && r->Err_0@ == parse_error_text(old(self).ts(), f),
            },
        decreases old(self).ts().len() - old(self).pos(), 6int,
    {
        self.parse_prec(0)
    }

    fn parse_prec(&mut self, m: u8) -> (r: Result<Expr, String>)
        requires
            old(self).inv(),
        ensures
            final(self).inv(),
            final(self).ts() == old(self).ts(),
            r is Ok ==> old(self).pos() < final(self).pos(),
            match parse_prec(old(self).ts(), old(self).pos(), m) {
                Ok((e, q)) => r is Ok && r->Ok_0@ == e && final(self).pos() == q,
                Err(f) => r is Err && r->Err_0@ == parse_error_text(old(self).ts(), f),
            },
        decreases old(self).ts().len() - old(self).pos(), 5int,
    {
        let left = self.parse_primary()?;
        self.climb(left, m)
    }

    fn climb(&mut self, left: Expr, m: u8) -> (r: Result<Expr, String>)
        requires
            old(self).inv(),
        ensures
            final(self).inv(),
            final(self).ts() == old(self).ts(),
            r is Ok ==> old(self).pos() <= final(self).pos(),
            match climb(old(self).ts(), old(self).pos(), left@, m) {
                Ok((e, q)) => r is Ok && r->Ok_0@ == e && final(self).pos() == q,
                Err(f) => r is Err && r->Err_0@ == parse_error_text(old(self).ts(), f),
            },
        decreases old(self).ts().len() - old(self).pos(), 4int,
    {
        let op = match self.current_token() {
            None => {
                return Ok(left);
            },
            Some(t) => binop_token(t),
        };
        let (op, prec) = match op {
            None => {
                return Ok(left);
            },
            Some(x) => x,
        };
        if prec < m {
            return Ok(left);
        }
        self.advance();
        let right = self.parse_prec(prec + 1)?;
        let e = Expr::BinaryOp(Box::new(left), op, Box::new(right));
        proof {
            assert(e@ == ExprV::BinaryOp(Box::new(left@), op, Box::new(right@)));
        }
        self.climb(e, m)
    }

    fn parse_primary(&mut self) -> (r: Result<Expr, String>)
        requires
            old(self).inv(),
        ensures
            final(self).inv(),
            final(self).ts() == old(self).ts(),
            r is Ok ==> old(self).pos() < final(self).pos(),
            match parse_primary(old(self).ts(), old(self).pos()) {
                Ok((e, q)) => r is Ok && r->Ok_0@ == e && final(self).pos() == q,
                Err(f) => r is Err && r->Err_0@ == parse_error_text(old(self).ts(), f),
            },
        decreases old(self).ts().len() - old(self).pos(), 3int,
    {
        let first: Expr = match self.current_token() {
            Some(Token::IntLiteral(v)) => Expr::IntLiteral(*v),
            Some(Token::FloatLiteral(v)) => Expr::FloatLiteral(v.clone()),
            Some(Token::StringLiteral(v)) => Expr::StringLiteral(v.clone()),
            Some(Token::Identifier(v)) => Expr::Identifier(v.clone()),
            Some(Token::LParen) => {
                self.advance();
                let inner = self.parse_expr()?;
                let ok = matches!(self.current_token(), Some(Token::RParen));
                self.expect(ok, "Expected ')' after parenthesized expression")?;
                return self.parse_postfix(inner);
            },
            _ => {
                return Err(self.error("Unexpected token in expression"));
            },
        };
        self.advance();
        let name = match first {
            Expr::Identifier(v) => v,
            _ => {
                return self.parse_postfix(first);
            },
        };
        let is_macro = matches!(self.current_token(), Some(Token::Bang));
        if is_macro {
            self.advance();
        }
        if matches!(self.current_token(), Some(Token::LParen)) {
            self.advance();
            let args = self.call_args("Expected ')' after function arguments")?;
            let e = if is_macro { Expr::MacroCall(name, args) } else { Expr::Call(name, args) };
            self.parse_postfix(e)
        } else {
            self.parse_postfix(Expr::Identifier(name))
        }
    }

    fn parse_postfix(&mut self, e: Expr) -> (r: Result<Expr, String>)
        requires
            old(self).inv(),
        ensures
            final(self).inv(),
            final(self).ts() == old(self).ts(),
            r is Ok ==> old(self).pos() <= final(self).pos(),
            match parse_postfix(old(self).ts(), old(self).pos(), e@) {
                Ok((e2, q)) => r is Ok && r->Ok_0@ == e2 && final(self).pos() == q,
                Err(f) => r is Err && r->Err_0@ == parse_error_text(old(self).ts(), f),
            },
        decreases old(self).ts().len() - old(self).pos(), 2int,
    {
        if !matches!(self.current_token(), Some(Token::Dot)) {
            return Ok(e);
        }
        self.advance();
        let name = match self.current_token() {
            Some(Token::Identifier(n)) => n.clone(),
            _ => {
                return Err(self.error("Expected method name after '.'"));
            },
        };
        self.advance();
        let is_macro = matches!(self.current_token(), Some(Token::Bang));
        if is_macro {
            self.advance();
        }
        if !matches!(self.current_token(), Some(Token::LParen)) {
            return Err(self.error("Expected '(' after method name"));
        }
        self.advance();
        let args = self.call_args("Expected ')' after method arguments")?;
        let e2 = if is_macro {
            Expr::MacroCall(macro_name(&e, &name), args)
        } else {
            Expr::MethodCall(Box::new(e), name, args)
        };
        self.parse_postfix(e2)
    }

    fn call_args(&mut self, close_msg: &str) -> (r: Result<Vec<Expr>, String>)
        requires
            old(self).inv(),
        ensures
            final(self).inv(),
            final(self).ts() == old(self).ts(),
            r is Ok ==> old(self).pos() < final(self).pos(),
            match call_args(old(self).ts(), old(self).pos(), close_msg@) {
                Ok((args, q)) => r is Ok && exprs_view(r->Ok_0@) == args && final(self).pos() == q,
                Err(f) => r is Err && r->Err_0@ == parse_error_text(old(self).ts(), f),
            },
        decreases old(self).ts().len() - old(self).pos(), 8int,
    {
        if matches!(self.current_token(), Some(Token::RParen)) {
            self.advance();
            let v: Vec<Expr> = Vec::new();
            proof {
                assert(exprs_view(v@) =~= Seq::<ExprV>::empty());
            }
            return Ok(v);
        }
        let args = self.arg_list()?;
        let ok = matches!(self.current_token(), Some(Token::RParen));
        self.expect(ok, close_msg)?;
        Ok(args)
    }

    fn arg_list(&mut self) -> (r: Result<Vec<Expr>, String>)
        requires
            old(self).inv(),
        ensures
            final(self).inv(),
            final(self).ts() == old(self).ts(),
            r is Ok ==> old(self).pos() < final(self).pos(),
            match arg_list(old(self).ts(), old(self).pos()) {
                Ok((args, q)) => r is Ok && exprs_view(r->Ok_0@) == args && final(self).pos() == q,
                Err(f) => r is Err && r->Err_0@ == parse_error_text(old(self).ts(), f),
            },
        decreases old(self).ts().len() - old(self).pos(), 7int,
    {
        let e = self.parse_expr()?;
        let ghost ev = e@;
        let mut out: Vec<Expr> = Vec::new();
        out.push(e);
        if matches!(self.current_token(), Some(Token::Comma)) {
            self.advance();
            let mut rest = self.arg_list()?;
            let ghost rv = exprs_view(rest@);
            out.append(&mut rest);
            proof {
                assert(exprs_view(out@) =~= seq![ev] + rv);
            }
            Ok(out)
        } else {
            proof {
                assert(exprs_view(out@) =~= seq![ev]);
            }
            Ok(out)
        }
    }
}

impl Parser {
    fn params(&mut self) -> (r: Result<Vec<(String, Type)>, String>)
        requires
            old(self).inv(),
        ensures
            final(self).inv(),
            final(self).ts() == old(self).ts(),
            r is Ok ==> old(self).pos() < final(self).pos(),
            match params(old(self).ts(), old(self).pos()) {
                Ok((ps, q)) => r is Ok && params_view(r->Ok_0@) == ps && final(self).pos() == q,
                Err(f) => r is Err && r->Err_0@ == parse_error_text(old(self).ts(), f),
            },
        decreases old(self).ts().len() - old(self).pos(),
    {
        let name = match self.current_token() {
            Some(Token::Identifier(n)) => n.clone(),
            _ => {
                return Err(self.error("Expected argument name"));
            },
        };
        self.advance();
        let ok = matches!(self.current_token(), Some(Token::Colon));
        self.expect(ok, "Expected ':' after argument name")?;
        let ty = self.type_here("Unknown type", "Expected type for argument")?;
        let ghost head = (name@, ty);
        let mut out: Vec<(String, Type)> = Vec::new();
        out.push((name, ty));
        if matches!(self.current_token(), Some(Token::Comma)) {
            self.advance();
            let mut rest = self.params()?;
            let ghost rv = params_view(rest@);
            out.append(&mut rest);
            proof {
                assert(params_view(out@) =~= seq![head] + rv);
            }
            Ok(out)
        } else {
            proof {
                assert(params_view(out@) =~= seq![head]);
            }
            Ok(out)
        }
    }

    /// Statements up to the end of a block (or of the program, for `top`).
    fn parse_items(&mut self, top: bool) -> (r: Result<Vec<Statement>, String>)
        requires
            old(self).inv(),
        ensures
            final(self).inv(),
            final(self).ts() == old(self).ts(),
            r is Ok ==> old(self).pos() <= final(self).pos(),
            match parse_items(old(self).ts(), old(self).pos(), top) {
                Ok((ss, q)) => r is Ok && stmts_view(r->Ok_0@) == ss && final(self).pos() == q,
                Err(f) => r is Err && r->Err_0@ == parse_error_text(old(self).ts(), f),
            },
        decreases old(self).ts().len() - old(self).pos(), 10int,
    {
        let mut out: Vec<Statement> = Vec::new();
        loop
            invariant
                self.inv(),
                self.ts() == old(self).ts(),
                old(self).pos() <= self.pos(),
                parse_items(old(self).ts(), old(self).pos(), top) == match parse_items(
                    self.ts(),
                    self.pos(),
                    top,
                ) {
                    Ok((rest, q)) => Ok((stmts_view(out@) + rest, q)),
                    Err(f) => Err::<(Seq<StmtV>, int), ParseFail>(f),
                },
            decreases self.ts().len() - self.pos(),
        {
            let stop = match self.current_token() {
                None => top,
                Some(Token::EOF) => true,
                Some(Token::RBrace) => !top,
                _ => false,
            };
            if stop {
                proof {
                    assert(stmts_view(out@) + Seq::<StmtV>::empty() =~= stmts_view(out@));
                }
                return Ok(out);
            }
            let s = self.parse_statement()?;
            let ghost before = stmts_view(out@);
            let ghost sv = s@;
            out.push(s);
            proof {
                assert(stmts_view(out@) =~= before.push(sv));
                match parse_items(self.ts(), self.pos(), top) {
                    Ok((rest, q)) => {
                        assert(before + (seq![sv] + rest) =~= stmts_view(out@) + rest);
                    },
                    Err(_) => {},
                }
            }
        }
    }

    fn parse_block(&mut self, close_msg: &str) -> (r: Result<Vec<Statement>, String>)
        requires
            old(self).inv(),
        ensures
            final(self).inv(),
            final(self).ts() == old(self).ts(),
            r is Ok ==> old(self).pos() < final(self).pos(),
            match parse_block(old(self).ts(), old(self).pos(), close_msg@) {
                Ok((ss, q)) => r is Ok && stmts_view(r->Ok_0@) == ss && final(self).pos() == q,
                Err(f) => r is Err && r->Err_0@ == parse_error_text(old(self).ts(), f),
            },
        decreases old(self).ts().len() - old(self).pos(), 11int,
    {
        let body = self.parse_items(false)?;
        let ok = matches!(self.current_token(), Some(Token::RBrace));
        self.expect(ok, close_msg)?;
        Ok(body)
    }

    fn parse_statement(&mut self) -> (r: Result<Statement, String>)
        requires
            old(self).inv(),
        ensures
            final(self).inv(),
            final(self).ts() == old(self).ts(),
            r is Ok ==> old(self).pos() < final(self).pos(),
            match parse_statement(old(self).ts(), old(self).pos()) {
                Ok((st, q)) => r is Ok && r->Ok_0@ == st && final(self).pos() == q,
                Err(f) => r is Err && r->Err_0@ == parse_error_text(old(self).ts(), f),
            },
        decreases old(self).ts().len() - old(self).pos(), 9int,
    {
        match self.current_token() {
            Some(Token::Let) => self.parse_let(),
            Some(Token::If) => self.parse_if(),
            Some(Token::While) => self.parse_while(),
            Some(Token::Return) => self.parse_return(),
            Some(Token::Fn) => self.parse_function(),
            _ => self.parse_expr_statement(),
        }
    }

    fn parse_let(&mut self) -> (r: Result<Statement, String>)
        requires
            old(self).inv(),
            is_at(old(self).ts(), old(self).pos(), TokenV::Let),
        ensures
            final(self).inv(),
            final(self).ts() == old(self).ts(),
            r is Ok ==> old(self).pos() < final(self).pos(),
            match parse_let(old(self).ts(), old(self).pos()) {
                Ok((st, q)) => r is Ok && r->Ok_0@ == st && final(self).pos() == q,
                Err(f) => r is Err && r->Err_0@ == parse_error_text(old(self).ts(), f),
            },
        decreases old(self).ts().len() - old(self).pos(), 8int,
    {
        self.advance();
        let name = match self.current_token() {
            Some(Token::Identifier(n)) => n.clone(),
            _ => {
                return Err(self.error("Expected identifier after 'let'"));
            },
        };
        self.advance();
        let mut ty = Type::Int;
        if matches!(self.current_token(), Some(Token::Colon)) {
            self.advance();
            ty = self.type_here("Unknown type", "Expected type name after ':'")?;
        }
        let ok = matches!(self.current_token(), Some(Token::Equal));
        self.expect(ok, "Expected '=' in let declaration")?;
        let e = self.parse_expr()?;
        let ok = matches!(self.current_token(), Some(Token::Semicolon));
        self.expect(ok, "Expected ';' after let declaration")?;
        Ok(Statement::LetDecl(name, ty, e))
    }

    fn parse_if(&mut self) -> (r: Result<Statement, String>)
        requires
            old(self).inv(),
            is_at(old(self).ts(), old(self).pos(), TokenV::If),
        ensures
            final(self).inv(),
            final(self).ts() == old(self).ts(),
            r is Ok ==> old(self).pos() < final(self).pos(),
            match parse_if(old(self).ts(), old(self).pos()) {
                Ok((st, q)) => r is Ok && r->Ok_0@ == st && final(self).pos() == q,
                Err(f) => r is Err && r->Err_0@ == parse_error_text(old(self).ts(), f),
            },
        decreases old(self).ts().len() - old(self).pos(), 8int,
    {
        self.advance();
        let c = self.parse_expr()?;
        let ok = matches!(self.current_token(), Some(Token::LBrace));
        self.expect(ok, "Expected '{' after if condition")?;
        let then_b = self.parse_block("Expected '}' at end of if block")?;
        if matches!(self.current_token(), Some(Token::Else)) {
            self.advance();
            let ok = matches!(self.current_token(), Some(Token::LBrace));
            self.expect(ok, "Expected '{' after else")?;
            let else_b = self.parse_block("Expected '}' at end of else block")?;
            return Ok(Statement::If(c, then_b, else_b));
        }
        let empty: Vec<Statement> = Vec::new();
        proof {
            assert(stmts_view(empty@) =~= Seq::<StmtV>::empty());
        }
        Ok(Statement::If(c, then_b, empty))
    }

    fn parse_while(&mut self) -> (r: Result<Statement, String>)
        requires
            old(self).inv(),
            is_at(old(self).ts(), old(self).pos(), TokenV::While),
        ensures
            final(self).inv(),
            final(self).ts() == old(self).ts(),
            r is Ok ==> old(self).pos() < final(self).pos(),
            match parse_while(old(self).ts(), old(self).pos()) {
                Ok((st, q)) => r is Ok && r->Ok_0@ == st && final(self).pos() == q,
                Err(f) => r is Err && r->Err_0@ == parse_error_text(old(self).ts(), f),
            },
        decreases old(self).ts().len() - old(self).pos(), 8int,
    {
        self.advance();
        let c = self.parse_expr()?;
        let ok = matches!(self.current_token(), Some(Token::LBrace));
        self.expect(ok, "Expected '{' after while condition")?;
        let body = self.parse_block("Expected '}' at end of while block")?;
        Ok(Statement::While(c, body))
    }

    fn parse_return(&mut self) -> (r: Result<Statement, String>)
        requires
            old(self).inv(),
            is_at(old(self).ts(), old(self).pos(), TokenV::Return),
        ensures
            final(self).inv(),
            final(self).ts() == old(self).ts(),
            r is Ok ==> old(self).pos() < final(self).pos(),
            match parse_return(old(self).ts(), old(self).pos()) {
                Ok((st, q)) => r is Ok && r->Ok_0@ == st && final(self).pos() == q,
                Err(f) => r is Err && r->Err_0@ == parse_error_text(old(self).ts(), f),
            },
        decreases old(self).ts().len() - old(self).pos(), 8int,
    {
        self.advance();
        if matches!(self.current_token(), Some(Token::Semicolon)) {
            self.advance();
            return Ok(Statement::Return(None));
        }
        let e = self.parse_expr()?;
        let ok = matches!(self.current_token(), Some(Token::Semicolon));
        self.expect(ok, "Expected ';' after return value")?;
        Ok(Statement::Return(Some(e)))
    }

    fn parse_expr_statement(&mut self) -> (r: Result<Statement, String>)
        requires
            old(self).inv(),
        ensures
            final(self).inv(),
            final(self).ts() == old(self).ts(),
            r is Ok ==> old(self).pos() < final(self).pos(),
            match parse_expr_statement(old(self).ts(), old(self).pos()) {
                Ok((st, q)) => r is Ok && r->Ok_0@ == st && final(self).pos() == q,
                Err(f) => r is Err && r->Err_0@ == parse_error_text(old(self).ts(), f),
            },
        decreases old(self).ts().len() - old(self).pos(), 8int,
    {
        let e = self.parse_expr()?;
        let op: Option<Option<BinaryOperator>> = match self.current_token() {
            Some(Token::Equal) => Some(None),
            Some(Token::PlusEqual) => Some(Some(BinaryOperator::Add)),
            Some(Token::MinusEqual) => Some(Some(BinaryOperator::Sub)),
            _ => None,
        };
        match op {
            None => {
                let ok = matches!(self.current_token(), Some(Token::Semicolon));
                self.expect(ok, "Expected ';' after expression")?;
                Ok(Statement::ExprStmt(e))
            },
            Some(o) => {
                self.advance();
                let name = match e {
                    Expr::Identifier(n) => n,
                    _ => {
                        return Err(self.error("Invalid assignment target"));
                    },
                };
                let v = self.parse_expr()?;
                let ok = matches!(self.current_token(), Some(Token::Semicolon));
                self.expect(ok, "Expected ';' after assignment")?;
                match o {
                    None => Ok(Statement::Assign(name, v)),
                    Some(bop) => {
                        let target = Expr::Identifier(name.clone());
                        Ok(Statement::Assign(name, Expr::BinaryOp(Box::new(target), bop, Box::new(v))))
                    },
                }
            },
        }
    }

    fn fn_params(&mut self) -> (r: Result<Vec<(String, Type)>, String>)
        requires
            old(self).inv(),
        ensures
            final(self).inv(),
            final(self).ts() == old(self).ts(),
            r is Ok ==> old(self).pos() < final(self).pos(),
            match fn_params(old(self).ts(), old(self).pos()) {
                Ok((ps, q)) => r is Ok && params_view(r->Ok_0@) == ps && final(self).pos() == q,
                Err(f) => r is Err && r->Err_0@ == parse_error_text(old(self).ts(), f),
            },
    {
        if matches!(self.current_token(), Some(Token::RParen)) {
            self.advance();
            let v: Vec<(String, Type)> = Vec::new();
            proof {
                assert(params_view(v@) =~= Seq::<(Seq<char>, Type)>::empty());
            }
            return Ok(v);
        }
        let v = self.params()?;
        let ok = matches!(self.current_token(), Some(Token::RParen));
        self.expect(ok, "Expected ')' after parameters")?;
        Ok(v)
    }

    fn next_is_gt(&self) -> (r: bool)
        requires
            self.inv(),
        ensures
            r == is_at(self.ts(), self.pos() + 1, TokenV::Gt),
    {
        self.position < self.tokens.len() && self.position + 1 < self.tokens.len() && matches!(
            self.tokens[self.position + 1].token,
            Token::Gt
        )
    }

    fn fn_return(&mut self) -> (r: Result<Type, String>)
        requires
            old(self).inv(),
        ensures
            final(self).inv(),
            final(self).ts() == old(self).ts(),
            r is Ok ==> old(self).pos() <= final(self).pos(),
            match fn_return(old(self).ts(), old(self).pos()) {
                Ok((t, q)) => r == Ok::<Type, String>(t) && final(self).pos() == q,
                Err(f) => r is Err && r->Err_0@ == parse_error_text(old(self).ts(), f),
            },
    {
        let has_arrow = if matches!(self.current_token(), Some(Token::Arrow)) {
            self.advance();
            true
        } else if matches!(self.current_token(), Some(Token::Minus)) && self.next_is_gt() {
            self.advance();
            self.advance();
            true
        } else {
            false
        };
        if has_arrow {
            self.type_here("Unknown return type", "Expected return type after '->'")
        } else {
            Ok(Type::Void)
        }
    }

    fn parse_function(&mut self) -> (r: Result<Statement, String>)
        requires
            old(self).inv(),
            is_at(old(self).ts(), old(self).pos(), TokenV::Fn),
        ensures
            final(self).inv(),
            final(self).ts() == old(self).ts(),
            r is Ok ==> old(self).pos() < final(self).pos(),
            match parse_function(old(self).ts(), old(self).pos()) {
                Ok((st, q)) => r is Ok && r->Ok_0@ == st && final(self).pos() == q,
                Err(f) => r is Err && r->Err_0@ == parse_error_text(old(self).ts(), f),
            },
        decreases old(self).ts().len() - old(self).pos(), 8int,
    {
        self.advance();
        let name = match self.current_token() {
            Some(Token::Identifier(n)) => n.clone(),
            _ => {
                return Err(self.error("Expected function name"));
            },
        };
        self.advance();
        let ok = matches!(self.current_token(), Some(Token::LParen));
        self.expect(ok, "Expected '(' after function name")?;
        let ps = self.fn_params()?;
        let ret = self.fn_return()?;
        let ok = matches!(self.current_token(), Some(Token::LBrace));
        self.expect(ok, "Expected '{' after function signature")?;
        let body = self.parse_block("Expected '}' at end of function body")?;
        Ok(Statement::FunctionDecl(name, ps, ret, body))
    }

    /// Parses the tokens from the current one to the end of the program
    /// (where the tokens run out or `EOF` comes) into its statements.
    pub fn parse(&mut self) -> (r: Result<Program, String>)
        requires
            old(self).inv(),
        ensures
            final(self).inv(),
            final(self).ts() == old(self).ts(),
            match parse_program(old(self).ts(), old(self).pos()) {
                Ok(ss) => r is Ok && r->Ok_0@ == ss,
                Err(f) => r is Err && r->Err_0@ == parse_error_text(old(self).ts(), f),
            },
    {
        let statements = self.parse_items(true)?;
        Ok(Program { statements })
    }
}

} // verus!
