//! The grammar, stated as functions from a token sequence and a position to
//! the tree parsed there and the position after it.
use vstd::prelude::*;
use crate::ast::NodeModel;
use crate::lexer::{eof_token, TokenKind, TokenModel};
use crate::ops::{BinOp, UnOp};
use crate::text::{int_literal_value, is_ascii_digit};

verus! {

/// Why a token sequence is not a program.
#[derive(Debug, Clone, Copy, PartialEq, Eq, Structural)]
pub enum ParseError {
    /// The token at `position` is not of the kind the grammar needs there.
    Expected { expected: TokenKind, position: usize },
    /// No expression starts with the token at `position`.
    Unexpected { position: usize },
    /// The number literal at `position` is not a valid 32-bit integer or float.
    BadNumber { position: usize },
}

pub type Parsed = Result<(NodeModel, int), ParseError>;

pub type ParsedList = Result<(Seq<NodeModel>, int), ParseError>;

/// The token at `pos`; past the end, an end-of-input token.
pub open spec fn cur(ts: Seq<TokenModel>, pos: int) -> TokenModel {
    if 0 <= pos < ts.len() {
        ts[pos]
    } else {
        eof_token()
    }
}

pub open spec fn kind_at(ts: Seq<TokenModel>, pos: int) -> TokenKind {
    cur(ts, pos).kind
}

/// Consumes one token of kind `k`.
pub open spec fn eat(ts: Seq<TokenModel>, pos: int, k: TokenKind) -> Result<int, ParseError> {
    if 0 <= pos < ts.len() && ts[pos].kind == k {
        Ok(pos + 1)
    } else {
        Err(ParseError::Expected { expected: k, position: pos as usize })
    }
}

/// The result where a sub-parse would not have moved forward. Every parse
/// that succeeds consumes at least one token (the parser proves it), so the
/// position checks that lead here never fail; they let the recursion of the
/// grammar be seen to terminate.
pub open spec fn stuck<T>(pos: int) -> Result<T, ParseError> {
    Err(ParseError::Unexpected { position: pos as usize })
}

pub open spec fn is_keyword_token(t: TokenModel, w: Seq<char>) -> bool {
    t.kind == TokenKind::Keyword && t.text == w
}

pub open spec fn count_dots(s: Seq<char>) -> nat
    decreases s.len(),
{
    if s.len() == 0 {
        0
    } else {
        count_dots(s.drop_last()) + if s.last() == '.' { 1nat } else { 0nat }
    }
}

/// A float literal reads as a number: ASCII digits with at most one dot,
/// and at least one digit.
pub open spec fn float_literal_ok(s: Seq<char>) -> bool {
    &&& forall|i: int| 0 <= i < s.len() ==> is_ascii_digit(#[trigger] s[i]) || s[i] == '.'
    &&& count_dots(s) <= 1
    &&& exists|i: int| 0 <= i < s.len() && is_ascii_digit(#[trigger] s[i])
}

/// `name(.name)*`, folded left into property accesses.
pub open spec fn id_statement(ts: Seq<TokenModel>, pos: int) -> Parsed
    decreases ts.len() - pos, 1nat,
{
    match eat(ts, pos, TokenKind::Identifier) {
        Err(e) => Err(e),
        Ok(p) => property_chain(ts, p, NodeModel::Id(ts[pos].text)),
    }
}

pub open spec fn property_chain(ts: Seq<TokenModel>, pos: int, acc: NodeModel) -> Parsed
    decreases ts.len() - pos, 1nat,
{
    if kind_at(ts, pos) == TokenKind::Dot {
        let name = cur(ts, pos + 1).text;
        match eat(ts, pos + 1, TokenKind::Identifier) {
            Err(e) => Err(e),
            Ok(p) => property_chain(
                ts,
                p,
                NodeModel::Property {
                    object: Box::new(acc),
                    property: Box::new(NodeModel::Id(name)),
                },
            ),
        }
    } else {
        Ok((acc, pos))
    }
}

/// `, name(.name)*` repeated.
pub open spec fn id_list_rest(ts: Seq<TokenModel>, pos: int, acc: Seq<NodeModel>) -> ParsedList
    decreases ts.len() - pos, 2nat,
{
    if kind_at(ts, pos) == TokenKind::Comma && 0 <= pos < ts.len() {
        match id_statement(ts, pos + 1) {
            Err(e) => Err(e),
            Ok((n, p)) => if pos < p <= ts.len() {
                id_list_rest(ts, p, acc.push(n))
            } else {
                stuck(pos)
            },
        }
    } else {
        Ok((acc, pos))
    }
}

/// `, expression` repeated.
pub open spec fn expr_list_rest(ts: Seq<TokenModel>, pos: int, acc: Seq<NodeModel>) -> ParsedList
    decreases ts.len() - pos, 9nat,
{
    if kind_at(ts, pos) == TokenKind::Comma && 0 <= pos < ts.len() {
        match expression(ts, pos + 1) {
            Err(e) => Err(e),
            Ok((n, p)) => if pos < p <= ts.len() {
                expr_list_rest(ts, p, acc.push(n))
            } else {
                stuck(pos)
            },
        }
    } else {
        Ok((acc, pos))
    }
}

/// `expression (, expression)*`
pub open spec fn expr_list(ts: Seq<TokenModel>, pos: int) -> ParsedList
    decreases ts.len() - pos, 10nat,
{
    match expression(ts, pos) {
        Err(e) => Err(e),
        Ok((n, p)) => if pos < p <= ts.len() {
            expr_list_rest(ts, p, seq![n])
        } else {
            stuck(pos)
        },
    }
}

/// Call arguments: empty before `)`, else a list of expressions.
pub open spec fn arguments(ts: Seq<TokenModel>, pos: int) -> ParsedList
    decreases ts.len() - pos, 11nat,
{
    if kind_at(ts, pos) == TokenKind::RParen {
        Ok((Seq::empty(), pos))
    } else {
        expr_list(ts, pos)
    }
}

/// The binary operator that level `lvl` takes for a token kind. Level 1 is
/// `* /`, 2 is `+ -`, 3 is `% ^`, 4 the comparisons, 5 `& |`.
pub open spec fn binop_at(lvl: nat, k: TokenKind) -> Option<BinOp> {
    if lvl == 1 {
        if k == TokenKind::Asterisk {
            Some(BinOp::Mul)
        } else if k == TokenKind::Division {
            Some(BinOp::Div)
        } else {
            None
        }
    } else if lvl == 2 {
        if k == TokenKind::Plus {
            Some(BinOp::Add)
        } else if k == TokenKind::Minus {
            Some(BinOp::Sub)
        } else {
            None
        }
    } else if lvl == 3 {
        if k == TokenKind::Modulus {
            Some(BinOp::Rem)
        } else if k == TokenKind::Caret {
            Some(BinOp::Caret)
        } else {
            None
        }
    } else if lvl == 4 {
        if k == TokenKind::Lt {
            Some(BinOp::Lt)
        } else if k == TokenKind::Lte {
            Some(BinOp::Le)
        } else if k == TokenKind::Gt {
            Some(BinOp::Gt)
        } else if k == TokenKind::Gte {
            Some(BinOp::Ge)
        } else if k == TokenKind::Eq {
            Some(BinOp::EqEq)
        } else if k == TokenKind::Ne {
            Some(BinOp::Ne)
        } else {
            None
        }
    } else if lvl == 5 {
        if k == TokenKind::And {
            Some(BinOp::And)
        } else if k == TokenKind::Or {
            Some(BinOp::Or)
        } else {
            None
        }
    } else {
        None
    }
}

/// An expression at precedence level `lvl`: level 0 is a primary; level
/// `n` is a left-associated chain of level `n - 1` operands.
pub open spec fn level_expr(ts: Seq<TokenModel>, pos: int, lvl: nat) -> Parsed
    decreases ts.len() - pos, 3 + lvl,
{
    if lvl == 0 {
        primary(ts, pos)
    } else {
        match level_expr(ts, pos, (lvl - 1) as nat) {
            Err(e) => Err(e),
            Ok((n, p)) => if pos < p <= ts.len() {
                level_rest(ts, p, lvl, n)
            } else {
                stuck(pos)
            },
        }
    }
}

pub open spec fn level_rest(ts: Seq<TokenModel>, pos: int, lvl: nat, acc: NodeModel) -> Parsed
    decreases ts.len() - pos, 3 + lvl,
{
    match binop_at(lvl, kind_at(ts, pos)) {
        Some(op) => if 1 <= lvl && 0 <= pos < ts.len() {
            match level_expr(ts, pos + 1, (lvl - 1) as nat) {
                Err(e) => Err(e),
                Ok((r, p)) => if pos < p <= ts.len() {
                    level_rest(
                        ts,
                        p,
                        lvl,
                        NodeModel::Binary { left: Box::new(acc), op, right: Box::new(r) },
                    )
                } else {
                    stuck(pos)
                },
            }
        } else {
            stuck(pos)
        },
        None => Ok((acc, pos)),
    }
}

pub open spec fn expression(ts: Seq<TokenModel>, pos: int) -> Parsed
    decreases ts.len() - pos, 9nat,
{
    level_expr(ts, pos, 5)
}

pub open spec fn prefix_op(k: TokenKind) -> Option<UnOp> {
    if k == TokenKind::Plus {
        Some(UnOp::Plus)
    } else if k == TokenKind::Minus {
        Some(UnOp::Minus)
    } else if k == TokenKind::Negate {
        Some(UnOp::Not)
    } else {
        None
    }
}

pub open spec fn keyword_literal(w: Seq<char>) -> NodeModel {
    if w == seq!['N', 'o', 'n', 'e'] {
        NodeModel::NoneLit
    } else if w == seq!['T', 'r', 'u', 'e'] {
        NodeModel::Bool(true)
    } else if w == seq!['F', 'a', 'l', 's', 'e'] {
        NodeModel::Bool(false)
    } else {
        NodeModel::Flow(w)
    }
}

/// Literals, names with their suffixes, parenthesised expressions, list
/// literals, the default arm of a `match`, and prefix operators.
pub open spec fn primary(ts: Seq<TokenModel>, pos: int) -> Parsed
    decreases ts.len() - pos, 2nat,
{
    let t = cur(ts, pos);
    if 0 <= pos < ts.len() {
        if t.kind == TokenKind::Identifier {
            match id_statement(ts, pos) {
                Err(e) => Err(e),
                Ok((var, p)) => if pos < p <= ts.len() {
                    let k = kind_at(ts, p);
                    if k == TokenKind::LParen || k == TokenKind::LBracket || k == TokenKind::Increment
                        || k == TokenKind::Decrement {
                        factor_suffix(ts, p, var)
                    } else {
                        Ok((var, p))
                    }
                } else {
                    stuck(pos)
                },
            }
        } else if t.kind == TokenKind::Integer {
            match int_literal_value(t.text) {
                Some(v) => Ok((NodeModel::Integer(v), pos + 1)),
                None => Err(ParseError::BadNumber { position: pos as usize }),
            }
        } else if t.kind == TokenKind::Float {
            if float_literal_ok(t.text) {
                Ok((NodeModel::Float(t.text), pos + 1))
            } else {
                Err(ParseError::BadNumber { position: pos as usize })
            }
        } else if t.kind == TokenKind::Str {
            Ok((NodeModel::Str(t.text), pos + 1))
        } else if t.kind == TokenKind::Keyword {
            Ok((keyword_literal(t.text), pos + 1))
        } else if t.kind == TokenKind::LParen {
            match expression(ts, pos + 1) {
                Err(e) => Err(e),
                Ok((e, p)) => match eat(ts, p, TokenKind::RParen) {
                    Err(err) => Err(err),
                    Ok(pos2) => Ok((e, pos2)),
                },
            }
        } else if t.kind == TokenKind::LBracket {
            if kind_at(ts, pos + 1) == TokenKind::RBracket {
                Ok((NodeModel::List(Seq::empty()), pos + 2))
            } else {
                match expr_list(ts, pos + 1) {
                    Err(e) => Err(e),
                    Ok((items, p)) => match eat(ts, p, TokenKind::RBracket) {
                        Err(e) => Err(e),
                        Ok(pos2) => Ok((NodeModel::List(items), pos2)),
                    },
                }
            }
        } else if t.kind == TokenKind::DotDot {
            match eat(ts, pos + 1, TokenKind::Arrow) {
                Err(e) => Err(e),
                Ok(p) => match block(ts, p) {
                    Err(e) => Err(e),
                    Ok((b, pos2)) => Ok(
                        (
                            NodeModel::Case { condition: Box::new(NodeModel::Default), block: b },
                            pos2,
                        ),
                    ),
                },
            }
        } else {
            match prefix_op(t.kind) {
                Some(op) => match expression(ts, pos + 1) {
                    Err(e) => Err(e),
                    Ok((e, p)) => Ok((NodeModel::Unary { operator: op, operand: Box::new(e) }, p)),
                },
                None => stuck(pos),
            }
        }
    } else {
        stuck(pos)
    }
}

/// A call, an index, or `++`/`--` (which must be followed by `;`) after a name.
pub open spec fn factor_suffix(ts: Seq<TokenModel>, pos: int, target: NodeModel) -> Parsed
    decreases ts.len() - pos, 2nat,
{
    let k = kind_at(ts, pos);
    if 0 <= pos < ts.len() {
        if k == TokenKind::LParen {
            match arguments(ts, pos + 1) {
                Err(e) => Err(e),
                Ok((args, p)) => match eat(ts, p, TokenKind::RParen) {
                    Err(e) => Err(e),
                    Ok(pos2) => Ok((NodeModel::Call { name: Box::new(target), args }, pos2)),
                },
            }
        } else if k == TokenKind::LBracket {
            match expression(ts, pos + 1) {
                Err(e) => Err(e),
                Ok((i, p)) => match eat(ts, p, TokenKind::RBracket) {
                    Err(e) => Err(e),
                    Ok(pos2) => Ok(
                        (NodeModel::Index { object: Box::new(target), index: Box::new(i) }, pos2),
                    ),
                },
            }
        } else {
            let (step, op) = if k == TokenKind::Increment {
                (TokenKind::Increment, UnOp::Increment)
            } else {
                (TokenKind::Decrement, UnOp::Decrement)
            };
            match eat(ts, pos, step) {
                Err(e) => Err(e),
                Ok(p) => match eat(ts, p, TokenKind::Semi) {
                    Err(e) => Err(e),
                    Ok(pos2) => Ok((NodeModel::Unary { operator: op, operand: Box::new(target) }, pos2)),
                },
            }
        }
    } else {
        stuck(pos)
    }
}

pub open spec fn word_class() -> Seq<char> { seq!['c', 'l', 'a', 's', 's'] }
pub open spec fn word_fn() -> Seq<char> { seq!['f', 'n'] }
pub open spec fn word_while() -> Seq<char> { seq!['w', 'h', 'i', 'l', 'e'] }
pub open spec fn word_for() -> Seq<char> { seq!['f', 'o', 'r'] }
pub open spec fn word_if() -> Seq<char> { seq!['i', 'f'] }
pub open spec fn word_else() -> Seq<char> { seq!['e', 'l', 's', 'e'] }
pub open spec fn word_match() -> Seq<char> { seq!['m', 'a', 't', 'c', 'h'] }
pub open spec fn word_let() -> Seq<char> { seq!['l', 'e', 't'] }
pub open spec fn word_rn() -> Seq<char> { seq!['r', 'n'] }
pub open spec fn word_parent() -> Seq<char> { seq!['p', 'a', 'r', 'e', 'n', 't'] }
pub open spec fn word_use() -> Seq<char> { seq!['u', 's', 'e'] }

/// `{ statement* }`
pub open spec fn block(ts: Seq<TokenModel>, pos: int) -> ParsedList
    decreases ts.len() - pos, 16nat,
{
    match eat(ts, pos, TokenKind::LBrace) {
        Err(e) => Err(e),
        Ok(p) => block_rest(ts, p, Seq::empty()),
    }
}

pub open spec fn block_rest(ts: Seq<TokenModel>, pos: int, acc: Seq<NodeModel>) -> ParsedList
    decreases ts.len() - pos, 16nat,
{
    if kind_at(ts, pos) == TokenKind::RBrace && 0 <= pos < ts.len() {
        Ok((acc, pos + 1))
    } else {
        match statement(ts, pos) {
            Err(e) => Err(e),
            Ok((s, p)) => if pos < p <= ts.len() {
                block_rest(ts, p, acc.push(s))
            } else {
                stuck(pos)
            },
        }
    }
}

/// A statement: dispatched on a leading keyword; otherwise an expression,
/// optionally closed by `;`.
pub open spec fn statement(ts: Seq<TokenModel>, pos: int) -> Parsed
    decreases ts.len() - pos, 15nat,
{
    let t = cur(ts, pos);
    if t.kind == TokenKind::Keyword && t.text == word_class() {
        class_declaration(ts, pos)
    } else if t.kind == TokenKind::Keyword && t.text == word_fn() {
        function_declaration(ts, pos)
    } else if t.kind == TokenKind::Keyword && t.text == word_while() {
        while_loop(ts, pos)
    } else if t.kind == TokenKind::Keyword && t.text == word_for() {
        for_loop(ts, pos)
    } else if t.kind == TokenKind::Keyword && t.text == word_if() {
        if_statement(ts, pos)
    } else if t.kind == TokenKind::Keyword && t.text == word_match() {
        match_statement(ts, pos)
    } else if t.kind == TokenKind::Keyword && t.text == word_let() {
        variable_declaration(ts, pos)
    } else if t.kind == TokenKind::Keyword && t.text == word_rn() {
        return_statement(ts, pos)
    } else if t.kind == TokenKind::Keyword && t.text == word_parent() {
        parent_initialisation(ts, pos)
    } else if t.kind == TokenKind::Keyword && t.text == word_use() {
        use_statement(ts, pos)
    } else {
        match expression(ts, pos) {
            Err(e) => Err(e),
            Ok((e, p)) => if kind_at(ts, p) == TokenKind::Semi {
                Ok((e, p + 1))
            } else {
                Ok((e, p))
            },
        }
    }
}

/// `use name (, name)* ;`
pub open spec fn use_statement(ts: Seq<TokenModel>, pos: int) -> Parsed
    decreases ts.len() - pos, 11nat,
{
    match eat(ts, pos, TokenKind::Keyword) {
        Err(e) => Err(e),
        Ok(p) => match id_statement(ts, p) {
            Err(e) => Err(e),
            Ok((m, pos2)) => if pos < pos2 <= ts.len() {
                match id_list_rest(ts, pos2, seq![m]) {
                    Err(e) => Err(e),
                    Ok((ms, pos3)) => match eat(ts, pos3, TokenKind::Semi) {
                        Err(e) => Err(e),
                        Ok(pos4) => Ok((NodeModel::Use(ms), pos4)),
                    },
                }
            } else {
                stuck(pos)
            },
        },
    }
}

/// `parent name ( arguments )`
pub open spec fn parent_initialisation(ts: Seq<TokenModel>, pos: int) -> Parsed
    decreases ts.len() - pos, 11nat,
{
    match eat(ts, pos, TokenKind::Keyword) {
        Err(e) => Err(e),
        Ok(p) => match id_statement(ts, p) {
            Err(e) => Err(e),
            Ok((name, pos2)) => match eat(ts, pos2, TokenKind::LParen) {
                Err(e) => Err(e),
                Ok(pos3) => if pos < pos3 <= ts.len() {
                    match arguments(ts, pos3) {
                        Err(e) => Err(e),
                        Ok((args, pos4)) => match eat(ts, pos4, TokenKind::RParen) {
                            Err(e) => Err(e),
                            Ok(pos5) => Ok((NodeModel::Parent { name: Box::new(name), args }, pos5)),
                        },
                    }
                } else {
                    stuck(pos)
                },
            },
        },
    }
}

/// `rn ;` or `rn expression (, expression)* ;`
pub open spec fn return_statement(ts: Seq<TokenModel>, pos: int) -> Parsed
    decreases ts.len() - pos, 11nat,
{
    match eat(ts, pos, TokenKind::Keyword) {
        Err(e) => Err(e),
        Ok(p) => if kind_at(ts, p) == TokenKind::Semi && p < ts.len() {
            Ok((NodeModel::Return(Seq::empty()), p + 1))
        } else {
            match expr_list(ts, p) {
                Err(e) => Err(e),
                Ok((items, pos2)) => match eat(ts, pos2, TokenKind::Semi) {
                    Err(e) => Err(e),
                    Ok(pos3) => Ok((NodeModel::Return(items), pos3)),
                },
            }
        },
    }
}

/// `match name { expression => block (, expression => block)* [, .. => block] }`
pub open spec fn match_statement(ts: Seq<TokenModel>, pos: int) -> Parsed
    decreases ts.len() - pos, 11nat,
{
    match eat(ts, pos, TokenKind::Keyword) {
        Err(e) => Err(e),
        Ok(p) => match id_statement(ts, p) {
            Err(e) => Err(e),
            Ok((subject, pos2)) => match eat(ts, pos2, TokenKind::LBrace) {
                Err(e) => Err(e),
                Ok(pos3) => if pos < pos3 <= ts.len() {
                    match cases(ts, pos3) {
                        Err(e) => Err(e),
                        Ok((cs, pos4)) => match eat(ts, pos4, TokenKind::RBrace) {
                            Err(e) => Err(e),
                            Ok(pos5) => Ok(
                                (NodeModel::Match { subject: Box::new(subject), cases: cs }, pos5),
                            ),
                        },
                    }
                } else {
                    stuck(pos)
                },
            },
        },
    }
}

/// `expression => block`
pub open spec fn case_arm(ts: Seq<TokenModel>, pos: int) -> Parsed
    decreases ts.len() - pos, 11nat,
{
    match expression(ts, pos) {
        Err(e) => Err(e),
        Ok((c, p)) => match eat(ts, p, TokenKind::Arrow) {
            Err(e) => Err(e),
            Ok(pos2) => if pos < pos2 <= ts.len() {
                match block(ts, pos2) {
                    Err(e) => Err(e),
                    Ok((b, pos3)) => Ok((NodeModel::Case { condition: Box::new(c), block: b }, pos3)),
                }
            } else {
                stuck(pos)
            },
        },
    }
}

pub open spec fn cases(ts: Seq<TokenModel>, pos: int) -> ParsedList
    decreases ts.len() - pos, 12nat,
{
    match case_arm(ts, pos) {
        Err(e) => Err(e),
        Ok((c, p)) => if pos < p <= ts.len() {
            cases_rest(ts, p, seq![c])
        } else {
            stuck(pos)
        },
    }
}

pub open spec fn cases_rest(ts: Seq<TokenModel>, pos: int, acc: Seq<NodeModel>) -> ParsedList
    decreases ts.len() - pos, 12nat,
{
    if kind_at(ts, pos) == TokenKind::Comma && 0 <= pos < ts.len() {
        if kind_at(ts, pos + 1) == TokenKind::DotDot {
            match expression(ts, pos + 1) {
                Err(e) => Err(e),
                Ok((d, p)) => Ok((acc.push(d), p)),
            }
        } else {
            match case_arm(ts, pos + 1) {
                Err(e) => Err(e),
                Ok((c, p)) => if pos < p <= ts.len() {
                    cases_rest(ts, p, acc.push(c))
                } else {
                    stuck(pos)
                },
            }
        }
    } else {
        Ok((acc, pos))
    }
}

/// `( expression )`, as in `if` and `while`.
pub open spec fn condition(ts: Seq<TokenModel>, pos: int) -> Parsed
    decreases ts.len() - pos, 11nat,
{
    match eat(ts, pos, TokenKind::LParen) {
        Err(e) => Err(e),
        Ok(p) => match expression(ts, p) {
            Err(e) => Err(e),
            Ok((c, pos2)) => match eat(ts, pos2, TokenKind::RParen) {
                Err(e) => Err(e),
                Ok(pos3) => Ok((c, pos3)),
            },
        },
    }
}

/// `if ( expression ) block [else block]`
pub open spec fn if_statement(ts: Seq<TokenModel>, pos: int) -> Parsed
    decreases ts.len() - pos, 11nat,
{
    match eat(ts, pos, TokenKind::Keyword) {
        Err(e) => Err(e),
        Ok(p) => match condition(ts, p) {
            Err(e) => Err(e),
            Ok((c, pos2)) => if pos < pos2 <= ts.len() {
                match block(ts, pos2) {
                    Err(e) => Err(e),
                    Ok((b, pos3)) => if is_keyword_token(cur(ts, pos3), word_else()) && pos < pos3
                        < ts.len() {
                        match block(ts, pos3 + 1) {
                            Err(e) => Err(e),
                            Ok((eb, pos4)) => Ok(
                                (
                                    NodeModel::If {
                                        condition: Box::new(c),
                                        then_block: b,
                                        else_block: Some(eb),
                                    },
                                    pos4,
                                ),
                            ),
                        }
                    } else {
                        Ok(
                            (
                                NodeModel::If {
                                    condition: Box::new(c),
                                    then_block: b,
                                    else_block: None,
                                },
                                pos3,
                            ),
                        )
                    },
                }
            } else {
                stuck(pos)
            },
        },
    }
}

/// `for ( object : name (, name)* ) block`
pub open spec fn for_loop(ts: Seq<TokenModel>, pos: int) -> Parsed
    decreases ts.len() - pos, 11nat,
{
    match eat(ts, pos, TokenKind::Keyword) {
        Err(e) => Err(e),
        Ok(p) => match eat(ts, p, TokenKind::LParen) {
            Err(e) => Err(e),
            Ok(pos2) => match id_statement(ts, pos2) {
                Err(e) => Err(e),
                Ok((obj, pos3)) => match eat(ts, pos3, TokenKind::Colon) {
                    Err(e) => Err(e),
                    Ok(pos4) => if pos < pos4 <= ts.len() {
                        match id_statement(ts, pos4) {
                            Err(e) => Err(e),
                            Ok((v, pos5)) => if pos < pos5 <= ts.len() {
                                match id_list_rest(ts, pos5, seq![v]) {
                                    Err(e) => Err(e),
                                    Ok((vars, pos6)) => match eat(ts, pos6, TokenKind::RParen) {
                                        Err(e) => Err(e),
                                        Ok(pos7) => if pos < pos7 <= ts.len() {
                                            match block(ts, pos7) {
                                                Err(e) => Err(e),
                                                Ok((body, pos8)) => Ok(
                                                    (
                                                        NodeModel::For {
                                                            vars,
                                                            object: Box::new(obj),
                                                            body,
                                                        },
                                                        pos8,
                                                    ),
                                                ),
                                            }
                                        } else {
                                            stuck(pos)
                                        },
                                    },
                                }
                            } else {
                                stuck(pos)
                            },
                        }
                    } else {
                        stuck(pos)
                    },
                },
            },
        },
    }
}

/// `while ( expression ) block`
pub open spec fn while_loop(ts: Seq<TokenModel>, pos: int) -> Parsed
    decreases ts.len() - pos, 11nat,
{
    match eat(ts, pos, TokenKind::Keyword) {
        Err(e) => Err(e),
        Ok(p) => match condition(ts, p) {
            Err(e) => Err(e),
            Ok((c, pos2)) => if pos < pos2 <= ts.len() {
                match block(ts, pos2) {
                    Err(e) => Err(e),
                    Ok((body, pos3)) => Ok((NodeModel::While { condition: Box::new(c), body }, pos3)),
                }
            } else {
                stuck(pos)
            },
        },
    }
}

pub type ParsedParams = Result<(Option<Seq<NodeModel>>, Option<Seq<NodeModel>>, int), ParseError>;

/// After `:` in a parameter list: `)` or `expression (, expression)* )`.
pub open spec fn output_params(ts: Seq<TokenModel>, pos: int) -> Result<
    (Option<Seq<NodeModel>>, int),
    ParseError,
>
    decreases ts.len() - pos, 11nat,
{
    if kind_at(ts, pos) == TokenKind::RParen && 0 <= pos < ts.len() {
        Ok((None, pos + 1))
    } else {
        match expr_list(ts, pos) {
            Err(e) => Err(e),
            Ok((outs, p)) => match eat(ts, p, TokenKind::RParen) {
                Err(e) => Err(e),
                Ok(pos2) => Ok((Some(outs), pos2)),
            },
        }
    }
}

/// `( [inputs] [: outputs] )`
pub open spec fn parameters(ts: Seq<TokenModel>, pos: int) -> ParsedParams
    decreases ts.len() - pos, 12nat,
{
    match eat(ts, pos, TokenKind::LParen) {
        Err(e) => Err(e),
        Ok(p) => if kind_at(ts, p) == TokenKind::RParen && p < ts.len() {
            Ok((None, None, p + 1))
        } else if kind_at(ts, p) == TokenKind::Colon && p < ts.len() {
            match output_params(ts, p + 1) {
                Err(e) => Err(e),
                Ok((outs, pos2)) => Ok((None, outs, pos2)),
            }
        } else {
            match id_statement(ts, p) {
                Err(e) => Err(e),
                Ok((first, pos2)) => if pos < pos2 <= ts.len() {
                    match id_list_rest(ts, pos2, seq![first]) {
                        Err(e) => Err(e),
                        Ok((ins, pos3)) => if kind_at(ts, pos3) == TokenKind::Colon && pos < pos3
                            < ts.len() {
                            match output_params(ts, pos3 + 1) {
                                Err(e) => Err(e),
                                Ok((outs, pos4)) => Ok((Some(ins), outs, pos4)),
                            }
                        } else {
                            match eat(ts, pos3, TokenKind::RParen) {
                                Err(e) => Err(e),
                                Ok(pos4) => Ok((Some(ins), None, pos4)),
                            }
                        },
                    }
                } else {
                    stuck(pos)
                },
            }
        },
    }
}

/// `fn name parameters block`
pub open spec fn function_declaration(ts: Seq<TokenModel>, pos: int) -> Parsed
    decreases ts.len() - pos, 13nat,
{
    match eat(ts, pos, TokenKind::Keyword) {
        Err(e) => Err(e),
        Ok(p) => match id_statement(ts, p) {
            Err(e) => Err(e),
            Ok((name, pos2)) => if pos < pos2 <= ts.len() {
                match parameters(ts, pos2) {
                    Err(e) => Err(e),
                    Ok((ins, outs, pos3)) => if pos < pos3 <= ts.len() {
                        match block(ts, pos3) {
                            Err(e) => Err(e),
                            Ok((b, pos4)) => Ok(
                                (
                                    NodeModel::Function {
                                        name: Box::new(name),
                                        inputs: ins,
                                        outputs: outs,
                                        block: b,
                                    },
                                    pos4,
                                ),
                            ),
                        }
                    } else {
                        stuck(pos)
                    },
                }
            } else {
                stuck(pos)
            },
        },
    }
}

/// `( name (, name)* )` or `()` after a class name.
pub open spec fn parent_classes(ts: Seq<TokenModel>, pos: int) -> ParsedList
    decreases ts.len() - pos, 11nat,
{
    match eat(ts, pos, TokenKind::LParen) {
        Err(e) => Err(e),
        Ok(p) => if kind_at(ts, p) == TokenKind::RParen && p < ts.len() {
            Ok((Seq::empty(), p + 1))
        } else {
            match id_statement(ts, p) {
                Err(e) => Err(e),
                Ok((first, pos2)) => if pos < pos2 <= ts.len() {
                    match id_list_rest(ts, pos2, seq![first]) {
                        Err(e) => Err(e),
                        Ok((list, pos3)) => match eat(ts, pos3, TokenKind::RParen) {
                            Err(e) => Err(e),
                            Ok(pos4) => Ok((list, pos4)),
                        },
                    }
                } else {
                    stuck(pos)
                },
            }
        },
    }
}

/// `class name [parent_classes] block`
pub open spec fn class_declaration(ts: Seq<TokenModel>, pos: int) -> Parsed
    decreases ts.len() - pos, 14nat,
{
    match eat(ts, pos, TokenKind::Keyword) {
        Err(e) => Err(e),
        Ok(p) => match id_statement(ts, p) {
            Err(e) => Err(e),
            Ok((name, pos2)) => if pos < pos2 <= ts.len() {
                let parents = if kind_at(ts, pos2) == TokenKind::LParen {
                    match parent_classes(ts, pos2) {
                        Err(e) => Err(e),
                        Ok((list, pos3)) => Ok((Some(list), pos3)),
                    }
                } else {
                    Ok((None, pos2))
                };
                match parents {
                    Err(e) => Err(e),
                    Ok((ps, pos3)) => if pos < pos3 <= ts.len() {
                        match block(ts, pos3) {
                            Err(e) => Err(e),
                            Ok((b, pos4)) => Ok(
                                (NodeModel::Class { name: Box::new(name), parents: ps, block: b }, pos4),
                            ),
                        }
                    } else {
                        stuck(pos)
                    },
                }
            } else {
                stuck(pos)
            },
        },
    }
}

/// `let name ;` or `let name = expression ;`
pub open spec fn variable_declaration(ts: Seq<TokenModel>, pos: int) -> Parsed
    decreases ts.len() - pos, 11nat,
{
    match eat(ts, pos, TokenKind::Keyword) {
        Err(e) => Err(e),
        Ok(p) => match id_statement(ts, p) {
            Err(e) => Err(e),
            Ok((name, pos2)) => if kind_at(ts, pos2) == TokenKind::Semi && 0 <= pos2 < ts.len() {
                Ok((NodeModel::Var { name: Box::new(name), value: None }, pos2 + 1))
            } else {
                match eat(ts, pos2, TokenKind::Assign) {
                    Err(e) => Err(e),
                    Ok(pos3) => if pos < pos3 <= ts.len() {
                        match expression(ts, pos3) {
                            Err(e) => Err(e),
                            Ok((v, pos4)) => match eat(ts, pos4, TokenKind::Semi) {
                                Err(e) => Err(e),
                                Ok(pos5) => Ok(
                                    (
                                        NodeModel::Var {
                                            name: Box::new(name),
                                            value: Some(Box::new(v)),
                                        },
                                        pos5,
                                    ),
                                ),
                            },
                        }
                    } else {
                        stuck(pos)
                    },
                }
            },
        },
    }
}

/// Statements up to the end of input.
pub open spec fn program_rest(ts: Seq<TokenModel>, pos: int, acc: Seq<NodeModel>) -> Result<
    Seq<NodeModel>,
    ParseError,
>
    decreases ts.len() - pos, 16nat,
{
    if kind_at(ts, pos) == TokenKind::Eof {
        Ok(acc)
    } else {
        match statement(ts, pos) {
            Err(e) => Err(e),
            Ok((s, p)) => if pos < p <= ts.len() {
                program_rest(ts, p, acc.push(s))
            } else {
                stuck(pos)
            },
        }
    }
}

/// The statements of a whole program.
pub open spec fn parse_spec(ts: Seq<TokenModel>) -> Result<Seq<NodeModel>, ParseError> {
    program_rest(ts, 0, Seq::empty())
}

} // verus!
