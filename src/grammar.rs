use vstd::prelude::*;
use crate::lexer::{Tag, Token, TokenKind, tag_of};
use crate::parser::{ended, sees};
use crate::ast::{BinaryOp, Expr, Literal, UnaryOp};

verus! {

// The grammar the parser accepts, as recognizers over a token sequence. Each
// gives where a phrase that starts at `p` ends, or `None` where no phrase of
// its kind starts there; an expression's recognizer also tells whether the
// phrase is a place (a name, `.name` or `[key]`) that `=`, `++` and `--` may
// take. Every recursive use moves forward (`p < q <= len`) or goes to a
// lower precedence level at the same token.

pub open spec fn fwd(ts: Seq<Token>, p: int, q: int) -> bool {
    p < q <= ts.len()
}

pub open spec fn name_at(ts: Seq<Token>, p: int) -> bool {
    0 <= p < ts.len() && ts[p].kind is Identifier
}

/// The operators of binary level `lvl`: 9 `||`, 8 `&&`, 7 equality,
/// 6 comparison, 5 additive, 4 multiplicative.
pub open spec fn binary_op(lvl: int, t: Tag) -> bool {
    ||| lvl == 9 && t == Tag::Or
    ||| lvl == 8 && t == Tag::And
    ||| lvl == 7 && (t == Tag::EqualEqual || t == Tag::BangEqual)
    ||| lvl == 6 && (t == Tag::Greater || t == Tag::GreaterEqual || t == Tag::Less || t == Tag::LessEqual)
    ||| lvl == 5 && (t == Tag::Minus || t == Tag::Plus)
    ||| lvl == 4 && (t == Tag::Slash || t == Tag::Star || t == Tag::Percent)
}

pub open spec fn op_at(ts: Seq<Token>, p: int, lvl: int) -> bool {
    !ended(ts, p) && binary_op(lvl, tag_of(ts[p].kind))
}

pub open spec fn g_expression(ts: Seq<Token>, p: int) -> Option<(int, bool)>
    decreases ts.len() - p, 21int when 0 <= p <= ts.len()
{
    g_assignment(ts, p)
}

pub open spec fn g_assignment(ts: Seq<Token>, p: int) -> Option<(int, bool)>
    decreases ts.len() - p, 20int when 0 <= p <= ts.len()
{
    match g_binary(ts, p, 9) {
        Some((q, place)) => if sees(ts, q, Tag::Equal) {
            if fwd(ts, p, q) && place {
                match g_assignment(ts, q + 1) {
                    Some((e, _)) => Some((e, false)),
                    None => None,
                }
            } else {
                None
            }
        } else {
            Some((q, place))
        },
        None => None,
    }
}

/// One binary level: operands of the level below joined by this level's
/// operators, left to right.
pub open spec fn g_binary(ts: Seq<Token>, p: int, lvl: int) -> Option<(int, bool)>
    decreases ts.len() - p, 2 * lvl + 1 when 0 <= p <= ts.len() && 4 <= lvl <= 9
{
    match g_operand(ts, p, lvl) {
        Some((q, place)) => if fwd(ts, p, q) { g_binary_tail(ts, q, place, lvl) } else { None },
        None => None,
    }
}

pub open spec fn g_operand(ts: Seq<Token>, p: int, lvl: int) -> Option<(int, bool)>
    decreases ts.len() - p, 2 * lvl when 0 <= p <= ts.len() && 4 <= lvl <= 9
{
    if lvl == 4 { g_unary(ts, p) } else { g_binary(ts, p, lvl - 1) }
}

pub open spec fn g_binary_tail(ts: Seq<Token>, q: int, place: bool, lvl: int) -> Option<(int, bool)>
    decreases ts.len() - q, 2 * lvl + 1 when 0 <= q <= ts.len() && 4 <= lvl <= 9
{
    if op_at(ts, q, lvl) {
        match g_operand(ts, q + 1, lvl) {
            Some((e, _)) => if fwd(ts, q, e) { g_binary_tail(ts, e, false, lvl) } else { None },
            None => None,
        }
    } else {
        Some((q, place))
    }
}

pub open spec fn g_unary(ts: Seq<Token>, p: int) -> Option<(int, bool)>
    decreases ts.len() - p, 3int when 0 <= p <= ts.len()
{
    if sees(ts, p, Tag::Bang) || sees(ts, p, Tag::Minus) {
        match g_unary(ts, p + 1) {
            Some((e, _)) => Some((e, false)),
            None => None,
        }
    } else if sees(ts, p, Tag::Increment) || sees(ts, p, Tag::Decrement) {
        match g_unary(ts, p + 1) {
            Some((e, place)) => if place { Some((e, false)) } else { None },
            None => None,
        }
    } else {
        g_call(ts, p)
    }
}

pub open spec fn g_call(ts: Seq<Token>, p: int) -> Option<(int, bool)>
    decreases ts.len() - p, 2int when 0 <= p <= ts.len()
{
    match g_primary(ts, p) {
        Some((q, place)) => if fwd(ts, p, q) { g_call_tail(ts, q, place) } else { None },
        None => None,
    }
}

pub open spec fn g_call_tail(ts: Seq<Token>, q: int, place: bool) -> Option<(int, bool)>
    decreases ts.len() - q, 2int when 0 <= q <= ts.len()
{
    if sees(ts, q, Tag::LeftParen) {
        match g_arguments(ts, q + 1) {
            Some(e) => if fwd(ts, q, e) { g_call_tail(ts, e, false) } else { None },
            None => None,
        }
    } else if sees(ts, q, Tag::Dot) {
        if name_at(ts, q + 1) { g_call_tail(ts, q + 2, true) } else { None }
    } else if sees(ts, q, Tag::LeftBracket) {
        match g_expression(ts, q + 1) {
            Some((e, _)) => if fwd(ts, q, e) && sees(ts, e, Tag::RightBracket) {
                g_call_tail(ts, e + 1, true)
            } else {
                None
            },
            None => None,
        }
    } else if sees(ts, q, Tag::Increment) || sees(ts, q, Tag::Decrement) {
        if place { g_call_tail(ts, q + 1, false) } else { None }
    } else {
        Some((q, place))
    }
}

/// Call arguments after `(`, through the closing `)`: at most 255.
pub open spec fn g_arguments(ts: Seq<Token>, p: int) -> Option<int>
    decreases ts.len() - p, 23int when 0 <= p <= ts.len()
{
    if sees(ts, p, Tag::RightParen) { Some(p + 1) } else { g_arguments_from(ts, p, 0) }
}

pub open spec fn g_arguments_from(ts: Seq<Token>, p: int, n: int) -> Option<int>
    decreases ts.len() - p, 22int when 0 <= p <= ts.len()
{
    if n >= 255 {
        None
    } else {
        match g_expression(ts, p) {
            Some((e, _)) => if !fwd(ts, p, e) {
                None
            } else if sees(ts, e, Tag::Comma) {
                g_arguments_from(ts, e + 1, n + 1)
            } else if sees(ts, e, Tag::RightParen) {
                Some(e + 1)
            } else {
                None
            },
            None => None,
        }
    }
}

pub open spec fn g_primary(ts: Seq<Token>, p: int) -> Option<(int, bool)>
    decreases ts.len() - p, 1int when 0 <= p <= ts.len()
{
    if ended(ts, p) {
        None
    } else {
        match ts[p].kind {
            TokenKind::Boolean(_) | TokenKind::Null | TokenKind::Undefined | TokenKind::Number(_)
            | TokenKind::String(_) | TokenKind::Infinity | TokenKind::NaN => Some((p + 1, false)),
            TokenKind::LeftParen => match g_expression(ts, p + 1) {
                Some((e, place)) => if fwd(ts, p, e) && sees(ts, e, Tag::RightParen) {
                    Some((e + 1, place))
                } else {
                    None
                },
                None => None,
            },
            TokenKind::LeftBracket => match g_array(ts, p + 1) {
                Some(e) => Some((e, false)),
                None => None,
            },
            TokenKind::LeftBrace => match g_object(ts, p + 1) {
                Some(e) => Some((e, false)),
                None => None,
            },
            TokenKind::Function => match g_function_expression(ts, p + 1) {
                Some(e) => Some((e, false)),
                None => None,
            },
            TokenKind::Identifier(_) => Some((p + 1, true)),
            _ => None,
        }
    }
}

/// Array elements after `[`, through the `]`; a trailing comma is allowed.
pub open spec fn g_array(ts: Seq<Token>, p: int) -> Option<int>
    decreases ts.len() - p, 23int when 0 <= p <= ts.len()
{
    if sees(ts, p, Tag::RightBracket) { Some(p + 1) } else { g_elements(ts, p) }
}

pub open spec fn g_elements(ts: Seq<Token>, p: int) -> Option<int>
    decreases ts.len() - p, 22int when 0 <= p <= ts.len()
{
    match g_expression(ts, p) {
        Some((e, _)) => if !fwd(ts, p, e) {
            None
        } else if !sees(ts, e, Tag::Comma) {
            if sees(ts, e, Tag::RightBracket) { Some(e + 1) } else { None }
        } else if sees(ts, e + 1, Tag::RightBracket) {
            Some(e + 2)
        } else {
            g_elements(ts, e + 1)
        },
        None => None,
    }
}

/// Object properties after `{`, through the `}`: `name: value` or
/// `"key": value`, comma separated, a trailing comma allowed.
pub open spec fn g_object(ts: Seq<Token>, p: int) -> Option<int>
    decreases ts.len() - p, 23int when 0 <= p <= ts.len()
{
    if sees(ts, p, Tag::RightBrace) { Some(p + 1) } else { g_properties(ts, p) }
}

pub open spec fn g_properties(ts: Seq<Token>, p: int) -> Option<int>
    decreases ts.len() - p, 21int when 0 <= p <= ts.len()
{
    if ended(ts, p) || !(ts[p].kind is Identifier || ts[p].kind is String) || !sees(ts, p + 1, Tag::Colon) {
        None
    } else {
        match g_expression(ts, p + 2) {
            Some((e, _)) => if !fwd(ts, p, e) {
                None
            } else if !sees(ts, e, Tag::Comma) {
                if sees(ts, e, Tag::RightBrace) { Some(e + 1) } else { None }
            } else if sees(ts, e + 1, Tag::RightBrace) {
                Some(e + 2)
            } else {
                g_properties(ts, e + 1)
            },
            None => None,
        }
    }
}

/// Parameter names after `(`, through the `)`: at most 255.
pub open spec fn g_parameters(ts: Seq<Token>, p: int) -> Option<int> {
    if sees(ts, p, Tag::RightParen) { Some(p + 1) } else { g_parameters_from(ts, p, 0) }
}

pub open spec fn g_parameters_from(ts: Seq<Token>, p: int, n: int) -> Option<int>
    decreases ts.len() - p when 0 <= p <= ts.len()
{
    if n >= 255 || !name_at(ts, p) {
        None
    } else if sees(ts, p + 1, Tag::Comma) {
        g_parameters_from(ts, p + 2, n + 1)
    } else if sees(ts, p + 1, Tag::RightParen) {
        Some(p + 2)
    } else {
        None
    }
}

/// A function literal after `cat`.
pub open spec fn g_function_expression(ts: Seq<Token>, p: int) -> Option<int>
    decreases ts.len() - p, 22int when 0 <= p <= ts.len()
{
    let q = if name_at(ts, p) { p + 1 } else { p };
    if !sees(ts, q, Tag::LeftParen) {
        None
    } else {
        match g_parameters(ts, q + 1) {
            Some(r) => if !fwd(ts, p, r) {
                None
            } else if sees(ts, r, Tag::Arrow) {
                if sees(ts, r + 1, Tag::LeftBrace) {
                    g_block(ts, r + 2)
                } else {
                    match g_expression(ts, r + 1) {
                        Some((e, _)) => Some(e),
                        None => None,
                    }
                }
            } else if sees(ts, r, Tag::LeftBrace) {
                g_block(ts, r + 1)
            } else {
                None
            },
            None => None,
        }
    }
}

/// The statements of a block after `{`, through the `}`.
pub open spec fn g_block(ts: Seq<Token>, p: int) -> Option<int>
    decreases ts.len() - p, 32int when 0 <= p <= ts.len()
{
    if !sees(ts, p, Tag::RightBrace) && !ended(ts, p) {
        match g_declaration(ts, p) {
            Some(q) => if fwd(ts, p, q) { g_block(ts, q) } else { None },
            None => None,
        }
    } else if sees(ts, p, Tag::RightBrace) {
        Some(p + 1)
    } else {
        None
    }
}

pub open spec fn g_declaration(ts: Seq<Token>, p: int) -> Option<int>
    decreases ts.len() - p, 31int when 0 <= p <= ts.len()
{
    if sees(ts, p, Tag::Var) || sees(ts, p, Tag::Let) || sees(ts, p, Tag::Const) {
        g_var_declaration(ts, p)
    } else if sees(ts, p, Tag::Function) {
        g_function_declaration(ts, p + 1)
    } else {
        g_statement(ts, p)
    }
}

/// `catv name [= value];` from its keyword.
pub open spec fn g_var_declaration(ts: Seq<Token>, p: int) -> Option<int>
    decreases ts.len() - p, 22int when 0 <= p <= ts.len()
{
    if !name_at(ts, p + 1) {
        None
    } else if sees(ts, p + 2, Tag::Equal) {
        match g_expression(ts, p + 3) {
            Some((e, _)) => if sees(ts, e, Tag::Semicolon) { Some(e + 1) } else { None },
            None => None,
        }
    } else if sees(ts, p + 2, Tag::Semicolon) {
        Some(p + 3)
    } else {
        None
    }
}

/// `name(params) { body }` after `cat`.
pub open spec fn g_function_declaration(ts: Seq<Token>, p: int) -> Option<int>
    decreases ts.len() - p, 22int when 0 <= p <= ts.len()
{
    if !name_at(ts, p) || !sees(ts, p + 1, Tag::LeftParen) {
        None
    } else {
        match g_parameters(ts, p + 2) {
            Some(r) => if fwd(ts, p, r) && sees(ts, r, Tag::LeftBrace) { g_block(ts, r + 1) } else { None },
            None => None,
        }
    }
}

pub open spec fn g_statement(ts: Seq<Token>, p: int) -> Option<int>
    decreases ts.len() - p, 30int when 0 <= p <= ts.len()
{
    if sees(ts, p, Tag::Print) {
        g_print(ts, p + 1)
    } else if sees(ts, p, Tag::LeftBrace) {
        g_block(ts, p + 1)
    } else if sees(ts, p, Tag::If) {
        g_if(ts, p + 1)
    } else if sees(ts, p, Tag::While) {
        g_while(ts, p + 1)
    } else if sees(ts, p, Tag::Do) {
        g_do_while(ts, p + 1)
    } else if sees(ts, p, Tag::For) {
        g_for(ts, p + 1)
    } else if sees(ts, p, Tag::Break) || sees(ts, p, Tag::Continue) {
        if sees(ts, p + 1, Tag::Semicolon) { Some(p + 2) } else { None }
    } else if sees(ts, p, Tag::Return) {
        g_return(ts, p + 1)
    } else if sees(ts, p, Tag::Switch) {
        g_switch(ts, p + 1)
    } else {
        g_expression_statement(ts, p)
    }
}

/// `(cond)` after a keyword, through the `)`.
pub open spec fn g_condition(ts: Seq<Token>, p: int) -> Option<int>
    decreases ts.len() - p, 22int when 0 <= p <= ts.len()
{
    if !sees(ts, p, Tag::LeftParen) {
        None
    } else {
        match g_expression(ts, p + 1) {
            Some((e, _)) => if sees(ts, e, Tag::RightParen) { Some(e + 1) } else { None },
            None => None,
        }
    }
}

pub open spec fn g_print(ts: Seq<Token>, p: int) -> Option<int>
    decreases ts.len() - p, 23int when 0 <= p <= ts.len()
{
    match g_condition(ts, p) {
        Some(e) => if sees(ts, e, Tag::Semicolon) { Some(e + 1) } else { None },
        None => None,
    }
}

pub open spec fn g_if(ts: Seq<Token>, p: int) -> Option<int>
    decreases ts.len() - p, 23int when 0 <= p <= ts.len()
{
    match g_condition(ts, p) {
        Some(c) => if !fwd(ts, p, c) {
            None
        } else {
            match g_statement(ts, c) {
                Some(s) => if !fwd(ts, c, s) {
                    None
                } else if sees(ts, s, Tag::ElseIf) {
                    g_if(ts, s + 1)
                } else if sees(ts, s, Tag::Else) {
                    g_statement(ts, s + 1)
                } else {
                    Some(s)
                },
                None => None,
            }
        },
        None => None,
    }
}

pub open spec fn g_while(ts: Seq<Token>, p: int) -> Option<int>
    decreases ts.len() - p, 23int when 0 <= p <= ts.len()
{
    match g_condition(ts, p) {
        Some(c) => if fwd(ts, p, c) { g_statement(ts, c) } else { None },
        None => None,
    }
}

pub open spec fn g_do_while(ts: Seq<Token>, p: int) -> Option<int>
    decreases ts.len() - p, 31int when 0 <= p <= ts.len()
{
    match g_statement(ts, p) {
        Some(s) => if fwd(ts, p, s) && sees(ts, s, Tag::While) {
            match g_condition(ts, s + 1) {
                Some(e) => if sees(ts, e, Tag::Semicolon) { Some(e + 1) } else { None },
                None => None,
            }
        } else {
            None
        },
        None => None,
    }
}

/// `for (...)` after `fur`: a declaration followed by `in` or `of`, or
/// three clauses.
pub open spec fn g_for(ts: Seq<Token>, p: int) -> Option<int>
    decreases ts.len() - p, 23int when 0 <= p <= ts.len()
{
    let q = p + 1;
    if !sees(ts, p, Tag::LeftParen) {
        None
    } else if sees(ts, q, Tag::Var) || sees(ts, q, Tag::Let) || sees(ts, q, Tag::Const) {
        if !name_at(ts, q + 1) {
            None
        } else {
            let r = if sees(ts, q + 2, Tag::Equal) {
                match g_expression(ts, q + 3) {
                    Some((e, _)) => e,
                    None => -1,
                }
            } else {
                q + 2
            };
            if !fwd(ts, p, r) {
                None
            } else if sees(ts, r, Tag::In) || sees(ts, r, Tag::Of) {
                g_for_in_of(ts, r + 1)
            } else if sees(ts, r, Tag::Semicolon) {
                g_for_clauses(ts, r + 1)
            } else {
                None
            }
        }
    } else if sees(ts, q, Tag::Semicolon) {
        g_for_clauses(ts, q + 1)
    } else {
        match g_expression_statement(ts, q) {
            Some(a) => if fwd(ts, p, a) { g_for_clauses(ts, a) } else { None },
            None => None,
        }
    }
}

/// The condition and increment of a three-clause loop, then its body.
pub open spec fn g_for_clauses(ts: Seq<Token>, a: int) -> Option<int>
    decreases ts.len() - a, 22int when 0 <= a <= ts.len()
{
    let c = if sees(ts, a, Tag::Semicolon) {
        a
    } else {
        match g_expression(ts, a) {
            Some((e, _)) => e,
            None => -1,
        }
    };
    if !(a <= c <= ts.len()) || !sees(ts, c, Tag::Semicolon) {
        None
    } else {
        let i = if sees(ts, c + 1, Tag::RightParen) {
            c + 1
        } else {
            match g_expression(ts, c + 1) {
                Some((e, _)) => e,
                None => -1,
            }
        };
        if !(c < i <= ts.len()) || !sees(ts, i, Tag::RightParen) {
            None
        } else {
            g_statement(ts, i + 1)
        }
    }
}

pub open spec fn g_for_in_of(ts: Seq<Token>, p: int) -> Option<int>
    decreases ts.len() - p, 22int when 0 <= p <= ts.len()
{
    match g_expression(ts, p) {
        Some((e, _)) => if fwd(ts, p, e) && sees(ts, e, Tag::RightParen) { g_statement(ts, e + 1) } else { None },
        None => None,
    }
}

pub open spec fn g_return(ts: Seq<Token>, p: int) -> Option<int>
    decreases ts.len() - p, 22int when 0 <= p <= ts.len()
{
    if sees(ts, p, Tag::Semicolon) {
        Some(p + 1)
    } else {
        match g_expression(ts, p) {
            Some((e, _)) => if sees(ts, e, Tag::Semicolon) { Some(e + 1) } else { None },
            None => None,
        }
    }
}

pub open spec fn g_switch(ts: Seq<Token>, p: int) -> Option<int>
    decreases ts.len() - p, 23int when 0 <= p <= ts.len()
{
    match g_condition(ts, p) {
        Some(c) => if fwd(ts, p, c) && sees(ts, c, Tag::LeftBrace) { g_clauses(ts, c + 1) } else { None },
        None => None,
    }
}

/// Switch clauses, through the closing `}`.
pub open spec fn g_clauses(ts: Seq<Token>, p: int) -> Option<int>
    decreases ts.len() - p, 22int when 0 <= p <= ts.len()
{
    if !sees(ts, p, Tag::RightBrace) && !ended(ts, p) {
        if sees(ts, p, Tag::Case) {
            match g_expression(ts, p + 1) {
                Some((e, _)) => if fwd(ts, p, e) && sees(ts, e, Tag::Colon) {
                    match g_clause_body(ts, e + 1) {
                        Some(b) => if fwd(ts, p, b) { g_clauses(ts, b) } else { None },
                        None => None,
                    }
                } else {
                    None
                },
                None => None,
            }
        } else if sees(ts, p, Tag::Default) && sees(ts, p + 1, Tag::Colon) {
            match g_clause_body(ts, p + 2) {
                Some(b) => if fwd(ts, p, b) { g_clauses(ts, b) } else { None },
                None => None,
            }
        } else {
            None
        }
    } else if sees(ts, p, Tag::RightBrace) {
        Some(p + 1)
    } else {
        None
    }
}

/// The statements of one clause, up to the next clause or the `}`.
pub open spec fn g_clause_body(ts: Seq<Token>, p: int) -> Option<int>
    decreases ts.len() - p, 32int when 0 <= p <= ts.len()
{
    if !sees(ts, p, Tag::Case) && !sees(ts, p, Tag::Default) && !sees(ts, p, Tag::RightBrace) && !ended(ts, p) {
        match g_declaration(ts, p) {
            Some(q) => if fwd(ts, p, q) { g_clause_body(ts, q) } else { None },
            None => None,
        }
    } else {
        Some(p)
    }
}

pub open spec fn g_expression_statement(ts: Seq<Token>, p: int) -> Option<int>
    decreases ts.len() - p, 22int when 0 <= p <= ts.len()
{
    match g_expression(ts, p) {
        Some((e, _)) => if sees(ts, e, Tag::Semicolon) { Some(e + 1) } else { None },
        None => None,
    }
}

/// A whole program: declarations up to the end of the tokens.
pub open spec fn g_program(ts: Seq<Token>, p: int) -> bool
    decreases ts.len() - p when 0 <= p <= ts.len()
{
    if ended(ts, p) {
        true
    } else {
        match g_declaration(ts, p) {
            Some(q) => fwd(ts, p, q) && g_program(ts, q),
            None => false,
        }
    }
}

/// Where each top-level declaration of the program from `p` starts.
pub open spec fn program_starts(ts: Seq<Token>, p: int) -> Seq<int>
    decreases ts.len() - p when 0 <= p <= ts.len()
{
    if ended(ts, p) {
        Seq::empty()
    } else {
        match g_declaration(ts, p) {
            Some(q) => if fwd(ts, p, q) { seq![p] + program_starts(ts, q) } else { Seq::empty() },
            None => Seq::empty(),
        }
    }
}

/// Where each declaration of a block's body from `p` starts, up to its `}`.
pub open spec fn block_starts(ts: Seq<Token>, p: int) -> Seq<int>
    decreases ts.len() - p when 0 <= p <= ts.len()
{
    if !sees(ts, p, Tag::RightBrace) && !ended(ts, p) {
        match g_declaration(ts, p) {
            Some(q) => if fwd(ts, p, q) { seq![p] + block_starts(ts, q) } else { Seq::empty() },
            None => Seq::empty(),
        }
    } else {
        Seq::empty()
    }
}

/// Where each declaration of a switch clause from `p` starts, up to the
/// next clause or the `}`.
pub open spec fn clause_starts(ts: Seq<Token>, p: int) -> Seq<int>
    decreases ts.len() - p when 0 <= p <= ts.len()
{
    if !sees(ts, p, Tag::Case) && !sees(ts, p, Tag::Default) && !sees(ts, p, Tag::RightBrace) && !ended(ts, p) {
        match g_declaration(ts, p) {
            Some(q) => if fwd(ts, p, q) { seq![p] + clause_starts(ts, q) } else { Seq::empty() },
            None => Seq::empty(),
        }
    } else {
        Seq::empty()
    }
}

/// Where each clause of a switch from `p` starts (its `claw` or `default`).
pub open spec fn clause_keys(ts: Seq<Token>, p: int) -> Seq<int>
    decreases ts.len() - p when 0 <= p <= ts.len()
{
    if !sees(ts, p, Tag::RightBrace) && !ended(ts, p) {
        if sees(ts, p, Tag::Case) {
            match g_expression(ts, p + 1) {
                Some((e, _)) => if fwd(ts, p, e) && sees(ts, e, Tag::Colon) {
                    match g_clause_body(ts, e + 1) {
                        Some(b) => if fwd(ts, p, b) { seq![p] + clause_keys(ts, b) } else { Seq::empty() },
                        None => Seq::empty(),
                    }
                } else {
                    Seq::empty()
                },
                None => Seq::empty(),
            }
        } else if sees(ts, p, Tag::Default) && sees(ts, p + 1, Tag::Colon) {
            match g_clause_body(ts, p + 2) {
                Some(b) => if fwd(ts, p, b) { seq![p] + clause_keys(ts, b) } else { Seq::empty() },
                None => Seq::empty(),
            }
        } else {
            Seq::empty()
        }
    } else {
        Seq::empty()
    }
}

/// Where each element of an array literal from `p` (not empty) starts.
pub open spec fn element_starts(ts: Seq<Token>, p: int) -> Seq<int>
    decreases ts.len() - p when 0 <= p <= ts.len()
{
    match g_expression(ts, p) {
        Some((e, _)) => if !fwd(ts, p, e) {
            Seq::empty()
        } else if !sees(ts, e, Tag::Comma) || sees(ts, e + 1, Tag::RightBracket) {
            seq![p]
        } else {
            seq![p] + element_starts(ts, e + 1)
        },
        None => Seq::empty(),
    }
}

/// Where the first top-level declaration from `p` that the grammar refuses
/// starts (or the end, where none is refused).
pub open spec fn first_failure(ts: Seq<Token>, p: int) -> int
    decreases ts.len() - p when 0 <= p <= ts.len()
{
    if ended(ts, p) {
        p
    } else {
        match g_declaration(ts, p) {
            Some(q) => if fwd(ts, p, q) { first_failure(ts, q) } else { p },
            None => p,
        }
    }
}

/// The shape of a chain of binary operators as the tokens fix it: an
/// operand below the multiplicative level (a unary, call or primary
/// expression, a parenthesized one included) is a leaf.
pub enum Skeleton {
    Leaf(int),
    Node(Box<Skeleton>, BinaryOp, Box<Skeleton>),
}

/// The operator a binary operator token stands for.
pub open spec fn op_of(t: Tag) -> BinaryOp {
    match t {
        Tag::Or => BinaryOp::Or,
        Tag::And => BinaryOp::And,
        Tag::EqualEqual => BinaryOp::Eq,
        Tag::BangEqual => BinaryOp::NotEq,
        Tag::Greater => BinaryOp::Gt,
        Tag::GreaterEqual => BinaryOp::Gte,
        Tag::Less => BinaryOp::Lt,
        Tag::LessEqual => BinaryOp::Lte,
        Tag::Minus => BinaryOp::Sub,
        Tag::Plus => BinaryOp::Add,
        Tag::Slash => BinaryOp::Div,
        Tag::Star => BinaryOp::Mul,
        _ => BinaryOp::Mod,
    }
}

/// The skeleton of binary level `lvl` from `p`: operands of the level below,
/// joined left to right by this level's operators.
pub open spec fn skel_binary(ts: Seq<Token>, p: int, lvl: int) -> Skeleton
    decreases ts.len() - p, 2 * lvl + 1 when 0 <= p <= ts.len() && 4 <= lvl <= 9
{
    let left = skel_operand(ts, p, lvl);
    match g_operand(ts, p, lvl) {
        Some((q, _)) => if fwd(ts, p, q) { skel_tail(ts, q, left, lvl) } else { left },
        None => left,
    }
}

pub open spec fn skel_operand(ts: Seq<Token>, p: int, lvl: int) -> Skeleton
    decreases ts.len() - p, 2 * lvl when 0 <= p <= ts.len() && 4 <= lvl <= 9
{
    if lvl == 4 { Skeleton::Leaf(p) } else { skel_binary(ts, p, lvl - 1) }
}

pub open spec fn skel_tail(ts: Seq<Token>, q: int, left: Skeleton, lvl: int) -> Skeleton
    decreases ts.len() - q, 2 * lvl + 1 when 0 <= q <= ts.len() && 4 <= lvl <= 9
{
    if op_at(ts, q, lvl) {
        match g_operand(ts, q + 1, lvl) {
            Some((e, _)) => if fwd(ts, q, e) {
                skel_tail(
                    ts,
                    e,
                    Skeleton::Node(Box::new(left), op_of(tag_of(ts[q].kind)), Box::new(skel_operand(ts, q + 1, lvl))),
                    lvl,
                )
            } else {
                left
            },
            None => left,
        }
    } else {
        left
    }
}

/// The tree of a one-token expression at `p`: the literal or the name.
pub open spec fn primary_tree(ts: Seq<Token>, p: int, e: Expr) -> bool {
    match ts[p].kind {
        TokenKind::Number(n) => e matches Expr::Literal(Literal::Number(m)) && m@ == n@,
        TokenKind::String(x) => e matches Expr::Literal(Literal::Str(m)) && m@ == x@,
        TokenKind::Identifier(n) => e matches Expr::Variable(m) && m@ == n@,
        TokenKind::Boolean(b) => e == Expr::Literal(Literal::Bool(b)),
        TokenKind::Null => e == Expr::Literal(Literal::Null),
        TokenKind::Undefined => e == Expr::Literal(Literal::Undefined),
        TokenKind::NaN => e == Expr::Literal(Literal::NaN),
        TokenKind::Infinity => e == Expr::Literal(Literal::Infinity),
        _ => true,
    }
}

/// The prefix operators of a unary expression at `p`, as its tokens give
/// them: `!` and `-` make a negation, `++` and `--` a prefix step, each over
/// the unary expression after it.
pub open spec fn unary_tree(ts: Seq<Token>, p: int, e: Expr) -> bool
    decreases e,
{
    if sees(ts, p, Tag::Bang) || sees(ts, p, Tag::Minus) {
        e matches Expr::Unary(op, x)
            && op == (if sees(ts, p, Tag::Bang) { UnaryOp::Not } else { UnaryOp::Minus })
            && unary_tree(ts, p + 1, *x)
    } else if sees(ts, p, Tag::Increment) {
        e matches Expr::Increment(x, true) && unary_tree(ts, p + 1, *x)
    } else if sees(ts, p, Tag::Decrement) {
        e matches Expr::Decrement(x, true) && unary_tree(ts, p + 1, *x)
    } else {
        true
    }
}

/// Tree `e` has the operator structure of skeleton `k`, and each leaf that
/// is one token long is that token's literal or name.
pub open spec fn fits(ts: Seq<Token>, e: Expr, k: Skeleton) -> bool
    decreases k,
{
    match k {
        Skeleton::Leaf(p) => unary_tree(ts, p, e)
            && ((g_unary(ts, p) matches Some((q, _)) && q == p + 1) ==> primary_tree(ts, p, e)),
        Skeleton::Node(l, op, r) => e matches Expr::Binary(el, o, er) && o == op && fits(ts, *el, *l)
            && fits(ts, *er, *r),
    }
}

} // verus!
