use vstd::prelude::*;
use crate::ast::{BinaryOp, Expr, Literal, Stmt, UnaryOp, is_place, is_variable};
use crate::grammar::{
    name_at, op_at, g_arguments, g_arguments_from, g_array, g_assignment, g_binary, g_binary_tail, g_block,
    g_call, g_call_tail, g_clause_body, g_clauses, g_condition, g_declaration, g_do_while, g_elements,
    g_expression, g_expression_statement, g_for, g_for_clauses, g_for_in_of, g_function_declaration,
    g_function_expression, g_if, g_object, g_operand, g_parameters, g_parameters_from, g_primary, g_print,
    g_program, g_properties, program_starts, unary_tree, block_starts, clause_starts, clause_keys, element_starts, first_failure, fits, primary_tree, skel_binary, skel_operand, skel_tail, op_of, Skeleton, g_return, g_statement, g_switch, g_unary, g_var_declaration, g_while,
};
use crate::error::{Location, MewError, MewResult};
use crate::lexer::{MewLexer, Tag, Token, TokenKind, lex_error, lexable, lexed, tag, tag_of};
use crate::text::joined;

verus! {

/// Whether the tokens from `pos` on are used up: past the end, or at the
/// end-of-stream token.
pub open spec fn ended(ts: Seq<Token>, pos: int) -> bool {
    pos >= ts.len() || ts[pos].kind is Eof
}

/// Whether the token at `pos` is of kind `t` (and not past the end).
pub open spec fn sees(ts: Seq<Token>, pos: int, t: Tag) -> bool {
    !ended(ts, pos) && tag_of(ts[pos].kind) == t
}

/// A result that consumed at least one token, or a Syntax error.
pub open spec fn advanced<T>(r: MewResult<(T, usize)>, pos: usize, ts: Seq<Token>) -> bool {
    match r {
        Ok((_, p)) => pos < p <= ts.len(),
        Err(e) => e.spec_kind() is Syntax && placed_from(ts, pos as int, e),
    }
}

/// `e` is placed at a token at or after `p` (the last token when `p` is past
/// the end), or at no known place when there are no tokens.
pub open spec fn placed_from(ts: Seq<Token>, p: int, e: MewError) -> bool {
    e matches MewError::Syntax(_, l) && if ts.len() == 0 {
        l.is_unknown()
    } else {
        exists|j: int| (p <= j || j == ts.len() - 1) && 0 <= j < ts.len() && #[trigger] ts[j].location == l
    }
}

/// A result that consumed no token or more, or a Syntax error.
pub open spec fn moved<T>(r: MewResult<(T, usize)>, pos: usize, ts: Seq<Token>) -> bool {
    match r {
        Ok((_, p)) => pos <= p <= ts.len(),
        Err(e) => e.spec_kind() is Syntax && placed_from(ts, pos as int, e),
    }
}

/// An expression parsed from `p` that is a chain of binary operators (no
/// `=` follows the chain) has the chain's operator structure.
pub open spec fn expr_fits(ts: Seq<Token>, p: int, e: Expr) -> bool {
    (g_binary(ts, p, 9) matches Some((m, _)) && !sees(ts, m, Tag::Equal)) ==> fits(ts, e, skel_binary(ts, p, 9))
}

/// Where the statement parsed from `p` ends, or -1.
pub open spec fn stmt_end(ts: Seq<Token>, p: int) -> int {
    match g_statement(ts, p) {
        Some(q) => q,
        None => -1,
    }
}

/// Where the `(cond)` parsed from `p` ends, or -1.
pub open spec fn cond_end(ts: Seq<Token>, p: int) -> int {
    match g_condition(ts, p) {
        Some(c) => c,
        None => -1,
    }
}

/// Where the statements of the clause that starts at `c` begin.
pub open spec fn clause_body_start(ts: Seq<Token>, c: int) -> int {
    if sees(ts, c, Tag::Case) { expr_end(ts, c + 1) + 1 } else { c + 2 }
}

/// Switch clauses `cl` are the ones starting at `keys`: a case value
/// exactly after `claw`, parsed from the next token, and the statements
/// of each clause as their tokens give them.
pub open spec fn clauses_at(ts: Seq<Token>, keys: Seq<int>, cl: Seq<(Option<Expr>, Vec<Stmt>)>) -> bool {
    &&& cl.len() == keys.len()
    &&& forall|k: int| 0 <= k < cl.len() ==> {
        &&& ((#[trigger] cl[k]).0 is Some <==> sees(ts, keys[k], Tag::Case))
        &&& cl[k].0 matches Some(e) ==> expr_fits(ts, keys[k] + 1, e)
        &&& decls_at(ts, clause_starts(ts, clause_body_start(ts, keys[k])), cl[k].1@)
    }
}

/// Parameter names `ps` listed from `p` (just after the `(`): none when a
/// `)` comes first, else the names at every second token.
pub open spec fn params_at(ts: Seq<Token>, p: int, ps: Seq<String>) -> bool {
    &&& (ps.len() == 0 <==> sees(ts, p, Tag::RightParen))
    &&& forall|k: int| 0 <= k < ps.len() ==> ts[p + 2 * k].kind == TokenKind::Identifier(#[trigger] ps[k])
}

/// Where the parameter list from `p` ends (past its `)`), or -1.
pub open spec fn params_end(ts: Seq<Token>, p: int) -> int {
    match g_parameters(ts, p) {
        Some(r) => r,
        None => -1,
    }
}

/// The function a literal after `cat` at `p` makes: named exactly when a
/// name comes first, with the parameters listed after the `(`, and as body
/// either the block's declarations or one `return` of the expression after
/// `=>`.
pub open spec fn function_literal_fits(ts: Seq<Token>, p: int, e: Expr) -> bool {
    let q = if name_at(ts, p) { p + 1 } else { p };
    let r = params_end(ts, q + 1);
    e matches Expr::Function(n, ps, b) && {
        &&& (n is Some <==> name_at(ts, p))
        &&& n matches Some(m) ==> ts[p].kind == TokenKind::Identifier(m)
        &&& params_at(ts, q + 1, ps@)
        &&& if sees(ts, r, Tag::Arrow) && !sees(ts, r + 1, Tag::LeftBrace) {
            b@.len() == 1 && (b@[0] matches Stmt::Return(Some(x)) && expr_fits(ts, r + 1, x))
        } else if sees(ts, r, Tag::Arrow) {
            decls_at(ts, block_starts(ts, r + 2), b@)
        } else {
            decls_at(ts, block_starts(ts, r + 1), b@)
        }
    }
}

/// Expressions `es` are the ones parsed at `starts`.
pub open spec fn elements_at(ts: Seq<Token>, starts: Seq<int>, es: Seq<Expr>) -> bool {
    &&& es.len() == starts.len()
    &&& forall|k: int| 0 <= k < es.len() ==> expr_fits(ts, starts[k], #[trigger] es[k])
}

/// Statements `ss` are the declarations starting at `starts`, each as its
/// tokens give it.
pub open spec fn decls_at(ts: Seq<Token>, starts: Seq<int>, ss: Seq<Stmt>) -> bool {
    &&& ss.len() == starts.len()
    &&& forall|k: int| 0 <= k < ss.len() ==> decl_head(ts, starts[k], #[trigger] ss[k])
}

/// The statement that a statement starting at `p` makes, as its first
/// token decides it.
pub open spec fn stmt_head(ts: Seq<Token>, p: int, s: Stmt) -> bool
    decreases s,
{
    if sees(ts, p, Tag::Print) {
        s matches Stmt::Print(e) && expr_fits(ts, p + 2, e)
    } else if sees(ts, p, Tag::LeftBrace) || sees(ts, p, Tag::Do) {
        s is Block
    } else if sees(ts, p, Tag::If) {
        s matches Stmt::If(c, t, _) && expr_fits(ts, p + 2, c)
            && (g_condition(ts, p + 1) matches Some(k) ==> stmt_head(ts, k, *t))
    } else if sees(ts, p, Tag::While) {
        s matches Stmt::While(c, b) && expr_fits(ts, p + 2, c)
            && (g_condition(ts, p + 1) matches Some(k) ==> stmt_head(ts, k, *b))
    } else if sees(ts, p, Tag::For) {
        s is Block || s is While
    } else if sees(ts, p, Tag::Break) {
        s is Break
    } else if sees(ts, p, Tag::Continue) {
        s is Continue
    } else if sees(ts, p, Tag::Return) {
        s matches Stmt::Return(v) && (v is Some <==> !sees(ts, p + 1, Tag::Semicolon))
            && (v matches Some(e) ==> expr_fits(ts, p + 1, e))
    } else if sees(ts, p, Tag::Switch) {
        s is Switch
    } else {
        s matches Stmt::Expression(e) && expr_fits(ts, p, e)
    }
}

/// The declaration that one starting at `p` makes: a variable (named by
/// the next token, constant exactly after `catst`), a function (named by the
/// next token), or a statement.
pub open spec fn decl_head(ts: Seq<Token>, p: int, s: Stmt) -> bool {
    if sees(ts, p, Tag::Var) || sees(ts, p, Tag::Let) || sees(ts, p, Tag::Const) {
        s matches Stmt::VarDeclaration(n, init, c) && c == sees(ts, p, Tag::Const)
            && ts[p + 1].kind == TokenKind::Identifier(n)
            && (init is Some <==> sees(ts, p + 2, Tag::Equal))
            && (init matches Some(e) ==> expr_fits(ts, p + 3, e))
    } else if sees(ts, p, Tag::Function) {
        s matches Stmt::Function(n, _, _) && ts[p + 1].kind == TokenKind::Identifier(n)
    } else {
        stmt_head(ts, p, s)
    }
}

// ---------------------------------------------------------------------------
// Desugaring

/// `while (cond) body`, where the body is followed by `inc` if there is one.
pub open spec fn is_loop_of(w: Stmt, cond: Expr, inc: Option<Expr>, body: Stmt) -> bool {
    match w {
        Stmt::While(c, b) => c == cond && match inc {
            Some(e) => match *b {
                Stmt::Block(v) => v@.len() == 2 && v@[0] == body && v@[1] == Stmt::Expression(e),
                _ => false,
            },
            None => *b == body,
        },
        _ => false,
    }
}

/// The three-clause loop `for (init; cond; inc) body` as a block holding the
/// initializer (if any) and a while loop.
pub open spec fn is_for_loop(r: Stmt, init: Option<Stmt>, cond: Expr, inc: Option<Expr>, body: Stmt) -> bool {
    match init {
        Some(i) => match r {
            Stmt::Block(v) => v@.len() == 2 && v@[0] == i && is_loop_of(v@[1], cond, inc, body),
            _ => false,
        },
        None => is_loop_of(r, cond, inc, body),
    }
}

/// Desugars a three-clause `for` loop.
pub fn desugar_for(init: Option<Stmt>, cond: Expr, inc: Option<Expr>, body: Stmt) -> (r: Stmt)
    ensures
        is_for_loop(r, init, cond, inc, body),
{
    let looped = match inc {
        Some(e) => {
            let mut v: Vec<Stmt> = Vec::new();
            v.push(body);
            v.push(Stmt::Expression(e));
            Stmt::Block(v)
        },
        None => body,
    };
    let w = Stmt::While(cond, Box::new(looped));
    match init {
        Some(i) => {
            let mut v: Vec<Stmt> = Vec::new();
            v.push(i);
            v.push(w);
            Stmt::Block(v)
        },
        None => w,
    }
}

/// `collection[index]`
pub open spec fn is_element(e: Expr, index: Seq<char>, collection: Seq<char>) -> bool {
    e matches Expr::Index(o, k) && is_variable(*o, collection) && is_variable(*k, index)
}

/// `Object.keys(it)` for a for-in loop, `Object.values(it)` for a for-of loop.
pub open spec fn is_listing(e: Expr, is_of: bool, it: Seq<char>) -> bool {
    e matches Expr::Call(f, args) && args@.len() == 1 && is_variable(args@[0], it) && (*f matches Expr::Get(o, m)
        && is_variable(*o, "Object"@) && m@ == (if is_of { "values"@ } else { "keys"@ }))
}

/// The per-iteration binding of the loop variable: a fresh constant in the
/// iteration's own block, or an assignment to the one shared variable.
pub open spec fn binds_element(s: Stmt, name: Seq<char>, index: Seq<char>, collection: Seq<char>, is_const: bool) -> bool {
    if is_const {
        s matches Stmt::VarDeclaration(n, Some(e), true) && n@ == name && is_element(e, index, collection)
    } else {
        s matches Stmt::Expression(Expr::Assignment(n, e)) && n@ == name && is_element(*e, index, collection)
    }
}

/// `while (index < collection.length) { bind; body; index++; }`
pub open spec fn is_walk(w: Stmt, name: Seq<char>, index: Seq<char>, collection: Seq<char>, is_const: bool, body: Stmt) -> bool {
    match w {
        Stmt::While(c, b) => {
            &&& c matches Expr::Binary(l, BinaryOp::Lt, rr) && is_variable(*l, index)
                && (*rr matches Expr::Get(o, len) && is_variable(*o, collection) && len@ == "length"@)
            &&& match *b {
                Stmt::Block(v) => {
                    &&& v@.len() == 3
                    &&& binds_element(v@[0], name, index, collection, is_const)
                    &&& v@[1] == body
                    &&& v@[2] matches Stmt::Expression(Expr::Increment(t, false)) && is_variable(*t, index)
                },
                _ => false,
            }
        },
        _ => false,
    }
}

pub open spec fn iterator_name(name: Seq<char>) -> Seq<char> {
    "__iterator_"@ + name
}

pub open spec fn index_name(name: Seq<char>) -> Seq<char> {
    "__index_"@ + name
}

pub open spec fn collection_name(name: Seq<char>, is_of: bool) -> Seq<char> {
    (if is_of { "__values_"@ } else { "__keys_"@ }) + name
}

/// The block that a for-in (`is_of` false) or for-of loop over `iterable`
/// becomes: the iterable evaluated once, an index from zero, the keys or the
/// values, the loop variable declared once when it is not constant, and the
/// walk over the collection.
pub open spec fn is_for_in_of(
    r: Stmt,
    name: Seq<char>,
    init: Option<Expr>,
    is_const: bool,
    is_of: bool,
    iterable: Expr,
    body: Stmt,
) -> bool {
    let it = iterator_name(name);
    let index = index_name(name);
    let collection = collection_name(name, is_of);
    match r {
        Stmt::Block(v) => {
            &&& v@.len() == (if is_const { 4int } else { 5int })
            &&& v@[0] matches Stmt::VarDeclaration(n, Some(e), false) && n@ == it && e == iterable
            &&& v@[1] matches Stmt::VarDeclaration(n, Some(e), false) && n@ == index
                && (e matches Expr::Literal(Literal::Number(z)) && z@ == "0"@)
            &&& v@[2] matches Stmt::VarDeclaration(n, Some(e), false) && n@ == collection
                && is_listing(e, is_of, it)
            &&& !is_const ==> (v@[3] matches Stmt::VarDeclaration(n, i, false) && n@ == name && i == init)
            &&& is_walk(v@[v@.len() - 1], name, index, collection, is_const, body)
        },
        _ => false,
    }
}

fn variable(name: &String) -> (r: Expr)
    ensures
        is_variable(r, name@),
{
    Expr::Variable(name.clone())
}

/// Desugars `for (x in iterable) body` or `for (x of iterable) body`.
pub fn desugar_for_in_of(
    name: String,
    init: Option<Expr>,
    is_const: bool,
    is_of: bool,
    iterable: Expr,
    body: Stmt,
) -> (r: Stmt)
    ensures
        is_for_in_of(r, name@, init, is_const, is_of, iterable, body),
{
    let it = joined("__iterator_", name.as_str());
    let index = joined("__index_", name.as_str());
    let collection = if is_of {
        joined("__values_", name.as_str())
    } else {
        joined("__keys_", name.as_str())
    };
    let it_decl = Stmt::VarDeclaration(it.clone(), Some(iterable), false);
    let index_decl = Stmt::VarDeclaration(
        index.clone(),
        Some(Expr::Literal(Literal::Number(String::from_str("0")))),
        false,
    );
    let method = if is_of { String::from_str("values") } else { String::from_str("keys") };
    let mut args: Vec<Expr> = Vec::new();
    args.push(variable(&it));
    let listing = Expr::Call(
        Box::new(Expr::Get(Box::new(Expr::Variable(String::from_str("Object"))), method)),
        args,
    );
    let collection_decl = Stmt::VarDeclaration(collection.clone(), Some(listing), false);
    let cond = Expr::Binary(
        Box::new(variable(&index)),
        BinaryOp::Lt,
        Box::new(Expr::Get(Box::new(variable(&collection)), String::from_str("length"))),
    );
    let element = Expr::Index(Box::new(variable(&collection)), Box::new(variable(&index)));
    let bind = if is_const {
        Stmt::VarDeclaration(name.clone(), Some(element), true)
    } else {
        Stmt::Expression(Expr::Assignment(name.clone(), Box::new(element)))
    };
    let step = Stmt::Expression(Expr::Increment(Box::new(variable(&index)), false));
    let mut walk_body: Vec<Stmt> = Vec::new();
    walk_body.push(bind);
    walk_body.push(body);
    walk_body.push(step);
    let walk = Stmt::While(cond, Box::new(Stmt::Block(walk_body)));
    let mut v: Vec<Stmt> = Vec::new();
    v.push(it_decl);
    v.push(index_decl);
    v.push(collection_decl);
    if !is_const {
        v.push(Stmt::VarDeclaration(name, init, false));
    }
    v.push(walk);
    Stmt::Block(v)
}

/// Where the expression parsed from `p` ends, or -1.
pub open spec fn expr_end(ts: Seq<Token>, p: int) -> int {
    match g_expression(ts, p) {
        Some((e, _)) => e,
        None => -1,
    }
}

/// A for-in/of loop whose iterable starts at `p`: its block holds the
/// iterable parsed there, and the body that starts after the `)`.
pub open spec fn in_of_tied(
    ts: Seq<Token>,
    p: int,
    s: Stmt,
    name: Seq<char>,
    init: Option<Expr>,
    is_const: bool,
    is_of: bool,
) -> bool {
    exists|it: Expr, b: Stmt| {
        &&& #[trigger] is_for_in_of(s, name, init, is_const, is_of, it, b)
        &&& expr_fits(ts, p, it)
        &&& stmt_head(ts, expr_end(ts, p) + 1, b)
    }
}

/// The clauses of a three-clause loop after its first `;` (from `a`): the
/// condition is `true` when empty, else the expression parsed there; the
/// increment is there exactly when its tokens are; the body starts after
/// the `)`.
pub open spec fn clauses_tied(ts: Seq<Token>, a: int, c: Expr, inc: Option<Expr>, b: Stmt) -> bool {
    let ce = if sees(ts, a, Tag::Semicolon) { a } else { expr_end(ts, a) };
    let ie = if sees(ts, ce + 1, Tag::RightParen) { ce + 1 } else { expr_end(ts, ce + 1) };
    &&& sees(ts, a, Tag::Semicolon) ==> c == Expr::Literal(Literal::Bool(true))
    &&& !sees(ts, a, Tag::Semicolon) ==> expr_fits(ts, a, c)
    &&& (inc is None <==> sees(ts, ce + 1, Tag::RightParen))
    &&& inc matches Some(e) ==> expr_fits(ts, ce + 1, e)
    &&& stmt_head(ts, ie + 1, b)
}

/// A three-clause loop with initializer `init` whose clauses start at `a`.
pub open spec fn loop_tied(ts: Seq<Token>, a: int, s: Stmt, init: Option<Stmt>) -> bool {
    exists|c: Expr, inc: Option<Expr>, b: Stmt| {
        &&& #[trigger] is_for_loop(s, init, c, inc, b)
        &&& clauses_tied(ts, a, c, inc, b)
    }
}

/// The initializer of a loop header starting at `q` that is an expression
/// statement.
pub open spec fn header_expression(ts: Seq<Token>, q: int, i: Stmt) -> bool {
    i matches Stmt::Expression(e) && expr_fits(ts, q, e)
}

/// The loop that `fur` makes from its header at `p` (the `(`): with a
/// declared loop variable (its name, constness and initializer as the
/// tokens give them), either a for-in/of loop over what follows `in`/`of`
/// or a three-clause loop with that declaration; with an empty initializer
/// or an expression one, a three-clause loop.
pub open spec fn for_tied(ts: Seq<Token>, p: int, s: Stmt) -> bool {
    let q = p + 1;
    if sees(ts, q, Tag::Var) || sees(ts, q, Tag::Let) || sees(ts, q, Tag::Const) {
        let k = sees(ts, q, Tag::Const);
        let r = if sees(ts, q + 2, Tag::Equal) { expr_end(ts, q + 3) } else { q + 2 };
        exists|n: String, init: Option<Expr>| {
            &&& #[trigger] decl_head(ts, q, Stmt::VarDeclaration(n, init, k))
            &&& if sees(ts, r, Tag::In) || sees(ts, r, Tag::Of) {
                in_of_tied(ts, r + 1, s, n@, init, k, sees(ts, r, Tag::Of))
            } else {
                loop_tied(ts, r + 1, s, Some(Stmt::VarDeclaration(n, init, k)))
            }
        }
    } else if sees(ts, q, Tag::Semicolon) {
        loop_tied(ts, q + 1, s, None)
    } else {
        exists|i: Stmt| #[trigger] header_expression(ts, q, i) && loop_tied(ts, expr_end(ts, q) + 1, s, Some(i))
    }
}

// ---------------------------------------------------------------------------
// Token access

fn at_end(ts: &Vec<Token>, pos: usize) -> (r: bool)
    ensures
        r == ended(ts@, pos as int),
        ts@.len() <= usize::MAX,
{
    pos >= ts.len() || tag(&ts[pos].kind) == Tag::Eof
}

fn check(ts: &Vec<Token>, pos: usize, t: Tag) -> (r: bool)
    ensures
        r == sees(ts@, pos as int, t),
        ts@.len() <= usize::MAX,
{
    !at_end(ts, pos) && tag(&ts[pos].kind) == t
}

/// The place of the token at `pos`; past the end, that of the last token.
fn location_at(ts: &Vec<Token>, pos: usize) -> (r: Location)
    ensures
        pos < ts@.len() ==> r == ts@[pos as int].location,
        pos >= ts@.len() && ts@.len() > 0 ==> r == ts@[ts@.len() - 1].location,
        ts@.len() == 0 ==> r.is_unknown(),
{
    if pos < ts.len() {
        ts[pos].location
    } else if ts.len() > 0 {
        ts[ts.len() - 1].location
    } else {
        Location::unknown()
    }
}

fn error_at(ts: &Vec<Token>, pos: usize, message: &str) -> (r: MewError)
    ensures
        r.spec_kind() is Syntax,
        placed_from(ts@, pos as int, r),
{
    MewError::syntax_at(String::from_str(message), location_at(ts, pos))
}

/// Consumes one token of kind `t`.
fn expect(ts: &Vec<Token>, pos: usize, t: Tag, message: &str) -> (r: MewResult<usize>)
    requires
        pos <= ts@.len(),
    ensures
        r matches Ok(p) ==> p == pos + 1 && sees(ts@, pos as int, t),
        r matches Err(e) ==> e.spec_kind() is Syntax && !sees(ts@, pos as int, t) && placed_from(ts@, pos as int, e),
{
    if check(ts, pos, t) {
        Ok(pos + 1)
    } else {
        Err(error_at(ts, pos, message))
    }
}

/// Consumes one name.
fn expect_name(ts: &Vec<Token>, pos: usize, message: &str) -> (r: MewResult<(String, usize)>)
    requires
        pos <= ts@.len(),
    ensures
        r matches Ok((n, p)) ==> p == pos + 1 && pos < ts@.len() && ts@[pos as int].kind == TokenKind::Identifier(n),
        r matches Err(e) ==> e.spec_kind() is Syntax && placed_from(ts@, pos as int, e),
        r is Ok <==> name_at(ts@, pos as int),
{
    if pos < ts.len() {
        match &ts[pos].kind {
            TokenKind::Identifier(n) => {
                return Ok((n.clone(), pos + 1));
            },
            _ => {},
        }
    }
    Err(error_at(ts, pos, message))
}

fn is_place_expr(e: &Expr) -> (r: bool)
    ensures
        r == is_place(*e),
{
    match e {
        Expr::Variable(_) | Expr::Get(..) | Expr::Index(..) => true,
        _ => false,
    }
}

/// Reads parameter names up to and including the closing `)`.
fn parameters(ts: &Vec<Token>, pos: usize) -> (r: MewResult<(Vec<String>, usize)>)
    requires
        pos <= ts@.len(),
    ensures
        r matches Ok((_, q)) ==> g_parameters(ts@, pos as int) == Some(q as int),
        r is Err ==> g_parameters(ts@, pos as int) is None,
        advanced(r, pos, ts@),
        r matches Ok((ps, _)) ==> ps@.len() <= 255,
        r matches Ok((ps, _)) ==> params_at(ts@, pos as int, ps@),
{
    let mut params: Vec<String> = Vec::new();
    let mut p = pos;
    if !check(ts, p, Tag::RightParen) {
        loop
            invariant_except_break
                pos <= p <= ts@.len(),
                params@.len() <= 255,
                g_parameters(ts@, pos as int) == g_parameters_from(ts@, p as int, params@.len() as int),
                p == pos + 2 * params@.len(),
                !sees(ts@, pos as int, Tag::RightParen),
                forall|k: int| 0 <= k < params@.len() ==> ts@[pos + 2 * k].kind == TokenKind::Identifier(#[trigger] params@[k]),
            ensures
                pos <= p <= ts@.len(),
                params@.len() <= 255,
                params@.len() > 0,
                !sees(ts@, pos as int, Tag::RightParen),
                forall|k: int| 0 <= k < params@.len() ==> ts@[pos + 2 * k].kind == TokenKind::Identifier(#[trigger] params@[k]),
                g_parameters(ts@, pos as int) == (if sees(ts@, p as int, Tag::RightParen) {
                    Some(p + 1)
                } else {
                    None
                }),
            decreases ts@.len() - p,
        {
            if params.len() >= 255 {
                return Err(error_at(ts, p, "Cannot have more than 255 parameters."));
            }
            let (name, q) = match expect_name(ts, p, "Expected parameter name.") {
                Ok(x) => x,
                Err(e) => return Err(e),
            };
            params.push(name);
            p = q;
            if check(ts, p, Tag::Comma) {
                p = p + 1;
            } else {
                break;
            }
        }
    }
    let p = match expect(ts, p, Tag::RightParen, "Expected ')' after parameters.") {
        Ok(p) => p,
        Err(e) => return Err(e),
    };
    Ok((params, p))
}

// ---------------------------------------------------------------------------
// Expressions, lowest precedence first

pub fn expression(ts: &Vec<Token>, pos: usize) -> (r: MewResult<(Expr, usize)>)
    requires
        pos <= ts@.len(),
    ensures
        r matches Ok((e, _)) ==> expr_fits(ts@, pos as int, e),
        r matches Ok((e, q)) ==> g_expression(ts@, pos as int) == Some((q as int, is_place(e))),
        r is Err ==> g_expression(ts@, pos as int) is None,
        advanced(r, pos, ts@),
    decreases ts@.len() - pos, 11int,
{
    assignment(ts, pos)
}

/// `target = value`, right-associative; the target must be a place.
fn assignment(ts: &Vec<Token>, pos: usize) -> (r: MewResult<(Expr, usize)>)
    requires
        pos <= ts@.len(),
    ensures
        r matches Ok((e, _)) ==> expr_fits(ts@, pos as int, e),
        r matches Ok((e, q)) ==> g_assignment(ts@, pos as int) == Some((q as int, is_place(e))),
        r is Err ==> g_assignment(ts@, pos as int) is None,
        advanced(r, pos, ts@),
    decreases ts@.len() - pos, 10int,
{
    let (target, p) = match or_expr(ts, pos) {
        Ok(x) => x,
        Err(e) => return Err(e),
    };
    if check(ts, p, Tag::Equal) {
        let (value, q) = match assignment(ts, p + 1) {
            Ok(x) => x,
            Err(e) => return Err(e),
        };
        match target {
            Expr::Variable(name) => Ok((Expr::Assignment(name, Box::new(value)), q)),
            Expr::Get(object, name) => Ok((Expr::SetField(object, name, Box::new(value)), q)),
            Expr::Index(object, key) => Ok((Expr::SetIndex(object, key, Box::new(value)), q)),
            _ => Err(error_at(ts, pos, "Invalid assignment target.")),
        }
    } else {
        Ok((target, p))
    }
}

fn or_expr(ts: &Vec<Token>, pos: usize) -> (r: MewResult<(Expr, usize)>)
    requires
        pos <= ts@.len(),
    ensures
        r matches Ok((e, q)) ==> g_binary(ts@, pos as int, 9) == Some((q as int, is_place(e))),
        r is Err ==> g_binary(ts@, pos as int, 9) is None,
        advanced(r, pos, ts@),
        r matches Ok((e, _)) ==> fits(ts@, e, skel_binary(ts@, pos as int, 9)),
    decreases ts@.len() - pos, 9int,
{
    let (mut expr, mut p) = match and_expr(ts, pos) {
        Ok(x) => x,
        Err(e) => return Err(e),
    };
    let ghost mut k = skel_operand(ts@, pos as int, 9);
    loop
        invariant
            pos < p <= ts@.len(),
            g_binary(ts@, pos as int, 9) == g_binary_tail(ts@, p as int, is_place(expr), 9),
            skel_binary(ts@, pos as int, 9) == skel_tail(ts@, p as int, k, 9),
            fits(ts@, expr, k),
        ensures
            !op_at(ts@, p as int, 9),
        decreases ts@.len() - p,
    {
        if !check(ts, p, Tag::Or) {
            break;
        }
        assert(op_at(ts@, p as int, 9));
        assert(g_operand(ts@, p + 1, 9) == g_binary(ts@, p + 1, 8));
        let (right, q) = match and_expr(ts, p + 1) {
            Ok(x) => x,
            Err(e) => {
                assert(g_operand(ts@, p + 1, 9) is None);
                assert(g_binary_tail(ts@, p as int, is_place(expr), 9) is None);
                return Err(e);
            },
        };
        proof {
            k = Skeleton::Node(Box::new(k), op_of(tag_of(ts@[p as int].kind)), Box::new(skel_operand(ts@, p + 1, 9)));
        }
        expr = Expr::Binary(Box::new(expr), BinaryOp::Or, Box::new(right));
        p = q;
    }
    Ok((expr, p))
}

fn and_expr(ts: &Vec<Token>, pos: usize) -> (r: MewResult<(Expr, usize)>)
    requires
        pos <= ts@.len(),
    ensures
        r matches Ok((e, q)) ==> g_binary(ts@, pos as int, 8) == Some((q as int, is_place(e))),
        r is Err ==> g_binary(ts@, pos as int, 8) is None,
        advanced(r, pos, ts@),
        r matches Ok((e, _)) ==> fits(ts@, e, skel_binary(ts@, pos as int, 8)),
    decreases ts@.len() - pos, 8int,
{
    let (mut expr, mut p) = match equality(ts, pos) {
        Ok(x) => x,
        Err(e) => return Err(e),
    };
    let ghost mut k = skel_operand(ts@, pos as int, 8);
    loop
        invariant
            pos < p <= ts@.len(),
            g_binary(ts@, pos as int, 8) == g_binary_tail(ts@, p as int, is_place(expr), 8),
            skel_binary(ts@, pos as int, 8) == skel_tail(ts@, p as int, k, 8),
            fits(ts@, expr, k),
        ensures
            !op_at(ts@, p as int, 8),
        decreases ts@.len() - p,
    {
        if !check(ts, p, Tag::And) {
            break;
        }
        assert(op_at(ts@, p as int, 8));
        assert(g_operand(ts@, p + 1, 8) == g_binary(ts@, p + 1, 7));
        let (right, q) = match equality(ts, p + 1) {
            Ok(x) => x,
            Err(e) => {
                assert(g_operand(ts@, p + 1, 8) is None);
                assert(g_binary_tail(ts@, p as int, is_place(expr), 8) is None);
                return Err(e);
            },
        };
        proof {
            k = Skeleton::Node(Box::new(k), op_of(tag_of(ts@[p as int].kind)), Box::new(skel_operand(ts@, p + 1, 8)));
        }
        expr = Expr::Binary(Box::new(expr), BinaryOp::And, Box::new(right));
        p = q;
    }
    Ok((expr, p))
}

fn equality(ts: &Vec<Token>, pos: usize) -> (r: MewResult<(Expr, usize)>)
    requires
        pos <= ts@.len(),
    ensures
        r matches Ok((e, q)) ==> g_binary(ts@, pos as int, 7) == Some((q as int, is_place(e))),
        r is Err ==> g_binary(ts@, pos as int, 7) is None,
        advanced(r, pos, ts@),
        r matches Ok((e, _)) ==> fits(ts@, e, skel_binary(ts@, pos as int, 7)),
    decreases ts@.len() - pos, 7int,
{
    let (mut expr, mut p) = match comparison(ts, pos) {
        Ok(x) => x,
        Err(e) => return Err(e),
    };
    let ghost mut k = skel_operand(ts@, pos as int, 7);
    loop
        invariant
            pos < p <= ts@.len(),
            g_binary(ts@, pos as int, 7) == g_binary_tail(ts@, p as int, is_place(expr), 7),
            skel_binary(ts@, pos as int, 7) == skel_tail(ts@, p as int, k, 7),
            fits(ts@, expr, k),
        ensures
            !op_at(ts@, p as int, 7),
        decreases ts@.len() - p,
    {
        let op = if check(ts, p, Tag::EqualEqual) {
            BinaryOp::Eq
        } else if check(ts, p, Tag::BangEqual) {
            BinaryOp::NotEq
        } else {
            break;
        };
        assert(op_at(ts@, p as int, 7));
        assert(g_operand(ts@, p + 1, 7) == g_binary(ts@, p + 1, 6));
        let (right, q) = match comparison(ts, p + 1) {
            Ok(x) => x,
            Err(e) => {
                assert(g_operand(ts@, p + 1, 7) is None);
                assert(g_binary_tail(ts@, p as int, is_place(expr), 7) is None);
                return Err(e);
            },
        };
        proof {
            k = Skeleton::Node(Box::new(k), op_of(tag_of(ts@[p as int].kind)), Box::new(skel_operand(ts@, p + 1, 7)));
        }
        expr = Expr::Binary(Box::new(expr), op, Box::new(right));
        p = q;
    }
    Ok((expr, p))
}

fn comparison(ts: &Vec<Token>, pos: usize) -> (r: MewResult<(Expr, usize)>)
    requires
        pos <= ts@.len(),
    ensures
        r matches Ok((e, q)) ==> g_binary(ts@, pos as int, 6) == Some((q as int, is_place(e))),
        r is Err ==> g_binary(ts@, pos as int, 6) is None,
        advanced(r, pos, ts@),
        r matches Ok((e, _)) ==> fits(ts@, e, skel_binary(ts@, pos as int, 6)),
    decreases ts@.len() - pos, 6int,
{
    let (mut expr, mut p) = match term(ts, pos) {
        Ok(x) => x,
        Err(e) => return Err(e),
    };
    let ghost mut k = skel_operand(ts@, pos as int, 6);
    loop
        invariant
            pos < p <= ts@.len(),
            g_binary(ts@, pos as int, 6) == g_binary_tail(ts@, p as int, is_place(expr), 6),
            skel_binary(ts@, pos as int, 6) == skel_tail(ts@, p as int, k, 6),
            fits(ts@, expr, k),
        ensures
            !op_at(ts@, p as int, 6),
        decreases ts@.len() - p,
    {
        let op = if check(ts, p, Tag::Greater) {
            BinaryOp::Gt
        } else if check(ts, p, Tag::GreaterEqual) {
            BinaryOp::Gte
        } else if check(ts, p, Tag::Less) {
            BinaryOp::Lt
        } else if check(ts, p, Tag::LessEqual) {
            BinaryOp::Lte
        } else {
            break;
        };
        assert(op_at(ts@, p as int, 6));
        assert(g_operand(ts@, p + 1, 6) == g_binary(ts@, p + 1, 5));
        let (right, q) = match term(ts, p + 1) {
            Ok(x) => x,
            Err(e) => {
                assert(g_operand(ts@, p + 1, 6) is None);
                assert(g_binary_tail(ts@, p as int, is_place(expr), 6) is None);
                return Err(e);
            },
        };
        proof {
            k = Skeleton::Node(Box::new(k), op_of(tag_of(ts@[p as int].kind)), Box::new(skel_operand(ts@, p + 1, 6)));
        }
        expr = Expr::Binary(Box::new(expr), op, Box::new(right));
        p = q;
    }
    Ok((expr, p))
}

fn term(ts: &Vec<Token>, pos: usize) -> (r: MewResult<(Expr, usize)>)
    requires
        pos <= ts@.len(),
    ensures
        r matches Ok((e, q)) ==> g_binary(ts@, pos as int, 5) == Some((q as int, is_place(e))),
        r is Err ==> g_binary(ts@, pos as int, 5) is None,
        advanced(r, pos, ts@),
        r matches Ok((e, _)) ==> fits(ts@, e, skel_binary(ts@, pos as int, 5)),
    decreases ts@.len() - pos, 5int,
{
    let (mut expr, mut p) = match factor(ts, pos) {
        Ok(x) => x,
        Err(e) => return Err(e),
    };
    let ghost mut k = skel_operand(ts@, pos as int, 5);
    loop
        invariant
            pos < p <= ts@.len(),
            g_binary(ts@, pos as int, 5) == g_binary_tail(ts@, p as int, is_place(expr), 5),
            skel_binary(ts@, pos as int, 5) == skel_tail(ts@, p as int, k, 5),
            fits(ts@, expr, k),
        ensures
            !op_at(ts@, p as int, 5),
        decreases ts@.len() - p,
    {
        let op = if check(ts, p, Tag::Minus) {
            BinaryOp::Sub
        } else if check(ts, p, Tag::Plus) {
            BinaryOp::Add
        } else {
            break;
        };
        assert(op_at(ts@, p as int, 5));
        assert(g_operand(ts@, p + 1, 5) == g_binary(ts@, p + 1, 4));
        let (right, q) = match factor(ts, p + 1) {
            Ok(x) => x,
            Err(e) => {
                assert(g_operand(ts@, p + 1, 5) is None);
                assert(g_binary_tail(ts@, p as int, is_place(expr), 5) is None);
                return Err(e);
            },
        };
        proof {
            k = Skeleton::Node(Box::new(k), op_of(tag_of(ts@[p as int].kind)), Box::new(skel_operand(ts@, p + 1, 5)));
        }
        expr = Expr::Binary(Box::new(expr), op, Box::new(right));
        p = q;
    }
    Ok((expr, p))
}

fn factor(ts: &Vec<Token>, pos: usize) -> (r: MewResult<(Expr, usize)>)
    requires
        pos <= ts@.len(),
    ensures
        r matches Ok((e, q)) ==> g_binary(ts@, pos as int, 4) == Some((q as int, is_place(e))),
        r is Err ==> g_binary(ts@, pos as int, 4) is None,
        advanced(r, pos, ts@),
        r matches Ok((e, _)) ==> fits(ts@, e, skel_binary(ts@, pos as int, 4)),
    decreases ts@.len() - pos, 4int,
{
    let (mut expr, mut p) = match unary(ts, pos) {
        Ok(x) => x,
        Err(e) => return Err(e),
    };
    let ghost mut k = skel_operand(ts@, pos as int, 4);
    loop
        invariant
            pos < p <= ts@.len(),
            g_binary(ts@, pos as int, 4) == g_binary_tail(ts@, p as int, is_place(expr), 4),
            skel_binary(ts@, pos as int, 4) == skel_tail(ts@, p as int, k, 4),
            fits(ts@, expr, k),
        ensures
            !op_at(ts@, p as int, 4),
        decreases ts@.len() - p,
    {
        let op = if check(ts, p, Tag::Slash) {
            BinaryOp::Div
        } else if check(ts, p, Tag::Star) {
            BinaryOp::Mul
        } else if check(ts, p, Tag::Percent) {
            BinaryOp::Mod
        } else {
            break;
        };
        assert(op_at(ts@, p as int, 4));
        assert(g_operand(ts@, p + 1, 4) == g_unary(ts@, p + 1));
        let (right, q) = match unary(ts, p + 1) {
            Ok(x) => x,
            Err(e) => {
                assert(g_operand(ts@, p + 1, 4) is None);
                assert(g_binary_tail(ts@, p as int, is_place(expr), 4) is None);
                return Err(e);
            },
        };
        let ghost (e0, k0) = (expr, k);
        proof {
            assert(skel_operand(ts@, p + 1, 4) == Skeleton::Leaf(p + 1));
            assert(op == op_of(tag_of(ts@[p as int].kind)));
            k = Skeleton::Node(Box::new(k), op_of(tag_of(ts@[p as int].kind)), Box::new(skel_operand(ts@, p + 1, 4)));
        }
        expr = Expr::Binary(Box::new(expr), op, Box::new(right));
        assert(fits(ts@, expr, k)) by {
            assert(fits(ts@, e0, k0));
            assert(fits(ts@, right, Skeleton::Leaf(p + 1)));
        }
        p = q;
    }
    Ok((expr, p))
}

/// `!x`, `-x`, `++x`, `--x`; the last two need a place.
fn unary(ts: &Vec<Token>, pos: usize) -> (r: MewResult<(Expr, usize)>)
    requires
        pos <= ts@.len(),
    ensures
        r matches Ok((e, q)) ==> (q == pos + 1 ==> primary_tree(ts@, pos as int, e)),
        r matches Ok((e, q)) ==> g_unary(ts@, pos as int) == Some((q as int, is_place(e))),
        r matches Ok((e, _)) ==> unary_tree(ts@, pos as int, e),
        r is Err ==> g_unary(ts@, pos as int) is None,
        advanced(r, pos, ts@),
    decreases ts@.len() - pos, 3int,
{
    if check(ts, pos, Tag::Bang) || check(ts, pos, Tag::Minus) {
        let op = if check(ts, pos, Tag::Bang) { UnaryOp::Not } else { UnaryOp::Minus };
        let (right, p) = match unary(ts, pos + 1) {
            Ok(x) => x,
            Err(e) => return Err(e),
        };
        return Ok((Expr::Unary(op, Box::new(right)), p));
    }
    if check(ts, pos, Tag::Increment) || check(ts, pos, Tag::Decrement) {
        let increment = check(ts, pos, Tag::Increment);
        let (right, p) = match unary(ts, pos + 1) {
            Ok(x) => x,
            Err(e) => return Err(e),
        };
        if !is_place_expr(&right) {
            return Err(error_at(ts, pos, "Invalid increment/decrement target."));
        }
        if increment {
            return Ok((Expr::Increment(Box::new(right), true), p));
        } else {
            return Ok((Expr::Decrement(Box::new(right), true), p));
        }
    }
    call(ts, pos)
}

/// A primary expression followed by calls, `.name`, `[key]`, `++` or `--`.
#[verifier::rlimit(100)]
fn call(ts: &Vec<Token>, pos: usize) -> (r: MewResult<(Expr, usize)>)
    requires
        pos <= ts@.len(),
    ensures
        r matches Ok((e, q)) ==> (q == pos + 1 ==> primary_tree(ts@, pos as int, e)),
        r matches Ok((e, q)) ==> g_call(ts@, pos as int) == Some((q as int, is_place(e))),
        r is Err ==> g_call(ts@, pos as int) is None,
        advanced(r, pos, ts@),
    decreases ts@.len() - pos, 2int,
{
    let (mut expr, mut p) = match primary(ts, pos) {
        Ok(x) => x,
        Err(e) => return Err(e),
    };
    loop
        invariant
            pos < p <= ts@.len(),
            g_call(ts@, pos as int) == g_call_tail(ts@, p as int, is_place(expr)),
            p == pos + 1 ==> primary_tree(ts@, pos as int, expr),
        ensures
            !sees(ts@, p as int, Tag::LeftParen) && !sees(ts@, p as int, Tag::Dot)
                && !sees(ts@, p as int, Tag::LeftBracket) && !sees(ts@, p as int, Tag::Increment)
                && !sees(ts@, p as int, Tag::Decrement),
        decreases ts@.len() - p,
    {
        if check(ts, p, Tag::LeftParen) {
            let (args, q) = match arguments(ts, p + 1) {
                Ok(x) => x,
                Err(e) => return Err(e),
            };
            expr = Expr::Call(Box::new(expr), args);
            p = q;
        } else if check(ts, p, Tag::Dot) {
            let (name, q) = match expect_name(ts, p + 1, "Expected property name after '.'.") {
                Ok(x) => x,
                Err(e) => return Err(e),
            };
            expr = Expr::Get(Box::new(expr), name);
            p = q;
        } else if check(ts, p, Tag::LeftBracket) {
            let (key, q) = match expression(ts, p + 1) {
                Ok(x) => x,
                Err(e) => return Err(e),
            };
            let q = match expect(ts, q, Tag::RightBracket, "Expected ']' after array index.") {
                Ok(q) => q,
                Err(e) => return Err(e),
            };
            expr = Expr::Index(Box::new(expr), Box::new(key));
            p = q;
        } else if check(ts, p, Tag::Increment) || check(ts, p, Tag::Decrement) {
            if !is_place_expr(&expr) {
                return Err(error_at(ts, p, "Invalid increment/decrement target."));
            }
            if check(ts, p, Tag::Increment) {
                expr = Expr::Increment(Box::new(expr), false);
            } else {
                expr = Expr::Decrement(Box::new(expr), false);
            }
            p = p + 1;
        } else {
            break;
        }
    }
    Ok((expr, p))
}

/// Call arguments up to and including the closing `)`.
fn arguments(ts: &Vec<Token>, pos: usize) -> (r: MewResult<(Vec<Expr>, usize)>)
    requires
        pos <= ts@.len(),
    ensures
        r matches Ok((_, q)) ==> g_arguments(ts@, pos as int) == Some(q as int),
        r is Err ==> g_arguments(ts@, pos as int) is None,
        advanced(r, pos, ts@),
        r matches Ok((args, _)) ==> args@.len() <= 255,
    decreases ts@.len() - pos, 12int,
{
    let mut args: Vec<Expr> = Vec::new();
    let mut p = pos;
    if !check(ts, p, Tag::RightParen) {
        loop
            invariant_except_break
                pos <= p <= ts@.len(),
                args@.len() <= 255,
                g_arguments(ts@, pos as int) == g_arguments_from(ts@, p as int, args@.len() as int),
            ensures
                pos <= p <= ts@.len(),
                args@.len() <= 255,
                g_arguments(ts@, pos as int) == (if sees(ts@, p as int, Tag::RightParen) {
                    Some(p + 1)
                } else {
                    None
                }),
            decreases ts@.len() - p,
        {
            if args.len() >= 255 {
                return Err(error_at(ts, p, "Cannot have more than 255 arguments."));
            }
            let (a, q) = match expression(ts, p) {
                Ok(x) => x,
                Err(e) => return Err(e),
            };
            args.push(a);
            p = q;
            if check(ts, p, Tag::Comma) {
                p = p + 1;
            } else {
                break;
            }
        }
    }
    let p = match expect(ts, p, Tag::RightParen, "Expected ')' after arguments.") {
        Ok(p) => p,
        Err(e) => return Err(e),
    };
    Ok((args, p))
}

fn primary(ts: &Vec<Token>, pos: usize) -> (r: MewResult<(Expr, usize)>)
    requires
        pos <= ts@.len(),
    ensures
        sees(ts@, pos as int, Tag::LeftBracket) ==> (r matches Ok((e, _)) ==> (e matches Expr::ArrayLiteral(v)
            && elements_at(ts@, if sees(ts@, pos + 1, Tag::RightBracket) {
                Seq::empty()
            } else {
                element_starts(ts@, pos + 1)
            }, v@))),
        sees(ts@, pos as int, Tag::Function) ==> (r matches Ok((e, _)) ==> function_literal_fits(ts@, pos + 1, e)),
        r matches Ok((e, q)) ==> (q == pos + 1 ==> primary_tree(ts@, pos as int, e)),
        r matches Ok((e, q)) ==> g_primary(ts@, pos as int) == Some((q as int, is_place(e))),
        r is Err ==> g_primary(ts@, pos as int) is None,
        advanced(r, pos, ts@),
    decreases ts@.len() - pos, 1int,
{
    if at_end(ts, pos) {
        return Err(error_at(ts, pos, "Expected expression."));
    }
    let p = pos + 1;
    match &ts[pos].kind {
        TokenKind::Boolean(b) => Ok((Expr::Literal(Literal::Bool(*b)), p)),
        TokenKind::Null => Ok((Expr::Literal(Literal::Null), p)),
        TokenKind::Undefined => Ok((Expr::Literal(Literal::Undefined), p)),
        TokenKind::Number(n) => Ok((Expr::Literal(Literal::Number(n.clone())), p)),
        TokenKind::String(s) => Ok((Expr::Literal(Literal::Str(s.clone())), p)),
        TokenKind::Infinity => Ok((Expr::Literal(Literal::Infinity), p)),
        TokenKind::NaN => Ok((Expr::Literal(Literal::NaN), p)),
        TokenKind::LeftParen => {
            let (e, q) = match expression(ts, p) {
                Ok(x) => x,
                Err(e) => return Err(e),
            };
            let q = match expect(ts, q, Tag::RightParen, "Expected ')' after expression.") {
                Ok(q) => q,
                Err(e) => return Err(e),
            };
            Ok((e, q))
        },
        TokenKind::LeftBracket => array_literal(ts, p),
        TokenKind::LeftBrace => object_literal(ts, p),
        TokenKind::Function => function_expression(ts, p),
        TokenKind::Identifier(n) => Ok((Expr::Variable(n.clone()), p)),
        _ => Err(error_at(ts, pos, "Expected expression.")),
    }
}

/// `[a, b, ...]` after its `[`; a trailing comma is allowed.
#[verifier::rlimit(100)]
fn array_literal(ts: &Vec<Token>, pos: usize) -> (r: MewResult<(Expr, usize)>)
    requires
        pos <= ts@.len(),
    ensures
        r matches Ok((e, _)) ==> !is_place(e),
        r matches Ok((e, _)) ==> (e matches Expr::ArrayLiteral(v) && elements_at(ts@, if sees(ts@, pos as int, Tag::RightBracket) {
            Seq::empty()
        } else {
            element_starts(ts@, pos as int)
        }, v@)),
        r matches Ok((_, q)) ==> g_array(ts@, pos as int) == Some(q as int),
        r is Err ==> g_array(ts@, pos as int) is None,
        advanced(r, pos, ts@),
    decreases ts@.len() - pos, 12int,
{
    let mut elements: Vec<Expr> = Vec::new();
    let mut p = pos;
    let ghost mut starts: Seq<int> = Seq::empty();
    if !check(ts, p, Tag::RightBracket) {
        loop
            invariant_except_break
                pos <= p <= ts@.len(),
                g_array(ts@, pos as int) == g_elements(ts@, p as int),
                element_starts(ts@, pos as int) == starts + element_starts(ts@, p as int),
                elements_at(ts@, starts, elements@),
                !sees(ts@, pos as int, Tag::RightBracket),
            ensures
                pos <= p <= ts@.len(),
                element_starts(ts@, pos as int) == starts,
                elements_at(ts@, starts, elements@),
                !sees(ts@, pos as int, Tag::RightBracket),
                g_array(ts@, pos as int) == (if sees(ts@, p as int, Tag::RightBracket) {
                    Some(p + 1)
                } else {
                    None
                }),
            decreases ts@.len() - p,
        {
            let (e, q) = match expression(ts, p) {
                Ok(x) => x,
                Err(e) => return Err(e),
            };
            let ghost c = p as int;
            proof {
                let rest = element_starts(ts@, c);
                if !sees(ts@, q as int, Tag::Comma) || sees(ts@, q + 1, Tag::RightBracket) {
                    assert(rest == seq![c]);
                } else {
                    assert(rest == seq![c] + element_starts(ts@, q + 1));
                    assert(starts + (seq![c] + element_starts(ts@, q + 1)) =~= starts.push(c) + element_starts(ts@, q + 1));
                }
                assert(starts + seq![c] =~= starts.push(c));
                starts = starts.push(c);
            }
            let ghost old_el = elements@;
            elements.push(e);
            proof {
                assert forall|k: int| 0 <= k < elements@.len() implies expr_fits(ts@, starts[k], #[trigger] elements@[k]) by {
                    if k < old_el.len() {
                        assert(elements@[k] == old_el[k]);
                    }
                }
            }
            p = q;
            if !check(ts, p, Tag::Comma) {
                break;
            }
            p = p + 1;
            if check(ts, p, Tag::RightBracket) {
                break;
            }
        }
    }
    let p = match expect(ts, p, Tag::RightBracket, "Expected ']' after array elements.") {
        Ok(p) => p,
        Err(e) => return Err(e),
    };
    Ok((Expr::ArrayLiteral(elements), p))
}

/// `{ key: value, ... }` after its `{`; a key is a name or a string.
#[verifier::rlimit(100)]
fn object_literal(ts: &Vec<Token>, pos: usize) -> (r: MewResult<(Expr, usize)>)
    requires
        pos <= ts@.len(),
    ensures
        r matches Ok((e, _)) ==> !is_place(e),
        r matches Ok((_, q)) ==> g_object(ts@, pos as int) == Some(q as int),
        r is Err ==> g_object(ts@, pos as int) is None,
        advanced(r, pos, ts@),
    decreases ts@.len() - pos, 12int,
{
    let mut properties: Vec<(String, Expr)> = Vec::new();
    let mut p = pos;
    if !check(ts, p, Tag::RightBrace) {
        loop
            invariant_except_break
                pos <= p <= ts@.len(),
                g_object(ts@, pos as int) == g_properties(ts@, p as int),
            ensures
                pos <= p <= ts@.len(),
                g_object(ts@, pos as int) == (if sees(ts@, p as int, Tag::RightBrace) {
                    Some(p + 1)
                } else {
                    None
                }),
            decreases ts@.len() - p,
        {
            if at_end(ts, p) {
                return Err(error_at(ts, p, "Expected property name or string."));
            }
            let key = match &ts[p].kind {
                TokenKind::Identifier(n) => {
                    if !check(ts, p + 1, Tag::Colon) {
                        return Err(error_at(ts, p, "Expected ':' after property name."));
                    }
                    n.clone()
                },
                TokenKind::String(s) => s.clone(),
                _ => {
                    return Err(error_at(ts, p, "Expected property name or string."));
                },
            };
            let q = match expect(ts, p + 1, Tag::Colon, "Expected ':' after property name.") {
                Ok(q) => q,
                Err(e) => return Err(e),
            };
            let (value, q) = match expression(ts, q) {
                Ok(x) => x,
                Err(e) => return Err(e),
            };
            properties.push((key, value));
            p = q;
            if !check(ts, p, Tag::Comma) {
                break;
            }
            p = p + 1;
            if check(ts, p, Tag::RightBrace) {
                break;
            }
        }
    }
    let p = match expect(ts, p, Tag::RightBrace, "Expected '}' after object properties.") {
        Ok(p) => p,
        Err(e) => return Err(e),
    };
    Ok((Expr::ObjectLiteral(properties), p))
}

/// A function literal after `cat`: an optional name, the parameters, and
/// either a block or `=>` with a block or a single expression to return.
fn function_expression(ts: &Vec<Token>, pos: usize) -> (r: MewResult<(Expr, usize)>)
    requires
        pos <= ts@.len(),
    ensures
        r matches Ok((e, _)) ==> !is_place(e),
        r matches Ok((e, _)) ==> function_literal_fits(ts@, pos as int, e),
        r matches Ok((_, q)) ==> g_function_expression(ts@, pos as int) == Some(q as int),
        r is Err ==> g_function_expression(ts@, pos as int) is None,
        advanced(r, pos, ts@),
    decreases ts@.len() - pos, 12int,
{
    let mut name: Option<String> = None;
    let mut p = pos;
    if pos < ts.len() {
        match &ts[pos].kind {
            TokenKind::Identifier(n) => {
                name = Some(n.clone());
                p = pos + 1;
            },
            _ => {},
        }
    }
    let p = match expect(ts, p, Tag::LeftParen, "Expected '(' after function name.") {
        Ok(p) => p,
        Err(e) => return Err(e),
    };
    let (params, p) = match parameters(ts, p) {
        Ok(x) => x,
        Err(e) => return Err(e),
    };
    if check(ts, p, Tag::Arrow) {
        if check(ts, p + 1, Tag::LeftBrace) {
            let (body, q) = match block(ts, p + 2) {
                Ok(x) => x,
                Err(e) => return Err(e),
            };
            return Ok((Expr::Function(name, params, body), q));
        }
        let (e, q) = match expression(ts, p + 1) {
            Ok(x) => x,
            Err(e) => return Err(e),
        };
        let mut body: Vec<Stmt> = Vec::new();
        body.push(Stmt::Return(Some(e)));
        return Ok((Expr::Function(name, params, body), q));
    }
    let p = match expect(ts, p, Tag::LeftBrace, "Expected '{' before function body.") {
        Ok(p) => p,
        Err(e) => return Err(e),
    };
    let (body, q) = match block(ts, p) {
        Ok(x) => x,
        Err(e) => return Err(e),
    };
    Ok((Expr::Function(name, params, body), q))
}

// ---------------------------------------------------------------------------
// Statements

/// The statements of a block after its `{`, up to and including the `}`.
fn block(ts: &Vec<Token>, pos: usize) -> (r: MewResult<(Vec<Stmt>, usize)>)
    requires
        pos <= ts@.len(),
    ensures
        r matches Ok((v, _)) ==> decls_at(ts@, block_starts(ts@, pos as int), v@),
        r matches Ok((_, q)) ==> g_block(ts@, pos as int) == Some(q as int),
        r is Err ==> g_block(ts@, pos as int) is None,
        advanced(r, pos, ts@),
    decreases ts@.len() - pos, 17int,
{
    let mut statements: Vec<Stmt> = Vec::new();
    let mut p = pos;
    let ghost mut starts: Seq<int> = Seq::empty();
    while !check(ts, p, Tag::RightBrace) && !at_end(ts, p)
        invariant
            pos <= p <= ts@.len(),
            g_block(ts@, pos as int) == g_block(ts@, p as int),
            block_starts(ts@, pos as int) == starts + block_starts(ts@, p as int),
            decls_at(ts@, starts, statements@),
        decreases ts@.len() - p,
    {
        let (s, q) = match declaration(ts, p) {
            Ok(x) => x,
            Err(e) => return Err(e),
        };
        proof {
            let c = p as int;
            assert(block_starts(ts@, c) == seq![c] + block_starts(ts@, q as int));
            assert(starts + (seq![c] + block_starts(ts@, q as int)) =~= starts.push(c) + block_starts(ts@, q as int));
            starts = starts.push(c);
        }
        statements.push(s);
        p = q;
    }
    let p = match expect(ts, p, Tag::RightBrace, "Expected '}' after block.") {
        Ok(p) => p,
        Err(e) => return Err(e),
    };
    assert(starts + block_starts(ts@, (p - 1) as int) =~= starts);
    Ok((statements, p))
}

/// A declaration (`catv`/`catlt`/`catst` or `cat name(...)`) or a statement.
pub fn declaration(ts: &Vec<Token>, pos: usize) -> (r: MewResult<(Stmt, usize)>)
    requires
        pos <= ts@.len(),
    ensures
        sees(ts@, pos as int, Tag::Function) ==> (r matches Ok((s, _)) ==> (s matches Stmt::Function(_, ps, b)
            && params_at(ts@, pos + 3, ps@) && decls_at(ts@, block_starts(ts@, params_end(ts@, pos + 3) + 1), b@))),
        r matches Ok((s, _)) ==> decl_head(ts@, pos as int, s),
        r matches Ok((_, q)) ==> g_declaration(ts@, pos as int) == Some(q as int),
        r is Err ==> g_declaration(ts@, pos as int) is None,
        advanced(r, pos, ts@),
    decreases ts@.len() - pos, 16int,
{
    if check(ts, pos, Tag::Var) || check(ts, pos, Tag::Let) || check(ts, pos, Tag::Const) {
        return var_declaration(ts, pos);
    }
    if check(ts, pos, Tag::Function) {
        return function_declaration(ts, pos + 1);
    }
    statement(ts, pos)
}

/// `catv name [= value];` from its keyword; only `catst` makes a constant.
#[verifier::rlimit(100)]
fn var_declaration(ts: &Vec<Token>, pos: usize) -> (r: MewResult<(Stmt, usize)>)
    requires
        pos < ts@.len(),
    ensures
        r matches Ok((s, _)) ==> (s matches Stmt::VarDeclaration(n, init, _) && ts@[pos + 1].kind == TokenKind::Identifier(n)
            && (init is Some <==> sees(ts@, pos + 2, Tag::Equal)) && (init matches Some(e) ==> expr_fits(ts@, pos + 3, e))),
        r matches Ok((_, q)) ==> g_var_declaration(ts@, pos as int) == Some(q as int),
        r is Err ==> g_var_declaration(ts@, pos as int) is None,
        advanced(r, pos, ts@),
        r matches Ok((Stmt::VarDeclaration(_, _, c), _)) ==> c == sees(ts@, pos as int, Tag::Const),
    decreases ts@.len() - pos, 12int,
{
    let is_const = check(ts, pos, Tag::Const);
    let (name, p) = match expect_name(ts, pos + 1, "Expected variable name.") {
        Ok(x) => x,
        Err(e) => return Err(e),
    };
    let mut init: Option<Expr> = None;
    let mut p = p;
    if check(ts, p, Tag::Equal) {
        let (e, q) = match expression(ts, p + 1) {
            Ok(x) => x,
            Err(e) => return Err(e),
        };
        init = Some(e);
        p = q;
    }
    let p = match expect(ts, p, Tag::Semicolon, "Expected ';' after variable declaration.") {
        Ok(p) => p,
        Err(e) => return Err(e),
    };
    Ok((Stmt::VarDeclaration(name, init, is_const), p))
}

/// `cat name(params) { body }` after `cat`.
fn function_declaration(ts: &Vec<Token>, pos: usize) -> (r: MewResult<(Stmt, usize)>)
    requires
        pos <= ts@.len(),
    ensures
        r matches Ok((s, _)) ==> (s matches Stmt::Function(n, ps, b) && ts@[pos as int].kind == TokenKind::Identifier(n)
            && params_at(ts@, pos + 2, ps@) && decls_at(ts@, block_starts(ts@, params_end(ts@, pos + 2) + 1), b@)),
        r matches Ok((_, q)) ==> g_function_declaration(ts@, pos as int) == Some(q as int),
        r is Err ==> g_function_declaration(ts@, pos as int) is None,
        advanced(r, pos, ts@),
    decreases ts@.len() - pos, 12int,
{
    let (name, p) = match expect_name(ts, pos, "Expected function name.") {
        Ok(x) => x,
        Err(e) => return Err(e),
    };
    let p = match expect(ts, p, Tag::LeftParen, "Expected '(' after function name.") {
        Ok(p) => p,
        Err(e) => return Err(e),
    };
    let (params, p) = match parameters(ts, p) {
        Ok(x) => x,
        Err(e) => return Err(e),
    };
    let p = match expect(ts, p, Tag::LeftBrace, "Expected '{' before function body.") {
        Ok(p) => p,
        Err(e) => return Err(e),
    };
    let (body, p) = match block(ts, p) {
        Ok(x) => x,
        Err(e) => return Err(e),
    };
    Ok((Stmt::Function(name, params, body), p))
}

fn statement(ts: &Vec<Token>, pos: usize) -> (r: MewResult<(Stmt, usize)>)
    requires
        pos <= ts@.len(),
    ensures
        sees(ts@, pos as int, Tag::LeftBrace) ==> (r matches Ok((s, _)) ==> (s matches Stmt::Block(v) && decls_at(ts@, block_starts(ts@, pos + 1), v@))),
        r matches Ok((s, _)) ==> stmt_head(ts@, pos as int, s),
        r matches Ok((_, q)) ==> g_statement(ts@, pos as int) == Some(q as int),
        r is Err ==> g_statement(ts@, pos as int) is None,
        advanced(r, pos, ts@),
    decreases ts@.len() - pos, 15int,
{
    if check(ts, pos, Tag::Print) {
        return print_statement(ts, pos + 1);
    }
    if check(ts, pos, Tag::LeftBrace) {
        let (body, p) = match block(ts, pos + 1) {
            Ok(x) => x,
            Err(e) => return Err(e),
        };
        return Ok((Stmt::Block(body), p));
    }
    if check(ts, pos, Tag::If) {
        return if_statement(ts, pos + 1);
    }
    if check(ts, pos, Tag::While) {
        return while_statement(ts, pos + 1);
    }
    if check(ts, pos, Tag::Do) {
        return do_while_statement(ts, pos + 1);
    }
    if check(ts, pos, Tag::For) {
        return for_statement(ts, pos + 1);
    }
    if check(ts, pos, Tag::Break) {
        let p = match expect(ts, pos + 1, Tag::Semicolon, "Expected ';' after break statement.") {
            Ok(p) => p,
            Err(e) => return Err(e),
        };
        return Ok((Stmt::Break, p));
    }
    if check(ts, pos, Tag::Continue) {
        let p = match expect(ts, pos + 1, Tag::Semicolon, "Expected ';' after continue statement.") {
            Ok(p) => p,
            Err(e) => return Err(e),
        };
        return Ok((Stmt::Continue, p));
    }
    if check(ts, pos, Tag::Return) {
        return return_statement(ts, pos + 1);
    }
    if check(ts, pos, Tag::Switch) {
        return switch_statement(ts, pos + 1);
    }
    expression_statement(ts, pos)
}

/// `(cond)`, through the `)`.
fn condition(ts: &Vec<Token>, pos: usize, open: &str, close: &str) -> (r: MewResult<(Expr, usize)>)
    requires
        pos <= ts@.len(),
    ensures
        r matches Ok((e, _)) ==> expr_fits(ts@, pos + 1, e),
        r matches Ok((_, q)) ==> g_condition(ts@, pos as int) == Some(q as int),
        r is Err ==> g_condition(ts@, pos as int) is None,
        advanced(r, pos, ts@),
    decreases ts@.len() - pos, 12int,
{
    let p = match expect(ts, pos, Tag::LeftParen, open) {
        Ok(p) => p,
        Err(e) => return Err(e),
    };
    let (cond, p) = match expression(ts, p) {
        Ok(x) => x,
        Err(e) => return Err(e),
    };
    let p = match expect(ts, p, Tag::RightParen, close) {
        Ok(p) => p,
        Err(e) => return Err(e),
    };
    Ok((cond, p))
}

/// `purr(value);` after `purr`.
fn print_statement(ts: &Vec<Token>, pos: usize) -> (r: MewResult<(Stmt, usize)>)
    requires
        pos <= ts@.len(),
    ensures
        r matches Ok((s, _)) ==> (s matches Stmt::Print(e) && expr_fits(ts@, pos + 1, e)),
        r matches Ok((_, q)) ==> g_print(ts@, pos as int) == Some(q as int),
        r is Err ==> g_print(ts@, pos as int) is None,
        advanced(r, pos, ts@),
    decreases ts@.len() - pos, 13int,
{
    let (value, p) = match condition(ts, pos, "Expected '(' after 'purr'.", "Expected ')' after expression.") {
        Ok(x) => x,
        Err(e) => return Err(e),
    };
    let p = match expect(ts, p, Tag::Semicolon, "Expected ';' after value.") {
        Ok(p) => p,
        Err(e) => return Err(e),
    };
    Ok((Stmt::Print(value), p))
}

/// `(cond) then [meowse? (...) ... | hiss else]` after `meow?` or `meowse?`.
fn if_statement(ts: &Vec<Token>, pos: usize) -> (r: MewResult<(Stmt, usize)>)
    requires
        pos <= ts@.len(),
    ensures
        r matches Ok((s, _)) ==> (s matches Stmt::If(c, t, _) && expr_fits(ts@, pos + 1, c)
            && (g_condition(ts@, pos as int) matches Some(k) ==> stmt_head(ts@, k, *t))),
        r matches Ok((_, q)) ==> g_if(ts@, pos as int) == Some(q as int),
        r is Err ==> g_if(ts@, pos as int) is None,
        advanced(r, pos, ts@),
    decreases ts@.len() - pos, 13int,
{
    let (cond, p) = match condition(ts, pos, "Expected '(' after 'meow?'.", "Expected ')' after condition.") {
        Ok(x) => x,
        Err(e) => return Err(e),
    };
    let (then_branch, p) = match statement(ts, p) {
        Ok(x) => x,
        Err(e) => return Err(e),
    };
    if check(ts, p, Tag::ElseIf) {
        let (other, q) = match if_statement(ts, p + 1) {
            Ok(x) => x,
            Err(e) => return Err(e),
        };
        return Ok((Stmt::If(cond, Box::new(then_branch), Some(Box::new(other))), q));
    }
    if check(ts, p, Tag::Else) {
        let (other, q) = match statement(ts, p + 1) {
            Ok(x) => x,
            Err(e) => return Err(e),
        };
        return Ok((Stmt::If(cond, Box::new(then_branch), Some(Box::new(other))), q));
    }
    Ok((Stmt::If(cond, Box::new(then_branch), None), p))
}

/// `(cond) body` after `mewhile`.
fn while_statement(ts: &Vec<Token>, pos: usize) -> (r: MewResult<(Stmt, usize)>)
    requires
        pos <= ts@.len(),
    ensures
        r matches Ok((s, _)) ==> (s matches Stmt::While(c, b) && expr_fits(ts@, pos + 1, c)
            && (g_condition(ts@, pos as int) matches Some(k) ==> stmt_head(ts@, k, *b))),
        r matches Ok((_, q)) ==> g_while(ts@, pos as int) == Some(q as int),
        r is Err ==> g_while(ts@, pos as int) is None,
        advanced(r, pos, ts@),
    decreases ts@.len() - pos, 13int,
{
    let (cond, p) = match condition(ts, pos, "Expected '(' after 'mewhile'.", "Expected ')' after condition.") {
        Ok(x) => x,
        Err(e) => return Err(e),
    };
    let (body, p) = match statement(ts, p) {
        Ok(x) => x,
        Err(e) => return Err(e),
    };
    Ok((Stmt::While(cond, Box::new(body)), p))
}

/// `body mewhile (cond);` after `mewdo`.
#[verifier::rlimit(100)]
fn do_while_statement(ts: &Vec<Token>, pos: usize) -> (r: MewResult<(Stmt, usize)>)
    requires
        pos <= ts@.len(),
    ensures
        r matches Ok((s, _)) ==> (s matches Stmt::Block(v) && v@.len() == 2 && stmt_head(ts@, pos as int, v@[0])
            && (v@[1] matches Stmt::While(c, b) && stmt_head(ts@, pos as int, *b)
                && expr_fits(ts@, stmt_end(ts@, pos as int) + 2, c))),
        r matches Ok((_, q)) ==> g_do_while(ts@, pos as int) == Some(q as int),
        r is Err ==> g_do_while(ts@, pos as int) is None,
        advanced(r, pos, ts@),
    decreases ts@.len() - pos, 16int,
{
    let (body, p) = match statement(ts, pos) {
        Ok(x) => x,
        Err(e) => return Err(e),
    };
    let p = match expect(ts, p, Tag::While, "Expected 'mewhile' after block in do-while statement.") {
        Ok(p) => p,
        Err(e) => return Err(e),
    };
    let (cond, p) = match condition(ts, p, "Expected '(' after 'mewhile'.", "Expected ')' after condition.") {
        Ok(x) => x,
        Err(e) => return Err(e),
    };
    let p = match expect(ts, p, Tag::Semicolon, "Expected ';' after do-while statement.") {
        Ok(p) => p,
        Err(e) => return Err(e),
    };
    let (again, _) = match statement(ts, pos) {
        Ok(x) => x,
        Err(e) => return Err(e),
    };
    Ok((Stmt::Block(two(body, Stmt::While(cond, Box::new(again)))), p))
}

fn two(a: Stmt, b: Stmt) -> (r: Vec<Stmt>)
    ensures
        r@ == seq![a, b],
{
    let mut v: Vec<Stmt> = Vec::new();
    v.push(a);
    v.push(b);
    v
}

/// The loop after `fur`: three clauses, or `(declaration in|of iterable)`.
#[verifier::rlimit(100)]
fn for_statement(ts: &Vec<Token>, pos: usize) -> (r: MewResult<(Stmt, usize)>)
    requires
        pos <= ts@.len(),
    ensures
        r matches Ok((s, _)) ==> s is Block || s is While,
        r matches Ok((_, q)) ==> g_for(ts@, pos as int) == Some(q as int),
        r is Err ==> g_for(ts@, pos as int) is None,
        advanced(r, pos, ts@),
        r matches Ok((s, _)) ==> for_tied(ts@, pos as int, s),
    decreases ts@.len() - pos, 12int,
{
    let p = match expect(ts, pos, Tag::LeftParen, "Expected '(' after 'fur'.") {
        Ok(p) => p,
        Err(e) => return Err(e),
    };
    let ghost h = p as int;
    let init: Option<Stmt>;
    let mut p = p;
    if check(ts, p, Tag::Var) || check(ts, p, Tag::Let) || check(ts, p, Tag::Const) {
        let is_const = check(ts, p, Tag::Const);
        let (name, q) = match expect_name(ts, p + 1, "Expected variable name.") {
            Ok(x) => x,
            Err(e) => return Err(e),
        };
        let mut value: Option<Expr> = None;
        let mut q = q;
        if check(ts, q, Tag::Equal) {
            let (e, q2) = match expression(ts, q + 1) {
                Ok(x) => x,
                Err(e) => return Err(e),
            };
            value = Some(e);
            q = q2;
        }
        let ghost (gname, gvalue) = (name, value);
        proof {
            assert(decl_head(ts@, h, Stmt::VarDeclaration(gname, gvalue, is_const)));
        }
        if check(ts, q, Tag::In) || check(ts, q, Tag::Of) {
            let is_of = check(ts, q, Tag::Of);
            let r = for_in_of_statement(ts, q + 1, name, value, is_const, is_of);
            return r;
        }
        p = match expect(ts, q, Tag::Semicolon, "Expected ';' after variable declaration.") {
            Ok(p) => p,
            Err(e) => return Err(e),
        };
        init = Some(Stmt::VarDeclaration(name, value, is_const));
    } else if check(ts, p, Tag::Semicolon) {
        init = None;
        p = p + 1;
    } else {
        let (s, q) = match expression_statement(ts, p) {
            Ok(x) => x,
            Err(e) => return Err(e),
        };
        proof {
            assert(header_expression(ts@, h, s));
        }
        init = Some(s);
        p = q;
    }
    for_clauses(ts, p, init)
}

/// The condition and increment of a three-clause loop after its first
/// `;`, then the body; `init` is the loop's initializer.
#[verifier::rlimit(100)]
fn for_clauses(ts: &Vec<Token>, pos: usize, init: Option<Stmt>) -> (r: MewResult<(Stmt, usize)>)
    requires
        pos <= ts@.len(),
    ensures
        r matches Ok((_, q)) ==> g_for_clauses(ts@, pos as int) == Some(q as int),
        r is Err ==> g_for_clauses(ts@, pos as int) is None,
        advanced(r, pos, ts@),
        r matches Ok((s, _)) ==> loop_tied(ts@, pos as int, s, init),
    decreases ts@.len() - pos, 12int,
{
    let mut p = pos;
    let mut cond = Expr::Literal(Literal::Bool(true));
    if !check(ts, p, Tag::Semicolon) {
        let (c, q) = match expression(ts, p) {
            Ok(x) => x,
            Err(e) => return Err(e),
        };
        cond = c;
        p = q;
    }
    let p = match expect(ts, p, Tag::Semicolon, "Expected ';' after loop condition.") {
        Ok(p) => p,
        Err(e) => return Err(e),
    };
    let mut inc: Option<Expr> = None;
    let mut p = p;
    if !check(ts, p, Tag::RightParen) {
        let (e, q) = match expression(ts, p) {
            Ok(x) => x,
            Err(e) => return Err(e),
        };
        inc = Some(e);
        p = q;
    }
    let p = match expect(ts, p, Tag::RightParen, "Expected ')' after for clauses.") {
        Ok(p) => p,
        Err(e) => return Err(e),
    };
    let (body, p) = match statement(ts, p) {
        Ok(x) => x,
        Err(e) => return Err(e),
    };
    let ghost (gi, gc, gn, gb) = (init, cond, inc, body);
    let s = desugar_for(init, cond, inc, body);
    assert(is_for_loop(s, gi, gc, gn, gb));
    assert(clauses_tied(ts@, pos as int, gc, gn, gb));
    Ok((s, p))
}

/// `iterable) body` after `in` or `of`.
fn for_in_of_statement(
    ts: &Vec<Token>,
    pos: usize,
    name: String,
    init: Option<Expr>,
    is_const: bool,
    is_of: bool,
) -> (r: MewResult<(Stmt, usize)>)
    requires
        pos <= ts@.len(),
    ensures
        r matches Ok((_, q)) ==> g_for_in_of(ts@, pos as int) == Some(q as int),
        r is Err ==> g_for_in_of(ts@, pos as int) is None,
        advanced(r, pos, ts@),
        r matches Ok((s, _)) ==> in_of_tied(ts@, pos as int, s, name@, init, is_const, is_of),
    decreases ts@.len() - pos, 12int,
{
    let (iterable, p) = match expression(ts, pos) {
        Ok(x) => x,
        Err(e) => return Err(e),
    };
    let p = match expect(ts, p, Tag::RightParen, "Expected ')' after for-in/of clauses.") {
        Ok(p) => p,
        Err(e) => return Err(e),
    };
    let (body, p) = match statement(ts, p) {
        Ok(x) => x,
        Err(e) => return Err(e),
    };
    let ghost (gname, ginit, git, gb) = (name@, init, iterable, body);
    let s = desugar_for_in_of(name, init, is_const, is_of, iterable, body);
    assert(is_for_in_of(s, gname, ginit, is_const, is_of, git, gb));
    assert(expr_fits(ts@, pos as int, git));
    assert(stmt_head(ts@, expr_end(ts@, pos as int) + 1, gb));
    Ok((s, p))
}

/// `[value];` after `return`.
fn return_statement(ts: &Vec<Token>, pos: usize) -> (r: MewResult<(Stmt, usize)>)
    requires
        pos <= ts@.len(),
    ensures
        r matches Ok((s, _)) ==> (s matches Stmt::Return(v) && (v is Some <==> !sees(ts@, pos as int, Tag::Semicolon))
            && (v matches Some(e) ==> expr_fits(ts@, pos as int, e))),
        r matches Ok((_, q)) ==> g_return(ts@, pos as int) == Some(q as int),
        r is Err ==> g_return(ts@, pos as int) is None,
        advanced(r, pos, ts@),
    decreases ts@.len() - pos, 12int,
{
    let mut value: Option<Expr> = None;
    let mut p = pos;
    if !check(ts, p, Tag::Semicolon) {
        let (e, q) = match expression(ts, p) {
            Ok(x) => x,
            Err(e) => return Err(e),
        };
        value = Some(e);
        p = q;
    }
    let p = match expect(ts, p, Tag::Semicolon, "Expected ';' after return value.") {
        Ok(p) => p,
        Err(e) => return Err(e),
    };
    Ok((Stmt::Return(value), p))
}

/// The statements of one switch clause, up to the next clause or the `}`.
fn clause_body(ts: &Vec<Token>, pos: usize) -> (r: MewResult<(Vec<Stmt>, usize)>)
    requires
        pos <= ts@.len(),
    ensures
        r matches Ok((v, _)) ==> decls_at(ts@, clause_starts(ts@, pos as int), v@),
        r matches Ok((_, q)) ==> g_clause_body(ts@, pos as int) == Some(q as int),
        r is Err ==> g_clause_body(ts@, pos as int) is None,
        moved(r, pos, ts@),
    decreases ts@.len() - pos, 17int,
{
    let mut statements: Vec<Stmt> = Vec::new();
    let mut p = pos;
    let ghost mut starts: Seq<int> = Seq::empty();
    while !check(ts, p, Tag::Case) && !check(ts, p, Tag::Default) && !check(ts, p, Tag::RightBrace)
        && !at_end(ts, p)
        invariant
            pos <= p <= ts@.len(),
            g_clause_body(ts@, pos as int) == g_clause_body(ts@, p as int),
            clause_starts(ts@, pos as int) == starts + clause_starts(ts@, p as int),
            decls_at(ts@, starts, statements@),
        decreases ts@.len() - p,
    {
        let (s, q) = match declaration(ts, p) {
            Ok(x) => x,
            Err(e) => return Err(e),
        };
        proof {
            let c = p as int;
            assert(clause_starts(ts@, c) == seq![c] + clause_starts(ts@, q as int));
            assert(starts + (seq![c] + clause_starts(ts@, q as int)) =~= starts.push(c) + clause_starts(ts@, q as int));
            starts = starts.push(c);
        }
        statements.push(s);
        p = q;
    }
    assert(starts + clause_starts(ts@, p as int) =~= starts);
    Ok((statements, p))
}

/// `(subject) { claw value: ... default: ... }` after `catwalk`.
#[verifier::rlimit(100)]
fn switch_statement(ts: &Vec<Token>, pos: usize) -> (r: MewResult<(Stmt, usize)>)
    requires
        pos <= ts@.len(),
    ensures
        r matches Ok((s, _)) ==> (s matches Stmt::Switch(subject, cl) && expr_fits(ts@, pos + 1, subject)
            && clauses_at(ts@, clause_keys(ts@, cond_end(ts@, pos as int) + 1), cl@)),
        r matches Ok((_, q)) ==> g_switch(ts@, pos as int) == Some(q as int),
        r is Err ==> g_switch(ts@, pos as int) is None,
        advanced(r, pos, ts@),
    decreases ts@.len() - pos, 13int,
{
    let (subject, p) = match condition(ts, pos, "Expected '(' after 'catwalk'.", "Expected ')' after value.") {
        Ok(x) => x,
        Err(e) => return Err(e),
    };
    let p = match expect(ts, p, Tag::LeftBrace, "Expected '{' after switch value.") {
        Ok(p) => p,
        Err(e) => return Err(e),
    };
    let mut clauses: Vec<(Option<Expr>, Vec<Stmt>)> = Vec::new();
    let mut p = p;
    let ghost first = p as int;
    let ghost mut keys: Seq<int> = Seq::empty();
    while !check(ts, p, Tag::RightBrace) && !at_end(ts, p)
        invariant
            pos < p <= ts@.len(),
            g_switch(ts@, pos as int) == g_clauses(ts@, p as int),
            first == cond_end(ts@, pos as int) + 1,
            clause_keys(ts@, first) == keys + clause_keys(ts@, p as int),
            clauses_at(ts@, keys, clauses@),
        decreases ts@.len() - p,
    {
        let ghost c = p as int;
        if check(ts, p, Tag::Case) {
            let (value, q) = match expression(ts, p + 1) {
                Ok(x) => x,
                Err(e) => return Err(e),
            };
            let q = match expect(ts, q, Tag::Colon, "Expected ':' after case value.") {
                Ok(q) => q,
                Err(e) => return Err(e),
            };
            let (body, q) = match clause_body(ts, q) {
                Ok(x) => x,
                Err(e) => return Err(e),
            };
            proof {
                assert(clause_keys(ts@, c) == seq![c] + clause_keys(ts@, q as int));
                assert(keys + (seq![c] + clause_keys(ts@, q as int)) =~= keys.push(c) + clause_keys(ts@, q as int));
                keys = keys.push(c);
            }
            let ghost old_cl = clauses@;
            clauses.push((Some(value), body));
            proof {
                assert(clauses@ == old_cl.push(clauses@[clauses@.len() - 1]));
                assert forall|k: int| 0 <= k < clauses@.len() implies {
                    &&& ((#[trigger] clauses@[k]).0 is Some <==> sees(ts@, keys[k], Tag::Case))
                    &&& clauses@[k].0 matches Some(e) ==> expr_fits(ts@, keys[k] + 1, e)
                    &&& decls_at(ts@, clause_starts(ts@, clause_body_start(ts@, keys[k])), clauses@[k].1@)
                } by {
                    if k < old_cl.len() {
                        assert(clauses@[k] == old_cl[k]);
                    }
                }
            }
            p = q;
        } else if check(ts, p, Tag::Default) {
            let q = match expect(ts, p + 1, Tag::Colon, "Expected ':' after default.") {
                Ok(q) => q,
                Err(e) => return Err(e),
            };
            let (body, q) = match clause_body(ts, q) {
                Ok(x) => x,
                Err(e) => return Err(e),
            };
            proof {
                assert(clause_keys(ts@, c) == seq![c] + clause_keys(ts@, q as int));
                assert(keys + (seq![c] + clause_keys(ts@, q as int)) =~= keys.push(c) + clause_keys(ts@, q as int));
                keys = keys.push(c);
            }
            let ghost old_cl = clauses@;
            clauses.push((None, body));
            proof {
                assert(clauses@ == old_cl.push(clauses@[clauses@.len() - 1]));
                assert forall|k: int| 0 <= k < clauses@.len() implies {
                    &&& ((#[trigger] clauses@[k]).0 is Some <==> sees(ts@, keys[k], Tag::Case))
                    &&& clauses@[k].0 matches Some(e) ==> expr_fits(ts@, keys[k] + 1, e)
                    &&& decls_at(ts@, clause_starts(ts@, clause_body_start(ts@, keys[k])), clauses@[k].1@)
                } by {
                    if k < old_cl.len() {
                        assert(clauses@[k] == old_cl[k]);
                    }
                }
            }
            p = q;
        } else {
            return Err(error_at(ts, p, "Expected 'claw' or 'default' in switch statement."));
        }
    }
    let p = match expect(ts, p, Tag::RightBrace, "Expected '}' after switch cases.") {
        Ok(p) => p,
        Err(e) => return Err(e),
    };
    assert(keys + clause_keys(ts@, (p - 1) as int) =~= keys);
    Ok((Stmt::Switch(subject, clauses), p))
}

/// `value;`
fn expression_statement(ts: &Vec<Token>, pos: usize) -> (r: MewResult<(Stmt, usize)>)
    requires
        pos <= ts@.len(),
    ensures
        r matches Ok((s, _)) ==> (s matches Stmt::Expression(e) && expr_fits(ts@, pos as int, e)),
        r matches Ok((s, _)) ==> s is Expression,
        r matches Ok((_, q)) ==> g_expression_statement(ts@, pos as int) == Some(q as int),
        r is Err ==> g_expression_statement(ts@, pos as int) is None,
        advanced(r, pos, ts@),
    decreases ts@.len() - pos, 12int,
{
    let (e, p) = match expression(ts, pos) {
        Ok(x) => x,
        Err(e) => return Err(e),
    };
    let p = match expect(ts, p, Tag::Semicolon, "Expected ';' after expression.") {
        Ok(p) => p,
        Err(e) => return Err(e),
    };
    Ok((Stmt::Expression(e), p))
}

/// Position `p` starts a new statement: it follows a `;`, or holds a
/// keyword that begins a statement.
pub open spec fn boundary(ts: Seq<Token>, p: int) -> bool {
    (0 < p <= ts.len() && tag_of(ts[p - 1].kind) == Tag::Semicolon) || (!ended(ts, p) && {
        let t = tag_of(ts[p].kind);
        t == Tag::Function || t == Tag::Var || t == Tag::Let || t == Tag::Const || t == Tag::For
            || t == Tag::If || t == Tag::While || t == Tag::Print || t == Tag::Return
    })
}

/// Skips to the next statement boundary after the token at `pos`: past a
/// `;`, or to a keyword that starts a statement, or to the end.
/// `r` is the next statement boundary after the token at `p`: past a `;`,
/// at a keyword that starts a statement, or at the end.
pub open spec fn resynced(ts: Seq<Token>, p: int, r: int) -> bool {
    &&& p <= r <= ts.len()
    &&& ended(ts, p) ==> r == p
    &&& !ended(ts, p) ==> {
        &&& p < r
        &&& ended(ts, r) || boundary(ts, r)
        &&& forall|j: int| p < j < r ==> !ended(ts, j) && !boundary(ts, j)
    }
}

fn synchronize(ts: &Vec<Token>, pos: usize) -> (r: usize)
    requires
        pos <= ts@.len(),
    ensures
        resynced(ts@, pos as int, r as int),
{
    let mut p = pos;
    if !at_end(ts, p) {
        p = p + 1;
    }
    while !at_end(ts, p)
        invariant
            pos <= p <= ts@.len(),
            !ended(ts@, pos as int) ==> pos < p,
            ended(ts@, pos as int) ==> p == pos,
            forall|j: int| pos < j < p ==> !ended(ts@, j) && !boundary(ts@, j),
        decreases ts@.len() - p,
    {
        if p > 0 && tag(&ts[p - 1].kind) == Tag::Semicolon {
            return p;
        }
        let t = tag(&ts[p].kind);
        if t == Tag::Function || t == Tag::Var || t == Tag::Let || t == Tag::Const || t == Tag::For
            || t == Tag::If || t == Tag::While || t == Tag::Print || t == Tag::Return {
            return p;
        }
        p = p + 1;
    }
    p
}

/// Turns a token stream into the program's statements.
pub struct Parser {
    tokens: Vec<Token>,
    current: usize,
}

impl Parser {
    pub closed spec fn tokens(self) -> Seq<Token> {
        self.tokens@
    }

    pub closed spec fn position(self) -> int {
        self.current as int
    }

    pub fn new(tokens: Vec<Token>) -> (r: Parser)
        ensures
            r.tokens() == tokens@,
            r.position() == 0,
    {
        Parser { tokens, current: 0 }
    }

    /// Every top-level statement, or the first Syntax error. Parsing stops
    /// at the end of the tokens or at the end-of-stream token, whichever
    /// comes first.
    pub fn parse(&mut self) -> (r: MewResult<Vec<Stmt>>)
        requires
            0 <= old(self).position() <= old(self).tokens().len(),
        ensures
            final(self).tokens() == old(self).tokens(),
            old(self).position() <= final(self).position() <= final(self).tokens().len(),
            r matches Ok(_) ==> ended(final(self).tokens(), final(self).position()),
            r matches Err(e) ==> e.spec_kind() is Syntax,
            r is Ok <==> g_program(old(self).tokens(), old(self).position()),
            r matches Ok(ss) ==> {
                let starts = program_starts(old(self).tokens(), old(self).position());
                &&& ss@.len() == starts.len()
                &&& forall|k: int| 0 <= k < ss@.len() ==> decl_head(old(self).tokens(), starts[k], #[trigger] ss@[k])
            },
            r matches Err(e) ==> {
                let f = first_failure(old(self).tokens(), old(self).position());
                &&& g_declaration(old(self).tokens(), f) is None
                &&& placed_from(old(self).tokens(), f, e)
                &&& resynced(old(self).tokens(), f, final(self).position())
            },
    {
        let mut statements: Vec<Stmt> = Vec::new();
        let ghost mut starts: Seq<int> = Seq::empty();
        while !at_end(&self.tokens, self.current)
            invariant
                self.tokens@ == old(self).tokens@,
                old(self).current <= self.current <= self.tokens@.len(),
                g_program(self.tokens@, old(self).current as int) == g_program(self.tokens@, self.current as int),
                program_starts(self.tokens@, old(self).current as int)
                    == starts + program_starts(self.tokens@, self.current as int),
                statements@.len() == starts.len(),
                forall|k: int| 0 <= k < statements@.len() ==> decl_head(self.tokens@, starts[k], #[trigger] statements@[k]),
                first_failure(self.tokens@, old(self).current as int) == first_failure(self.tokens@, self.current as int),
            decreases self.tokens@.len() - self.current,
        {
            match declaration(&self.tokens, self.current) {
                Ok((s, p)) => {
                    proof {
                        let c = self.current as int;
                        assert(program_starts(self.tokens@, c) == seq![c] + program_starts(self.tokens@, p as int));
                        assert(starts + (seq![c] + program_starts(self.tokens@, p as int))
                            =~= starts.push(c) + program_starts(self.tokens@, p as int));
                        starts = starts.push(c);
                    }
                    statements.push(s);
                    self.current = p;
                },
                Err(e) => {
                    self.current = synchronize(&self.tokens, self.current);
                    return Err(e);
                },
            }
        }
        assert(starts + program_starts(self.tokens@, self.current as int) =~= starts);
        Ok(statements)
    }
}

/// Lexes and parses a whole program: its statements, or the first Syntax
/// error.
pub fn parse_program(source: &str) -> (r: MewResult<Vec<Stmt>>)
    requires
        source@.len() < usize::MAX,
    ensures
        r matches Err(e) ==> e.spec_kind() is Syntax,
        !lexable(source@, 0) ==> (r matches Err(e) && lex_error(source@, e)),
        lexable(source@, 0) ==> exists|ts: Seq<Token>| {
            &&& #[trigger] lexed(source@, ts)
            &&& (r is Ok <==> g_program(ts, 0))
            &&& r matches Ok(ss) ==> {
                &&& ss@.len() == program_starts(ts, 0).len()
                &&& forall|k: int| 0 <= k < ss@.len() ==> decl_head(ts, program_starts(ts, 0)[k], #[trigger] ss@[k])
            }
            &&& r matches Err(e) ==> {
                &&& g_declaration(ts, first_failure(ts, 0)) is None
                &&& placed_from(ts, first_failure(ts, 0), e)
            }
        },
{
    let mut lexer = MewLexer::new(source);
    let tokens = match lexer.scan_tokens() {
        Ok(ts) => ts,
        Err(e) => return Err(e),
    };
    let ghost ts = tokens@;
    let mut parser = Parser::new(tokens);
    let r = parser.parse();
    assert(lexed(source@, ts));
    r
}

} // verus!
