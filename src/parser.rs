//! The parser: a predictive, recursive-descent reading of the filtered token
//! stream, one rule per nonterminal of the grammar.
//!
//! Each rule is written twice: as a spec function from a token sequence and a
//! position to the tree it reads and the position after it (or the first
//! error), and as an executable method proved to agree with it. Every rule
//! ends at or after the position where it began; the bounds written beside
//! recursive calls in the spec functions restate this for the termination
//! check.
use vstd::prelude::*;

use crate::ast::{
    binary, ident_node, lemma_block_node, lemma_call_node, lemma_case_node, lemma_loop_node,
    lemma_repeat_node, otherwise_views, leaf, unary, views, Assignment, Body, CaseClause, CaseExpression, Const,
    ConstValue, Consts, Dclns, Expression, Factor, ForExp, ForStat, Func, Identifier, Kind, LitList,
    Node, OtherwiseClause, OutExp, Params, Primary, Program, Statement, SubProgs, Term, Type, Types,
    Var,
};
use crate::lexer::{token_views, Keyword, Operator, Token, TokenView};

verus! {

/// What the parser was looking for when it met something else.
#[derive(Debug, Clone, Copy, PartialEq, Eq, Structural)]
pub enum Expected {
    Keyword(Keyword),
    Identifier,
    Colon,
    Semicolon,
    Dot,
    LeftParen,
    RightParen,
    Equal,
    ConstValue,
    Primary,
    AssignmentOperator,
    CommaOrSemicolon,
    CommaOrColon,
    CommaOrRightParen,
    EndOfInput,
}

/// The first place where the token stream breaks the grammar: the index of
/// the offending token among the significant tokens (their count, where the
/// stream ended too soon), and what was expected there.
#[derive(Debug, Clone, Copy, PartialEq, Eq, Structural)]
pub struct SyntaxError {
    pub position: usize,
    pub expected: Expected,
}

pub type Parsed = Result<(Node, int), SyntaxError>;

pub type ParsedList = Result<(Seq<Node>, int), SyntaxError>;

pub open spec fn fail(p: int, e: Expected) -> SyntaxError {
    SyntaxError { position: p as usize, expected: e }
}

/// The token at `p`, if there is one.
pub open spec fn tok(ts: Seq<TokenView>, p: int) -> Option<TokenView> {
    if 0 <= p < ts.len() {
        Some(ts[p])
    } else {
        None
    }
}

pub open spec fn is_tok(ts: Seq<TokenView>, p: int, t: TokenView) -> bool {
    tok(ts, p) == Some(t)
}

pub open spec fn is_kw(ts: Seq<TokenView>, p: int, k: Keyword) -> bool {
    tok(ts, p) == Some(TokenView::Keyword(k))
}

pub open spec fn is_ident(ts: Seq<TokenView>, p: int) -> bool {
    tok(ts, p) matches Some(TokenView::Identifier(_))
}

/// A parse result of the executable parser, in model form.
pub open spec fn parsed<T: View<V = Node>>(r: Result<(T, usize), SyntaxError>) -> Parsed {
    match r {
        Ok((t, q)) => Ok((t@, q as int)),
        Err(e) => Err(e),
    }
}

pub open spec fn parsed_list<T: View<V = Node>>(r: Result<(Vec<T>, usize), SyntaxError>) -> ParsedList {
    match r {
        Ok((v, q)) => Ok((views(v@), q as int)),
        Err(e) => Err(e),
    }
}

/// Puts `n` in front of the nodes of a successful list result.
pub open spec fn cons(n: Node, r: ParsedList) -> ParsedList {
    match r {
        Ok((ns, q)) => Ok((seq![n] + ns, q)),
        Err(e) => Err(e),
    }
}

// Name -> '<identifier>'
pub open spec fn spec_name(ts: Seq<TokenView>, p: int) -> Parsed {
    match tok(ts, p) {
        Some(TokenView::Identifier(name)) => Ok((ident_node(name), p + 1)),
        _ => Err(fail(p, Expected::Identifier)),
    }
}

pub open spec fn builtin_kind(k: Keyword) -> Option<Kind> {
    match k {
        Keyword::Succ => Some(Kind::Succ),
        Keyword::Pred => Some(Kind::Pred),
        Keyword::Chr => Some(Kind::Chr),
        Keyword::Ord => Some(Kind::Ord),
        _ => None,
    }
}

// '(' Expression ')': a parenthesized expression, and the argument of
// 'succ', 'pred', 'chr' and 'ord'
pub open spec fn spec_parenthesized(ts: Seq<TokenView>, p: int) -> Parsed
    decreases ts.len() - p, 0int,
{
    if !is_tok(ts, p, TokenView::LeftParen) {
        Err(fail(p, Expected::LeftParen))
    } else {
        match spec_expression(ts, p + 1) {
            Ok((e, q)) => if is_tok(ts, q, TokenView::RightParen) {
                Ok((e, q + 1))
            } else {
                Err(fail(q, Expected::RightParen))
            },
            Err(e) => Err(e),
        }
    }
}

// Primary -> Name | Name '(' Expression list ',' ')', where `name` is the
// identifier at `p`
pub open spec fn spec_name_or_call(ts: Seq<TokenView>, p: int, name: Seq<char>) -> Parsed
    decreases ts.len() - p, 0int,
{
    if is_tok(ts, p + 1, TokenView::LeftParen) {
        match spec_call_args(ts, p + 2) {
            Ok((args, q)) => Ok((Node::Branch(Kind::Call, seq![ident_node(name)] + args), q)),
            Err(e) => Err(e),
        }
    } else {
        Ok((ident_node(name), p + 1))
    }
}

// Primary -> 'eof' | Name | Name '(' Expression list ',' ')' | '<integer>'
//          | '<char>' | '(' Expression ')' | 'succ' '(' Expression ')'
//          | 'pred' '(' Expression ')' | 'chr' '(' Expression ')'
//          | 'ord' '(' Expression ')'
pub open spec fn spec_atom(ts: Seq<TokenView>, p: int) -> Parsed
    decreases ts.len() - p, 1int,
{
    match tok(ts, p) {
        Some(TokenView::Keyword(Keyword::Eof)) => Ok((leaf(Kind::Eof), p + 1)),
        Some(TokenView::Identifier(name)) => spec_name_or_call(ts, p, name),
        Some(TokenView::Integer(i)) => Ok((unary(Kind::Integer, Node::Int(i)), p + 1)),
        Some(TokenView::Char(c)) => Ok((unary(Kind::Char, Node::Chr(c)), p + 1)),
        Some(TokenView::LeftParen) => match spec_parenthesized(ts, p) {
            Ok((e, q)) => Ok((unary(Kind::Paren, e), q)),
            Err(e) => Err(e),
        },
        Some(TokenView::Keyword(k)) => match builtin_kind(k) {
            Some(b) => match spec_parenthesized(ts, p + 1) {
                Ok((e, q)) => Ok((unary(b, e), q)),
                Err(e) => Err(e),
            },
            None => Err(fail(p, Expected::Primary)),
        },
        _ => Err(fail(p, Expected::Primary)),
    }
}

// Primary -> '-' Primary | '+' Primary | 'not' Primary | ...
pub open spec fn spec_primary(ts: Seq<TokenView>, p: int) -> Parsed
    decreases ts.len() - p, 2int,
{
    match tok(ts, p) {
        Some(TokenView::Operator(Operator::Minus)) => match spec_primary(ts, p + 1) {
            Ok((n, q)) => Ok((unary(Kind::Negate, n), q)),
            Err(e) => Err(e),
        },
        Some(TokenView::Operator(Operator::Plus)) => spec_primary(ts, p + 1),
        Some(TokenView::Keyword(Keyword::Not)) => match spec_primary(ts, p + 1) {
            Ok((n, q)) => Ok((unary(Kind::Not, n), q)),
            Err(e) => Err(e),
        },
        _ => spec_atom(ts, p),
    }
}

// The arguments of a call: Expression list ',' ')'
pub open spec fn spec_call_args(ts: Seq<TokenView>, p: int) -> ParsedList
    decreases ts.len() - p, 7int,
{
    match spec_expression(ts, p) {
        Ok((e, q)) => if is_tok(ts, q, TokenView::Comma) && q >= p {
            cons(e, spec_call_args(ts, q + 1))
        } else if is_tok(ts, q, TokenView::RightParen) {
            Ok((seq![e], q + 1))
        } else {
            Err(fail(q, Expected::CommaOrRightParen))
        },
        Err(e) => Err(e),
    }
}

pub open spec fn factor_op(t: Option<TokenView>) -> Option<Kind> {
    match t {
        Some(TokenView::Operator(Operator::Multiply)) => Some(Kind::Multiply),
        Some(TokenView::Operator(Operator::Divide)) => Some(Kind::Divide),
        Some(TokenView::Keyword(Keyword::And)) => Some(Kind::And),
        Some(TokenView::Keyword(Keyword::Mod)) => Some(Kind::Mod),
        _ => None,
    }
}

pub open spec fn term_op(t: Option<TokenView>) -> Option<Kind> {
    match t {
        Some(TokenView::Operator(Operator::Plus)) => Some(Kind::Add),
        Some(TokenView::Operator(Operator::Minus)) => Some(Kind::Subtract),
        Some(TokenView::Keyword(Keyword::Or)) => Some(Kind::Or),
        _ => None,
    }
}

pub open spec fn comparison_op(t: Option<TokenView>) -> Option<Kind> {
    match t {
        Some(TokenView::Operator(Operator::LessEqual)) => Some(Kind::Le),
        Some(TokenView::Operator(Operator::LessThan)) => Some(Kind::Lt),
        Some(TokenView::Operator(Operator::GreaterEqual)) => Some(Kind::Ge),
        Some(TokenView::Operator(Operator::GreaterThan)) => Some(Kind::Gt),
        Some(TokenView::Operator(Operator::Equal)) => Some(Kind::Eq),
        Some(TokenView::Operator(Operator::NotEqual)) => Some(Kind::Ne),
        _ => None,
    }
}

// Factor_ -> ('*' | '/' | 'and' | 'mod') Primary Factor_ | ε, folded to the left onto `acc`
pub open spec fn spec_factor_rest(ts: Seq<TokenView>, p: int, acc: Node) -> Parsed
    decreases ts.len() - p, 3int,
{
    match factor_op(tok(ts, p)) {
        Some(k) => match spec_primary(ts, p + 1) {
            Ok((r, q)) => if p < q <= ts.len() {
                spec_factor_rest(ts, q, binary(k, acc, r))
            } else {
                Err(fail(q, Expected::Primary))
            },
            Err(e) => Err(e),
        },
        None => Ok((acc, p)),
    }
}

// Factor -> Primary Factor_
pub open spec fn spec_factor(ts: Seq<TokenView>, p: int) -> Parsed
    decreases ts.len() - p, 4int,
{
    match spec_primary(ts, p) {
        Ok((n, q)) => if p <= q <= ts.len() {
            spec_factor_rest(ts, q, n)
        } else {
            Err(fail(q, Expected::Primary))
        },
        Err(e) => Err(e),
    }
}

// Term_ -> ('+' | '-' | 'or') Factor Term_ | ε, folded to the left onto `acc`
pub open spec fn spec_term_rest(ts: Seq<TokenView>, p: int, acc: Node) -> Parsed
    decreases ts.len() - p, 3int,
{
    match term_op(tok(ts, p)) {
        Some(k) => match spec_factor(ts, p + 1) {
            Ok((r, q)) => if p < q <= ts.len() {
                spec_term_rest(ts, q, binary(k, acc, r))
            } else {
                Err(fail(q, Expected::Primary))
            },
            Err(e) => Err(e),
        },
        None => Ok((acc, p)),
    }
}

// Term -> Factor Term_
pub open spec fn spec_term(ts: Seq<TokenView>, p: int) -> Parsed
    decreases ts.len() - p, 5int,
{
    match spec_factor(ts, p) {
        Ok((n, q)) => if p <= q <= ts.len() {
            spec_term_rest(ts, q, n)
        } else {
            Err(fail(q, Expected::Primary))
        },
        Err(e) => Err(e),
    }
}

// Expression -> Term | Term ('<=' | '<' | '>=' | '>' | '=' | '<>') Term
pub open spec fn spec_expression(ts: Seq<TokenView>, p: int) -> Parsed
    decreases ts.len() - p, 6int,
{
    match spec_term(ts, p) {
        Ok((l, q)) => match comparison_op(tok(ts, q)) {
            Some(k) => if q >= p {
                match spec_term(ts, q + 1) {
                    Ok((r, q2)) => Ok((binary(k, l, r), q2)),
                    Err(e) => Err(e),
                }
            } else {
                Err(fail(q, Expected::Primary))
            },
            None => Ok((l, q)),
        },
        Err(e) => Err(e),
    }
}


// ConstValue -> '<integer>' | '<char>' | Name
pub open spec fn spec_const_value(ts: Seq<TokenView>, p: int) -> Parsed {
    match tok(ts, p) {
        Some(TokenView::Integer(i)) => Ok((unary(Kind::Integer, Node::Int(i)), p + 1)),
        Some(TokenView::Char(c)) => Ok((unary(Kind::Char, Node::Chr(c)), p + 1)),
        Some(TokenView::Identifier(n)) => Ok((ident_node(n), p + 1)),
        _ => Err(fail(p, Expected::ConstValue)),
    }
}

// Const -> Name '=' ConstValue
pub open spec fn spec_const(ts: Seq<TokenView>, p: int) -> Parsed {
    match spec_name(ts, p) {
        Ok((n, q)) => if is_tok(ts, q, TokenView::Operator(Operator::Equal)) {
            match spec_const_value(ts, q + 1) {
                Ok((v, q2)) => Ok((binary(Kind::Const, n, v), q2)),
                Err(e) => Err(e),
            }
        } else {
            Err(fail(q, Expected::Equal))
        },
        Err(e) => Err(e),
    }
}

// Const list ',' ';'
pub open spec fn spec_const_list(ts: Seq<TokenView>, p: int) -> ParsedList
    decreases ts.len() - p,
{
    match spec_const(ts, p) {
        Ok((c, q)) => if is_tok(ts, q, TokenView::Comma) && p <= q {
            cons(c, spec_const_list(ts, q + 1))
        } else if is_tok(ts, q, TokenView::Semicolon) {
            Ok((seq![c], q + 1))
        } else {
            Err(fail(q, Expected::CommaOrSemicolon))
        },
        Err(e) => Err(e),
    }
}

// Consts -> 'const' Const list ',' ';' | ε
pub open spec fn spec_consts(ts: Seq<TokenView>, p: int) -> Parsed {
    if !is_kw(ts, p, Keyword::Const) {
        Ok((leaf(Kind::Consts), p))
    } else {
        match spec_const_list(ts, p + 1) {
            Ok((cs, q)) => Ok((Node::Branch(Kind::Consts, cs), q)),
            Err(e) => Err(e),
        }
    }
}

// Name list ',' ')'
pub open spec fn spec_lit_names(ts: Seq<TokenView>, p: int) -> ParsedList
    decreases ts.len() - p,
{
    match spec_name(ts, p) {
        Ok((n, q)) => if is_tok(ts, q, TokenView::Comma) && p <= q {
            cons(n, spec_lit_names(ts, q + 1))
        } else if is_tok(ts, q, TokenView::RightParen) {
            Ok((seq![n], q + 1))
        } else {
            Err(fail(q, Expected::CommaOrRightParen))
        },
        Err(e) => Err(e),
    }
}

// LitList -> '(' Name list ',' ')'
pub open spec fn spec_lit_list(ts: Seq<TokenView>, p: int) -> Parsed {
    if !is_tok(ts, p, TokenView::LeftParen) {
        Err(fail(p, Expected::LeftParen))
    } else {
        match spec_lit_names(ts, p + 1) {
            Ok((ns, q)) => Ok((Node::Branch(Kind::Lit, ns), q)),
            Err(e) => Err(e),
        }
    }
}

// Type -> Name '=' LitList
pub open spec fn spec_type(ts: Seq<TokenView>, p: int) -> Parsed {
    match spec_name(ts, p) {
        Ok((n, q)) => if is_tok(ts, q, TokenView::Operator(Operator::Equal)) {
            match spec_lit_list(ts, q + 1) {
                Ok((l, q2)) => Ok((binary(Kind::Type, n, l), q2)),
                Err(e) => Err(e),
            }
        } else {
            Err(fail(q, Expected::Equal))
        },
        Err(e) => Err(e),
    }
}

// (Type ';')+
pub open spec fn spec_type_list(ts: Seq<TokenView>, p: int) -> ParsedList
    decreases ts.len() - p,
{
    match spec_type(ts, p) {
        Ok((t, q)) => if !is_tok(ts, q, TokenView::Semicolon) {
            Err(fail(q, Expected::Semicolon))
        } else if is_ident(ts, q + 1) && p <= q {
            cons(t, spec_type_list(ts, q + 1))
        } else {
            Ok((seq![t], q + 1))
        },
        Err(e) => Err(e),
    }
}

// Types -> 'type' (Type ';')+ | ε
pub open spec fn spec_types(ts: Seq<TokenView>, p: int) -> Parsed {
    if !is_kw(ts, p, Keyword::Type) {
        Ok((leaf(Kind::Types), p))
    } else {
        match spec_type_list(ts, p + 1) {
            Ok((ns, q)) => Ok((Node::Branch(Kind::Types, ns), q)),
            Err(e) => Err(e),
        }
    }
}

// Name list ',' ':'
pub open spec fn spec_var_names(ts: Seq<TokenView>, p: int) -> ParsedList
    decreases ts.len() - p,
{
    match spec_name(ts, p) {
        Ok((n, q)) => if is_tok(ts, q, TokenView::Comma) && p <= q {
            cons(n, spec_var_names(ts, q + 1))
        } else if is_tok(ts, q, TokenView::Colon) {
            Ok((seq![n], q + 1))
        } else {
            Err(fail(q, Expected::CommaOrColon))
        },
        Err(e) => Err(e),
    }
}

// Dcln -> Name list ',' ':' Name
pub open spec fn spec_dcln(ts: Seq<TokenView>, p: int) -> Parsed {
    match spec_var_names(ts, p) {
        Ok((ns, q)) => match spec_name(ts, q) {
            Ok((t, q2)) => Ok((Node::Branch(Kind::Var, ns.push(t)), q2)),
            Err(e) => Err(e),
        },
        Err(e) => Err(e),
    }
}

// (Dcln ';')+
pub open spec fn spec_dcln_list(ts: Seq<TokenView>, p: int) -> ParsedList
    decreases ts.len() - p,
{
    match spec_dcln(ts, p) {
        Ok((d, q)) => if !is_tok(ts, q, TokenView::Semicolon) {
            Err(fail(q, Expected::Semicolon))
        } else if is_ident(ts, q + 1) && p <= q {
            cons(d, spec_dcln_list(ts, q + 1))
        } else {
            Ok((seq![d], q + 1))
        },
        Err(e) => Err(e),
    }
}

// Dclns -> 'var' (Dcln ';')+ | ε
pub open spec fn spec_dclns(ts: Seq<TokenView>, p: int) -> Parsed {
    if !is_kw(ts, p, Keyword::Var) {
        Ok((leaf(Kind::Dclns), p))
    } else {
        match spec_dcln_list(ts, p + 1) {
            Ok((ds, q)) => Ok((Node::Branch(Kind::Dclns, ds), q)),
            Err(e) => Err(e),
        }
    }
}

// Params -> Dcln list ';', possibly empty
pub open spec fn spec_param_list(ts: Seq<TokenView>, p: int) -> ParsedList
    decreases ts.len() - p,
{
    if !is_ident(ts, p) {
        Ok((Seq::empty(), p))
    } else {
        match spec_dcln(ts, p) {
            Ok((d, q)) => if is_tok(ts, q, TokenView::Semicolon) && p <= q {
                cons(d, spec_param_list(ts, q + 1))
            } else {
                Ok((seq![d], q))
            },
            Err(e) => Err(e),
        }
    }
}

/// An expression where a statement needs one; its definition is hidden from
/// the statement rules, which only pass its result on.
#[verifier::opaque]
pub open spec fn spec_operand(ts: Seq<TokenView>, p: int) -> Parsed {
    spec_expression(ts, p)
}

// Assignment -> Name ':=' Expression | Name ':=:' Name
pub open spec fn spec_assignment(ts: Seq<TokenView>, p: int) -> Parsed {
    match spec_name(ts, p) {
        Ok((n, q)) => if is_tok(ts, q, TokenView::Operator(Operator::Assignment)) {
            match spec_operand(ts, q + 1) {
                Ok((e, q2)) => Ok((binary(Kind::Assign, n, e), q2)),
                Err(e) => Err(e),
            }
        } else if is_tok(ts, q, TokenView::Operator(Operator::Swap)) {
            match spec_name(ts, q + 1) {
                Ok((n2, q2)) => Ok((binary(Kind::Swap, n, n2), q2)),
                Err(e) => Err(e),
            }
        } else {
            Err(fail(q, Expected::AssignmentOperator))
        },
        Err(e) => Err(e),
    }
}

// ForStat -> Assignment | ε
pub open spec fn spec_for_stat(ts: Seq<TokenView>, p: int) -> Parsed {
    if is_ident(ts, p) {
        spec_assignment(ts, p)
    } else {
        Ok((leaf(Kind::Null), p))
    }
}

// ForExp -> Expression ';' | ';', the latter standing for 'true'
pub open spec fn spec_for_cond(ts: Seq<TokenView>, p: int) -> Parsed {
    if is_tok(ts, p, TokenView::Semicolon) {
        Ok((leaf(Kind::True), p + 1))
    } else {
        match spec_operand(ts, p) {
            Ok((e, q)) => if is_tok(ts, q, TokenView::Semicolon) {
                Ok((e, q + 1))
            } else {
                Err(fail(q, Expected::Semicolon))
            },
            Err(e) => Err(e),
        }
    }
}

// OutExp -> Expression | '<string>'
pub open spec fn spec_outexp(ts: Seq<TokenView>, p: int) -> Parsed {
    match tok(ts, p) {
        Some(TokenView::String(v)) => Ok((unary(Kind::StringOut, Node::Text(v)), p + 1)),
        _ => match spec_operand(ts, p) {
            Ok((e, q)) => Ok((unary(Kind::IntegerOut, e), q)),
            Err(e) => Err(e),
        },
    }
}

// OutExp list ','
pub open spec fn spec_outexp_list(ts: Seq<TokenView>, p: int) -> ParsedList
    decreases ts.len() - p,
{
    match spec_outexp(ts, p) {
        Ok((o, q)) => if is_tok(ts, q, TokenView::Comma) && p <= q {
            cons(o, spec_outexp_list(ts, q + 1))
        } else {
            Ok((seq![o], q))
        },
        Err(e) => Err(e),
    }
}

// Name list ','
pub open spec fn spec_name_list(ts: Seq<TokenView>, p: int) -> ParsedList
    decreases ts.len() - p,
{
    match spec_name(ts, p) {
        Ok((n, q)) => if is_tok(ts, q, TokenView::Comma) && p <= q {
            cons(n, spec_name_list(ts, q + 1))
        } else {
            Ok((seq![n], q))
        },
        Err(e) => Err(e),
    }
}

// CaseExpression -> ConstValue | ConstValue '..' ConstValue
pub open spec fn spec_case_expression(ts: Seq<TokenView>, p: int) -> Parsed {
    match spec_const_value(ts, p) {
        Ok((a, q)) => if is_tok(ts, q, TokenView::Dots) {
            match spec_const_value(ts, q + 1) {
                Ok((b, q2)) => Ok((binary(Kind::Range, a, b), q2)),
                Err(e) => Err(e),
            }
        } else {
            Ok((a, q))
        },
        Err(e) => Err(e),
    }
}

// CaseExpression list ',' ':'
pub open spec fn spec_case_expressions(ts: Seq<TokenView>, p: int) -> ParsedList
    decreases ts.len() - p,
{
    match spec_case_expression(ts, p) {
        Ok((e, q)) => if is_tok(ts, q, TokenView::Comma) && p <= q {
            cons(e, spec_case_expressions(ts, q + 1))
        } else if is_tok(ts, q, TokenView::Colon) {
            Ok((seq![e], q + 1))
        } else {
            Err(fail(q, Expected::CommaOrColon))
        },
        Err(e) => Err(e),
    }
}

// 'output' '(' OutExp list ',' ')'
pub open spec fn spec_output(ts: Seq<TokenView>, p: int) -> Parsed {
    if !is_tok(ts, p + 1, TokenView::LeftParen) {
        Err(fail(p + 1, Expected::LeftParen))
    } else {
        match spec_outexp_list(ts, p + 2) {
            Ok((os, q)) => if is_tok(ts, q, TokenView::RightParen) {
                Ok((Node::Branch(Kind::Output, os), q + 1))
            } else {
                Err(fail(q, Expected::RightParen))
            },
            Err(e) => Err(e),
        }
    }
}

// 'read' '(' Name list ',' ')'
pub open spec fn spec_read(ts: Seq<TokenView>, p: int) -> Parsed {
    if !is_tok(ts, p + 1, TokenView::LeftParen) {
        Err(fail(p + 1, Expected::LeftParen))
    } else {
        match spec_name_list(ts, p + 2) {
            Ok((ns, q)) => if is_tok(ts, q, TokenView::RightParen) {
                Ok((Node::Branch(Kind::Read, ns), q + 1))
            } else {
                Err(fail(q, Expected::RightParen))
            },
            Err(e) => Err(e),
        }
    }
}

// 'if' Expression 'then' Statement ('else' Statement)?
pub open spec fn spec_if(ts: Seq<TokenView>, p: int) -> Parsed
    decreases ts.len() - p, 0int,
{
    match spec_operand(ts, p + 1) {
        Ok((c, q)) => if is_kw(ts, q, Keyword::Then) && p <= q {
            match spec_statement(ts, q + 1) {
                Ok((t, q2)) => if is_kw(ts, q2, Keyword::Else) && p <= q2 {
                    match spec_statement(ts, q2 + 1) {
                        Ok((e, q3)) => Ok((Node::Branch(Kind::If, seq![c, t, e]), q3)),
                        Err(e) => Err(e),
                    }
                } else {
                    Ok((Node::Branch(Kind::If, seq![c, t]), q2))
                },
                Err(e) => Err(e),
            }
        } else {
            Err(fail(q, Expected::Keyword(Keyword::Then)))
        },
        Err(e) => Err(e),
    }
}

// 'while' Expression 'do' Statement
pub open spec fn spec_while(ts: Seq<TokenView>, p: int) -> Parsed
    decreases ts.len() - p, 0int,
{
    match spec_operand(ts, p + 1) {
        Ok((c, q)) => if is_kw(ts, q, Keyword::Do) && p <= q {
            match spec_statement(ts, q + 1) {
                Ok((st, q2)) => Ok((binary(Kind::While, c, st), q2)),
                Err(e) => Err(e),
            }
        } else {
            Err(fail(q, Expected::Keyword(Keyword::Do)))
        },
        Err(e) => Err(e),
    }
}

// 'repeat' Statement list ';' 'until' Expression
pub open spec fn spec_repeat(ts: Seq<TokenView>, p: int) -> Parsed
    decreases ts.len() - p, 0int,
{
    if p < 0 || p >= ts.len() {
        Err(fail(p, Expected::Keyword(Keyword::Repeat)))
    } else {
        match spec_statement_list(ts, p + 1) {
            Ok((ss, q)) => if is_kw(ts, q, Keyword::Until) {
                match spec_operand(ts, q + 1) {
                    Ok((c, q2)) => Ok((Node::Branch(Kind::Repeat, ss.push(c)), q2)),
                    Err(e) => Err(e),
                }
            } else {
                Err(fail(q, Expected::Keyword(Keyword::Until)))
            },
            Err(e) => Err(e),
        }
    }
}

// 'loop' Statement list ';' 'pool'
pub open spec fn spec_loop(ts: Seq<TokenView>, p: int) -> Parsed
    decreases ts.len() - p, 0int,
{
    if p < 0 || p >= ts.len() {
        Err(fail(p, Expected::Keyword(Keyword::Loop)))
    } else {
        match spec_statement_list(ts, p + 1) {
            Ok((ss, q)) => if is_kw(ts, q, Keyword::Pool) {
                Ok((Node::Branch(Kind::Loop, ss), q + 1))
            } else {
                Err(fail(q, Expected::Keyword(Keyword::Pool)))
            },
            Err(e) => Err(e),
        }
    }
}

// 'for' '(' ForStat ';' ForExp ';' ForStat ')' Statement
pub open spec fn spec_for(ts: Seq<TokenView>, p: int) -> Parsed
    decreases ts.len() - p, 0int,
{
    if !is_tok(ts, p + 1, TokenView::LeftParen) {
        Err(fail(p + 1, Expected::LeftParen))
    } else {
        match spec_for_stat(ts, p + 2) {
            Ok((i, q)) => if !is_tok(ts, q, TokenView::Semicolon) {
                Err(fail(q, Expected::Semicolon))
            } else {
                match spec_for_cond(ts, q + 1) {
                    Ok((c, q2)) => match spec_for_stat(ts, q2) {
                        Ok((u, q3)) => if is_tok(ts, q3, TokenView::RightParen) && p <= q3 {
                            match spec_statement(ts, q3 + 1) {
                                Ok((st, q4)) => Ok((Node::Branch(Kind::For, seq![i, c, u, st]), q4)),
                                Err(e) => Err(e),
                            }
                        } else {
                            Err(fail(q3, Expected::RightParen))
                        },
                        Err(e) => Err(e),
                    },
                    Err(e) => Err(e),
                }
            },
            Err(e) => Err(e),
        }
    }
}

// OtherwiseClause -> 'otherwise' Statement | ε
pub open spec fn spec_otherwise(ts: Seq<TokenView>, p: int) -> ParsedList
    decreases ts.len() - p, 0int,
{
    if is_kw(ts, p, Keyword::Otherwise) {
        match spec_statement(ts, p + 1) {
            Ok((st, q)) => Ok((seq![unary(Kind::Otherwise, st)], q)),
            Err(e) => Err(e),
        }
    } else {
        Ok((Seq::empty(), p))
    }
}

// 'case' Expression 'of' Caseclauses OtherwiseClause 'end'
pub open spec fn spec_case(ts: Seq<TokenView>, p: int) -> Parsed
    decreases ts.len() - p, 0int,
{
    match spec_operand(ts, p + 1) {
        Ok((e, q)) => if is_kw(ts, q, Keyword::Of) && p <= q {
            match spec_case_clauses(ts, q + 1) {
                Ok((cs, q2)) => if p < q2 <= ts.len() {
                    match spec_otherwise(ts, q2) {
                        Ok((os, q3)) => if is_kw(ts, q3, Keyword::End) {
                            Ok((Node::Branch(Kind::Case, seq![e] + cs + os), q3 + 1))
                        } else {
                            Err(fail(q3, Expected::Keyword(Keyword::End)))
                        },
                        Err(e) => Err(e),
                    }
                } else {
                    Err(fail(q2, Expected::Keyword(Keyword::End)))
                },
                Err(e) => Err(e),
            }
        } else {
            Err(fail(q, Expected::Keyword(Keyword::Of)))
        },
        Err(e) => Err(e),
    }
}

// Caseclause -> CaseExpression list ',' ':' Statement
pub open spec fn spec_case_clause(ts: Seq<TokenView>, p: int) -> Parsed
    decreases ts.len() - p, 0int,
{
    match spec_case_expressions(ts, p) {
        Ok((es, q)) => if p < q <= ts.len() {
            match spec_statement(ts, q) {
                Ok((st, q2)) => Ok((Node::Branch(Kind::CaseClause, es.push(st)), q2)),
                Err(e) => Err(e),
            }
        } else {
            Err(fail(q, Expected::Colon))
        },
        Err(e) => Err(e),
    }
}

// Caseclauses -> (Caseclause ';')+, up to 'end' or 'otherwise'
pub open spec fn spec_case_clauses(ts: Seq<TokenView>, p: int) -> ParsedList
    decreases ts.len() - p, 1int,
{
    match spec_case_clause(ts, p) {
        Ok((c, q)) => {
            let q1 = if is_tok(ts, q, TokenView::Semicolon) {
                q + 1
            } else {
                q
            };
            if is_kw(ts, q1, Keyword::End) || is_kw(ts, q1, Keyword::Otherwise) {
                Ok((seq![c], q1))
            } else if p < q1 <= ts.len() {
                cons(c, spec_case_clauses(ts, q1))
            } else {
                Err(fail(q1, Expected::Keyword(Keyword::End)))
            }
        },
        Err(e) => Err(e),
    }
}

// Body -> 'begin' Statement list ';' 'end' | 'begin' 'end'
pub open spec fn spec_body(ts: Seq<TokenView>, p: int) -> Parsed
    decreases ts.len() - p, 0int,
{
    if !is_kw(ts, p, Keyword::Begin) {
        Err(fail(p, Expected::Keyword(Keyword::Begin)))
    } else if is_kw(ts, p + 1, Keyword::End) {
        Ok((leaf(Kind::Block), p + 2))
    } else {
        match spec_statement_list(ts, p + 1) {
            Ok((ss, q)) => if is_kw(ts, q, Keyword::End) {
                Ok((Node::Branch(Kind::Block, ss), q + 1))
            } else {
                Err(fail(q, Expected::Keyword(Keyword::End)))
            },
            Err(e) => Err(e),
        }
    }
}

// Statement -> 'output' ... | 'if' ... | 'while' ... | 'repeat' ... | 'for' ...
//            | 'loop' ... | 'case' ... | 'read' ... | 'exit' | 'return' Expression
//            | Body | Assignment | ε
pub open spec fn spec_statement(ts: Seq<TokenView>, p: int) -> Parsed
    decreases ts.len() - p, 2int,
{
    match tok(ts, p) {
        Some(TokenView::Keyword(Keyword::Output)) => spec_output(ts, p),
        Some(TokenView::Keyword(Keyword::If)) => spec_if(ts, p),
        Some(TokenView::Keyword(Keyword::While)) => spec_while(ts, p),
        Some(TokenView::Keyword(Keyword::Repeat)) => spec_repeat(ts, p),
        Some(TokenView::Keyword(Keyword::For)) => spec_for(ts, p),
        Some(TokenView::Keyword(Keyword::Loop)) => spec_loop(ts, p),
        Some(TokenView::Keyword(Keyword::Case)) => spec_case(ts, p),
        Some(TokenView::Keyword(Keyword::Read)) => spec_read(ts, p),
        Some(TokenView::Keyword(Keyword::Exit)) => Ok((leaf(Kind::Exit), p + 1)),
        Some(TokenView::Keyword(Keyword::Return)) => match spec_operand(ts, p + 1) {
            Ok((e, q)) => Ok((unary(Kind::Return, e), q)),
            Err(e) => Err(e),
        },
        Some(TokenView::Keyword(Keyword::Begin)) => spec_body(ts, p),
        Some(TokenView::Identifier(_)) => spec_assignment(ts, p),
        _ => Ok((leaf(Kind::Null), p)),
    }
}

// Statement list ';'
pub open spec fn spec_statement_list(ts: Seq<TokenView>, p: int) -> ParsedList
    decreases ts.len() - p, 3int,
{
    match spec_statement(ts, p) {
        Ok((st, q)) => if is_tok(ts, q, TokenView::Semicolon) && p <= q {
            cons(st, spec_statement_list(ts, q + 1))
        } else {
            Ok((seq![st], q))
        },
        Err(e) => Err(e),
    }
}

// Fcn -> 'function' Name '(' Params ')' ':' Name ';' Consts Types Dclns Body Name ';'
pub open spec fn spec_func(ts: Seq<TokenView>, p: int) -> Parsed {
    if !is_kw(ts, p, Keyword::Function) {
        Err(fail(p, Expected::Keyword(Keyword::Function)))
    } else {
        match spec_name(ts, p + 1) {
            Ok((n, q)) => if !is_tok(ts, q, TokenView::LeftParen) {
                Err(fail(q, Expected::LeftParen))
            } else {
                match spec_param_list(ts, q + 1) {
                    Ok((ps, q)) => if !is_tok(ts, q, TokenView::RightParen) {
                        Err(fail(q, Expected::RightParen))
                    } else if !is_tok(ts, q + 1, TokenView::Colon) {
                        Err(fail(q + 1, Expected::Colon))
                    } else {
                        match spec_name(ts, q + 2) {
                            Ok((rt, q)) => if !is_tok(ts, q, TokenView::Semicolon) {
                                Err(fail(q, Expected::Semicolon))
                            } else {
                                match spec_routine(ts, q + 1) {
                                    Ok((parts, q)) => if !is_tok(ts, q, TokenView::Semicolon) {
                                        Err(fail(q, Expected::Semicolon))
                                    } else {
                                        Ok((
                                            Node::Branch(
                                                Kind::Fcn,
                                                seq![n, Node::Branch(Kind::Params, ps), rt] + parts,
                                            ),
                                            q + 1,
                                        ))
                                    },
                                    Err(e) => Err(e),
                                }
                            },
                            Err(e) => Err(e),
                        }
                    },
                    Err(e) => Err(e),
                }
            },
            Err(e) => Err(e),
        }
    }
}

// Consts Types Dclns Body Name: the part a function shares with a program
pub open spec fn spec_routine(ts: Seq<TokenView>, p: int) -> ParsedList {
    match spec_consts(ts, p) {
        Ok((c, q)) => match spec_types(ts, q) {
            Ok((t, q)) => match spec_dclns(ts, q) {
                Ok((d, q)) => match spec_body(ts, q) {
                    Ok((b, q)) => match spec_name(ts, q) {
                        Ok((en, q)) => Ok((seq![c, t, d, b, en], q)),
                        Err(e) => Err(e),
                    },
                    Err(e) => Err(e),
                },
                Err(e) => Err(e),
            },
            Err(e) => Err(e),
        },
        Err(e) => Err(e),
    }
}

// SubProgs -> Fcn*
pub open spec fn spec_sub_progs(ts: Seq<TokenView>, p: int) -> ParsedList
    decreases ts.len() - p,
{
    if !is_kw(ts, p, Keyword::Function) {
        Ok((Seq::empty(), p))
    } else {
        match spec_func(ts, p) {
            Ok((f, q)) => if p < q <= ts.len() {
                cons(f, spec_sub_progs(ts, q))
            } else {
                Err(fail(q, Expected::Keyword(Keyword::Function)))
            },
            Err(e) => Err(e),
        }
    }
}

// Winzig -> 'program' Name ':' Consts Types Dclns SubProgs Body Name '.'
pub open spec fn spec_program(ts: Seq<TokenView>, p: int) -> Parsed {
    if !is_kw(ts, p, Keyword::Program) {
        Err(fail(p, Expected::Keyword(Keyword::Program)))
    } else {
        match spec_name(ts, p + 1) {
            Ok((n, q)) => if !is_tok(ts, q, TokenView::Colon) {
                Err(fail(q, Expected::Colon))
            } else {
                match spec_declarations(ts, q + 1) {
                    Ok((ds, q)) => match spec_body(ts, q) {
                        Ok((b, q)) => match spec_name(ts, q) {
                            Ok((en, q)) => if !is_tok(ts, q, TokenView::Dot) {
                                Err(fail(q, Expected::Dot))
                            } else {
                                Ok((Node::Branch(Kind::Program, seq![n] + ds + seq![b, en]), q + 1))
                            },
                            Err(e) => Err(e),
                        },
                        Err(e) => Err(e),
                    },
                    Err(e) => Err(e),
                }
            },
            Err(e) => Err(e),
        }
    }
}

// Consts Types Dclns SubProgs: the declarations of a program
pub open spec fn spec_declarations(ts: Seq<TokenView>, p: int) -> ParsedList {
    match spec_consts(ts, p) {
        Ok((c, q)) => match spec_types(ts, q) {
            Ok((t, q)) => match spec_dclns(ts, q) {
                Ok((d, q)) => match spec_sub_progs(ts, q) {
                    Ok((fs, q)) => Ok((seq![c, t, d, Node::Branch(Kind::SubProgs, fs)], q)),
                    Err(e) => Err(e),
                },
                Err(e) => Err(e),
            },
            Err(e) => Err(e),
        },
        Err(e) => Err(e),
    }
}

/// A whole program read from position `p`, which must end the token stream.
pub open spec fn spec_parse(ts: Seq<TokenView>, p: int) -> Parsed {
    match spec_program(ts, p) {
        Ok((n, q)) => if q == ts.len() {
            Ok((n, q))
        } else {
            Err(fail(q, Expected::EndOfInput))
        },
        Err(e) => Err(e),
    }
}

/// The parser's state: the significant tokens and a cursor into them.
pub struct Parser {
    tokens: Vec<Token>,
    current: usize,
    verbose: bool,
}

/// Whether a token matters to the grammar: comments, whitespace and
/// newlines do not.
pub open spec fn is_significant(t: TokenView) -> bool {
    !(t is Comment || t is Whitespace || t is Newline)
}

/// The tokens that matter to the grammar, in order.
pub open spec fn significant(ts: Seq<TokenView>) -> Seq<TokenView>
    decreases ts.len(),
{
    if ts.len() == 0 {
        Seq::empty()
    } else {
        (if is_significant(ts[0]) {
            seq![ts[0]]
        } else {
            Seq::empty()
        }) + significant(ts.drop_first())
    }
}

/// The frame of a program read from `ts[p..q]`: it opens with `program`, its
/// name and a colon, and closes with its closing name and a dot.
pub open spec fn framed(ts: Seq<TokenView>, p: int, q: int, prog: Program) -> bool {
    &&& is_kw(ts, p, Keyword::Program)
    &&& is_tok(ts, p + 1, TokenView::Identifier(prog.name.name@))
    &&& is_tok(ts, p + 2, TokenView::Colon)
    &&& is_tok(ts, q - 2, TokenView::Identifier(prog.end_name.name@))
    &&& is_tok(ts, q - 1, TokenView::Dot)
}

impl Parser {
    /// The significant tokens, in model form.
    pub closed spec fn toks(&self) -> Seq<TokenView> {
        token_views(self.tokens@)
    }

    /// The cursor: how many tokens have been consumed.
    proof fn lemma_toks(&self, p: int)
        requires
            0 <= p < self.tokens@.len(),
        ensures
            self.toks().len() == self.tokens@.len(),
            self.toks()[p] == self.tokens@[p]@,
            tok(self.toks(), p) == Some(self.tokens@[p]@),
    {
    }

    pub closed spec fn pos(&self) -> int {
        self.current as int
    }

    pub closed spec fn is_verbose(&self) -> bool {
        self.verbose
    }

    /// Keeps the significant tokens; `verbose` asks the caller to report
    /// each step of the cursor.
    pub fn new(tokens: Vec<Token>, verbose: bool) -> (r: Parser)
        ensures
            r.toks() == significant(token_views(tokens@)),
            r.pos() == 0,
            r.is_verbose() == verbose,
    {
        let ghost all = token_views(tokens@);
        let mut rest = tokens;
        let mut kept: Vec<Token> = Vec::new();
        while rest.len() > 0
            invariant
                significant(all) == token_views(kept@) + significant(token_views(rest@)),
            decreases rest.len(),
        {
            let ghost before = token_views(rest@);
            let t = rest.remove(0);
            assert(token_views(rest@) =~= before.drop_first());
            let keep = match t {
                Token::Comment => false,
                Token::Whitespace => false,
                Token::Newline => false,
                _ => true,
            };
            if keep {
                let ghost old_kept = token_views(kept@);
                kept.push(t);
                assert(token_views(kept@) =~= old_kept.push(t@));
                assert(old_kept + (seq![t@] + significant(token_views(rest@))) =~= token_views(kept@)
                    + significant(token_views(rest@)));
            } else {
                assert(seq![t@] =~= seq![t@]);
                assert(Seq::<TokenView>::empty() + significant(token_views(rest@)) =~= significant(
                    token_views(rest@),
                ));
            }
        }
        assert(token_views(kept@) + Seq::<TokenView>::empty() =~= token_views(kept@));
        Parser { tokens: kept, current: 0, verbose }
    }

    /// The significant tokens.
    pub fn tokens(&self) -> (r: &Vec<Token>)
        ensures
            token_views(r@) == self.toks(),
    {
        &self.tokens
    }

    /// How many tokens have been consumed.
    pub fn position(&self) -> (r: usize)
        ensures
            r == self.pos(),
    {
        self.current
    }

    /// Reads one whole program from the cursor on; every token after it is an
    /// error.
    pub fn parse(&mut self) -> (r: Result<Program, SyntaxError>)
        requires
            old(self).pos() <= old(self).toks().len(),
        ensures
            final(self).toks() == old(self).toks(),
            match r {
                Ok(prog) => spec_parse(old(self).toks(), old(self).pos()) == Ok::<(Node, int), SyntaxError>((prog@, final(self).pos())),
                Err(e) => spec_parse(old(self).toks(), old(self).pos()) == Err::<(Node, int), SyntaxError>(e),
            },
            r is Ok ==> final(self).pos() == final(self).toks().len(),
            r matches Ok(prog) ==> framed(
                old(self).toks(),
                old(self).pos(),
                final(self).toks().len() as int,
                prog,
            ),
            r is Err ==> final(self).pos() == old(self).pos(),
    {
        let (program, q) = match self.winzig(self.current) {
            Ok(x) => x,
            Err(e) => {
                return Err(e);
            },
        };
        if q != self.tokens.len() {
            return Err(SyntaxError { position: q, expected: Expected::EndOfInput });
        }
        self.current = q;
        Ok(program)
    }

    fn at(&self, p: usize, t: &Token) -> (r: bool)
        ensures
            r == is_tok(self.toks(), p as int, t@),
            self.toks().len() == self.tokens@.len(),
            self.toks().len() <= usize::MAX,
    {
        p < self.tokens.len() && self.tokens[p].eq(t)
    }

    fn at_keyword(&self, p: usize, k: Keyword) -> (r: bool)
        ensures
            r == is_kw(self.toks(), p as int, k),
    {
        self.at(p, &Token::Keyword(k))
    }

    fn at_identifier(&self, p: usize) -> (r: bool)
        ensures
            r == is_ident(self.toks(), p as int),
    {
        p < self.tokens.len() && match &self.tokens[p] {
            Token::Identifier(_) => true,
            _ => false,
        }
    }

    // Name -> '<identifier>'
    fn name(&self, p: usize) -> (r: Result<(Identifier, usize), SyntaxError>)
        requires
            p <= self.toks().len(),
        ensures
            parsed(r) == spec_name(self.toks(), p as int),
            r matches Ok((_, q)) ==> p < q <= self.toks().len(),
            r matches Ok((id, q)) ==> q == p + 1 && is_tok(
                self.toks(),
                p as int,
                TokenView::Identifier(id.name@),
            ),
    {
        if p < self.tokens.len() {
            match &self.tokens[p] {
                Token::Identifier(name) => {
                    return Ok((Identifier { name: name.clone() }, p + 1));
                },
                _ => {},
            }
        }
        Err(SyntaxError { position: p, expected: Expected::Identifier })
    }

    // '(' Expression ')'
    fn parenthesized(&self, p: usize) -> (r: Result<(Expression, usize), SyntaxError>)
        requires
            p <= self.toks().len(),
        ensures
            parsed(r) == spec_parenthesized(self.toks(), p as int),
            r matches Ok((_, q)) ==> p < q <= self.toks().len(),
        decreases self.toks().len() - p, 0int,
    {
        if !self.at(p, &Token::LeftParen) {
            return Err(SyntaxError { position: p, expected: Expected::LeftParen });
        }
        let (e, q) = match self.expression(p + 1) {
            Ok(x) => x,
            Err(e) => {
                return Err(e);
            },
        };
        if !self.at(q, &Token::RightParen) {
            return Err(SyntaxError { position: q, expected: Expected::RightParen });
        }
        Ok((e, q + 1))
    }

    fn builtin_at(&self, p: usize) -> (r: Option<Kind>)
        requires
            p < self.toks().len(),
        ensures
            self.toks().len() == self.tokens@.len(),
            r == match self.toks()[p as int] {
                TokenView::Keyword(k) => builtin_kind(k),
                _ => None,
            },
    {
        match &self.tokens[p] {
            Token::Keyword(Keyword::Succ) => Some(Kind::Succ),
            Token::Keyword(Keyword::Pred) => Some(Kind::Pred),
            Token::Keyword(Keyword::Chr) => Some(Kind::Chr),
            Token::Keyword(Keyword::Ord) => Some(Kind::Ord),
            _ => None,
        }
    }

    // Primary -> Name | Name '(' Expression list ',' ')'
    #[verifier::rlimit(100)]
    #[verifier::spinoff_prover]
    fn name_or_call(&self, p: usize, name: &String) -> (r: Result<(Primary, usize), SyntaxError>)
        requires
            p < self.toks().len(),
            self.toks()[p as int] == TokenView::Identifier(name@),
        ensures
            parsed(r) == spec_name_or_call(self.toks(), p as int, name@),
            r matches Ok((_, q)) ==> p < q <= self.toks().len(),
        decreases self.toks().len() - p, 0int,
    {
        let name = Identifier { name: name.clone() };
        let n = self.tokens.len();
        assert(p < n);
        if self.at(p + 1, &Token::LeftParen) {
            let (exps, q) = match self.call_args(p + 2) {
                Ok(x) => x,
                Err(e) => {
                    return Err(e);
                },
            };
            proof {
                lemma_call_node(name, exps);
            }
            Ok((Primary::Call { name, exps }, q))
        } else {
            Ok((Primary::Name(name), p + 1))
        }
    }

    // Primary -> 'eof' | Name | Name '(' Expression list ',' ')' | '<integer>'
    //          | '<char>' | '(' Expression ')' | 'succ' '(' Expression ')' | ...
    #[verifier::rlimit(100)]
    #[verifier::spinoff_prover]
    fn atom(&self, p: usize) -> (r: Result<(Primary, usize), SyntaxError>)
        requires
            p <= self.toks().len(),
        ensures
            parsed(r) == spec_atom(self.toks(), p as int),
            r matches Ok((_, q)) ==> p < q <= self.toks().len(),
        decreases self.toks().len() - p, 1int,
    {
        if p >= self.tokens.len() {
            return Err(SyntaxError { position: p, expected: Expected::Primary });
        }
        proof {
            self.lemma_toks(p as int);
        }
        match &self.tokens[p] {
            Token::Keyword(Keyword::Eof) => {
                return Ok((Primary::Eof, p + 1));
            },
            Token::Identifier(name) => {
                return self.name_or_call(p, name);
            },
            Token::Integer(i) => {
                return Ok((Primary::Integer(*i), p + 1));
            },
            Token::Char(c) => {
                return Ok((Primary::Char(*c), p + 1));
            },
            Token::LeftParen => {
                let (e, q) = match self.parenthesized(p) {
                    Ok(x) => x,
                    Err(e) => {
                        return Err(e);
                    },
                };
                return Ok((Primary::Expression(Box::new(e)), q));
            },
            _ => {},
        }
        match self.builtin_at(p) {
            Some(k) => {
                let (e, q) = match self.parenthesized(p + 1) {
                    Ok(x) => x,
                    Err(e) => {
                        return Err(e);
                    },
                };
                let exp = Box::new(e);
                let prim = match k {
                    Kind::Succ => Primary::Succ { exp },
                    Kind::Pred => Primary::Pred { exp },
                    Kind::Chr => Primary::Chr { exp },
                    _ => Primary::Ord { exp },
                };
                Ok((prim, q))
            },
            None => Err(SyntaxError { position: p, expected: Expected::Primary }),
        }
    }

    // Primary -> '-' Primary | '+' Primary | 'not' Primary | ...
    fn primary(&self, p: usize) -> (r: Result<(Primary, usize), SyntaxError>)
        requires
            p <= self.toks().len(),
        ensures
            parsed(r) == spec_primary(self.toks(), p as int),
            r matches Ok((_, q)) ==> p < q <= self.toks().len(),
        decreases self.toks().len() - p, 2int,
    {
        if p >= self.tokens.len() {
            return self.atom(p);
        }
        proof {
            self.lemma_toks(p as int);
        }
        match &self.tokens[p] {
            Token::Operator(Operator::Minus) => {
                let (inner, q) = match self.primary(p + 1) {
                    Ok(x) => x,
                    Err(e) => {
                        return Err(e);
                    },
                };
                Ok((Primary::Negate { primary: Box::new(inner) }, q))
            },
            Token::Operator(Operator::Plus) => self.primary(p + 1),
            Token::Keyword(Keyword::Not) => {
                let (inner, q) = match self.primary(p + 1) {
                    Ok(x) => x,
                    Err(e) => {
                        return Err(e);
                    },
                };
                Ok((Primary::Not { primary: Box::new(inner) }, q))
            },
            _ => self.atom(p),
        }
    }

    #[verifier::rlimit(100)]
    #[verifier::spinoff_prover]
    fn call_args(&self, p: usize) -> (r: Result<(Vec<Expression>, usize), SyntaxError>)
        requires
            p <= self.toks().len(),
        ensures
            parsed_list(r) == spec_call_args(self.toks(), p as int),
            r matches Ok((_, q)) ==> p < q <= self.toks().len(),
        decreases self.toks().len() - p, 7int,
    {
        let (e, q) = match self.expression(p) {
            Ok(x) => x,
            Err(e) => {
                return Err(e);
            },
        };
        if self.at(q, &Token::Comma) {
            let (mut rest, q2) = match self.call_args(q + 1) {
                Ok(x) => x,
                Err(e) => {
                    return Err(e);
                },
            };
            let ghost e_view = e@;
            let ghost rest_view = views(rest@);
            rest.insert(0, e);
            assert(views(rest@) =~= seq![e_view] + rest_view);
            Ok((rest, q2))
        } else if self.at(q, &Token::RightParen) {
            let ghost e_view = e@;
            let v = vec![e];
            assert(views(v@) =~= seq![e_view]);
            Ok((v, q + 1))
        } else {
            Err(SyntaxError { position: q, expected: Expected::CommaOrRightParen })
        }
    }

    fn factor_op_at(&self, p: usize) -> (r: Option<Kind>)
        ensures
            self.toks().len() == self.tokens@.len(),
            self.toks().len() <= usize::MAX,
            r is Some ==> p < self.toks().len(),
            r == factor_op(tok(self.toks(), p as int)),
    {
        if p >= self.tokens.len() {
            return None;
        }
        match &self.tokens[p] {
            Token::Operator(Operator::Multiply) => Some(Kind::Multiply),
            Token::Operator(Operator::Divide) => Some(Kind::Divide),
            Token::Keyword(Keyword::And) => Some(Kind::And),
            Token::Keyword(Keyword::Mod) => Some(Kind::Mod),
            _ => None,
        }
    }

    fn term_op_at(&self, p: usize) -> (r: Option<Kind>)
        ensures
            self.toks().len() == self.tokens@.len(),
            self.toks().len() <= usize::MAX,
            r is Some ==> p < self.toks().len(),
            r == term_op(tok(self.toks(), p as int)),
    {
        if p >= self.tokens.len() {
            return None;
        }
        match &self.tokens[p] {
            Token::Operator(Operator::Plus) => Some(Kind::Add),
            Token::Operator(Operator::Minus) => Some(Kind::Subtract),
            Token::Keyword(Keyword::Or) => Some(Kind::Or),
            _ => None,
        }
    }

    fn comparison_op_at(&self, p: usize) -> (r: Option<Kind>)
        ensures
            self.toks().len() == self.tokens@.len(),
            self.toks().len() <= usize::MAX,
            r is Some ==> p < self.toks().len(),
            r == comparison_op(tok(self.toks(), p as int)),
    {
        if p >= self.tokens.len() {
            return None;
        }
        match &self.tokens[p] {
            Token::Operator(Operator::LessEqual) => Some(Kind::Le),
            Token::Operator(Operator::LessThan) => Some(Kind::Lt),
            Token::Operator(Operator::GreaterEqual) => Some(Kind::Ge),
            Token::Operator(Operator::GreaterThan) => Some(Kind::Gt),
            Token::Operator(Operator::Equal) => Some(Kind::Eq),
            Token::Operator(Operator::NotEqual) => Some(Kind::Ne),
            _ => None,
        }
    }

    // Factor_ -> ('*' | '/' | 'and' | 'mod') Primary Factor_ | ε
    fn factor_(&self, p: usize, acc: Factor) -> (r: Result<(Factor, usize), SyntaxError>)
        requires
            p <= self.toks().len(),
        ensures
            parsed(r) == spec_factor_rest(self.toks(), p as int, acc@),
            r matches Ok((_, q)) ==> p <= q <= self.toks().len(),
        decreases self.toks().len() - p, 3int,
    {
        match self.factor_op_at(p) {
            None => Ok((acc, p)),
            Some(k) => {
                let (right, q) = match self.primary(p + 1) {
                    Ok(x) => x,
                    Err(e) => {
                        return Err(e);
                    },
                };
                let left = Box::new(acc);
                let right = Box::new(right);
                let f = match k {
                    Kind::Multiply => Factor::Multiply { left, right },
                    Kind::Divide => Factor::Divide { left, right },
                    Kind::And => Factor::And { left, right },
                    _ => Factor::Mod { left, right },
                };
                self.factor_(q, f)
            },
        }
    }

    // Factor -> Primary Factor_
    fn factor(&self, p: usize) -> (r: Result<(Factor, usize), SyntaxError>)
        requires
            p <= self.toks().len(),
        ensures
            parsed(r) == spec_factor(self.toks(), p as int),
            r matches Ok((_, q)) ==> p < q <= self.toks().len(),
        decreases self.toks().len() - p, 4int,
    {
        let (prim, q) = match self.primary(p) {
            Ok(x) => x,
            Err(e) => {
                return Err(e);
            },
        };
        self.factor_(q, Factor::Primary(prim))
    }

    // Term_ -> ('+' | '-' | 'or') Factor Term_ | ε
    fn term_(&self, p: usize, acc: Term) -> (r: Result<(Term, usize), SyntaxError>)
        requires
            p <= self.toks().len(),
        ensures
            parsed(r) == spec_term_rest(self.toks(), p as int, acc@),
            r matches Ok((_, q)) ==> p <= q <= self.toks().len(),
        decreases self.toks().len() - p, 3int,
    {
        match self.term_op_at(p) {
            None => Ok((acc, p)),
            Some(k) => {
                let (right, q) = match self.factor(p + 1) {
                    Ok(x) => x,
                    Err(e) => {
                        return Err(e);
                    },
                };
                let left = Box::new(acc);
                let right = Box::new(right);
                let t = match k {
                    Kind::Add => Term::Add { left, right },
                    Kind::Subtract => Term::Subtract { left, right },
                    _ => Term::Or { left, right },
                };
                self.term_(q, t)
            },
        }
    }

    // Term -> Factor Term_
    fn term(&self, p: usize) -> (r: Result<(Term, usize), SyntaxError>)
        requires
            p <= self.toks().len(),
        ensures
            parsed(r) == spec_term(self.toks(), p as int),
            r matches Ok((_, q)) ==> p < q <= self.toks().len(),
        decreases self.toks().len() - p, 5int,
    {
        let (f, q) = match self.factor(p) {
            Ok(x) => x,
            Err(e) => {
                return Err(e);
            },
        };
        self.term_(q, Term::Factor(f))
    }

    // Expression -> Term | Term ('<=' | '<' | '>=' | '>' | '=' | '<>') Term
    #[verifier::rlimit(100)]
    #[verifier::spinoff_prover]
    fn expression(&self, p: usize) -> (r: Result<(Expression, usize), SyntaxError>)
        requires
            p <= self.toks().len(),
        ensures
            parsed(r) == spec_expression(self.toks(), p as int),
            r matches Ok((_, q)) ==> p < q <= self.toks().len(),
        decreases self.toks().len() - p, 6int,
    {
        let (left, q) = match self.term(p) {
            Ok(x) => x,
            Err(e) => {
                return Err(e);
            },
        };
        match self.comparison_op_at(q) {
            None => Ok((Expression::Term(Box::new(left)), q)),
            Some(k) => {
                let (right, q2) = match self.term(q + 1) {
                    Ok(x) => x,
                    Err(e) => {
                        return Err(e);
                    },
                };
                let left = Box::new(left);
                let right = Box::new(right);
                let e = match k {
                    Kind::Le => Expression::Le { left, right },
                    Kind::Lt => Expression::Lt { left, right },
                    Kind::Ge => Expression::Ge { left, right },
                    Kind::Gt => Expression::Gt { left, right },
                    Kind::Eq => Expression::Eq { left, right },
                    _ => Expression::Ne { left, right },
                };
                Ok((e, q2))
            },
        }
    }
    /// An expression, where only the position after it matters to the caller.
    fn operand(&self, p: usize) -> (r: Result<(Expression, usize), SyntaxError>)
        requires
            p <= self.toks().len(),
        ensures
            parsed(r) == spec_operand(self.toks(), p as int),
            r matches Ok((_, q)) ==> p < q <= self.toks().len(),
    {
        reveal(spec_operand);
        self.expression(p)
    }

    proof fn lemma_len(&self)
        ensures
            self.toks().len() == self.tokens@.len(),
    {
    }

    // ConstValue -> '<integer>' | '<char>' | Name
    fn const_value(&self, p: usize) -> (r: Result<(ConstValue, usize), SyntaxError>)
        requires
            p <= self.toks().len(),
        ensures
            parsed(r) == spec_const_value(self.toks(), p as int),
            r matches Ok((_, q)) ==> p < q <= self.toks().len(),
    {
        let n = self.tokens.len();
        proof {
            self.lemma_len();
        }
        if p < self.tokens.len() {
            match &self.tokens[p] {
                Token::Integer(i) => {
                    return Ok((ConstValue::Integer(*i), p + 1));
                },
                Token::Char(c) => {
                    return Ok((ConstValue::Char(*c), p + 1));
                },
                Token::Identifier(name) => {
                    return Ok((ConstValue::Name(Identifier { name: name.clone() }), p + 1));
                },
                _ => {},
            }
        }
        Err(SyntaxError { position: p, expected: Expected::ConstValue })
    }

    // CaseExpression -> ConstValue | ConstValue '..' ConstValue
    fn case_expression(&self, p: usize) -> (r: Result<(CaseExpression, usize), SyntaxError>)
        requires
            p <= self.toks().len(),
        ensures
            parsed(r) == spec_case_expression(self.toks(), p as int),
            r matches Ok((_, q)) ==> p < q <= self.toks().len(),
    {
        let n = self.tokens.len();
        proof {
            self.lemma_len();
        }
        let (first, q) = match self.const_value(p) {
            Ok(x) => x,
            Err(e) => {
                return Err(e);
            },
        };
        if self.at(q, &Token::Dots) {
            let (second, q2) = match self.const_value(q + 1) {
                Ok(x) => x,
                Err(e) => {
                    return Err(e);
                },
            };
            return Ok((CaseExpression::Range(first, second), q2));
        }
        Ok((CaseExpression::Value(first), q))
    }

    // CaseExpression list ',' ':'
    fn case_expressions(&self, p: usize) -> (r: Result<(Vec<CaseExpression>, usize), SyntaxError>)
        requires
            p <= self.toks().len(),
        ensures
            parsed_list(r) == spec_case_expressions(self.toks(), p as int),
            r matches Ok((_, q)) ==> p < q <= self.toks().len(),
        decreases self.toks().len() - p, 0int,
    {
        let n = self.tokens.len();
        proof {
            self.lemma_len();
        }
        let (e, q) = match self.case_expression(p) {
            Ok(x) => x,
            Err(e) => {
                return Err(e);
            },
        };
        if self.at(q, &Token::Comma) {
            let (mut rest, q2) = match self.case_expressions(q + 1) {
                Ok(x) => x,
                Err(e) => {
                    return Err(e);
                },
            };
            let ghost old_rest = views(rest@);
            let ghost first = e@;
            rest.insert(0, e);
            assert(views(rest@) =~= seq![first] + old_rest);
            Ok((rest, q2))
        } else if self.at(q, &Token::Colon) {
            let v = vec![e];
            assert(views(v@) =~= seq![v@[0]@]);
            Ok((v, q + 1))
        } else {
            return Err(SyntaxError { position: q, expected: Expected::CommaOrColon });
        }
    }

    // Assignment -> Name ':=' Expression | Name ':=:' Name
    fn assignment(&self, p: usize) -> (r: Result<(Assignment, usize), SyntaxError>)
        requires
            p <= self.toks().len(),
        ensures
            parsed(r) == spec_assignment(self.toks(), p as int),
            r matches Ok((_, q)) ==> p < q <= self.toks().len(),
    {
        let n = self.tokens.len();
        proof {
            self.lemma_len();
        }
        let (name, q) = match self.name(p) {
            Ok(x) => x,
            Err(e) => {
                return Err(e);
            },
        };
        if self.at(q, &Token::Operator(Operator::Assignment)) {
            let (exp, q2) = match self.operand(q + 1) {
                Ok(x) => x,
                Err(e) => {
                    return Err(e);
                },
            };
            Ok((Assignment::Assignment { name, exp }, q2))
        } else if self.at(q, &Token::Operator(Operator::Swap)) {
            let (name2, q2) = match self.name(q + 1) {
                Ok(x) => x,
                Err(e) => {
                    return Err(e);
                },
            };
            Ok((Assignment::Swap { name1: name, name2 }, q2))
        } else {
            Err(SyntaxError { position: q, expected: Expected::AssignmentOperator })
        }
    }

    // ForStat -> Assignment | ε
    fn for_stat(&self, p: usize) -> (r: Result<(ForStat, usize), SyntaxError>)
        requires
            p <= self.toks().len(),
        ensures
            parsed(r) == spec_for_stat(self.toks(), p as int),
            r matches Ok((_, q)) ==> p <= q <= self.toks().len(),
    {
        let n = self.tokens.len();
        proof {
            self.lemma_len();
        }
        if self.at_identifier(p) {
            let (a, q) = match self.assignment(p) {
                Ok(x) => x,
                Err(e) => {
                    return Err(e);
                },
            };
            Ok((ForStat::Assignment(a), q))
        } else {
            Ok((ForStat::Null, p))
        }
    }

    // ForExp -> Expression ';' | ';', the latter standing for 'true'
    fn for_cond(&self, p: usize) -> (r: Result<(ForExp, usize), SyntaxError>)
        requires
            p <= self.toks().len(),
        ensures
            parsed(r) == spec_for_cond(self.toks(), p as int),
            r matches Ok((_, q)) ==> p < q <= self.toks().len(),
    {
        let n = self.tokens.len();
        proof {
            self.lemma_len();
        }
        if self.at(p, &Token::Semicolon) {
            return Ok((ForExp::True, p + 1));
        }
        let (e, q) = match self.operand(p) {
            Ok(x) => x,
            Err(e) => {
                return Err(e);
            },
        };
        if !self.at(q, &Token::Semicolon) {
            return Err(SyntaxError { position: q, expected: Expected::Semicolon });
        }
        Ok((ForExp::Expression(e), q + 1))
    }

    // OutExp -> Expression | '<string>'
    fn outexp(&self, p: usize) -> (r: Result<(OutExp, usize), SyntaxError>)
        requires
            p <= self.toks().len(),
        ensures
            parsed(r) == spec_outexp(self.toks(), p as int),
            r matches Ok((_, q)) ==> p < q <= self.toks().len(),
    {
        let n = self.tokens.len();
        proof {
            self.lemma_len();
        }
        if p < self.tokens.len() {
            proof {
                self.lemma_toks(p as int);
            }
            match &self.tokens[p] {
                Token::String(value) => {
                    return Ok((OutExp::String { value: value.clone() }, p + 1));
                },
                _ => {},
            }
        }
        let (exp, q) = match self.operand(p) {
            Ok(x) => x,
            Err(e) => {
                return Err(e);
            },
        };
        Ok((OutExp::Integer { exp }, q))
    }

    // OutExp list ','
    fn outexp_list(&self, p: usize) -> (r: Result<(Vec<OutExp>, usize), SyntaxError>)
        requires
            p <= self.toks().len(),
        ensures
            parsed_list(r) == spec_outexp_list(self.toks(), p as int),
            r matches Ok((_, q)) ==> p < q <= self.toks().len(),
        decreases self.toks().len() - p, 0int,
    {
        let n = self.tokens.len();
        proof {
            self.lemma_len();
        }
        let (o, q) = match self.outexp(p) {
            Ok(x) => x,
            Err(e) => {
                return Err(e);
            },
        };
        if self.at(q, &Token::Comma) {
            let (mut rest, q2) = match self.outexp_list(q + 1) {
                Ok(x) => x,
                Err(e) => {
                    return Err(e);
                },
            };
            let ghost old_rest = views(rest@);
            let ghost first = o@;
            rest.insert(0, o);
            assert(views(rest@) =~= seq![first] + old_rest);
            Ok((rest, q2))
        } else {
            let v = vec![o];
            assert(views(v@) =~= seq![v@[0]@]);
            Ok((v, q))
        }
    }

    // Name list ','
    fn name_list(&self, p: usize) -> (r: Result<(Vec<Identifier>, usize), SyntaxError>)
        requires
            p <= self.toks().len(),
        ensures
            parsed_list(r) == spec_name_list(self.toks(), p as int),
            r matches Ok((_, q)) ==> p < q <= self.toks().len(),
        decreases self.toks().len() - p, 0int,
    {
        let n = self.tokens.len();
        proof {
            self.lemma_len();
        }
        let (nm, q) = match self.name(p) {
            Ok(x) => x,
            Err(e) => {
                return Err(e);
            },
        };
        if self.at(q, &Token::Comma) {
            let (mut rest, q2) = match self.name_list(q + 1) {
                Ok(x) => x,
                Err(e) => {
                    return Err(e);
                },
            };
            let ghost old_rest = views(rest@);
            let ghost first = nm@;
            rest.insert(0, nm);
            assert(views(rest@) =~= seq![first] + old_rest);
            Ok((rest, q2))
        } else {
            let v = vec![nm];
            assert(views(v@) =~= seq![v@[0]@]);
            Ok((v, q))
        }
    }

    // 'output' '(' OutExp list ',' ')'
    fn output(&self, p: usize) -> (r: Result<(Statement, usize), SyntaxError>)
        requires
            p < self.toks().len(),
        ensures
            parsed(r) == spec_output(self.toks(), p as int),
            r matches Ok((_, q)) ==> p < q <= self.toks().len(),
    {
        let n = self.tokens.len();
        proof {
            self.lemma_len();
        }
        if !self.at(p + 1, &Token::LeftParen) {
            return Err(SyntaxError { position: p + 1, expected: Expected::LeftParen });
        }
        let (expressions, q) = match self.outexp_list(p + 2) {
            Ok(x) => x,
            Err(e) => {
                return Err(e);
            },
        };
        if !self.at(q, &Token::RightParen) {
            return Err(SyntaxError { position: q, expected: Expected::RightParen });
        }
        Ok((Statement::Output { expressions }, q + 1))
    }

    // 'read' '(' Name list ',' ')'
    fn read(&self, p: usize) -> (r: Result<(Statement, usize), SyntaxError>)
        requires
            p < self.toks().len(),
        ensures
            parsed(r) == spec_read(self.toks(), p as int),
            r matches Ok((_, q)) ==> p < q <= self.toks().len(),
    {
        let n = self.tokens.len();
        proof {
            self.lemma_len();
        }
        if !self.at(p + 1, &Token::LeftParen) {
            return Err(SyntaxError { position: p + 1, expected: Expected::LeftParen });
        }
        let (names, q) = match self.name_list(p + 2) {
            Ok(x) => x,
            Err(e) => {
                return Err(e);
            },
        };
        if !self.at(q, &Token::RightParen) {
            return Err(SyntaxError { position: q, expected: Expected::RightParen });
        }
        Ok((Statement::Read { names }, q + 1))
    }

    // 'if' Expression 'then' Statement ('else' Statement)?
    fn if_statement(&self, p: usize) -> (r: Result<(Statement, usize), SyntaxError>)
        requires
            p < self.toks().len(),
        ensures
            parsed(r) == spec_if(self.toks(), p as int),
            r matches Ok((_, q)) ==> p < q <= self.toks().len(),
        decreases self.toks().len() - p, 0int,
    {
        let n = self.tokens.len();
        proof {
            self.lemma_len();
        }
        let (cond, q) = match self.operand(p + 1) {
            Ok(x) => x,
            Err(e) => {
                return Err(e);
            },
        };
        if !self.at_keyword(q, Keyword::Then) {
            return Err(SyntaxError { position: q, expected: Expected::Keyword(Keyword::Then) });
        }
        let (then_stmt, q2) = match self.statement(q + 1) {
            Ok(x) => x,
            Err(e) => {
                return Err(e);
            },
        };
        if self.at_keyword(q2, Keyword::Else) {
            let (else_stmt, q3) = match self.statement(q2 + 1) {
                Ok(x) => x,
                Err(e) => {
                    return Err(e);
                },
            };
            return Ok((
                Statement::If {
                    cond,
                    then_stmt: Box::new(then_stmt),
                    else_stmt: Some(Box::new(else_stmt)),
                },
                q3,
            ));
        }
        Ok((Statement::If { cond, then_stmt: Box::new(then_stmt), else_stmt: None }, q2))
    }

    // 'while' Expression 'do' Statement
    fn while_statement(&self, p: usize) -> (r: Result<(Statement, usize), SyntaxError>)
        requires
            p < self.toks().len(),
        ensures
            parsed(r) == spec_while(self.toks(), p as int),
            r matches Ok((_, q)) ==> p < q <= self.toks().len(),
        decreases self.toks().len() - p, 0int,
    {
        let n = self.tokens.len();
        proof {
            self.lemma_len();
        }
        let (cond, q) = match self.operand(p + 1) {
            Ok(x) => x,
            Err(e) => {
                return Err(e);
            },
        };
        if !self.at_keyword(q, Keyword::Do) {
            return Err(SyntaxError { position: q, expected: Expected::Keyword(Keyword::Do) });
        }
        let (stmt, q2) = match self.statement(q + 1) {
            Ok(x) => x,
            Err(e) => {
                return Err(e);
            },
        };
        Ok((Statement::While { cond, stmt: Box::new(stmt) }, q2))
    }

    // 'repeat' Statement list ';' 'until' Expression
    fn repeat_statement(&self, p: usize) -> (r: Result<(Statement, usize), SyntaxError>)
        requires
            p < self.toks().len(),
        ensures
            parsed(r) == spec_repeat(self.toks(), p as int),
            r matches Ok((_, q)) ==> p < q <= self.toks().len(),
        decreases self.toks().len() - p, 0int,
    {
        let n = self.tokens.len();
        proof {
            self.lemma_len();
        }
        let (stmts, q) = match self.statement_list(p + 1) {
            Ok(x) => x,
            Err(e) => {
                return Err(e);
            },
        };
        if !self.at_keyword(q, Keyword::Until) {
            return Err(SyntaxError { position: q, expected: Expected::Keyword(Keyword::Until) });
        }
        let (cond, q2) = match self.operand(q + 1) {
            Ok(x) => x,
            Err(e) => {
                return Err(e);
            },
        };
        proof {
            lemma_repeat_node(stmts, cond);
        }
        Ok((Statement::Repeat { stmts, cond }, q2))
    }

    // 'for' '(' ForStat ';' ForExp ';' ForStat ')' Statement
    fn for_statement(&self, p: usize) -> (r: Result<(Statement, usize), SyntaxError>)
        requires
            p < self.toks().len(),
        ensures
            parsed(r) == spec_for(self.toks(), p as int),
            r matches Ok((_, q)) ==> p < q <= self.toks().len(),
        decreases self.toks().len() - p, 0int,
    {
        let n = self.tokens.len();
        proof {
            self.lemma_len();
        }
        if !self.at(p + 1, &Token::LeftParen) {
            return Err(SyntaxError { position: p + 1, expected: Expected::LeftParen });
        }
        let (init, q) = match self.for_stat(p + 2) {
            Ok(x) => x,
            Err(e) => {
                return Err(e);
            },
        };
        if !self.at(q, &Token::Semicolon) {
            return Err(SyntaxError { position: q, expected: Expected::Semicolon });
        }
        let (cond, q2) = match self.for_cond(q + 1) {
            Ok(x) => x,
            Err(e) => {
                return Err(e);
            },
        };
        let (update, q3) = match self.for_stat(q2) {
            Ok(x) => x,
            Err(e) => {
                return Err(e);
            },
        };
        if !self.at(q3, &Token::RightParen) {
            return Err(SyntaxError { position: q3, expected: Expected::RightParen });
        }
        let (stmt, q4) = match self.statement(q3 + 1) {
            Ok(x) => x,
            Err(e) => {
                return Err(e);
            },
        };
        Ok((Statement::For { init, cond, update, stmt: Box::new(stmt) }, q4))
    }

    // 'loop' Statement list ';' 'pool'
    fn loop_statement(&self, p: usize) -> (r: Result<(Statement, usize), SyntaxError>)
        requires
            p < self.toks().len(),
        ensures
            parsed(r) == spec_loop(self.toks(), p as int),
            r matches Ok((_, q)) ==> p < q <= self.toks().len(),
        decreases self.toks().len() - p, 0int,
    {
        let n = self.tokens.len();
        proof {
            self.lemma_len();
        }
        let (stmts, q) = match self.statement_list(p + 1) {
            Ok(x) => x,
            Err(e) => {
                return Err(e);
            },
        };
        if !self.at_keyword(q, Keyword::Pool) {
            return Err(SyntaxError { position: q, expected: Expected::Keyword(Keyword::Pool) });
        }
        proof {
            lemma_loop_node(stmts);
        }
        Ok((Statement::Loop { stmts }, q + 1))
    }

    // OtherwiseClause -> 'otherwise' Statement | ε
    fn otherwise(&self, p: usize) -> (r: Result<(Option<Box<OtherwiseClause>>, usize), SyntaxError>)
        requires
            p <= self.toks().len(),
        ensures
            match r {
                Ok((o, q)) => spec_otherwise(self.toks(), p as int) == Ok::<(Seq<Node>, int), SyntaxError>((otherwise_views(o), q as int)),
                Err(e) => spec_otherwise(self.toks(), p as int) == Err::<(Seq<Node>, int), SyntaxError>(e),
            },
            r matches Ok((_, q)) ==> p <= q <= self.toks().len(),
        decreases self.toks().len() - p, 0int,
    {
        let n = self.tokens.len();
        proof {
            self.lemma_len();
        }
        if !self.at_keyword(p, Keyword::Otherwise) {
            return Ok((None, p));
        }
        let (stmt, q) = match self.statement(p + 1) {
            Ok(x) => x,
            Err(e) => {
                return Err(e);
            },
        };
        Ok((Some(Box::new(OtherwiseClause { stmt })), q))
    }

    // 'case' Expression 'of' Caseclauses OtherwiseClause 'end'
    fn case_statement(&self, p: usize) -> (r: Result<(Statement, usize), SyntaxError>)
        requires
            p < self.toks().len(),
        ensures
            parsed(r) == spec_case(self.toks(), p as int),
            r matches Ok((_, q)) ==> p < q <= self.toks().len(),
        decreases self.toks().len() - p, 0int,
    {
        let n = self.tokens.len();
        proof {
            self.lemma_len();
        }
        let (expr, q) = match self.operand(p + 1) {
            Ok(x) => x,
            Err(e) => {
                return Err(e);
            },
        };
        if !self.at_keyword(q, Keyword::Of) {
            return Err(SyntaxError { position: q, expected: Expected::Keyword(Keyword::Of) });
        }
        let (cases, q2) = match self.case_clauses(q + 1) {
            Ok(x) => x,
            Err(e) => {
                return Err(e);
            },
        };
        let (otherwise, q3) = match self.otherwise(q2) {
            Ok(x) => x,
            Err(e) => {
                return Err(e);
            },
        };
        if !self.at_keyword(q3, Keyword::End) {
            return Err(SyntaxError { position: q3, expected: Expected::Keyword(Keyword::End) });
        }
        proof {
            lemma_case_node(expr, cases, otherwise);
        }
        Ok((Statement::Case { expr, cases, otherwise }, q3 + 1))
    }

    // Caseclause -> CaseExpression list ',' ':' Statement
    fn case_clause(&self, p: usize) -> (r: Result<(CaseClause, usize), SyntaxError>)
        requires
            p <= self.toks().len(),
        ensures
            parsed(r) == spec_case_clause(self.toks(), p as int),
            r matches Ok((_, q)) ==> p < q <= self.toks().len(),
        decreases self.toks().len() - p, 0int,
    {
        let n = self.tokens.len();
        proof {
            self.lemma_len();
        }
        let (expressions, q) = match self.case_expressions(p) {
            Ok(x) => x,
            Err(e) => {
                return Err(e);
            },
        };
        let (statement, q2) = match self.statement(q) {
            Ok(x) => x,
            Err(e) => {
                return Err(e);
            },
        };
        Ok((CaseClause { expressions, statement }, q2))
    }

    // Caseclauses -> (Caseclause ';')+, up to 'end' or 'otherwise'
    fn case_clauses(&self, p: usize) -> (r: Result<(Vec<CaseClause>, usize), SyntaxError>)
        requires
            p <= self.toks().len(),
        ensures
            parsed_list(r) == spec_case_clauses(self.toks(), p as int),
            r matches Ok((_, q)) ==> p < q <= self.toks().len(),
        decreases self.toks().len() - p, 1int,
    {
        let n = self.tokens.len();
        proof {
            self.lemma_len();
        }
        let (clause, q) = match self.case_clause(p) {
            Ok(x) => x,
            Err(e) => {
                return Err(e);
            },
        };
        let q = if self.at(q, &Token::Semicolon) {
            q + 1
        } else {
            q
        };
        if self.at_keyword(q, Keyword::End) || self.at_keyword(q, Keyword::Otherwise) {
            let v = vec![clause];
            assert(views(v@) =~= seq![v@[0]@]);
            Ok((v, q))
        } else {
            let (mut rest, q2) = match self.case_clauses(q) {
                Ok(x) => x,
                Err(e) => {
                    return Err(e);
                },
            };
            let ghost old_rest = views(rest@);
            let ghost first = clause@;
            rest.insert(0, clause);
            assert(views(rest@) =~= seq![first] + old_rest);
            Ok((rest, q2))
        }
    }

    // Body -> 'begin' Statement list ';' 'end' | 'begin' 'end'
    fn body(&self, p: usize) -> (r: Result<(Body, usize), SyntaxError>)
        requires
            p <= self.toks().len(),
        ensures
            parsed(r) == spec_body(self.toks(), p as int),
            r matches Ok((_, q)) ==> p < q <= self.toks().len(),
        decreases self.toks().len() - p, 0int,
    {
        let n = self.tokens.len();
        proof {
            self.lemma_len();
        }
        if !self.at_keyword(p, Keyword::Begin) {
            return Err(SyntaxError { position: p, expected: Expected::Keyword(Keyword::Begin) });
        }
        if self.at_keyword(p + 1, Keyword::End) {
            let b = Body { statements: Vec::new() };
            proof {
                lemma_block_node(b);
                assert(views(b.statements@) =~= Seq::<Node>::empty());
            }
            return Ok((b, p + 2));
        }
        let (statements, q) = match self.statement_list(p + 1) {
            Ok(x) => x,
            Err(e) => {
                return Err(e);
            },
        };
        if !self.at_keyword(q, Keyword::End) {
            return Err(SyntaxError { position: q, expected: Expected::Keyword(Keyword::End) });
        }
        let b = Body { statements };
        proof {
            lemma_block_node(b);
        }
        Ok((b, q + 1))
    }

    // Statement -> 'output' ... | 'if' ... | 'while' ... | 'repeat' ... | 'for' ...
    //            | 'loop' ... | 'case' ... | 'read' ... | 'exit' | 'return' Expression
    //            | Body | Assignment | ε
    #[verifier::rlimit(100)]
    #[verifier::spinoff_prover]
    fn statement(&self, p: usize) -> (r: Result<(Statement, usize), SyntaxError>)
        requires
            p <= self.toks().len(),
        ensures
            parsed(r) == spec_statement(self.toks(), p as int),
            r matches Ok((_, q)) ==> p <= q <= self.toks().len(),
        decreases self.toks().len() - p, 2int,
    {
        let n = self.tokens.len();
        proof {
            self.lemma_len();
        }
        if p >= self.tokens.len() {
            return Ok((Statement::Null, p));
        }
        proof {
            self.lemma_toks(p as int);
        }
        match &self.tokens[p] {
            Token::Keyword(Keyword::Output) => self.output(p),
            Token::Keyword(Keyword::If) => self.if_statement(p),
            Token::Keyword(Keyword::While) => self.while_statement(p),
            Token::Keyword(Keyword::Repeat) => self.repeat_statement(p),
            Token::Keyword(Keyword::For) => self.for_statement(p),
            Token::Keyword(Keyword::Loop) => self.loop_statement(p),
            Token::Keyword(Keyword::Case) => self.case_statement(p),
            Token::Keyword(Keyword::Read) => self.read(p),
            Token::Keyword(Keyword::Exit) => Ok((Statement::Exit, p + 1)),
            Token::Keyword(Keyword::Return) => {
                let (exp, q) = match self.operand(p + 1) {
                    Ok(x) => x,
                    Err(e) => {
                        return Err(e);
                    },
                };
                Ok((Statement::Return { exp }, q))
            },
            Token::Keyword(Keyword::Begin) => {
                let (body, q) = match self.body(p) {
                    Ok(x) => x,
                    Err(e) => {
                        return Err(e);
                    },
                };
                Ok((Statement::Body { body }, q))
            },
            Token::Identifier(_) => {
                let (assignment, q) = match self.assignment(p) {
                    Ok(x) => x,
                    Err(e) => {
                        return Err(e);
                    },
                };
                Ok((Statement::Assign { assignment }, q))
            },
            _ => Ok((Statement::Null, p)),
        }
    }

    // Statement list ';'
    fn statement_list(&self, p: usize) -> (r: Result<(Vec<Statement>, usize), SyntaxError>)
        requires
            p <= self.toks().len(),
        ensures
            parsed_list(r) == spec_statement_list(self.toks(), p as int),
            r matches Ok((_, q)) ==> p <= q <= self.toks().len(),
        decreases self.toks().len() - p, 3int,
    {
        let n = self.tokens.len();
        proof {
            self.lemma_len();
        }
        let (stmt, q) = match self.statement(p) {
            Ok(x) => x,
            Err(e) => {
                return Err(e);
            },
        };
        if self.at(q, &Token::Semicolon) {
            let (mut rest, q2) = match self.statement_list(q + 1) {
                Ok(x) => x,
                Err(e) => {
                    return Err(e);
                },
            };
            let ghost old_rest = views(rest@);
            let ghost first = stmt@;
            rest.insert(0, stmt);
            assert(views(rest@) =~= seq![first] + old_rest);
            Ok((rest, q2))
        } else {
            let v = vec![stmt];
            assert(views(v@) =~= seq![v@[0]@]);
            Ok((v, q))
        }
    }

    // Const -> Name '=' ConstValue
    fn const_expr(&self, p: usize) -> (r: Result<(Const, usize), SyntaxError>)
        requires
            p <= self.toks().len(),
        ensures
            parsed(r) == spec_const(self.toks(), p as int),
            r matches Ok((_, q)) ==> p < q <= self.toks().len(),
    {
        let n = self.tokens.len();
        proof {
            self.lemma_len();
        }
        let (name, q) = match self.name(p) {
            Ok(x) => x,
            Err(e) => {
                return Err(e);
            },
        };
        if !self.at(q, &Token::Operator(Operator::Equal)) {
            return Err(SyntaxError { position: q, expected: Expected::Equal });
        }
        let (value, q2) = match self.const_value(q + 1) {
            Ok(x) => x,
            Err(e) => {
                return Err(e);
            },
        };
        Ok((Const { name, value }, q2))
    }

    // Const list ',' ';'
    fn const_list(&self, p: usize) -> (r: Result<(Vec<Const>, usize), SyntaxError>)
        requires
            p <= self.toks().len(),
        ensures
            parsed_list(r) == spec_const_list(self.toks(), p as int),
            r matches Ok((_, q)) ==> p < q <= self.toks().len(),
        decreases self.toks().len() - p,
    {
        let n = self.tokens.len();
        proof {
            self.lemma_len();
        }
        let (c, q) = match self.const_expr(p) {
            Ok(x) => x,
            Err(e) => {
                return Err(e);
            },
        };
        if self.at(q, &Token::Comma) {
            let (mut rest, q2) = match self.const_list(q + 1) {
                Ok(x) => x,
                Err(e) => {
                    return Err(e);
                },
            };
            let ghost old_rest = views(rest@);
            let ghost item = c@;
            rest.insert(0, c);
            assert(views(rest@) =~= seq![item] + old_rest);
            Ok((rest, q2))
        } else if self.at(q, &Token::Semicolon) {
            {
            let v = vec![c];
            assert(views(v@) =~= seq![v@[0]@]);
            Ok((v, q + 1))
        }
        } else {
            Err(SyntaxError { position: q, expected: Expected::CommaOrSemicolon })
        }
    }

    // Consts -> 'const' Const list ',' ';' | ε
    fn consts(&self, p: usize) -> (r: Result<(Consts, usize), SyntaxError>)
        requires
            p <= self.toks().len(),
        ensures
            parsed(r) == spec_consts(self.toks(), p as int),
            r matches Ok((_, q)) ==> p <= q <= self.toks().len(),
    {
        let n = self.tokens.len();
        proof {
            self.lemma_len();
        }
        if !self.at_keyword(p, Keyword::Const) {
            let empty = Consts { consts: Vec::new() };
            assert(views(empty.consts@) =~= Seq::<Node>::empty());
            return Ok((empty, p));
        }
        let (consts, q) = match self.const_list(p + 1) {
            Ok(x) => x,
            Err(e) => {
                return Err(e);
            },
        };
        Ok((Consts { consts }, q))
    }

    // Name list ',' ')', the body of a LitList
    fn lit_names(&self, p: usize) -> (r: Result<(Vec<Identifier>, usize), SyntaxError>)
        requires
            p <= self.toks().len(),
        ensures
            parsed_list(r) == spec_lit_names(self.toks(), p as int),
            r matches Ok((_, q)) ==> p < q <= self.toks().len(),
        decreases self.toks().len() - p,
    {
        let n = self.tokens.len();
        proof {
            self.lemma_len();
        }
        let (name, q) = match self.name(p) {
            Ok(x) => x,
            Err(e) => {
                return Err(e);
            },
        };
        if self.at(q, &Token::Comma) {
            let (mut rest, q2) = match self.lit_names(q + 1) {
                Ok(x) => x,
                Err(e) => {
                    return Err(e);
                },
            };
            let ghost old_rest = views(rest@);
            let ghost item = name@;
            rest.insert(0, name);
            assert(views(rest@) =~= seq![item] + old_rest);
            Ok((rest, q2))
        } else if self.at(q, &Token::RightParen) {
            {
            let v = vec![name];
            assert(views(v@) =~= seq![v@[0]@]);
            Ok((v, q + 1))
        }
        } else {
            Err(SyntaxError { position: q, expected: Expected::CommaOrRightParen })
        }
    }

    // LitList -> '(' Name list ',' ')'
    fn lit_list(&self, p: usize) -> (r: Result<(LitList, usize), SyntaxError>)
        requires
            p <= self.toks().len(),
        ensures
            parsed(r) == spec_lit_list(self.toks(), p as int),
            r matches Ok((_, q)) ==> p < q <= self.toks().len(),
    {
        let n = self.tokens.len();
        proof {
            self.lemma_len();
        }
        if !self.at(p, &Token::LeftParen) {
            return Err(SyntaxError { position: p, expected: Expected::LeftParen });
        }
        let (names, q) = match self.lit_names(p + 1) {
            Ok(x) => x,
            Err(e) => {
                return Err(e);
            },
        };
        Ok((LitList { names }, q))
    }

    // Type -> Name '=' LitList
    fn type_expr(&self, p: usize) -> (r: Result<(Type, usize), SyntaxError>)
        requires
            p <= self.toks().len(),
        ensures
            parsed(r) == spec_type(self.toks(), p as int),
            r matches Ok((_, q)) ==> p < q <= self.toks().len(),
    {
        let n = self.tokens.len();
        proof {
            self.lemma_len();
        }
        let (name, q) = match self.name(p) {
            Ok(x) => x,
            Err(e) => {
                return Err(e);
            },
        };
        if !self.at(q, &Token::Operator(Operator::Equal)) {
            return Err(SyntaxError { position: q, expected: Expected::Equal });
        }
        let (lit_list, q2) = match self.lit_list(q + 1) {
            Ok(x) => x,
            Err(e) => {
                return Err(e);
            },
        };
        Ok((Type { name, lit_list }, q2))
    }

    // (Type ';')+
    fn type_list(&self, p: usize) -> (r: Result<(Vec<Type>, usize), SyntaxError>)
        requires
            p <= self.toks().len(),
        ensures
            parsed_list(r) == spec_type_list(self.toks(), p as int),
            r matches Ok((_, q)) ==> p < q <= self.toks().len(),
        decreases self.toks().len() - p,
    {
        let n = self.tokens.len();
        proof {
            self.lemma_len();
        }
        let (t, q) = match self.type_expr(p) {
            Ok(x) => x,
            Err(e) => {
                return Err(e);
            },
        };
        if !self.at(q, &Token::Semicolon) {
            return Err(SyntaxError { position: q, expected: Expected::Semicolon });
        }
        if self.at_identifier(q + 1) {
            let (mut rest, q2) = match self.type_list(q + 1) {
                Ok(x) => x,
                Err(e) => {
                    return Err(e);
                },
            };
            let ghost old_rest = views(rest@);
            let ghost item = t@;
            rest.insert(0, t);
            assert(views(rest@) =~= seq![item] + old_rest);
            Ok((rest, q2))
        } else {
            {
            let v = vec![t];
            assert(views(v@) =~= seq![v@[0]@]);
            Ok((v, q + 1))
        }
        }
    }

    // Types -> 'type' (Type ';')+ | ε
    fn types(&self, p: usize) -> (r: Result<(Types, usize), SyntaxError>)
        requires
            p <= self.toks().len(),
        ensures
            parsed(r) == spec_types(self.toks(), p as int),
            r matches Ok((_, q)) ==> p <= q <= self.toks().len(),
    {
        let n = self.tokens.len();
        proof {
            self.lemma_len();
        }
        if !self.at_keyword(p, Keyword::Type) {
            let empty = Types { types: Vec::new() };
            assert(views(empty.types@) =~= Seq::<Node>::empty());
            return Ok((empty, p));
        }
        let (types, q) = match self.type_list(p + 1) {
            Ok(x) => x,
            Err(e) => {
                return Err(e);
            },
        };
        Ok((Types { types }, q))
    }

    // Name list ',' ':', the names of a Dcln
    fn var_names(&self, p: usize) -> (r: Result<(Vec<Identifier>, usize), SyntaxError>)
        requires
            p <= self.toks().len(),
        ensures
            parsed_list(r) == spec_var_names(self.toks(), p as int),
            r matches Ok((_, q)) ==> p < q <= self.toks().len(),
        decreases self.toks().len() - p,
    {
        let n = self.tokens.len();
        proof {
            self.lemma_len();
        }
        let (name, q) = match self.name(p) {
            Ok(x) => x,
            Err(e) => {
                return Err(e);
            },
        };
        if self.at(q, &Token::Comma) {
            let (mut rest, q2) = match self.var_names(q + 1) {
                Ok(x) => x,
                Err(e) => {
                    return Err(e);
                },
            };
            let ghost old_rest = views(rest@);
            let ghost item = name@;
            rest.insert(0, name);
            assert(views(rest@) =~= seq![item] + old_rest);
            Ok((rest, q2))
        } else if self.at(q, &Token::Colon) {
            {
            let v = vec![name];
            assert(views(v@) =~= seq![v@[0]@]);
            Ok((v, q + 1))
        }
        } else {
            Err(SyntaxError { position: q, expected: Expected::CommaOrColon })
        }
    }

    // Dcln -> Name list ',' ':' Name
    fn dcln(&self, p: usize) -> (r: Result<(Var, usize), SyntaxError>)
        requires
            p <= self.toks().len(),
        ensures
            parsed(r) == spec_dcln(self.toks(), p as int),
            r matches Ok((_, q)) ==> p < q <= self.toks().len(),
    {
        let n = self.tokens.len();
        proof {
            self.lemma_len();
        }
        let (names, q) = match self.var_names(p) {
            Ok(x) => x,
            Err(e) => {
                return Err(e);
            },
        };
        let (typename, q2) = match self.name(q) {
            Ok(x) => x,
            Err(e) => {
                return Err(e);
            },
        };
        Ok((Var { names, typename }, q2))
    }

    // (Dcln ';')+
    fn dcln_list(&self, p: usize) -> (r: Result<(Vec<Var>, usize), SyntaxError>)
        requires
            p <= self.toks().len(),
        ensures
            parsed_list(r) == spec_dcln_list(self.toks(), p as int),
            r matches Ok((_, q)) ==> p < q <= self.toks().len(),
        decreases self.toks().len() - p,
    {
        let n = self.tokens.len();
        proof {
            self.lemma_len();
        }
        let (v, q) = match self.dcln(p) {
            Ok(x) => x,
            Err(e) => {
                return Err(e);
            },
        };
        if !self.at(q, &Token::Semicolon) {
            return Err(SyntaxError { position: q, expected: Expected::Semicolon });
        }
        if self.at_identifier(q + 1) {
            let (mut rest, q2) = match self.dcln_list(q + 1) {
                Ok(x) => x,
                Err(e) => {
                    return Err(e);
                },
            };
            let ghost old_rest = views(rest@);
            let ghost item = v@;
            rest.insert(0, v);
            assert(views(rest@) =~= seq![item] + old_rest);
            Ok((rest, q2))
        } else {
            {
            let v = vec![v];
            assert(views(v@) =~= seq![v@[0]@]);
            Ok((v, q + 1))
        }
        }
    }

    // Dclns -> 'var' (Dcln ';')+ | ε
    fn dclns(&self, p: usize) -> (r: Result<(Dclns, usize), SyntaxError>)
        requires
            p <= self.toks().len(),
        ensures
            parsed(r) == spec_dclns(self.toks(), p as int),
            r matches Ok((_, q)) ==> p <= q <= self.toks().len(),
    {
        let n = self.tokens.len();
        proof {
            self.lemma_len();
        }
        if !self.at_keyword(p, Keyword::Var) {
            let empty = Dclns { vars: Vec::new() };
            assert(views(empty.vars@) =~= Seq::<Node>::empty());
            return Ok((empty, p));
        }
        let (vars, q) = match self.dcln_list(p + 1) {
            Ok(x) => x,
            Err(e) => {
                return Err(e);
            },
        };
        Ok((Dclns { vars }, q))
    }

    // Params -> Dcln list ';'
    fn param_list(&self, p: usize) -> (r: Result<(Vec<Var>, usize), SyntaxError>)
        requires
            p <= self.toks().len(),
        ensures
            parsed_list(r) == spec_param_list(self.toks(), p as int),
            r matches Ok((_, q)) ==> p <= q <= self.toks().len(),
        decreases self.toks().len() - p,
    {
        let n = self.tokens.len();
        proof {
            self.lemma_len();
        }
        if !self.at_identifier(p) {
            let empty: Vec<Var> = Vec::new();
            assert(views(empty@) =~= Seq::<Node>::empty());
            return Ok((empty, p));
        }
        let (v, q) = match self.dcln(p) {
            Ok(x) => x,
            Err(e) => {
                return Err(e);
            },
        };
        if self.at(q, &Token::Semicolon) {
            let (mut rest, q2) = match self.param_list(q + 1) {
                Ok(x) => x,
                Err(e) => {
                    return Err(e);
                },
            };
            let ghost old_rest = views(rest@);
            let ghost item = v@;
            rest.insert(0, v);
            assert(views(rest@) =~= seq![item] + old_rest);
            Ok((rest, q2))
        } else {
            {
            let v = vec![v];
            assert(views(v@) =~= seq![v@[0]@]);
            Ok((v, q))
        }
        }
    }

    // Consts Types Dclns Body Name: the part a function shares with a program
    fn routine(&self, p: usize) -> (r: Result<((Consts, Types, Dclns, Body, Identifier), usize), SyntaxError>)
        requires
            p <= self.toks().len(),
        ensures
            match r {
                Ok(((c, t, d, b, en), q)) => spec_routine(self.toks(), p as int) == Ok::<(Seq<Node>, int), SyntaxError>((seq![c@, t@, d@, b@, en@], q as int)),
                Err(e) => spec_routine(self.toks(), p as int) == Err::<(Seq<Node>, int), SyntaxError>(e),
            },
            r matches Ok((_, q)) ==> p < q <= self.toks().len(),
    {
        let (consts, q) = match self.consts(p) {
            Ok(x) => x,
            Err(e) => {
                return Err(e);
            },
        };
        let (types, q) = match self.types(q) {
            Ok(x) => x,
            Err(e) => {
                return Err(e);
            },
        };
        let (dclns, q) = match self.dclns(q) {
            Ok(x) => x,
            Err(e) => {
                return Err(e);
            },
        };
        let (body, q) = match self.body(q) {
            Ok(x) => x,
            Err(e) => {
                return Err(e);
            },
        };
        let (end_name, q) = match self.name(q) {
            Ok(x) => x,
            Err(e) => {
                return Err(e);
            },
        };
        Ok(((consts, types, dclns, body, end_name), q))
    }

    // Fcn -> 'function' Name '(' Params ')' ':' Name ';' Consts Types Dclns Body Name ';'
    #[verifier::rlimit(100)]
    #[verifier::spinoff_prover]
    fn func(&self, p: usize) -> (r: Result<(Func, usize), SyntaxError>)
        requires
            p <= self.toks().len(),
        ensures
            parsed(r) == spec_func(self.toks(), p as int),
            r matches Ok((_, q)) ==> p < q <= self.toks().len(),
    {
        let n = self.tokens.len();
        proof {
            self.lemma_len();
        }
        if !self.at_keyword(p, Keyword::Function) {
            return Err(SyntaxError { position: p, expected: Expected::Keyword(Keyword::Function) });
        }
        let (name, q) = match self.name(p + 1) {
            Ok(x) => x,
            Err(e) => {
                return Err(e);
            },
        };
        if !self.at(q, &Token::LeftParen) {
            return Err(SyntaxError { position: q, expected: Expected::LeftParen });
        }
        let (params, q) = match self.param_list(q + 1) {
            Ok(x) => x,
            Err(e) => {
                return Err(e);
            },
        };
        if !self.at(q, &Token::RightParen) {
            return Err(SyntaxError { position: q, expected: Expected::RightParen });
        }
        if !self.at(q + 1, &Token::Colon) {
            return Err(SyntaxError { position: q + 1, expected: Expected::Colon });
        }
        let (return_type, q) = match self.name(q + 2) {
            Ok(x) => x,
            Err(e) => {
                return Err(e);
            },
        };
        if !self.at(q, &Token::Semicolon) {
            return Err(SyntaxError { position: q, expected: Expected::Semicolon });
        }
        let ((consts, types, dclns, body, end_name), q) = match self.routine(q + 1) {
            Ok(x) => x,
            Err(e) => {
                return Err(e);
            },
        };
        if !self.at(q, &Token::Semicolon) {
            return Err(SyntaxError { position: q, expected: Expected::Semicolon });
        }
        let params = Params { params };
        let f = Func { name, params, return_type, consts, types, dclns, body, end_name };
        proof {
            assert(f@->Branch_1 =~= seq![f.name@, f.params@, f.return_type@] + seq![
                f.consts@,
                f.types@,
                f.dclns@,
                f.body@,
                f.end_name@,
            ]);
        }
        Ok((f, q + 1))
    }

    // SubProgs -> Fcn*
    fn sub_progs(&self, p: usize) -> (r: Result<(Vec<Func>, usize), SyntaxError>)
        requires
            p <= self.toks().len(),
        ensures
            parsed_list(r) == spec_sub_progs(self.toks(), p as int),
            r matches Ok((_, q)) ==> p <= q <= self.toks().len(),
        decreases self.toks().len() - p,
    {
        let n = self.tokens.len();
        proof {
            self.lemma_len();
        }
        if !self.at_keyword(p, Keyword::Function) {
            let empty: Vec<Func> = Vec::new();
            assert(views(empty@) =~= Seq::<Node>::empty());
            return Ok((empty, p));
        }
        let (f, q) = match self.func(p) {
            Ok(x) => x,
            Err(e) => {
                return Err(e);
            },
        };
        let (mut rest, q2) = match self.sub_progs(q) {
            Ok(x) => x,
            Err(e) => {
                return Err(e);
            },
        };
        let ghost old_rest = views(rest@);
        let ghost first = f@;
        rest.insert(0, f);
        assert(views(rest@) =~= seq![first] + old_rest);
        Ok((rest, q2))
    }

    // Consts Types Dclns SubProgs: the declarations of a program
    fn declarations(&self, p: usize) -> (r: Result<((Consts, Types, Dclns, SubProgs), usize), SyntaxError>)
        requires
            p <= self.toks().len(),
        ensures
            match r {
                Ok(((c, t, d, f), q)) => spec_declarations(self.toks(), p as int) == Ok::<(Seq<Node>, int), SyntaxError>((seq![c@, t@, d@, f@], q as int)),
                Err(e) => spec_declarations(self.toks(), p as int) == Err::<(Seq<Node>, int), SyntaxError>(e),
            },
            r matches Ok((_, q)) ==> p <= q <= self.toks().len(),
    {
        let (consts, q) = match self.consts(p) {
            Ok(x) => x,
            Err(e) => {
                return Err(e);
            },
        };
        let (types, q) = match self.types(q) {
            Ok(x) => x,
            Err(e) => {
                return Err(e);
            },
        };
        let (dclns, q) = match self.dclns(q) {
            Ok(x) => x,
            Err(e) => {
                return Err(e);
            },
        };
        let (sub_progs, q) = match self.sub_progs(q) {
            Ok(x) => x,
            Err(e) => {
                return Err(e);
            },
        };
        Ok(((consts, types, dclns, SubProgs { sub_progs }), q))
    }

    // Winzig -> 'program' Name ':' Consts Types Dclns SubProgs Body Name '.'
    #[verifier::rlimit(100)]
    #[verifier::spinoff_prover]
    fn winzig(&self, p: usize) -> (r: Result<(Program, usize), SyntaxError>)
        requires
            p <= self.toks().len(),
        ensures
            parsed(r) == spec_program(self.toks(), p as int),
            r matches Ok((_, q)) ==> p < q <= self.toks().len(),
            r matches Ok((prog, q)) ==> framed(self.toks(), p as int, q as int, prog),
    {
        let n = self.tokens.len();
        proof {
            self.lemma_len();
        }
        if !self.at_keyword(p, Keyword::Program) {
            return Err(SyntaxError { position: p, expected: Expected::Keyword(Keyword::Program) });
        }
        let (name, q) = match self.name(p + 1) {
            Ok(x) => x,
            Err(e) => {
                return Err(e);
            },
        };
        if !self.at(q, &Token::Colon) {
            return Err(SyntaxError { position: q, expected: Expected::Colon });
        }
        let ((consts, types, dclns, sub_progs), q) = match self.declarations(q + 1) {
            Ok(x) => x,
            Err(e) => {
                return Err(e);
            },
        };
        let (body, q) = match self.body(q) {
            Ok(x) => x,
            Err(e) => {
                return Err(e);
            },
        };
        let (end_name, q) = match self.name(q) {
            Ok(x) => x,
            Err(e) => {
                return Err(e);
            },
        };
        if !self.at(q, &Token::Dot) {
            return Err(SyntaxError { position: q, expected: Expected::Dot });
        }
        let prog = Program { name, consts, types, dclns, sub_progs, body, end_name };
        proof {
            assert(prog@->Branch_1 =~= seq![prog.name@] + seq![
                prog.consts@,
                prog.types@,
                prog.dclns@,
                prog.sub_progs@,
            ] + seq![prog.body@, prog.end_name@]);
        }
        Ok((prog, q + 1))
    }
}

} // verus!
