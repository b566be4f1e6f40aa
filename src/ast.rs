//! The syntax tree, and its model: every node is seen as a labelled tree.
use vstd::prelude::*;

verus! {

broadcast use vstd::std_specs::vec::axiom_vec_decreases_to_view, vstd::seq::axiom_seq_index_decreases;

/// The label of a node of the syntax tree.
#[derive(Debug, Clone, Copy, PartialEq, Eq, Structural)]
pub enum Kind {
    Program,
    Identifier,
    Consts,
    Const,
    Types,
    Type,
    Lit,
    Dclns,
    Var,
    SubProgs,
    Fcn,
    Params,
    Block,
    Output,
    If,
    While,
    Repeat,
    For,
    Loop,
    Case,
    Read,
    Exit,
    Return,
    Null,
    Assign,
    Swap,
    IntegerOut,
    StringOut,
    CaseClause,
    Range,
    Otherwise,
    True,
    Le,
    Lt,
    Ge,
    Gt,
    Eq,
    Ne,
    Add,
    Subtract,
    Or,
    Multiply,
    Divide,
    And,
    Mod,
    Negate,
    Not,
    Eof,
    Integer,
    Char,
    Call,
    Paren,
    Succ,
    Pred,
    Chr,
    Ord,
}

/// The model of a syntax tree: a label with its children in order, or a
/// leaf value.
pub enum Node {
    Branch(Kind, Seq<Node>),
    Text(Seq<char>),
    Int(i64),
    Chr(char),
}

pub struct Identifier {
    pub name: String,
}

pub struct Program {
    pub name: Identifier,
    pub consts: Consts,
    pub types: Types,
    pub dclns: Dclns,
    pub sub_progs: SubProgs,
    pub body: Body,
    pub end_name: Identifier,
}

pub struct Consts {
    pub consts: Vec<Const>,
}

pub struct Const {
    pub name: Identifier,
    pub value: ConstValue,
}

pub enum ConstValue {
    Integer(i64),
    Char(char),
    Name(Identifier),
}

pub struct Types {
    pub types: Vec<Type>,
}

pub struct Type {
    pub name: Identifier,
    pub lit_list: LitList,
}

pub struct LitList {
    pub names: Vec<Identifier>,
}

pub struct Dclns {
    pub vars: Vec<Var>,
}

/// A subprogram given by its parts alone, as plain lists.
pub enum Fcn {
    Fcn {
        name: String,
        params: Vec<Var>,
        consts: Vec<Const>,
        types: Vec<Type>,
        dclns: Vec<Var>,
        body: Body,
    },
}

pub struct Var {
    pub names: Vec<Identifier>,
    pub typename: Identifier,
}

pub struct SubProgs {
    pub sub_progs: Vec<Func>,
}

pub struct Func {
    pub name: Identifier,
    pub params: Params,
    pub return_type: Identifier,
    pub consts: Consts,
    pub types: Types,
    pub dclns: Dclns,
    pub body: Body,
    pub end_name: Identifier,
}

pub struct Params {
    pub params: Vec<Var>,
}

pub struct Body {
    pub statements: Vec<Statement>,
}

pub enum Statement {
    Assign { assignment: Assignment },
    Output { expressions: Vec<OutExp> },
    If { cond: Expression, then_stmt: Box<Statement>, else_stmt: Option<Box<Statement>> },
    While { cond: Expression, stmt: Box<Statement> },
    Repeat { stmts: Vec<Statement>, cond: Expression },
    For { init: ForStat, cond: ForExp, update: ForStat, stmt: Box<Statement> },
    Loop { stmts: Vec<Statement> },
    Case { expr: Expression, cases: Vec<CaseClause>, otherwise: Option<Box<OtherwiseClause>> },
    Read { names: Vec<Identifier> },
    Exit,
    Return { exp: Expression },
    Body { body: Body },
    Null,
}

pub enum ForStat {
    Assignment(Assignment),
    Null,
}

pub enum ForExp {
    Expression(Expression),
    True,
}

pub enum Assignment {
    Assignment { name: Identifier, exp: Expression },
    Swap { name1: Identifier, name2: Identifier },
}

pub enum OutExp {
    Integer { exp: Expression },
    String { value: String },
}

pub struct CaseClause {
    pub expressions: Vec<CaseExpression>,
    pub statement: Statement,
}

pub enum CaseExpression {
    Value(ConstValue),
    Range(ConstValue, ConstValue),
}

pub struct OtherwiseClause {
    pub stmt: Statement,
}

pub enum Expression {
    Le { left: Box<Term>, right: Box<Term> },
    Lt { left: Box<Term>, right: Box<Term> },
    Ge { left: Box<Term>, right: Box<Term> },
    Gt { left: Box<Term>, right: Box<Term> },
    Eq { left: Box<Term>, right: Box<Term> },
    Ne { left: Box<Term>, right: Box<Term> },
    Term(Box<Term>),
}

pub enum Term {
    Add { left: Box<Term>, right: Box<Factor> },
    Subtract { left: Box<Term>, right: Box<Factor> },
    Or { left: Box<Term>, right: Box<Factor> },
    Factor(Factor),
}

pub enum Factor {
    Multiply { left: Box<Factor>, right: Box<Primary> },
    Divide { left: Box<Factor>, right: Box<Primary> },
    And { left: Box<Factor>, right: Box<Primary> },
    Mod { left: Box<Factor>, right: Box<Primary> },
    Primary(Primary),
}

pub enum Primary {
    Negate { primary: Box<Primary> },
    Not { primary: Box<Primary> },
    Eof,
    Name(Identifier),
    Integer(i64),
    Char(char),
    Call { name: Identifier, exps: Vec<Expression> },
    Expression(Box<Expression>),
    Succ { exp: Box<Expression> },
    Pred { exp: Box<Expression> },
    Chr { exp: Box<Expression> },
    Ord { exp: Box<Expression> },
}

pub open spec fn leaf(k: Kind) -> Node {
    Node::Branch(k, Seq::empty())
}

pub open spec fn unary(k: Kind, a: Node) -> Node {
    Node::Branch(k, seq![a])
}

pub open spec fn binary(k: Kind, a: Node, b: Node) -> Node {
    Node::Branch(k, seq![a, b])
}

pub open spec fn ident_node(name: Seq<char>) -> Node {
    unary(Kind::Identifier, Node::Text(name))
}

pub open spec fn identifier_node(i: Identifier) -> Node {
    ident_node(i.name@)
}

pub open spec fn identifier_nodes(v: Seq<Identifier>) -> Seq<Node> {
    views(v)
}

pub open spec fn const_value_node(c: ConstValue) -> Node {
    match c {
        ConstValue::Integer(i) => unary(Kind::Integer, Node::Int(i)),
        ConstValue::Char(c) => unary(Kind::Char, Node::Chr(c)),
        ConstValue::Name(n) => identifier_node(n),
    }
}

pub open spec fn const_node(c: Const) -> Node {
    binary(Kind::Const, identifier_node(c.name), const_value_node(c.value))
}

pub open spec fn consts_node(c: Consts) -> Node {
    Node::Branch(Kind::Consts, views(c.consts@))
}

pub open spec fn lit_list_node(l: LitList) -> Node {
    Node::Branch(Kind::Lit, identifier_nodes(l.names@))
}

pub open spec fn type_node(t: Type) -> Node {
    binary(Kind::Type, identifier_node(t.name), lit_list_node(t.lit_list))
}

pub open spec fn types_node(t: Types) -> Node {
    Node::Branch(Kind::Types, views(t.types@))
}

pub open spec fn var_node(v: Var) -> Node {
    Node::Branch(Kind::Var, identifier_nodes(v.names@).push(identifier_node(v.typename)))
}

pub open spec fn var_nodes(v: Seq<Var>) -> Seq<Node> {
    views(v)
}

pub open spec fn dclns_node(d: Dclns) -> Node {
    Node::Branch(Kind::Dclns, var_nodes(d.vars@))
}

pub open spec fn params_node(p: Params) -> Node {
    Node::Branch(Kind::Params, var_nodes(p.params@))
}

pub open spec fn case_expression_node(c: CaseExpression) -> Node {
    match c {
        CaseExpression::Value(v) => const_value_node(v),
        CaseExpression::Range(a, b) => binary(Kind::Range, const_value_node(a), const_value_node(b)),
    }
}

pub open spec fn case_expression_nodes(v: Seq<CaseExpression>) -> Seq<Node> {
    views(v)
}

pub open spec fn expression_node(e: Expression) -> Node
    decreases e,
{
    match e {
        Expression::Le { left, right } => binary(Kind::Le, term_node(*left), term_node(*right)),
        Expression::Lt { left, right } => binary(Kind::Lt, term_node(*left), term_node(*right)),
        Expression::Ge { left, right } => binary(Kind::Ge, term_node(*left), term_node(*right)),
        Expression::Gt { left, right } => binary(Kind::Gt, term_node(*left), term_node(*right)),
        Expression::Eq { left, right } => binary(Kind::Eq, term_node(*left), term_node(*right)),
        Expression::Ne { left, right } => binary(Kind::Ne, term_node(*left), term_node(*right)),
        Expression::Term(t) => term_node(*t),
    }
}

pub open spec fn term_node(t: Term) -> Node
    decreases t,
{
    match t {
        Term::Add { left, right } => binary(Kind::Add, term_node(*left), factor_node(*right)),
        Term::Subtract { left, right } => binary(Kind::Subtract, term_node(*left), factor_node(*right)),
        Term::Or { left, right } => binary(Kind::Or, term_node(*left), factor_node(*right)),
        Term::Factor(f) => factor_node(f),
    }
}

pub open spec fn factor_node(f: Factor) -> Node
    decreases f,
{
    match f {
        Factor::Multiply { left, right } => binary(Kind::Multiply, factor_node(*left), primary_node(*right)),
        Factor::Divide { left, right } => binary(Kind::Divide, factor_node(*left), primary_node(*right)),
        Factor::And { left, right } => binary(Kind::And, factor_node(*left), primary_node(*right)),
        Factor::Mod { left, right } => binary(Kind::Mod, factor_node(*left), primary_node(*right)),
        Factor::Primary(p) => primary_node(p),
    }
}

pub open spec fn primary_node(p: Primary) -> Node
    decreases p,
{
    match p {
        Primary::Negate { primary } => unary(Kind::Negate, primary_node(*primary)),
        Primary::Not { primary } => unary(Kind::Not, primary_node(*primary)),
        Primary::Eof => leaf(Kind::Eof),
        Primary::Name(n) => identifier_node(n),
        Primary::Integer(i) => unary(Kind::Integer, Node::Int(i)),
        Primary::Char(c) => unary(Kind::Char, Node::Chr(c)),
        Primary::Call { name, exps } => Node::Branch(
            Kind::Call,
            seq![identifier_node(name)] + Seq::new(
                exps@.len(),
                |i: int|
                    if 0 <= i < exps@.len() {
                        expression_node(exps@[i])
                    } else {
                        leaf(Kind::Null)
                    },
            ),
        ),
        Primary::Expression(e) => unary(Kind::Paren, expression_node(*e)),
        Primary::Succ { exp } => unary(Kind::Succ, expression_node(*exp)),
        Primary::Pred { exp } => unary(Kind::Pred, expression_node(*exp)),
        Primary::Chr { exp } => unary(Kind::Chr, expression_node(*exp)),
        Primary::Ord { exp } => unary(Kind::Ord, expression_node(*exp)),
    }
}

pub open spec fn assignment_node(a: Assignment) -> Node {
    match a {
        Assignment::Assignment { name, exp } => binary(
            Kind::Assign,
            identifier_node(name),
            expression_node(exp),
        ),
        Assignment::Swap { name1, name2 } => binary(
            Kind::Swap,
            identifier_node(name1),
            identifier_node(name2),
        ),
    }
}

pub open spec fn out_exp_node(o: OutExp) -> Node {
    match o {
        OutExp::Integer { exp } => unary(Kind::IntegerOut, expression_node(exp)),
        OutExp::String { value } => unary(Kind::StringOut, Node::Text(value@)),
    }
}

pub open spec fn out_exp_nodes(v: Seq<OutExp>) -> Seq<Node> {
    views(v)
}

pub open spec fn for_stat_node(f: ForStat) -> Node {
    match f {
        ForStat::Assignment(a) => assignment_node(a),
        ForStat::Null => leaf(Kind::Null),
    }
}

pub open spec fn for_exp_node(f: ForExp) -> Node {
    match f {
        ForExp::Expression(e) => expression_node(e),
        ForExp::True => leaf(Kind::True),
    }
}

pub open spec fn statement_node(s: Statement) -> Node
    decreases s,
{
    match s {
        Statement::Assign { assignment } => assignment_node(assignment),
        Statement::Output { expressions } => Node::Branch(
            Kind::Output,
            out_exp_nodes(expressions@),
        ),
        Statement::If { cond, then_stmt, else_stmt } => Node::Branch(
            Kind::If,
            match else_stmt {
                Some(e) => seq![expression_node(cond), statement_node(*then_stmt), statement_node(*e)],
                None => seq![expression_node(cond), statement_node(*then_stmt)],
            },
        ),
        Statement::While { cond, stmt } => binary(
            Kind::While,
            expression_node(cond),
            statement_node(*stmt),
        ),
        Statement::Repeat { stmts, cond } => Node::Branch(
            Kind::Repeat,
            Seq::new(
                stmts@.len(),
                |i: int|
                    if 0 <= i < stmts@.len() {
                        statement_node(stmts@[i])
                    } else {
                        leaf(Kind::Null)
                    },
            ).push(expression_node(cond)),
        ),
        Statement::For { init, cond, update, stmt } => Node::Branch(
            Kind::For,
            seq![
                for_stat_node(init),
                for_exp_node(cond),
                for_stat_node(update),
                statement_node(*stmt),
            ],
        ),
        Statement::Loop { stmts } => Node::Branch(
            Kind::Loop,
            Seq::new(
                stmts@.len(),
                |i: int|
                    if 0 <= i < stmts@.len() {
                        statement_node(stmts@[i])
                    } else {
                        leaf(Kind::Null)
                    },
            ),
        ),
        Statement::Case { expr, cases, otherwise } => Node::Branch(
            Kind::Case,
            seq![expression_node(expr)] + Seq::new(
                cases@.len(),
                |i: int|
                    if 0 <= i < cases@.len() {
                        case_clause_node(cases@[i])
                    } else {
                        leaf(Kind::Null)
                    },
            ) + match otherwise {
                Some(o) => seq![otherwise_node(*o)],
                None => Seq::empty(),
            },
        ),
        Statement::Read { names } => Node::Branch(Kind::Read, identifier_nodes(names@)),
        Statement::Exit => leaf(Kind::Exit),
        Statement::Return { exp } => unary(Kind::Return, expression_node(exp)),
        Statement::Body { body } => body_node(body),
        Statement::Null => leaf(Kind::Null),
    }
}

pub open spec fn case_clause_node(c: CaseClause) -> Node
    decreases c,
{
    Node::Branch(
        Kind::CaseClause,
        case_expression_nodes(c.expressions@).push(statement_node(c.statement)),
    )
}

pub open spec fn otherwise_node(o: OtherwiseClause) -> Node
    decreases o,
{
    unary(Kind::Otherwise, statement_node(o.stmt))
}

pub open spec fn body_node(b: Body) -> Node
    decreases b,
{
    Node::Branch(
        Kind::Block,
        Seq::new(
            b.statements@.len(),
            |i: int|
                if 0 <= i < b.statements@.len() {
                    statement_node(b.statements@[i])
                } else {
                    leaf(Kind::Null)
                },
        ),
    )
}

pub open spec fn func_node(f: Func) -> Node {
    Node::Branch(
        Kind::Fcn,
        seq![
            identifier_node(f.name),
            params_node(f.params),
            identifier_node(f.return_type),
            consts_node(f.consts),
            types_node(f.types),
            dclns_node(f.dclns),
            body_node(f.body),
            identifier_node(f.end_name),
        ],
    )
}

pub open spec fn sub_progs_node(s: SubProgs) -> Node {
    Node::Branch(Kind::SubProgs, views(s.sub_progs@))
}

pub open spec fn program_node(p: Program) -> Node {
    Node::Branch(
        Kind::Program,
        seq![
            identifier_node(p.name),
            consts_node(p.consts),
            types_node(p.types),
            dclns_node(p.dclns),
            sub_progs_node(p.sub_progs),
            body_node(p.body),
            identifier_node(p.end_name),
        ],
    )
}

impl View for Identifier {
    type V = Node;

    open spec fn view(&self) -> Node {
        identifier_node(*self)
    }
}

impl View for Program {
    type V = Node;

    open spec fn view(&self) -> Node {
        program_node(*self)
    }
}

impl View for Consts {
    type V = Node;

    open spec fn view(&self) -> Node {
        consts_node(*self)
    }
}

impl View for Const {
    type V = Node;

    open spec fn view(&self) -> Node {
        const_node(*self)
    }
}

impl View for ConstValue {
    type V = Node;

    open spec fn view(&self) -> Node {
        const_value_node(*self)
    }
}

impl View for Types {
    type V = Node;

    open spec fn view(&self) -> Node {
        types_node(*self)
    }
}

impl View for Type {
    type V = Node;

    open spec fn view(&self) -> Node {
        type_node(*self)
    }
}

impl View for LitList {
    type V = Node;

    open spec fn view(&self) -> Node {
        lit_list_node(*self)
    }
}

impl View for Dclns {
    type V = Node;

    open spec fn view(&self) -> Node {
        dclns_node(*self)
    }
}

impl View for Var {
    type V = Node;

    open spec fn view(&self) -> Node {
        var_node(*self)
    }
}

impl View for SubProgs {
    type V = Node;

    open spec fn view(&self) -> Node {
        sub_progs_node(*self)
    }
}

impl View for Func {
    type V = Node;

    open spec fn view(&self) -> Node {
        func_node(*self)
    }
}

impl View for Params {
    type V = Node;

    open spec fn view(&self) -> Node {
        params_node(*self)
    }
}

impl View for Body {
    type V = Node;

    open spec fn view(&self) -> Node {
        body_node(*self)
    }
}

impl View for Statement {
    type V = Node;

    open spec fn view(&self) -> Node {
        statement_node(*self)
    }
}

impl View for ForStat {
    type V = Node;

    open spec fn view(&self) -> Node {
        for_stat_node(*self)
    }
}

impl View for ForExp {
    type V = Node;

    open spec fn view(&self) -> Node {
        for_exp_node(*self)
    }
}

impl View for Assignment {
    type V = Node;

    open spec fn view(&self) -> Node {
        assignment_node(*self)
    }
}

impl View for OutExp {
    type V = Node;

    open spec fn view(&self) -> Node {
        out_exp_node(*self)
    }
}

impl View for CaseClause {
    type V = Node;

    open spec fn view(&self) -> Node {
        case_clause_node(*self)
    }
}

impl View for CaseExpression {
    type V = Node;

    open spec fn view(&self) -> Node {
        case_expression_node(*self)
    }
}

impl View for OtherwiseClause {
    type V = Node;

    open spec fn view(&self) -> Node {
        otherwise_node(*self)
    }
}

impl View for Expression {
    type V = Node;

    open spec fn view(&self) -> Node {
        expression_node(*self)
    }
}

impl View for Term {
    type V = Node;

    open spec fn view(&self) -> Node {
        term_node(*self)
    }
}

impl View for Factor {
    type V = Node;

    open spec fn view(&self) -> Node {
        factor_node(*self)
    }
}

impl View for Primary {
    type V = Node;

    open spec fn view(&self) -> Node {
        primary_node(*self)
    }
}

/// The models of a sequence of nodes, in order.
pub open spec fn views<T: View<V = Node>>(v: Seq<T>) -> Seq<Node> {
    Seq::new(v.len(), |i: int| v[i]@)
}

pub proof fn lemma_call_node(name: Identifier, exps: Vec<Expression>)
    ensures
        (Primary::Call { name, exps })@ == Node::Branch(
            Kind::Call,
            seq![name@] + views(exps@),
        ),
{
    let c = Primary::Call { name, exps };
    assert(primary_node(c) matches Node::Branch(Kind::Call, _));
    assert(primary_node(c)->Branch_1 =~= seq![name@] + views(exps@));
}

pub proof fn lemma_block_node(b: Body)
    ensures
        b@ == Node::Branch(Kind::Block, views(b.statements@)),
{
    assert(body_node(b)->Branch_1 =~= views(b.statements@));
}

pub proof fn lemma_repeat_node(stmts: Vec<Statement>, cond: Expression)
    ensures
        (Statement::Repeat { stmts, cond })@ == Node::Branch(
            Kind::Repeat,
            views(stmts@).push(cond@),
        ),
{
    let s = Statement::Repeat { stmts, cond };
    assert(statement_node(s)->Branch_1 =~= views(stmts@).push(cond@));
}

pub proof fn lemma_loop_node(stmts: Vec<Statement>)
    ensures
        (Statement::Loop { stmts })@ == Node::Branch(Kind::Loop, views(stmts@)),
{
    let s = Statement::Loop { stmts };
    assert(statement_node(s)->Branch_1 =~= views(stmts@));
}

/// The model of an optional `otherwise` clause: none or one node.
pub open spec fn otherwise_views(o: Option<Box<OtherwiseClause>>) -> Seq<Node> {
    match o {
        Some(c) => seq![otherwise_node(*c)],
        None => Seq::empty(),
    }
}

pub proof fn lemma_case_node(
    expr: Expression,
    cases: Vec<CaseClause>,
    otherwise: Option<Box<OtherwiseClause>>,
)
    ensures
        (Statement::Case { expr, cases, otherwise })@ == Node::Branch(
            Kind::Case,
            seq![expr@] + views(cases@) + otherwise_views(otherwise),
        ),
{
    let s = Statement::Case { expr, cases, otherwise };
    assert(statement_node(s)->Branch_1 =~= seq![expr@] + views(cases@) + otherwise_views(
        otherwise,
    ));
}

} // verus!
