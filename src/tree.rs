//! Rendering a syntax tree as an indented outline: one line per node,
//! `". "` repeated once per level of nesting, then the node's label and, in
//! parentheses, how many children are rendered beneath it. Leaf values
//! (names, numbers, characters, strings) get a line `value(0)` of their own,
//! and a parenthesized expression renders as the expression inside it.
use vstd::prelude::*;

use crate::ast::{
    Assignment, Body, CaseClause, CaseExpression, Const, ConstValue, Consts, Dclns, Expression,
    Factor, ForExp, ForStat, Func, Identifier, Kind, LitList, Node, OtherwiseClause, OutExp, Params,
    Primary, Program, Statement, SubProgs, Term, Type, Types, Var,
};
use crate::text::{decimal, i64_text, push_char, signed_decimal, usize_text};

verus! {

broadcast use vstd::seq::axiom_seq_index_decreases, vstd::seq::axiom_seq_subrange_decreases;

/// The text of a line at nesting `level`.
pub open spec fn indent(level: nat) -> Seq<char>
    decreases level,
{
    if level == 0 {
        Seq::empty()
    } else {
        indent((level - 1) as nat) + ". "@
    }
}

pub open spec fn label(k: Kind) -> Seq<char> {
    match k {
        Kind::Program => "program"@,
        Kind::Identifier => "<identifier>"@,
        Kind::Consts => "consts"@,
        Kind::Const => "const"@,
        Kind::Types => "types"@,
        Kind::Type => "type"@,
        Kind::Lit => "lit"@,
        Kind::Dclns => "dclns"@,
        Kind::Var => "var"@,
        Kind::SubProgs => "subprogs"@,
        Kind::Fcn => "fcn"@,
        Kind::Params => "params"@,
        Kind::Block => "block"@,
        Kind::Output => "output"@,
        Kind::If => "if"@,
        Kind::While => "while"@,
        Kind::Repeat => "repeat"@,
        Kind::For => "for"@,
        Kind::Loop => "loop"@,
        Kind::Case => "case"@,
        Kind::Read => "read"@,
        Kind::Exit => "exit"@,
        Kind::Return => "return"@,
        Kind::Null => "<null>"@,
        Kind::Assign => "assign"@,
        Kind::Swap => "swap"@,
        Kind::IntegerOut => "integer"@,
        Kind::StringOut => "<string>"@,
        Kind::CaseClause => "case_clause"@,
        Kind::Range => ".."@,
        Kind::Otherwise => "otherwise"@,
        Kind::True => "true"@,
        Kind::Le => "<="@,
        Kind::Lt => "<"@,
        Kind::Ge => ">="@,
        Kind::Gt => ">"@,
        Kind::Eq => "="@,
        Kind::Ne => "<>"@,
        Kind::Add => "+"@,
        Kind::Subtract => "-"@,
        Kind::Or => "or"@,
        Kind::Multiply => "*"@,
        Kind::Divide => "/"@,
        Kind::And => "and"@,
        Kind::Mod => "mod"@,
        Kind::Negate => "-"@,
        Kind::Not => "not"@,
        Kind::Eof => "eof"@,
        Kind::Integer => "<integer>"@,
        Kind::Char => "<char>"@,
        Kind::Call => "call"@,
        Kind::Paren => ""@,
        Kind::Succ => "succ"@,
        Kind::Pred => "pred"@,
        Kind::Chr => "chr"@,
        Kind::Ord => "ord"@,
    }
}

/// The nesting level of a node's children. Levels are machine integers; a
/// tree is never deep enough for the bound to matter.
pub open spec fn next_level(level: nat) -> nat {
    if level < usize::MAX {
        level + 1
    } else {
        level
    }
}

/// A child count as it is printed, held to the machine bound.
pub open spec fn count(n: nat) -> nat {
    if n <= usize::MAX {
        n
    } else {
        usize::MAX as nat
    }
}

/// The line `label(count)` at nesting `level`.
pub open spec fn line(level: nat, label: Seq<char>, n: nat) -> Seq<char> {
    indent(level) + label + "("@ + decimal(n) + ")"@
}

/// The outline of a node whose own line is at nesting `level`.
pub open spec fn outline(n: Node, level: nat) -> Seq<Seq<char>>
    decreases n,
{
    match n {
        Node::Branch(k, cs) => if k == Kind::Paren && cs.len() == 1 {
            outline(cs[0], level)
        } else {
            seq![line(level, label(k), count(cs.len()))] + outlines(cs, next_level(level))
        },
        Node::Text(v) => seq![indent(level) + v + "(0)"@],
        Node::Int(i) => seq![indent(level) + signed_decimal(i as int) + "(0)"@],
        Node::Chr(c) => seq![indent(level).push(c) + "(0)"@],
    }
}

/// The outlines of a sequence of sibling nodes, one after the other.
pub open spec fn outlines(cs: Seq<Node>, level: nat) -> Seq<Seq<char>>
    decreases cs,
{
    if cs.len() == 0 {
        Seq::empty()
    } else {
        outlines(cs.drop_last(), level) + outline(cs.last(), level)
    }
}

/// The text of each line.
pub open spec fn lines(v: Seq<String>) -> Seq<Seq<char>> {
    v.map_values(|l: String| l@)
}

fn indented(level: usize) -> (r: String)
    ensures
        r@ == indent(level as nat),
{
    let mut s = String::new();
    let mut i: usize = 0;
    while i < level
        invariant
            i <= level,
            s@ == indent(i as nat),
        decreases level - i,
    {
        s.append(". ");
        i = i + 1;
    }
    s
}

/// `label(count)` at nesting `level`.
pub fn node_line(level: usize, label: &str, count: usize) -> (r: String)
    ensures
        r@ == line(level as nat, label@, count as nat),
{
    let mut s = indented(level);
    s.append(label);
    s.append("(");
    let n = usize_text(count);
    s.append(n.as_str());
    s.append(")");
    s
}

/// A leaf value, `text(0)`, at nesting `level`.
fn leaf_line(level: usize, text: &str) -> (r: String)
    ensures
        r@ == indent(level as nat) + text@ + "(0)"@,
{
    let mut s = indented(level);
    s.append(text);
    s.append("(0)");
    s
}

fn char_line(level: usize, c: char) -> (r: String)
    ensures
        r@ == indent(level as nat).push(c) + "(0)"@,
{
    let mut s = indented(level);
    push_char(&mut s, c);
    s.append("(0)");
    s
}

fn deeper(level: usize) -> (r: usize)
    ensures
        r == next_level(level as nat),
{
    if level < usize::MAX {
        level + 1
    } else {
        level
    }
}

fn sum(a: usize, b: usize) -> (r: usize)
    ensures
        r == count((a + b) as nat),
{
    if a <= usize::MAX - b {
        a + b
    } else {
        usize::MAX
    }
}

fn single(l: String) -> (r: Vec<String>)
    ensures
        lines(r@) == seq![l@],
{
    let r = vec![l];
    assert(lines(r@) =~= seq![l@]);
    r
}

/// The header line of a node whose children `cs` are rendered at `lvl`.
fn start(header: String, Ghost(cs): Ghost<Seq<Node>>, Ghost(lvl): Ghost<nat>) -> (r: Vec<String>)
    ensures
        lines(r@) == seq![header@] + outlines(cs.take(0), lvl),
{
    let r = vec![header];
    assert(cs.take(0) =~= Seq::<Node>::empty());
    assert(lines(r@) =~= seq![header@] + outlines(cs.take(0), lvl));
    r
}

/// Appends the outline of child `k`, after those of the children before it.
fn append_child(
    tree: &mut Vec<String>,
    more: Vec<String>,
    Ghost(h): Ghost<Seq<char>>,
    Ghost(cs): Ghost<Seq<Node>>,
    Ghost(k): Ghost<int>,
    Ghost(lvl): Ghost<nat>,
)
    requires
        0 <= k < cs.len(),
        lines(old(tree)@) == seq![h] + outlines(cs.take(k), lvl),
        lines(more@) == outline(cs[k], lvl),
    ensures
        lines(final(tree)@) == seq![h] + outlines(cs.take(k + 1), lvl),
{
    let ghost before = lines(tree@);
    let ghost added = lines(more@);
    let mut more = more;
    tree.append(&mut more);
    assert(cs.take(k + 1).drop_last() =~= cs.take(k));
    assert(cs.take(k + 1).last() == cs[k]);
    assert(lines(tree@) =~= before + added);
    assert(lines(tree@) =~= seq![h] + outlines(cs.take(k + 1), lvl));
}

proof fn lemma_take_all(cs: Seq<Node>)
    ensures
        cs.take(cs.len() as int) == cs,
{
    assert(cs.take(cs.len() as int) =~= cs);
}

pub trait StringTree: View<V = Node> {
    /// The lines of the outline of `self`, whose own line is at nesting `level`.
    fn get_string_tree(&self, level: usize) -> (r: Vec<String>)
        ensures
            lines(r@) == outline(self@, level as nat),
    ;
}

impl StringTree for Program {
    #[verifier::loop_isolation(false)]
    fn get_string_tree(&self, level: usize) -> (r: Vec<String>)
        decreases self,
    {
        let ghost cs = self@->Branch_1;
        let next = deeper(level);
        let header = node_line(level, "program", 7);
        let ghost h = header@;
        let mut tree = start(header, Ghost(cs), Ghost(next as nat));
        append_child(&mut tree, self.name.get_string_tree(next), Ghost(h), Ghost(cs), Ghost(0int), Ghost(next as nat));
        append_child(&mut tree, self.consts.get_string_tree(next), Ghost(h), Ghost(cs), Ghost(1int), Ghost(next as nat));
        append_child(&mut tree, self.types.get_string_tree(next), Ghost(h), Ghost(cs), Ghost(2int), Ghost(next as nat));
        append_child(&mut tree, self.dclns.get_string_tree(next), Ghost(h), Ghost(cs), Ghost(3int), Ghost(next as nat));
        append_child(&mut tree, self.sub_progs.get_string_tree(next), Ghost(h), Ghost(cs), Ghost(4int), Ghost(next as nat));
        append_child(&mut tree, self.body.get_string_tree(next), Ghost(h), Ghost(cs), Ghost(5int), Ghost(next as nat));
        append_child(&mut tree, self.end_name.get_string_tree(next), Ghost(h), Ghost(cs), Ghost(6int), Ghost(next as nat));
        proof {
            lemma_take_all(cs);
        }
        tree
    }
}

impl StringTree for Identifier {
    #[verifier::loop_isolation(false)]
    fn get_string_tree(&self, level: usize) -> (r: Vec<String>)
        decreases self,
    {
        let ghost cs = self@->Branch_1;
        let next = deeper(level);
        let header = node_line(level, "<identifier>", 1);
        let ghost h = header@;
        let mut tree = start(header, Ghost(cs), Ghost(next as nat));
        append_child(&mut tree, single(leaf_line(next, self.name.as_str())), Ghost(h), Ghost(cs), Ghost(0int), Ghost(next as nat));
        proof {
            lemma_take_all(cs);
        }
        tree
    }
}

impl StringTree for Consts {
    #[verifier::loop_isolation(false)]
    fn get_string_tree(&self, level: usize) -> (r: Vec<String>)
        decreases self,
    {
        let ghost cs = self@->Branch_1;
        let next = deeper(level);
        let header = node_line(level, "consts", self.consts.len());
        let ghost h = header@;
        let mut tree = start(header, Ghost(cs), Ghost(next as nat));
        let mut i: usize = 0;
        while i < self.consts.len()
            invariant
                i <= self.consts.len(),
                lines(tree@) == seq![h] + outlines(cs.take(0 + i as int), next as nat),
            decreases self.consts.len() - i,
        {
            append_child(&mut tree, self.consts[i].get_string_tree(next), Ghost(h), Ghost(cs), Ghost(0 + i as int), Ghost(next as nat));
            i = i + 1;
        }
        proof {
            lemma_take_all(cs);
        }
        tree
    }
}

impl StringTree for Const {
    #[verifier::loop_isolation(false)]
    fn get_string_tree(&self, level: usize) -> (r: Vec<String>)
        decreases self,
    {
        let ghost cs = self@->Branch_1;
        let next = deeper(level);
        let header = node_line(level, "const", 2);
        let ghost h = header@;
        let mut tree = start(header, Ghost(cs), Ghost(next as nat));
        append_child(&mut tree, self.name.get_string_tree(next), Ghost(h), Ghost(cs), Ghost(0int), Ghost(next as nat));
        append_child(&mut tree, self.value.get_string_tree(next), Ghost(h), Ghost(cs), Ghost(1int), Ghost(next as nat));
        proof {
            lemma_take_all(cs);
        }
        tree
    }
}

impl StringTree for Types {
    #[verifier::loop_isolation(false)]
    fn get_string_tree(&self, level: usize) -> (r: Vec<String>)
        decreases self,
    {
        let ghost cs = self@->Branch_1;
        let next = deeper(level);
        let header = node_line(level, "types", self.types.len());
        let ghost h = header@;
        let mut tree = start(header, Ghost(cs), Ghost(next as nat));
        let mut i: usize = 0;
        while i < self.types.len()
            invariant
                i <= self.types.len(),
                lines(tree@) == seq![h] + outlines(cs.take(0 + i as int), next as nat),
            decreases self.types.len() - i,
        {
            append_child(&mut tree, self.types[i].get_string_tree(next), Ghost(h), Ghost(cs), Ghost(0 + i as int), Ghost(next as nat));
            i = i + 1;
        }
        proof {
            lemma_take_all(cs);
        }
        tree
    }
}

impl StringTree for Type {
    #[verifier::loop_isolation(false)]
    fn get_string_tree(&self, level: usize) -> (r: Vec<String>)
        decreases self,
    {
        let ghost cs = self@->Branch_1;
        let next = deeper(level);
        let header = node_line(level, "type", 2);
        let ghost h = header@;
        let mut tree = start(header, Ghost(cs), Ghost(next as nat));
        append_child(&mut tree, self.name.get_string_tree(next), Ghost(h), Ghost(cs), Ghost(0int), Ghost(next as nat));
        append_child(&mut tree, self.lit_list.get_string_tree(next), Ghost(h), Ghost(cs), Ghost(1int), Ghost(next as nat));
        proof {
            lemma_take_all(cs);
        }
        tree
    }
}

impl StringTree for LitList {
    #[verifier::loop_isolation(false)]
    fn get_string_tree(&self, level: usize) -> (r: Vec<String>)
        decreases self,
    {
        let ghost cs = self@->Branch_1;
        let next = deeper(level);
        let header = node_line(level, "lit", self.names.len());
        let ghost h = header@;
        let mut tree = start(header, Ghost(cs), Ghost(next as nat));
        let mut i: usize = 0;
        while i < self.names.len()
            invariant
                i <= self.names.len(),
                lines(tree@) == seq![h] + outlines(cs.take(0 + i as int), next as nat),
            decreases self.names.len() - i,
        {
            append_child(&mut tree, self.names[i].get_string_tree(next), Ghost(h), Ghost(cs), Ghost(0 + i as int), Ghost(next as nat));
            i = i + 1;
        }
        proof {
            lemma_take_all(cs);
        }
        tree
    }
}

impl StringTree for Dclns {
    #[verifier::loop_isolation(false)]
    fn get_string_tree(&self, level: usize) -> (r: Vec<String>)
        decreases self,
    {
        let ghost cs = self@->Branch_1;
        let next = deeper(level);
        let header = node_line(level, "dclns", self.vars.len());
        let ghost h = header@;
        let mut tree = start(header, Ghost(cs), Ghost(next as nat));
        let mut i: usize = 0;
        while i < self.vars.len()
            invariant
                i <= self.vars.len(),
                lines(tree@) == seq![h] + outlines(cs.take(0 + i as int), next as nat),
            decreases self.vars.len() - i,
        {
            append_child(&mut tree, self.vars[i].get_string_tree(next), Ghost(h), Ghost(cs), Ghost(0 + i as int), Ghost(next as nat));
            i = i + 1;
        }
        proof {
            lemma_take_all(cs);
        }
        tree
    }
}

impl StringTree for Var {
    #[verifier::loop_isolation(false)]
    fn get_string_tree(&self, level: usize) -> (r: Vec<String>)
        decreases self,
    {
        let ghost cs = self@->Branch_1;
        let next = deeper(level);
        let header = node_line(level, "var", sum(self.names.len(), 1));
        let ghost h = header@;
        let mut tree = start(header, Ghost(cs), Ghost(next as nat));
        let mut i: usize = 0;
        while i < self.names.len()
            invariant
                i <= self.names.len(),
                lines(tree@) == seq![h] + outlines(cs.take(0 + i as int), next as nat),
            decreases self.names.len() - i,
        {
            append_child(&mut tree, self.names[i].get_string_tree(next), Ghost(h), Ghost(cs), Ghost(0 + i as int), Ghost(next as nat));
            i = i + 1;
        }
        append_child(&mut tree, self.typename.get_string_tree(next), Ghost(h), Ghost(cs), Ghost(self.names.len() as int), Ghost(next as nat));
        proof {
            lemma_take_all(cs);
        }
        tree
    }
}

impl StringTree for SubProgs {
    #[verifier::loop_isolation(false)]
    fn get_string_tree(&self, level: usize) -> (r: Vec<String>)
        decreases self,
    {
        let ghost cs = self@->Branch_1;
        let next = deeper(level);
        let header = node_line(level, "subprogs", self.sub_progs.len());
        let ghost h = header@;
        let mut tree = start(header, Ghost(cs), Ghost(next as nat));
        let mut i: usize = 0;
        while i < self.sub_progs.len()
            invariant
                i <= self.sub_progs.len(),
                lines(tree@) == seq![h] + outlines(cs.take(0 + i as int), next as nat),
            decreases self.sub_progs.len() - i,
        {
            append_child(&mut tree, self.sub_progs[i].get_string_tree(next), Ghost(h), Ghost(cs), Ghost(0 + i as int), Ghost(next as nat));
            i = i + 1;
        }
        proof {
            lemma_take_all(cs);
        }
        tree
    }
}

impl StringTree for Func {
    #[verifier::loop_isolation(false)]
    fn get_string_tree(&self, level: usize) -> (r: Vec<String>)
        decreases self,
    {
        let ghost cs = self@->Branch_1;
        let next = deeper(level);
        let header = node_line(level, "fcn", 8);
        let ghost h = header@;
        let mut tree = start(header, Ghost(cs), Ghost(next as nat));
        append_child(&mut tree, self.name.get_string_tree(next), Ghost(h), Ghost(cs), Ghost(0int), Ghost(next as nat));
        append_child(&mut tree, self.params.get_string_tree(next), Ghost(h), Ghost(cs), Ghost(1int), Ghost(next as nat));
        append_child(&mut tree, self.return_type.get_string_tree(next), Ghost(h), Ghost(cs), Ghost(2int), Ghost(next as nat));
        append_child(&mut tree, self.consts.get_string_tree(next), Ghost(h), Ghost(cs), Ghost(3int), Ghost(next as nat));
        append_child(&mut tree, self.types.get_string_tree(next), Ghost(h), Ghost(cs), Ghost(4int), Ghost(next as nat));
        append_child(&mut tree, self.dclns.get_string_tree(next), Ghost(h), Ghost(cs), Ghost(5int), Ghost(next as nat));
        append_child(&mut tree, self.body.get_string_tree(next), Ghost(h), Ghost(cs), Ghost(6int), Ghost(next as nat));
        append_child(&mut tree, self.end_name.get_string_tree(next), Ghost(h), Ghost(cs), Ghost(7int), Ghost(next as nat));
        proof {
            lemma_take_all(cs);
        }
        tree
    }
}

impl StringTree for Params {
    #[verifier::loop_isolation(false)]
    fn get_string_tree(&self, level: usize) -> (r: Vec<String>)
        decreases self,
    {
        let ghost cs = self@->Branch_1;
        let next = deeper(level);
        let header = node_line(level, "params", self.params.len());
        let ghost h = header@;
        let mut tree = start(header, Ghost(cs), Ghost(next as nat));
        let mut i: usize = 0;
        while i < self.params.len()
            invariant
                i <= self.params.len(),
                lines(tree@) == seq![h] + outlines(cs.take(0 + i as int), next as nat),
            decreases self.params.len() - i,
        {
            append_child(&mut tree, self.params[i].get_string_tree(next), Ghost(h), Ghost(cs), Ghost(0 + i as int), Ghost(next as nat));
            i = i + 1;
        }
        proof {
            lemma_take_all(cs);
        }
        tree
    }
}

impl StringTree for Body {
    #[verifier::loop_isolation(false)]
    fn get_string_tree(&self, level: usize) -> (r: Vec<String>)
        decreases self,
    {
        let ghost cs = self@->Branch_1;
        let next = deeper(level);
        let header = node_line(level, "block", self.statements.len());
        let ghost h = header@;
        let mut tree = start(header, Ghost(cs), Ghost(next as nat));
        let mut i: usize = 0;
        while i < self.statements.len()
            invariant
                i <= self.statements.len(),
                lines(tree@) == seq![h] + outlines(cs.take(0 + i as int), next as nat),
            decreases self.statements.len() - i,
        {
            append_child(&mut tree, self.statements[i].get_string_tree(next), Ghost(h), Ghost(cs), Ghost(0 + i as int), Ghost(next as nat));
            i = i + 1;
        }
        proof {
            lemma_take_all(cs);
        }
        tree
    }
}

impl StringTree for CaseClause {
    #[verifier::loop_isolation(false)]
    fn get_string_tree(&self, level: usize) -> (r: Vec<String>)
        decreases self,
    {
        let ghost cs = self@->Branch_1;
        let next = deeper(level);
        let header = node_line(level, "case_clause", sum(self.expressions.len(), 1));
        let ghost h = header@;
        let mut tree = start(header, Ghost(cs), Ghost(next as nat));
        let mut i: usize = 0;
        while i < self.expressions.len()
            invariant
                i <= self.expressions.len(),
                lines(tree@) == seq![h] + outlines(cs.take(0 + i as int), next as nat),
            decreases self.expressions.len() - i,
        {
            append_child(&mut tree, self.expressions[i].get_string_tree(next), Ghost(h), Ghost(cs), Ghost(0 + i as int), Ghost(next as nat));
            i = i + 1;
        }
        append_child(&mut tree, self.statement.get_string_tree(next), Ghost(h), Ghost(cs), Ghost(self.expressions.len() as int), Ghost(next as nat));
        proof {
            lemma_take_all(cs);
        }
        tree
    }
}

impl StringTree for OtherwiseClause {
    #[verifier::loop_isolation(false)]
    fn get_string_tree(&self, level: usize) -> (r: Vec<String>)
        decreases self,
    {
        let ghost cs = self@->Branch_1;
        let next = deeper(level);
        let header = node_line(level, "otherwise", 1);
        let ghost h = header@;
        let mut tree = start(header, Ghost(cs), Ghost(next as nat));
        append_child(&mut tree, self.stmt.get_string_tree(next), Ghost(h), Ghost(cs), Ghost(0int), Ghost(next as nat));
        proof {
            lemma_take_all(cs);
        }
        tree
    }
}

impl StringTree for Statement {
    #[verifier::loop_isolation(false)]
    #[verifier::rlimit(100)]
    #[verifier::spinoff_prover]
    fn get_string_tree(&self, level: usize) -> (r: Vec<String>)
        decreases self,
    {
        match self {
            Statement::Assign { assignment } => assignment.get_string_tree(level),
            Statement::Output { expressions } => {
            let ghost cs = self@->Branch_1;
            let next = deeper(level);
            let header = node_line(level, "output", expressions.len());
            let ghost h = header@;
            let mut tree = start(header, Ghost(cs), Ghost(next as nat));
            let mut i: usize = 0;
            while i < expressions.len()
                invariant
                    i <= expressions.len(),
                    lines(tree@) == seq![h] + outlines(cs.take(0 + i as int), next as nat),
                decreases expressions.len() - i,
            {
                append_child(&mut tree, expressions[i].get_string_tree(next), Ghost(h), Ghost(cs), Ghost(0 + i as int), Ghost(next as nat));
                i = i + 1;
            }
            proof {
                lemma_take_all(cs);
            }
            tree
            },
            Statement::If { cond, then_stmt, else_stmt: Some(else_stmt) } => {
            let ghost cs = self@->Branch_1;
            let next = deeper(level);
            let header = node_line(level, "if", 3);
            let ghost h = header@;
            let mut tree = start(header, Ghost(cs), Ghost(next as nat));
            append_child(&mut tree, cond.get_string_tree(next), Ghost(h), Ghost(cs), Ghost(0int), Ghost(next as nat));
            append_child(&mut tree, then_stmt.get_string_tree(next), Ghost(h), Ghost(cs), Ghost(1int), Ghost(next as nat));
            append_child(&mut tree, else_stmt.get_string_tree(next), Ghost(h), Ghost(cs), Ghost(2int), Ghost(next as nat));
            proof {
                lemma_take_all(cs);
            }
            tree
            },
            Statement::If { cond, then_stmt, else_stmt: None } => {
            let ghost cs = self@->Branch_1;
            let next = deeper(level);
            let header = node_line(level, "if", 2);
            let ghost h = header@;
            let mut tree = start(header, Ghost(cs), Ghost(next as nat));
            append_child(&mut tree, cond.get_string_tree(next), Ghost(h), Ghost(cs), Ghost(0int), Ghost(next as nat));
            append_child(&mut tree, then_stmt.get_string_tree(next), Ghost(h), Ghost(cs), Ghost(1int), Ghost(next as nat));
            proof {
                lemma_take_all(cs);
            }
            tree
            },
            Statement::While { cond, stmt } => {
            let ghost cs = self@->Branch_1;
            let next = deeper(level);
            let header = node_line(level, "while", 2);
            let ghost h = header@;
            let mut tree = start(header, Ghost(cs), Ghost(next as nat));
            append_child(&mut tree, cond.get_string_tree(next), Ghost(h), Ghost(cs), Ghost(0int), Ghost(next as nat));
            append_child(&mut tree, stmt.get_string_tree(next), Ghost(h), Ghost(cs), Ghost(1int), Ghost(next as nat));
            proof {
                lemma_take_all(cs);
            }
            tree
            },
            Statement::Repeat { stmts, cond } => {
            let ghost cs = self@->Branch_1;
            let next = deeper(level);
            let header = node_line(level, "repeat", sum(stmts.len(), 1));
            let ghost h = header@;
            let mut tree = start(header, Ghost(cs), Ghost(next as nat));
            let mut i: usize = 0;
            while i < stmts.len()
                invariant
                    i <= stmts.len(),
                    lines(tree@) == seq![h] + outlines(cs.take(0 + i as int), next as nat),
                decreases stmts.len() - i,
            {
                append_child(&mut tree, stmts[i].get_string_tree(next), Ghost(h), Ghost(cs), Ghost(0 + i as int), Ghost(next as nat));
                i = i + 1;
            }
            append_child(&mut tree, cond.get_string_tree(next), Ghost(h), Ghost(cs), Ghost(stmts.len() as int), Ghost(next as nat));
            proof {
                lemma_take_all(cs);
            }
            tree
            },
            Statement::For { init, cond, update, stmt } => {
            let ghost cs = self@->Branch_1;
            let next = deeper(level);
            let header = node_line(level, "for", 4);
            let ghost h = header@;
            let mut tree = start(header, Ghost(cs), Ghost(next as nat));
            append_child(&mut tree, init.get_string_tree(next), Ghost(h), Ghost(cs), Ghost(0int), Ghost(next as nat));
            append_child(&mut tree, cond.get_string_tree(next), Ghost(h), Ghost(cs), Ghost(1int), Ghost(next as nat));
            append_child(&mut tree, update.get_string_tree(next), Ghost(h), Ghost(cs), Ghost(2int), Ghost(next as nat));
            append_child(&mut tree, stmt.get_string_tree(next), Ghost(h), Ghost(cs), Ghost(3int), Ghost(next as nat));
            proof {
                lemma_take_all(cs);
            }
            tree
            },
            Statement::Loop { stmts } => {
            let ghost cs = self@->Branch_1;
            let next = deeper(level);
            let header = node_line(level, "loop", stmts.len());
            let ghost h = header@;
            let mut tree = start(header, Ghost(cs), Ghost(next as nat));
            let mut i: usize = 0;
            while i < stmts.len()
                invariant
                    i <= stmts.len(),
                    lines(tree@) == seq![h] + outlines(cs.take(0 + i as int), next as nat),
                decreases stmts.len() - i,
            {
                append_child(&mut tree, stmts[i].get_string_tree(next), Ghost(h), Ghost(cs), Ghost(0 + i as int), Ghost(next as nat));
                i = i + 1;
            }
            proof {
                lemma_take_all(cs);
            }
            tree
            },
            Statement::Case { expr, cases, otherwise: Some(otherwise) } => {
            let ghost cs = self@->Branch_1;
            let next = deeper(level);
            let header = node_line(level, "case", sum(cases.len(), 2));
            let ghost h = header@;
            let mut tree = start(header, Ghost(cs), Ghost(next as nat));
            append_child(&mut tree, expr.get_string_tree(next), Ghost(h), Ghost(cs), Ghost(0int), Ghost(next as nat));
            let mut i: usize = 0;
            while i < cases.len()
                invariant
                    i <= cases.len(),
                    lines(tree@) == seq![h] + outlines(cs.take(1 + i as int), next as nat),
                decreases cases.len() - i,
            {
                append_child(&mut tree, cases[i].get_string_tree(next), Ghost(h), Ghost(cs), Ghost(1 + i as int), Ghost(next as nat));
                i = i + 1;
            }
            append_child(&mut tree, otherwise.get_string_tree(next), Ghost(h), Ghost(cs), Ghost(1 + cases.len() as int), Ghost(next as nat));
            proof {
                lemma_take_all(cs);
            }
            tree
            },
            Statement::Case { expr, cases, otherwise: None } => {
            let ghost cs = self@->Branch_1;
            let next = deeper(level);
            let header = node_line(level, "case", sum(cases.len(), 1));
            let ghost h = header@;
            let mut tree = start(header, Ghost(cs), Ghost(next as nat));
            append_child(&mut tree, expr.get_string_tree(next), Ghost(h), Ghost(cs), Ghost(0int), Ghost(next as nat));
            let mut i: usize = 0;
            while i < cases.len()
                invariant
                    i <= cases.len(),
                    lines(tree@) == seq![h] + outlines(cs.take(1 + i as int), next as nat),
                decreases cases.len() - i,
            {
                append_child(&mut tree, cases[i].get_string_tree(next), Ghost(h), Ghost(cs), Ghost(1 + i as int), Ghost(next as nat));
                i = i + 1;
            }
            proof {
                lemma_take_all(cs);
            }
            tree
            },
            Statement::Read { names } => {
            let ghost cs = self@->Branch_1;
            let next = deeper(level);
            let header = node_line(level, "read", names.len());
            let ghost h = header@;
            let mut tree = start(header, Ghost(cs), Ghost(next as nat));
            let mut i: usize = 0;
            while i < names.len()
                invariant
                    i <= names.len(),
                    lines(tree@) == seq![h] + outlines(cs.take(0 + i as int), next as nat),
                decreases names.len() - i,
            {
                append_child(&mut tree, names[i].get_string_tree(next), Ghost(h), Ghost(cs), Ghost(0 + i as int), Ghost(next as nat));
                i = i + 1;
            }
            proof {
                lemma_take_all(cs);
            }
            tree
            },
            Statement::Exit => {
            let ghost cs = self@->Branch_1;
            let next = deeper(level);
            let header = node_line(level, "exit", 0);
            let ghost h = header@;
            let mut tree = start(header, Ghost(cs), Ghost(next as nat));
            proof {
                lemma_take_all(cs);
            }
            tree
            },
            Statement::Return { exp } => {
            let ghost cs = self@->Branch_1;
            let next = deeper(level);
            let header = node_line(level, "return", 1);
            let ghost h = header@;
            let mut tree = start(header, Ghost(cs), Ghost(next as nat));
            append_child(&mut tree, exp.get_string_tree(next), Ghost(h), Ghost(cs), Ghost(0int), Ghost(next as nat));
            proof {
                lemma_take_all(cs);
            }
            tree
            },
            Statement::Body { body } => body.get_string_tree(level),
            Statement::Null => {
            let ghost cs = self@->Branch_1;
            let next = deeper(level);
            let header = node_line(level, "<null>", 0);
            let ghost h = header@;
            let mut tree = start(header, Ghost(cs), Ghost(next as nat));
            proof {
                lemma_take_all(cs);
            }
            tree
            },
        }
    }
}

impl StringTree for CaseExpression {
    #[verifier::loop_isolation(false)]
    fn get_string_tree(&self, level: usize) -> (r: Vec<String>)
        decreases self,
    {
        match self {
            CaseExpression::Value(v) => v.get_string_tree(level),
            CaseExpression::Range(a, b) => {
            let ghost cs = self@->Branch_1;
            let next = deeper(level);
            let header = node_line(level, "..", 2);
            let ghost h = header@;
            let mut tree = start(header, Ghost(cs), Ghost(next as nat));
            append_child(&mut tree, a.get_string_tree(next), Ghost(h), Ghost(cs), Ghost(0int), Ghost(next as nat));
            append_child(&mut tree, b.get_string_tree(next), Ghost(h), Ghost(cs), Ghost(1int), Ghost(next as nat));
            proof {
                lemma_take_all(cs);
            }
            tree
            },
        }
    }
}

impl StringTree for ConstValue {
    #[verifier::loop_isolation(false)]
    fn get_string_tree(&self, level: usize) -> (r: Vec<String>)
        decreases self,
    {
        match self {
            ConstValue::Integer(i) => {
            let text = i64_text(*i);
            let ghost cs = self@->Branch_1;
            let next = deeper(level);
            let header = node_line(level, "<integer>", 1);
            let ghost h = header@;
            let mut tree = start(header, Ghost(cs), Ghost(next as nat));
            append_child(&mut tree, single(leaf_line(next, text.as_str())), Ghost(h), Ghost(cs), Ghost(0int), Ghost(next as nat));
            proof {
                lemma_take_all(cs);
            }
            tree
            },
            ConstValue::Char(c) => {
            let ghost cs = self@->Branch_1;
            let next = deeper(level);
            let header = node_line(level, "<char>", 1);
            let ghost h = header@;
            let mut tree = start(header, Ghost(cs), Ghost(next as nat));
            append_child(&mut tree, single(char_line(next, *c)), Ghost(h), Ghost(cs), Ghost(0int), Ghost(next as nat));
            proof {
                lemma_take_all(cs);
            }
            tree
            },
            ConstValue::Name(n) => n.get_string_tree(level),
        }
    }
}

impl StringTree for ForStat {
    #[verifier::loop_isolation(false)]
    fn get_string_tree(&self, level: usize) -> (r: Vec<String>)
        decreases self,
    {
        match self {
            ForStat::Assignment(a) => a.get_string_tree(level),
            ForStat::Null => {
            let ghost cs = self@->Branch_1;
            let next = deeper(level);
            let header = node_line(level, "<null>", 0);
            let ghost h = header@;
            let mut tree = start(header, Ghost(cs), Ghost(next as nat));
            proof {
                lemma_take_all(cs);
            }
            tree
            },
        }
    }
}

impl StringTree for ForExp {
    #[verifier::loop_isolation(false)]
    fn get_string_tree(&self, level: usize) -> (r: Vec<String>)
        decreases self,
    {
        match self {
            ForExp::Expression(e) => e.get_string_tree(level),
            ForExp::True => {
            let ghost cs = self@->Branch_1;
            let next = deeper(level);
            let header = node_line(level, "true", 0);
            let ghost h = header@;
            let mut tree = start(header, Ghost(cs), Ghost(next as nat));
            proof {
                lemma_take_all(cs);
            }
            tree
            },
        }
    }
}

impl StringTree for Assignment {
    #[verifier::loop_isolation(false)]
    fn get_string_tree(&self, level: usize) -> (r: Vec<String>)
        decreases self,
    {
        match self {
            Assignment::Assignment { name, exp } => {
            let ghost cs = self@->Branch_1;
            let next = deeper(level);
            let header = node_line(level, "assign", 2);
            let ghost h = header@;
            let mut tree = start(header, Ghost(cs), Ghost(next as nat));
            append_child(&mut tree, name.get_string_tree(next), Ghost(h), Ghost(cs), Ghost(0int), Ghost(next as nat));
            append_child(&mut tree, exp.get_string_tree(next), Ghost(h), Ghost(cs), Ghost(1int), Ghost(next as nat));
            proof {
                lemma_take_all(cs);
            }
            tree
            },
            Assignment::Swap { name1, name2 } => {
            let ghost cs = self@->Branch_1;
            let next = deeper(level);
            let header = node_line(level, "swap", 2);
            let ghost h = header@;
            let mut tree = start(header, Ghost(cs), Ghost(next as nat));
            append_child(&mut tree, name1.get_string_tree(next), Ghost(h), Ghost(cs), Ghost(0int), Ghost(next as nat));
            append_child(&mut tree, name2.get_string_tree(next), Ghost(h), Ghost(cs), Ghost(1int), Ghost(next as nat));
            proof {
                lemma_take_all(cs);
            }
            tree
            },
        }
    }
}

impl StringTree for Expression {
    #[verifier::loop_isolation(false)]
    fn get_string_tree(&self, level: usize) -> (r: Vec<String>)
        decreases self,
    {
        match self {
            Expression::Le { left, right } => {
            let ghost cs = self@->Branch_1;
            let next = deeper(level);
            let header = node_line(level, "<=", 2);
            let ghost h = header@;
            let mut tree = start(header, Ghost(cs), Ghost(next as nat));
            append_child(&mut tree, left.get_string_tree(next), Ghost(h), Ghost(cs), Ghost(0int), Ghost(next as nat));
            append_child(&mut tree, right.get_string_tree(next), Ghost(h), Ghost(cs), Ghost(1int), Ghost(next as nat));
            proof {
                lemma_take_all(cs);
            }
            tree
            },
            Expression::Lt { left, right } => {
            let ghost cs = self@->Branch_1;
            let next = deeper(level);
            let header = node_line(level, "<", 2);
            let ghost h = header@;
            let mut tree = start(header, Ghost(cs), Ghost(next as nat));
            append_child(&mut tree, left.get_string_tree(next), Ghost(h), Ghost(cs), Ghost(0int), Ghost(next as nat));
            append_child(&mut tree, right.get_string_tree(next), Ghost(h), Ghost(cs), Ghost(1int), Ghost(next as nat));
            proof {
                lemma_take_all(cs);
            }
            tree
            },
            Expression::Ge { left, right } => {
            let ghost cs = self@->Branch_1;
            let next = deeper(level);
            let header = node_line(level, ">=", 2);
            let ghost h = header@;
            let mut tree = start(header, Ghost(cs), Ghost(next as nat));
            append_child(&mut tree, left.get_string_tree(next), Ghost(h), Ghost(cs), Ghost(0int), Ghost(next as nat));
            append_child(&mut tree, right.get_string_tree(next), Ghost(h), Ghost(cs), Ghost(1int), Ghost(next as nat));
            proof {
                lemma_take_all(cs);
            }
            tree
            },
            Expression::Gt { left, right } => {
            let ghost cs = self@->Branch_1;
            let next = deeper(level);
            let header = node_line(level, ">", 2);
            let ghost h = header@;
            let mut tree = start(header, Ghost(cs), Ghost(next as nat));
            append_child(&mut tree, left.get_string_tree(next), Ghost(h), Ghost(cs), Ghost(0int), Ghost(next as nat));
            append_child(&mut tree, right.get_string_tree(next), Ghost(h), Ghost(cs), Ghost(1int), Ghost(next as nat));
            proof {
                lemma_take_all(cs);
            }
            tree
            },
            Expression::Eq { left, right } => {
            let ghost cs = self@->Branch_1;
            let next = deeper(level);
            let header = node_line(level, "=", 2);
            let ghost h = header@;
            let mut tree = start(header, Ghost(cs), Ghost(next as nat));
            append_child(&mut tree, left.get_string_tree(next), Ghost(h), Ghost(cs), Ghost(0int), Ghost(next as nat));
            append_child(&mut tree, right.get_string_tree(next), Ghost(h), Ghost(cs), Ghost(1int), Ghost(next as nat));
            proof {
                lemma_take_all(cs);
            }
            tree
            },
            Expression::Ne { left, right } => {
            let ghost cs = self@->Branch_1;
            let next = deeper(level);
            let header = node_line(level, "<>", 2);
            let ghost h = header@;
            let mut tree = start(header, Ghost(cs), Ghost(next as nat));
            append_child(&mut tree, left.get_string_tree(next), Ghost(h), Ghost(cs), Ghost(0int), Ghost(next as nat));
            append_child(&mut tree, right.get_string_tree(next), Ghost(h), Ghost(cs), Ghost(1int), Ghost(next as nat));
            proof {
                lemma_take_all(cs);
            }
            tree
            },
            Expression::Term(t) => t.get_string_tree(level),
        }
    }
}

impl StringTree for Term {
    #[verifier::loop_isolation(false)]
    fn get_string_tree(&self, level: usize) -> (r: Vec<String>)
        decreases self,
    {
        match self {
            Term::Add { left, right } => {
            let ghost cs = self@->Branch_1;
            let next = deeper(level);
            let header = node_line(level, "+", 2);
            let ghost h = header@;
            let mut tree = start(header, Ghost(cs), Ghost(next as nat));
            append_child(&mut tree, left.get_string_tree(next), Ghost(h), Ghost(cs), Ghost(0int), Ghost(next as nat));
            append_child(&mut tree, right.get_string_tree(next), Ghost(h), Ghost(cs), Ghost(1int), Ghost(next as nat));
            proof {
                lemma_take_all(cs);
            }
            tree
            },
            Term::Subtract { left, right } => {
            let ghost cs = self@->Branch_1;
            let next = deeper(level);
            let header = node_line(level, "-", 2);
            let ghost h = header@;
            let mut tree = start(header, Ghost(cs), Ghost(next as nat));
            append_child(&mut tree, left.get_string_tree(next), Ghost(h), Ghost(cs), Ghost(0int), Ghost(next as nat));
            append_child(&mut tree, right.get_string_tree(next), Ghost(h), Ghost(cs), Ghost(1int), Ghost(next as nat));
            proof {
                lemma_take_all(cs);
            }
            tree
            },
            Term::Or { left, right } => {
            let ghost cs = self@->Branch_1;
            let next = deeper(level);
            let header = node_line(level, "or", 2);
            let ghost h = header@;
            let mut tree = start(header, Ghost(cs), Ghost(next as nat));
            append_child(&mut tree, left.get_string_tree(next), Ghost(h), Ghost(cs), Ghost(0int), Ghost(next as nat));
            append_child(&mut tree, right.get_string_tree(next), Ghost(h), Ghost(cs), Ghost(1int), Ghost(next as nat));
            proof {
                lemma_take_all(cs);
            }
            tree
            },
            Term::Factor(f) => f.get_string_tree(level),
        }
    }
}

impl StringTree for Factor {
    #[verifier::loop_isolation(false)]
    fn get_string_tree(&self, level: usize) -> (r: Vec<String>)
        decreases self,
    {
        match self {
            Factor::Multiply { left, right } => {
            let ghost cs = self@->Branch_1;
            let next = deeper(level);
            let header = node_line(level, "*", 2);
            let ghost h = header@;
            let mut tree = start(header, Ghost(cs), Ghost(next as nat));
            append_child(&mut tree, left.get_string_tree(next), Ghost(h), Ghost(cs), Ghost(0int), Ghost(next as nat));
            append_child(&mut tree, right.get_string_tree(next), Ghost(h), Ghost(cs), Ghost(1int), Ghost(next as nat));
            proof {
                lemma_take_all(cs);
            }
            tree
            },
            Factor::Divide { left, right } => {
            let ghost cs = self@->Branch_1;
            let next = deeper(level);
            let header = node_line(level, "/", 2);
            let ghost h = header@;
            let mut tree = start(header, Ghost(cs), Ghost(next as nat));
            append_child(&mut tree, left.get_string_tree(next), Ghost(h), Ghost(cs), Ghost(0int), Ghost(next as nat));
            append_child(&mut tree, right.get_string_tree(next), Ghost(h), Ghost(cs), Ghost(1int), Ghost(next as nat));
            proof {
                lemma_take_all(cs);
            }
            tree
            },
            Factor::And { left, right } => {
            let ghost cs = self@->Branch_1;
            let next = deeper(level);
            let header = node_line(level, "and", 2);
            let ghost h = header@;
            let mut tree = start(header, Ghost(cs), Ghost(next as nat));
            append_child(&mut tree, left.get_string_tree(next), Ghost(h), Ghost(cs), Ghost(0int), Ghost(next as nat));
            append_child(&mut tree, right.get_string_tree(next), Ghost(h), Ghost(cs), Ghost(1int), Ghost(next as nat));
            proof {
                lemma_take_all(cs);
            }
            tree
            },
            Factor::Mod { left, right } => {
            let ghost cs = self@->Branch_1;
            let next = deeper(level);
            let header = node_line(level, "mod", 2);
            let ghost h = header@;
            let mut tree = start(header, Ghost(cs), Ghost(next as nat));
            append_child(&mut tree, left.get_string_tree(next), Ghost(h), Ghost(cs), Ghost(0int), Ghost(next as nat));
            append_child(&mut tree, right.get_string_tree(next), Ghost(h), Ghost(cs), Ghost(1int), Ghost(next as nat));
            proof {
                lemma_take_all(cs);
            }
            tree
            },
            Factor::Primary(p) => p.get_string_tree(level),
        }
    }
}

impl StringTree for Primary {
    #[verifier::loop_isolation(false)]
    fn get_string_tree(&self, level: usize) -> (r: Vec<String>)
        decreases self,
    {
        match self {
            Primary::Negate { primary } => {
            let ghost cs = self@->Branch_1;
            let next = deeper(level);
            let header = node_line(level, "-", 1);
            let ghost h = header@;
            let mut tree = start(header, Ghost(cs), Ghost(next as nat));
            append_child(&mut tree, primary.get_string_tree(next), Ghost(h), Ghost(cs), Ghost(0int), Ghost(next as nat));
            proof {
                lemma_take_all(cs);
            }
            tree
            },
            Primary::Not { primary } => {
            let ghost cs = self@->Branch_1;
            let next = deeper(level);
            let header = node_line(level, "not", 1);
            let ghost h = header@;
            let mut tree = start(header, Ghost(cs), Ghost(next as nat));
            append_child(&mut tree, primary.get_string_tree(next), Ghost(h), Ghost(cs), Ghost(0int), Ghost(next as nat));
            proof {
                lemma_take_all(cs);
            }
            tree
            },
            Primary::Eof => {
            let ghost cs = self@->Branch_1;
            let next = deeper(level);
            let header = node_line(level, "eof", 0);
            let ghost h = header@;
            let mut tree = start(header, Ghost(cs), Ghost(next as nat));
            proof {
                lemma_take_all(cs);
            }
            tree
            },
            Primary::Name(n) => n.get_string_tree(level),
            Primary::Integer(i) => {
            let text = i64_text(*i);
            let ghost cs = self@->Branch_1;
            let next = deeper(level);
            let header = node_line(level, "<integer>", 1);
            let ghost h = header@;
            let mut tree = start(header, Ghost(cs), Ghost(next as nat));
            append_child(&mut tree, single(leaf_line(next, text.as_str())), Ghost(h), Ghost(cs), Ghost(0int), Ghost(next as nat));
            proof {
                lemma_take_all(cs);
            }
            tree
            },
            Primary::Char(c) => {
            let ghost cs = self@->Branch_1;
            let next = deeper(level);
            let header = node_line(level, "<char>", 1);
            let ghost h = header@;
            let mut tree = start(header, Ghost(cs), Ghost(next as nat));
            append_child(&mut tree, single(char_line(next, *c)), Ghost(h), Ghost(cs), Ghost(0int), Ghost(next as nat));
            proof {
                lemma_take_all(cs);
            }
            tree
            },
            Primary::Call { name, exps } => {
            let ghost cs = self@->Branch_1;
            let next = deeper(level);
            let header = node_line(level, "call", sum(exps.len(), 1));
            let ghost h = header@;
            let mut tree = start(header, Ghost(cs), Ghost(next as nat));
            append_child(&mut tree, name.get_string_tree(next), Ghost(h), Ghost(cs), Ghost(0int), Ghost(next as nat));
            let mut i: usize = 0;
            while i < exps.len()
                invariant
                    i <= exps.len(),
                    lines(tree@) == seq![h] + outlines(cs.take(1 + i as int), next as nat),
                decreases exps.len() - i,
            {
                append_child(&mut tree, exps[i].get_string_tree(next), Ghost(h), Ghost(cs), Ghost(1 + i as int), Ghost(next as nat));
                i = i + 1;
            }
            proof {
                lemma_take_all(cs);
            }
            tree
            },
            Primary::Expression(e) => e.get_string_tree(level),
            Primary::Succ { exp } => {
            let ghost cs = self@->Branch_1;
            let next = deeper(level);
            let header = node_line(level, "succ", 1);
            let ghost h = header@;
            let mut tree = start(header, Ghost(cs), Ghost(next as nat));
            append_child(&mut tree, exp.get_string_tree(next), Ghost(h), Ghost(cs), Ghost(0int), Ghost(next as nat));
            proof {
                lemma_take_all(cs);
            }
            tree
            },
            Primary::Pred { exp } => {
            let ghost cs = self@->Branch_1;
            let next = deeper(level);
            let header = node_line(level, "pred", 1);
            let ghost h = header@;
            let mut tree = start(header, Ghost(cs), Ghost(next as nat));
            append_child(&mut tree, exp.get_string_tree(next), Ghost(h), Ghost(cs), Ghost(0int), Ghost(next as nat));
            proof {
                lemma_take_all(cs);
            }
            tree
            },
            Primary::Chr { exp } => {
            let ghost cs = self@->Branch_1;
            let next = deeper(level);
            let header = node_line(level, "chr", 1);
            let ghost h = header@;
            let mut tree = start(header, Ghost(cs), Ghost(next as nat));
            append_child(&mut tree, exp.get_string_tree(next), Ghost(h), Ghost(cs), Ghost(0int), Ghost(next as nat));
            proof {
                lemma_take_all(cs);
            }
            tree
            },
            Primary::Ord { exp } => {
            let ghost cs = self@->Branch_1;
            let next = deeper(level);
            let header = node_line(level, "ord", 1);
            let ghost h = header@;
            let mut tree = start(header, Ghost(cs), Ghost(next as nat));
            append_child(&mut tree, exp.get_string_tree(next), Ghost(h), Ghost(cs), Ghost(0int), Ghost(next as nat));
            proof {
                lemma_take_all(cs);
            }
            tree
            },
        }
    }
}

impl StringTree for OutExp {
    #[verifier::loop_isolation(false)]
    fn get_string_tree(&self, level: usize) -> (r: Vec<String>)
        decreases self,
    {
        match self {
            OutExp::Integer { exp } => {
            let ghost cs = self@->Branch_1;
            let next = deeper(level);
            let header = node_line(level, "integer", 1);
            let ghost h = header@;
            let mut tree = start(header, Ghost(cs), Ghost(next as nat));
            append_child(&mut tree, exp.get_string_tree(next), Ghost(h), Ghost(cs), Ghost(0int), Ghost(next as nat));
            proof {
                lemma_take_all(cs);
            }
            tree
            },
            OutExp::String { value } => {
            let ghost cs = self@->Branch_1;
            let next = deeper(level);
            let header = node_line(level, "<string>", 1);
            let ghost h = header@;
            let mut tree = start(header, Ghost(cs), Ghost(next as nat));
            append_child(&mut tree, single(leaf_line(next, value.as_str())), Ghost(h), Ghost(cs), Ghost(0int), Ghost(next as nat));
            proof {
                lemma_take_all(cs);
            }
            tree
            },
        }
    }
}

} // verus!
