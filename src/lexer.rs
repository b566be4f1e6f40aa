//! The scanner: source text to tokens, one longest match at a time.
use vstd::prelude::*;

use crate::classify::{alphabetic, alphanumeric, is_alphabetic, is_alphanumeric};

verus! {

#[derive(Debug, Clone, Copy, PartialEq, Eq, Structural)]
pub enum Operator {
    Plus,
    Minus,
    Multiply,
    Divide,
    LessThan,
    LessEqual,
    NotEqual,
    GreaterThan,
    GreaterEqual,
    Equal,
    Assignment,
    Swap,
}

impl Operator {
    /// The characters that can begin an operator.
    pub open spec fn starts_operator(c: char) -> bool {
        c == '+' || c == '-' || c == '*' || c == '/' || c == '<' || c == '>' || c == '='
            || c == ':'
    }

    fn is_operator_starting_char(c: char) -> (r: bool)
        ensures
            r == Self::starts_operator(c),
    {
        match c {
            '+' | '-' | '*' | '/' | '<' | '>' | '=' | ':' => true,
            _ => false,
        }
    }
}

#[derive(Debug, Clone, Copy, PartialEq, Eq, Structural)]
pub enum Keyword {
    Program,
    Var,
    Const,
    Type,
    Function,
    Return,
    Begin,
    End,
    Output,
    If,
    Then,
    Else,
    While,
    Do,
    Case,
    Of,
    Otherwise,
    Repeat,
    For,
    Until,
    Loop,
    Pool,
    Exit,
    Mod,
    And,
    Or,
    Not,
    Read,
    Succ,
    Pred,
    Chr,
    Ord,
    Eof,
}

/// The reserved word spelled `s`, if any.
pub open spec fn keyword_of(s: Seq<char>) -> Option<Keyword> {
    if s == "program"@ { Some(Keyword::Program) }
    else if s == "var"@ { Some(Keyword::Var) }
    else if s == "const"@ { Some(Keyword::Const) }
    else if s == "type"@ { Some(Keyword::Type) }
    else if s == "function"@ { Some(Keyword::Function) }
    else if s == "return"@ { Some(Keyword::Return) }
    else if s == "begin"@ { Some(Keyword::Begin) }
    else if s == "end"@ { Some(Keyword::End) }
    else if s == "output"@ { Some(Keyword::Output) }
    else if s == "if"@ { Some(Keyword::If) }
    else if s == "then"@ { Some(Keyword::Then) }
    else if s == "else"@ { Some(Keyword::Else) }
    else if s == "while"@ { Some(Keyword::While) }
    else if s == "do"@ { Some(Keyword::Do) }
    else if s == "case"@ { Some(Keyword::Case) }
    else if s == "of"@ { Some(Keyword::Of) }
    else if s == "otherwise"@ { Some(Keyword::Otherwise) }
    else if s == "repeat"@ { Some(Keyword::Repeat) }
    else if s == "for"@ { Some(Keyword::For) }
    else if s == "until"@ { Some(Keyword::Until) }
    else if s == "loop"@ { Some(Keyword::Loop) }
    else if s == "pool"@ { Some(Keyword::Pool) }
    else if s == "exit"@ { Some(Keyword::Exit) }
    else if s == "mod"@ { Some(Keyword::Mod) }
    else if s == "and"@ { Some(Keyword::And) }
    else if s == "or"@ { Some(Keyword::Or) }
    else if s == "not"@ { Some(Keyword::Not) }
    else if s == "read"@ { Some(Keyword::Read) }
    else if s == "succ"@ { Some(Keyword::Succ) }
    else if s == "pred"@ { Some(Keyword::Pred) }
    else if s == "chr"@ { Some(Keyword::Chr) }
    else if s == "ord"@ { Some(Keyword::Ord) }
    else if s == "eof"@ { Some(Keyword::Eof) }
    else { None }
}

/// Whether `s`, whose length is `n`, spells `w`.
fn spells(s: &str, n: usize, w: &str) -> (r: bool)
    requires
        n == s@.len(),
    ensures
        r == (s@ == w@),
{
    let m = w.unicode_len();
    if m != n {
        return false;
    }
    let mut i: usize = 0;
    while i < n
        invariant
            n == s@.len(),
            m == w@.len(),
            m == n,
            i <= n,
            s@.subrange(0, i as int) == w@.subrange(0, i as int),
        decreases n - i,
    {
        if s.get_char(i) != w.get_char(i) {
            return false;
        }
        assert(s@.subrange(0, i + 1) =~= s@.subrange(0, i as int).push(s@[i as int]));
        assert(w@.subrange(0, i + 1) =~= w@.subrange(0, i as int).push(w@[i as int]));
        i = i + 1;
    }
    assert(s@ =~= s@.subrange(0, n as int));
    assert(w@ =~= w@.subrange(0, n as int));
    true
}

impl Keyword {
    fn parse_keyword(s: &str) -> (r: Option<Keyword>)
        ensures
            r == keyword_of(s@),
    {
        let n = s.unicode_len();
        if spells(s, n, "program") { Some(Keyword::Program) }
        else if spells(s, n, "var") { Some(Keyword::Var) }
        else if spells(s, n, "const") { Some(Keyword::Const) }
        else if spells(s, n, "type") { Some(Keyword::Type) }
        else if spells(s, n, "function") { Some(Keyword::Function) }
        else if spells(s, n, "return") { Some(Keyword::Return) }
        else if spells(s, n, "begin") { Some(Keyword::Begin) }
        else if spells(s, n, "end") { Some(Keyword::End) }
        else if spells(s, n, "output") { Some(Keyword::Output) }
        else if spells(s, n, "if") { Some(Keyword::If) }
        else if spells(s, n, "then") { Some(Keyword::Then) }
        else if spells(s, n, "else") { Some(Keyword::Else) }
        else if spells(s, n, "while") { Some(Keyword::While) }
        else if spells(s, n, "do") { Some(Keyword::Do) }
        else if spells(s, n, "case") { Some(Keyword::Case) }
        else if spells(s, n, "of") { Some(Keyword::Of) }
        else if spells(s, n, "otherwise") { Some(Keyword::Otherwise) }
        else if spells(s, n, "repeat") { Some(Keyword::Repeat) }
        else if spells(s, n, "for") { Some(Keyword::For) }
        else if spells(s, n, "until") { Some(Keyword::Until) }
        else if spells(s, n, "loop") { Some(Keyword::Loop) }
        else if spells(s, n, "pool") { Some(Keyword::Pool) }
        else if spells(s, n, "exit") { Some(Keyword::Exit) }
        else if spells(s, n, "mod") { Some(Keyword::Mod) }
        else if spells(s, n, "and") { Some(Keyword::And) }
        else if spells(s, n, "or") { Some(Keyword::Or) }
        else if spells(s, n, "not") { Some(Keyword::Not) }
        else if spells(s, n, "read") { Some(Keyword::Read) }
        else if spells(s, n, "succ") { Some(Keyword::Succ) }
        else if spells(s, n, "pred") { Some(Keyword::Pred) }
        else if spells(s, n, "chr") { Some(Keyword::Chr) }
        else if spells(s, n, "ord") { Some(Keyword::Ord) }
        else if spells(s, n, "eof") { Some(Keyword::Eof) }
        else { None }
    }
}

impl std::str::FromStr for Keyword {
    type Err = ();

    fn from_str(s: &str) -> Result<Keyword, ()> {
        match Keyword::parse_keyword(s) {
            Some(keyword) => Ok(keyword),
            None => Err(()),
        }
    }
}


#[derive(Debug, Clone)]
pub enum Token {
    Identifier(String),
    Keyword(Keyword),
    Operator(Operator),
    Integer(i64),
    Char(char),
    String(String),
    Comment,
    Whitespace,
    Newline,
    Dot,
    Dots,
    Colon,
    Semicolon,
    Comma,
    LeftParen,
    RightParen,
}

/// What a token stands for, with its text as a sequence of characters.
pub enum TokenView {
    Identifier(Seq<char>),
    Keyword(Keyword),
    Operator(Operator),
    Integer(i64),
    Char(char),
    String(Seq<char>),
    Comment,
    Whitespace,
    Newline,
    Dot,
    Dots,
    Colon,
    Semicolon,
    Comma,
    LeftParen,
    RightParen,
}

impl View for Token {
    type V = TokenView;

    open spec fn view(&self) -> TokenView {
        match self {
            Token::Identifier(s) => TokenView::Identifier(s@),
            Token::Keyword(k) => TokenView::Keyword(*k),
            Token::Operator(o) => TokenView::Operator(*o),
            Token::Integer(i) => TokenView::Integer(*i),
            Token::Char(c) => TokenView::Char(*c),
            Token::String(s) => TokenView::String(s@),
            Token::Comment => TokenView::Comment,
            Token::Whitespace => TokenView::Whitespace,
            Token::Newline => TokenView::Newline,
            Token::Dot => TokenView::Dot,
            Token::Dots => TokenView::Dots,
            Token::Colon => TokenView::Colon,
            Token::Semicolon => TokenView::Semicolon,
            Token::Comma => TokenView::Comma,
            Token::LeftParen => TokenView::LeftParen,
            Token::RightParen => TokenView::RightParen,
        }
    }
}

impl PartialEq for Token {
    fn eq(&self, other: &Token) -> (r: bool) {
        match (self, other) {
            (Token::Identifier(a), Token::Identifier(b)) => *a == *b,
            (Token::Keyword(a), Token::Keyword(b)) => *a == *b,
            (Token::Operator(a), Token::Operator(b)) => *a == *b,
            (Token::Integer(a), Token::Integer(b)) => *a == *b,
            (Token::Char(a), Token::Char(b)) => *a == *b,
            (Token::String(a), Token::String(b)) => *a == *b,
            (Token::Comment, Token::Comment) => true,
            (Token::Whitespace, Token::Whitespace) => true,
            (Token::Newline, Token::Newline) => true,
            (Token::Dot, Token::Dot) => true,
            (Token::Dots, Token::Dots) => true,
            (Token::Colon, Token::Colon) => true,
            (Token::Semicolon, Token::Semicolon) => true,
            (Token::Comma, Token::Comma) => true,
            (Token::LeftParen, Token::LeftParen) => true,
            (Token::RightParen, Token::RightParen) => true,
            _ => false,
        }
    }
}

impl vstd::std_specs::cmp::PartialEqSpecImpl for Token {
    open spec fn obeys_eq_spec() -> bool {
        true
    }

    open spec fn eq_spec(&self, other: &Token) -> bool {
        self@ == other@
    }
}

/// The ways in which scanning can fail.
#[derive(Debug, Clone, Copy, PartialEq, Eq, Structural)]
pub enum LexError {
    /// A character that starts no token.
    UnexpectedCharacter(char),
    /// A character literal without its closing quote.
    UnterminatedChar,
    /// A string literal that meets a newline or the end of the text first.
    UnterminatedString,
    /// A block comment without its closing brace.
    UnterminatedComment,
    /// A run of digits whose value does not fit in an `i64`.
    IntegerOverflow,
}

/// Sets of characters that the scanner consumes in runs.
#[derive(Clone, Copy)]
pub enum Run {
    /// Letters, digits and underscores: the rest of a word.
    Word,
    /// Decimal digits.
    Digit,
    /// Space, tab, form feed and vertical tab.
    Blank,
    /// Anything but a newline: the body of a line comment.
    LineComment,
    /// Anything but a closing brace: the body of a block comment.
    BlockComment,
    /// Anything but a double quote or a newline: the body of a string.
    StringBody,
}

pub open spec fn is_digit(c: char) -> bool {
    '0' <= c && c <= '9'
}

pub open spec fn is_blank(c: char) -> bool {
    c == ' ' || c == '\t' || c == '\x0C' || c == '\x0B'
}

pub open spec fn starts_word(c: char) -> bool {
    alphabetic(c) || c == '_'
}

pub open spec fn in_run(r: Run, c: char) -> bool {
    match r {
        Run::Word => alphanumeric(c) || c == '_',
        Run::Digit => is_digit(c),
        Run::Blank => is_blank(c),
        Run::LineComment => c != '\n',
        Run::BlockComment => c != '}',
        Run::StringBody => c != '"' && c != '\n',
    }
}

/// The end of the longest run of `r` characters in `s` that starts at `k`.
pub open spec fn run_end(s: Seq<char>, k: int, r: Run) -> int
    decreases s.len() - k,
{
    if 0 <= k < s.len() && in_run(r, s[k]) {
        run_end(s, k + 1, r)
    } else {
        k
    }
}

/// The value of a run of decimal digits.
pub open spec fn digits_value(s: Seq<char>) -> int
    decreases s.len(),
{
    if s.len() == 0 {
        0
    } else {
        digits_value(s.drop_last()) * 10 + (s.last() as int - '0' as int)
    }
}

/// The character at `k`, if there is one.
pub open spec fn char_at(s: Seq<char>, k: int) -> Option<char> {
    if 0 <= k < s.len() {
        Some(s[k])
    } else {
        None
    }
}

/// One scanned token and the position just past it.
pub type Scanned = Result<(TokenView, int), LexError>;

pub open spec fn scan_word(s: Seq<char>, i: int) -> Scanned {
    let j = run_end(s, i + 1, Run::Word);
    let text = s.subrange(i, j);
    match keyword_of(text) {
        Some(k) => Ok((TokenView::Keyword(k), j)),
        None => Ok((TokenView::Identifier(text), j)),
    }
}

/// Whether the operator recognizer claims position `i`: any operator
/// character, except a colon that no `=` follows.
pub open spec fn operator_at(s: Seq<char>, i: int) -> bool {
    Operator::starts_operator(s[i]) && (s[i] != ':' || char_at(s, i + 1) == Some('='))
}

pub open spec fn scan_operator(s: Seq<char>, i: int) -> Scanned {
    let next = char_at(s, i + 1);
    match s[i] {
        '+' => Ok((TokenView::Operator(Operator::Plus), i + 1)),
        '-' => Ok((TokenView::Operator(Operator::Minus), i + 1)),
        '*' => Ok((TokenView::Operator(Operator::Multiply), i + 1)),
        '/' => Ok((TokenView::Operator(Operator::Divide), i + 1)),
        '<' => if next == Some('=') {
            Ok((TokenView::Operator(Operator::LessEqual), i + 2))
        } else if next == Some('>') {
            Ok((TokenView::Operator(Operator::NotEqual), i + 2))
        } else {
            Ok((TokenView::Operator(Operator::LessThan), i + 1))
        },
        '>' => if next == Some('=') {
            Ok((TokenView::Operator(Operator::GreaterEqual), i + 2))
        } else {
            Ok((TokenView::Operator(Operator::GreaterThan), i + 1))
        },
        '=' => Ok((TokenView::Operator(Operator::Equal), i + 1)),
        _ => if char_at(s, i + 2) == Some(':') {
            Ok((TokenView::Operator(Operator::Swap), i + 3))
        } else {
            Ok((TokenView::Operator(Operator::Assignment), i + 2))
        },
    }
}

pub open spec fn scan_integer(s: Seq<char>, i: int) -> Scanned {
    let j = run_end(s, i, Run::Digit);
    let v = digits_value(s.subrange(i, j));
    if v <= i64::MAX {
        Ok((TokenView::Integer(v as i64), j))
    } else {
        Err(LexError::IntegerOverflow)
    }
}

pub open spec fn scan_char(s: Seq<char>, i: int) -> Scanned {
    if char_at(s, i + 2) == Some('\'') {
        Ok((TokenView::Char(s[i + 1]), i + 3))
    } else {
        Err(LexError::UnterminatedChar)
    }
}

pub open spec fn scan_string(s: Seq<char>, i: int) -> Scanned {
    let j = run_end(s, i + 1, Run::StringBody);
    if char_at(s, j) == Some('"') {
        Ok((TokenView::String(s.subrange(i, j + 1)), j + 1))
    } else {
        Err(LexError::UnterminatedString)
    }
}

pub open spec fn scan_comment(s: Seq<char>, i: int) -> Scanned {
    if s[i] == '#' {
        Ok((TokenView::Comment, run_end(s, i + 1, Run::LineComment)))
    } else {
        let j = run_end(s, i + 1, Run::BlockComment);
        if j < s.len() {
            Ok((TokenView::Comment, j + 1))
        } else {
            Err(LexError::UnterminatedComment)
        }
    }
}

/// The single-character tokens, and `..`.
pub open spec fn special_at(c: char) -> bool {
    c == '\n' || c == ';' || c == ',' || c == '(' || c == ')' || c == '.' || c == ':'
}

pub open spec fn scan_special(s: Seq<char>, i: int) -> Scanned {
    match s[i] {
        '\n' => Ok((TokenView::Newline, i + 1)),
        ';' => Ok((TokenView::Semicolon, i + 1)),
        ',' => Ok((TokenView::Comma, i + 1)),
        '(' => Ok((TokenView::LeftParen, i + 1)),
        ')' => Ok((TokenView::RightParen, i + 1)),
        '.' => if char_at(s, i + 1) == Some('.') {
            Ok((TokenView::Dots, i + 2))
        } else {
            Ok((TokenView::Dot, i + 1))
        },
        _ => Ok((TokenView::Colon, i + 1)),
    }
}

/// The token that starts at position `i` of `s`: the recognizers are tried in
/// a fixed order and the first that claims the character decides.
pub open spec fn scan_at(s: Seq<char>, i: int) -> Scanned
    recommends
        0 <= i < s.len(),
{
    let c = s[i];
    if starts_word(c) {
        scan_word(s, i)
    } else if operator_at(s, i) {
        scan_operator(s, i)
    } else if is_digit(c) {
        scan_integer(s, i)
    } else if c == '\'' {
        scan_char(s, i)
    } else if c == '"' {
        scan_string(s, i)
    } else if c == '#' || c == '{' {
        scan_comment(s, i)
    } else if is_blank(c) {
        Ok((TokenView::Whitespace, run_end(s, i, Run::Blank)))
    } else if special_at(c) {
        scan_special(s, i)
    } else {
        Err(LexError::UnexpectedCharacter(c))
    }
}

pub proof fn lemma_run_end_bounds(s: Seq<char>, k: int, r: Run)
    requires
        0 <= k <= s.len(),
    ensures
        k <= run_end(s, k, r) <= s.len(),
        forall|m: int| k <= m < run_end(s, k, r) ==> in_run(r, #[trigger] s[m]),
        run_end(s, k, r) < s.len() ==> !in_run(r, s[run_end(s, k, r)]),
    decreases s.len() - k,
{
    if k < s.len() && in_run(r, s[k]) {
        lemma_run_end_bounds(s, k + 1, r);
    }
}

/// Every token that is scanned has at least one character, and ends within
/// the text.
pub proof fn lemma_scan_progress(s: Seq<char>, i: int)
    requires
        0 <= i < s.len(),
    ensures
        scan_at(s, i) matches Ok((_, j)) ==> i < j <= s.len(),
{
    lemma_run_end_bounds(s, i + 1, Run::Word);
    lemma_run_end_bounds(s, i, Run::Digit);
    lemma_run_end_bounds(s, i + 1, Run::StringBody);
    lemma_run_end_bounds(s, i + 1, Run::LineComment);
    lemma_run_end_bounds(s, i + 1, Run::BlockComment);
    lemma_run_end_bounds(s, i, Run::Blank);
}

/// The tokens of `s` from position `i` on, or the first error met.
pub open spec fn lex_from(s: Seq<char>, i: int) -> Result<Seq<TokenView>, LexError>
    decreases s.len() - i,
{
    if i < 0 || i >= s.len() {
        Ok(Seq::empty())
    } else {
        match scan_at(s, i) {
            Ok((t, j)) => {
                proof {
                    lemma_scan_progress(s, i);
                }
                match lex_from(s, j) {
                    Ok(ts) => Ok(seq![t] + ts),
                    Err(e) => Err(e),
                }
            },
            Err(e) => Err(e),
        }
    }
}

/// The tokens of a whole text.
pub open spec fn lex_spec(s: Seq<char>) -> Result<Seq<TokenView>, LexError> {
    lex_from(s, 0)
}


/// The number of newlines among the first `k` characters of `s`.
pub open spec fn newlines(s: Seq<char>, k: int) -> int
    decreases k,
{
    if k <= 0 || k > s.len() {
        0
    } else {
        newlines(s, k - 1) + if s[k - 1] == '\n' { 1int } else { 0int }
    }
}

proof fn lemma_newlines_bound(s: Seq<char>, k: int)
    requires
        0 <= k <= s.len(),
    ensures
        0 <= newlines(s, k) <= k,
    decreases k,
{
    if k > 0 {
        lemma_newlines_bound(s, k - 1);
    }
}

proof fn lemma_digits_grow(s: Seq<char>, a: int, k: int, j: int)
    requires
        0 <= a <= k <= j <= s.len(),
        forall|m: int| a <= m < j ==> is_digit(#[trigger] s[m]),
    ensures
        0 <= digits_value(s.subrange(a, k)) <= digits_value(s.subrange(a, j)),
    decreases j - k,
{
    if k < j {
        lemma_digits_grow(s, a, k, j - 1);
        assert(s.subrange(a, j).drop_last() =~= s.subrange(a, j - 1));
    } else {
        lemma_digits_nonneg(s.subrange(a, k));
    }
}

proof fn lemma_digits_nonneg(s: Seq<char>)
    requires
        forall|m: int| 0 <= m < s.len() ==> is_digit(#[trigger] s[m]),
    ensures
        0 <= digits_value(s),
    decreases s.len(),
{
    if s.len() > 0 {
        lemma_digits_nonneg(s.drop_last());
    }
}

/// A scanner result with the token in its model form.
pub open spec fn scanned(r: Result<Token, LexError>, end: int) -> Scanned {
    match r {
        Ok(t) => Ok((t@, end)),
        Err(e) => Err(e),
    }
}

pub open spec fn token_views(ts: Seq<Token>) -> Seq<TokenView> {
    ts.map_values(|t: Token| t@)
}

pub open spec fn lexed(r: Result<Vec<Token>, LexError>) -> Result<Seq<TokenView>, LexError> {
    match r {
        Ok(ts) => Ok(token_views(ts@)),
        Err(e) => Err(e),
    }
}

fn in_run_exec(r: Run, c: char) -> (b: bool)
    ensures
        b == in_run(r, c),
{
    match r {
        Run::Word => is_alphanumeric(c) || c == '_',
        Run::Digit => '0' <= c && c <= '9',
        Run::Blank => c == ' ' || c == '\t' || c == '\x0C' || c == '\x0B',
        Run::LineComment => c != '\n',
        Run::BlockComment => c != '}',
        Run::StringBody => c != '"' && c != '\n',
    }
}

/// The scanner's state: the text as characters, where the current token
/// began, the cursor, and the line the cursor is on.
pub struct Lexer {
    source_text: String,
    chars: Vec<char>,
    start: usize,
    current: usize,
    line: usize,
}

impl Lexer {
    /// The text being scanned.
    pub closed spec fn text(&self) -> Seq<char> {
        self.chars@
    }

    /// The cursor, counted in characters.
    pub closed spec fn pos(&self) -> int {
        self.current as int
    }

    /// Where the token being scanned began.
    pub closed spec fn token_start(&self) -> int {
        self.start as int
    }

    pub closed spec fn line_spec(&self) -> int {
        self.line as int
    }

    pub closed spec fn wf(&self) -> bool {
        &&& self.chars@ == self.source_text@
        &&& self.start <= self.current <= self.chars@.len()
        &&& self.chars@.len() < usize::MAX
        &&& self.line == 1 + newlines(self.chars@, self.current as int)
    }

    pub proof fn lemma_wf(&self)
        requires
            self.wf(),
        ensures
            0 <= self.token_start() <= self.pos() <= self.text().len() < usize::MAX,
            self.line_spec() == 1 + newlines(self.text(), self.pos()),
    {
    }

    pub fn new(source_text: String) -> (r: Self)
        requires
            source_text@.len() < usize::MAX,
        ensures
            r.wf(),
            r.text() == source_text@,
            r.pos() == 0,
            r.line_spec() == 1,
    {
        let n = source_text.as_str().unicode_len();
        let mut chars: Vec<char> = Vec::new();
        let mut i: usize = 0;
        while i < n
            invariant
                n == source_text@.len(),
                i <= n,
                chars@ == source_text@.subrange(0, i as int),
            decreases n - i,
        {
            chars.push(source_text.as_str().get_char(i));
            i = i + 1;
            assert(chars@ =~= source_text@.subrange(0, i as int));
        }
        assert(chars@ =~= source_text@);
        Lexer { source_text, chars, start: 0, current: 0, line: 1 }
    }

    /// The line the cursor is on, counting from one.
    pub fn line(&self) -> (r: usize)
        requires
            self.wf(),
        ensures
            r == self.line_spec(),
    {
        self.line
    }

    /// Scans the rest of the text into tokens, in order; stops at the first
    /// character that starts no token, or at a token that is cut off.
    pub fn lex(&mut self) -> (r: Result<Vec<Token>, LexError>)
        requires
            old(self).wf(),
        ensures
            final(self).wf(),
            final(self).text() == old(self).text(),
            lexed(r) == lex_from(old(self).text(), old(self).pos()),
            r is Ok ==> final(self).pos() == final(self).text().len(),
    {
        let mut tokens: Vec<Token> = Vec::new();
        let ghost s = self.chars@;
        let ghost i0 = self.current as int;
        while !self.is_at_end()
            invariant
                self.wf(),
                self.chars@ == s,
                s == old(self).chars@,
                i0 == old(self).current,
                i0 <= self.current,
                lex_from(s, i0) == match lex_from(s, self.current as int) {
                    Ok(ts) => Ok(token_views(tokens@) + ts),
                    Err(e) => Err::<Seq<TokenView>, LexError>(e),
                },
            decreases s.len() - self.current,
        {
            self.commit();
            let ghost c = self.current as int;
            let token = match self.scan_token() {
                Ok(t) => t,
                Err(e) => {
                    return Err(e);
                },
            };
            proof {
                lemma_scan_progress(s, c);
                assert(token_views(tokens@.push(token)) =~= token_views(tokens@).push(token@));
                assert(seq![token@] + match lex_from(s, self.current as int) {
                    Ok(ts) => ts,
                    Err(_) => Seq::empty(),
                } =~= seq![token@] + match lex_from(s, self.current as int) {
                    Ok(ts) => ts,
                    Err(_) => Seq::empty(),
                });
                match lex_from(s, self.current as int) {
                    Ok(ts) => {
                        assert(token_views(tokens@) + (seq![token@] + ts)
                            =~= token_views(tokens@).push(token@) + ts);
                    },
                    Err(_) => {},
                }
            }
            tokens.push(token);
        }
        assert(token_views(tokens@) + Seq::<TokenView>::empty() =~= token_views(tokens@));
        Ok(tokens)
    }

    fn is_at_end(&self) -> (r: bool)
        requires
            self.wf(),
        ensures
            r == (self.current >= self.chars@.len()),
    {
        self.current >= self.chars.len()
    }

    fn advance(&mut self) -> (c: char)
        requires
            old(self).wf(),
            old(self).current < old(self).chars@.len(),
        ensures
            final(self).wf(),
            final(self).chars@ == old(self).chars@,
            final(self).start == old(self).start,
            final(self).current == old(self).current + 1,
            final(self).source_text == old(self).source_text,
            final(self).chars == old(self).chars,
            c == old(self).chars@[old(self).current as int],
    {
        let c = self.chars[self.current];
        proof {
            lemma_newlines_bound(self.chars@, self.current + 1);
        }
        self.current = self.current + 1;
        if c == '\n' {
            self.line = self.line + 1;
        }
        c
    }

    fn commit(&mut self)
        requires
            old(self).wf(),
        ensures
            final(self).wf(),
            final(self).chars@ == old(self).chars@,
            final(self).current == old(self).current,
            final(self).start == old(self).current,
    {
        self.start = self.current;
    }

    /// Moves the cursor back to where the token began; used only after a
    /// single character that is not a newline was consumed.
    fn rollback(&mut self)
        requires
            old(self).wf(),
            old(self).current == old(self).start + 1,
            old(self).chars@[old(self).start as int] != '\n',
        ensures
            final(self).wf(),
            final(self).chars@ == old(self).chars@,
            final(self).current == old(self).start,
            final(self).start == old(self).start,
            final(self).source_text == old(self).source_text,
            final(self).chars == old(self).chars,
    {
        self.current = self.start;
    }

    fn selection(&self) -> (r: String)
        requires
            self.wf(),
        ensures
            r@ == self.chars@.subrange(self.start as int, self.current as int),
    {
        self.source_text.as_str().substring_char(self.start, self.current).to_owned()
    }

    fn peek(&self) -> (c: char)
        requires
            self.wf(),
        ensures
            c == if self.current < self.chars@.len() {
                self.chars@[self.current as int]
            } else {
                '\0'
            },
    {
        if self.is_at_end() {
            '\0'
        } else {
            self.chars[self.current]
        }
    }

    /// The token at the cursor; the recognizers are tried in order.
    fn scan_token(&mut self) -> (r: Result<Token, LexError>)
        requires
            old(self).wf(),
            old(self).start == old(self).current,
            old(self).current < old(self).chars@.len(),
        ensures
            final(self).wf(),
            final(self).chars@ == old(self).chars@,
            scanned(r, final(self).current as int) == scan_at(
                old(self).chars@,
                old(self).current as int,
            ),
    {
        if let Some(token) = self.identifier_or_keyword() {
            return Ok(token);
        }
        if let Some(token) = self.operator() {
            return Ok(token);
        }
        if let Some(result) = self.integer() {
            return result;
        }
        if let Some(result) = self.char() {
            return result;
        }
        if let Some(result) = self.string() {
            return result;
        }
        if let Some(result) = self.comment() {
            return result;
        }
        if let Some(token) = self.whitespace() {
            return Ok(token);
        }
        if let Some(token) = self.special_token() {
            return Ok(token);
        }
        Err(LexError::UnexpectedCharacter(self.peek()))
    }

    fn identifier_or_keyword(&mut self) -> (r: Option<Token>)
        requires
            old(self).wf(),
            old(self).start == old(self).current,
        ensures
            final(self).wf(),
            final(self).chars@ == old(self).chars@,
            ({
                let s = old(self).chars@;
                let i = old(self).current as int;
                if i < s.len() && (starts_word(s[i])) {
                    &&& r matches Some(t) && scanned(Ok(t), final(self).current as int) == scan_word(s, i)
                    &&& final(self).current == run_end(s, i, Run::Word)
                } else {
                    r is None && *final(self) == *old(self)
                }
            }),
    {
        if self.is_at_end() {
            return None;
        }
        let c = self.peek();
        if !is_alphabetic(c) && c != '_' {
            return None;
        }
        // A letter also continues a word, so the word is the longest run of
        // word characters from the cursor.
        let continues = is_alphanumeric(c) || c == '_';
        assert(continues);
        self.advance();
        self.advance_while(Run::Word);
        let text = self.selection();
        match Keyword::parse_keyword(text.as_str()) {
            Some(keyword) => Some(Token::Keyword(keyword)),
            None => Some(Token::Identifier(text)),
        }
    }

    fn operator(&mut self) -> (r: Option<Token>)
        requires
            old(self).wf(),
            old(self).start == old(self).current,
        ensures
            final(self).wf(),
            final(self).chars@ == old(self).chars@,
            ({
                let s = old(self).chars@;
                let i = old(self).current as int;
                if i < s.len() && (operator_at(s, i)) {
                    r matches Some(t) && scanned(Ok(t), final(self).current as int) == scan_operator(s, i)
                } else {
                    r is None && *final(self) == *old(self)
                }
            }),
    {
        if !Operator::is_operator_starting_char(self.peek()) {
            return None;
        }
        let c = self.advance();
        match c {
            '+' => Some(Token::Operator(Operator::Plus)),
            '-' => Some(Token::Operator(Operator::Minus)),
            '*' => Some(Token::Operator(Operator::Multiply)),
            '/' => Some(Token::Operator(Operator::Divide)),
            '<' => {
                if self.peek() == '=' {
                    self.advance();
                    Some(Token::Operator(Operator::LessEqual))
                } else if self.peek() == '>' {
                    self.advance();
                    Some(Token::Operator(Operator::NotEqual))
                } else {
                    Some(Token::Operator(Operator::LessThan))
                }
            },
            '>' => {
                if self.peek() == '=' {
                    self.advance();
                    Some(Token::Operator(Operator::GreaterEqual))
                } else {
                    Some(Token::Operator(Operator::GreaterThan))
                }
            },
            '=' => Some(Token::Operator(Operator::Equal)),
            _ => {
                if self.peek() == '=' {
                    self.advance();
                    if self.peek() == ':' {
                        self.advance();
                        Some(Token::Operator(Operator::Swap))
                    } else {
                        Some(Token::Operator(Operator::Assignment))
                    }
                } else {
                    self.rollback();
                    None
                }
            },
        }
    }

    fn integer(&mut self) -> (r: Option<Result<Token, LexError>>)
        requires
            old(self).wf(),
            old(self).start == old(self).current,
        ensures
            final(self).wf(),
            final(self).chars@ == old(self).chars@,
            ({
                let s = old(self).chars@;
                let i = old(self).current as int;
                if i < s.len() && (is_digit(s[i])) {
                    r matches Some(x) && scanned(x, final(self).current as int) == scan_integer(s, i)
                } else {
                    r is None && *final(self) == *old(self)
                }
            }),
    {
        let c = self.peek();
        if !('0' <= c && c <= '9') {
            return None;
        }
        self.advance_while(Run::Digit);
        let ghost s = self.chars@;
        proof {
            lemma_run_end_bounds(s, self.start as int, Run::Digit);
        }
        let mut value: i64 = 0;
        let mut k: usize = self.start;
        while k < self.current
            invariant
                self.wf(),
                self.chars@ == s,
                s == old(self).chars@,
                self.start == old(self).current,
                self.start <= k <= self.current,
                self.current == run_end(s, self.start as int, Run::Digit),
                forall|m: int| self.start <= m < self.current ==> is_digit(#[trigger] s[m]),
                value == digits_value(s.subrange(self.start as int, k as int)),
                value >= 0,
            decreases self.current - k,
        {
            let d = (self.chars[k] as u32 - '0' as u32) as i64;
            assert(s.subrange(self.start as int, k + 1).drop_last()
                =~= s.subrange(self.start as int, k as int));
            if value > (i64::MAX - d) / 10 {
                proof {
                    assert(value * 10 + d > i64::MAX) by (nonlinear_arith)
                        requires
                            value > (i64::MAX - d) / 10,
                            0 <= d <= 9,
                    ;
                    lemma_digits_grow(s, self.start as int, k + 1, self.current as int);
                }
                return Some(Err(LexError::IntegerOverflow));
            }
            proof {
                assert(value * 10 + d <= i64::MAX) by (nonlinear_arith)
                    requires
                        value <= (i64::MAX - d) / 10,
                        0 <= d <= 9,
                ;
            }
            value = value * 10 + d;
            k = k + 1;
        }
        Some(Ok(Token::Integer(value)))
    }

    fn char(&mut self) -> (r: Option<Result<Token, LexError>>)
        requires
            old(self).wf(),
            old(self).start == old(self).current,
        ensures
            final(self).wf(),
            final(self).chars@ == old(self).chars@,
            ({
                let s = old(self).chars@;
                let i = old(self).current as int;
                if i < s.len() && (s[i] == '\'') {
                    r matches Some(x) && scanned(x, final(self).current as int) == scan_char(s, i)
                } else {
                    r is None && *final(self) == *old(self)
                }
            }),
    {
        if self.peek() != '\'' {
            return None;
        }
        self.advance();
        if self.is_at_end() {
            return Some(Err(LexError::UnterminatedChar));
        }
        let c = self.advance();
        if self.is_at_end() || self.peek() != '\'' {
            return Some(Err(LexError::UnterminatedChar));
        }
        self.advance();
        Some(Ok(Token::Char(c)))
    }

    fn string(&mut self) -> (r: Option<Result<Token, LexError>>)
        requires
            old(self).wf(),
            old(self).start == old(self).current,
        ensures
            final(self).wf(),
            final(self).chars@ == old(self).chars@,
            ({
                let s = old(self).chars@;
                let i = old(self).current as int;
                if i < s.len() && (s[i] == '"') {
                    r matches Some(x) && scanned(x, final(self).current as int) == scan_string(s, i)
                } else {
                    r is None && *final(self) == *old(self)
                }
            }),
    {
        if self.peek() != '"' {
            return None;
        }
        self.advance();
        self.advance_while(Run::StringBody);
        if self.is_at_end() || self.peek() != '"' {
            return Some(Err(LexError::UnterminatedString));
        }
        self.advance();
        let text = self.selection();
        Some(Ok(Token::String(text)))
    }

    fn comment(&mut self) -> (r: Option<Result<Token, LexError>>)
        requires
            old(self).wf(),
            old(self).start == old(self).current,
        ensures
            final(self).wf(),
            final(self).chars@ == old(self).chars@,
            ({
                let s = old(self).chars@;
                let i = old(self).current as int;
                if i < s.len() && (s[i] == '#' || s[i] == '{') {
                    r matches Some(x) && scanned(x, final(self).current as int) == scan_comment(s, i)
                } else {
                    r is None && *final(self) == *old(self)
                }
            }),
    {
        match self.peek() {
            '#' => {
                self.advance();
                self.advance_while(Run::LineComment);
                Some(Ok(Token::Comment))
            },
            '{' => {
                self.advance();
                self.advance_while(Run::BlockComment);
                if self.is_at_end() {
                    return Some(Err(LexError::UnterminatedComment));
                }
                self.advance();
                Some(Ok(Token::Comment))
            },
            _ => None,
        }
    }

    fn whitespace(&mut self) -> (r: Option<Token>)
        requires
            old(self).wf(),
            old(self).start == old(self).current,
        ensures
            final(self).wf(),
            final(self).chars@ == old(self).chars@,
            ({
                let s = old(self).chars@;
                let i = old(self).current as int;
                if i < s.len() && (is_blank(s[i])) {
                    r == Some(Token::Whitespace) && final(self).current == run_end(s, i, Run::Blank)
                } else {
                    r is None && *final(self) == *old(self)
                }
            }),
    {
        if !in_run_exec(Run::Blank, self.peek()) {
            return None;
        }
        self.advance_while(Run::Blank);
        Some(Token::Whitespace)
    }

    fn special_token(&mut self) -> (r: Option<Token>)
        requires
            old(self).wf(),
            old(self).start == old(self).current,
        ensures
            final(self).wf(),
            final(self).chars@ == old(self).chars@,
            ({
                let s = old(self).chars@;
                let i = old(self).current as int;
                if i < s.len() && (special_at(s[i])) {
                    r matches Some(t) && scanned(Ok(t), final(self).current as int) == scan_special(s, i)
                } else {
                    r is None && *final(self) == *old(self)
                }
            }),
    {
        match self.peek() {
            '\n' => {
                self.advance();
                Some(Token::Newline)
            },
            ';' => {
                self.advance();
                Some(Token::Semicolon)
            },
            ',' => {
                self.advance();
                Some(Token::Comma)
            },
            '(' => {
                self.advance();
                Some(Token::LeftParen)
            },
            ')' => {
                self.advance();
                Some(Token::RightParen)
            },
            '.' => {
                self.advance();
                if self.peek() == '.' {
                    self.advance();
                    Some(Token::Dots)
                } else {
                    Some(Token::Dot)
                }
            },
            ':' => {
                self.advance();
                Some(Token::Colon)
            },
            _ => None,
        }
    }

    /// Consumes the longest run of `r` characters at the cursor.
    fn advance_while(&mut self, r: Run)
        requires
            old(self).wf(),
        ensures
            final(self).wf(),
            final(self).chars@ == old(self).chars@,
            final(self).start == old(self).start,
            final(self).current == run_end(old(self).chars@, old(self).current as int, r),
    {
        let ghost s = self.chars@;
        let ghost k0 = self.current as int;
        while !self.is_at_end() && in_run_exec(r, self.peek())
            invariant
                self.wf(),
                self.chars@ == s,
                self.start == old(self).start,
                k0 <= self.current,
                run_end(s, k0, r) == run_end(s, self.current as int, r),
            decreases s.len() - self.current,
        {
            self.advance();
        }
    }
}

} // verus!
