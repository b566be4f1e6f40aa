use winzig::ast::{Assignment, Expression, Factor, Program, Statement, Term};
use winzig::lexer::Lexer;
use winzig::parser::{Expected, Parser, SyntaxError};
use winzig::tree::StringTree;

fn parse(text: &str) -> Result<Program, SyntaxError> {
    let mut lexer = Lexer::new(text.to_string());
    let tokens = lexer.lex().unwrap();
    let mut parser = Parser::new(tokens, false);
    parser.parse()
}

fn outline(text: &str) -> String {
    parse(text).unwrap().get_string_tree(0).join("\n")
}

/// The outline of a program named `name` whose consts, types, dclns,
/// subprogs and block render as `parts`, in that order.
fn program_outline(name: &str, parts: &[&str]) -> String {
    let mut lines = vec![
        "program(7)".to_string(),
        ". <identifier>(1)".to_string(),
        format!(". . {}(0)", name),
    ];
    for part in parts {
        lines.push(part.to_string());
    }
    lines.push(". <identifier>(1)".to_string());
    lines.push(format!(". . {}(0)", name));
    lines.join("\n")
}

const EMPTY_DECLS: [&str; 4] = [". consts(0)", ". types(0)", ". dclns(0)", ". subprogs(0)"];

fn with_block(name: &str, block: &[&str]) -> String {
    let mut parts: Vec<&str> = EMPTY_DECLS.to_vec();
    parts.extend_from_slice(block);
    program_outline(name, &parts)
}

#[test]
fn test_winzig_01() {
    let text = "program p:\n  # nothing to do\n  begin end p.\n";
    assert_eq!(outline(text), with_block("p", &[". block(0)"]));
}

#[test]
fn test_winzig_02() {
    let text = "program c: const a = 1, b = 'x'; begin output(a) end c.";
    let expected = program_outline(
        "c",
        &[
            ". consts(2)", ". . const(2)", ". . . <identifier>(1)", ". . . . a(0)",
            ". . . <integer>(1)", ". . . . 1(0)", ". . const(2)", ". . . <identifier>(1)",
            ". . . . b(0)", ". . . <char>(1)", ". . . . x(0)", ". types(0)", ". dclns(0)",
            ". subprogs(0)", ". block(1)", ". . output(1)", ". . . integer(1)",
            ". . . . <identifier>(1)", ". . . . . a(0)",
        ],
    );
    assert_eq!(outline(text), expected);
}

#[test]
fn test_winzig_03() {
    let text = "program t: type color = (red, green); begin end t.";
    let expected = program_outline(
        "t",
        &[
            ". consts(0)", ". types(1)", ". . type(2)", ". . . <identifier>(1)", ". . . . color(0)",
            ". . . lit(2)", ". . . . <identifier>(1)", ". . . . . red(0)",
            ". . . . <identifier>(1)", ". . . . . green(0)", ". dclns(0)", ". subprogs(0)",
            ". block(0)",
        ],
    );
    assert_eq!(outline(text), expected);
}

#[test]
fn test_winzig_04() {
    let text = "program v: var x, y : integer; z : boolean; begin x := 1 end v.";
    let expected = program_outline(
        "v",
        &[
            ". consts(0)", ". types(0)", ". dclns(2)", ". . var(3)", ". . . <identifier>(1)",
            ". . . . x(0)", ". . . <identifier>(1)", ". . . . y(0)", ". . . <identifier>(1)",
            ". . . . integer(0)", ". . var(2)", ". . . <identifier>(1)", ". . . . z(0)",
            ". . . <identifier>(1)", ". . . . boolean(0)", ". subprogs(0)", ". block(1)",
            ". . assign(2)", ". . . <identifier>(1)", ". . . . x(0)", ". . . <integer>(1)",
            ". . . . 1(0)",
        ],
    );
    assert_eq!(outline(text), expected);
}

#[test]
fn test_winzig_05() {
    let text = "program f:\nfunction sq(n: integer): integer;\nbegin return n * n end sq;\nbegin output(sq(3)) end f.";
    let expected = program_outline(
        "f",
        &[
            ". consts(0)", ". types(0)", ". dclns(0)", ". subprogs(1)", ". . fcn(8)",
            ". . . <identifier>(1)", ". . . . sq(0)", ". . . params(1)", ". . . . var(2)",
            ". . . . . <identifier>(1)", ". . . . . . n(0)", ". . . . . <identifier>(1)",
            ". . . . . . integer(0)", ". . . <identifier>(1)", ". . . . integer(0)",
            ". . . consts(0)", ". . . types(0)", ". . . dclns(0)", ". . . block(1)",
            ". . . . return(1)", ". . . . . *(2)", ". . . . . . <identifier>(1)",
            ". . . . . . . n(0)", ". . . . . . <identifier>(1)", ". . . . . . . n(0)",
            ". . . <identifier>(1)", ". . . . sq(0)", ". block(1)", ". . output(1)",
            ". . . integer(1)", ". . . . call(2)", ". . . . . <identifier>(1)",
            ". . . . . . sq(0)", ". . . . . <integer>(1)", ". . . . . . 3(0)",
        ],
    );
    assert_eq!(outline(text), expected);
}

#[test]
fn test_winzig_06() {
    let text = "program i: begin if a < 1 then b := 2 else b := 3 end i.";
    let expected = with_block(
        "i",
        &[
            ". block(1)", ". . if(3)", ". . . <(2)", ". . . . <identifier>(1)", ". . . . . a(0)",
            ". . . . <integer>(1)", ". . . . . 1(0)", ". . . assign(2)", ". . . . <identifier>(1)",
            ". . . . . b(0)", ". . . . <integer>(1)", ". . . . . 2(0)", ". . . assign(2)",
            ". . . . <identifier>(1)", ". . . . . b(0)", ". . . . <integer>(1)", ". . . . . 3(0)",
        ],
    );
    assert_eq!(outline(text), expected);
}

#[test]
fn test_winzig_07() {
    let text = "program w: begin while x > 0 do x := x - 1 end w.";
    let expected = with_block(
        "w",
        &[
            ". block(1)", ". . while(2)", ". . . >(2)", ". . . . <identifier>(1)", ". . . . . x(0)",
            ". . . . <integer>(1)", ". . . . . 0(0)", ". . . assign(2)", ". . . . <identifier>(1)",
            ". . . . . x(0)", ". . . . -(2)", ". . . . . <identifier>(1)", ". . . . . . x(0)",
            ". . . . . <integer>(1)", ". . . . . . 1(0)",
        ],
    );
    assert_eq!(outline(text), expected);
}

#[test]
fn test_winzig_08() {
    let text = "program r: begin repeat x := x + 1; output(x) until x = 5 end r.";
    let expected = with_block(
        "r",
        &[
            ". block(1)", ". . repeat(3)", ". . . assign(2)", ". . . . <identifier>(1)",
            ". . . . . x(0)", ". . . . +(2)", ". . . . . <identifier>(1)", ". . . . . . x(0)",
            ". . . . . <integer>(1)", ". . . . . . 1(0)", ". . . output(1)", ". . . . integer(1)",
            ". . . . . <identifier>(1)", ". . . . . . x(0)", ". . . =(2)", ". . . . <identifier>(1)",
            ". . . . . x(0)", ". . . . <integer>(1)", ". . . . . 5(0)",
        ],
    );
    assert_eq!(outline(text), expected);
}

#[test]
fn test_winzig_09() {
    let text = "program f: begin for (i := 1; i <= 3; i := i + 1) output(i); for (;;) exit end f.";
    let expected = with_block(
        "f",
        &[
            ". block(2)", ". . for(4)", ". . . assign(2)", ". . . . <identifier>(1)", ". . . . . i(0)",
            ". . . . <integer>(1)", ". . . . . 1(0)", ". . . <=(2)", ". . . . <identifier>(1)",
            ". . . . . i(0)", ". . . . <integer>(1)", ". . . . . 3(0)", ". . . assign(2)",
            ". . . . <identifier>(1)", ". . . . . i(0)", ". . . . +(2)", ". . . . . <identifier>(1)",
            ". . . . . . i(0)", ". . . . . <integer>(1)", ". . . . . . 1(0)", ". . . output(1)",
            ". . . . integer(1)", ". . . . . <identifier>(1)", ". . . . . . i(0)", ". . for(4)",
            ". . . <null>(0)", ". . . true(0)", ". . . <null>(0)", ". . . exit(0)",
        ],
    );
    assert_eq!(outline(text), expected);
}

#[test]
fn test_winzig_10() {
    let text = "program l: begin loop read(x); if x = 0 then exit pool end l.";
    let expected = with_block(
        "l",
        &[
            ". block(1)", ". . loop(2)", ". . . read(1)", ". . . . <identifier>(1)", ". . . . . x(0)",
            ". . . if(2)", ". . . . =(2)", ". . . . . <identifier>(1)", ". . . . . . x(0)",
            ". . . . . <integer>(1)", ". . . . . . 0(0)", ". . . . exit(0)",
        ],
    );
    assert_eq!(outline(text), expected);
}

#[test]
fn test_winzig_11() {
    let text = "program c: begin case x of 1, 3..5: y := 1; 'a': y := 2; otherwise y := 3 end end c.";
    let expected = with_block(
        "c",
        &[
            ". block(1)", ". . case(4)", ". . . <identifier>(1)", ". . . . x(0)",
            ". . . case_clause(3)", ". . . . <integer>(1)", ". . . . . 1(0)", ". . . . ..(2)",
            ". . . . . <integer>(1)", ". . . . . . 3(0)", ". . . . . <integer>(1)", ". . . . . . 5(0)",
            ". . . . assign(2)", ". . . . . <identifier>(1)", ". . . . . . y(0)",
            ". . . . . <integer>(1)", ". . . . . . 1(0)", ". . . case_clause(2)", ". . . . <char>(1)",
            ". . . . . a(0)", ". . . . assign(2)", ". . . . . <identifier>(1)", ". . . . . . y(0)",
            ". . . . . <integer>(1)", ". . . . . . 2(0)", ". . . otherwise(1)", ". . . . assign(2)",
            ". . . . . <identifier>(1)", ". . . . . . y(0)", ". . . . . <integer>(1)",
            ". . . . . . 3(0)",
        ],
    );
    assert_eq!(outline(text), expected);
}

#[test]
fn test_winzig_12() {
    let text = "program s: begin read(a, b); a :=: b end s.";
    let expected = with_block(
        "s",
        &[
            ". block(2)", ". . read(2)", ". . . <identifier>(1)", ". . . . a(0)", ". . . <identifier>(1)",
            ". . . . b(0)", ". . swap(2)", ". . . <identifier>(1)", ". . . . a(0)",
            ". . . <identifier>(1)", ". . . . b(0)",
        ],
    );
    assert_eq!(outline(text), expected);
}

#[test]
fn test_winzig_13() {
    let text = "program e: begin x := 1 + 2 * 3 - 4 end e.";
    let expected = with_block(
        "e",
        &[
            ". block(1)", ". . assign(2)", ". . . <identifier>(1)", ". . . . x(0)", ". . . -(2)",
            ". . . . +(2)", ". . . . . <integer>(1)", ". . . . . . 1(0)", ". . . . . *(2)",
            ". . . . . . <integer>(1)", ". . . . . . . 2(0)", ". . . . . . <integer>(1)",
            ". . . . . . . 3(0)", ". . . . <integer>(1)", ". . . . . 4(0)",
        ],
    );
    assert_eq!(outline(text), expected);
}

#[test]
fn test_winzig_14() {
    let text = "program b: begin x := succ(a) + pred(b) + chr(c) + ord(d); y := not eof and -z end b.";
    let expected = with_block(
        "b",
        &[
            ". block(2)", ". . assign(2)", ". . . <identifier>(1)", ". . . . x(0)", ". . . +(2)",
            ". . . . +(2)", ". . . . . +(2)", ". . . . . . succ(1)", ". . . . . . . <identifier>(1)",
            ". . . . . . . . a(0)", ". . . . . . pred(1)", ". . . . . . . <identifier>(1)",
            ". . . . . . . . b(0)", ". . . . . chr(1)", ". . . . . . <identifier>(1)",
            ". . . . . . . c(0)", ". . . . ord(1)", ". . . . . <identifier>(1)", ". . . . . . d(0)",
            ". . assign(2)", ". . . <identifier>(1)", ". . . . y(0)", ". . . and(2)", ". . . . not(1)",
            ". . . . . eof(0)", ". . . . -(1)", ". . . . . <identifier>(1)", ". . . . . . z(0)",
        ],
    );
    assert_eq!(outline(text), expected);
}

#[test]
fn test_winzig_15() {
    let text = "program o: begin output(\"hi\", (a), a mod 2 <> 0) end o.";
    let expected = with_block(
        "o",
        &[
            ". block(1)", ". . output(3)", ". . . <string>(1)", ". . . . \"hi\"(0)", ". . . integer(1)",
            ". . . . <identifier>(1)", ". . . . . a(0)", ". . . integer(1)", ". . . . <>(2)",
            ". . . . . mod(2)", ". . . . . . <identifier>(1)", ". . . . . . . a(0)",
            ". . . . . . <integer>(1)", ". . . . . . . 2(0)", ". . . . . <integer>(1)",
            ". . . . . . 0(0)",
        ],
    );
    assert_eq!(outline(text), expected);
}

fn first_assigned(program: &Program) -> &Expression {
    match &program.body.statements[0] {
        Statement::Assign { assignment: Assignment::Assignment { exp, .. } } => exp,
        _ => panic!("not an assignment"),
    }
}

#[test]
fn multiplication_binds_tighter_than_addition() {
    let program = parse("program p: begin x := 1 + 2 * 3 end p.").unwrap();
    match first_assigned(&program) {
        Expression::Term(term) => match term.as_ref() {
            Term::Add { right, .. } => assert!(matches!(right.as_ref(), Factor::Multiply { .. })),
            _ => panic!("root term is not an addition"),
        },
        _ => panic!("unexpected comparison"),
    }
}

#[test]
fn comparison_takes_whole_terms() {
    let program = parse("program p: begin x := a <= b + c end p.").unwrap();
    match first_assigned(&program) {
        Expression::Le { left, right } => {
            assert!(matches!(left.as_ref(), Term::Factor(_)));
            assert!(matches!(right.as_ref(), Term::Add { .. }));
        },
        _ => panic!("not a single <= comparison"),
    }
}

#[test]
fn comparisons_do_not_chain() {
    let err = parse("program p: begin x := a < b < c end p.").err().unwrap();
    assert_eq!(err.expected, Expected::Keyword(winzig::lexer::Keyword::End));
}

#[test]
fn empty_program_has_empty_parts() {
    let program = parse("program P : begin end P.").unwrap();
    assert!(program.consts.consts.is_empty());
    assert!(program.types.types.is_empty());
    assert!(program.dclns.vars.is_empty());
    assert!(program.sub_progs.sub_progs.is_empty());
    assert!(program.body.statements.is_empty());
    assert_eq!(program.name.name, "P");
    assert_eq!(program.end_name.name, "P");
}

#[test]
fn syntax_errors_name_what_was_expected() {
    assert_eq!(
        parse("program p begin end p.").err(),
        Some(SyntaxError { position: 2, expected: Expected::Colon })
    );
    assert_eq!(
        parse("program p: begin end p").err(),
        Some(SyntaxError { position: 6, expected: Expected::Dot })
    );
    assert_eq!(
        parse("program p: begin end p. x").err(),
        Some(SyntaxError { position: 7, expected: Expected::EndOfInput })
    );
    assert_eq!(
        parse("begin end").err(),
        Some(SyntaxError { position: 0, expected: Expected::Keyword(winzig::lexer::Keyword::Program) })
    );
    assert_eq!(
        parse("program p: begin x := end p.").err(),
        Some(SyntaxError { position: 6, expected: Expected::Primary })
    );
    assert_eq!(
        parse("program p: const a = 1 begin end p.").err(),
        Some(SyntaxError { position: 7, expected: Expected::CommaOrSemicolon })
    );
}

#[test]
fn parser_drops_insignificant_tokens() {
    let mut lexer = Lexer::new("program p: # c\n {b} begin end p.".to_string());
    let tokens = lexer.lex().unwrap();
    let mut parser = Parser::new(tokens, true);
    assert_eq!(parser.tokens().len(), 7);
    parser.parse().unwrap();
    assert_eq!(parser.position(), 7);
}

#[test]
fn counts_and_numbers_render_in_decimal() {
    let text = "program d: begin output(1, 2, 3, 4, 5, 6, 7, 8, 9, 1234567890123) end d.";
    let lines = parse(text).unwrap().get_string_tree(0);
    assert_eq!(lines[8], ". . output(10)");
    assert_eq!(lines[lines.len() - 3], ". . . . . 1234567890123(0)");
}
