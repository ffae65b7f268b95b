use logic_tracer::ast::Ast;
use logic_tracer::brackets::{check_pair_brackets, check_token_brackets};
use logic_tracer::error::AppError;
use logic_tracer::grammar::{group_tokens_into_terms, Term, TokenOrTerm};
use logic_tracer::lexer::Lexer;
use logic_tracer::proposition::{
    parse_proposition, tokenize, validate_tokens, LogicProposition, MathProposition,
    PropositionTrait,
};
use logic_tracer::registry::Profile;
use logic_tracer::structure::{validate_proposition_structure, StartRule};
use logic_tracer::tokens::alphabet::{BracketKind, Token};
use logic_tracer::tokens::operators::{LogicOp, MathOp, OperatorKind};

fn tokens_of(src: &str, profile: Profile) -> Vec<Token> {
    Lexer::new(src, profile).get_token_table()
}

fn term(src: &str, profile: Profile) -> TokenOrTerm {
    TokenOrTerm::Term(Term::from(tokens_of(src, profile)).unwrap())
}

fn single(src: &str, profile: Profile) -> TokenOrTerm {
    let tokens = tokens_of(src, profile);
    assert_eq!(tokens.len(), 1);
    TokenOrTerm::Single(tokens[0])
}

fn group(src: &str, profile: Profile) -> Result<Vec<TokenOrTerm>, AppError> {
    group_tokens_into_terms(&tokens_of(src, profile))
}

#[test]
fn brackets_pair_up() {
    assert_eq!(check_pair_brackets("A & (B & C)"), Ok(()));
    assert_eq!(check_pair_brackets("A & (B & C) & D"), Ok(()));
    assert_eq!(check_pair_brackets("(a + b) * (c - d)"), Ok(()));
    assert_eq!(check_pair_brackets("[{()}]"), Ok(()));
    assert_eq!(check_pair_brackets("<html></htm>"), Ok(()));
    assert_eq!(check_pair_brackets(" "), Ok(()));
    assert_eq!(check_pair_brackets(""), Ok(()));
}

#[test]
fn mismatched_bracket_is_reported_with_both_positions() {
    assert_eq!(
        check_pair_brackets("(a + b) * (c - d]"),
        Err(AppError::MismatchedBracketType(10, 16))
    );
    assert_eq!(check_pair_brackets("(]"), Err(AppError::MismatchedBracketType(0, 1)));
    assert_eq!(check_pair_brackets("{[(])}"), Err(AppError::MismatchedBracketType(2, 3)));
}

#[test]
fn unmatched_closing_bracket_is_reported() {
    assert_eq!(check_pair_brackets("{[()]}>"), Err(AppError::UnmatchedClosingBracket(6)));
    assert_eq!(check_pair_brackets("x + y] * [z - w]"), Err(AppError::UnmatchedClosingBracket(5)));
    assert_eq!(check_pair_brackets("x + y] * [z - w)"), Err(AppError::UnmatchedClosingBracket(5)));
    assert_eq!(check_pair_brackets("1, 2, 3, 4}"), Err(AppError::UnmatchedClosingBracket(10)));
    assert_eq!(check_pair_brackets("1, 2, 3, 4]"), Err(AppError::UnmatchedClosingBracket(10)));
    assert_eq!(check_pair_brackets("html></html>"), Err(AppError::UnmatchedClosingBracket(4)));
    assert_eq!(check_pair_brackets("html></htm>"), Err(AppError::UnmatchedClosingBracket(4)));
}

#[test]
fn unclosed_opening_bracket_is_reported() {
    assert_eq!(check_pair_brackets("("), Err(AppError::UnclosedOpeningBracket(0)));
    assert_eq!(check_pair_brackets("["), Err(AppError::UnclosedOpeningBracket(0)));
    assert_eq!(check_pair_brackets("{"), Err(AppError::UnclosedOpeningBracket(0)));
    assert_eq!(check_pair_brackets("<"), Err(AppError::UnclosedOpeningBracket(0)));
    assert_eq!(check_pair_brackets("(()"), Err(AppError::UnclosedOpeningBracket(0)));
    assert_eq!(check_pair_brackets("a(b[c"), Err(AppError::UnclosedOpeningBracket(3)));
}

#[test]
fn first_bracket_error_wins() {
    assert_eq!(check_pair_brackets(")("), Err(AppError::UnmatchedClosingBracket(0)));
    assert_eq!(check_pair_brackets("(]["), Err(AppError::MismatchedBracketType(0, 1)));
}

#[test]
fn token_brackets_know_no_chevrons() {
    let tokens = tokens_of("(A<B)>[C]", Profile::Complete);
    assert_eq!(check_token_brackets(&tokens), Ok(()));
    assert_eq!(Term::check_pair_brackets(&tokens), Ok(()));
    let tokens = tokens_of("{A&(B|C]}", Profile::Logic);
    assert_eq!(check_token_brackets(&tokens), Err(AppError::MismatchedBracketType(3, 7)));
    let tokens = tokens_of("A)", Profile::Logic);
    assert_eq!(check_token_brackets(&tokens), Err(AppError::UnmatchedClosingBracket(1)));
    let tokens = tokens_of("((A)", Profile::Logic);
    assert_eq!(check_token_brackets(&tokens), Err(AppError::UnclosedOpeningBracket(0)));
    assert_eq!(check_token_brackets(&[]), Ok(()));
}

#[test]
fn ast_checks_its_source() {
    let mut ast = Ast::new("A & (B & C)");
    assert_eq!(ast.src(), &vec!['A', '&', '(', 'B', '&', 'C', ')']);
    assert_eq!(ast.check_pair_brackets(), Ok(()));
    assert_eq!(
        ast.tokens(),
        &vec![
            Token::Variable('A'),
            Token::Operator(OperatorKind::Logic(LogicOp::And)),
            Token::OpenBracket(BracketKind::Parenthesis),
            Token::Variable('B'),
            Token::Operator(OperatorKind::Logic(LogicOp::And)),
            Token::Variable('C'),
            Token::CloseBracket(BracketKind::Parenthesis),
        ]
    );
    assert!(ast.terms().is_empty());
    assert_eq!(ast.parse(), Ok(()));
    assert_eq!(
        ast.terms(),
        &vec![
            term("A", Profile::Logic),
            single("&", Profile::Logic),
            single("(", Profile::Logic),
            term("B", Profile::Logic),
            single("&", Profile::Logic),
            term("C", Profile::Logic),
            single(")", Profile::Logic),
        ]
    );
    let mut ast = Ast::new("(a + b) * (c - d]");
    assert_eq!(ast.check_pair_brackets(), Err(AppError::MismatchedBracketType(6, 10)));
    assert_eq!(ast.parse(), Err(AppError::InvalidCharacter(8)));
    let mut ast = Ast::new("(a + b) * (c + d]");
    assert_eq!(ast.parse(), Err(AppError::MismatchedBracketType(6, 10)));
    let mut ast = Ast::new("{[()]}>");
    assert_eq!(ast.check_pair_brackets(), Err(AppError::UnmatchedClosingBracket(6)));
    assert_eq!(ast.parse(), Err(AppError::InvalidCharacter(6)));
    assert_eq!(
        Ast::get_token_table(&vec!['<', '-', '1']),
        vec![Token::Invalid('<'), Token::Invalid('-'), Token::Number('1')]
    );
}

#[test]
fn ast_parse_runs_every_pass() {
    assert_eq!(Ast::new("A_").parse(), Err(AppError::MissingSubscriptDigits(1)));
    assert_eq!(Ast::new("A&&B").parse(), Err(AppError::InvalidOperatorAdjacency(2)));
    assert_eq!(Ast::new("(&)").parse(), Err(AppError::EmptyOperandSet));
    assert_eq!(Ast::new("A&").parse(), Err(AppError::InvalidSequenceEnd));
    assert_eq!(Ast::new("(A)B").parse(), Err(AppError::InvalidTokenAfterClosingBracket(2)));
    assert_eq!(Ast::new("A@B").parse(), Err(AppError::InvalidCharacter(1)));
    assert_eq!(Ast::new("@)").parse(), Err(AppError::InvalidCharacter(0)));
    assert_eq!(Ast::new("A)").parse(), Err(AppError::UnmatchedClosingBracket(1)));
    assert_eq!(Ast::new("&A").parse(), Err(AppError::InvalidSequenceStart));
    assert_eq!(Ast::new("").parse(), Err(AppError::EmptyOperandSet));
    assert_eq!(Ast::new("A&!B").parse(), Ok(()));
    for src in ["()", "[!]", "{()}&|", "!", "&&", "([{}])", "(*)+~"] {
        assert_eq!(Ast::new(src).parse(), Err(AppError::EmptyOperandSet));
    }
}

#[test]
fn ast_parse_keeps_the_grouped_sequence() {
    let mut ast = Ast::new("A_12");
    assert_eq!(ast.parse(), Ok(()));
    assert_eq!(ast.terms().len(), 1);
    match &ast.terms()[0] {
        TokenOrTerm::Term(term) => assert_eq!(
            term.tokens(),
            &vec![Token::Variable('A'), Token::Underscore, Token::Number('1'), Token::Number('2')]
        ),
        TokenOrTerm::Single(_) => panic!("a term was expected"),
    }
    assert_eq!(ast.parse(), Ok(()));
    assert_eq!(ast.terms().len(), 1);
    let mut ast = Ast::new("A &");
    assert_eq!(ast.parse(), Err(AppError::InvalidSequenceEnd));
    assert!(ast.terms().is_empty());
    assert_eq!(ast.src(), &vec!['A', '&']);
}

#[test]
fn subscript_is_grouped_into_the_term() {
    let grouped = group("A_12", Profile::Logic).unwrap();
    assert_eq!(grouped.len(), 1);
    match &grouped[0] {
        TokenOrTerm::Term(term) => {
            assert_eq!(
                term.tokens(),
                &vec![
                    Token::Variable('A'),
                    Token::Underscore,
                    Token::Number('1'),
                    Token::Number('2'),
                ]
            );
            assert_eq!(term.len(), 4);
        }
        TokenOrTerm::Single(_) => panic!("a term was expected"),
    }
}

#[test]
fn underscore_without_digit_is_an_error() {
    assert_eq!(group("A_", Profile::Logic), Err(AppError::MissingSubscriptDigits(1)));
    assert_eq!(group("A_B", Profile::Logic), Err(AppError::MissingSubscriptDigits(1)));
    assert_eq!(group("B&2A_+C", Profile::Logic), Err(AppError::MissingSubscriptDigits(4)));
    assert_eq!(
        LogicProposition::new("A_").err(),
        Some(AppError::MissingSubscriptDigits(1))
    );
}

#[test]
fn negator_and_coefficient_belong_to_the_term() {
    assert_eq!(group("!A", Profile::Logic), Ok(vec![term("!A", Profile::Logic)]));
    assert_eq!(group("2A", Profile::Logic), Ok(vec![term("2A", Profile::Logic)]));
    assert_eq!(group("-2.5x_3", Profile::Math), Ok(vec![term("-2.5x_3", Profile::Math)]));
    assert_eq!(
        group("3x+!9b", Profile::Logic),
        Ok(vec![term("3x", Profile::Logic), single("+", Profile::Logic), term("!9b", Profile::Logic)])
    );
    assert_eq!(
        group("A-B", Profile::Math),
        Ok(vec![term("A", Profile::Math), term("-B", Profile::Math)])
    );
    assert_eq!(
        group("AB", Profile::Logic),
        Ok(vec![term("A", Profile::Logic), term("B", Profile::Logic)])
    );
}

#[test]
fn tokens_that_start_no_term_pass_through() {
    assert_eq!(
        group("25.1", Profile::Math),
        Ok(vec![
            TokenOrTerm::Single(Token::Number('2')),
            TokenOrTerm::Single(Token::Number('5')),
            TokenOrTerm::Single(Token::Dot),
            TokenOrTerm::Single(Token::Number('1')),
        ])
    );
    assert_eq!(
        group("!(A)", Profile::Logic),
        Ok(vec![
            single("!", Profile::Logic),
            single("(", Profile::Logic),
            term("A", Profile::Logic),
            single(")", Profile::Logic),
        ])
    );
    assert_eq!(
        group("-5*x", Profile::Math),
        Ok(vec![
            single("-", Profile::Math),
            single("5", Profile::Math),
            single("*", Profile::Math),
            term("x", Profile::Math),
        ])
    );
    assert_eq!(
        group("3.x", Profile::Math),
        Ok(vec![single("3", Profile::Math), single(".", Profile::Math), term("x", Profile::Math)])
    );
    assert_eq!(
        group("3.5.2A", Profile::Math),
        Ok(vec![
            single("3", Profile::Math),
            single(".", Profile::Math),
            single("5", Profile::Math),
            single(".", Profile::Math),
            term("2A", Profile::Math),
        ])
    );
}

#[test]
fn constants_are_the_heart_of_a_term() {
    assert_eq!(
        group("2\u{3c0}", Profile::Complete),
        Ok(vec![term("2\u{3c0}", Profile::Complete)])
    );
    assert_eq!(group("\\c_0", Profile::Physic), Ok(vec![term("\\c_0", Profile::Physic)]));
}

#[test]
fn proposition_may_not_trail_off() {
    assert_eq!(group("A&", Profile::Logic), Err(AppError::InvalidSequenceEnd));
    assert_eq!(group("A!", Profile::Logic), Err(AppError::InvalidSequenceEnd));
    assert_eq!(group("(", Profile::Logic), Err(AppError::InvalidSequenceEnd));
    assert_eq!(group("2.", Profile::Math), Err(AppError::InvalidSequenceEnd));
    assert_eq!(group("", Profile::Logic), Err(AppError::InvalidSequenceEnd));
    assert!(group("A)", Profile::Logic).is_ok());
    assert!(group("A+2", Profile::Math).is_ok());
}

#[test]
fn term_is_made_of_well_shaped_tokens_only() {
    assert!(Term::from(tokens_of("A", Profile::Logic)).is_ok());
    assert!(Term::from(tokens_of("!2.5A_10", Profile::Logic)).is_ok());
    assert_eq!(Term::from(vec![]).err(), Some(AppError::InvalidSequenceStart));
    assert_eq!(
        Term::from(tokens_of("25", Profile::Logic)).err(),
        Some(AppError::InvalidSequenceStart)
    );
    assert_eq!(
        Term::from(tokens_of("&A", Profile::Logic)).err(),
        Some(AppError::InvalidSequenceStart)
    );
    assert_eq!(
        Term::from(tokens_of("A_", Profile::Logic)).err(),
        Some(AppError::MissingSubscriptDigits(1))
    );
    assert_eq!(
        Term::from(tokens_of("2A_", Profile::Logic)).err(),
        Some(AppError::MissingSubscriptDigits(2))
    );
    assert_eq!(
        Term::from(tokens_of("AB", Profile::Logic)).err(),
        Some(AppError::InvalidSequenceEnd)
    );
    assert_eq!(
        Term::from(tokens_of("A_1B", Profile::Logic)).err(),
        Some(AppError::InvalidSequenceEnd)
    );
}

#[test]
fn operand_is_needed() {
    assert_eq!(
        Term::check_var_and_num(&tokens_of("()&|!", Profile::Logic)),
        Err(AppError::EmptyOperandSet)
    );
    assert_eq!(Term::check_var_and_num(&[]), Err(AppError::EmptyOperandSet));
    assert_eq!(
        Term::check_var_and_num(&tokens_of("_.", Profile::Logic)),
        Err(AppError::EmptyOperandSet)
    );
    assert_eq!(Term::check_var_and_num(&tokens_of("(A)", Profile::Logic)), Ok(()));
    assert_eq!(Term::check_var_and_num(&tokens_of("(1)", Profile::Logic)), Ok(()));
    assert_eq!(Term::check_var_and_num(&tokens_of("\\c", Profile::Physic)), Ok(()));
}

#[test]
fn brackets_and_operators_alone_are_rejected() {
    for src in ["()", "(&)", "[!]", "{()}&|", "!", "&&", "([{}])"] {
        assert_eq!(LogicProposition::new(src).err(), Some(AppError::EmptyOperandSet));
        assert_eq!(
            validate_tokens(&tokens_of(src, Profile::Logic), StartRule::Bracket).err(),
            Some(AppError::EmptyOperandSet)
        );
    }
    for src in ["()", "(+)", "-", "*/"] {
        assert_eq!(MathProposition::new(src).err(), Some(AppError::EmptyOperandSet));
    }
    assert_eq!(LogicProposition::new("").err(), Some(AppError::EmptyOperandSet));
}

#[test]
fn bracket_error_comes_before_the_operand_check() {
    assert_eq!(LogicProposition::new(")").err(), Some(AppError::UnmatchedClosingBracket(0)));
    assert_eq!(LogicProposition::new("(&").err(), Some(AppError::UnclosedOpeningBracket(0)));
}

#[test]
fn two_operators_in_a_row_are_rejected() {
    assert_eq!(
        LogicProposition::new("A&&B").err(),
        Some(AppError::InvalidOperatorAdjacency(2))
    );
    assert_eq!(
        LogicProposition::new("A & | B").err(),
        Some(AppError::InvalidOperatorAdjacency(2))
    );
    assert_eq!(
        MathProposition::new("A*/B").err(),
        Some(AppError::InvalidOperatorAdjacency(2))
    );
}

#[test]
fn negator_may_follow_an_operator() {
    assert!(LogicProposition::new("A&!B").is_ok());
    assert!(LogicProposition::new("A & !(B | C)").is_ok());
    assert!(LogicProposition::new("A & !!B").is_ok());
    assert!(MathProposition::new("A*-B").is_ok());
    assert!(MathProposition::new("A*-(B)").is_ok());
}

#[test]
fn accepted_proposition_keeps_tokens_and_terms() {
    let proposition = LogicProposition::new("A & !B").unwrap();
    assert_eq!(proposition.tokens(), &tokens_of("A&!B", Profile::Logic));
    assert_eq!(
        proposition.terms(),
        &vec![term("A", Profile::Logic), single("&", Profile::Logic), term("!B", Profile::Logic)]
    );
    let proposition = MathProposition::new("2x_1 * (y + 3)").unwrap();
    assert_eq!(proposition.tokens(), &tokens_of("2x_1*(y+3)", Profile::Math));
    assert_eq!(
        proposition.terms(),
        &vec![
            term("2x_1", Profile::Math),
            single("*", Profile::Math),
            single("(", Profile::Math),
            term("y", Profile::Math),
            single("+", Profile::Math),
            single("3", Profile::Math),
            single(")", Profile::Math),
        ]
    );
}

#[test]
fn invalid_character_is_reported_with_its_position() {
    assert_eq!(LogicProposition::new("A @ B").err(), Some(AppError::InvalidCharacter(1)));
    assert_eq!(LogicProposition::new("A - B").err(), Some(AppError::InvalidCharacter(1)));
    assert_eq!(MathProposition::new("A || & B").err(), Some(AppError::InvalidCharacter(1)));
    assert_eq!(
        tokenize(&Profile::Physic, &['\\', 'c', '\\', 'x']).err(),
        Some(AppError::InvalidCharacter(2))
    );
    assert_eq!(
        tokenize(&Profile::Logic, &['A', '|', '|', 'B']),
        Ok(tokens_of("A||B", Profile::Logic))
    );
    assert_eq!(tokenize(&Profile::Logic, &[]), Ok(vec![]));
}

#[test]
fn start_rule_decides_what_may_stand_first() {
    let operand_first = group("A&B", Profile::Logic).unwrap();
    let bracket_first = group("(A&B)", Profile::Logic).unwrap();
    let digit_first = group("1+A", Profile::Math).unwrap();
    let operator_first = group("!(A)", Profile::Logic).unwrap();
    assert_eq!(
        validate_proposition_structure(&operand_first, StartRule::Bracket),
        Err(AppError::InvalidSequenceStart)
    );
    assert_eq!(validate_proposition_structure(&operand_first, StartRule::BracketOrOperand), Ok(()));
    assert_eq!(validate_proposition_structure(&bracket_first, StartRule::Bracket), Ok(()));
    assert_eq!(validate_proposition_structure(&bracket_first, StartRule::BracketOrOperand), Ok(()));
    assert_eq!(
        validate_proposition_structure(&digit_first, StartRule::Bracket),
        Err(AppError::InvalidSequenceStart)
    );
    assert_eq!(validate_proposition_structure(&digit_first, StartRule::BracketOrOperand), Ok(()));
    assert_eq!(
        validate_proposition_structure(&operator_first, StartRule::BracketOrOperand),
        Err(AppError::InvalidSequenceStart)
    );
    assert_eq!(validate_proposition_structure(&[], StartRule::Bracket), Ok(()));
    assert_eq!(LogicProposition::new("&A").err(), Some(AppError::InvalidSequenceStart));
    assert_eq!(
        parse_proposition(&Profile::Logic, "A&B", StartRule::Bracket).err(),
        Some(AppError::InvalidSequenceStart)
    );
    assert!(parse_proposition(&Profile::Logic, "(A&B)", StartRule::Bracket).is_ok());
}

#[test]
fn closing_bracket_needs_bracket_or_operator_behind_it() {
    assert_eq!(
        LogicProposition::new("(A)B").err(),
        Some(AppError::InvalidTokenAfterClosingBracket(2))
    );
    assert_eq!(
        MathProposition::new("(A)2").err(),
        Some(AppError::InvalidTokenAfterClosingBracket(2))
    );
    assert_eq!(
        MathProposition::new("(A)2x").err(),
        Some(AppError::InvalidTokenAfterClosingBracket(2))
    );
    assert_eq!(
        LogicProposition::new("(A)!B").err(),
        Some(AppError::InvalidTokenAfterClosingBracket(2))
    );
    assert_eq!(
        MathProposition::new("(A+B)-C").err(),
        Some(AppError::InvalidTokenAfterClosingBracket(4))
    );
    assert!(LogicProposition::new("(A)&B").is_ok());
    assert!(LogicProposition::new("(A)&!B").is_ok());
    assert!(LogicProposition::new("((A))").is_ok());
    assert!(LogicProposition::new("(A)(B)").is_ok());
    assert!(LogicProposition::new("(A)!(B)").is_ok());
    assert!(MathProposition::new("(A+B)-(C)").is_ok());
    assert!(MathProposition::new("(A+B)*C").is_ok());
    assert!(LogicProposition::new("{[AB + C_2!D_3 + E_4D_5D_2]}").is_ok());
}

#[test]
fn math_operators_are_not_logic() {
    assert!(MathProposition::new("2.2a_3*3b_3").is_ok());
    assert!(MathProposition::new("1+A").is_ok());
    assert_eq!(MathProposition::new("A & B").err(), Some(AppError::InvalidCharacter(1)));
    assert!(LogicProposition::new("A & B | C ! D + E").is_ok());
    assert_eq!(MathProposition::new("A & B | C ! D + E").err(), Some(AppError::InvalidCharacter(1)));
    assert_eq!(
        group("A&B|C", Profile::Logic),
        Ok(vec![
            term("A", Profile::Logic),
            single("&", Profile::Logic),
            term("B", Profile::Logic),
            single("|", Profile::Logic),
            term("C", Profile::Logic),
        ])
    );
    assert_eq!(
        tokens_of("-", Profile::Math),
        vec![Token::Operator(OperatorKind::Math(MathOp::Subtract))]
    );
}
