use logic_tracer::circuits::combinational::{Combinational, HalfAdder};
use logic_tracer::circuits::sequential::FlipFlop;
use logic_tracer::circuits::Circuit;
use logic_tracer::lexer::{Lexer, TokenRecognizer};
use logic_tracer::parser::Parser;
use logic_tracer::registry::{Number, Operator, PrimitiveToken, Variable};
use logic_tracer::tokens::alphabet::{BracketKind, Token};
use logic_tracer::tokens::display::KIND_WIDTH;
use logic_tracer::tokens::numbers::{
    find_dot, str_to_n, str_to_r, str_to_z, Digit, Integer, Natural, NumberTrait, Real,
    DEFAULT_BASE,
};
use logic_tracer::tokens::operators::{
    LogicOp, MathOp, OperatorKind, OperatorNegator, OperatorTrait, RelOp,
};
use logic_tracer::tokens::token::LogicToken;
use logic_tracer::tokens::variables::{Constant, MathConst, PhysicConst, VariableTrait};
use logic_tracer::tree::{Node, AST};

fn natural(digits: &[u8]) -> Natural {
    Natural { digits: digits.iter().map(|d| Digit(*d)).collect() }
}

fn described(kind: &str, pad: usize, glyph: char) -> String {
    format!("{}\x1b[1m\x1b[3m{}\x1b[0m\x1b[0m :: {}", " ".repeat(pad), kind, glyph)
}

#[test]
fn digits_are_read_in_a_base() {
    assert_eq!(Digit::from_char('7', 10), Some(Digit(7)));
    assert_eq!(Digit::from_char('0', 2), Some(Digit(0)));
    assert_eq!(Digit::from_char('2', 2), None);
    assert_eq!(Digit::from_char('a', 16), Some(Digit(10)));
    assert_eq!(Digit::from_char('F', 16), Some(Digit(15)));
    assert_eq!(Digit::from_char('g', 16), None);
    assert_eq!(Digit::from_char('z', 36), Some(Digit(35)));
    assert_eq!(Digit::from_char('Z', 36), Some(Digit(35)));
    assert_eq!(Digit::from_char('8', 8), None);
    assert_eq!(Digit::from_char('-', 10), None);
    assert_eq!(Digit::from_char('\u{663}', 10), None);
    assert_eq!(Digit::from_char('5', DEFAULT_BASE).map(|d| d.value()), Some(5));
    for base in 2..=36u8 {
        for c in ['0', '1', '9', 'a', 'A', 'k', 'z', 'Z', '!', ' '] {
            assert_eq!(
                Digit::from_char(c, base).map(|d| d.value() as u32),
                c.to_digit(base as u32)
            );
        }
    }
}

#[test]
fn natural_numbers_are_read() {
    assert_eq!(str_to_n("123"), Some(natural(&[1, 2, 3])));
    assert_eq!(str_to_n("0"), Some(natural(&[0])));
    assert_eq!(str_to_n("007"), Some(natural(&[0, 0, 7])));
    assert_eq!(str_to_n(""), None);
    assert_eq!(str_to_n("12a"), None);
    assert_eq!(str_to_n("-12"), None);
    assert_eq!(str_to_n("1.2"), None);
    assert_eq!(Natural::from_chars(&['4', '2']), Some(natural(&[4, 2])));
}

#[test]
fn integers_are_read() {
    assert_eq!(str_to_z("12"), Some(Integer { sign: false, value: natural(&[1, 2]) }));
    assert_eq!(str_to_z("-12"), Some(Integer { sign: true, value: natural(&[1, 2]) }));
    assert_eq!(str_to_z("-"), None);
    assert_eq!(str_to_z(""), None);
    assert_eq!(str_to_z("--1"), None);
    assert_eq!(str_to_z("+1"), None);
    assert_eq!(str_to_z("1-"), None);
}

#[test]
fn real_numbers_are_read() {
    assert_eq!(
        str_to_r("3.14"),
        Some(Real {
            integer_part: Integer { sign: false, value: natural(&[3]) },
            fractional_part: natural(&[1, 4]),
        })
    );
    assert_eq!(
        str_to_r("-25.1"),
        Some(Real {
            integer_part: Integer { sign: true, value: natural(&[2, 5]) },
            fractional_part: natural(&[1]),
        })
    );
    assert_eq!(str_to_r("3."), None);
    assert_eq!(str_to_r(".5"), None);
    assert_eq!(str_to_r("3"), None);
    assert_eq!(str_to_r("1.2.3"), None);
    assert_eq!(str_to_r(""), None);
    assert_eq!(str_to_r("."), None);
    assert_eq!(str_to_r("a.1"), None);
    assert_eq!(find_dot(&['1', '2', '.', '3', '.']), 2);
    assert_eq!(find_dot(&['1', '2']), 2);
    assert_eq!(find_dot(&[]), 0);
}

#[test]
fn operator_tables_are_read_both_ways() {
    assert_eq!(LogicOp::from_chars(&['&']), Some(LogicOp::And));
    assert_eq!(LogicOp::from_chars(&['*']), Some(LogicOp::And));
    assert_eq!(LogicOp::from_chars(&['^']), Some(LogicOp::And));
    assert_eq!(LogicOp::from_chars(&['\u{2227}']), Some(LogicOp::And));
    assert_eq!(LogicOp::from_chars(&['|']), Some(LogicOp::Or));
    assert_eq!(LogicOp::from_chars(&['|', '|']), Some(LogicOp::Or));
    assert_eq!(LogicOp::from_chars(&['+']), Some(LogicOp::Or));
    assert_eq!(LogicOp::from_chars(&['\u{2228}']), Some(LogicOp::Or));
    assert_eq!(LogicOp::from_chars(&['!']), Some(LogicOp::Not));
    assert_eq!(LogicOp::from_chars(&['~']), Some(LogicOp::Not));
    assert_eq!(LogicOp::from_chars(&['\u{ac}']), Some(LogicOp::Not));
    assert_eq!(LogicOp::from_chars(&['\u{2295}']), Some(LogicOp::XOr));
    assert_eq!(LogicOp::from_chars(&['\u{22bb}']), Some(LogicOp::XOr));
    assert_eq!(LogicOp::from_chars(&['\u{2a01}']), Some(LogicOp::XOr));
    assert_eq!(LogicOp::from_chars(&['\u{2299}']), Some(LogicOp::XNOr));
    assert_eq!(LogicOp::from_chars(&['\u{22bd}']), Some(LogicOp::XNOr));
    assert_eq!(LogicOp::from_chars(&['\u{2191}']), Some(LogicOp::NAnd));
    assert_eq!(LogicOp::from_chars(&['\u{2193}']), Some(LogicOp::NOr));
    assert_eq!(LogicOp::from_chars(&['\u{2192}']), Some(LogicOp::Implies));
    assert_eq!(LogicOp::from_chars(&['\u{2194}']), Some(LogicOp::IFf));
    assert_eq!(LogicOp::from_chars(&['-']), None);
    assert_eq!(LogicOp::from_chars(&['&', '&']), None);
    assert_eq!(LogicOp::from_chars(&[]), None);
    assert_eq!(MathOp::from_chars(&['+']), Some(MathOp::Add));
    assert_eq!(MathOp::from_chars(&['-']), Some(MathOp::Subtract));
    assert_eq!(MathOp::from_chars(&['*']), Some(MathOp::Multiply));
    assert_eq!(MathOp::from_chars(&['/']), Some(MathOp::Divide));
    assert_eq!(MathOp::from_chars(&['%']), Some(MathOp::Modulo));
    assert_eq!(MathOp::from_chars(&['^']), Some(MathOp::Power));
    assert_eq!(MathOp::from_chars(&['\u{221a}']), Some(MathOp::Root));
    assert_eq!(MathOp::from_chars(&['!']), Some(MathOp::Factorial));
    assert_eq!(MathOp::from_chars(&['&']), None);
    assert_eq!(MathOp::from_chars(&['+', '+']), None);
    assert_eq!(RelOp::from_chars(&['=']), Some(RelOp::Equal));
    assert_eq!(RelOp::from_chars(&['=', '=']), Some(RelOp::Equal));
    assert_eq!(RelOp::from_chars(&['!', '=']), Some(RelOp::NotEqual));
    assert_eq!(RelOp::from_chars(&['\u{2260}']), Some(RelOp::NotEqual));
    assert_eq!(RelOp::from_chars(&['<']), Some(RelOp::LessThan));
    assert_eq!(RelOp::from_chars(&['<', '=']), Some(RelOp::LessThanOrEqual));
    assert_eq!(RelOp::from_chars(&['\u{2264}']), Some(RelOp::LessThanOrEqual));
    assert_eq!(RelOp::from_chars(&['>']), Some(RelOp::GreaterThan));
    assert_eq!(RelOp::from_chars(&['>', '=']), Some(RelOp::GreaterThanOrEqual));
    assert_eq!(RelOp::from_chars(&['\u{2265}']), Some(RelOp::GreaterThanOrEqual));
    assert_eq!(RelOp::from_chars(&['=', '<']), None);
    assert_eq!(RelOp::from_chars(&['!']), None);
    for op in [
        LogicOp::And, LogicOp::Or, LogicOp::Not, LogicOp::XOr, LogicOp::XNOr, LogicOp::NAnd,
        LogicOp::NOr, LogicOp::Implies, LogicOp::IFf,
    ] {
        assert_eq!(LogicOp::from_chars(&[op.to_char()]), Some(op));
    }
    for op in [
        MathOp::Add, MathOp::Subtract, MathOp::Multiply, MathOp::Divide, MathOp::Modulo,
        MathOp::Power, MathOp::Root, MathOp::Factorial,
    ] {
        assert_eq!(MathOp::from_chars(&[op.to_char()]), Some(op));
    }
    for op in [
        RelOp::Equal, RelOp::NotEqual, RelOp::LessThan, RelOp::LessThanOrEqual,
        RelOp::GreaterThan, RelOp::GreaterThanOrEqual,
    ] {
        assert_eq!(RelOp::from_chars(&[op.to_char()]), Some(op));
    }
    assert_eq!(LogicOp::negator(), LogicOp::Not);
    assert_eq!(MathOp::negator(), MathOp::Subtract);
    assert_eq!(RelOp::negator(), RelOp::NotEqual);
}

#[test]
fn constant_tables_are_read() {
    assert_eq!(MathConst::from_chars(&['\u{3c4}']), Some(MathConst::Tau));
    assert_eq!(MathConst::from_chars(&['\\', 't', 'a', 'u']), Some(MathConst::Tau));
    assert_eq!(MathConst::from_chars(&['\u{3c0}']), Some(MathConst::Pi));
    assert_eq!(MathConst::from_chars(&['\\', 'p', 'i']), Some(MathConst::Pi));
    assert_eq!(MathConst::from_chars(&['\u{3c6}']), Some(MathConst::Phi));
    assert_eq!(MathConst::from_chars(&['\u{3b3}']), Some(MathConst::EulerGamma));
    assert_eq!(MathConst::from_chars(&['\u{221e}']), Some(MathConst::Infinity));
    assert_eq!(MathConst::from_chars(&['e']), Some(MathConst::E));
    assert_eq!(MathConst::from_chars(&['\\', 't', 'a']), None);
    assert_eq!(MathConst::from_chars(&['p', 'i']), None);
    assert_eq!(PhysicConst::from_chars(&['\\', 'c']), Some(PhysicConst::SpeedOfLight));
    assert_eq!(PhysicConst::from_chars(&['\\', 'h']), Some(PhysicConst::PlanckConstant));
    assert_eq!(PhysicConst::from_chars(&['\\', 'G']), Some(PhysicConst::Gravitational));
    assert_eq!(PhysicConst::from_chars(&['\\', 'm', '\u{3bc}']), Some(PhysicConst::MuonMass));
    assert_eq!(PhysicConst::from_chars(&['\\', 'm', 'e']), Some(PhysicConst::ElectronMass));
    assert_eq!(PhysicConst::from_chars(&['\\', 'm', 'p']), Some(PhysicConst::ProtonMass));
    assert_eq!(PhysicConst::from_chars(&['\\', 'g']), None);
    assert_eq!(PhysicConst::from_chars(&['c']), None);
    assert_eq!(PhysicConst::from_chars(&['\\']), None);
    assert_eq!(MathConst::Tau.to_char(), '\u{3c4}');
    assert_eq!(PhysicConst::MuonMass.to_char(), '\u{3bc}');
    assert_eq!(Constant::Physic(PhysicConst::SpeedOfLight).to_char(), 'c');
}

#[test]
fn family_recognizers_accept_their_families() {
    assert_eq!(
        Operator.recognize_token(&['+']),
        Some(Token::Operator(OperatorKind::Math(MathOp::Add)))
    );
    assert_eq!(
        Operator.recognize_token(&['&']),
        Some(Token::Operator(OperatorKind::Logic(LogicOp::And)))
    );
    assert_eq!(
        Operator.recognize_token(&['>', '=']),
        Some(Token::Operator(OperatorKind::Relational(RelOp::GreaterThanOrEqual)))
    );
    assert_eq!(Operator.recognize_token(&['A']), None);
    assert_eq!(Variable.recognize_token(&['e']), Some(Token::Variable('e')));
    assert_eq!(Variable.recognize_token(&['\u{3c0}']), Some(Token::Variable('\u{3c0}')));
    assert_eq!(
        Variable.recognize_token(&['\u{221e}']),
        Some(Token::Constant(Constant::Math(MathConst::Infinity)))
    );
    assert_eq!(
        Variable.recognize_token(&['\\', 'h']),
        Some(Token::Constant(Constant::Physic(PhysicConst::PlanckConstant)))
    );
    assert_eq!(Variable.recognize_token(&['1']), None);
    assert_eq!(Number.recognize_token(&['1']), Some(Token::Number('1')));
    assert_eq!(Number.recognize_token(&['1', '2']), None);
    assert_eq!(Number.recognize_token(&['a']), None);
    assert_eq!(PrimitiveToken.recognize_token(&['1']), Some(Token::Number('1')));
    assert_eq!(
        PrimitiveToken.recognize_token(&['!']),
        Some(Token::Operator(OperatorKind::Logic(LogicOp::Not)))
    );
    assert_eq!(
        PrimitiveToken.recognize_token(&['!', '=']),
        Some(Token::Operator(OperatorKind::Relational(RelOp::NotEqual)))
    );
    assert_eq!(PrimitiveToken.recognize_token(&['a']), None);
    assert_eq!(
        Lexer::new("1 != 2", PrimitiveToken).get_token_table(),
        vec![
            Token::Number('1'),
            Token::Operator(OperatorKind::Relational(RelOp::NotEqual)),
            Token::Number('2'),
        ]
    );
}

#[test]
fn tokens_name_their_kind() {
    assert_eq!(Token::Variable('a').t_type(), "Alphabet");
    assert_eq!(Token::Variable('A').t_type(), "AlphaUpper");
    assert_eq!(Token::Variable('\u{3b1}').t_type(), "GreekAlpha");
    assert_eq!(Token::Variable('\u{3a9}').t_type(), "GreekUpperAlpha");
    assert_eq!(Token::Variable('?').t_type(), "Variable");
    assert_eq!(Token::Number('1').t_type(), "Natural");
    assert_eq!(Token::Underscore.t_type(), "Underscore");
    assert_eq!(Token::Dot.t_type(), "Dot");
    assert_eq!(Token::Operator(OperatorKind::Logic(LogicOp::And)).t_type(), "LogicOp");
    assert_eq!(Token::Operator(OperatorKind::Math(MathOp::Add)).t_type(), "MathOp");
    assert_eq!(Token::Operator(OperatorKind::Relational(RelOp::Equal)).t_type(), "RelOp");
    assert_eq!(Token::OpenBracket(BracketKind::Square).t_type(), "OpenBracket");
    assert_eq!(Token::CloseBracket(BracketKind::Square).t_type(), "CloseBracket");
    assert_eq!(Token::Constant(Constant::Math(MathConst::Pi)).t_type(), "MathConst");
    assert_eq!(Token::Constant(Constant::Physic(PhysicConst::ProtonMass)).t_type(), "PhysicConst");
    assert_eq!(Token::Invalid('@').t_type(), "Invalid");
}

#[test]
fn tokens_are_described_in_one_line() {
    assert_eq!(KIND_WIDTH, 28);
    assert_eq!(Token::Variable('A').to_string(), described("AlphaUpper", 2, 'A'));
    assert_eq!(
        Token::Variable('A').to_string(),
        "  \x1b[1m\x1b[3mAlphaUpper\x1b[0m\x1b[0m :: A"
    );
    assert_eq!(
        Token::Operator(OperatorKind::Math(MathOp::Subtract)).to_string(),
        described("MathOp", 6, '-')
    );
    assert_eq!(Token::Dot.to_string(), described("Dot", 9, '.'));
    assert_eq!(Token::CloseBracket(BracketKind::Curly).to_string(), described("CloseBracket", 0, '}'));
    assert_eq!(Token::Variable('\u{3a9}').to_string(), described("GreekUpperAlpha", 0, '\u{3a9}'));
    assert_eq!(
        Token::Operator(OperatorKind::Math(MathOp::Subtract)).to_string(),
        format!("{:>28} :: {}", "\x1b[1m\x1b[3mMathOp\x1b[0m\x1b[0m", '-')
    );
    let mut text = String::from("> ");
    Token::Number('7').describe_into(&mut text);
    assert_eq!(text, format!("> {}", described("Natural", 5, '7')));
}

#[test]
fn tree_is_rendered_line_by_line() {
    let minus = Token::Operator(OperatorKind::Math(MathOp::Subtract));
    let times = Token::Operator(OperatorKind::Math(MathOp::Multiply));
    let times_node = Node::branch(times, vec![Node::leaf(Token::Number('2')), Node::leaf(Token::Number('4'))]);
    let mut root = Node::new(minus);
    assert!(root.is_leaf());
    root.add_child(times_node);
    root.add_child(Node::leaf(Token::Variable('x')));
    assert!(!root.is_leaf());
    assert_eq!(root.children.len(), 2);
    let expected = format!(
        "Node: {}\n\tChild 1: Node: {}\n\t\tChild 1: L1: {}\n\t\tChild 2: L2: {}\n\tChild 2: L3: {}\n",
        minus.to_string(),
        times.to_string(),
        Token::Number('2').to_string(),
        Token::Number('4').to_string(),
        Token::Variable('x').to_string(),
    );
    assert_eq!(root.render(), expected);
    let tree = AST::with_root(root);
    assert!(!tree.is_empty());
    assert_eq!(tree.render(), expected);
    assert_ne!(tree, AST::new());
    let copy = tree.root.as_ref().unwrap().duplicate();
    assert_eq!(Some(&copy), tree.root.as_ref());
    assert_eq!(copy.render(), expected);
}

#[test]
fn leaf_and_empty_tree_are_rendered() {
    let leaf = Node::leaf(Token::Variable('A'));
    assert_eq!(leaf.token, Token::Variable('A'));
    assert_eq!(leaf.render(), format!("L1: {}\n", Token::Variable('A').to_string()));
    let mut tree = AST::new();
    assert!(tree.is_empty());
    assert_eq!(tree.render(), "Empty AST");
    tree.set_root(leaf);
    assert!(!tree.is_empty());
    assert_eq!(tree.render(), format!("L1: {}\n", Token::Variable('A').to_string()));
}

#[test]
fn many_children_are_numbered_in_decimal() {
    let mut root = Node::new(Token::Operator(OperatorKind::Logic(LogicOp::Or)));
    for _ in 0..12 {
        root.add_child(Node::leaf(Token::Number('1')));
    }
    let text = root.render();
    let lines: Vec<&str> = text.lines().collect();
    assert_eq!(lines.len(), 13);
    assert_eq!(lines[10], format!("\tChild 10: L10: {}", Token::Number('1').to_string()));
    assert_eq!(lines[12], format!("\tChild 12: L12: {}", Token::Number('1').to_string()));
}

#[test]
fn half_adder_adds_two_bits() {
    for a in [false, true] {
        for b in [false, true] {
            let adder = HalfAdder::new_with_input(a, b);
            assert_eq!(adder.get_input(), vec![a, b]);
            assert_eq!(adder.get_output(), a ^ b);
            assert_eq!(adder.get_carry(), a & b);
        }
    }
    let mut adder = HalfAdder::new_with_input(true, true);
    adder.set_input(vec![true, false, true]);
    assert_eq!(adder.get_input(), vec![true, false]);
    assert_eq!(adder.get_output(), false);
    assert_eq!(adder.get_carry(), true);
    adder.calculate();
    assert_eq!(adder.get_output(), true);
    assert_eq!(adder.get_carry(), false);
}

#[test]
fn circuit_hands_on_to_the_circuit_it_wraps() {
    let mut circuit = Circuit::new(HalfAdder::new_with_input(true, false));
    assert!(matches!(circuit, Circuit::Combinational(_)));
    assert_eq!(circuit.get_input(), vec![true, false]);
    assert_eq!(circuit.get_output(), true);
    circuit.set_input(vec![true, true]);
    assert_eq!(circuit.get_input(), vec![true, true]);
    assert_eq!(circuit.get_output(), true);
    circuit.calculate();
    assert_eq!(circuit.get_output(), false);
    assert_eq!(circuit.get_input(), vec![true, true]);
}

#[test]
fn flip_flop_starts_reset() {
    let flip_flop = FlipFlop::new();
    assert_eq!(
        (flip_flop.get_d(), flip_flop.get_clk(), flip_flop.get_q(), flip_flop.get_not_q()),
        (false, false, false, true)
    );
    let flip_flop = FlipFlop::default();
    assert_eq!(
        (flip_flop.get_d(), flip_flop.get_clk(), flip_flop.get_q(), flip_flop.get_not_q()),
        (false, false, false, true)
    );
    let flip_flop = FlipFlop::new_with_input(true, false);
    assert_eq!(
        (flip_flop.get_d(), flip_flop.get_clk(), flip_flop.get_q(), flip_flop.get_not_q()),
        (true, false, false, true)
    );
    let flip_flop = FlipFlop::new_with_input(false, true);
    assert_eq!(
        (flip_flop.get_d(), flip_flop.get_clk(), flip_flop.get_q(), flip_flop.get_not_q()),
        (false, true, false, true)
    );
}

#[test]
fn parser_accepts_every_input() {
    let mut parser = Parser::new("A & B");
    assert_eq!(parser.parse(), Ok(()));
    assert_eq!(parser.parse(), Ok(()));
    assert_eq!(Parser::new("").parse(), Ok(()));
    assert_eq!(LogicToken::default(), LogicToken::Reading);
}
