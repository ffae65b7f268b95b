use logic_tracer::proto::base_change::{
    checked_src_int_b10, chars_fit_base, digit_value, int_b10_dst, split_number, src_int_b10,
    str_to_num_from_base,
};
use logic_tracer::proto::logic_notation::{
    apply, checked_evaluate_postfix, evaluate_postfix, infix_to_postfix, shunting_yard,
    test_infix_to_postfix, Notation,
};
use logic_tracer::proto::patterns::{
    validity_label, variable_status, variables_in, VARIABLE_PATTERN,
};

#[test]
fn digits_have_their_values() {
    assert_eq!(digit_value('0'), Some(0));
    assert_eq!(digit_value('9'), Some(9));
    assert_eq!(digit_value('A'), Some(10));
    assert_eq!(digit_value('Z'), Some(35));
    assert_eq!(digit_value('a'), Some(36));
    assert_eq!(digit_value('z'), Some(61));
    assert_eq!(digit_value('-'), None);
    assert_eq!(digit_value('.'), None);
    assert_eq!(digit_value(' '), None);
}

#[test]
fn whole_numbers_are_read_in_any_base() {
    assert_eq!(src_int_b10("1010", 2), 10);
    assert_eq!(src_int_b10("2A", 16), 42);
    assert_eq!(src_int_b10("FF", 16), 255);
    assert_eq!(src_int_b10("777", 8), 511);
    assert_eq!(src_int_b10("Z", 36), 35);
    assert_eq!(src_int_b10("z", 62), 61);
    assert_eq!(src_int_b10("10", 62), 62);
    assert_eq!(src_int_b10("", 10), 0);
    assert_eq!(src_int_b10("0000000000000000000000000000000000000001", 10), 1);
    assert_eq!(src_int_b10("4294967295", 10), u32::MAX);
    assert_eq!(src_int_b10("95", 0), 5);
}

#[test]
fn numbers_that_cannot_be_read_are_told_apart() {
    assert_eq!(checked_src_int_b10("1010", 2), Some(10));
    assert_eq!(checked_src_int_b10("4294967295", 10), Some(u32::MAX));
    assert_eq!(checked_src_int_b10("4294967296", 10), None);
    assert_eq!(checked_src_int_b10("99999999999999999999", 10), None);
    assert_eq!(checked_src_int_b10("12-3", 10), None);
    assert_eq!(checked_src_int_b10("1.5", 10), None);
    assert_eq!(checked_src_int_b10("", 10), Some(0));
}

#[test]
fn whole_numbers_are_written_in_any_base() {
    assert_eq!(int_b10_dst(42, 16), "2A");
    assert_eq!(int_b10_dst(10, 2), "1010");
    assert_eq!(int_b10_dst(255, 16), "FF");
    assert_eq!(int_b10_dst(511, 8), "777");
    assert_eq!(int_b10_dst(35, 36), "Z");
    assert_eq!(int_b10_dst(61, 62), "t");
    assert_eq!(int_b10_dst(0, 2), "");
    assert_eq!(int_b10_dst(7, 10), "7");
    assert_eq!(int_b10_dst(u32::MAX, 10), "4294967295");
    assert_eq!(int_b10_dst(u32::MAX, 2), "11111111111111111111111111111111");
    assert_eq!(int_b10_dst(200, 201), "\u{ff}");
}

#[test]
fn whole_part_changes_its_base() {
    assert_eq!(str_to_num_from_base("1010", 2, 16), Ok("A".to_string()));
    assert_eq!(str_to_num_from_base("2A", 16, 10), Ok("42".to_string()));
    assert_eq!(str_to_num_from_base("255", 10, 2), Ok("11111111".to_string()));
    assert_eq!(str_to_num_from_base("1010.1", 2, 10), Ok("10".to_string()));
    assert_eq!(str_to_num_from_base("7,5", 10, 2), Ok("111".to_string()));
    assert_eq!(str_to_num_from_base("0", 10, 2), Ok("".to_string()));
    assert_eq!(str_to_num_from_base("", 10, 2), Ok("".to_string()));
}

#[test]
fn invalid_base_is_an_error() {
    let message = "Invalid base (must be between 2 & 62)".to_string();
    assert_eq!(str_to_num_from_base("12", 1, 10), Err(message.clone()));
    assert_eq!(str_to_num_from_base("12", 10, 1), Err(message.clone()));
    assert_eq!(str_to_num_from_base("12", 63, 10), Err(message.clone()));
    assert_eq!(str_to_num_from_base("12", 10, 63), Err(message.clone()));
    assert_eq!(str_to_num_from_base("xyz-", 0, 255), Err(message));
}

#[test]
fn digit_too_large_for_the_base_is_an_error() {
    let message = "Invalid character for the given base".to_string();
    assert_eq!(str_to_num_from_base("19", 8, 10), Err(message.clone()));
    assert_eq!(str_to_num_from_base("12", 2, 10), Err(message.clone()));
    assert_eq!(str_to_num_from_base("1.A", 10, 2), Err(message));
    assert!(chars_fit_base(&['1', '.', '7'], 8));
    assert!(!chars_fit_base(&['1', '.', '8'], 8));
    assert!(chars_fit_base(&[], 2));
}

#[test]
fn number_is_split_at_its_first_separator() {
    assert_eq!(split_number("12.5"), (vec!['1', '2'], vec!['5']));
    assert_eq!(split_number("12,5.6"), (vec!['1', '2'], vec!['5', '.', '6']));
    assert_eq!(split_number("125"), (vec!['1', '2', '5'], vec![]));
    assert_eq!(split_number(".5"), (vec![], vec!['5']));
    assert_eq!(split_number("5."), (vec!['5'], vec![]));
    assert_eq!(split_number(""), (vec![], vec![]));
}

#[test]
fn infix_becomes_postfix() {
    assert_eq!(infix_to_postfix("1+2*3"), "123*+");
    assert_eq!(infix_to_postfix("(1+2)*3"), "12+3*");
    assert_eq!(infix_to_postfix("1+2-3"), "12+3-");
    assert_eq!(infix_to_postfix("2 * (3 + 4) / 5"), "234+*5/");
    assert_eq!(infix_to_postfix("1*2+3"), "12*3+");
    assert_eq!(infix_to_postfix("7"), "7");
    assert_eq!(infix_to_postfix(""), "");
    assert_eq!(infix_to_postfix("a+b"), "+");
    assert_eq!(infix_to_postfix("(1+2"), "12+(");
    assert_eq!(infix_to_postfix("1+2)"), "12+");
    assert_eq!(infix_to_postfix("1+2)*3"), "12+3*");
}

#[test]
fn logic_infix_becomes_postfix() {
    assert_eq!(test_infix_to_postfix("A&(B|C)|D"), "ABC|&D|");
    assert_eq!(test_infix_to_postfix("A=B&C"), "AB=C&");
    assert_eq!(test_infix_to_postfix("(A&B)&(C|D)"), "AB&CD|&");
    assert_eq!(test_infix_to_postfix("A & B"), "AB&");
    assert_eq!(test_infix_to_postfix("1+2"), "");
    assert_eq!(shunting_yard(Notation::Logic, "a|b=c"), "abc=|");
    assert_eq!(shunting_yard(Notation::Arithmetic, "1/2"), "12/");
    assert_eq!(Notation::Arithmetic.binding('*'), 2);
    assert_eq!(Notation::Arithmetic.binding('-'), 1);
    assert_eq!(Notation::Arithmetic.binding('&'), 0);
    assert_eq!(Notation::Logic.binding('='), 2);
    assert_eq!(Notation::Logic.binding('|'), 1);
    assert!(Notation::Logic.operand('q'));
    assert!(!Notation::Logic.operand('1'));
    assert!(Notation::Arithmetic.operand('1'));
}

#[test]
fn postfix_is_evaluated() {
    assert_eq!(evaluate_postfix("123*+"), 7);
    assert_eq!(evaluate_postfix("12+3*"), 9);
    assert_eq!(evaluate_postfix("93/"), 3);
    assert_eq!(evaluate_postfix("34-"), -1);
    assert_eq!(evaluate_postfix("72/"), 3);
    assert_eq!(evaluate_postfix("34-2/"), 0);
    assert_eq!(evaluate_postfix("07-2/"), -3);
    assert_eq!(evaluate_postfix("34-5*"), -5);
    assert_eq!(evaluate_postfix("1 2 +"), 3);
    assert_eq!(evaluate_postfix("12"), 2);
    assert_eq!(evaluate_postfix("99*9*9*9*9*9*9*9*"), 387420489);
    assert_eq!(evaluate_postfix(&infix_to_postfix("2*(3+4)/5")), 2);
}

#[test]
fn postfix_without_value_is_told_apart() {
    assert_eq!(checked_evaluate_postfix("123*+"), Some(7));
    assert_eq!(checked_evaluate_postfix("10/"), None);
    assert_eq!(checked_evaluate_postfix(""), None);
    assert_eq!(checked_evaluate_postfix("+"), None);
    assert_eq!(checked_evaluate_postfix("1+"), None);
    assert_eq!(checked_evaluate_postfix("1+2"), Some(2));
    assert_eq!(checked_evaluate_postfix("12+-"), None);
    assert_eq!(checked_evaluate_postfix("99*9*9*9*9*9*9*9*9*"), None);
    assert_eq!(checked_evaluate_postfix("abc"), None);
}

#[test]
fn operators_are_applied_within_32_bits() {
    assert_eq!(apply('+', 2, 3), Some(5));
    assert_eq!(apply('-', 2, 3), Some(-1));
    assert_eq!(apply('*', -2, 3), Some(-6));
    assert_eq!(apply('/', 7, 2), Some(3));
    assert_eq!(apply('/', -7, 2), Some(-3));
    assert_eq!(apply('/', 7, -2), Some(-3));
    assert_eq!(apply('/', -7, -2), Some(3));
    assert_eq!(apply('/', 1, 0), None);
    assert_eq!(apply('/', i32::MIN, -1), None);
    assert_eq!(apply('+', i32::MAX, 1), None);
    assert_eq!(apply('-', i32::MIN, 1), None);
    assert_eq!(apply('*', i32::MAX, 2), None);
    assert_eq!(apply('*', i32::MIN, i32::MIN), None);
    assert_eq!(apply('+', i32::MAX, 0), Some(i32::MAX));
}

#[test]
fn variables_are_found_by_the_pattern() {
    assert_eq!(VARIABLE_PATTERN, "[A-Za-z](_\\d+)?");
    assert_eq!(variable_status("A"), Some("valid"));
    assert_eq!(variable_status("A_1"), Some("valid"));
    assert_eq!(variable_status("AB"), Some("valid"));
    assert_eq!(variable_status("2A"), Some("valid"));
    assert_eq!(variable_status("5 + 232a_2vbq2"), Some("valid"));
    assert_eq!(variable_status("3421413"), Some("invalid"));
    assert_eq!(variable_status("32"), Some("invalid"));
    assert_eq!(variable_status(""), Some("invalid"));
    assert_eq!(validity_label(true), "valid");
    assert_eq!(validity_label(false), "invalid");
}

#[test]
fn variables_are_listed_in_order() {
    let list = |items: &[&str]| Some(items.iter().map(|item| item.to_string()).collect::<Vec<String>>());
    assert_eq!(variables_in("A"), list(&["A"]));
    assert_eq!(variables_in("A_1"), list(&["A_1"]));
    assert_eq!(variables_in("AB"), list(&["A", "B"]));
    assert_eq!(variables_in("AB_1"), list(&["A", "B_1"]));
    assert_eq!(variables_in("A_1B_2"), list(&["A_1", "B_2"]));
    assert_eq!(variables_in("2A_1"), list(&["A_1"]));
    assert_eq!(variables_in("A23B_2"), list(&["A", "B_2"]));
    assert_eq!(variables_in("5 + 232a_2vbq2"), list(&["a_2", "v", "b", "q"]));
    assert_eq!(variables_in("2363"), list(&[]));
    assert_eq!(variables_in(""), list(&[]));
}
