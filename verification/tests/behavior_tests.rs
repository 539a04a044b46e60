use ruforth::forth::Forth;
use ruforth::forth::ForthError;
use ruforth::interpreter::exit_ruforth;
use ruforth::interpreter::valid_word_name;
use ruforth::interpreter::Interpreter;
use ruforth::interpreter::OutEvent;
use ruforth::tokens::parse_i32;
use ruforth::tokens::tokenize;

#[test]
fn test_dup_drop_leaves_stack_unchanged() {
    let mut forth = Forth::empty();
    let intr = Interpreter::new();
    intr.eval(&mut forth, "1 2");
    intr.eval(&mut forth, "dup drop");
    assert_eq!(vec![1, 2], forth.get_stack());
}

#[test]
fn test_word_shadows_builtin() {
    let mut forth = Forth::empty();
    let intr = Interpreter::new();
    intr.eval(&mut forth, ": dup 99 ;");
    intr.eval(&mut forth, "1 dup");
    assert_eq!(vec![1, 99], forth.get_stack());
}

#[test]
fn test_word_redefinition_last_wins() {
    let mut forth = Forth::empty();
    let intr = Interpreter::new();
    intr.eval(&mut forth, ": w 1 ;");
    intr.eval(&mut forth, ": w 2 ;");
    intr.eval(&mut forth, "w");
    assert_eq!(vec![2], forth.get_stack());
}

#[test]
fn test_constant_redefinition_last_wins() {
    let mut forth = Forth::empty();
    let intr = Interpreter::new();
    intr.eval(&mut forth, "1 constant X");
    intr.eval(&mut forth, "2 constant X");
    intr.eval(&mut forth, "X");
    assert_eq!(vec![2], forth.get_stack());
}

#[test]
fn test_word_shadows_constant() {
    let mut forth = Forth::empty();
    let intr = Interpreter::new();
    intr.eval(&mut forth, "7 constant thing");
    intr.eval(&mut forth, ": thing 8 ;");
    intr.eval(&mut forth, "thing");
    assert_eq!(vec![8], forth.get_stack());
}

#[test]
fn test_division_truncates_toward_zero() {
    let mut forth = Forth::empty();
    let intr = Interpreter::new();
    intr.eval(&mut forth, "-7 2 /");
    assert_eq!(vec![-3], forth.get_stack());
}

#[test]
fn test_mod_keeps_sign_of_dividend() {
    let mut forth = Forth::empty();
    let intr = Interpreter::new();
    intr.eval(&mut forth, "-7 2 mod");
    assert_eq!(vec![-1], forth.get_stack());
}

#[test]
fn test_division_by_zero_reported() {
    let mut forth = Forth::empty();
    let intr = Interpreter::new();
    let outcome = intr.eval(&mut forth, "5 0 /");
    assert!(matches!(outcome.error, Some(ForthError::DivisionByZero)));
    assert_eq!(Vec::<i32>::new(), forth.get_stack());
}

#[test]
fn test_division_min_by_minus_one_wraps() {
    let mut forth = Forth::empty();
    let intr = Interpreter::new();
    intr.eval(&mut forth, "-2147483648 -1 /");
    assert_eq!(vec![i32::MIN], forth.get_stack());
}

#[test]
fn test_add_wraps_on_overflow() {
    let mut forth = Forth::empty();
    let intr = Interpreter::new();
    intr.eval(&mut forth, "2147483647 1 +");
    assert_eq!(vec![i32::MIN], forth.get_stack());
}

#[test]
fn test_negate_min_wraps() {
    let mut forth = Forth::empty();
    let intr = Interpreter::new();
    intr.eval(&mut forth, "-2147483648 negate");
    assert_eq!(vec![i32::MIN], forth.get_stack());
}

#[test]
fn test_invert_nonzero_gives_zero() {
    let mut forth = Forth::empty();
    let intr = Interpreter::new();
    intr.eval(&mut forth, "5 invert");
    assert_eq!(vec![0], forth.get_stack());
}

#[test]
fn test_unknown_token_reported() {
    let mut forth = Forth::empty();
    let intr = Interpreter::new();
    let outcome = intr.eval(&mut forth, "frobnicate");
    assert!(matches!(outcome.error, Some(ForthError::UnknownToken(_))));
    assert_eq!(Vec::<i32>::new(), forth.get_stack());
}

#[test]
fn test_error_aborts_rest_of_line() {
    let mut forth = Forth::empty();
    let intr = Interpreter::new();
    let outcome = intr.eval(&mut forth, "1 frobnicate 2");
    assert!(outcome.error.is_some());
    assert_eq!(vec![1], forth.get_stack());
}

#[test]
fn test_invalid_word_name_reported() {
    let mut forth = Forth::empty();
    let intr = Interpreter::new();
    let outcome = intr.eval(&mut forth, ": 5 dup ;");
    assert!(matches!(outcome.error, Some(ForthError::InvalidWordName(_))));
}

#[test]
fn test_unterminated_definition_reported() {
    let mut forth = Forth::empty();
    let intr = Interpreter::new();
    let outcome = intr.eval(&mut forth, ": sq dup *");
    assert!(matches!(outcome.error, Some(ForthError::UnterminatedDefinition)));
}

#[test]
fn test_unterminated_string_reported() {
    let mut forth = Forth::empty();
    let intr = Interpreter::new();
    let outcome = intr.eval(&mut forth, ".\" hello");
    assert!(matches!(outcome.error, Some(ForthError::UnterminatedString)));
}

#[test]
fn test_constant_underflow_reported() {
    let mut forth = Forth::empty();
    let intr = Interpreter::new();
    let outcome = intr.eval(&mut forth, "constant X");
    assert!(matches!(outcome.error, Some(ForthError::StackUnderflow(_))));
}

#[test]
fn test_self_recursive_word_hits_limit() {
    let mut forth = Forth::empty();
    let intr = Interpreter::new();
    intr.eval(&mut forth, ": loopy 1 loopy ;");
    let outcome = intr.eval(&mut forth, "loopy");
    assert!(matches!(outcome.error, Some(ForthError::RecursionLimitExceeded)));
}

#[test]
fn test_string_literal_output() {
    let mut forth = Forth::empty();
    let intr = Interpreter::new();
    let outcome = intr.eval(&mut forth, ".\" hello world \"");
    assert_eq!(outcome.outputs.len(), 1);
    match &outcome.outputs[0] {
        OutEvent::Text(t) => assert_eq!(t, "hello world "),
        _ => panic!("expected text output"),
    }
    assert!(outcome.error.is_none());
}

#[test]
fn test_string_literal_embedded_close() {
    let mut forth = Forth::empty();
    let intr = Interpreter::new();
    let outcome = intr.eval(&mut forth, ".\" hi\"");
    assert_eq!(outcome.outputs.len(), 1);
    match &outcome.outputs[0] {
        OutEvent::Text(t) => assert_eq!(t, "hi"),
        _ => panic!("expected text output"),
    }
}

#[test]
fn test_stack_dump_output() {
    let mut forth = Forth::empty();
    let intr = Interpreter::new();
    let outcome = intr.eval(&mut forth, "1 2 .");
    assert_eq!(outcome.outputs.len(), 1);
    match &outcome.outputs[0] {
        OutEvent::StackDump(s) => assert_eq!(s, &vec![1, 2]),
        _ => panic!("expected a stack dump"),
    }
    assert_eq!(vec![1, 2], forth.get_stack());
}

#[test]
fn test_words_listing_output() {
    let mut forth = Forth::empty();
    let intr = Interpreter::new();
    intr.eval(&mut forth, ": square dup * ;");
    let outcome = intr.eval(&mut forth, "words");
    assert_eq!(outcome.outputs.len(), 1);
    match &outcome.outputs[0] {
        OutEvent::Listing(names) => {
            assert_eq!(names.len(), 25);
            assert_eq!(names[0], "+");
            assert_eq!(names[24], "square");
            assert!(names.contains(&String::from("clearstack")));
        },
        _ => panic!("expected a listing"),
    }
}

#[test]
fn test_word_defined_event() {
    let mut forth = Forth::empty();
    let intr = Interpreter::new();
    let outcome = intr.eval(&mut forth, ": square dup * ;");
    assert_eq!(outcome.outputs.len(), 1);
    match &outcome.outputs[0] {
        OutEvent::Defined(n) => assert_eq!(n, "square"),
        _ => panic!("expected a definition event"),
    }
}

#[test]
fn test_consecutive_spaces_are_skipped() {
    let mut forth = Forth::empty();
    let intr = Interpreter::new();
    intr.eval(&mut forth, "2   3  +");
    assert_eq!(vec![5], forth.get_stack());
}

#[test]
fn test_int_extremes_parse() {
    let mut forth = Forth::empty();
    let intr = Interpreter::new();
    intr.eval(&mut forth, "2147483647 -2147483648");
    assert_eq!(vec![i32::MAX, i32::MIN], forth.get_stack());
}

#[test]
fn test_out_of_range_literal_is_unknown() {
    let mut forth = Forth::empty();
    let intr = Interpreter::new();
    let outcome = intr.eval(&mut forth, "2147483648");
    assert!(matches!(outcome.error, Some(ForthError::UnknownToken(_))));
}

#[test]
fn test_parse_i32_forms() {
    assert_eq!(parse_i32("42"), Some(42));
    assert_eq!(parse_i32("+7"), Some(7));
    assert_eq!(parse_i32("-13"), Some(-13));
    assert_eq!(parse_i32("2147483647"), Some(i32::MAX));
    assert_eq!(parse_i32("-2147483648"), Some(i32::MIN));
    assert_eq!(parse_i32("2147483648"), None);
    assert_eq!(parse_i32("--1"), None);
    assert_eq!(parse_i32("1.5"), None);
    assert_eq!(parse_i32(""), None);
    assert_eq!(parse_i32("-"), None);
}

#[test]
fn test_tokenize_splits_on_single_spaces() {
    assert_eq!(tokenize("a b"), vec!["a", "b"]);
    assert_eq!(tokenize("a  b"), vec!["a", "", "b"]);
    assert_eq!(tokenize(""), vec![""]);
}

#[test]
fn test_valid_word_name_rejects_integers() {
    assert!(!valid_word_name("5"));
    assert!(!valid_word_name("-12"));
    assert!(valid_word_name("square"));
    assert!(valid_word_name("x2"));
}

#[test]
fn test_exit_command() {
    assert!(exit_ruforth("exit"));
    assert!(!exit_ruforth("exi"));
    assert!(!exit_ruforth(""));
}

#[test]
fn test_stack_primitives() {
    let mut forth = Forth::empty();
    forth.push(1);
    forth.push(2);
    assert_eq!(forth.depth(), 2);
    assert_eq!(forth.pop(String::from("ctx")).unwrap(), 2);
    assert_eq!(vec![1], forth.get_stack());
    forth.clear();
    assert!(matches!(
        forth.pop(String::from("ctx")),
        Err(ForthError::StackUnderflow(m)) if m == "ctx"
    ));
}

#[test]
fn test_symbol_tables() {
    let mut forth = Forth::empty();
    let body = vec![String::from("dup"), String::from("*")];
    assert!(forth.add_word("square", (String::from("square"), body.clone())).is_none());
    let prev = forth.add_word("square", (String::from("square"), vec![String::from("dup")]));
    assert_eq!(prev.unwrap().1, body);
    assert_eq!(forth.get_word("square").unwrap().1, vec![String::from("dup")]);
    assert!(forth.get_word("cube").is_none());
    assert!(forth.add_constant("ten", 10).is_none());
    assert_eq!(forth.add_constant("ten", 11), Some(10));
    assert_eq!(forth.get_constant("ten"), Some(11));
    assert_eq!(forth.get_constant("two"), None);
    assert_eq!(forth.get_words().len(), 1);
}
