use lox::Lox;

#[test]
fn run_with_unexpected_char() {
    let mut lox = Lox::new();
    let bad_input = "{}#+-";
    let result = lox.run(bad_input);
    println!("{:?}", result);
    assert!(matches!(result, Err(_)));
}

#[test]
fn example_numeric_expression() {
    let mut lox = Lox::new();
    let input = "1 + 2 * 3 == 7";
    lox.run(input).unwrap();
}

#[test]
fn example_string_concat() {
    let mut lox = Lox::new();
    let input = "\"hello, \" + \"world!\" == \"hello, world!\" ";
    let value = lox.run(input).unwrap();

    assert_eq!(value, true.into());
}
