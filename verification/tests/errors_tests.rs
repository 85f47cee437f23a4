use lox_lexer::errors::ErrorHandler;

#[test]
fn test_error_handler() {
    let source_code = "\
var a = 9;
var 8b = 8;
var c = a + b;
print(\"abc\");
var j = 094342;
";
    let mut error_handler = ErrorHandler::new();
    error_handler.report(String::from("This is a simple error"), 2);
    error_handler.report(String::from("This is error number 2"), 5);
    error_handler.display_errors(source_code);
}

#[test]
fn report_keeps_insertion_order_and_renders_each_line() {
    let mut error_handler = ErrorHandler::new();
    assert!(!error_handler.has_error());
    error_handler.report(String::from("This is a simple error"), 2);
    error_handler.report(String::from("This is error number 2"), 15);
    assert!(error_handler.has_error());
    assert_eq!(
        "[line 2] Error: This is a simple error\n[line 15] Error: This is error number 2\n",
        error_handler.display_errors("")
    );
}
