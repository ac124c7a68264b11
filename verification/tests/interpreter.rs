use rlang::expr::{Expr, LiteralValue};
use rlang::interpreter::{Interpreter, Step};
use rlang::number::{Number, NumberRequest};
use rlang::stmt::Stmt;
use rlang::{run, run_string};
use std::time::SystemTime;

fn number(x: f64) -> Number {
    Number::new(x.to_bits(), x.to_string())
}

/// Does the work on numbers that the interpreter asks for.
fn answer(request: &NumberRequest) -> Number {
    match request {
        NumberRequest::Parse(text) => number(text.parse::<f64>().unwrap()),
        NumberRequest::Add(a, b) => number(f64::from_bits(*a) + f64::from_bits(*b)),
        NumberRequest::Subtract(a, b) => number(f64::from_bits(*a) - f64::from_bits(*b)),
        NumberRequest::Multiply(a, b) => number(f64::from_bits(*a) * f64::from_bits(*b)),
        NumberRequest::Divide(a, b) => number(f64::from_bits(*a) / f64::from_bits(*b)),
        NumberRequest::Negate(a) => number(-f64::from_bits(*a)),
        NumberRequest::Clock => number(
            SystemTime::now()
                .duration_since(SystemTime::UNIX_EPOCH)
                .unwrap()
                .as_secs_f64(),
        ),
    }
}

/// Drives a run that has made its first step to its end: the lines it
/// printed and how it ended.
fn drive(interpreter: &mut Interpreter, first: Step) -> (Vec<String>, Result<(), String>) {
    let mut lines = vec![];
    let mut step = first;
    let mut steps: u64 = 0;
    loop {
        steps += 1;
        assert!(steps < 10_000_000, "the run does not end");
        let reply = match step {
            Step::Continue => None,
            Step::NeedNumber(request) => Some(answer(&request)),
            Step::Print(line) => {
                lines.push(line);
                None
            }
            Step::Finished(result) => return (lines, result),
        };
        step = interpreter.step(reply);
    }
}

fn execute(source: &str) -> (Vec<String>, Result<(), String>) {
    let (mut interpreter, first) = run_string(source);
    drive(&mut interpreter, first)
}

/// The lines that a program prints; the program must end well.
fn output(source: &str) -> Vec<String> {
    let (lines, result) = execute(source);
    assert_eq!(result, Ok(()), "{}", source);
    lines
}

/// The message of the error that a program ends with.
fn error(source: &str) -> String {
    execute(source).1.unwrap_err()
}

#[test]
fn interpret_block() {
    let lines = output("var a = 1; { var a = 3; print a; } print a;");
    assert_eq!(lines.len() + 1, 3);
    assert_eq!(lines[0], "3");
    assert_eq!(lines[1], "1");
}

#[test]
fn interpret_while() {
    let lines = output("var i = 1; while (i >= 0) { print i; i = i - 1; }");
    assert_eq!(lines.len() + 1, 3);
    assert_eq!(lines[0], "1");
    assert_eq!(lines[1], "0");
}

#[test]
fn interpret_while_math() {
    let lines = output(
        "var n = 10; var product = 1;
         while (n > 1) { product = product * n; print product; n = n - 1; }
         print product;",
    );
    assert_eq!(lines.len() + 1, 11);
    assert_eq!(lines[0], "10");
    assert_eq!(lines[1], "90");
    assert_eq!(lines[2], "720");
    assert_eq!(lines[3], "5040");
    assert_eq!(lines[4], "30240");
    assert_eq!(lines[5], "151200");
    assert_eq!(lines[6], "604800");
    assert_eq!(lines[7], "1814400");
    assert_eq!(lines[8], "3628800");
    assert_eq!(lines[9], "3628800");
}

#[test]
fn interpret_for_loop() {
    let lines = output(
        "var a = 0; var b = 1; var temp;
         for (var i = 0; i < 21; i = i + 1) { print a; temp = b; b = a + b; a = temp; }",
    );

    let mut fibo = vec![];
    let mut a = 0;
    let mut b = 1;
    let mut temp;
    for _ in 0..21 {
        fibo.push(a);
        temp = b;
        b = a + b;
        a = temp;
    }

    assert_eq!(lines.len() + 1, fibo.len() + 1);
    for i in 0..fibo.len() {
        assert_eq!(lines[i], fibo[i].to_string());
    }
}

#[test]
fn interpret_fn_def() {
    let lines = output("fn count() { print 1; print 2; print 3; } count();");
    assert_eq!(lines.len() + 1, 4, "Output: '{}'", lines.join("\n"));
    assert_eq!(lines[0], "1");
    assert_eq!(lines[1], "2");
    assert_eq!(lines[2], "3");
}

#[test]
fn interpret_fn_mod_local() {
    let lines = output("var a = 1; fn set() { a = 3; } set(); print a;");
    assert_eq!(lines.len() + 1, 2, "Output: '{}'", lines.join("\n"));
    assert_eq!(lines[0], "3");
}

#[test]
fn interpret_fn_return() {
    let lines = output("fn five() { return 5; } print five();");
    assert_eq!(lines.len() + 1, 2, "Output: '{}'", lines.join("\n"));
    assert_eq!(lines[0], "5");
}

#[test]
fn interpret_fn_no_return() {
    let lines = output("fn f() { print 1; print 2; } print f();");
    assert_eq!(lines.len() + 1, 4, "Output: '{}'", lines.join("\n"));
    assert_eq!(lines[0], "1");
    assert_eq!(lines[1], "2");
    assert_eq!(lines[2], "nil");
}

#[test]
fn interpret_fn_cond_return() {
    let lines = output(
        "fn down(n) { while (true) { if (n < 0) { return n; } print n; n = n - 1; } }
         down(3);",
    );
    assert_eq!(lines.len() + 1, 5, "Output: '{}'", lines.join("\n"));
    assert_eq!(lines[0], "3");
    assert_eq!(lines[1], "2");
    assert_eq!(lines[2], "1");
    assert_eq!(lines[3], "0");
}

#[test]
fn interpret_fn_nested() {
    let lines = output("fn outer() { fn inner() { print 2; } inner(); print 3; } outer();");
    assert_eq!(lines.len() + 1, 3, "Output: '{}'", lines.join("\n"));
    assert_eq!(lines[0], "2");
    assert_eq!(lines[1], "3");
}

#[test]
fn interpret_fn_closure() {
    let lines = output(
        "fn counter() { var n = 0; fn bump() { n = n + 1; print n; } return bump; }
         var c = counter(); c(); c();
         var d = counter(); d(); d();",
    );
    assert_eq!(lines.len() + 1, 5, "Output: '{}'", lines.join("\n"));
    assert_eq!(lines[0], "1");
    assert_eq!(lines[1], "2");
    assert_eq!(lines[2], "1");
    assert_eq!(lines[3], "2");
}

#[test]
fn interpret_fn_anon() {
    let lines = output("var f = fn (a) { print a; }; f(1); f(2); f(3);");
    assert_eq!(lines.len() + 1, 4, "Output: '{}'", lines.join("\n"));
    assert_eq!(lines[0], "1");
    assert_eq!(lines[1], "2");
    assert_eq!(lines[2], "3");
}

#[test]
fn interpret_fn_anon2() {
    let lines = output("fn apply(f, x) { return f(x); } print apply(fn (y) { return y; }, 1);");
    assert_eq!(lines.len() + 1, 2, "Output: '{}'", lines.join("\n"));
    assert_eq!(lines[0], "1");
}

#[test]
fn shadowing_in_a_block() {
    assert_eq!(
        output("var a = 1; { var a = 2; print a; } print a;"),
        vec!["2", "1"]
    );
}

#[test]
fn while_counts_down() {
    assert_eq!(
        output("var i = 2; while (i > 0) { print i; i = i - 1; } print i;"),
        vec!["2", "1", "0"]
    );
}

#[test]
fn for_counts_up() {
    assert_eq!(
        output("for (var i = 0; i < 3; i = i + 1) print i;"),
        vec!["0", "1", "2"]
    );
}

#[test]
fn function_returns_a_sum() {
    assert_eq!(output("fn add(a,b){ return a+b; } print add(2,3);"), vec!["5"]);
}

#[test]
fn functions_call_functions() {
    assert_eq!(
        output("fn f(){ print 1; } fn g(){ print 2; f(); } g(); print 3;"),
        vec!["2", "1", "3"]
    );
}

#[test]
fn a_closure_keeps_its_scope() {
    assert_eq!(
        output(
            "fn counter(){ var n = 0; fn bump(){ n = n + 1; print n; } return bump; } \
             var c = counter(); c(); c();"
        ),
        vec!["1", "2"]
    );
}

#[test]
fn mixed_operands() {
    assert_eq!(output("print \"a\" + 1;"), vec!["a1"]);
    assert_eq!(output("print 1 == 1.0;"), vec!["true"]);
    assert_eq!(output("print nil == false;"), vec!["false"]);
}

#[test]
fn logical_operators_give_an_operand() {
    assert_eq!(output("print (0 or \"x\");"), vec!["x"]);
    assert_eq!(output("print (1 or 2);"), vec!["1"]);
    assert_eq!(output("print (0 and 2);"), vec!["0"]);
    assert_eq!(output("print (1 and 2);"), vec!["2"]);
    assert_eq!(output("print (nil or false);"), vec!["false"]);
    assert_eq!(output("print (\"\" and 1);"), vec![""]);
}

#[test]
fn empty_program_prints_nothing() {
    assert_eq!(execute(""), (vec![], Ok(())));
    assert_eq!(execute("// only a comment"), (vec![], Ok(())));
}

#[test]
fn empty_function_body_returns_nil() {
    assert_eq!(output("fn f() {} print f();"), vec!["nil"]);
    assert_eq!(output("print fn () {}();"), vec!["nil"]);
}

#[test]
fn return_without_value_yields_nil() {
    assert_eq!(output("fn f() { return; print 1; } print f();"), vec!["nil"]);
}

#[test]
fn concatenation_keeps_newlines_of_a_multi_line_string() {
    assert_eq!(output("print \"a\nb\" + \"c\nd\";"), vec!["a\nbc\nd"]);
    assert_eq!(output("print \"a\nb\" + 1;"), vec!["a\nb1"]);
}

#[test]
fn print_emits_the_text_of_the_value() {
    assert_eq!(output("print 1;"), vec!["1"]);
    assert_eq!(output("print 1.5;"), vec!["1.5"]);
    assert_eq!(output("print 3.0;"), vec!["3"]);
    assert_eq!(output("print \"raw text\";"), vec!["raw text"]);
    assert_eq!(output("print true;"), vec!["true"]);
    assert_eq!(output("print false;"), vec!["false"]);
    assert_eq!(output("print nil;"), vec!["nil"]);
    assert_eq!(output("fn add(a, b) {} print add;"), vec!["add<2>"]);
    assert_eq!(output("print fn (a) {};"), vec!["anon_function<1>"]);
    assert_eq!(output("print clock;"), vec!["clock<0>"]);
}

#[test]
fn short_circuit_skips_the_right_operand() {
    // The right operand prints when it is evaluated.
    let noisy = "fn noisy() { print \"evaluated\"; return true; } ";
    assert_eq!(output(&format!("{} print (1 or noisy());", noisy)), vec!["1"]);
    assert_eq!(output(&format!("{} print (nil and noisy());", noisy)), vec!["nil"]);
    assert_eq!(
        output(&format!("{} print (0 or noisy());", noisy)),
        vec!["evaluated", "true"]
    );
    assert_eq!(
        output(&format!("{} print (1 and noisy());", noisy)),
        vec!["evaluated", "true"]
    );
}

#[test]
fn the_left_operand_is_evaluated_once() {
    assert_eq!(
        output("fn left() { print \"left\"; return 0; } print (left() or 2);"),
        vec!["left", "2"]
    );
}

#[test]
fn arity_mismatch_runs_nothing_of_the_callee() {
    let (lines, result) = execute("fn f(a) { print \"body\"; } print 1; f(); print 2;");
    assert_eq!(lines, vec!["1"]);
    assert_eq!(result, Err("Callable f expected 1 arguments got 0".to_string()));
    // The arguments are not evaluated either.
    let (lines, result) =
        execute("fn f() {} fn noisy() { print \"argument\"; } f(noisy(), noisy());");
    assert_eq!(lines.len(), 0);
    assert_eq!(result, Err("Callable f expected 0 arguments got 2".to_string()));
    assert_eq!(error("clock(1);"), "Callable clock expected 0 arguments got 1");
    assert_eq!(
        error("var f = fn (a, b) {}; f(1);"),
        "Callable anon_function expected 2 arguments got 1"
    );
}

#[test]
fn closures_share_the_scope_they_were_made_in() {
    assert_eq!(
        output(
            "fn pair() {
                 var n = 0;
                 fn bump() { n = n + 1; }
                 fn show() { print n; }
                 bump(); show(); bump(); show();
             }
             pair();"
        ),
        vec!["1", "2"]
    );
    assert_eq!(
        output(
            "var set; var get;
             fn make() {
                 var n = 0;
                 set = fn (v) { n = v; };
                 get = fn () { return n; };
             }
             make(); set(7); print get(); set(\"x\"); print get();"
        ),
        vec!["7", "x"]
    );
}

#[test]
fn arithmetic() {
    assert_eq!(output("print 1 + 2 * 3 - 4 / 8;"), vec!["6.5"]);
    assert_eq!(output("print -3 + 1;"), vec!["-2"]);
    assert_eq!(output("print 0.1 + 0.2;"), vec!["0.30000000000000004"]);
    assert_eq!(output("print 1 / 0;"), vec!["inf"]);
    assert_eq!(output("print -1 / 0;"), vec!["-inf"]);
    assert_eq!(output("print 0 / 0;"), vec!["NaN"]);
    assert_eq!(output("print -0;"), vec!["-0"]);
    assert_eq!(output("print 2 * (3 + 4);"), vec!["14"]);
}

#[test]
fn number_comparisons() {
    assert_eq!(output("print 1 < 2;"), vec!["true"]);
    assert_eq!(output("print 2 < 1;"), vec!["false"]);
    assert_eq!(output("print 2 <= 2;"), vec!["true"]);
    assert_eq!(output("print 2 > 1;"), vec!["true"]);
    assert_eq!(output("print 1 >= 2;"), vec!["false"]);
    assert_eq!(output("print 2 >= 2;"), vec!["true"]);
    assert_eq!(output("print -1 < 0;"), vec!["true"]);
    assert_eq!(output("print -0 == 0;"), vec!["true"]);
    assert_eq!(output("print 0 / 0 == 0 / 0;"), vec!["false"]);
    assert_eq!(output("print 0 / 0 != 0 / 0;"), vec!["true"]);
    assert_eq!(output("print 0 / 0 < 1;"), vec!["false"]);
    assert_eq!(output("print 1 != 2;"), vec!["true"]);
}

#[test]
fn string_operators() {
    assert_eq!(output("print \"ab\" + \"cd\";"), vec!["abcd"]);
    assert_eq!(output("print \"a\" < \"b\";"), vec!["true"]);
    assert_eq!(output("print \"a\" < \"a\";"), vec!["false"]);
    assert_eq!(output("print \"a\" <= \"a\";"), vec!["true"]);
    assert_eq!(output("print \"ab\" > \"a\";"), vec!["true"]);
    assert_eq!(output("print \"B\" >= \"a\";"), vec!["false"]);
    assert_eq!(output("print \"\" < \"a\";"), vec!["true"]);
    assert_eq!(output("print \"a\" == \"a\";"), vec!["true"]);
    assert_eq!(output("print \"a\" != \"a\";"), vec!["false"]);
    assert_eq!(output("print \"x\" + 1.5;"), vec!["x1.5"]);
}

#[test]
fn equality_is_defined_on_every_pair() {
    assert_eq!(output("print 1 == \"1\";"), vec!["false"]);
    assert_eq!(output("print 1 != \"1\";"), vec!["true"]);
    assert_eq!(output("print nil == nil;"), vec!["true"]);
    assert_eq!(output("print true == true;"), vec!["true"]);
    assert_eq!(output("print true == false;"), vec!["false"]);
    assert_eq!(output("print \"\" == nil;"), vec!["false"]);
    assert_eq!(output("print 0 == false;"), vec!["false"]);
    assert_eq!(output("fn f() {} print f == f;"), vec!["true"]);
    assert_eq!(output("fn f() {} fn g() {} print f == g;"), vec!["false"]);
    assert_eq!(output("fn f() {} fn g(a) {} print f != g;"), vec!["true"]);
    // Function values are the same where name and arity are.
    assert_eq!(output("print fn () {} == fn () {};"), vec!["true"]);
    assert_eq!(output("print fn (a) {} == fn () {};"), vec!["false"]);
    assert_eq!(output("fn f() {} print f == 1;"), vec!["false"]);
}

#[test]
fn truthiness() {
    let truth = |e: &str| output(&format!("if ({}) print \"yes\"; else print \"no\";", e));
    assert_eq!(truth("nil"), vec!["no"]);
    assert_eq!(truth("false"), vec!["no"]);
    assert_eq!(truth("true"), vec!["yes"]);
    assert_eq!(truth("0"), vec!["no"]);
    assert_eq!(truth("-0"), vec!["no"]);
    assert_eq!(truth("0.5"), vec!["yes"]);
    assert_eq!(truth("0/0"), vec!["yes"]);
    assert_eq!(truth("\"\""), vec!["no"]);
    assert_eq!(truth("\"0\""), vec!["yes"]);
    assert_eq!(output("print !nil;"), vec!["true"]);
    assert_eq!(output("print !1;"), vec!["false"]);
    assert_eq!(output("print !\"\";"), vec!["true"]);
    assert_eq!(output("print !!0;"), vec!["false"]);
}

#[test]
fn a_function_value_has_no_truth_value() {
    assert_eq!(error("if (clock) print 1;"), "Cannot use callable as a truthy value");
    assert_eq!(error("while (clock) print 1;"), "Cannot use callable as a truthy value");
    assert_eq!(error("print clock or 1;"), "Cannot use callable as a truthy value");
    assert_eq!(error("print clock and 1;"), "Cannot use callable as a truthy value");
    assert_eq!(error("print !clock;"), "Cannot use callable as a falsy value");
}

#[test]
fn operator_errors() {
    assert_eq!(error("print 1 + \"a\";"), "Plus is not defined for String and Number");
    assert_eq!(error("print 1 < \"a\";"), "Less is not defined for String and Number");
    assert_eq!(
        error("print \"a\" - 1;"),
        "Minus is not implemented for the operands `a` and `1`"
    );
    assert_eq!(
        error("print nil + 1.5;"),
        "Plus is not implemented for the operands `nil` and `1.5`"
    );
    assert_eq!(
        error("print true * false;"),
        "Star is not implemented for the operands `true` and `false`"
    );
    assert_eq!(
        error("print \"a\" * \"b\";"),
        "Star is not implemented for the operands `a` and `b`"
    );
    assert_eq!(
        error("print clock < 1;"),
        "Less is not implemented for the operands `clock<0>` and `1`"
    );
    assert_eq!(error("print -\"a\";"), "Minus not implemented for a");
    assert_eq!(error("print -(1 == 2);"), "Minus not implemented for (group (== 1 2))");
    assert_eq!(error("print -nil;"), "Minus not implemented for nil");
}

#[test]
fn undeclared_variables() {
    assert_eq!(error("print a;"), "Variable 'a' has not been declared");
    assert_eq!(error("a = 1;"), "Variable a has not been declared");
    assert_eq!(error("{ var a = 1; } print a;"), "Variable 'a' has not been declared");
    // An assignment never makes a binding.
    assert_eq!(
        execute("print 1; b = 2; print 3;"),
        (vec!["1".to_string()], Err("Variable b has not been declared".to_string()))
    );
}

#[test]
fn calling_what_is_no_function() {
    assert_eq!(error("1();"), "Number is not callable");
    assert_eq!(error("\"f\"();"), "String is not callable");
    assert_eq!(error("true();"), "Boolean is not callable");
    assert_eq!(error("nil();"), "nil is not callable");
    assert_eq!(error("var a; a(1, 2);"), "nil is not callable");
}

#[test]
fn a_run_time_error_inside_a_function_ends_the_run() {
    assert_eq!(
        execute("fn f() { print 1; print nope; print 2; } f(); print 3;"),
        (vec!["1".to_string()], Err("Variable 'nope' has not been declared".to_string()))
    );
}

#[test]
fn front_end_errors_keep_the_program_from_running() {
    assert_eq!(
        execute("print 1; print @;"),
        (vec![], Err("Unrecognized char at line 1: '@'".to_string()))
    );
    assert_eq!(
        execute("print 1; print ;"),
        (vec![], Err("Expected expression".to_string()))
    );
}

#[test]
fn assignment_is_an_expression() {
    assert_eq!(output("var a; var b; print a = b = 2; print a + b;"), vec!["2", "4"]);
}

#[test]
fn redefinition_replaces() {
    assert_eq!(output("var a = 1; var a = 2; print a;"), vec!["2"]);
    assert_eq!(output("var a = 1; var a; print a;"), vec!["nil"]);
}

#[test]
fn a_block_sees_and_changes_the_scope_around_it() {
    assert_eq!(output("var a = 1; { a = 2; var b = a; print b; } print a;"), vec!["2", "2"]);
}

#[test]
fn parameters_shadow_and_are_local() {
    assert_eq!(
        output("var a = 1; fn f(a) { a = a + 1; print a; } f(5); print a;"),
        vec!["6", "1"]
    );
    assert_eq!(output("fn f(a, a) { print a; } f(1, 2);"), vec!["2"]);
}

#[test]
fn a_function_sees_its_defining_scope_not_the_callers() {
    assert_eq!(
        output(
            "var a = \"global\";
             fn show() { print a; }
             fn caller() { var a = \"local\"; show(); }
             caller();"
        ),
        vec!["global"]
    );
}

#[test]
fn recursion() {
    assert_eq!(
        output("fn fact(n) { if (n <= 1) return 1; return n * fact(n - 1); } print fact(10);"),
        vec!["3628800"]
    );
    assert_eq!(
        output("fn fib(n) { if (n < 2) return n; return fib(n - 1) + fib(n - 2); } print fib(15);"),
        vec!["610"]
    );
}

#[test]
fn return_ends_the_call_from_nested_statements() {
    assert_eq!(
        output(
            "fn f() { { print 1; { return 2; } print 3; } print 4; }
             var a = 0; { var a = 1; print f(); print a; } print a;"
        ),
        vec!["1", "2", "1", "0"]
    );
    assert_eq!(
        output("fn f() { for (var i = 0; ; i = i + 1) { if (i == 3) return i; } } print f();"),
        vec!["3"]
    );
    // Only the innermost call ends.
    assert_eq!(
        output("fn inner() { return 1; } fn outer() { inner(); return 2; } print outer();"),
        vec!["2"]
    );
    assert_eq!(
        output("fn f() { return 1 + g(); } fn g() { return 2; } print f();"),
        vec!["3"]
    );
}

#[test]
fn return_outside_a_function_does_nothing() {
    assert_eq!(output("print 1; return 5; print 2;"), vec!["1", "2"]);
    assert_eq!(output("{ return; print 1; }"), vec!["1"]);
}

#[test]
fn if_and_else() {
    assert_eq!(output("if (1 < 2) print \"then\"; else print \"else\";"), vec!["then"]);
    assert_eq!(output("if (1 > 2) print \"then\"; else print \"else\";"), vec!["else"]);
    assert_eq!(output("if (false) print \"then\"; print \"after\";"), vec!["after"]);
}

#[test]
fn while_with_a_false_condition_never_runs() {
    assert_eq!(output("while (false) print 1; print 2;"), vec!["2"]);
}

#[test]
fn for_loop_variable_is_local_to_the_loop() {
    assert_eq!(
        error("for (var i = 0; i < 1; i = i + 1) {} print i;"),
        "Variable 'i' has not been declared"
    );
}

#[test]
fn operands_are_evaluated_left_first() {
    assert_eq!(
        output(
            "fn say(x) { print x; return x; }
             print say(1) + say(2) * say(3);
             fn three(a, b, c) {} three(say(\"a\"), say(\"b\"), say(\"c\"));"
        ),
        vec!["1", "2", "3", "7", "a", "b", "c"]
    );
}

#[test]
fn clock_yields_seconds_since_the_epoch() {
    assert_eq!(output("print clock() > 1000000000;"), vec!["true"]);
    assert_eq!(output("var a = clock(); var b = clock(); print b >= a;"), vec!["true"]);
}

#[test]
fn the_interpreter_asks_for_its_numbers() {
    let (mut interpreter, first) = run_string("print 1.5 + 2;");
    assert!(matches!(&first, Step::NeedNumber(NumberRequest::Parse(text)) if text == "1.5"));
    let second = interpreter.step(Some(number(1.5)));
    assert!(matches!(&second, Step::NeedNumber(NumberRequest::Parse(text)) if text == "2"));
    let mut step = interpreter.step(Some(number(2.0)));
    loop {
        match step {
            Step::Continue => step = interpreter.step(None),
            other => {
                step = other;
                break;
            }
        }
    }
    match step {
        Step::NeedNumber(NumberRequest::Add(a, b)) => {
            assert_eq!(a, 1.5f64.to_bits());
            assert_eq!(b, 2.0f64.to_bits());
        }
        other => panic!("{:?}", other),
    }
    // Asked again without an answer, the interpreter repeats its question.
    assert!(matches!(interpreter.step(None), Step::NeedNumber(NumberRequest::Add(_, _))));
    // The answer is taken as it is given.
    let (lines, result) = {
        let next = interpreter.step(Some(number(100.0)));
        drive(&mut interpreter, next)
    };
    assert_eq!(lines, vec!["100"]);
    assert_eq!(result, Ok(()));
    assert!(!interpreter.is_running());
}

#[test]
fn an_interpreter_keeps_its_globals_between_runs() {
    let mut interpreter = Interpreter::new();
    let first = run(&mut interpreter, "var a = 1; fn inc() { a = a + 1; return a; }");
    assert_eq!(drive(&mut interpreter, first), (vec![], Ok(())));
    let second = run(&mut interpreter, "print inc(); print nope;");
    assert_eq!(
        drive(&mut interpreter, second),
        (vec!["2".to_string()], Err("Variable 'nope' has not been declared".to_string()))
    );
    // After the error the interpreter goes on in its outermost scope.
    let third = run(&mut interpreter, "print inc();");
    assert_eq!(drive(&mut interpreter, third), (vec!["3".to_string()], Ok(())));
    assert_eq!(interpreter.global("a").unwrap(), LiteralValue::Number(number(3.0)));
    assert!(interpreter.global("b").is_none());
    assert!(matches!(
        interpreter.global("clock"),
        Some(LiteralValue::Callable { arity: 0, .. })
    ));
}

#[test]
fn an_error_inside_a_block_leaves_the_outermost_scope_current() {
    let mut interpreter = Interpreter::new();
    let first = run(&mut interpreter, "var a = 1; { var a = 2; { print nope; } }");
    assert!(drive(&mut interpreter, first).1.is_err());
    let second = run(&mut interpreter, "print a;");
    assert_eq!(drive(&mut interpreter, second), (vec!["1".to_string()], Ok(())));
}

#[test]
fn a_new_run_gives_up_the_one_before() {
    let mut interpreter = Interpreter::new();
    let mut step = run(&mut interpreter, "var a = 1; while (true) { a = a + 1; }");
    for _ in 0..200 {
        let reply = match step {
            Step::NeedNumber(request) => Some(answer(&request)),
            _ => None,
        };
        step = interpreter.step(reply);
    }
    assert!(interpreter.is_running());
    let next = run(&mut interpreter, "print a > 1;");
    assert_eq!(drive(&mut interpreter, next), (vec!["true".to_string()], Ok(())));
}

#[test]
fn an_idle_interpreter_has_finished() {
    let mut interpreter = Interpreter::new();
    assert!(!interpreter.is_running());
    assert!(matches!(interpreter.step(None), Step::Finished(Ok(()))));
    assert!(matches!(interpreter.step(Some(number(1.0))), Step::Finished(Ok(()))));
}

#[test]
fn statements_can_be_loaded_directly() {
    let mut interpreter = Interpreter::new();
    let program = vec![
        Box::new(Stmt::Print {
            expression: Expr::Literal { value: LiteralValue::StringValue("direct".to_string()) },
        }),
        Box::new(Stmt::Print {
            expression: Expr::Literal {
                value: LiteralValue::Callable { name: "ghost".to_string(), arity: 0, fun: 99 },
            },
        }),
    ];
    interpreter.interpret(program);
    let first = interpreter.step(None);
    assert_eq!(
        drive(&mut interpreter, first),
        (vec!["direct".to_string(), "ghost<0>".to_string()], Ok(()))
    );
}

#[test]
fn a_function_value_of_no_interpreter_cannot_be_called() {
    let mut interpreter = Interpreter::new();
    let paren = rlang::lexer::Token::new(
        rlang::lexer::TokenType::RightParen,
        ")".to_string(),
        None,
        1,
    );
    let program = vec![Box::new(Stmt::Expression {
        expression: Expr::Call {
            callee: Box::new(Expr::Literal {
                value: LiteralValue::Callable { name: "ghost".to_string(), arity: 0, fun: 99 },
            }),
            paren,
            arguments: vec![],
        },
    })];
    interpreter.interpret(program);
    let first = interpreter.step(None);
    assert_eq!(
        drive(&mut interpreter, first).1,
        Err("Callable is not known to this interpreter".to_string())
    );
}

#[test]
fn deep_recursion_needs_no_deep_stack() {
    assert_eq!(
        output("fn down(n) { if (n == 0) return 0; return down(n - 1); } print down(5000);"),
        vec!["0"]
    );
}

#[test]
fn a_run_repeats_itself() {
    let program = "var total = 0;
        fn add(n) { total = total + n; return total; }
        for (var i = 1; i <= 5; i = i + 1) { print add(i) / 3; }
        print \"done \" + total;
        print missing;";
    let once = execute(program);
    let twice = execute(program);
    assert_eq!(once, twice);
    assert_eq!(once.0.len(), 6);
    assert_eq!(once.0[5], "done 15");
    assert_eq!(once.1, Err("Variable 'missing' has not been declared".to_string()));
}

#[test]
fn an_expression_evaluated_twice_gives_equal_values() {
    assert_eq!(
        output(
            "var a = 2; fn f(x) { return x * a + 0.1; }
             print f(3) == f(3);
             print (\"s\" + a) == (\"s\" + a);
             print (a < 3) == (a < 3);
             print (a or nil) == (a or nil);"
        ),
        vec!["true", "true", "true", "true"]
    );
}

#[test]
fn a_logical_node_needs_and_or_or() {
    let mut interpreter = Interpreter::new();
    let plus = rlang::lexer::Token::new(rlang::lexer::TokenType::Plus, "+".to_string(), None, 1);
    let program = vec![Box::new(Stmt::Print {
        expression: Expr::Logical {
            left: Box::new(Expr::Literal { value: LiteralValue::True }),
            operator: plus,
            right: Box::new(Expr::Literal { value: LiteralValue::False }),
        },
    })];
    interpreter.interpret(program);
    let first = interpreter.step(None);
    assert_eq!(
        drive(&mut interpreter, first),
        (vec![], Err("Invalid token in logical expression: Plus".to_string()))
    );
}

#[test]
fn a_unary_node_needs_minus_or_bang() {
    let mut interpreter = Interpreter::new();
    let star = rlang::lexer::Token::new(rlang::lexer::TokenType::Star, "*".to_string(), None, 1);
    let program = vec![Box::new(Stmt::Print {
        expression: Expr::Unary {
            operator: star,
            right: Box::new(Expr::Literal { value: LiteralValue::True }),
        },
    })];
    interpreter.interpret(program);
    let first = interpreter.step(None);
    assert_eq!(
        drive(&mut interpreter, first),
        (vec![], Err("Star is not valid unary operator".to_string()))
    );
}

#[test]
fn print_hands_out_one_line_per_statement() {
    let (mut interpreter, mut step) = run_string("print \"a\"; print \"b\" + \"c\"; \"d\";");
    let mut lines = 0;
    loop {
        match step {
            Step::Print(line) => {
                lines += 1;
                assert_eq!(line, if lines == 1 { "a" } else { "bc" });
            }
            Step::Finished(result) => {
                assert_eq!(result, Ok(()));
                break;
            }
            Step::NeedNumber(request) => panic!("{:?}", request),
            Step::Continue => {}
        }
        step = interpreter.step(None);
    }
    assert_eq!(lines, 2);
}
