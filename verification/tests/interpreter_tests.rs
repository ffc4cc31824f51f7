use dena::interpreter::Interpreter;
use dena::run;
use dena::run_string;

fn outputs(source: &str) -> Vec<String> {
    let (out, result) = run_string(source);
    assert!(result.is_ok(), "run failed: {:?} on {:?}", result, source);
    out
}

fn failure(source: &str) -> String {
    let (_, result) = run_string(source);
    match result {
        Err(m) => m,
        Ok(()) => panic!("run should have failed: {:?}", source),
    }
}

#[test]
fn interpret_block() {
    let out = outputs("var a = 3; { var b = a; print b; } print a;");
    assert_eq!(out, vec!["3", "3"]);
}

#[test]
fn interpret_while() {
    let out = outputs("var i = 1; while (i >= 0) { print i; i = i - 1; }");
    assert_eq!(out, vec!["1", "0"]);
}

#[test]
fn interpret_while_math() {
    // Partial factorials from 10 down: 10, 10*9, ..., 10!.
    let out = outputs(
        "var acc = 1;\n\
         var n = 10;\n\
         while (n >= 2) {\n\
           acc = acc * n;\n\
           print acc;\n\
           n = n - 1;\n\
         }\n\
         print acc;",
    );
    assert_eq!(
        out,
        vec![
            "10", "90", "720", "5040", "30240", "151200", "604800", "1814400", "3628800",
            "3628800"
        ]
    );
}

#[test]
fn interpret_for_loop() {
    // The first 21 Fibonacci numbers, by iteration.
    let out = outputs(
        "var a = 0;\n\
         var temp = 0;\n\
         for (var b = 1; a < 10000; b = temp + b) {\n\
           print a;\n\
           temp = a;\n\
           a = b;\n\
         }",
    );
    let mut fibo: Vec<i64> = vec![];
    let mut a: i64 = 0;
    let mut b: i64 = 1;
    let mut temp: i64;
    for _i in 0..21 {
        fibo.push(a);
        temp = b;
        b = a + b;
        a = temp;
    }
    assert_eq!(out.len(), fibo.len());
    for i in 0..fibo.len() {
        assert_eq!(out[i], fibo[i].to_string());
    }
}

#[test]
fn interpret_fun_recursion() {
    // The first 21 Fibonacci numbers, by recursion.
    let out = outputs(
        "fun fib(n) {\n\
           if (n < 2) { return n; }\n\
           return fib(n - 1) + fib(n - 2);\n\
         }\n\
         for (var i = 0; i < 21; i = i + 1) {\n\
           print fib(i);\n\
         }",
    );
    let expected = vec![
        "0", "1", "1", "2", "3", "5", "8", "13", "21", "34", "55", "89", "144", "233", "377",
        "610", "987", "1597", "2584", "4181", "6765",
    ];
    assert_eq!(out, expected);
}

#[test]
fn interpret_fun_def() {
    let out = outputs(
        "fun counter(x) { print x; }\n\
         counter(1);\n\
         counter(2);\n\
         counter(3);",
    );
    assert_eq!(out, vec!["1", "2", "3"]);
}

#[test]
fn interpret_fun_mod_env() {
    let out = outputs(
        "var total = 1;\n\
         fun bump() { total = total + 2; }\n\
         bump();\n\
         print total;",
    );
    assert_eq!(out, vec!["3"]);
}

#[test]
fn interpret_fun_return() {
    let out = outputs(
        "fun add(a, b) { return a + b; }\n\
         print add(2, 3);",
    );
    assert_eq!(out, vec!["5"]);
}

#[test]
fn interpret_fun_returnnil() {
    let out = outputs(
        "fun show(x) { print x; }\n\
         show(1);\n\
         show(2);\n\
         fun nothing() {}\n\
         print nothing();",
    );
    assert_eq!(out, vec!["1", "2", "nil"]);
}

#[test]
fn interpret_fun_condreturn() {
    // The return signal unwinds out of the loop inside the function:
    // nothing after it runs.
    let out = outputs(
        "fun countdown(n) {\n\
           while (true) {\n\
             print n;\n\
             if (n == 0) { return n; }\n\
             n = n - 1;\n\
           }\n\
         }\n\
         countdown(3);",
    );
    assert_eq!(out, vec!["3", "2", "1", "0"]);
}

#[test]
fn interpret_fun_nested() {
    let out = outputs(
        "fun outer(a) {\n\
           fun inner(b) { print b + 1; }\n\
           inner(a);\n\
           inner(a + 1);\n\
         }\n\
         outer(1);",
    );
    assert_eq!(out, vec!["2", "3"]);
}

#[test]
fn interpret_fun_closure() {
    // Closures capture the frame, not a copy of the value: state
    // accumulates across calls, and each outer invocation gets its own
    // fresh frame.
    let out = outputs(
        "fun makeCounter() {\n\
           var i = 0;\n\
           fun count() {\n\
             i = i + 1;\n\
             print i;\n\
           }\n\
           return count;\n\
         }\n\
         var c = makeCounter();\n\
         c();\n\
         c();\n\
         var d = makeCounter();\n\
         d();\n\
         d();",
    );
    assert_eq!(out, vec!["1", "2", "1", "2"]);
}

#[test]
fn interpret_fun_anon() {
    let out = outputs(
        "var plus_one = fun (x) { return x + 1; };\n\
         print plus_one(0);\n\
         print plus_one(1);\n\
         print plus_one(2);",
    );
    assert_eq!(out, vec!["1", "2", "3"]);
}

#[test]
fn anon_function_display_form() {
    let out = outputs("var f = fun (a, b) { return a; }; print f;");
    assert_eq!(out, vec!["anon_function/2"]);
}

#[test]
fn scoping_shadowing_restores_outer() {
    let out = outputs("{ var a = 1; { var a = 2; print a; } print a; }");
    assert_eq!(out, vec!["2", "1"]);
}

#[test]
fn self_reference_in_initializer_fails() {
    let msg = failure("{ var a = a; }");
    assert_eq!(msg, "Can't read local variable in its own initializer");
}

#[test]
fn global_fallback_from_any_depth() {
    let out = outputs(
        "var g = 42;\n\
         fun shallow() { print g; }\n\
         fun deep() {\n\
           fun inner() { print g; }\n\
           inner();\n\
         }\n\
         shallow();\n\
         deep();\n\
         print g;",
    );
    assert_eq!(out, vec!["42", "42", "42"]);
}

#[test]
fn arity_mismatch_is_exact() {
    let msg = failure(
        "fun f(a, b) { return a; }\n\
         f(1);",
    );
    assert_eq!(msg, "Callable f expected 2 arguments but got 1");
}

#[test]
fn string_plus_number_fails() {
    let msg = failure("print \"a\" + 1;");
    assert_eq!(msg, "Plus is not defined for string and number");
}

#[test]
fn cross_type_equality_is_false_not_an_error() {
    let out = outputs("print 1 == \"1\"; print 1 != \"1\";");
    assert_eq!(out, vec!["false", "true"]);
}

#[test]
fn and_short_circuits() {
    let out = outputs(
        "var called = 0;\n\
         fun sideEffect() { called = 1; return true; }\n\
         var r = false and sideEffect();\n\
         print called;\n\
         print r;",
    );
    assert_eq!(out, vec!["0", "false"]);
}

#[test]
fn or_short_circuits() {
    let out = outputs(
        "var called = 0;\n\
         fun sideEffect() { called = 1; return true; }\n\
         var r = true or sideEffect();\n\
         print called;\n\
         print r;",
    );
    assert_eq!(out, vec!["0", "true"]);
}

#[test]
fn logical_operand_evaluated_when_needed() {
    let out = outputs(
        "var called = 0;\n\
         fun sideEffect() { called = 1; return true; }\n\
         var r = false or sideEffect();\n\
         print called;\n\
         print r;",
    );
    assert_eq!(out, vec!["1", "true"]);
}

#[test]
fn undeclared_variable_read_fails() {
    let msg = failure("print q;");
    assert_eq!(msg, "Variable 'q' has not been declared");
}

#[test]
fn undeclared_variable_assignment_fails() {
    let msg = failure("q = 1;");
    assert_eq!(msg, "Variable q has not been declared");
}

#[test]
fn calling_a_non_callable_fails() {
    let msg = failure("var x = 1; x();");
    assert_eq!(msg, "Number is not callable");
}

#[test]
fn callable_has_no_truth_value() {
    let msg = failure("fun f() {} if (f) { print 1; }");
    assert_eq!(msg, "Cannot use Callable as a truthy value");
}

#[test]
fn unary_minus_wants_a_number() {
    let msg = failure("print -\"abc\";");
    assert_eq!(msg, "Minus not implemented for String");
}

#[test]
fn division_by_zero_fails() {
    let msg = failure("print 1 / 0;");
    assert_eq!(msg, "Division by zero");
}

#[test]
fn arithmetic_and_comparisons() {
    let out = outputs(
        "print 7 + 3; print 7 - 3; print 7 * 3; print 7 / 3;\n\
         print 2 > 1; print 2 >= 2; print 1 < 1; print 1 <= 1;\n\
         print -5;",
    );
    assert_eq!(
        out,
        vec!["10", "4", "21", "2", "true", "true", "false", "true", "-5"]
    );
}

#[test]
fn string_concat_and_compare() {
    let out = outputs(
        "print \"foo\" + \"bar\";\n\
         print \"abc\" < \"abd\";\n\
         print \"b\" > \"ab\";\n\
         print \"ab\" <= \"ab\";\n\
         print \"ab\" == \"ab\";",
    );
    assert_eq!(out, vec!["\"foobar\"", "true", "true", "true", "true"]);
}

#[test]
fn truthiness_in_conditions() {
    let out = outputs(
        "if (0) { print 1; } else { print 2; }\n\
         if (\"\") { print 3; } else { print 4; }\n\
         if (5) { print 5; }\n\
         if (nil) { print 6; } else { print 7; }",
    );
    assert_eq!(out, vec!["2", "4", "5", "7"]);
}

#[test]
fn clock_native_yields_a_number() {
    let out = outputs("print clock() >= 0;");
    assert_eq!(out, vec!["true"]);
}

#[test]
fn wrapping_addition_at_the_edge() {
    let out = outputs("print 9223372036854775807 + 1;");
    assert_eq!(out, vec!["-9223372036854775808"]);
}

#[test]
fn prompt_style_runs_share_state() {
    let mut interpreter = Interpreter::new();
    run(&mut interpreter, "var x = 1;").unwrap();
    run(&mut interpreter, "x = x + 1;").unwrap();
    run(&mut interpreter, "print x;").unwrap();
    assert_eq!(interpreter.output, vec!["2"]);
}

#[test]
fn lexical_scoping_is_static() {
    // The inner reference to `a` is resolved at its definition site:
    // a later shadowing declaration in the caller cannot capture it.
    let out = outputs(
        "var a = \"global\";\n\
         {\n\
           fun show() { print a; }\n\
           show();\n\
           var a = \"block\";\n\
           show();\n\
         }",
    );
    assert_eq!(out, vec!["\"global\"", "\"global\""]);
}

#[test]
fn scan_error_reports_all() {
    let msg = failure("@ #");
    assert_eq!(
        msg,
        "Unrecognized char at line: 1: @\nUnrecognized char at line: 1: #\n"
    );
}

#[test]
fn resolution_error_records_no_distance() {
    // The failing use gets no table entry and nothing after it is
    // resolved: the table is exactly as it was at the failure.
    let mut interpreter = Interpreter::new();
    let result = run(&mut interpreter, "{ var a = a; } { var b = 1; print b; }");
    match result {
        Err(m) => assert_eq!(m, "Can't read local variable in its own initializer"),
        _ => panic!("should have failed"),
    }
    assert!(interpreter.locals.ids.is_empty());
    assert!(interpreter.output.is_empty());
}

#[test]
fn empty_program_runs() {
    let (out, result) = run_string("");
    assert!(result.is_ok());
    assert!(out.is_empty());
}

#[test]
fn for_loop_with_omitted_head_parts_runs() {
    let out = outputs(
        "var i = 0;\n\
         for (; i < 2;) {\n\
           print i;\n\
           i = i + 1;\n\
         }",
    );
    assert_eq!(out, vec!["0", "1"]);
}
