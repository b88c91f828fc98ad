use uci_front::eval::{Eval, EvalError};
use uci_front::numeral::is_numeral_text;

fn scores(eval: &Eval) -> [f64; 3] {
    [
        eval.evals[0].parse::<f64>().unwrap(),
        eval.evals[1].parse::<f64>().unwrap(),
        eval.evals[2].parse::<f64>().unwrap(),
    ]
}

#[test]
fn last_three_scores_in_reverse() {
    let block = "header\n... 0 0.10 0\n... 0 0.20 0\n... 0 0.30 0\nFinal evaluation: none\n";
    let eval = Eval::parse(block).unwrap();
    assert_eq!(scores(&eval), [0.30, 0.20, 0.10]);
    assert_eq!(eval.evals, [String::from("0.30"), String::from("0.20"), String::from("0.10")]);
    assert_eq!(eval.length, 5);
}

#[test]
fn third_field_is_taken() {
    let block = "x y 1.5\nx y -2 z\n  x\ty\t+3e2   tail\nlast";
    let eval = Eval::parse(block).unwrap();
    assert_eq!(scores(&eval), [300.0, -2.0, 1.5]);
    assert_eq!(eval.length, 4);
}

#[test]
fn exactly_four_lines() {
    let eval = Eval::parse("a b 1\na b 2\na b 3\n\n").unwrap();
    assert_eq!(eval.evals, [String::from("3"), String::from("2"), String::from("1")]);
    assert_eq!(eval.length, 4);
}

#[test]
fn length_counts_every_line() {
    let mut block = String::new();
    for i in 0..72 {
        block.push_str(&format!("row {i} {i}.25 rest\n"));
    }
    let eval = Eval::parse(&block).unwrap();
    assert_eq!(eval.length, 72);
    assert_eq!(eval.length, block.lines().count());
    assert_eq!(scores(&eval), [70.25, 69.25, 68.25]);
}

#[test]
fn carriage_returns_do_not_reach_the_scores() {
    let eval = Eval::parse("a b 1\r\na b 2\r\na b 3\r\nend\r\n").unwrap();
    assert_eq!(eval.evals, [String::from("3"), String::from("2"), String::from("1")]);
    assert_eq!(eval.length, 4);
}

#[test]
fn too_few_lines() {
    assert_eq!(Eval::parse(""), Err(EvalError::TooFewLines));
    assert_eq!(Eval::parse("a b 1\na b 2\na b 3\n"), Err(EvalError::TooFewLines));
    assert_eq!(Eval::parse("a b 1\na b 2\na b 3"), Err(EvalError::TooFewLines));
}

#[test]
fn field_missing() {
    assert_eq!(Eval::parse("a b 1\na b\na b 3\nend\n"), Err(EvalError::FieldMissing));
    assert_eq!(Eval::parse("\n\n\n\n"), Err(EvalError::FieldMissing));
    assert_eq!(Eval::parse("a b 1\na b 2\n   \nend\n"), Err(EvalError::FieldMissing));
}

#[test]
fn not_numeric() {
    assert_eq!(Eval::parse("a b 1\na b two\na b 3\nend\n"), Err(EvalError::NotNumeric));
    assert_eq!(Eval::parse("a b 1\na b 2\na b 3,5\nend\n"), Err(EvalError::NotNumeric));
    assert_eq!(Eval::parse("a b 1e\na b 2\na b 3\nend\n"), Err(EvalError::NotNumeric));
}

#[test]
fn the_first_line_is_not_a_score_line() {
    assert_eq!(
        Eval::parse("no numbers here\na b 1\na b 2\na b 3\nend").map(|e| e.evals),
        Ok([String::from("3"), String::from("2"), String::from("1")])
    );
}

#[test]
fn numerals_are_what_the_standard_library_reads() {
    let samples = [
        "0", "1", "-1", "+1", "0.10", "-0.5", ".5", "5.", "+.5", "-5.", "1e5", "1E5", "1e+5", "1e-5",
        "1.5e10", ".5e1", "5.e1", "inf", "-inf", "+inf", "Infinity", "INFINITY", "infinity", "nan",
        "NaN", "-nan", "+NAN", "123456789012345678901234567890", "0000.0000", "1e400", "",
        "+", "-", ".", "+.", "-.", "e", "e5", ".e5", "1e", "1e+", "1e-", "1e5.0", "1.2.3", "--1",
        "+-1", "1-", "1+", "0x10", "1_000", "1,5", " 1", "1 ", "in", "infinit", "infinityy", "na",
        "nan1", "1f", "1.5f", "abc", "1e5e5", "1.e", "\u{663}", "\u{ff11}",
    ];
    for s in samples {
        assert_eq!(is_numeral_text(s), s.parse::<f64>().is_ok(), "{s:?}");
    }
}
