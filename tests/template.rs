use gerber::primitive::Decimal;
use gerber::template::{
    evaluate, parse_template, EvalError, ExprError, MacroStatement, Value,
};

fn ints(v: &[i64]) -> Vec<Decimal> {
    v.iter().map(|&m| Decimal::new(m, 0)).collect()
}

#[test]
fn circle_with_unbound_variable() {
    let t = parse_template(b"1,1,$1,$2,$3*").unwrap();
    let params = vec![Decimal::new(1, 0), Decimal::new(5, 1)];
    assert_eq!(
        evaluate(&t, &params),
        Err(EvalError::Statement(0, ExprError::Unbound(3)))
    );
}

#[test]
fn circle_with_all_parameters() {
    let t = parse_template(b"1,1,$1,$2,$3*").unwrap();
    let shapes = evaluate(&t, &ints(&[1, 0, 0])).unwrap();
    assert_eq!(shapes.len(), 1);
    assert_eq!(shapes[0].code, 1);
    assert_eq!(
        shapes[0].values,
        vec![
            Value { num: 1, den: 1 },
            Value { num: 1, den: 1 },
            Value { num: 0, den: 1 },
            Value { num: 0, den: 1 }
        ]
    );
}

#[test]
fn arithmetic_precedence() {
    let t = parse_template(b"4,1+2x3,(1+2)x3,-$1/4,8-2-1*").unwrap();
    let shapes = evaluate(&t, &ints(&[2])).unwrap();
    let v: Vec<f64> = shapes[0].values.iter().map(|x| x.num as f64 / x.den as f64).collect();
    assert_eq!(v, vec![7.0, 9.0, -0.5, 5.0]);
}

#[test]
fn assignment_affects_later_statements() {
    let t = parse_template(b"$2=$1x2*\n1,1,$2*\n$2=0*\n1,1,$2*").unwrap();
    assert_eq!(t.len(), 4);
    assert!(matches!(t[0], MacroStatement::Assign(2, _)));
    let shapes = evaluate(&t, &ints(&[3])).unwrap();
    assert_eq!(shapes.len(), 2);
    assert_eq!(shapes[0].values[1], Value { num: 6, den: 1 });
    assert_eq!(shapes[1].values[1], Value { num: 0, den: 1 });
}

#[test]
fn division_by_zero() {
    let t = parse_template(b"0 a comment*\n1,1,$1/0*").unwrap();
    assert_eq!(t.len(), 1);
    assert_eq!(
        evaluate(&t, &ints(&[1])),
        Err(EvalError::Statement(0, ExprError::DivisionByZero))
    );
}

#[test]
fn parameter_too_precise() {
    let t = parse_template(b"1,1,$1*").unwrap();
    let p = vec![Decimal::new(1, 19)];
    assert_eq!(evaluate(&t, &p), Err(EvalError::Parameter(1)));
}

#[test]
fn overflow_is_an_error() {
    let t = parse_template(b"1,$1x$1*").unwrap();
    assert_eq!(
        evaluate(&t, &ints(&[i64::MAX])),
        Err(EvalError::Statement(0, ExprError::Overflow))
    );
}

#[test]
fn bad_bodies() {
    assert!(parse_template(b"1,1,$1").is_none());
    assert!(parse_template(b"1,(1*").is_none());
    assert!(parse_template(b"$x=1*").is_none());
    assert_eq!(parse_template(b"").map(|t| t.len()), Some(0));
}

#[test]
fn unknown_primitive_code_is_refused() {
    assert!(parse_template(b"3,1,2*").is_none());
    assert!(parse_template(b"21,1,2,3,4,5,6*").is_some());
}
