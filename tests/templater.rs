use rss_templater::templater::{parse_expr, template, validate_vars, Error, Expr};
use rss_templater::value::{TemplateVar, Vars};

#[test]
fn template_int() {
    let template_text = "Hello world!\n\
		We've already had { visitors } visits!";

    let expected = "Hello world!\n\
		We've already had 143 visits!";

    let mut vars = Vars::new();
    vars.insert("visitors".to_string(), 143_i64.into());
    let result = template(template_text, vars).unwrap();
    assert_eq!(result, expected);
}

fn one(name: &str, value: TemplateVar) -> Vars {
    let mut vars = Vars::new();
    vars.insert(name.to_string(), value);
    vars
}

#[test]
fn literal_text_is_unchanged() {
    let r = template("no placeholders here", Vars::new()).unwrap();
    assert_eq!(r, "no placeholders here");
}

#[test]
fn variable_substitution() {
    let vars = one("name", "Ann".to_string().into());
    assert_eq!(template("Hi { name }!", vars).unwrap(), "Hi Ann!");
}

#[test]
fn integer_formatting() {
    let vars = one("n", 143_i64.into());
    assert_eq!(template("{ n }", vars).unwrap(), "143");
}

#[test]
fn negative_and_extreme_integers() {
    let vars = one("n", (-7_i64).into());
    assert_eq!(template("{n}", vars).unwrap(), "-7");
    let vars = one("n", i64::MIN.into());
    assert_eq!(template("{n}", vars).unwrap(), "-9223372036854775808");
    let vars = one("n", i64::MAX.into());
    assert_eq!(template("{n}", vars).unwrap(), "9223372036854775807");
    let vars = one("n", 0_i64.into());
    assert_eq!(template("{n}", vars).unwrap(), "0");
}

#[test]
fn escaped_brace() {
    assert_eq!(template("{{ literal", Vars::new()).unwrap(), "{ literal");
    assert_eq!(template("a{{", Vars::new()).unwrap(), "a{");
}

#[test]
fn closing_brace_alone_is_text() {
    assert_eq!(template("a } b }}", Vars::new()).unwrap(), "a } b }}");
}

#[test]
fn unknown_variable_fails() {
    let r = template("{ missing }", Vars::new());
    assert!(matches!(r, Err(Error::VariableNotFound(ref n)) if n == "missing"));
}

#[test]
fn reserved_keyword_rejected_before_scanning() {
    let vars = one("foreach", "y".to_string().into());
    let r = template("x", vars);
    assert!(matches!(r, Err(Error::ReservedKeyword(ref n)) if n == "foreach"));
    let vars = one("endfor", 1_i64.into());
    let r = template("{ unterminated", vars);
    assert!(matches!(r, Err(Error::ReservedKeyword(ref n)) if n == "endfor"));
}

#[test]
fn first_reserved_name_is_reported() {
    let mut vars = Vars::new();
    vars.insert("a".to_string(), 1_i64.into());
    vars.insert("endfor".to_string(), 1_i64.into());
    vars.insert("foreach".to_string(), 1_i64.into());
    assert!(matches!(validate_vars(&vars), Err(Error::ReservedKeyword(ref n)) if n == "endfor"));
    assert!(validate_vars(&one("fine", 1_i64.into())).is_ok());
}

#[test]
fn unterminated_placeholder() {
    let vars = one("name", "x".to_string().into());
    let r = template("Hello { name", vars);
    assert!(matches!(r, Err(Error::MissingClosingBrace)));
    assert!(matches!(template("{", Vars::new()), Err(Error::MissingClosingBrace)));
}

#[test]
fn multi_token_body_is_invalid() {
    let r = template("{ a b }", Vars::new());
    assert!(matches!(r, Err(Error::InvalidExpressionSyntax)));
}

#[test]
fn empty_body_is_reported() {
    assert!(matches!(template("{}", Vars::new()), Err(Error::EmptyExpression)));
    assert!(matches!(template("{ \t }", Vars::new()), Err(Error::EmptyExpression)));
}

#[test]
fn list_and_object_have_no_text() {
    let vars = one("xs", vec![TemplateVar::from(1_i64)].into());
    let r = template("{ xs }", vars);
    assert!(matches!(r, Err(Error::UnsupportedValueShape(ref n)) if n == "xs"));
    let vars = one("o", Vars::new().into());
    let r = template("{ o }", vars);
    assert!(matches!(r, Err(Error::UnsupportedValueShape(ref n)) if n == "o"));
}

#[test]
fn loop_markers_fail_cleanly() {
    let vars = one("nums", vec![TemplateVar::from(1_i64)].into());
    let r = template("a { foreach nums } b { endfor }", vars);
    assert!(matches!(r, Err(Error::LoopNotSupported)));
    assert!(matches!(template("{ endfor }", Vars::new()), Err(Error::LoopNotSupported)));
}

#[test]
fn first_error_wins() {
    let r = template("{ missing } { a b }", Vars::new());
    assert!(matches!(r, Err(Error::VariableNotFound(_))));
}

#[test]
fn float_text_is_rendered_as_given() {
    let vars = one("f", TemplateVar::Float(format!("{}", 2.5_f64)));
    assert_eq!(template("{f}", vars).unwrap(), "2.5");
}

#[test]
fn non_ascii_text_is_kept() {
    let vars = one("n", "é".to_string().into());
    assert_eq!(template("ü{ n }ß", vars).unwrap(), "üéß");
}

#[test]
fn rendering_is_idempotent() {
    let vars = one("name", "Ann".to_string().into());
    let once = template("Hi { name }, }", vars).unwrap();
    let again = template(&once, one("name", "Bob".to_string().into())).unwrap();
    assert_eq!(once, again);
    let empty_again = template(&once, Vars::new()).unwrap();
    assert_eq!(once, empty_again);
}

#[test]
fn integer_text_parses_back() {
    for v in [0_i64, 9, 10, -1, 143, 19999, i64::MIN, i64::MAX] {
        let s = template("{v}", one("v", v.into())).unwrap();
        assert_eq!(s.parse::<i64>().unwrap(), v);
    }
    let s = template("{v}", one("v", "a b {".to_string().into())).unwrap();
    assert_eq!(s, "a b {");
    let f = 0.1_f64 + 0.2_f64;
    let s = template("{v}", one("v", TemplateVar::Float(format!("{}", f)))).unwrap();
    assert_eq!(s.parse::<f64>().unwrap(), f);
}

#[test]
fn parse_expr_forms() {
    assert!(matches!(parse_expr("name"), Ok(Expr::VarAccess(ref n)) if n == "name"));
    assert!(matches!(parse_expr("  name \n"), Ok(Expr::VarAccess(ref n)) if n == "name"));
    assert!(matches!(parse_expr("endfor"), Ok(Expr::EndFor)));
    assert!(matches!(parse_expr("foreach  items "), Ok(Expr::ForEach(ref n)) if n == "items"));
    assert!(matches!(parse_expr("foreach"), Err(Error::InvalidExpressionSyntax)));
    assert!(matches!(parse_expr("foreach a b"), Err(Error::InvalidExpressionSyntax)));
    assert!(matches!(parse_expr("endfor x"), Err(Error::InvalidExpressionSyntax)));
    assert!(matches!(parse_expr("foreachx y"), Err(Error::InvalidExpressionSyntax)));
    assert!(matches!(parse_expr(""), Err(Error::EmptyExpression)));
}

#[test]
fn vars_insert_replaces() {
    let mut vars = Vars::new();
    assert!(vars.insert("a".to_string(), 1_i64.into()).is_none());
    let old = vars.insert("a".to_string(), 2_i64.into());
    assert!(matches!(old, Some(TemplateVar::Int(1))));
    assert_eq!(vars.len(), 1);
    assert_eq!(template("{a}", vars).unwrap(), "2");
}
