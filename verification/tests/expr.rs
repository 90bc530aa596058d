use whipplescript::errors::InterpreterError;
use whipplescript::cases::CasePattern;
use whipplescript::expr::{
    apply_assign, apply_let, check_expression_invariants, eval_expr, eval_path, select_case_arm, EvalEnv, Expr,
};
use whipplescript::json::Json;

fn to_json(v: &serde_json::Value) -> Json {
    match v {
        serde_json::Value::Null => Json::Null,
        serde_json::Value::Bool(b) => Json::Bool(*b),
        serde_json::Value::Number(n) => Json::Number(n.to_string()),
        serde_json::Value::String(s) => Json::Str(s.clone()),
        serde_json::Value::Array(items) => Json::Array(items.iter().map(to_json).collect()),
        serde_json::Value::Object(members) => {
            Json::Object(members.iter().map(|(k, v)| (k.clone(), to_json(v))).collect())
        }
    }
}

fn parse(text: &str) -> Json {
    to_json(&serde_json::from_str(text).expect("valid json"))
}

fn render(v: &Json) -> String {
    match v {
        Json::Null => "null".to_owned(),
        Json::Bool(b) => b.to_string(),
        Json::Number(n) => n.clone(),
        Json::Str(s) => format!("{s:?}"),
        Json::Array(items) => format!("[{}]", items.iter().map(render).collect::<Vec<_>>().join(",")),
        Json::Object(ms) => {
            format!("{{{}}}", ms.iter().map(|(k, v)| format!("{k:?}:{}", render(v))).collect::<Vec<_>>().join(","))
        }
    }
}

fn env() -> EvalEnv {
    EvalEnv {
        locals: vec![("item".to_owned(), parse(r#"{"title": "Bug", "tags": ["a", "b"]}"#))],
        event_binding: Some("evt".to_owned()),
        payload: parse(r#"{"run": {"id": "run-7", "attempt": 2}}"#),
        data: vec![
            ("count".to_owned(), parse("3")),
            ("user".to_owned(), parse(r#"{"status": "todo"}"#)),
            ("seen".to_owned(), parse(r#"["x"]"#)),
        ],
        now: 1_000,
    }
}

fn lit(text: &str) -> Expr {
    Expr::Literal(parse(text))
}

fn path(p: &str) -> Expr {
    Expr::Path(p.to_owned())
}

fn eval(e: &Expr) -> String {
    render(&eval_expr(e, &env()).expect("evaluates"))
}

#[test]
fn paths_read_locals_event_payload_and_data() {
    let env = env();
    assert_eq!(render(&eval_path("item.title", &env).unwrap()), "\"Bug\"");
    assert_eq!(render(&eval_path("item.tags.1", &env).unwrap()), "\"b\"");
    assert_eq!(render(&eval_path("evt.run.id", &env).unwrap()), "\"run-7\"");
    assert_eq!(render(&eval_path("data.user.status", &env).unwrap()), "\"todo\"");
    assert_eq!(render(&eval_path("data.count", &env).unwrap()), "3");
    assert!(matches!(eval_path("evt.run.missing", &env), Err(InterpreterError::MissingEventPath(p)) if p == "evt.run.missing"));
    assert!(matches!(eval_path("data.absent", &env), Err(InterpreterError::MissingDataPath(p)) if p == "data.absent"));
    assert!(matches!(eval_path("data.user.absent", &env), Err(InterpreterError::MissingDataPath(_))));
    assert!(matches!(eval_path("item.missing", &env), Err(InterpreterError::UnsupportedExpression)));
    assert!(matches!(eval_path("elsewhere", &env), Err(InterpreterError::UnsupportedExpression)));
}

#[test]
fn comparisons_logic_and_membership() {
    let eq = Expr::Eq(Box::new(path("data.user.status")), Box::new(lit("\"todo\"")));
    assert_eq!(eval(&eq), "true");
    assert_eq!(eval(&Expr::Lt(Box::new(path("data.count")), Box::new(lit("10")))), "true");
    assert_eq!(eval(&Expr::Gte(Box::new(lit("\"5m\"")), Box::new(lit("60000")))), "true");
    assert_eq!(eval(&Expr::Lt(Box::new(lit("\"apple\"")), Box::new(lit("\"banana\"")))), "true");
    assert_eq!(eval(&Expr::Lt(Box::new(lit("-2")), Box::new(lit("1")))), "true");
    assert!(eval_expr(&Expr::Lt(Box::new(lit("true")), Box::new(lit("1"))), &env()).is_err());
    assert_eq!(eval(&Expr::In(Box::new(lit("\"a\"")), Box::new(path("item.tags")))), "true");
    assert_eq!(eval(&Expr::In(Box::new(lit("\"title\"")), Box::new(path("item")))), "true");
    assert_eq!(eval(&Expr::And(vec![lit("true"), lit("false"), lit("3")])), "false");
    assert_eq!(eval(&Expr::Or(vec![lit("false"), lit("true"), lit("3")])), "true");
    assert!(matches!(
        eval_expr(&Expr::And(vec![lit("3")]), &env()),
        Err(InterpreterError::GuardNotBoolean)
    ));
    assert_eq!(eval(&Expr::Not(Box::new(lit("false")))), "true");
}

#[test]
fn objects_lists_calls_and_templates() {
    let obj = Expr::Object(vec![("b".to_owned(), lit("1")), ("a".to_owned(), path("evt.run.attempt"))]);
    assert_eq!(eval(&obj), "{\"a\":2,\"b\":1}");
    assert_eq!(eval(&Expr::List(vec![lit("1"), path("data.count")])), "[1,3]");
    let len = Expr::Call { name: "list.length".to_owned(), args: vec![path("item.tags")] };
    assert_eq!(eval(&len), "2");
    let append = Expr::Call { name: "data.seen.append".to_owned(), args: vec![lit("\"y\"")] };
    assert_eq!(eval(&append), "[\"x\",\"y\"]");
    let remove = Expr::Call { name: "data.seen.remove".to_owned(), args: vec![lit("\"x\"")] };
    assert_eq!(eval(&remove), "[]");
    assert_eq!(eval(&Expr::Call { name: "now".to_owned(), args: vec![] }), "1000");
    assert!(eval_expr(&Expr::Call { name: "unknown".to_owned(), args: vec![] }, &env()).is_err());
    assert_eq!(eval(&lit("\"Run {{ evt.run.id }} try {{evt.run.attempt}}\"")), "\"Run run-7 try 2\"");
    assert_eq!(eval(&lit("\" {{ data.user }} \"")), "{\"status\":\"todo\"}");
    assert!(eval_expr(&lit("\"open {{ evt.run.id\""), &env()).is_err());
    assert!(eval_expr(&lit("\"bad {{ a b }}\""), &env()).is_err());
}

#[test]
fn assignments_write_declared_data_and_leave_it_unchanged_on_error() {
    let env = env();
    let mut data = env.data.iter().map(|(k, v)| (k.clone(), v.deep_clone())).collect::<Vec<_>>();
    let declared = vec!["count".to_owned(), "seen".to_owned(), "user".to_owned(), "stats".to_owned()];
    let defaults = vec![];
    apply_assign(&mut data, &declared, &defaults, "data.user.status", &lit("\"done\""), &env).expect("nested assign");
    let user = data.iter().find(|(k, _)| k == "user").map(|(_, v)| render(v));
    assert_eq!(user.as_deref(), Some("{\"status\":\"done\"}"));
    apply_assign(&mut data, &declared, &defaults, "data.stats.runs", &lit("1"), &env).expect("creates the root");
    let stats = data.iter().find(|(k, _)| k == "stats").map(|(_, v)| render(v));
    assert_eq!(stats.as_deref(), Some("{\"runs\":1}"));
    apply_assign(&mut data, &declared, &defaults, "data.count", &path("evt.run.attempt"), &env).expect("top field");
    assert_eq!(data.iter().find(|(k, _)| k == "count").map(|(_, v)| render(v)).as_deref(), Some("2"));
    let before = data.iter().map(|(k, v)| format!("{k}={}", render(v))).collect::<Vec<_>>();
    assert!(matches!(
        apply_assign(&mut data, &declared, &defaults, "data.unknown", &lit("1"), &env),
        Err(InterpreterError::UndeclaredDataField(f)) if f == "unknown"
    ));
    assert!(matches!(
        apply_assign(&mut data, &declared, &defaults, "local.x", &lit("1"), &env),
        Err(InterpreterError::InvalidAssignTarget(t)) if t == "local.x"
    ));
    assert!(apply_assign(&mut data, &declared, &defaults, "data.count.inner", &lit("1"), &env).is_err());
    let after = data.iter().map(|(k, v)| format!("{k}={}", render(v))).collect::<Vec<_>>();
    assert_eq!(before, after);
}

#[test]
fn case_steps_take_the_first_matching_arm_and_let_binds_locals() {
    let env = env();
    let arms = vec![
        CasePattern::Identifier { name: "done".to_owned() },
        CasePattern::Matches { pattern: "to*".to_owned() },
        CasePattern::Wildcard,
    ];
    assert_eq!(select_case_arm(&path("data.user.status"), &arms, &env).expect("evaluates"), Some(1));
    let two = vec![CasePattern::Identifier { name: "done".to_owned() }, CasePattern::Matches { pattern: "to*".to_owned() }];
    assert_eq!(select_case_arm(&lit("\"other\""), &two, &env).expect("evaluates"), None);
    assert!(select_case_arm(&path("data.absent"), &arms, &env).is_err());
    let mut locals = vec![];
    apply_let(&mut locals, "n", &path("data.count"), &env).expect("binds");
    assert_eq!(locals.len(), 1);
    assert_eq!(render(&locals[0].1), "3");
    assert!(apply_let(&mut locals, "m", &path("nowhere"), &env).is_err());
    assert_eq!(locals.len(), 1);
}

#[test]
fn expression_invariants_must_hold_and_be_boolean() {
    let mut env = env();
    env.locals = vec![];
    env.event_binding = None;
    let small = Expr::Lt(Box::new(path("data.count")), Box::new(lit("10")));
    let big = Expr::Gt(Box::new(path("data.count")), Box::new(lit("10")));
    assert!(check_expression_invariants(&vec![("small".to_owned(), small)], &env).is_ok());
    assert!(matches!(
        check_expression_invariants(&vec![("big".to_owned(), big)], &env),
        Err(InterpreterError::InvariantViolated { name }) if name == "big"
    ));
    assert!(matches!(
        check_expression_invariants(&vec![("count".to_owned(), path("data.count"))], &env),
        Err(InterpreterError::InvariantNotBoolean { name }) if name == "count"
    ));
}
