use env_map::str_map::StrMap;
use env_map::{load, EnvMap, EnvStore, EnvValue, Request, VarErrorKind};

fn text(s: &str) -> EnvValue {
    EnvValue::Text(s.to_string())
}

fn get_text(env: &EnvStore, name: &str) -> Option<String> {
    match env.get(&name.to_string()) {
        Some(EnvValue::Text(s)) => Some(s.clone()),
        _ => None,
    }
}

#[test]
fn empty_request_succeeds_empty() {
    let req: Request = StrMap::new();
    let mut env: EnvStore = StrMap::new();
    match load(&req, &mut env) {
        Ok(m) => assert_eq!(m.len(), 0),
        Err(_) => panic!("empty request must succeed"),
    }
    assert_eq!(env.len(), 0);
}

#[test]
fn all_present_resolves_current_values() {
    let mut req: Request = StrMap::new();
    req.insert("A".to_string(), None);
    req.insert("B".to_string(), Some("unused default".to_string()));
    let mut env: EnvStore = StrMap::new();
    env.insert("A".to_string(), text("1"));
    env.insert("B".to_string(), text("2"));
    let m: EnvMap = match load(&req, &mut env) {
        Ok(m) => m,
        Err(_) => panic!("all names are present and decodable"),
    };
    assert_eq!(m.len(), 2);
    assert_eq!(m.get(&"A".to_string()).unwrap().as_str(), "1");
    assert_eq!(m.get(&"B".to_string()).unwrap().as_str(), "2");
    // The store is untouched: no default was needed.
    assert_eq!(env.len(), 2);
    assert_eq!(get_text(&env, "B").unwrap(), "2");
}

#[test]
fn absent_with_default_resolves_and_writes_back() {
    let mut req: Request = StrMap::new();
    req.insert("OPTIONAL".to_string(), Some("fallback".to_string()));
    let mut env: EnvStore = StrMap::new();
    let m = match load(&req, &mut env) {
        Ok(m) => m,
        Err(_) => panic!("a defaulted absent name must resolve"),
    };
    assert_eq!(m.len(), 1);
    assert_eq!(m.get(&"OPTIONAL".to_string()).unwrap().as_str(), "fallback");
    // Write-back is durable: an independent read of the store finds it.
    assert_eq!(get_text(&env, "OPTIONAL").unwrap(), "fallback");
}

#[test]
fn absent_without_default_is_not_present() {
    let mut req: Request = StrMap::new();
    req.insert("REQUIRED".to_string(), None);
    let mut env: EnvStore = StrMap::new();
    let e = match load(&req, &mut env) {
        Ok(_) => panic!("a missing required name must fail"),
        Err(e) => e,
    };
    let errors = e.env_errors();
    assert_eq!(errors.len(), 1);
    assert_eq!(
        *errors.get(&"REQUIRED".to_string()).unwrap(),
        VarErrorKind::NotPresent
    );
}

#[test]
fn present_undecodable_fails_despite_default() {
    let mut req: Request = StrMap::new();
    req.insert("BINARY".to_string(), Some("default".to_string()));
    let mut env: EnvStore = StrMap::new();
    env.insert("BINARY".to_string(), EnvValue::NotText);
    let e = match load(&req, &mut env) {
        Ok(_) => panic!("an undecodable present value must fail"),
        Err(e) => e,
    };
    assert_eq!(e.env_errors().len(), 1);
    assert_eq!(
        *e.env_errors().get(&"BINARY".to_string()).unwrap(),
        VarErrorKind::NotValidText
    );
    // The default was not written: the stored value stays undecodable.
    assert!(matches!(
        env.get(&"BINARY".to_string()),
        Some(EnvValue::NotText)
    ));
}

#[test]
fn present_undecodable_fails_without_default() {
    let mut req: Request = StrMap::new();
    req.insert("BINARY".to_string(), None);
    let mut env: EnvStore = StrMap::new();
    env.insert("BINARY".to_string(), EnvValue::NotText);
    let e = match load(&req, &mut env) {
        Ok(_) => panic!("an undecodable present value must fail"),
        Err(e) => e,
    };
    assert_eq!(
        *e.env_errors().get(&"BINARY".to_string()).unwrap(),
        VarErrorKind::NotValidText
    );
}

#[test]
fn second_load_returns_identical_map() {
    let mut req: Request = StrMap::new();
    req.insert("A".to_string(), Some("1".to_string()));
    req.insert("B".to_string(), Some("2".to_string()));
    let mut env: EnvStore = StrMap::new();
    env.insert("B".to_string(), text("present"));
    let first = match load(&req, &mut env) {
        Ok(m) => m,
        Err(_) => panic!("every name is present or defaulted"),
    };
    // The first call wrote the default for A; the second finds it present.
    let second = match load(&req, &mut env) {
        Ok(m) => m,
        Err(_) => panic!("the second call must also succeed"),
    };
    assert_eq!(first.len(), second.len());
    for name in ["A", "B"] {
        assert_eq!(
            first.get(&name.to_string()).unwrap(),
            second.get(&name.to_string()).unwrap()
        );
    }
    assert_eq!(second.get(&"A".to_string()).unwrap().as_str(), "1");
    assert_eq!(second.get(&"B".to_string()).unwrap().as_str(), "present");
}

#[test]
fn failing_call_reports_every_error_together() {
    let mut req: Request = StrMap::new();
    req.insert("A".to_string(), None);
    req.insert("B".to_string(), Some("x".to_string()));
    req.insert("C".to_string(), None);
    let mut env: EnvStore = StrMap::new();
    env.insert("C".to_string(), EnvValue::NotText);
    let e = match load(&req, &mut env) {
        Ok(_) => panic!("two names must fail"),
        Err(e) => e,
    };
    let errors = e.env_errors();
    // Both failures are reported, not only the first.
    assert_eq!(errors.len(), 2);
    assert_eq!(*errors.get(&"A".to_string()).unwrap(), VarErrorKind::NotPresent);
    assert_eq!(*errors.get(&"C".to_string()).unwrap(), VarErrorKind::NotValidText);
    // The resolvable entry is not among the errors, and its default was
    // still written back even though the call as a whole failed.
    assert!(errors.get(&"B".to_string()).is_none());
    assert_eq!(get_text(&env, "B").unwrap(), "x");
}

#[test]
fn scenario_missing_and_defaulted() {
    // Request {"A": None, "B": Some("x")} against a store with neither set.
    let mut req: Request = StrMap::new();
    req.insert("A".to_string(), None);
    req.insert("B".to_string(), Some("x".to_string()));
    let mut env: EnvStore = StrMap::new();
    let e = match load(&req, &mut env) {
        Ok(_) => panic!("A is required and missing"),
        Err(e) => e,
    };
    assert_eq!(e.env_errors().len(), 1);
    assert_eq!(
        *e.env_errors().get(&"A".to_string()).unwrap(),
        VarErrorKind::NotPresent
    );
    assert_eq!(get_text(&env, "B").unwrap(), "x");
}

#[test]
fn scenario_single_present() {
    // Request {"A": None} against a store with A="1".
    let mut req: Request = StrMap::new();
    req.insert("A".to_string(), None);
    let mut env: EnvStore = StrMap::new();
    env.insert("A".to_string(), text("1"));
    let m = match load(&req, &mut env) {
        Ok(m) => m,
        Err(_) => panic!("A is present"),
    };
    assert_eq!(m.len(), 1);
    assert_eq!(m.get(&"A".to_string()).unwrap().as_str(), "1");
}

#[test]
fn error_message_is_fixed_summary() {
    let mut req: Request = StrMap::new();
    req.insert("A".to_string(), None);
    let mut env: EnvStore = StrMap::new();
    let e = match load(&req, &mut env) {
        Ok(_) => panic!("A is required and missing"),
        Err(e) => e,
    };
    assert_eq!(
        e.message(),
        "error(s) occurred loading environment variables"
    );
}

#[test]
fn insert_replaces_previous_value() {
    let mut env: EnvStore = StrMap::new();
    env.insert("A".to_string(), text("old"));
    env.insert("A".to_string(), text("new"));
    assert_eq!(env.len(), 1);
    assert_eq!(get_text(&env, "A").unwrap(), "new");
}

#[test]
fn keys_lists_each_name_once() {
    let mut req: Request = StrMap::new();
    req.insert("A".to_string(), None);
    req.insert("B".to_string(), None);
    req.insert("A".to_string(), Some("d".to_string()));
    let mut keys = req.keys();
    keys.sort();
    assert_eq!(keys, vec!["A".to_string(), "B".to_string()]);
}
