use lox::environment::Environment;
use lox::lox_value::LoxValue;

fn number(n: f64) -> LoxValue {
    LoxValue::Number(n.to_bits())
}

fn as_number(v: Option<LoxValue>) -> f64 {
    match v {
        Some(LoxValue::Number(bits)) => f64::from_bits(bits),
        other => panic!("not a number: {:?}", other),
    }
}

#[test]
fn define_then_get() {
    let mut env = Environment::new();
    env.define("a".to_string(), number(1.0));
    assert_eq!(as_number(env.get(&"a".to_string())), 1.0);
    assert!(env.get(&"b".to_string()).is_none());
}

#[test]
fn inner_definition_shadows_until_pop() {
    let mut env = Environment::new();
    env.define("a".to_string(), number(1.0));
    env.push();
    env.define("a".to_string(), number(2.0));
    assert_eq!(as_number(env.get(&"a".to_string())), 2.0);
    env.pop();
    assert_eq!(as_number(env.get(&"a".to_string())), 1.0);
}

#[test]
fn assign_updates_innermost_binding() {
    let mut env = Environment::new();
    env.define("a".to_string(), number(1.0));
    env.push();
    assert!(env.assign("a".to_string(), number(5.0)));
    env.pop();
    assert_eq!(as_number(env.get(&"a".to_string())), 5.0);
    assert!(!env.assign("missing".to_string(), number(0.0)));
}

#[test]
fn captured_frames_are_shared() {
    let mut env = Environment::new();
    env.push();
    env.define("x".to_string(), number(1.0));
    let captured = env.active();
    env.pop();
    assert!(env.get(&"x".to_string()).is_none());
    let outer = env.active();
    env.set_active(captured.clone());
    assert!(env.assign("x".to_string(), number(9.0)));
    env.set_active(outer);
    assert!(env.get(&"x".to_string()).is_none());
    env.set_active(captured);
    assert_eq!(as_number(env.get(&"x".to_string())), 9.0);
}
