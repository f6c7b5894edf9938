use mew::{ErrorKind, Environment};

fn s(x: &str) -> String {
    x.to_string()
}

#[test]
fn block_binding_is_gone_after_the_block() {
    let mut sc: Environment<i64> = Environment::new();
    let global = 0;
    let block = sc.with_enclosing(global);
    sc.define(block, s("inner"), 5, false);
    assert_eq!(*sc.get(block, &s("inner")).unwrap(), 5);
    assert_eq!(sc.get(global, &s("inner")).unwrap_err().kind(), ErrorKind::Name);
}

#[test]
fn assigning_an_undefined_name_is_a_name_error() {
    let mut sc: Environment<i64> = Environment::new();
    let e = sc.assign(0, &s("nope"), 1).unwrap_err();
    assert_eq!(e.kind(), ErrorKind::Name);
    assert_eq!(sc.get(0, &s("nope")).unwrap_err().kind(), ErrorKind::Name);
}

#[test]
fn assigning_a_constant_is_a_runtime_error() {
    let mut sc: Environment<i64> = Environment::new();
    sc.define(0, s("k"), 1, true);
    let inner = sc.with_enclosing(0);
    let e = sc.assign(inner, &s("k"), 2).unwrap_err();
    assert_eq!(e.kind(), ErrorKind::Runtime);
    assert_eq!(*sc.get(0, &s("k")).unwrap(), 1);
}

#[test]
fn assign_walks_outward_and_creates_nothing() {
    let mut sc: Environment<i64> = Environment::new();
    sc.define(0, s("x"), 1, false);
    let a = sc.with_enclosing(0);
    let b = sc.with_enclosing(a);
    sc.assign(b, &s("x"), 7).unwrap();
    assert_eq!(*sc.get(0, &s("x")).unwrap(), 7);
    assert_eq!(*sc.get(b, &s("x")).unwrap(), 7);
}

#[test]
fn inner_definition_shadows_outer() {
    let mut sc: Environment<i64> = Environment::new();
    sc.define(0, s("x"), 1, false);
    let inner = sc.with_enclosing(0);
    sc.define(inner, s("x"), 2, false);
    assert_eq!(*sc.get(inner, &s("x")).unwrap(), 2);
    assert_eq!(*sc.get(0, &s("x")).unwrap(), 1);
    sc.assign(inner, &s("x"), 3).unwrap();
    assert_eq!(*sc.get(0, &s("x")).unwrap(), 1);
    assert_eq!(*sc.get(inner, &s("x")).unwrap(), 3);
}

#[test]
fn redefinition_in_one_frame_overwrites() {
    let mut sc: Environment<i64> = Environment::new();
    sc.define(0, s("c"), 1, true);
    sc.define(0, s("c"), 2, false);
    assert_eq!(*sc.get(0, &s("c")).unwrap(), 2);
    sc.assign(0, &s("c"), 3).unwrap();
    assert_eq!(*sc.get(0, &s("c")).unwrap(), 3);
}

#[test]
fn sibling_frames_do_not_see_each_other() {
    let mut sc: Environment<i64> = Environment::new();
    let a = sc.with_enclosing(0);
    let b = sc.with_enclosing(0);
    sc.define(a, s("v"), 1, false);
    assert_eq!(sc.get(b, &s("v")).unwrap_err().kind(), ErrorKind::Name);
    assert_eq!(sc.frame_count(), 3);
}

#[test]
fn fresh_constant_per_frame_keeps_its_own_value() {
    // one frame per loop iteration, each with its own constant `x`
    let mut sc: Environment<i64> = Environment::new();
    let mut frames = Vec::new();
    for v in 0..3 {
        let f = sc.with_enclosing(0);
        sc.define(f, s("x"), v, true);
        frames.push(f);
    }
    let seen: Vec<i64> = frames.iter().map(|f| *sc.get(*f, &s("x")).unwrap()).collect();
    assert_eq!(seen, vec![0, 1, 2]);
}

#[test]
fn shared_variable_shows_its_last_value_everywhere() {
    // one outer variable `x`, assigned from each iteration's frame
    let mut sc: Environment<i64> = Environment::new();
    let outer = sc.with_enclosing(0);
    sc.define(outer, s("x"), -1, false);
    let mut frames = Vec::new();
    for v in 0..3 {
        let f = sc.with_enclosing(outer);
        sc.assign(f, &s("x"), v).unwrap();
        frames.push(f);
    }
    let seen: Vec<i64> = frames.iter().map(|f| *sc.get(*f, &s("x")).unwrap()).collect();
    assert_eq!(seen, vec![2, 2, 2]);
}
