use jsparser::expr::{Expr, Variable};
use jsparser::scope::Scopes;

fn name(s: &str) -> String {
    s.to_string()
}

#[test]
fn read_after_declaration() {
    let mut s: Scopes<i64> = Scopes::new();
    assert_eq!(s.bind_local_arg(Some(Variable::Let), name("a"), 1), Ok(()));
    assert_eq!(s.get_value(&name("a")), Some(&1));
    assert_eq!(s.get_value(&name("b")), None);
}

#[test]
fn assignment_replaces_the_value() {
    let mut s: Scopes<i64> = Scopes::new();
    assert_eq!(s.bind_local_arg(Some(Variable::Let), name("a"), 1), Ok(()));
    assert_eq!(s.bind_local_arg(None, name("a"), 5), Ok(()));
    assert_eq!(s.get_value(&name("a")), Some(&5));
}

#[test]
fn redeclaring_a_let_is_refused() {
    let mut s: Scopes<i64> = Scopes::new();
    assert_eq!(s.bind_local_arg(Some(Variable::Let), name("a"), 1), Ok(()));
    assert_eq!(
        s.bind_local_arg(Some(Variable::Let), name("a"), 2),
        Err(name("Uncaught TypeError: Assignment to constant variable."))
    );
    assert_eq!(s.get_value(&name("a")), Some(&1));
}

#[test]
fn redeclaring_a_const_as_var_is_refused() {
    let mut s: Scopes<i64> = Scopes::new();
    assert_eq!(s.bind_local_arg(Some(Variable::Const), name("c"), 1), Ok(()));
    assert!(s.bind_local_arg(Some(Variable::Var), name("c"), 2).is_err());
    assert_eq!(s.get_value(&name("c")), Some(&1));
}

#[test]
fn redeclaring_a_var_is_allowed() {
    let mut s: Scopes<i64> = Scopes::new();
    assert_eq!(s.bind_local_arg(Some(Variable::Var), name("v"), 1), Ok(()));
    assert_eq!(s.bind_local_arg(Some(Variable::Var), name("v"), 2), Ok(()));
    assert_eq!(s.get_value(&name("v")), Some(&2));
}

#[test]
fn inner_frame_reads_outer_names() {
    let mut s: Scopes<i64> = Scopes::new();
    assert_eq!(s.bind_local_arg(Some(Variable::Let), name("a"), 1), Ok(()));
    s.update_index(true);
    assert_eq!(s.get_value(&name("a")), Some(&1));
    assert_eq!(s.bind_local_arg(None, name("a"), 7), Ok(()));
    s.update_index(false);
    assert_eq!(s.get_value(&name("a")), Some(&7));
}

#[test]
fn leaving_at_the_bottom_frame_keeps_it() {
    let mut s: Scopes<i64> = Scopes::new();
    assert_eq!(s.bind_local_arg(Some(Variable::Let), name("a"), 3), Ok(()));
    s.update_index(false);
    assert_eq!(s.get_value(&name("a")), Some(&3));
}

#[test]
fn parameters_read_their_values() {
    let mut s: Scopes<i64> = Scopes::new();
    s.update_index(true);
    let params = vec![Expr::Identifier(name("x")), Expr::Identifier(name("y"))];
    s.bind_local_args(Variable::Var, &params, vec![10, 20]);
    assert_eq!(s.get_value(&name("x")), Some(&10));
    assert_eq!(s.get_value(&name("y")), Some(&20));
    s.update_index(false);
    assert_eq!(s.get_value(&name("x")), None);
}

#[test]
fn parameters_shadow_outer_names() {
    let mut s: Scopes<i64> = Scopes::new();
    assert_eq!(s.bind_local_arg(Some(Variable::Let), name("x"), 1), Ok(()));
    s.update_index(true);
    s.bind_local_args(Variable::Var, &vec![Expr::Identifier(name("x"))], vec![2]);
    assert_eq!(s.get_value(&name("x")), Some(&2));
    s.update_index(false);
    assert_eq!(s.get_value(&name("x")), Some(&1));
}

#[test]
fn a_later_parameter_of_the_same_name_wins() {
    let mut s: Scopes<i64> = Scopes::new();
    s.update_index(true);
    let params = vec![Expr::Identifier(name("x")), Expr::Identifier(name("x"))];
    s.bind_local_args(Variable::Var, &params, vec![1, 2]);
    assert_eq!(s.get_value(&name("x")), Some(&2));
}

#[test]
fn a_block_declaration_is_gone_after_the_block() {
    let mut s: Scopes<i64> = Scopes::new();
    s.update_index(true);
    assert_eq!(s.bind_local_arg(Some(Variable::Let), name("i"), 0), Ok(()));
    assert_eq!(s.bind_local_arg(None, name("i"), 2), Ok(()));
    assert_eq!(s.get_value(&name("i")), Some(&2));
    s.update_index(false);
    assert_eq!(s.get_value(&name("i")), None);
}

#[test]
fn a_block_declaration_shadows_an_outer_one() {
    let mut s: Scopes<i64> = Scopes::new();
    assert_eq!(s.bind_local_arg(Some(Variable::Let), name("x"), 1), Ok(()));
    s.update_index(true);
    assert_eq!(s.bind_local_arg(Some(Variable::Let), name("x"), 2), Ok(()));
    assert_eq!(s.get_value(&name("x")), Some(&2));
    s.update_index(false);
    assert_eq!(s.get_value(&name("x")), Some(&1));
}

#[test]
fn assigning_an_unknown_name_binds_it_globally() {
    let mut s: Scopes<i64> = Scopes::new();
    s.update_index(true);
    assert_eq!(s.bind_local_arg(None, name("g"), 5), Ok(()));
    s.update_index(false);
    assert_eq!(s.get_value(&name("g")), Some(&5));
}

#[test]
fn var_over_an_outer_let_is_refused() {
    let mut s: Scopes<i64> = Scopes::new();
    assert_eq!(s.bind_local_arg(Some(Variable::Let), name("n"), 1), Ok(()));
    s.update_index(true);
    assert_eq!(
        s.bind_local_arg(Some(Variable::Var), name("n"), 2),
        Err(name("Uncaught TypeError: Assignment to constant variable."))
    );
    assert_eq!(s.get_value(&name("n")), Some(&1));
}

#[test]
fn var_over_an_outer_var_updates_it() {
    let mut s: Scopes<i64> = Scopes::new();
    assert_eq!(s.bind_local_arg(Some(Variable::Var), name("n"), 1), Ok(()));
    s.update_index(true);
    assert_eq!(s.bind_local_arg(Some(Variable::Var), name("n"), 2), Ok(()));
    s.update_index(false);
    assert_eq!(s.get_value(&name("n")), Some(&2));
}
