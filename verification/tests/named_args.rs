use closure_transform::ast::{Expr, Literal};
use closure_transform::named_args::NamedArgs;

fn number(n: i64) -> Expr {
    Expr::Literal(Literal::Number(n))
}

#[test]
fn new_named_args_hold_nothing() {
    let args = NamedArgs::new();
    assert_eq!(args.len(), 0);
    assert!(args.get_index(0).is_none());
    assert!(args.into_entries().is_empty());
}

#[test]
fn new_names_go_to_the_end() {
    let mut args = NamedArgs::new();
    assert_eq!(args.insert("zeta".to_string(), number(1)), None);
    assert_eq!(args.insert("alpha".to_string(), number(2)), None);
    assert_eq!(args.insert("mid".to_string(), number(3)), None);
    assert_eq!(args.len(), 3);
    assert_eq!(args.get_index(0), Some((&"zeta".to_string(), &number(1))));
    assert_eq!(args.get_index(1), Some((&"alpha".to_string(), &number(2))));
    assert_eq!(args.get_index(2), Some((&"mid".to_string(), &number(3))));
    assert_eq!(args.get_index(3), None);
    assert_eq!(
        args.into_entries(),
        vec![("zeta".to_string(), number(1)), ("alpha".to_string(), number(2)), ("mid".to_string(), number(3))]
    );
}

#[test]
fn a_name_that_is_there_keeps_its_place() {
    let mut args = NamedArgs::new();
    args.insert("a".to_string(), number(1));
    args.insert("b".to_string(), number(2));
    assert_eq!(args.insert("a".to_string(), number(7)), Some(number(1)));
    assert_eq!(args.len(), 2);
    assert_eq!(args.into_entries(), vec![("a".to_string(), number(7)), ("b".to_string(), number(2))]);
}
