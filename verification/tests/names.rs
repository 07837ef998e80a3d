use closure_transform::names::{
    closure_class_name, decimal_string, parent_this_name, CLOSURE_CLASS_PREFIX, HANDLE_METHOD_NAME,
    PARENT_THIS_NAME,
};

#[test]
fn numerals_are_decimal_without_leading_zeros() {
    assert_eq!(decimal_string(0), "0");
    assert_eq!(decimal_string(7), "7");
    assert_eq!(decimal_string(10), "10");
    assert_eq!(decimal_string(109), "109");
    assert_eq!(decimal_string(1234567890), "1234567890");
    assert_eq!(decimal_string(usize::MAX), usize::MAX.to_string());
}

#[test]
fn class_names_carry_the_prefix_and_the_number() {
    assert_eq!(CLOSURE_CLASS_PREFIX, "$Closure");
    assert_eq!(closure_class_name(1), "$Closure1");
    assert_eq!(closure_class_name(42), "$Closure42");
}

#[test]
fn capture_names_carry_the_stem_and_the_number() {
    assert_eq!(PARENT_THIS_NAME, "__parent_this");
    assert_eq!(parent_this_name(1), "__parent_this_1");
    assert_eq!(parent_this_name(120), "__parent_this_120");
}

#[test]
fn handler_method_is_named_handle() {
    assert_eq!(HANDLE_METHOD_NAME, "handle");
}
