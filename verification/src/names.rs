//! The fixed names that the conversion emits, and the numbered names it
//! derives from them.

use vstd::prelude::*;
use vstd::string::StringExecFns;

verus! {

/// Prefix of the name of every class that stands for a closure.
pub const CLOSURE_CLASS_PREFIX: &'static str = "$Closure";

/// Stem of the name of every binding that captures the enclosing `this`.
pub const PARENT_THIS_NAME: &'static str = "__parent_this";

/// Name of the single inflight method of a closure class.
pub const HANDLE_METHOD_NAME: &'static str = "handle";

/// The identifier that denotes the current instance.
pub const THIS_NAME: &'static str = "this";

/// Member of an instance that carries its display settings.
pub const DISPLAY_MEMBER: &'static str = "display";

/// Setting that marks an instance as an implementation detail.
pub const HIDDEN_MEMBER: &'static str = "hidden";

/// The character that writes the digit `d`.
pub open spec fn digit(d: nat) -> char
    recommends
        d < 10,
{
    if d == 0 {
        '0'
    } else if d == 1 {
        '1'
    } else if d == 2 {
        '2'
    } else if d == 3 {
        '3'
    } else if d == 4 {
        '4'
    } else if d == 5 {
        '5'
    } else if d == 6 {
        '6'
    } else if d == 7 {
        '7'
    } else if d == 8 {
        '8'
    } else {
        '9'
    }
}

/// The decimal numeral of `n`, most significant digit first, without leading
/// zeros.
pub open spec fn decimal(n: nat) -> Seq<char>
    decreases n,
{
    if n < 10 {
        seq![digit(n)]
    } else {
        decimal(n / 10).push(digit(n % 10))
    }
}

/// Name of the class that stands for the `n`-th converted closure.
pub open spec fn class_name(n: nat) -> Seq<char> {
    CLOSURE_CLASS_PREFIX@ + decimal(n)
}

/// Name of the binding that captures `this` for the `n`-th converted closure.
pub open spec fn capture_name(n: nat) -> Seq<char> {
    PARENT_THIS_NAME@ + seq!['_'] + decimal(n)
}

/// Whether `name` begins like a name that only the conversion emits.
pub open spec fn is_reserved(name: Seq<char>) -> bool {
    CLOSURE_CLASS_PREFIX@.is_prefix_of(name) || (PARENT_THIS_NAME@ + seq!['_']).is_prefix_of(name)
}

/// The digit `d` as a string of one character.
fn digit_str(d: usize) -> (s: &'static str)
    requires
        d < 10,
    ensures
        s@ == seq![digit(d as nat)],
{
    proof {
        reveal_strlit("0");
        reveal_strlit("1");
        reveal_strlit("2");
        reveal_strlit("3");
        reveal_strlit("4");
        reveal_strlit("5");
        reveal_strlit("6");
        reveal_strlit("7");
        reveal_strlit("8");
        reveal_strlit("9");
    }
    let s = if d == 0 {
        "0"
    } else if d == 1 {
        "1"
    } else if d == 2 {
        "2"
    } else if d == 3 {
        "3"
    } else if d == 4 {
        "4"
    } else if d == 5 {
        "5"
    } else if d == 6 {
        "6"
    } else if d == 7 {
        "7"
    } else if d == 8 {
        "8"
    } else {
        "9"
    };
    assert(s@ =~= seq![digit(d as nat)]);
    s
}

/// Writes `n` as a decimal numeral.
pub fn decimal_string(n: usize) -> (s: String)
    ensures
        s@ == decimal(n as nat),
    decreases n,
{
    if n < 10 {
        String::from_str(digit_str(n))
    } else {
        let mut s = decimal_string(n / 10);
        s.append(digit_str(n % 10));
        assert(s@ =~= decimal(n as nat));
        s
    }
}

/// Builds the name of the class for the closure numbered `counter`.
pub fn closure_class_name(counter: usize) -> (name: String)
    ensures
        name@ == class_name(counter as nat),
{
    let number = decimal_string(counter);
    String::from_str(CLOSURE_CLASS_PREFIX).concat(number.as_str())
}

/// Builds the name of the binding that captures `this` for the closure
/// numbered `counter`.
pub fn parent_this_name(counter: usize) -> (name: String)
    ensures
        name@ == capture_name(counter as nat),
{
    proof {
        reveal_strlit("_");
    }
    let number = decimal_string(counter);
    let name = String::from_str(PARENT_THIS_NAME).concat("_").concat(number.as_str());
    assert(name@ =~= capture_name(counter as nat));
    name
}

/// A numeral is never empty, and its length is one exactly for the numbers
/// below ten.
pub proof fn lemma_decimal_length(n: nat)
    ensures
        decimal(n).len() >= 1,
        decimal(n).len() == 1 <==> n < 10,
    decreases n,
{
    if n >= 10 {
        lemma_decimal_length(n / 10);
    }
}

/// Different digits are written with different characters.
proof fn lemma_digit_injective(a: nat, b: nat)
    requires
        a < 10,
        b < 10,
        digit(a) == digit(b),
    ensures
        a == b,
{
}

/// Different numbers have different numerals.
pub proof fn lemma_decimal_injective(a: nat, b: nat)
    requires
        decimal(a) == decimal(b),
    ensures
        a == b,
    decreases a,
{
    lemma_decimal_length(a);
    lemma_decimal_length(b);
    if a < 10 {
        assert(decimal(a)[0] == digit(a));
        assert(decimal(b)[0] == digit(b));
        lemma_digit_injective(a, b);
    } else {
        let da = decimal(a / 10);
        let db = decimal(b / 10);
        assert(decimal(a).drop_last() =~= da);
        assert(decimal(b).drop_last() =~= db);
        assert(decimal(a).last() == digit(a % 10));
        assert(decimal(b).last() == digit(b % 10));
        lemma_decimal_injective(a / 10, b / 10);
        lemma_digit_injective(a % 10, b % 10);
    }
}

/// Sequences that agree after a common prefix was put before them are equal.
proof fn lemma_prefix_cancels(p: Seq<char>, a: Seq<char>, b: Seq<char>)
    requires
        p + a == p + b,
    ensures
        a == b,
{
    assert((p + a).skip(p.len() as int) =~= a);
    assert((p + b).skip(p.len() as int) =~= b);
}

/// Two closures with different numbers get classes with different names and
/// capture bindings with different names.
pub proof fn lemma_numbered_names_distinct(a: nat, b: nat)
    requires
        a != b,
    ensures
        class_name(a) != class_name(b),
        capture_name(a) != capture_name(b),
{
    if class_name(a) == class_name(b) {
        lemma_prefix_cancels(CLOSURE_CLASS_PREFIX@, decimal(a), decimal(b));
        lemma_decimal_injective(a, b);
    }
    if capture_name(a) == capture_name(b) {
        lemma_prefix_cancels(PARENT_THIS_NAME@ + seq!['_'], decimal(a), decimal(b));
        lemma_decimal_injective(a, b);
    }
}

/// No class name is a capture name, whatever the numbers.
pub proof fn lemma_class_name_is_no_capture_name(a: nat, b: nat)
    ensures
        class_name(a) != capture_name(b),
{
    reveal_strlit("$Closure");
    reveal_strlit("__parent_this");
    assert(class_name(a)[0] == '$');
    assert(capture_name(b)[0] == '_');
}

/// Every numbered name is reserved, so a name that is not reserved differs
/// from all of them.
pub proof fn lemma_numbered_names_reserved(n: nat)
    ensures
        is_reserved(class_name(n)),
        is_reserved(capture_name(n)),
{
    assert(class_name(n).subrange(0, CLOSURE_CLASS_PREFIX@.len() as int) =~= CLOSURE_CLASS_PREFIX@);
    let stem = PARENT_THIS_NAME@ + seq!['_'];
    assert(capture_name(n).subrange(0, stem.len() as int) =~= stem);
}

} // verus!
