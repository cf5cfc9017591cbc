use algebra_kernel::eval::combine_values;
use algebra_kernel::graph::{Graph, Node, OpTag};
use algebra_kernel::render::render_value;
use algebra_kernel::tower::{widen, ArithmeticError};
use algebra_kernel::values::{InnerNatural, InnerZahl, Natural, Tier, TypeTrait, Types, WrappedReal, Zahl};

fn nat_of(v: u32) -> Types {
    Types::Natural(Natural::new(v))
}

fn zahl_of(v: i32) -> Types {
    Types::Zahl(Zahl::new(v))
}

fn real_of(v: i64) -> Types {
    Types::Real(WrappedReal::new(v))
}

fn count_operations(g: &Graph) -> usize {
    g.nodes.iter().filter(|n| matches!(n, Node::Operation(_))).count()
}

#[test]
fn folding_two_constants_builds_no_node() {
    let mut g = Graph::new();
    let before = g.nodes.len();
    let r = g.apply_op(OpTag::Addition, nat_of(2), nat_of(3)).unwrap();
    assert_eq!(g.nodes.len(), before);
    assert!(r.is_value());
    assert_eq!(render_value(&r), "5");
    assert_eq!(r.get_type(), "Natural");
}

#[test]
fn symbolic_operand_builds_exactly_one_operation_node() {
    let mut g = Graph::new();
    let a = Types::Natural(Natural::new_variable("a"));
    assert_eq!(count_operations(&g), 0);
    let r = g.apply_op(OpTag::Multiplication, a, nat_of(2)).unwrap();
    assert!(!r.is_value());
    assert_eq!(count_operations(&g), 1);
}

#[test]
fn exact_folds_per_operator() {
    let mut g = Graph::new();
    let sum = g.apply_op(OpTag::Addition, zahl_of(-7), zahl_of(9)).unwrap();
    assert_eq!(render_value(&sum), "2");
    let product = g.apply_op(OpTag::Multiplication, nat_of(6), nat_of(7)).unwrap();
    assert_eq!(render_value(&product), "42");
    let power = g.apply_op(OpTag::Exponentiation, nat_of(2), nat_of(10)).unwrap();
    assert_eq!(render_value(&power), "1024");
    assert_eq!(power.get_type(), "Natural");
}

#[test]
fn exponent_edge_cases() {
    let mut g = Graph::new();
    let r = g.apply_op(OpTag::Exponentiation, nat_of(0), nat_of(0)).unwrap();
    assert_eq!(render_value(&r), "1");
    let r = g.apply_op(OpTag::Exponentiation, nat_of(0), nat_of(5)).unwrap();
    assert_eq!(render_value(&r), "0");
    let r = g.apply_op(OpTag::Exponentiation, nat_of(1), nat_of(u32::MAX)).unwrap();
    assert_eq!(render_value(&r), "1");
    let r = g.apply_op(OpTag::Exponentiation, zahl_of(-1), zahl_of(7)).unwrap();
    assert_eq!(render_value(&r), "-1");
    let r = g.apply_op(OpTag::Exponentiation, zahl_of(-2), zahl_of(3)).unwrap();
    assert_eq!(render_value(&r), "-8");
    let r = g.apply_op(OpTag::Exponentiation, nat_of(2), nat_of(32));
    assert_eq!(r.unwrap_err(), ArithmeticError::Overflow);
}

#[test]
fn subtraction_of_naturals_answers_in_zahl() {
    let mut g = Graph::new();
    let r = g.apply_op(OpTag::Subtraction, nat_of(2), nat_of(3)).unwrap();
    assert_eq!(render_value(&r), "-1");
    assert_eq!(r.get_type(), "Zahl");
}

#[test]
fn natural_plus_real_types_as_real() {
    let mut g = Graph::new();
    let r = g.apply_op(OpTag::Addition, nat_of(1), real_of(2)).unwrap();
    assert_eq!(render_value(&r), "3");
    assert_eq!(r.get_type(), "Real");
}

#[test]
fn widening_keeps_the_number_and_retags() {
    let w = widen(&nat_of(2), Tier::Real).unwrap();
    assert_eq!(render_value(&w), "2");
    assert_eq!(w.get_type(), "Real");

    let w2 = widen(&zahl_of(-5), Tier::Real).unwrap();
    assert_eq!(render_value(&w2), "-5");
    assert_eq!(w2.get_type(), "Real");

    let w3 = widen(&nat_of(7), Tier::Zahl).unwrap();
    assert_eq!(render_value(&w3), "7");
    assert_eq!(w3.get_type(), "Zahl");
}

#[test]
fn widening_a_variable_relabels_only() {
    let v = Types::Natural(Natural::new_variable("x"));
    let w = widen(&v, Tier::Real).unwrap();
    assert!(w.is_variable());
    assert_eq!(render_value(&w), "x");
    assert_eq!(w.get_type(), "Real");
}

#[test]
fn overflow_is_reported_not_wrapped() {
    let mut g = Graph::new();
    let r = g.apply_op(OpTag::Addition, nat_of(u32::MAX), nat_of(1));
    assert_eq!(r.unwrap_err(), ArithmeticError::Overflow);

    let w = widen(&nat_of(u32::MAX), Tier::Zahl);
    assert_eq!(w.unwrap_err(), ArithmeticError::Overflow);
}

#[test]
fn negative_exponent_is_reported() {
    let mut g = Graph::new();
    let r = g.apply_op(OpTag::Exponentiation, zahl_of(2), zahl_of(-1));
    assert_eq!(r.unwrap_err(), ArithmeticError::NegativeExponent);
}

#[test]
fn combine_without_graph_matches_folding() {
    let folded = combine_values(OpTag::Addition, &nat_of(2), &nat_of(3)).unwrap();
    assert_eq!(render_value(&folded.unwrap()), "5");

    let symbolic = combine_values(
        OpTag::Addition,
        &Types::Natural(Natural::new_variable("x")),
        &nat_of(3),
    )
    .unwrap();
    assert!(symbolic.is_none());
}

#[test]
fn solve_folds_a_whole_tree() {
    let mut g = Graph::new();
    let two = g.leaf(nat_of(2));
    let three = g.leaf(nat_of(3));
    let four = g.leaf(nat_of(4));
    let sum = g.operation(OpTag::Addition, three, four);
    let eq = g.operation(OpTag::Multiplication, two, sum);
    let v = g.solve(eq).unwrap();
    assert!(v.is_value());
    assert_eq!(render_value(&v), "14");
}

#[test]
fn solve_with_a_variable_stays_symbolic() {
    let mut g = Graph::new();
    let x = g.leaf(Types::Real(WrappedReal::new_variable("x")));
    let two = g.leaf(nat_of(2));
    let eq = g.operation(OpTag::Addition, two, x);
    let v = g.solve(eq).unwrap();
    assert!(!v.is_value());
    assert_eq!(v.get_type(), "Real");
}

#[test]
fn solve_reports_arithmetic_errors() {
    let mut g = Graph::new();
    let big = g.leaf(nat_of(u32::MAX));
    let one = g.leaf(nat_of(1));
    let eq = g.operation(OpTag::Addition, big, one);
    assert_eq!(g.solve(eq).unwrap_err(), ArithmeticError::Overflow);
}

#[test]
fn rendering_plain_and_typed() {
    let mut g = Graph::new();
    let two = g.leaf(nat_of(2));
    let three = g.leaf(nat_of(3));
    let eq = g.operation(OpTag::Addition, two, three);
    assert_eq!(g.render(eq), "(2 + 3)");
    assert_eq!(
        g.render_typed(eq).unwrap(),
        "(((2: Natural) + (3: Natural)): Natural)"
    );
    assert_eq!(g.render_typed(two).unwrap(), "(2: Natural)");
}

#[test]
fn typed_rendering_reports_a_failing_solve() {
    let mut g = Graph::new();
    let big = g.leaf(nat_of(u32::MAX));
    let one = g.leaf(nat_of(1));
    let eq = g.operation(OpTag::Addition, big, one);
    assert_eq!(g.render_typed(eq).unwrap_err(), ArithmeticError::Overflow);
}

#[test]
fn rendering_negative_and_variable_leaves() {
    assert_eq!(render_value(&zahl_of(-42)), "-42");
    assert_eq!(render_value(&real_of(0)), "0");
    let v = Types::Zahl(Zahl::new_variable("speed"));
    assert_eq!(render_value(&v), "speed");
}

#[test]
fn a_deferred_value_displays_as_its_subtree() {
    let mut g = Graph::new();
    let a = Types::Real(WrappedReal::new_variable("a"));
    let b = Types::Real(WrappedReal::new_variable("b"));
    let deferred = g.apply_op(OpTag::Addition, a, b).unwrap();
    assert!(!deferred.is_value());
    assert_eq!(g.display_value(&deferred), "(a + b)");
    assert_eq!(g.display_value(&nat_of(12)), "12");
}

#[test]
fn copying_a_value_reembeds_it() {
    let mut g = Graph::new();
    let leaf = nat_of(9).copy(&mut g);
    assert_eq!(g.render(leaf), "9");

    // a deferred value copies the subtree it points at
    let x = Types::Natural(Natural::new_variable("x"));
    let deferred = g.apply_op(OpTag::Addition, x, nat_of(1)).unwrap();
    let copy = deferred.copy(&mut g);
    assert_eq!(g.render(copy), "(x + 1)");
}

#[test]
fn leaf_values_solve_to_themselves_and_have_no_children() {
    let v = nat_of(3);
    let solved = v.solve();
    assert!(solved.is_value());
    assert_eq!(render_value(&solved), "3");
    assert_eq!(v.get_children().len(), 0);
}

#[test]
fn inner_payload_accessors() {
    assert_eq!(InnerNatural::new(17).get(), 17);
    assert_eq!(InnerZahl::new(-3).get(), -3);
    assert_eq!(Natural::new(4).get_type(), "Natural");
    assert_eq!(Zahl::new(-4).get_type(), "Zahl");
    assert!(Natural::new(4).is_value());
    assert!(!Natural::new_variable("n").is_value());
}
