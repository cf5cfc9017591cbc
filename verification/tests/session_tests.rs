use algebra_kernel::graph::{Graph, Node, OpTag};
use algebra_kernel::rules::Rule;
use algebra_kernel::session::{NavError, RuleIndexError, Session};
use algebra_kernel::values::{Expressions, InnerNatural, InnerReal, InnerZahl, MyInto, Natural,
    Types, Wrapper, Zahl};

fn nat_of(g: &mut Graph, v: u32) -> Expressions {
    g.leaf(Types::Natural(Natural::new(v)))
}

/// `2 * (3 + 4)`.
fn sample_equation(g: &mut Graph) -> Expressions {
    let two = nat_of(g, 2);
    let three = nat_of(g, 3);
    let four = nat_of(g, 4);
    let sum = g.operation(OpTag::Addition, three, four);
    g.operation(OpTag::Multiplication, two, sum)
}

#[test]
fn scenario_distributivity_at_root() {
    let mut g = Graph::new();
    let eq = sample_equation(&mut g);
    assert_eq!(g.render(eq), "(2 * (3 + 4))");
    let mut s = Session::new(g, eq);

    let ms = s.list_applicable_rules();
    assert_eq!(ms.len(), 2);
    assert_eq!(ms[0].rule, Rule::Distributivity);
    assert_eq!(ms[0].rendered, "((2 * 3) + (2 * 4))");
    // the whole product solves to a constant, so constant evaluation
    // stands right behind it in the catalog order
    assert_eq!(ms[1].rule, Rule::ConstEvaluation);
    assert_eq!(ms[1].rendered, "14");

    s.apply_rule(0).unwrap();
    assert_eq!(s.render_root(), "((2 * 3) + (2 * 4))");
    assert_eq!(s.render_cursor(), "((2 * 3) + (2 * 4))");
}

#[test]
fn scenario_constant_evaluation_in_subtree() {
    let mut g = Graph::new();
    let two = nat_of(&mut g, 2);
    let three = nat_of(&mut g, 3);
    let two2 = nat_of(&mut g, 2);
    let four = nat_of(&mut g, 4);
    let left = g.operation(OpTag::Multiplication, two, three);
    let right = g.operation(OpTag::Multiplication, two2, four);
    let eq = g.operation(OpTag::Addition, left, right);
    let mut s = Session::new(g, eq);

    s.navigate(0).unwrap();
    assert_eq!(s.render_cursor(), "(2 * 3)");

    let ms = s.list_applicable_rules();
    assert_eq!(ms.len(), 1);
    assert_eq!(ms[0].rule, Rule::ConstEvaluation);
    assert_eq!(ms[0].rendered, "6");

    s.apply_rule(0).unwrap();
    assert_eq!(s.render_root(), "(6 + (2 * 4))");
    let history = s.render_history();
    assert_eq!(history.len(), 2);
    assert_eq!(history[1], "(6 + (2 * 4))");
}

#[test]
fn scenario_exponent_identity() {
    let mut g = Graph::new();
    let base = g.leaf(Types::Zahl(Zahl::new_variable("a")));
    let one = g.leaf(Types::Zahl(Zahl::new(1)));
    let eq = g.operation(OpTag::Exponentiation, base, one);
    let mut s = Session::new(g, eq);
    assert_eq!(s.render_root(), "(a ** 1)");

    let ms = s.list_applicable_rules();
    assert_eq!(ms.len(), 2);
    assert_eq!(ms[0].rule, Rule::ExponentToMultiplication);
    assert_eq!(ms[1].rule, Rule::ExponentIdentity);
    assert_eq!(ms[1].rendered, "a");

    s.apply_rule(1).unwrap();
    assert_eq!(s.render_root(), "a");
}

#[test]
fn scenario_out_of_range_child_keeps_cursor() {
    let mut g = Graph::new();
    let eq = sample_equation(&mut g);
    let mut s = Session::new(g, eq);

    let before = s.render_cursor();
    assert_eq!(s.navigate(5), Err(NavError::IndexOutOfRange));
    assert_eq!(s.render_cursor(), before);
    assert_eq!(s.render_root(), "(2 * (3 + 4))");
}

#[test]
fn aliasing_mutation_shows_through_root() {
    let mut g = Graph::new();
    let eq = sample_equation(&mut g);
    let mut s = Session::new(g, eq);

    s.navigate(1).unwrap();
    assert_eq!(s.render_cursor(), "(3 + 4)");
    let ms = s.list_applicable_rules();
    assert_eq!(ms[0].rule, Rule::ConstEvaluation);
    s.apply_rule(0).unwrap();
    assert_eq!(s.render_root(), "(2 * 7)");
}

#[test]
fn history_entries_never_change() {
    let mut g = Graph::new();
    let eq = sample_equation(&mut g);
    let mut s = Session::new(g, eq);

    assert_eq!(s.render_history(), vec!["(2 * (3 + 4))".to_string()]);

    s.apply_rule(0).unwrap();
    let after_first = s.render_history();
    assert_eq!(
        after_first,
        vec![
            "(2 * (3 + 4))".to_string(),
            "((2 * 3) + (2 * 4))".to_string(),
        ]
    );

    s.navigate(0).unwrap();
    s.apply_rule(0).unwrap();
    let after_second = s.render_history();
    assert_eq!(after_second.len(), 3);
    assert_eq!(after_second[0], after_first[0]);
    assert_eq!(after_second[1], after_first[1]);
    assert_eq!(after_second[2], "(6 + (2 * 4))");
}

#[test]
fn deep_copy_independence() {
    let mut g = Graph::new();
    let three = nat_of(&mut g, 3);
    let four = nat_of(&mut g, 4);
    let sum = g.operation(OpTag::Addition, three, four);
    let copy = g.deep_copy(sum);
    assert_eq!(g.render(copy), "(3 + 4)");

    // mutate the original in place: the copy keeps its form
    let nine = Types::Natural(Natural::new(9));
    g.replace_content(sum, Node::Value(nine));
    assert_eq!(g.render(sum), "9");
    assert_eq!(g.render(copy), "(3 + 4)");

    // and mutating the copy leaves the original alone
    let ten = Types::Natural(Natural::new(10));
    g.replace_content(copy, Node::Value(ten));
    assert_eq!(g.render(sum), "9");
    assert_eq!(g.render(copy), "10");
}

#[test]
fn reset_to_top_returns_to_root() {
    let mut g = Graph::new();
    let eq = sample_equation(&mut g);
    let mut s = Session::new(g, eq);

    s.navigate(1).unwrap();
    assert_eq!(s.render_cursor(), "(3 + 4)");
    s.reset_to_top();
    assert_eq!(s.render_cursor(), "(2 * (3 + 4))");
}

#[test]
fn rule_index_out_of_range_reported() {
    let mut g = Graph::new();
    let eq = sample_equation(&mut g);
    let mut s = Session::new(g, eq);

    assert_eq!(s.apply_rule(9), Err(RuleIndexError::OutOfRange));
    assert_eq!(s.render_root(), "(2 * (3 + 4))");
    assert_eq!(s.history_len(), 1);
}

#[test]
fn children_listing_and_rendering() {
    let mut g = Graph::new();
    let eq = sample_equation(&mut g);
    let mut s = Session::new(g, eq);

    let rendered = s.render_children();
    assert_eq!(rendered, vec!["2".to_string(), "(3 + 4)".to_string()]);
    assert_eq!(s.list_children().len(), 2);

    s.navigate(0).unwrap();
    assert_eq!(s.list_children().len(), 0);
    assert_eq!(s.render_children().len(), 0);
}

#[test]
fn exponent_to_multiplication_unfolds_one_step() {
    let mut g = Graph::new();
    let base = g.leaf(Types::Zahl(Zahl::new_variable("a")));
    let power = g.leaf(Types::Zahl(Zahl::new(3)));
    let eq = g.operation(OpTag::Exponentiation, base, power);
    let mut s = Session::new(g, eq);

    let ms = s.list_applicable_rules();
    assert_eq!(ms.len(), 1);
    assert_eq!(ms[0].rule, Rule::ExponentToMultiplication);
    assert_eq!(ms[0].rendered, "(a * (a ** (3 - 1)))");

    s.apply_rule(0).unwrap();
    assert_eq!(s.render_root(), "(a * (a ** (3 - 1)))");
}

#[test]
fn history_handles_render_through_the_graph() {
    let mut g = Graph::new();
    let eq = sample_equation(&mut g);
    let mut s = Session::new(g, eq);
    s.apply_rule(0).unwrap();

    let handles: Vec<Expressions> = s.history().clone();
    assert_eq!(handles.len(), 2);
    assert_eq!(s.graph().render(handles[0]), "(2 * (3 + 4))");
    assert_eq!(s.graph().render(handles[1]), "((2 * 3) + (2 * 4))");
}

#[test]
fn my_into_widens_payloads() {
    let z: InnerZahl = InnerNatural::new(7).my_into();
    assert_eq!(z.get(), 7);
    let r: InnerReal = InnerZahl::new(-2).my_into();
    assert_eq!(r.get(), -2);
    let w: Wrapper<InnerReal> = Natural::new(5).my_into();
    assert!(matches!(w, Wrapper::Constant(ref c) if c.get() == 5));
}

#[test]
fn typed_rendering_of_the_selection() {
    let mut g = Graph::new();
    let eq = sample_equation(&mut g);
    let mut s = Session::new(g, eq);

    s.navigate(1).unwrap();
    assert_eq!(
        s.render_cursor_typed().unwrap(),
        "(((3: Natural) + (4: Natural)): Natural)"
    );
}

#[test]
fn rule_names_and_descriptions() {
    assert_eq!(Rule::Distributivity.name(), "Distributivity");
    assert_eq!(Rule::Distributivity.description(), "x * (a + b) = x * a + x * b");
    assert_eq!(Rule::ConstEvaluation.name(), "Constant Evaluation");
    assert_eq!(Rule::ExponentIdentity.name(), "Exponent Identity");
}
