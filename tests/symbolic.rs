use neuroforge::symbolic::NeuroSymbolicLayer;

type Rule = Box<dyn Fn(&[f64]) -> f64>;

fn sum_rule() -> Rule {
    Box::new(|inputs: &[f64]| inputs.iter().sum())
}

#[test]
fn test_neuro_symbolic_layer() {
    let mut layer: NeuroSymbolicLayer<f64, Rule> = NeuroSymbolicLayer::new();
    layer.add_rule("sum", sum_rule());
    let output = layer.process(vec![1.0, 2.0, 3.0]);
    assert_eq!(output, vec![1.0, 2.0, 3.0, 6.0]);
    assert_eq!(layer.neural_output(), &vec![1.0, 2.0, 3.0]);
    assert_eq!(layer.rule_outputs(), vec![6.0]);
    assert_eq!(layer.name(0), "sum");
}

#[test]
fn rules_are_applied_in_insertion_order() {
    let mut layer: NeuroSymbolicLayer<f64, Rule> = NeuroSymbolicLayer::new();
    layer.add_rule("max", Box::new(|x: &[f64]| x.iter().cloned().fold(f64::MIN, f64::max)));
    layer.add_rule("count", Box::new(|x: &[f64]| x.len() as f64));
    layer.add_rule("first", Box::new(|x: &[f64]| x[0]));
    let out = layer.process(vec![4.0, 9.0]);
    assert_eq!(out, vec![4.0, 9.0, 9.0, 2.0, 4.0]);
    assert_eq!(layer.position("count"), Some(1));
    assert_eq!(layer.slot(2, 1), 3);
    assert_eq!(layer.position("missing"), None);
}

#[test]
fn duplicate_name_overwrites_in_place() {
    let mut layer: NeuroSymbolicLayer<f64, Rule> = NeuroSymbolicLayer::new();
    layer.add_rule("a", Box::new(|_x: &[f64]| 1.0));
    layer.add_rule("b", Box::new(|_x: &[f64]| 2.0));
    layer.add_rule("a", Box::new(|_x: &[f64]| 3.0));
    assert_eq!(layer.num_rules(), 2);
    assert_eq!(layer.name(0), "a");
    let out = layer.process(vec![0.5]);
    assert_eq!(out, vec![0.5, 3.0, 2.0]);
}

#[test]
fn rule_outputs_twice_without_process_agree() {
    let mut layer: NeuroSymbolicLayer<f64, Rule> = NeuroSymbolicLayer::new();
    layer.add_rule("sum", sum_rule());
    layer.process(vec![1.0, 2.0, 3.0]);
    let first = layer.rule_outputs();
    let second = layer.rule_outputs();
    assert_eq!(first, second);
    assert_eq!(layer.neural_output(), &vec![1.0, 2.0, 3.0]);
}

#[test]
fn no_rules_passes_vector_through() {
    let mut layer: NeuroSymbolicLayer<f64, Rule> = NeuroSymbolicLayer::new();
    let out = layer.process(vec![1.5, -2.0]);
    assert_eq!(out, vec![1.5, -2.0]);
    assert!(layer.rule_outputs().is_empty());
}
