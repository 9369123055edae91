use neuroforge::layout::{bank_kind, plan_pipeline, BankKind, BankPlan};

fn count(p: &[BankPlan], k: BankKind) -> usize {
    p.iter().filter(|b| b.kind == k).count()
}

#[test]
fn test_neuroforge_creation() {
    let p = plan_pipeline(&[2, 3, 1], &[false, false, false], &[false, false, false]);
    assert_eq!(count(&p, BankKind::Stochastic), 3);
    assert_eq!(count(&p, BankKind::Elastic), 0);
    assert_eq!(count(&p, BankKind::Delay), 0);
}

#[test]
fn all_stochastic_dimensions_chain() {
    let p = plan_pipeline(&[2, 3, 1], &[false, false, false], &[false, false, false]);
    assert_eq!(p.len(), 3);
    assert_eq!((p[0].input_dim, p[0].size), (2, 2));
    assert_eq!((p[1].input_dim, p[1].size), (2, 3));
    assert_eq!((p[2].input_dim, p[2].size), (3, 1));
    assert_eq!((p[2].min_units, p[2].max_units), (1, 1));
}

#[test]
fn mixed_layers_run_in_pipeline_order() {
    let p = plan_pipeline(&[4, 6, 2, 8], &[false, true, false, false], &[true, false, false, true]);
    let kinds: Vec<BankKind> = p.iter().map(|b| b.kind).collect();
    assert_eq!(kinds, vec![BankKind::Stochastic, BankKind::Elastic, BankKind::Delay, BankKind::Delay]);
    let sizes: Vec<usize> = p.iter().map(|b| b.size).collect();
    assert_eq!(sizes, vec![2, 6, 4, 8]);
    let inputs: Vec<usize> = p.iter().map(|b| b.input_dim).collect();
    assert_eq!(inputs, vec![2, 2, 6, 4]);
    assert_eq!((p[1].min_units, p[1].max_units), (3, 12));
}

#[test]
fn elastic_bounds_use_integer_division() {
    let p = plan_pipeline(&[5, 1], &[true, true], &[false, true]);
    assert_eq!((p[0].min_units, p[0].max_units), (2, 10));
    assert_eq!((p[1].min_units, p[1].max_units), (0, 2));
}

#[test]
fn adaptive_flag_wins_over_temporal() {
    assert_eq!(bank_kind(true, true), BankKind::Elastic);
    assert_eq!(bank_kind(false, true), BankKind::Delay);
    assert_eq!(bank_kind(false, false), BankKind::Stochastic);
}

#[test]
fn empty_configuration_has_no_banks() {
    let p = plan_pipeline(&[], &[], &[]);
    assert!(p.is_empty());
}
