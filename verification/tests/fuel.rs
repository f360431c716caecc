use battleground_construct::fuel::{FuelBudget, FuelExhausted};

#[test]
fn a_budget_pays_until_it_is_spent() {
    let mut budget = FuelBudget::new(Some(10));
    assert_eq!(budget.remaining(), Some(10));
    assert!(!budget.is_exhausted());
    assert_eq!(budget.consume(4), Ok(()));
    assert_eq!(budget.remaining(), Some(6));
    assert_eq!(budget.consume(6), Ok(()));
    assert_eq!(budget.remaining(), Some(0));
    assert!(!budget.is_exhausted());
    assert_eq!(budget.consume(0), Ok(()));
    assert!(!budget.is_exhausted());
}

#[test]
fn a_charge_above_the_budget_exhausts_it() {
    let mut budget = FuelBudget::new(Some(10));
    assert_eq!(budget.consume(4), Ok(()));
    assert_eq!(budget.consume(7), Err(FuelExhausted));
    assert!(budget.is_exhausted());
    assert_eq!(budget.remaining(), Some(0));
    // Exhaustion sticks: not even a free checkpoint is passed.
    assert_eq!(budget.consume(0), Err(FuelExhausted));
    assert_eq!(budget.consume(1), Err(FuelExhausted));
    assert_eq!(budget.remaining(), Some(0));
}

#[test]
fn an_empty_budget_passes_free_checkpoints_only() {
    let mut budget = FuelBudget::new(Some(0));
    assert_eq!(budget.consume(0), Ok(()));
    assert_eq!(budget.consume(1), Err(FuelExhausted));
    assert!(budget.is_exhausted());
}

#[test]
fn a_budget_without_limit_never_runs_out() {
    let mut budget = FuelBudget::new(None);
    assert_eq!(budget.remaining(), None);
    assert_eq!(budget.consume(u64::MAX), Ok(()));
    assert_eq!(budget.consume(u64::MAX), Ok(()));
    assert_eq!(budget.remaining(), None);
    assert!(!budget.is_exhausted());
}
