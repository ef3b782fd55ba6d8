use jitacart::budget::{budgeted, EsiBudgetGuard};

#[test]
fn defers_below_threshold() {
    let mut g = EsiBudgetGuard::new(10, 5);
    assert!(g.has_budget());
    for _ in 0..5 {
        g.record_non_2xx();
    }
    assert!(g.has_budget());
    g.record_non_2xx();
    assert!(!g.has_budget());
    g.reset();
    assert!(g.has_budget());
    assert_eq!(g.remaining(), 10);
}

#[test]
fn record_non_2xx_floors_at_zero() {
    let mut g = EsiBudgetGuard::new(3, 1);
    for _ in 0..10 {
        g.record_non_2xx();
    }
    assert_eq!(g.remaining(), 0, "must not drift below zero");
}

#[test]
fn budgeted_passes_ok_through_untouched() {
    let mut g = EsiBudgetGuard::new(10, 5);
    let v: Result<i32, &str> = budgeted(&mut g, Ok(42));
    assert_eq!(v.unwrap(), 42);
    assert_eq!(g.remaining(), 10);
}

#[test]
fn budgeted_charges_errors() {
    let mut g = EsiBudgetGuard::new(10, 5);
    let v: Result<i32, &str> = budgeted(&mut g, Err("boom"));
    assert_eq!(v.unwrap_err(), "boom");
    assert_eq!(g.remaining(), 9);
}

#[test]
fn default_budget_is_full() {
    let g = EsiBudgetGuard::default();
    assert!(g.has_budget());
    assert_eq!(g.remaining(), 100);
}
