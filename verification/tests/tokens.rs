use diaspor_vfs::tokens::{plan_monthly_tokens, token_plan_terms, TokenBalance, TokenError, FREE_TIER_TOKENS};

#[test]
fn plans_and_their_tokens() {
    assert_eq!(FREE_TIER_TOKENS, 1000);
    assert_eq!(plan_monthly_tokens("free"), 1000);
    assert_eq!(plan_monthly_tokens("pro"), 10000);
    assert_eq!(plan_monthly_tokens("unlimited"), -1);
    assert_eq!(plan_monthly_tokens("enterprise"), 1000);
    let plans = token_plan_terms();
    assert_eq!(plans.len(), 3);
    assert_eq!(plans[1].id, "pro");
    assert!(plans[1].paid);
    assert!(!plans[0].paid);
}

#[test]
fn spending_tokens() {
    let mut b = TokenBalance::free_tier("2030-01-01T00:00:00Z".to_string());
    assert_eq!(b.consume(0), Err(TokenError::NonPositiveAmount));
    assert_eq!(b.consume(300), Ok(true));
    assert_eq!((b.used, b.remaining), (300, 700));
    assert_eq!(
        b.consume(701),
        Err(TokenError::Insufficient { required: 701, available: 700 })
    );
    assert_eq!((b.used, b.remaining), (300, 700));
    assert_eq!(b.used + b.remaining, b.total);
}

#[test]
fn unlimited_plans_spend_nothing() {
    let mut b = TokenBalance::free_tier("2030-01-01T00:00:00Z".to_string());
    assert_eq!(b.purchase("unlimited", "2030-02-01T00:00:00Z".to_string()), Ok(true));
    assert_eq!(b.total, -1);
    assert_eq!(b.remaining, -1);
    assert!(b.is_paid);
    assert_eq!(b.consume(1_000_000), Ok(true));
    assert_eq!(b.used, 0);
}

#[test]
fn purchases_keep_usage() {
    let mut b = TokenBalance::free_tier("2030-01-01T00:00:00Z".to_string());
    b.consume(250).unwrap();
    assert_eq!(b.purchase("pro", "2030-02-01T00:00:00Z".to_string()), Ok(true));
    assert_eq!((b.total, b.used, b.remaining), (10000, 250, 9750));
    assert_eq!(b.plan_id, "pro");
    assert_eq!(b.reset_date, "2030-02-01T00:00:00Z");
    assert_eq!(
        b.purchase("gold", "x".to_string()),
        Err(TokenError::PlanNotFound { plan_id: "gold".to_string() })
    );
    assert_eq!(b.plan_id, "pro");
}

#[test]
fn balances_reset_when_due() {
    let mut b = TokenBalance::free_tier("2024-01-01T00:00:00Z".to_string());
    b.consume(10).unwrap();
    // 2023-12-31T00:00:00Z
    assert_eq!(b.check_and_reset(1703980800, "2024-02-01T00:00:00Z".to_string()), Ok(false));
    assert_eq!(b.used, 10);
    // 2024-01-01T00:00:00Z
    assert_eq!(b.check_and_reset(1704067200, "2024-02-01T00:00:00Z".to_string()), Ok(true));
    assert_eq!((b.total, b.used, b.remaining), (1000, 0, 1000));
    assert_eq!(b.reset_date, "2024-02-01T00:00:00Z");
    let mut bad = TokenBalance::free_tier("next month".to_string());
    assert_eq!(bad.check_and_reset(0, "x".to_string()), Err(TokenError::InvalidResetDate));
}
