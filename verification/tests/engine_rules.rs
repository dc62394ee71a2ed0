use power_plan_pro::engine::{
    check_pause_minutes, check_rule_plans,
    ensure_guid_exists, initial_setup, sample_count, select_plan_guid, validate_rule_config,
    ConditionMode, RuleConfig, RuntimeState, SampleWindow, BALANCED_GUID, MAX_WINDOW_SECONDS,
    POWER_SAVER_GUID,
};
use power_plan_pro::power::PowerPlan;

const HIGH: &str = "8c5e7fda-e8bf-4a96-9a85-a6e23a8c635c";

fn plan(guid: &str, name: &str, active: bool) -> PowerPlan {
    PowerPlan { guid: guid.to_string(), name: name.to_string(), is_active: active }
}

fn config(enabled: bool, cooldown: u32) -> RuleConfig {
    RuleConfig {
        enabled,
        condition_mode: ConditionMode::Or,
        duration_seconds: 30,
        cooldown_seconds: cooldown,
        high_load_plan_guid: BALANCED_GUID.to_string(),
        low_load_plan_guid: POWER_SAVER_GUID.to_string(),
    }
}

#[test]
fn condition_modes_combine() {
    assert!(ConditionMode::And.combine(true, true));
    assert!(!ConditionMode::And.combine(true, false));
    assert!(ConditionMode::Or.combine(false, true));
    assert!(!ConditionMode::Or.combine(false, false));
}

#[test]
fn rule_config_checks_in_order() {
    assert_eq!(validate_rule_config(&config(true, 20)), Ok(()));
    let mut c = config(true, 20);
    c.duration_seconds = 0;
    c.cooldown_seconds = 5000;
    assert_eq!(
        validate_rule_config(&c),
        Err("durationSeconds must be in range 1..900".to_string())
    );
    c.duration_seconds = 901;
    assert_eq!(
        validate_rule_config(&c),
        Err("durationSeconds must be in range 1..900".to_string())
    );
    c.duration_seconds = 900;
    assert_eq!(validate_rule_config(&c), Err("cooldownSeconds must be <= 3600".to_string()));
    c.cooldown_seconds = 3600;
    assert_eq!(validate_rule_config(&c), Ok(()));
    c.low_load_plan_guid = BALANCED_GUID.to_uppercase();
    assert_eq!(
        validate_rule_config(&c),
        Err("highLoadPlanGuid and lowLoadPlanGuid must be different".to_string())
    );
}

#[test]
fn guid_existence_ignores_case() {
    let plans = vec![plan(BALANCED_GUID, "Balanced", true)];
    assert_eq!(ensure_guid_exists(&plans, &BALANCED_GUID.to_uppercase()), Ok(()));
    assert_eq!(
        ensure_guid_exists(&plans, HIGH),
        Err(format!("power plan not found: {HIGH}"))
    );
}

#[test]
fn plan_selection_prefers_then_falls_back() {
    let plans = vec![
        plan(HIGH, "High", true),
        plan(&BALANCED_GUID.to_uppercase(), "Balanced", false),
    ];
    assert_eq!(select_plan_guid(&plans, BALANCED_GUID, HIGH), BALANCED_GUID.to_uppercase());
    assert_eq!(select_plan_guid(&plans, POWER_SAVER_GUID, HIGH), HIGH);
    assert_eq!(select_plan_guid(&plans, POWER_SAVER_GUID, "nope"), HIGH);
    let only = vec![plan(POWER_SAVER_GUID, "Saver", false), plan(HIGH, "High", false)];
    assert_eq!(select_plan_guid(&only, BALANCED_GUID, "nope"), POWER_SAVER_GUID);
}

#[test]
fn initial_setup_uses_active_and_builtin_plans() {
    let plans = vec![
        plan(BALANCED_GUID, "Balanced", false),
        plan(HIGH, "High", true),
    ];
    let (active, cfg) = initial_setup(&plans);
    assert_eq!(active, HIGH);
    assert!(!cfg.enabled);
    assert!(matches!(cfg.condition_mode, ConditionMode::Or));
    assert_eq!(cfg.duration_seconds, 30);
    assert_eq!(cfg.cooldown_seconds, 20);
    assert_eq!(cfg.high_load_plan_guid, BALANCED_GUID);
    // No power saver listed: the active plan stands in.
    assert_eq!(cfg.low_load_plan_guid, HIGH);
    let none_active = vec![plan(HIGH, "High", false)];
    let (active, cfg) = initial_setup(&none_active);
    assert_eq!(active, HIGH);
    assert_eq!(cfg.high_load_plan_guid, HIGH);
    assert_eq!(cfg.low_load_plan_guid, HIGH);
}

#[test]
fn window_keeps_the_newest_900() {
    let mut w: SampleWindow<u32> = SampleWindow::new();
    assert_eq!(w.len(), 0);
    assert_eq!(w.recent_start(30), 0);
    for i in 0..1000u32 {
        w.push(i);
    }
    assert_eq!(w.len(), MAX_WINDOW_SECONDS);
    assert_eq!(*w.get(0), 100);
    assert_eq!(*w.get(899), 999);
    assert_eq!(w.recent_start(30), 870);
    assert_eq!(w.recent_start(5000), 0);
}

#[test]
fn sample_count_is_at_least_one() {
    let mut c = config(true, 0);
    assert_eq!(sample_count(&c), 30);
    c.duration_seconds = 0;
    assert_eq!(sample_count(&c), 1);
}

#[test]
fn external_plan_is_checked_every_third_poll() {
    let mut s = RuntimeState::new(BALANCED_GUID.to_string());
    assert!(!s.poll_due());
    assert!(!s.poll_due());
    assert!(s.poll_due());
    assert!(!s.poll_due());
    let mut unknown = RuntimeState::new(String::new());
    assert!(!unknown.poll_due());
    assert!(!unknown.poll_due());
    assert!(!unknown.poll_due());
}

#[test]
fn external_change_is_adopted() {
    let mut s = RuntimeState::new(BALANCED_GUID.to_string());
    assert_eq!(s.observe_active_plan(BALANCED_GUID.to_uppercase(), 5000), None);
    assert_eq!(s.last_switch_ms(), 0);
    assert_eq!(s.observe_active_plan(HIGH.to_string(), 5000), Some(HIGH.to_string()));
    assert_eq!(s.active_plan_guid(), HIGH);
    assert_eq!(s.last_switch_ms(), 5000);
    assert_eq!(s.switches_count(), 0);
}

#[test]
fn manual_switches_are_debounced() {
    let mut s = RuntimeState::new(BALANCED_GUID.to_string());
    assert!(!s.begin_manual_switch(HIGH.to_string(), 1999));
    assert_eq!(s.active_plan_guid(), BALANCED_GUID);
    assert!(s.begin_manual_switch(HIGH.to_string(), 2000));
    assert_eq!(s.active_plan_guid(), HIGH);
    assert_eq!(s.switches_count(), 1);
    assert!(!s.begin_manual_switch(POWER_SAVER_GUID.to_string(), 3999));
    assert_eq!(s.active_plan_guid(), HIGH);
    assert!(s.begin_manual_switch(POWER_SAVER_GUID.to_string(), 4000));
    assert_eq!(s.switches_count(), 2);
    // A clock that went backwards counts as no time elapsed.
    assert!(!s.begin_manual_switch(HIGH.to_string(), 10));
}

#[test]
fn pause_range_and_resume() {
    let mut s = RuntimeState::new(BALANCED_GUID.to_string());
    assert_eq!(s.pause(0, 1000), Err("pause minutes must be in range 1..30".to_string()));
    assert_eq!(s.pause(31, 1000), Err("pause minutes must be in range 1..30".to_string()));
    assert!(!s.paused());
    assert_eq!(s.pause(15, 1000), Ok(()));
    assert!(s.paused());
    assert_eq!(s.resume_at_ms(), Some(1000 + 15 * 60 * 1000));
    s.unpause();
    assert!(!s.paused());
    assert_eq!(s.resume_at_ms(), None);
}

#[test]
fn pause_runs_out_on_evaluation() {
    let mut s = RuntimeState::new(BALANCED_GUID.to_string());
    let c = config(true, 0);
    s.pause(1, 0).unwrap();
    assert!(!s.evaluate(&c, true, 59_999));
    assert!(s.paused());
    assert!(s.evaluate(&c, true, 60_000));
    assert!(!s.paused());
    assert_eq!(s.resume_at_ms(), None);
}

#[test]
fn evaluation_records_condition_and_target() {
    let mut s = RuntimeState::new(BALANCED_GUID.to_string());
    assert!(s.evaluate(&config(true, 0), true, 0));
    assert!(s.condition_met());
    assert_eq!(s.target_plan_guid(), BALANCED_GUID);
    assert!(!s.evaluate(&config(false, 0), false, 0));
    assert!(!s.condition_met());
    assert_eq!(s.target_plan_guid(), POWER_SAVER_GUID);
}

#[test]
fn rule_switches_after_cooldown_only() {
    let mut s = RuntimeState::new(BALANCED_GUID.to_string());
    let c = config(true, 20);
    assert!(s.evaluate(&c, false, 10_000));
    // 10 s since the start-up switch time of 0: cooldown of 20 s not over.
    assert_eq!(s.decide_switch(20, 10_000), None);
    assert_eq!(s.decide_switch(20, 20_000), Some(POWER_SAVER_GUID.to_string()));
    assert_eq!(s.active_plan_guid(), POWER_SAVER_GUID);
    assert_eq!(s.last_switch_ms(), 20_000);
    assert_eq!(s.switches_count(), 1);
    // Target reached: nothing more to do.
    assert_eq!(s.decide_switch(0, 100_000), None);
    // Load rises again: the cooldown runs from the last switch.
    assert!(s.evaluate(&c, true, 30_000));
    assert_eq!(s.decide_switch(20, 39_999), None);
    assert_eq!(s.decide_switch(20, 40_000), Some(BALANCED_GUID.to_string()));
    assert_eq!(s.switches_count(), 2);
}

#[test]
fn rule_ignores_case_of_active_plan() {
    let mut s = RuntimeState::new(BALANCED_GUID.to_uppercase());
    assert!(s.evaluate(&config(true, 0), true, 0));
    assert_eq!(s.decide_switch(0, 0), None);
}

#[test]
fn discovered_plan_fills_only_an_unknown_one() {
    let mut s = RuntimeState::new(String::new());
    assert!(s.active_plan_unknown());
    s.adopt_discovered_plan(HIGH.to_string());
    assert_eq!(s.active_plan_guid(), HIGH);
    s.adopt_discovered_plan(BALANCED_GUID.to_string());
    assert_eq!(s.active_plan_guid(), HIGH);
    assert!(!s.active_plan_unknown());
}

#[test]
fn pause_minutes_are_checked_alone() {
    assert_eq!(check_pause_minutes(1), Ok(()));
    assert_eq!(check_pause_minutes(30), Ok(()));
    assert_eq!(check_pause_minutes(0), Err("pause minutes must be in range 1..30".to_string()));
    assert_eq!(check_pause_minutes(31), Err("pause minutes must be in range 1..30".to_string()));
}

#[test]
fn rule_plans_must_be_listed() {
    let c = config(true, 20);
    assert_eq!(check_rule_plans(&c, Err("no powercfg".to_string())), Err("no powercfg".to_string()));
    let both = vec![plan(POWER_SAVER_GUID, "Saver", false), plan(&BALANCED_GUID.to_uppercase(), "Balanced", true)];
    assert_eq!(check_rule_plans(&c, Ok(both)), Ok(()));
    let no_high = vec![plan(POWER_SAVER_GUID, "Saver", false)];
    assert_eq!(
        check_rule_plans(&c, Ok(no_high)),
        Err(format!("power plan not found: {BALANCED_GUID}"))
    );
    let no_low = vec![plan(BALANCED_GUID, "Balanced", true)];
    assert_eq!(
        check_rule_plans(&c, Ok(no_low)),
        Err(format!("power plan not found: {POWER_SAVER_GUID}"))
    );
}
