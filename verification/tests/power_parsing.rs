use power_plan_pro::power::{
    extract_guid, extract_name, get_active_guid_fast, is_guid, parse_plan_list,
    powercfg_failure_message, PowerManager,
};

const LIST_OUTPUT: &str = "\r\nExisting Power Schemes (* Active)\r\n-----------------------------------\r\nPower Scheme GUID: 381b4222-f694-41f0-9685-ff5bb260df2e  (Balanced) *\r\nPower Scheme GUID: 8C5E7FDA-E8BF-4A96-9A85-A6E23A8C635C  (High performance)\r\nPower Scheme GUID: a1841308-3541-4fab-bc81-f71556f20b4a  (Power saver)\r\n";

#[test]
fn guid_shape_is_checked() {
    assert!(is_guid("381b4222-f694-41f0-9685-ff5bb260df2e"));
    assert!(is_guid("381B4222-F694-41F0-9685-FF5BB260DF2E"));
    assert!(!is_guid("381b4222-f694-41f0-9685-ff5bb260df2"));
    assert!(!is_guid("381b4222-f694-41f0-9685-ff5bb260df2e0"));
    assert!(!is_guid("381b4222xf694-41f0-9685-ff5bb260df2e"));
    assert!(!is_guid("381b4222-f694-41f0-9685-ff5bb260df2g"));
    assert!(!is_guid("381b4222-f694-41f0-9685-ff5bb260dfé"));
    assert!(!is_guid(""));
}

#[test]
fn guid_is_found_lowercased_among_tokens() {
    assert_eq!(
        extract_guid("Power Scheme GUID: 8C5E7FDA-E8BF-4A96-9A85-A6E23A8C635C  (High performance)"),
        Some("8c5e7fda-e8bf-4a96-9a85-a6e23a8c635c".to_string())
    );
    assert_eq!(
        extract_guid("*381b4222-f694-41f0-9685-ff5bb260df2e,:"),
        Some("381b4222-f694-41f0-9685-ff5bb260df2e".to_string())
    );
    assert_eq!(extract_guid("Existing Power Schemes (* Active)"), None);
    assert_eq!(extract_guid(""), None);
}

#[test]
fn name_is_text_between_outer_parentheses() {
    assert_eq!(extract_name("GUID: x  (Balanced) *"), Some("Balanced".to_string()));
    assert_eq!(extract_name("x ( My (custom) plan ) y"), Some("My (custom) plan".to_string()));
    assert_eq!(extract_name("x (   ) y"), None);
    assert_eq!(extract_name("x ) ( y"), None);
    assert_eq!(extract_name("no parentheses"), None);
    assert_eq!(extract_name("only (open"), None);
}

#[test]
fn plan_list_is_read_line_by_line() {
    let plans = parse_plan_list(LIST_OUTPUT);
    assert_eq!(plans.len(), 3);
    assert_eq!(plans[0].guid, "381b4222-f694-41f0-9685-ff5bb260df2e");
    assert_eq!(plans[0].name, "Balanced");
    assert!(plans[0].is_active);
    assert_eq!(plans[1].guid, "8c5e7fda-e8bf-4a96-9a85-a6e23a8c635c");
    assert_eq!(plans[1].name, "High performance");
    assert!(!plans[1].is_active);
    assert_eq!(plans[2].name, "Power saver");
    assert!(!plans[2].is_active);
}

#[test]
fn plan_without_name_is_unknown() {
    let plans = parse_plan_list("381b4222-f694-41f0-9685-ff5bb260df2e");
    assert_eq!(plans.len(), 1);
    assert_eq!(plans[0].name, "Unknown");
    assert!(!plans[0].is_active);
}

#[test]
fn list_plans_passes_errors_and_rejects_empty_output() {
    assert_eq!(PowerManager::list_plans(Err("boom".to_string())).err(), Some("boom".to_string()));
    assert_eq!(
        PowerManager::list_plans(Ok("nothing here\n".to_string())).err(),
        Some("no power plans found via powercfg".to_string())
    );
    let plans = PowerManager::list_plans(Ok(LIST_OUTPUT.to_string())).unwrap();
    assert_eq!(plans.len(), 3);
}

#[test]
fn active_plan_is_the_first_marked_one() {
    assert_eq!(
        PowerManager::get_active_plan_guid(Ok(LIST_OUTPUT.to_string())),
        Ok("381b4222-f694-41f0-9685-ff5bb260df2e".to_string())
    );
    let none_active = "Power Scheme GUID: a1841308-3541-4fab-bc81-f71556f20b4a  (Power saver)\n";
    assert_eq!(
        PowerManager::get_active_plan_guid(Ok(none_active.to_string())),
        Err("failed to detect active power plan".to_string())
    );
    assert_eq!(PowerManager::get_active_plan_guid(Err("e".to_string())), Err("e".to_string()));
}

#[test]
fn only_one_powercfg_run_at_a_time() {
    let mut pm = PowerManager::new();
    assert!(!pm.is_running());
    assert_eq!(pm.try_begin(), Ok(()));
    assert!(pm.is_running());
    assert_eq!(pm.try_begin(), Err("powercfg already running — skipping".to_string()));
    pm.finish();
    assert!(!pm.is_running());
    assert_eq!(pm.try_begin(), Ok(()));
}

#[test]
fn set_active_plan_builds_arguments() {
    assert_eq!(
        PowerManager::set_active_plan("a1841308-3541-4fab-bc81-f71556f20b4a"),
        vec!["/SETACTIVE".to_string(), "a1841308-3541-4fab-bc81-f71556f20b4a".to_string()]
    );
}

#[test]
fn active_scheme_is_read_and_lowercased() {
    let out = "Power Scheme GUID: 381B4222-F694-41F0-9685-FF5BB260DF2E  (Balanced)\r\n";
    assert_eq!(
        get_active_guid_fast(out),
        Some("381b4222-f694-41f0-9685-ff5bb260df2e".to_string())
    );
}

#[test]
fn active_scheme_is_read_in_any_language() {
    let french = "GUID du mode de gestion de l'alimentation : 381b4222-f694-41f0-9685-ff5bb260df2e  (Utilisation normale)\r\n";
    assert_eq!(
        get_active_guid_fast(french),
        Some("381b4222-f694-41f0-9685-ff5bb260df2e".to_string())
    );
    let german = "GUID des Energieschemas: A1841308-3541-4FAB-BC81-F71556F20B4A  (Energiesparmodus)";
    assert_eq!(
        get_active_guid_fast(german),
        Some("a1841308-3541-4fab-bc81-f71556f20b4a".to_string())
    );
}

#[test]
fn active_scheme_needs_a_whole_guid() {
    assert_eq!(get_active_guid_fast("Power Scheme GUID: 381b4222"), None);
    assert_eq!(get_active_guid_fast(""), None);
    assert_eq!(get_active_guid_fast("\u{130}381b4222-f694-41f0-9685-ff5bb260df2e"), None);
    let later = "Power Scheme GUID: short\nPower Scheme GUID: a1841308-3541-4fab-bc81-f71556f20b4a";
    assert_eq!(
        get_active_guid_fast(later),
        Some("a1841308-3541-4fab-bc81-f71556f20b4a".to_string())
    );
}

#[test]
fn extracted_guid_extracts_to_itself() {
    let g = extract_guid("x *8C5E7FDA-E8BF-4A96-9A85-A6E23A8C635C, y").unwrap();
    assert_eq!(g, "8c5e7fda-e8bf-4a96-9a85-a6e23a8c635c");
    assert!(is_guid(&g));
    assert_eq!(extract_guid(&g), Some(g.clone()));
}

#[test]
fn failure_message_names_code_and_output() {
    assert_eq!(
        powercfg_failure_message(Some(1), "  Invalid Parameters  \r\n", " detail "),
        "powercfg failed (code Some(1)): Invalid Parameters | detail"
    );
    assert_eq!(
        powercfg_failure_message(None, "out", "   "),
        "powercfg failed (code None): out"
    );
    assert_eq!(
        powercfg_failure_message(Some(-2147483648), "", ""),
        "powercfg failed (code Some(-2147483648)): "
    );
}
