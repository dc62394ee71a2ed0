use power_plan_pro::tray::{
    icon_filename_for_guid, menu_action, plan_kind_of_lowercase, plan_menu_id,
    static_plan_label, tray_tooltip, MenuAction, PlanKind,
};

#[test]
fn icons_follow_the_plan_in_any_case() {
    assert_eq!(icon_filename_for_guid("381b4222-f694-41f0-9685-ff5bb260df2e"), "plan-balanced.ico");
    assert_eq!(icon_filename_for_guid("381B4222-F694-41F0-9685-FF5BB260DF2E"), "plan-balanced.ico");
    assert_eq!(icon_filename_for_guid("A1841308-3541-4fab-bc81-f71556f20b4a"), "plan-power-saver.ico");
    assert_eq!(icon_filename_for_guid("8c5e7fda-e8bf-4a96-9a85-a6e23a8c635c"), "plan-high-performance.ico");
    assert_eq!(icon_filename_for_guid("E9A42B02-D5DF-448D-AA00-03F14749EB61"), "plan-high-performance.ico");
    assert_eq!(icon_filename_for_guid("00000000-0000-0000-0000-000000000000"), "plan-unknown.ico");
}

#[test]
fn labels_follow_the_plan() {
    assert_eq!(static_plan_label("381B4222-F694-41F0-9685-FF5BB260DF2E"), "Balanced");
    assert_eq!(static_plan_label("a1841308-3541-4fab-bc81-f71556f20b4a"), "Power Saver");
    assert_eq!(static_plan_label("e9a42b02-d5df-448d-aa00-03f14749eb61"), "High Performance");
    assert_eq!(static_plan_label(""), "Custom Plan");
}

#[test]
fn kind_of_lowercase_guid_is_exact() {
    assert_eq!(plan_kind_of_lowercase("381b4222-f694-41f0-9685-ff5bb260df2e"), PlanKind::Balanced);
    // The comparison itself is case-sensitive: lower-casing comes first.
    assert_eq!(plan_kind_of_lowercase("381B4222-F694-41F0-9685-FF5BB260DF2E"), PlanKind::Custom);
}

#[test]
fn tooltip_names_the_plan() {
    assert_eq!(
        tray_tooltip("a1841308-3541-4fab-bc81-f71556f20b4a"),
        "Power Plan Pro \u{2014} Power Saver"
    );
}

#[test]
fn menu_entries_map_to_actions() {
    assert!(matches!(menu_action("show"), MenuAction::ShowWindow));
    assert!(matches!(menu_action("pause_15"), MenuAction::Pause(15)));
    assert!(matches!(menu_action("quit"), MenuAction::Quit));
    assert!(matches!(menu_action("other"), MenuAction::Ignore));
    assert!(matches!(menu_action("plan"), MenuAction::Ignore));
    match menu_action("plan:abc") {
        MenuAction::SwitchPlan(g) => assert_eq!(g, "abc"),
        _ => panic!("expected a plan switch"),
    }
}

#[test]
fn plan_entry_round_trips() {
    let guid = "381b4222-f694-41f0-9685-ff5bb260df2e";
    let id = plan_menu_id(guid);
    assert_eq!(id, "plan:381b4222-f694-41f0-9685-ff5bb260df2e");
    match menu_action(&id) {
        MenuAction::SwitchPlan(g) => assert_eq!(g, guid),
        _ => panic!("expected a plan switch"),
    }
    match menu_action(&plan_menu_id("show")) {
        MenuAction::SwitchPlan(g) => assert_eq!(g, "show"),
        _ => panic!("expected a plan switch"),
    }
}
