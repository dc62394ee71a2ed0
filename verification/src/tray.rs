//! What the tray shows for a plan, and what its menu entries do.
use vstd::prelude::*;
use crate::text::{
    append_str, chars_of, has_prefix, slice_chars, starts_with_chars, str_equal, string_from,
    string_of, to_lowercase, unicode_lowercase,
};

verus! {

pub const GUID_BALANCED: &'static str = "381b4222-f694-41f0-9685-ff5bb260df2e";

pub const GUID_POWER_SAVER: &'static str = "a1841308-3541-4fab-bc81-f71556f20b4a";

pub const GUID_HIGH_PERF: &'static str = "8c5e7fda-e8bf-4a96-9a85-a6e23a8c635c";

pub const GUID_ULTRA_PERF: &'static str = "e9a42b02-d5df-448d-aa00-03f14749eb61";

/// The built-in schemes the tray tells apart.
#[derive(Debug, Clone, Copy, PartialEq, Eq)]
pub enum PlanKind {
    Balanced,
    PowerSaver,
    HighPerformance,
    Custom,
}

/// The kind of plan a lower-case GUID names.
pub open spec fn plan_kind(lower: Seq<char>) -> PlanKind {
    if lower == GUID_BALANCED@ {
        PlanKind::Balanced
    } else if lower == GUID_POWER_SAVER@ {
        PlanKind::PowerSaver
    } else if lower == GUID_HIGH_PERF@ || lower == GUID_ULTRA_PERF@ {
        PlanKind::HighPerformance
    } else {
        PlanKind::Custom
    }
}

/// The tray icon file for a kind of plan.
pub open spec fn icon_file(kind: PlanKind) -> Seq<char> {
    match kind {
        PlanKind::Balanced => "plan-balanced.ico"@,
        PlanKind::PowerSaver => "plan-power-saver.ico"@,
        PlanKind::HighPerformance => "plan-high-performance.ico"@,
        PlanKind::Custom => "plan-unknown.ico"@,
    }
}

/// The label for a kind of plan.
pub open spec fn plan_label(kind: PlanKind) -> Seq<char> {
    match kind {
        PlanKind::Balanced => "Balanced"@,
        PlanKind::PowerSaver => "Power Saver"@,
        PlanKind::HighPerformance => "High Performance"@,
        PlanKind::Custom => "Custom Plan"@,
    }
}

/// The kind of plan a GUID names, compared in lower case.
pub open spec fn guid_kind(guid: Seq<char>) -> PlanKind {
    plan_kind(unicode_lowercase(guid))
}

/// The kind of plan that the lower-case GUID `lower` names.
pub fn plan_kind_of_lowercase(lower: &str) -> (res: PlanKind)
    ensures
        res == plan_kind(lower@),
{
    if str_equal(lower, GUID_BALANCED) {
        PlanKind::Balanced
    } else if str_equal(lower, GUID_POWER_SAVER) {
        PlanKind::PowerSaver
    } else if str_equal(lower, GUID_HIGH_PERF) || str_equal(lower, GUID_ULTRA_PERF) {
        PlanKind::HighPerformance
    } else {
        PlanKind::Custom
    }
}

/// The kind of plan `guid` names, in any case.
pub fn plan_kind_of_guid(guid: &str) -> (res: PlanKind)
    ensures
        res == guid_kind(guid@),
{
    let lower = to_lowercase(guid);
    plan_kind_of_lowercase(lower.as_str())
}

/// The icon file for a kind of plan.
pub fn icon_filename(kind: PlanKind) -> (res: &'static str)
    ensures
        res@ == icon_file(kind),
{
    match kind {
        PlanKind::Balanced => "plan-balanced.ico",
        PlanKind::PowerSaver => "plan-power-saver.ico",
        PlanKind::HighPerformance => "plan-high-performance.ico",
        PlanKind::Custom => "plan-unknown.ico",
    }
}

/// The label for a kind of plan.
pub fn kind_label(kind: PlanKind) -> (res: &'static str)
    ensures
        res@ == plan_label(kind),
{
    match kind {
        PlanKind::Balanced => "Balanced",
        PlanKind::PowerSaver => "Power Saver",
        PlanKind::HighPerformance => "High Performance",
        PlanKind::Custom => "Custom Plan",
    }
}

/// The tray icon file for the plan `guid`.
pub fn icon_filename_for_guid(guid: &str) -> (res: &'static str)
    ensures
        res@ == icon_file(guid_kind(guid@)),
{
    icon_filename(plan_kind_of_guid(guid))
}

/// The label the tray shows for the plan `guid`.
pub fn static_plan_label(guid: &str) -> (res: &'static str)
    ensures
        res@ == plan_label(guid_kind(guid@)),
{
    kind_label(plan_kind_of_guid(guid))
}

/// The tray tooltip while `guid` is active.
pub fn tray_tooltip(guid: &str) -> (res: String)
    ensures
        res@ == "Power Plan Pro \u{2014} "@ + plan_label(guid_kind(guid@)),
{
    let mut v = chars_of("Power Plan Pro \u{2014} ");
    append_str(&mut v, static_plan_label(guid));
    string_of(&v)
}

// ---------------------------------------------------------------------------
// The menu
// ---------------------------------------------------------------------------

/// What a tray menu entry asks for.
pub enum MenuAction {
    ShowWindow,
    /// Pause the rule for this many minutes.
    Pause(u32),
    Quit,
    SwitchPlan(String),
    /// An entry the tray does not know.
    Ignore,
}

/// The mathematical content of a [`MenuAction`].
pub enum MenuCommand {
    ShowWindow,
    Pause(u32),
    Quit,
    SwitchPlan(Seq<char>),
    Ignore,
}

impl View for MenuAction {
    type V = MenuCommand;

    open spec fn view(&self) -> MenuCommand {
        match self {
            MenuAction::ShowWindow => MenuCommand::ShowWindow,
            MenuAction::Pause(m) => MenuCommand::Pause(*m),
            MenuAction::Quit => MenuCommand::Quit,
            MenuAction::SwitchPlan(g) => MenuCommand::SwitchPlan(g@),
            MenuAction::Ignore => MenuCommand::Ignore,
        }
    }
}

/// The menu entry id of the plan `guid`.
pub open spec fn plan_entry_id(guid: Seq<char>) -> Seq<char> {
    "plan:"@ + guid
}

/// What the menu entry `id` asks for.
pub open spec fn menu_command(id: Seq<char>) -> MenuCommand {
    if id == "show"@ {
        MenuCommand::ShowWindow
    } else if id == "pause_15"@ {
        MenuCommand::Pause(15)
    } else if id == "quit"@ {
        MenuCommand::Quit
    } else if has_prefix(id, "plan:"@) {
        MenuCommand::SwitchPlan(id.skip("plan:"@.len() as int))
    } else {
        MenuCommand::Ignore
    }
}

/// The menu entry id of the plan `guid`.
pub fn plan_menu_id(guid: &str) -> (res: String)
    ensures
        res@ == plan_entry_id(guid@),
{
    let mut v = chars_of("plan:");
    append_str(&mut v, guid);
    string_of(&v)
}

/// What the menu entry `id` asks for.
pub fn menu_action(id: &str) -> (res: MenuAction)
    ensures
        res@ == menu_command(id@),
{
    if str_equal(id, "show") {
        return MenuAction::ShowWindow;
    }
    if str_equal(id, "pause_15") {
        return MenuAction::Pause(15);
    }
    if str_equal(id, "quit") {
        return MenuAction::Quit;
    }
    let v = chars_of(id);
    let prefix = chars_of("plan:");
    if starts_with_chars(&v, &prefix) {
        let rest = slice_chars(&v, prefix.len(), v.len());
        assert(rest@ =~= id@.skip("plan:"@.len() as int));
        MenuAction::SwitchPlan(string_of(&rest))
    } else {
        MenuAction::Ignore
    }
}

// ---------------------------------------------------------------------------
// Laws
// ---------------------------------------------------------------------------

/// The icon and the label agree on the plan: the unknown icon goes with
/// the custom label, and the balanced icon with the balanced label.
pub proof fn law_icon_and_label_agree(guid: Seq<char>)
    ensures
        icon_file(guid_kind(guid)) == "plan-unknown.ico"@ <==> plan_label(guid_kind(guid))
            == "Custom Plan"@,
        icon_file(guid_kind(guid)) == "plan-balanced.ico"@ <==> plan_label(guid_kind(guid))
            == "Balanced"@,
{
    reveal_strlit("plan-unknown.ico");
    reveal_strlit("plan-balanced.ico");
    reveal_strlit("plan-power-saver.ico");
    reveal_strlit("plan-high-performance.ico");
    reveal_strlit("Custom Plan");
    reveal_strlit("Balanced");
    reveal_strlit("Power Saver");
    reveal_strlit("High Performance");
    let unknown = "plan-unknown.ico"@;
    let balanced = "plan-balanced.ico"@;
    let saver = "plan-power-saver.ico"@;
    let high = "plan-high-performance.ico"@;
    assert(unknown.len() == 16 && balanced.len() == 17 && saver.len() == 20 && high.len() == 25);
    let custom_l = "Custom Plan"@;
    let balanced_l = "Balanced"@;
    let saver_l = "Power Saver"@;
    let high_l = "High Performance"@;
    assert(custom_l.len() == 11 && balanced_l.len() == 8 && high_l.len() == 16);
    assert(saver_l[0] != custom_l[0]);
    assert(saver_l != custom_l);
}

/// A plan's menu entry asks to switch to exactly that plan.
pub proof fn law_plan_entry_round_trip(guid: Seq<char>)
    ensures
        menu_command(plan_entry_id(guid)) == MenuCommand::SwitchPlan(guid),
{
    reveal_strlit("plan:");
    reveal_strlit("show");
    reveal_strlit("pause_15");
    reveal_strlit("quit");
    let id = plan_entry_id(guid);
    assert(id[0] == 'p');
    assert(id[4] == ':');
    assert(id != "show"@) by {
        if id.len() == 4 {
            assert(id[0] != "show"@[0]);
        }
    }
    assert(id != "quit"@) by {
        if id.len() == 4 {
            assert(id[0] != "quit"@[0]);
        }
    }
    assert(id != "pause_15"@) by {
        if id.len() == 8 {
            assert(id[1] != "pause_15"@[1]);
        }
    }
    assert(id.take(5) =~= "plan:"@);
    assert(id.skip(5) =~= guid);
}

/// The four built-in GUIDs, in lower case, name their own kind of plan;
/// every other text names a custom plan. Upper-case spellings are the same
/// plans, as the GUID is lower-cased first.
pub proof fn law_known_plans(lower: Seq<char>)
    ensures
        lower == GUID_BALANCED@ ==> plan_kind(lower) == PlanKind::Balanced,
        lower == GUID_POWER_SAVER@ ==> plan_kind(lower) == PlanKind::PowerSaver,
        lower == GUID_HIGH_PERF@ ==> plan_kind(lower) == PlanKind::HighPerformance,
        lower == GUID_ULTRA_PERF@ ==> plan_kind(lower) == PlanKind::HighPerformance,
        lower != GUID_BALANCED@ && lower != GUID_POWER_SAVER@ && lower != GUID_HIGH_PERF@ && lower
            != GUID_ULTRA_PERF@ ==> plan_kind(lower) == PlanKind::Custom,
        plan_kind(lower) == PlanKind::Balanced ==> icon_file(plan_kind(lower))
            == "plan-balanced.ico"@ && plan_label(plan_kind(lower)) == "Balanced"@,
        plan_kind(lower) == PlanKind::PowerSaver ==> icon_file(plan_kind(lower))
            == "plan-power-saver.ico"@ && plan_label(plan_kind(lower)) == "Power Saver"@,
        plan_kind(lower) == PlanKind::HighPerformance ==> icon_file(plan_kind(lower))
            == "plan-high-performance.ico"@ && plan_label(plan_kind(lower))
            == "High Performance"@,
        plan_kind(lower) == PlanKind::Custom ==> icon_file(plan_kind(lower))
            == "plan-unknown.ico"@ && plan_label(plan_kind(lower)) == "Custom Plan"@,
{
    reveal_strlit("381b4222-f694-41f0-9685-ff5bb260df2e");
    reveal_strlit("a1841308-3541-4fab-bc81-f71556f20b4a");
    reveal_strlit("8c5e7fda-e8bf-4a96-9a85-a6e23a8c635c");
    reveal_strlit("e9a42b02-d5df-448d-aa00-03f14749eb61");
    assert(GUID_BALANCED@[0] != GUID_POWER_SAVER@[0]);
    assert(GUID_BALANCED@[0] != GUID_HIGH_PERF@[0]);
    assert(GUID_BALANCED@[0] != GUID_ULTRA_PERF@[0]);
    assert(GUID_POWER_SAVER@[0] != GUID_HIGH_PERF@[0]);
    assert(GUID_POWER_SAVER@[0] != GUID_ULTRA_PERF@[0]);
}

} // verus!
