//! The rule engine: which power plan the machine should run, when to switch
//! to it, and the window of load samples that the decision averages.
//!
//! Load figures are floating point and stay with the caller: it averages the
//! window and compares the averages with the thresholds, and hands the engine
//! the outcome as booleans. Everything else the engine decides is here.
use vstd::prelude::*;
use std::collections::VecDeque;
use crate::power::{PlanView, PowerPlan, plan_views};
use crate::text::{
    append_str, chars_of, eq_ignore_ascii_case, eq_ignore_case, string_from, string_of,
};

verus! {

/// GUID of the built-in "Balanced" scheme.
pub const BALANCED_GUID: &'static str = "381b4222-f694-41f0-9685-ff5bb260df2e";

/// GUID of the built-in "Power saver" scheme.
pub const POWER_SAVER_GUID: &'static str = "a1841308-3541-4fab-bc81-f71556f20b4a";

/// The number of one-second samples the engine keeps.
pub const MAX_WINDOW_SECONDS: usize = 900;

/// How long after one switch a manual switch is ignored, in milliseconds.
pub const MANUAL_DEBOUNCE_MS: u64 = 2000;

// ---------------------------------------------------------------------------
// Rules
// ---------------------------------------------------------------------------

/// How the CPU and GPU conditions combine.
#[derive(Debug, Clone, Copy)]
pub enum ConditionMode {
    /// Both loads must reach their thresholds.
    And,
    /// Either load reaching its threshold suffices.
    Or,
}

impl ConditionMode {
    pub open spec fn holds(self, cpu_match: bool, gpu_match: bool) -> bool {
        match self {
            ConditionMode::And => cpu_match && gpu_match,
            ConditionMode::Or => cpu_match || gpu_match,
        }
    }

    /// Whether the high-load condition is met, given whether each average
    /// reached its threshold.
    pub fn combine(&self, cpu_match: bool, gpu_match: bool) -> (res: bool)
        ensures
            res == self.holds(cpu_match, gpu_match),
    {
        match self {
            ConditionMode::And => cpu_match && gpu_match,
            ConditionMode::Or => cpu_match || gpu_match,
        }
    }
}

/// The settings of the load rule that the engine itself reads. The CPU and
/// GPU thresholds are floating point: the caller checks their range and
/// compares the averages with them.
pub struct RuleConfig {
    pub enabled: bool,
    pub condition_mode: ConditionMode,
    pub duration_seconds: u32,
    pub cooldown_seconds: u32,
    pub high_load_plan_guid: String,
    pub low_load_plan_guid: String,
}

/// What is wrong with `config`, in the order the checks run, if anything.
pub open spec fn rule_config_problem(config: RuleConfig) -> Option<Seq<char>> {
    if config.duration_seconds == 0 || config.duration_seconds > MAX_WINDOW_SECONDS {
        Some("durationSeconds must be in range 1..900"@)
    } else if config.cooldown_seconds > 3600 {
        Some("cooldownSeconds must be <= 3600"@)
    } else if eq_ignore_case(config.high_load_plan_guid@, config.low_load_plan_guid@) {
        Some("highLoadPlanGuid and lowLoadPlanGuid must be different"@)
    } else {
        None
    }
}

/// Checks the duration, the cooldown and that the two plans differ.
pub fn validate_rule_config(config: &RuleConfig) -> (res: Result<(), String>)
    ensures
        match rule_config_problem(*config) {
            None => res is Ok,
            Some(msg) => res matches Err(e) && e@ == msg,
        },
{
    if config.duration_seconds == 0 || config.duration_seconds as usize > MAX_WINDOW_SECONDS {
        return Err(string_from("durationSeconds must be in range 1..900"));
    }
    if config.cooldown_seconds > 3600 {
        return Err(string_from("cooldownSeconds must be <= 3600"));
    }
    if eq_ignore_ascii_case(
        config.high_load_plan_guid.as_str(),
        config.low_load_plan_guid.as_str(),
    ) {
        return Err(string_from("highLoadPlanGuid and lowLoadPlanGuid must be different"));
    }
    Ok(())
}

/// Whether some plan's GUID equals `guid` up to ASCII case.
pub open spec fn guid_listed(plans: Seq<PlanView>, guid: Seq<char>) -> bool {
    exists|i: int| 0 <= i < plans.len() && eq_ignore_case(#[trigger] plans[i].guid, guid)
}

/// Index of the first plan whose GUID equals `guid` up to ASCII case.
pub open spec fn first_match(plans: Seq<PlanView>, guid: Seq<char>) -> Option<int> {
    if guid_listed(plans, guid) {
        Some(
            choose|i: int|
                0 <= i < plans.len() && eq_ignore_case(#[trigger] plans[i].guid, guid) && forall|
                    k: int,
                | 0 <= k < i ==> !eq_ignore_case(plans[k].guid, guid),
        )
    } else {
        None
    }
}

fn find_plan(plans: &Vec<PowerPlan>, guid: &str) -> (res: Option<usize>)
    ensures
        match res {
            Some(i) => first_match(plan_views(plans@), guid@) == Some(i as int) && i
                < plans.len(),
            None => first_match(plan_views(plans@), guid@) is None,
        },
{
    let ghost pv = plan_views(plans@);
    let mut i: usize = 0;
    while i < plans.len()
        invariant
            i <= plans.len(),
            pv == plan_views(plans@),
            forall|k: int| 0 <= k < i ==> !eq_ignore_case(pv[k].guid, guid@),
        decreases plans.len() - i,
    {
        if eq_ignore_ascii_case(plans[i].guid.as_str(), guid) {
            proof {
                assert(eq_ignore_case(pv[i as int].guid, guid@));
                let j = choose|j: int|
                    0 <= j < pv.len() && eq_ignore_case(#[trigger] pv[j].guid, guid@) && forall|
                        k: int,
                    | 0 <= k < j ==> !eq_ignore_case(pv[k].guid, guid@);
                if j < i {
                    assert(!eq_ignore_case(pv[j].guid, guid@));
                }
                if i < j {
                    assert(!eq_ignore_case(pv[i as int].guid, guid@));
                }
            }
            return Some(i);
        }
        i = i + 1;
    }
    assert(!guid_listed(pv, guid@));
    None
}

/// Succeeds where some plan has `guid`, up to ASCII case.
pub fn ensure_guid_exists(plans: &Vec<PowerPlan>, guid: &str) -> (res: Result<(), String>)
    ensures
        guid_listed(plan_views(plans@), guid@) ==> res is Ok,
        !guid_listed(plan_views(plans@), guid@) ==> (res matches Err(e) && e@
            == "power plan not found: "@ + guid@),
{
    if find_plan(plans, guid).is_some() {
        Ok(())
    } else {
        let mut msg = chars_of("power plan not found: ");
        append_str(&mut msg, guid);
        Err(string_of(&msg))
    }
}

/// Checks a new rule against the plans that `powercfg` listed: the listing's
/// error where it failed, else that both plans of the rule are listed, the
/// high-load plan first.
pub fn check_rule_plans(config: &RuleConfig, listed: Result<Vec<PowerPlan>, String>) -> (res: Result<
    (),
    String,
>)
    ensures
        match listed {
            Err(e) => res == Err::<(), String>(e),
            Ok(plans) => if !guid_listed(plan_views(plans@), config.high_load_plan_guid@) {
                res matches Err(e) && e@ == "power plan not found: "@ + config.high_load_plan_guid@
            } else if !guid_listed(plan_views(plans@), config.low_load_plan_guid@) {
                res matches Err(e) && e@ == "power plan not found: "@ + config.low_load_plan_guid@
            } else {
                res is Ok
            },
        },
{
    let plans = listed?;
    ensure_guid_exists(&plans, config.high_load_plan_guid.as_str())?;
    ensure_guid_exists(&plans, config.low_load_plan_guid.as_str())?;
    Ok(())
}

/// The GUID chosen for a rule: the listed spelling of `preferred` where it
/// is listed, else of `fallback`, else the first plan's.
pub open spec fn selected_guid(plans: Seq<PlanView>, preferred: Seq<char>, fallback: Seq<char>) -> Seq<
    char,
> {
    match first_match(plans, preferred) {
        Some(i) => plans[i].guid,
        None => match first_match(plans, fallback) {
            Some(j) => plans[j].guid,
            None => plans[0].guid,
        },
    }
}

/// Picks a plan's GUID: `preferred` if listed, else `fallback`, else the
/// first plan.
pub fn select_plan_guid(plans: &Vec<PowerPlan>, preferred_guid: &str, fallback_guid: &str) -> (res:
    String)
    requires
        plans.len() > 0,
    ensures
        res@ == selected_guid(plan_views(plans@), preferred_guid@, fallback_guid@),
{
    if let Some(i) = find_plan(plans, preferred_guid) {
        return plans[i].guid.clone();
    }
    if let Some(j) = find_plan(plans, fallback_guid) {
        return plans[j].guid.clone();
    }
    plans[0].guid.clone()
}

/// The GUID of the first plan marked active, else of the first plan.
pub open spec fn initial_active_guid(plans: Seq<PlanView>) -> Seq<char> {
    match crate::power::first_active(plans) {
        Some(i) => plans[i].guid,
        None => plans[0].guid,
    }
}

/// The rule the engine starts with: disabled, either load suffices, a 30 s
/// average and a 20 s cooldown, "Balanced" for high load and "Power saver"
/// for low load where listed, else the active plan.
pub open spec fn initial_rule(plans: Seq<PlanView>, config: RuleConfig) -> bool {
    let active = initial_active_guid(plans);
    &&& !config.enabled
    &&& config.condition_mode == ConditionMode::Or
    &&& config.duration_seconds == 30
    &&& config.cooldown_seconds == 20
    &&& config.high_load_plan_guid@ == selected_guid(plans, BALANCED_GUID@, active)
    &&& config.low_load_plan_guid@ == selected_guid(plans, POWER_SAVER_GUID@, active)
}

/// The active plan's GUID and the rule that the engine starts with, for the
/// plans that `powercfg` listed.
pub fn initial_setup(plans: &Vec<PowerPlan>) -> (res: (String, RuleConfig))
    requires
        plans.len() > 0,
    ensures
        res.0@ == initial_active_guid(plan_views(plans@)),
        initial_rule(plan_views(plans@), res.1),
{
    let active = match crate::power::find_active(plans) {
        Some(i) => plans[i].guid.clone(),
        None => plans[0].guid.clone(),
    };
    let high = select_plan_guid(plans, BALANCED_GUID, active.as_str());
    let low = select_plan_guid(plans, POWER_SAVER_GUID, active.as_str());
    let config = RuleConfig {
        enabled: false,
        condition_mode: ConditionMode::Or,
        duration_seconds: 30,
        cooldown_seconds: 20,
        high_load_plan_guid: high,
        low_load_plan_guid: low,
    };
    (active, config)
}

// ---------------------------------------------------------------------------
// The window of samples
// ---------------------------------------------------------------------------

/// The last `n` items of `s`, or all of them where there are fewer.
pub open spec fn keep_last<T>(s: Seq<T>, n: nat) -> Seq<T> {
    if s.len() > n {
        s.skip(s.len() - n)
    } else {
        s
    }
}

/// The most recent samples, oldest first, at most [`MAX_WINDOW_SECONDS`].
pub struct SampleWindow<T> {
    samples: VecDeque<T>,
}

impl<T> View for SampleWindow<T> {
    type V = Seq<T>;

    closed spec fn view(&self) -> Seq<T> {
        self.samples@
    }
}

impl<T> SampleWindow<T> {
    pub fn new() -> (res: Self)
        ensures
            res@ == Seq::<T>::empty(),
    {
        SampleWindow { samples: VecDeque::with_capacity(MAX_WINDOW_SECONDS) }
    }

    pub fn len(&self) -> (res: usize)
        ensures
            res == self@.len(),
    {
        self.samples.len()
    }

    /// The sample at `i`, counted from the oldest.
    pub fn get(&self, i: usize) -> (res: &T)
        requires
            i < self@.len(),
        ensures
            *res == self@[i as int],
    {
        &self.samples[i]
    }

    /// Appends the newest sample and drops the oldest ones beyond
    /// [`MAX_WINDOW_SECONDS`].
    pub fn push(&mut self, sample: T)
        requires
            old(self)@.len() <= MAX_WINDOW_SECONDS,
        ensures
            final(self)@ == keep_last(old(self)@.push(sample), MAX_WINDOW_SECONDS as nat),
            final(self)@.len() <= MAX_WINDOW_SECONDS,
            final(self)@.last() == sample,
    {
        let ghost pushed = self.samples@.push(sample);
        self.samples.push_back(sample);
        assert(self.samples@ == pushed);
        while self.samples.len() > MAX_WINDOW_SECONDS
            invariant
                pushed.len() <= MAX_WINDOW_SECONDS + 1,
                self.samples@ == keep_last(pushed, self.samples@.len()),
                self.samples@.len() <= pushed.len(),
                self.samples@.len() == pushed.len() || self.samples@.len()
                    >= MAX_WINDOW_SECONDS,
            decreases self.samples@.len(),
        {
            let ghost before = self.samples@;
            let _ = self.samples.pop_front();
            assert(self.samples@ =~= keep_last(pushed, self.samples@.len()));
        }
        assert(self.samples@ =~= keep_last(pushed, MAX_WINDOW_SECONDS as nat));
    }

    /// Index of the first of the `take_count` most recent samples, or 0 where
    /// there are fewer samples.
    pub fn recent_start(&self, take_count: usize) -> (res: usize)
        ensures
            res == (if take_count < self@.len() {
                self@.len() - take_count
            } else {
                0
            }),
    {
        let n = self.samples.len();
        if take_count < n {
            n - take_count
        } else {
            0
        }
    }
}

/// The number of samples a rule averages: its duration, at least one.
pub fn sample_count(config: &RuleConfig) -> (res: usize)
    ensures
        res == (if config.duration_seconds == 0 {
            1
        } else {
            config.duration_seconds
        }),
{
    if config.duration_seconds == 0 {
        1
    } else {
        config.duration_seconds as usize
    }
}

// ---------------------------------------------------------------------------
// Runtime state
// ---------------------------------------------------------------------------

/// `a - b`, or 0 where `b` is larger.
pub open spec fn elapsed(now: u64, since: u64) -> int {
    if now >= since {
        now - since
    } else {
        0
    }
}

/// `n + 1`, held at `u64::MAX`.
pub open spec fn count_up(n: u64) -> u64 {
    if n == u64::MAX {
        n
    } else {
        (n + 1) as u64
    }
}

/// `n + 1`, wrapping to 0 after `u64::MAX`.
pub open spec fn wrap_up(n: u64) -> u64 {
    if n == u64::MAX {
        0
    } else {
        (n + 1) as u64
    }
}

/// The mathematical content of the engine's runtime state.
pub struct EngineView {
    pub active_plan_guid: Seq<char>,
    pub condition_met: bool,
    pub target_plan_guid: Seq<char>,
    pub last_switch_ms: u64,
    pub switches_count: u64,
    pub tick_count: u64,
    pub paused: bool,
    pub resume_at_ms: Option<u64>,
}

impl EngineView {
    /// The engine is paused exactly while a resume time is set.
    pub open spec fn wf(self) -> bool {
        self.paused <==> self.resume_at_ms is Some
    }

    /// The state after the poll counter advanced.
    pub open spec fn polled(self) -> EngineView {
        EngineView { tick_count: wrap_up(self.tick_count), ..self }
    }

    /// Whether the active plan is to be read back from the system on this
    /// poll: every third one, and only once a plan is known.
    pub open spec fn poll_due(self) -> bool {
        self.polled().tick_count % 3 == 0 && self.active_plan_guid.len() > 0
    }

    /// Whether `actual`, read from the system, differs from the plan the
    /// engine believes active.
    pub open spec fn external_change(self, actual: Seq<char>) -> bool {
        !eq_ignore_case(actual, self.active_plan_guid)
    }

    /// The state after the plan `actual` was seen active at `now`.
    pub open spec fn observed(self, actual: Seq<char>, now: u64) -> EngineView {
        if self.external_change(actual) {
            EngineView { active_plan_guid: actual, last_switch_ms: now, ..self }
        } else {
            self
        }
    }

    /// Whether a requested switch at `now` is outside the debounce interval.
    pub open spec fn manual_switch_allowed(self, now: u64) -> bool {
        elapsed(now, self.last_switch_ms) >= MANUAL_DEBOUNCE_MS
    }

    /// The state after a requested switch to `plan` at `now`.
    pub open spec fn manually_switched(self, plan: Seq<char>, now: u64) -> EngineView {
        if self.manual_switch_allowed(now) {
            EngineView {
                active_plan_guid: plan,
                last_switch_ms: now,
                switches_count: count_up(self.switches_count),
                ..self
            }
        } else {
            self
        }
    }

    /// The state after a pause of `minutes` from `now`.
    pub open spec fn paused_for(self, minutes: u32, now: u64) -> EngineView {
        EngineView {
            paused: true,
            resume_at_ms: Some((now + minutes * 60000) as u64),
            ..self
        }
    }

    /// The state after the engine was resumed.
    pub open spec fn resumed(self) -> EngineView {
        EngineView { paused: false, resume_at_ms: None, ..self }
    }

    /// Whether a pause has run out at `now`.
    pub open spec fn pause_expired(self, now: u64) -> bool {
        self.paused && (self.resume_at_ms matches Some(r) && now >= r)
    }

    /// The state after one evaluation of the rule at `now`: an expired pause
    /// ends, and the condition and the plan it calls for are recorded.
    pub open spec fn evaluated(self, config: RuleConfig, condition_met: bool, now: u64) -> EngineView {
        let s = if self.pause_expired(now) {
            self.resumed()
        } else {
            self
        };
        EngineView {
            condition_met,
            target_plan_guid: if condition_met {
                config.high_load_plan_guid@
            } else {
                config.low_load_plan_guid@
            },
            ..s
        }
    }

    /// The state after a plan read from the system was adopted where none
    /// was known.
    pub open spec fn adopted(self, discovered: Seq<char>) -> EngineView {
        if self.active_plan_guid.len() == 0 {
            EngineView { active_plan_guid: discovered, ..self }
        } else {
            self
        }
    }

    /// Whether the rule switches to its target plan at `now`: the target is
    /// not already active, and the cooldown since the last switch is over.
    pub open spec fn switch_due(self, cooldown_seconds: u32, now: u64) -> bool {
        &&& !eq_ignore_case(self.active_plan_guid, self.target_plan_guid)
        &&& (cooldown_seconds == 0 || elapsed(now, self.last_switch_ms) >= cooldown_seconds
            * 1000)
    }

    /// The state after the rule switched to its target at `now`.
    pub open spec fn switched(self, now: u64) -> EngineView {
        EngineView {
            active_plan_guid: self.target_plan_guid,
            last_switch_ms: now,
            switches_count: count_up(self.switches_count),
            ..self
        }
    }
}

/// Accepts a pause of 1 to 30 minutes.
pub fn check_pause_minutes(minutes: u32) -> (res: Result<(), String>)
    ensures
        1 <= minutes <= 30 ==> res is Ok,
        !(1 <= minutes <= 30) ==> (res matches Err(e) && e@
            == "pause minutes must be in range 1..30"@),
{
    if minutes == 0 || minutes > 30 {
        return Err(string_from("pause minutes must be in range 1..30"));
    }
    Ok(())
}

/// What the engine remembers between ticks.
pub struct RuntimeState {
    active_plan_guid: String,
    condition_met: bool,
    target_plan_guid: String,
    last_switch_ms: u64,
    switches_count: u64,
    tick_count: u64,
    paused: bool,
    resume_at_ms: Option<u64>,
}

impl View for RuntimeState {
    type V = EngineView;

    closed spec fn view(&self) -> EngineView {
        EngineView {
            active_plan_guid: self.active_plan_guid@,
            condition_met: self.condition_met,
            target_plan_guid: self.target_plan_guid@,
            last_switch_ms: self.last_switch_ms,
            switches_count: self.switches_count,
            tick_count: self.tick_count,
            paused: self.paused,
            resume_at_ms: self.resume_at_ms,
        }
    }
}

impl RuntimeState {
    /// The state at start-up, with `active_plan_guid` active.
    pub fn new(active_plan_guid: String) -> (res: Self)
        ensures
            res@ == (EngineView {
                active_plan_guid: active_plan_guid@,
                condition_met: false,
                target_plan_guid: Seq::<char>::empty(),
                last_switch_ms: 0,
                switches_count: 0,
                tick_count: 0,
                paused: false,
                resume_at_ms: None,
            }),
            res@.wf(),
    {
        RuntimeState {
            active_plan_guid,
            condition_met: false,
            target_plan_guid: String::new(),
            last_switch_ms: 0,
            switches_count: 0,
            tick_count: 0,
            paused: false,
            resume_at_ms: None,
        }
    }

    pub fn active_plan_guid(&self) -> (res: String)
        ensures
            res@ == self@.active_plan_guid,
    {
        self.active_plan_guid.clone()
    }

    pub fn condition_met(&self) -> (res: bool)
        ensures
            res == self@.condition_met,
    {
        self.condition_met
    }

    pub fn target_plan_guid(&self) -> (res: String)
        ensures
            res@ == self@.target_plan_guid,
    {
        self.target_plan_guid.clone()
    }

    pub fn last_switch_ms(&self) -> (res: u64)
        ensures
            res == self@.last_switch_ms,
    {
        self.last_switch_ms
    }

    pub fn switches_count(&self) -> (res: u64)
        ensures
            res == self@.switches_count,
    {
        self.switches_count
    }

    pub fn paused(&self) -> (res: bool)
        ensures
            res == self@.paused,
    {
        self.paused
    }

    pub fn resume_at_ms(&self) -> (res: Option<u64>)
        ensures
            res == self@.resume_at_ms,
    {
        self.resume_at_ms
    }

    /// Whether no active plan is known yet.
    pub fn active_plan_unknown(&self) -> (res: bool)
        ensures
            res == (self@.active_plan_guid.len() == 0),
    {
        self.active_plan_guid.as_str().is_empty()
    }

    /// Advances the poll counter and says whether to read the active plan
    /// back from the system now.
    pub fn poll_due(&mut self) -> (res: bool)
        requires
            old(self)@.wf(),
        ensures
            final(self)@ == old(self)@.polled(),
            res == old(self)@.poll_due(),
            final(self)@.wf(),
    {
        self.tick_count = self.tick_count.wrapping_add(1);
        self.tick_count % 3 == 0 && !self.active_plan_guid.as_str().is_empty()
    }

    /// Records that the system reports `actual` active at `now`. Where that
    /// is another plan than the engine believed, it becomes the active plan,
    /// counts as the last switch, and is returned.
    pub fn observe_active_plan(&mut self, actual: String, now_ms: u64) -> (res: Option<String>)
        requires
            old(self)@.wf(),
        ensures
            final(self)@ == old(self)@.observed(actual@, now_ms),
            old(self)@.external_change(actual@) ==> (res matches Some(g) && g@ == actual@),
            !old(self)@.external_change(actual@) ==> res is None,
            final(self)@.wf(),
    {
        if eq_ignore_ascii_case(actual.as_str(), self.active_plan_guid.as_str()) {
            return None;
        }
        let reported = actual.clone();
        self.active_plan_guid = actual;
        self.last_switch_ms = now_ms;
        Some(reported)
    }

    /// A requested switch to `plan_guid` at `now`. Within
    /// [`MANUAL_DEBOUNCE_MS`] of the last switch it is ignored and `false`
    /// returned; else the plan becomes active and `true` is returned.
    pub fn begin_manual_switch(&mut self, plan_guid: String, now_ms: u64) -> (res: bool)
        requires
            old(self)@.wf(),
        ensures
            final(self)@ == old(self)@.manually_switched(plan_guid@, now_ms),
            res == old(self)@.manual_switch_allowed(now_ms),
            final(self)@.wf(),
    {
        let since = now_ms.saturating_sub(self.last_switch_ms);
        if since < MANUAL_DEBOUNCE_MS {
            return false;
        }
        self.last_switch_ms = now_ms;
        self.active_plan_guid = plan_guid;
        self.switches_count = self.switches_count.saturating_add(1);
        true
    }

    /// Pauses the rule for `minutes`, which must lie in 1..=30.
    pub fn pause(&mut self, minutes: u32, now_ms: u64) -> (res: Result<(), String>)
        requires
            old(self)@.wf(),
            1 <= minutes <= 30 ==> now_ms + minutes * 60000 <= u64::MAX,
        ensures
            1 <= minutes <= 30 ==> res is Ok && final(self)@ == old(self)@.paused_for(
                minutes,
                now_ms,
            ),
            !(1 <= minutes <= 30) ==> (res matches Err(e) && e@
                == "pause minutes must be in range 1..30"@) && final(self)@ == old(self)@,
            final(self)@.wf(),
    {
        check_pause_minutes(minutes)?;
        let resume_at = now_ms + (minutes as u64 * 60 * 1000);
        self.paused = true;
        self.resume_at_ms = Some(resume_at);
        Ok(())
    }

    /// Ends a pause.
    pub fn unpause(&mut self)
        requires
            old(self)@.wf(),
        ensures
            final(self)@ == old(self)@.resumed(),
            final(self)@.wf(),
    {
        self.paused = false;
        self.resume_at_ms = None;
    }

    /// Evaluates the rule at `now`, given whether the load condition is met:
    /// ends an expired pause, records the condition and the plan it calls
    /// for, and says whether the rule may act (enabled and not paused).
    pub fn evaluate(&mut self, config: &RuleConfig, condition_met: bool, now_ms: u64) -> (res: bool)
        requires
            old(self)@.wf(),
        ensures
            final(self)@ == old(self)@.evaluated(*config, condition_met, now_ms),
            res == (config.enabled && !final(self)@.paused),
            final(self)@.wf(),
    {
        if self.paused {
            if let Some(resume_at) = self.resume_at_ms {
                if now_ms >= resume_at {
                    self.paused = false;
                    self.resume_at_ms = None;
                }
            }
        }
        self.condition_met = condition_met;
        self.target_plan_guid = if condition_met {
            config.high_load_plan_guid.clone()
        } else {
            config.low_load_plan_guid.clone()
        };
        !self.paused && config.enabled
    }

    /// Adopts the plan read from the system where no active plan is known.
    pub fn adopt_discovered_plan(&mut self, discovered: String)
        requires
            old(self)@.wf(),
        ensures
            final(self)@ == old(self)@.adopted(discovered@),
            final(self)@.wf(),
    {
        if self.active_plan_guid.as_str().is_empty() {
            self.active_plan_guid = discovered;
        }
    }

    /// Switches to the target plan where it is not active and the cooldown
    /// is over, and returns it; else changes nothing and returns `None`.
    pub fn decide_switch(&mut self, cooldown_seconds: u32, now_ms: u64) -> (res: Option<String>)
        requires
            old(self)@.wf(),
        ensures
            old(self)@.switch_due(cooldown_seconds, now_ms) ==> final(self)@ == old(
                self,
            )@.switched(now_ms) && (res matches Some(g) && g@ == old(self)@.target_plan_guid),
            !old(self)@.switch_due(cooldown_seconds, now_ms) ==> final(self)@ == old(self)@
                && res is None,
            final(self)@.wf(),
    {
        if eq_ignore_ascii_case(self.active_plan_guid.as_str(), self.target_plan_guid.as_str()) {
            return None;
        }
        if cooldown_seconds > 0 {
            let since = now_ms.saturating_sub(self.last_switch_ms);
            if since < (cooldown_seconds as u64 * 1000) {
                return None;
            }
        }
        let target = self.target_plan_guid.clone();
        self.active_plan_guid = self.target_plan_guid.clone();
        self.last_switch_ms = now_ms;
        self.switches_count = self.switches_count.saturating_add(1);
        Some(target)
    }
}

// ---------------------------------------------------------------------------
// Laws
// ---------------------------------------------------------------------------

/// Equality up to ASCII case is an equivalence.
pub proof fn law_eq_ignore_case_equivalence(a: Seq<char>, b: Seq<char>, c: Seq<char>)
    ensures
        eq_ignore_case(a, a),
        eq_ignore_case(a, b) ==> eq_ignore_case(b, a),
        eq_ignore_case(a, b) && eq_ignore_case(b, c) ==> eq_ignore_case(a, c),
{
}

proof fn lemma_least_match(plans: Seq<PlanView>, guid: Seq<char>, i: int)
    requires
        0 <= i < plans.len(),
        eq_ignore_case(plans[i].guid, guid),
    ensures
        exists|k: int|
            0 <= k < plans.len() && eq_ignore_case(#[trigger] plans[k].guid, guid) && forall|m: int|
                0 <= m < k ==> !eq_ignore_case(plans[m].guid, guid),
    decreases i,
{
    if exists|m: int| 0 <= m < i && eq_ignore_case(#[trigger] plans[m].guid, guid) {
        let m = choose|m: int| 0 <= m < i && eq_ignore_case(#[trigger] plans[m].guid, guid);
        lemma_least_match(plans, guid, m);
    } else {
        assert(forall|m: int| 0 <= m < i ==> !eq_ignore_case(plans[m].guid, guid));
    }
}

/// Where a plan matches `guid`, the first match is a valid index of one.
proof fn lemma_first_match(plans: Seq<PlanView>, guid: Seq<char>)
    requires
        guid_listed(plans, guid),
    ensures
        first_match(plans, guid) matches Some(k) && 0 <= k < plans.len() && eq_ignore_case(
            plans[k].guid,
            guid,
        ),
{
    let i = choose|i: int| 0 <= i < plans.len() && eq_ignore_case(#[trigger] plans[i].guid, guid);
    lemma_least_match(plans, guid, i);
}

/// The GUID chosen for a rule is always one of the listed plans, so it
/// passes the existence check.
pub proof fn law_selected_guid_is_listed(plans: Seq<PlanView>, preferred: Seq<char>, fallback: Seq<char>)
    requires
        plans.len() > 0,
    ensures
        exists|i: int| 0 <= i < plans.len() && plans[i].guid == selected_guid(plans, preferred, fallback),
        guid_listed(plans, selected_guid(plans, preferred, fallback)),
        guid_listed(plans, preferred) ==> eq_ignore_case(
            selected_guid(plans, preferred, fallback),
            preferred,
        ),
        !guid_listed(plans, preferred) && guid_listed(plans, fallback) ==> eq_ignore_case(
            selected_guid(plans, preferred, fallback),
            fallback,
        ),
        !guid_listed(plans, preferred) && !guid_listed(plans, fallback) ==> selected_guid(
            plans,
            preferred,
            fallback,
        ) == plans[0].guid,
{
    let g = selected_guid(plans, preferred, fallback);
    let i = if guid_listed(plans, preferred) {
        lemma_first_match(plans, preferred);
        first_match(plans, preferred)->0
    } else if guid_listed(plans, fallback) {
        lemma_first_match(plans, fallback);
        first_match(plans, fallback)->0
    } else {
        0
    };
    assert(0 <= i < plans.len() && plans[i].guid == g);
    law_eq_ignore_case_equivalence(g, g, g);
    assert(eq_ignore_case(plans[i].guid, g));
}

/// Every step of the engine keeps the pause flag and the resume time
/// together.
pub proof fn law_steps_keep_pause_consistent(
    v: EngineView,
    config: RuleConfig,
    plan: Seq<char>,
    condition_met: bool,
    cooldown_seconds: u32,
    minutes: u32,
    now: u64,
)
    requires
        v.wf(),
    ensures
        v.polled().wf(),
        v.observed(plan, now).wf(),
        v.manually_switched(plan, now).wf(),
        v.paused_for(minutes, now).wf(),
        v.resumed().wf(),
        v.evaluated(config, condition_met, now).wf(),
        v.adopted(plan).wf(),
        v.switched(now).wf(),
{
}

/// No step of the engine lowers the number of switches, and only the two
/// switching steps raise it.
pub proof fn law_switches_count_never_decreases(
    v: EngineView,
    config: RuleConfig,
    plan: Seq<char>,
    condition_met: bool,
    minutes: u32,
    now: u64,
)
    ensures
        v.polled().switches_count == v.switches_count,
        v.observed(plan, now).switches_count == v.switches_count,
        v.manually_switched(plan, now).switches_count >= v.switches_count,
        v.paused_for(minutes, now).switches_count == v.switches_count,
        v.resumed().switches_count == v.switches_count,
        v.evaluated(config, condition_met, now).switches_count == v.switches_count,
        v.adopted(plan).switches_count == v.switches_count,
        v.switched(now).switches_count >= v.switches_count,
{
}

/// A requested switch is ignored for [`MANUAL_DEBOUNCE_MS`] after an
/// accepted one.
pub proof fn law_manual_switch_debounce(v: EngineView, plan: Seq<char>, other: Seq<char>, now: u64, later: u64)
    requires
        v.manual_switch_allowed(now),
        now <= later,
        later - now < MANUAL_DEBOUNCE_MS,
    ensures
        !v.manually_switched(plan, now).manual_switch_allowed(later),
        v.manually_switched(plan, now).manually_switched(other, later) == v.manually_switched(
            plan,
            now,
        ),
{
}

/// Once the rule switched, it does not switch again until the target
/// changes: the target is then the active plan.
pub proof fn law_rule_switch_settles(v: EngineView, cooldown_seconds: u32, now: u64, later: u64)
    ensures
        !v.switched(now).switch_due(cooldown_seconds, later),
{
    law_eq_ignore_case_equivalence(v.target_plan_guid, v.target_plan_guid, v.target_plan_guid);
}

/// A switch of any kind, by the rule, by request or by another program,
/// holds off the rule for its cooldown.
pub proof fn law_rule_cooldown(
    v: EngineView,
    config: RuleConfig,
    plan: Seq<char>,
    actual: Seq<char>,
    condition_met: bool,
    cooldown_seconds: u32,
    now: u64,
    later: u64,
    evaluated_at: u64,
)
    requires
        cooldown_seconds > 0,
        now <= later,
        later - now < cooldown_seconds * 1000,
    ensures
        !v.switched(now).evaluated(config, condition_met, evaluated_at).switch_due(
            cooldown_seconds,
            later,
        ),
        v.manual_switch_allowed(now) ==> !v.manually_switched(plan, now).evaluated(
            config,
            condition_met,
            evaluated_at,
        ).switch_due(cooldown_seconds, later),
        v.external_change(actual) ==> !v.observed(actual, now).evaluated(
            config,
            condition_met,
            evaluated_at,
        ).switch_due(cooldown_seconds, later),
{
}

/// A pause lasts until its resume time: evaluations before it leave the
/// rule paused, the first one at or after it resumes the rule.
pub proof fn law_pause_runs_out(
    v: EngineView,
    config: RuleConfig,
    condition_met: bool,
    minutes: u32,
    now: u64,
    later: u64,
)
    requires
        1 <= minutes <= 30,
        now + minutes * 60000 <= u64::MAX,
    ensures
        later < now + minutes * 60000 ==> v.paused_for(minutes, now).evaluated(
            config,
            condition_met,
            later,
        ).paused,
        later >= now + minutes * 60000 ==> !v.paused_for(minutes, now).evaluated(
            config,
            condition_met,
            later,
        ).paused && v.paused_for(minutes, now).evaluated(config, condition_met, later).resume_at_ms
            is None,
{
}

/// Resuming undoes a pause.
pub proof fn law_unpause_undoes_pause(v: EngineView, minutes: u32, now: u64)
    requires
        !v.paused,
        v.wf(),
    ensures
        v.paused_for(minutes, now).resumed() == v,
{
}

/// The active plan is read back from the system on every third poll: after
/// a poll that read it, the next two do not, and the third does.
pub proof fn law_poll_every_third(v: EngineView)
    requires
        v.poll_due(),
        v.tick_count < u64::MAX - 3,
    ensures
        !v.polled().poll_due(),
        !v.polled().polled().poll_due(),
        v.polled().polled().polled().poll_due(),
{
}

/// In "or" mode the high-load condition is met as soon as either load
/// reaches its threshold, and only then; in "and" mode it is met exactly
/// when both do.
pub proof fn law_condition_modes(cpu_match: bool, gpu_match: bool)
    ensures
        cpu_match ==> ConditionMode::Or.holds(cpu_match, gpu_match),
        gpu_match ==> ConditionMode::Or.holds(cpu_match, gpu_match),
        !cpu_match && !gpu_match ==> !ConditionMode::Or.holds(cpu_match, gpu_match),
        cpu_match && gpu_match ==> ConditionMode::And.holds(cpu_match, gpu_match),
        !cpu_match ==> !ConditionMode::And.holds(cpu_match, gpu_match),
        !gpu_match ==> !ConditionMode::And.holds(cpu_match, gpu_match),
{
}

/// An evaluation records the condition it was given and makes the
/// high-load plan the target when the condition is met, the low-load plan
/// otherwise; the active plan, the last switch and the count stay.
pub proof fn law_target_follows_condition(v: EngineView, config: RuleConfig, condition_met: bool, now: u64)
    ensures
        v.evaluated(config, condition_met, now).condition_met == condition_met,
        condition_met ==> v.evaluated(config, condition_met, now).target_plan_guid
            == config.high_load_plan_guid@,
        !condition_met ==> v.evaluated(config, condition_met, now).target_plan_guid
            == config.low_load_plan_guid@,
        v.evaluated(config, condition_met, now).active_plan_guid == v.active_plan_guid,
        v.evaluated(config, condition_met, now).last_switch_ms == v.last_switch_ms,
        v.evaluated(config, condition_met, now).switches_count == v.switches_count,
        !v.paused ==> !v.evaluated(config, condition_met, now).paused,
{
}

/// The rule switches as soon as it may: when the target differs from the
/// active plan up to ASCII case, and the cooldown is 0 or at least that many
/// seconds have passed since the last switch, it switches, the target
/// becomes the active plan, the switch is dated `now` and counted.
pub proof fn law_rule_switches_when_due(v: EngineView, cooldown_seconds: u32, now: u64)
    requires
        !eq_ignore_case(v.active_plan_guid, v.target_plan_guid),
        cooldown_seconds == 0 || (v.last_switch_ms <= now && now - v.last_switch_ms
            >= cooldown_seconds * 1000),
    ensures
        v.switch_due(cooldown_seconds, now),
        v.switched(now).active_plan_guid == v.target_plan_guid,
        v.switched(now).target_plan_guid == v.target_plan_guid,
        v.switched(now).last_switch_ms == now,
        v.switches_count < u64::MAX ==> v.switched(now).switches_count == v.switches_count + 1,
        v.switches_count == u64::MAX ==> v.switched(now).switches_count == u64::MAX,
        v.switched(now).paused == v.paused,
        v.switched(now).resume_at_ms == v.resume_at_ms,
{
}

/// The rule does not switch while its target is already active (up to
/// ASCII case), nor before the cooldown since the last switch is over; a
/// clock that went back counts as no time passed.
pub proof fn law_rule_waits(v: EngineView, cooldown_seconds: u32, now: u64)
    ensures
        eq_ignore_case(v.active_plan_guid, v.target_plan_guid) ==> !v.switch_due(
            cooldown_seconds,
            now,
        ),
        cooldown_seconds > 0 && now < v.last_switch_ms ==> !v.switch_due(cooldown_seconds, now),
        cooldown_seconds > 0 && v.last_switch_ms <= now && now - v.last_switch_ms
            < cooldown_seconds * 1000 ==> !v.switch_due(cooldown_seconds, now),
{
}

/// Every rule that lasts 1 to 900 seconds, cools down for at most an hour
/// and names two plans that differ up to ASCII case is accepted; every
/// other rule is refused.
pub proof fn law_rule_config_acceptance(config: RuleConfig)
    ensures
        (1 <= config.duration_seconds <= 900 && config.cooldown_seconds <= 3600
            && !eq_ignore_case(config.high_load_plan_guid@, config.low_load_plan_guid@))
            <==> rule_config_problem(config) is None,
{
}

/// A requested switch is accepted whenever at least 2 s have passed since
/// the last switch, however long ago that was: the requested plan becomes
/// active, the switch is dated `now` and counted.
pub proof fn law_manual_switch_accepted(v: EngineView, plan: Seq<char>, now: u64)
    requires
        v.last_switch_ms <= now,
        now - v.last_switch_ms >= 2000,
    ensures
        v.manual_switch_allowed(now),
        v.manually_switched(plan, now).active_plan_guid == plan,
        v.manually_switched(plan, now).last_switch_ms == now,
        v.switches_count < u64::MAX ==> v.manually_switched(plan, now).switches_count
            == v.switches_count + 1,
        v.switches_count == u64::MAX ==> v.manually_switched(plan, now).switches_count
            == u64::MAX,
        v.manually_switched(plan, now).target_plan_guid == v.target_plan_guid,
        v.manually_switched(plan, now).paused == v.paused,
{
}

/// A requested switch less than 2 s after the last one, or with a clock
/// that went back, is ignored and changes nothing.
pub proof fn law_manual_switch_refused(v: EngineView, plan: Seq<char>, now: u64)
    requires
        now < v.last_switch_ms || now - v.last_switch_ms < 2000,
    ensures
        !v.manual_switch_allowed(now),
        v.manually_switched(plan, now) == v,
{
}

/// A plan the system reports active that differs from the believed one up
/// to ASCII case becomes the active plan and counts as a switch at `now`
/// (without raising the switch count); one that matches changes nothing.
pub proof fn law_external_change(v: EngineView, actual: Seq<char>, now: u64)
    ensures
        !eq_ignore_case(actual, v.active_plan_guid) ==> v.observed(actual, now).active_plan_guid
            == actual && v.observed(actual, now).last_switch_ms == now && v.observed(
            actual,
            now,
        ).switches_count == v.switches_count && v.observed(actual, now).target_plan_guid
            == v.target_plan_guid,
        eq_ignore_case(actual, v.active_plan_guid) ==> v.observed(actual, now) == v,
{
}

/// A pause of `minutes` from `now` sets the engine paused until exactly
/// `minutes` minutes later and changes nothing else.
pub proof fn law_pause_sets_resume_time(v: EngineView, minutes: u32, now: u64)
    requires
        now + minutes * 60000 <= u64::MAX,
    ensures
        v.paused_for(minutes, now).paused,
        v.paused_for(minutes, now).resume_at_ms is Some,
        v.paused_for(minutes, now).resume_at_ms->0 == now + minutes * 60000,
        v.paused_for(minutes, now).active_plan_guid == v.active_plan_guid,
        v.paused_for(minutes, now).target_plan_guid == v.target_plan_guid,
        v.paused_for(minutes, now).last_switch_ms == v.last_switch_ms,
        v.paused_for(minutes, now).switches_count == v.switches_count,
        v.resumed().paused == false && v.resumed().resume_at_ms is None,
{
}

/// Counting from start-up, the active plan is first read back on the third
/// poll; while no plan is known it is never read back.
pub proof fn law_first_poll_is_third(v: EngineView)
    requires
        v.tick_count == 0,
    ensures
        !v.poll_due(),
        !v.polled().poll_due(),
        v.active_plan_guid.len() > 0 ==> v.polled().polled().poll_due(),
        v.active_plan_guid.len() == 0 ==> !v.polled().polled().poll_due(),
        v.polled().tick_count == 1,
{
}

/// A discovered plan is taken only where no active plan is known.
pub proof fn law_adopt_only_unknown(v: EngineView, discovered: Seq<char>)
    ensures
        v.active_plan_guid.len() == 0 ==> v.adopted(discovered).active_plan_guid == discovered,
        v.active_plan_guid.len() > 0 ==> v.adopted(discovered) == v,
{
}

/// A new sample is appended at the end; only when the window already holds
/// [`MAX_WINDOW_SECONDS`] samples does the oldest one go.
pub proof fn law_window_push<T>(samples: Seq<T>, sample: T)
    requires
        samples.len() <= MAX_WINDOW_SECONDS,
    ensures
        samples.len() < MAX_WINDOW_SECONDS ==> keep_last(
            samples.push(sample),
            MAX_WINDOW_SECONDS as nat,
        ) == samples.push(sample),
        samples.len() == MAX_WINDOW_SECONDS ==> keep_last(
            samples.push(sample),
            MAX_WINDOW_SECONDS as nat,
        ) == samples.drop_first().push(sample),
{
    if samples.len() == MAX_WINDOW_SECONDS {
        assert(samples.push(sample).skip(1) =~= samples.drop_first().push(sample));
    }
}

/// Equality up to ASCII case: equal sequences are equal up to case, equal
/// ones up to case have the same length, and an upper-case ASCII letter
/// equals its lower-case letter while two different letters are unequal.
pub proof fn law_eq_ignore_case_meaning(a: Seq<char>, b: Seq<char>, c: char, d: char)
    ensures
        a == b ==> eq_ignore_case(a, b),
        eq_ignore_case(a, b) ==> a.len() == b.len(),
        0x41 <= (c as u32) <= 0x5a && (d as u32) == (c as u32) + 32 ==> eq_ignore_case(
            seq![c],
            seq![d],
        ),
        0x61 <= (c as u32) <= 0x7a && 0x61 <= (d as u32) <= 0x7a && c != d ==> !eq_ignore_case(
            seq![c],
            seq![d],
        ),
{
    if eq_ignore_case(a, b) {
        assert(crate::text::ascii_lower_seq(a).len() == a.len());
    }
    if 0x41 <= (c as u32) <= 0x5a && (d as u32) == (c as u32) + 32 {
        assert(crate::text::ascii_lower_seq(seq![c]) =~= crate::text::ascii_lower_seq(seq![d]));
    }
    if 0x61 <= (c as u32) <= 0x7a && 0x61 <= (d as u32) <= 0x7a && c != d {
        assert(crate::text::ascii_lower_seq(seq![c])[0] != crate::text::ascii_lower_seq(seq![d])[0]);
    }
}

/// A plan whose GUID is spelled exactly as asked is found.
pub proof fn law_exact_guid_is_listed(plans: Seq<PlanView>, i: int)
    requires
        0 <= i < plans.len(),
    ensures
        guid_listed(plans, plans[i].guid),
{
    law_eq_ignore_case_meaning(plans[i].guid, plans[i].guid, 'a', 'a');
}

} // verus!
