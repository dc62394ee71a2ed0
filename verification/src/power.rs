//! Power plans as `powercfg` reports them, and the guard that keeps at most
//! one `powercfg` process running at a time.
//!
//! The process itself is started by the caller; this module decides whether a
//! run may start, reads what the process printed, and builds its arguments.
use vstd::prelude::*;
use crate::text::{
    ascii_lower, drop_back_while, drop_front_while, is_white, append_chars, append_str, decimal, decimal_chars, ascii_lower_chars, ascii_lower_seq, chars_of, contains_char, find_char, first_index,
    guid_marks, is_hex_digit, is_hex_digit_char, last_index, rfind_char,
    slice_chars, split_lines, split_words, string_from, string_of,
    text_lines, trim, trim_by, trim_chars, words, TrimSet,
};

verus! {

/// A power scheme listed by `powercfg /L`.
pub struct PowerPlan {
    pub guid: String,
    pub name: String,
    pub is_active: bool,
}

/// The mathematical content of a [`PowerPlan`].
pub struct PlanView {
    pub guid: Seq<char>,
    pub name: Seq<char>,
    pub is_active: bool,
}

impl View for PowerPlan {
    type V = PlanView;

    open spec fn view(&self) -> PlanView {
        PlanView { guid: self.guid@, name: self.name@, is_active: self.is_active }
    }
}

pub open spec fn plan_views(plans: Seq<PowerPlan>) -> Seq<PlanView> {
    plans.map_values(|p: PowerPlan| p@)
}

// ---------------------------------------------------------------------------
// GUIDs and names in one line of `powercfg /L`
// ---------------------------------------------------------------------------

/// The character a GUID holds at `i`: a dash at 8, 13, 18 and 23, else a
/// hexadecimal digit.
pub open spec fn guid_char_ok(i: int, c: char) -> bool {
    if i == 8 || i == 13 || i == 18 || i == 23 {
        c == '-'
    } else {
        is_hex_digit(c)
    }
}

/// A GUID in its 36-character textual form.
pub open spec fn is_guid_seq(s: Seq<char>) -> bool {
    s.len() == 36 && forall|i: int| 0 <= i < 36 ==> guid_char_ok(i, #[trigger] s[i])
}

/// The GUID that a whitespace-separated token stands for, once the marks
/// `:`, `*` and `,` around it are removed, in lower case.
pub open spec fn token_guid(token: Seq<char>) -> Option<Seq<char>> {
    let t = trim_by(token, guid_marks());
    if is_guid_seq(t) {
        Some(ascii_lower_seq(t))
    } else {
        None
    }
}

/// The first token of `tokens` that is a GUID.
pub open spec fn first_guid(tokens: Seq<Seq<char>>) -> Option<Seq<char>>
    decreases tokens.len(),
{
    if tokens.len() == 0 {
        None
    } else {
        match token_guid(tokens[0]) {
            Some(g) => Some(g),
            None => first_guid(tokens.drop_first()),
        }
    }
}

/// The GUID of a line: its first whitespace-separated token that is one.
pub open spec fn line_guid(line: Seq<char>) -> Option<Seq<char>> {
    first_guid(words(line))
}

/// The plan name of a line: the trimmed text between the first `(` and the
/// last `)`, when there is such text.
pub open spec fn line_name(line: Seq<char>) -> Option<Seq<char>> {
    match first_index(line, '(') {
        None => None,
        Some(start) => match last_index(line, ')') {
            None => None,
            Some(end) => if end <= start {
                None
            } else {
                let name = trim(line.subrange(start + 1, end));
                if name.len() == 0 {
                    None
                } else {
                    Some(name)
                }
            },
        },
    }
}

/// The plan a line describes, if it names a GUID.
pub open spec fn line_plan(line: Seq<char>) -> Option<PlanView> {
    match line_guid(line) {
        Some(guid) => Some(
            PlanView {
                guid,
                name: match line_name(line) {
                    Some(n) => n,
                    None => "Unknown"@,
                },
                is_active: line.contains('*'),
            },
        ),
        None => None,
    }
}

/// The plans of a sequence of lines, in order.
pub open spec fn plans_of_lines(lines: Seq<Seq<char>>) -> Seq<PlanView>
    decreases lines.len(),
{
    if lines.len() == 0 {
        seq![]
    } else {
        let earlier = plans_of_lines(lines.drop_last());
        match line_plan(lines.last()) {
            Some(p) => earlier.push(p),
            None => earlier,
        }
    }
}

/// The plans that `powercfg /L` output lists.
pub open spec fn listed_plans(output: Seq<char>) -> Seq<PlanView> {
    plans_of_lines(text_lines(output))
}

fn is_guid_chars(v: &Vec<char>) -> (res: bool)
    ensures
        res == is_guid_seq(v@),
{
    if v.len() != 36 {
        return false;
    }
    let mut i: usize = 0;
    while i < 36
        invariant
            v.len() == 36,
            i <= 36,
            forall|k: int| 0 <= k < i ==> guid_char_ok(k, #[trigger] v@[k]),
        decreases 36 - i,
    {
        let c = v[i];
        let ok = if i == 8 || i == 13 || i == 18 || i == 23 {
            c == '-'
        } else {
            is_hex_digit_char(c)
        };
        if !ok {
            assert(!guid_char_ok(i as int, v@[i as int]));
            return false;
        }
        i = i + 1;
    }
    true
}

/// Whether `candidate` is a GUID in textual form.
pub fn is_guid(candidate: &str) -> (res: bool)
    ensures
        res == is_guid_seq(candidate@),
{
    let v = chars_of(candidate);
    is_guid_chars(&v)
}

fn token_guid_chars(token: &Vec<char>) -> (res: Option<Vec<char>>)
    ensures
        match res {
            Some(g) => token_guid(token@) == Some(g@),
            None => token_guid(token@) is None,
        },
{
    let t = trim_chars(token, TrimSet::GuidMarks);
    if is_guid_chars(&t) {
        Some(ascii_lower_chars(&t))
    } else {
        None
    }
}

fn line_guid_chars(line: &Vec<char>) -> (res: Option<Vec<char>>)
    ensures
        match res {
            Some(g) => line_guid(line@) == Some(g@),
            None => line_guid(line@) is None,
        },
{
    let tokens = split_words(line);
    let ghost ts = tokens@.map_values(|w: Vec<char>| w@);
    let mut i: usize = 0;
    assert(ts.skip(0) =~= ts);
    while i < tokens.len()
        invariant
            i <= tokens.len(),
            ts == tokens@.map_values(|w: Vec<char>| w@),
            ts == words(line@),
            first_guid(ts) == first_guid(ts.skip(i as int)),
        decreases tokens.len() - i,
    {
        let g = token_guid_chars(&tokens[i]);
        assert(ts.skip(i as int)[0] == tokens@[i as int]@);
        assert(ts.skip(i as int).drop_first() =~= ts.skip(i + 1));
        if g.is_some() {
            return g;
        }
        i = i + 1;
    }
    assert(ts.skip(tokens.len() as int) =~= Seq::<Seq<char>>::empty());
    None
}

/// The GUID that a line of `powercfg /L` output names, lower-cased.
pub fn extract_guid(line: &str) -> (res: Option<String>)
    ensures
        match res {
            Some(g) => line_guid(line@) == Some(g@) && canonical_guid(g@) && line_guid(g@) == Some(
                g@,
            ),
            None => line_guid(line@) is None,
        },
{
    proof {
        lemma_first_guid_canonical(words(line@));
        if line_guid(line@) is Some {
            law_guid_extracts_to_itself(line_guid(line@)->0);
        }
    }
    let v = chars_of(line);
    match line_guid_chars(&v) {
        Some(g) => Some(string_of(&g)),
        None => None,
    }
}

fn line_name_chars(line: &Vec<char>) -> (res: Option<Vec<char>>)
    ensures
        match res {
            Some(n) => line_name(line@) == Some(n@),
            None => line_name(line@) is None,
        },
{
    let start = match find_char(line, '(') {
        Some(s) => s,
        None => return None,
    };
    let end = match rfind_char(line, ')') {
        Some(e) => e,
        None => return None,
    };
    assert(first_index(line@, '(') == Some(start as int));
    assert(last_index(line@, ')') == Some(end as int));
    if end <= start {
        return None;
    }
    let inner = slice_chars(line, start + 1, end);
    let name = trim_chars(&inner, TrimSet::White);
    assert(name@ == trim(line@.subrange(start + 1, end as int)));
    if name.len() == 0 {
        None
    } else {
        Some(name)
    }
}

/// The plan name that a line of `powercfg /L` output gives in parentheses.
pub fn extract_name(line: &str) -> (res: Option<String>)
    ensures
        match res {
            Some(n) => line_name(line@) == Some(n@),
            None => line_name(line@) is None,
        },
{
    let v = chars_of(line);
    match line_name_chars(&v) {
        Some(n) => Some(string_of(&n)),
        None => None,
    }
}

fn line_plan_chars(line: &Vec<char>) -> (res: Option<PowerPlan>)
    ensures
        match res {
            Some(p) => line_plan(line@) == Some(p@),
            None => line_plan(line@) is None,
        },
{
    match line_guid_chars(line) {
        Some(g) => {
            let name = match line_name_chars(line) {
                Some(n) => string_of(&n),
                None => string_from("Unknown"),
            };
            let is_active = contains_char(line, '*');
            Some(PowerPlan { guid: string_of(&g), name, is_active })
        },
        None => None,
    }
}

/// The plans listed in `powercfg /L` output, in the order of their lines.
pub fn parse_plan_list(output: &str) -> (res: Vec<PowerPlan>)
    ensures
        plan_views(res@) == listed_plans(output@),
{
    let text = chars_of(output);
    let lines = split_lines(&text);
    let ghost ls = lines@.map_values(|l: Vec<char>| l@);
    let mut plans: Vec<PowerPlan> = Vec::new();
    let mut i: usize = 0;
    assert(ls.take(0) =~= Seq::<Seq<char>>::empty());
    while i < lines.len()
        invariant
            i <= lines.len(),
            ls == lines@.map_values(|l: Vec<char>| l@),
            ls == text_lines(output@),
            plan_views(plans@) == plans_of_lines(ls.take(i as int)),
        decreases lines.len() - i,
    {
        let p = line_plan_chars(&lines[i]);
        assert(ls.take(i + 1).drop_last() =~= ls.take(i as int));
        assert(ls.take(i + 1).last() == lines@[i as int]@);
        match p {
            Some(plan) => {
                let ghost before = plan_views(plans@);
                plans.push(plan);
                assert(plan_views(plans@) =~= before.push(plans@.last()@));
            },
            None => {},
        }
        i = i + 1;
    }
    assert(ls.take(lines.len() as int) =~= ls);
    plans
}

// ---------------------------------------------------------------------------
// `powercfg /getactivescheme`
// ---------------------------------------------------------------------------

/// The GUID of the first of `lines` that carries one.
pub open spec fn first_line_guid(lines: Seq<Seq<char>>) -> Option<Seq<char>>
    decreases lines.len(),
{
    if lines.len() == 0 {
        None
    } else {
        match line_guid(lines[0]) {
            Some(g) => Some(g),
            None => first_line_guid(lines.drop_first()),
        }
    }
}

/// The active scheme's GUID in `powercfg /getactivescheme` output: the
/// first GUID of the output, lower-cased. The line around it is worded in
/// the display language; the GUID is not.
pub open spec fn active_scheme_guid(output: Seq<char>) -> Option<Seq<char>> {
    first_line_guid(text_lines(output))
}

proof fn lemma_first_line_guid_canonical(lines: Seq<Seq<char>>)
    ensures
        first_line_guid(lines) matches Some(g) ==> canonical_guid(g),
    decreases lines.len(),
{
    if lines.len() > 0 {
        lemma_first_guid_canonical(words(lines[0]));
        lemma_first_line_guid_canonical(lines.drop_first());
    }
}

/// The GUID of the active power scheme in `powercfg /getactivescheme`
/// output, in canonical lower-case form, or `None` where the output names
/// no GUID.
pub fn get_active_guid_fast(output: &str) -> (res: Option<String>)
    ensures
        match res {
            Some(g) => active_scheme_guid(output@) == Some(g@) && canonical_guid(g@),
            None => active_scheme_guid(output@) is None,
        },
{
    proof {
        lemma_first_line_guid_canonical(text_lines(output@));
    }
    let text = chars_of(output);
    let lines = split_lines(&text);
    let ghost ls = lines@.map_values(|l: Vec<char>| l@);
    let mut i: usize = 0;
    assert(ls.skip(0) =~= ls);
    while i < lines.len()
        invariant
            i <= lines.len(),
            ls == lines@.map_values(|l: Vec<char>| l@),
            ls == text_lines(output@),
            first_line_guid(ls) == first_line_guid(ls.skip(i as int)),
        decreases lines.len() - i,
    {
        let g = line_guid_chars(&lines[i]);
        assert(ls.skip(i as int)[0] == lines@[i as int]@);
        assert(ls.skip(i as int).drop_first() =~= ls.skip(i + 1));
        match g {
            Some(guid) => {
                assert(first_line_guid(ls.skip(i as int)) == Some(guid@));
                proof {
                    lemma_first_line_guid_canonical(ls);
                }
                return Some(string_of(&guid));
            },
            None => {},
        }
        i = i + 1;
    }
    assert(ls.skip(lines.len() as int) =~= Seq::<Seq<char>>::empty());
    None
}

// ---------------------------------------------------------------------------
// The `powercfg` guard and the plan operations
// ---------------------------------------------------------------------------

/// Keeps track of whether a `powercfg` process is running, so that at most
/// one runs at a time.
pub struct PowerManager {
    running: bool,
}

impl PowerManager {
    /// Whether a `powercfg` process is running now.
    pub closed spec fn running(&self) -> bool {
        self.running
    }

    pub fn new() -> (res: Self)
        ensures
            !res.running(),
    {
        PowerManager { running: false }
    }

    pub fn is_running(&self) -> (res: bool)
        ensures
            res == self.running(),
    {
        self.running
    }

    /// Claims the right to start `powercfg`. Where another run holds it, the
    /// claim fails and nothing changes.
    pub fn try_begin(&mut self) -> (res: Result<(), String>)
        ensures
            old(self).running() ==> final(self).running() && (res matches Err(e)
                && e@ == "powercfg already running — skipping"@),
            !old(self).running() ==> final(self).running() && res is Ok,
    {
        if self.running {
            return Err(string_from("powercfg already running — skipping"));
        }
        self.running = true;
        Ok(())
    }

    /// Gives back the right that [`Self::try_begin`] claimed.
    pub fn finish(&mut self)
        ensures
            !final(self).running(),
    {
        self.running = false;
    }

    /// The plans of a `powercfg /L` run: its error where it failed, an error
    /// where it listed none, else the plans in the order of its lines.
    pub fn list_plans(output: Result<String, String>) -> (res: Result<Vec<PowerPlan>, String>)
        ensures
            match output {
                Err(e) => res == Err::<Vec<PowerPlan>, String>(e),
                Ok(text) => if listed_plans(text@).len() == 0 {
                    res matches Err(e) && e@ == "no power plans found via powercfg"@
                } else {
                    res matches Ok(plans) && plan_views(plans@) == listed_plans(text@)
                },
            },
    {
        match output {
            Err(e) => Err(e),
            Ok(text) => {
                let plans = parse_plan_list(text.as_str());
                if plans.len() == 0 {
                    assert(plan_views(plans@).len() == 0);
                    Err(string_from("no power plans found via powercfg"))
                } else {
                    Ok(plans)
                }
            },
        }
    }

    /// The GUID of the plan that a `powercfg /L` run marks active: the first
    /// such plan, else an error.
    pub fn get_active_plan_guid(output: Result<String, String>) -> (res: Result<
        String,
        String,
    >)
        ensures
            match output {
                Err(e) => res == Err::<String, String>(e),
                Ok(text) => if listed_plans(text@).len() == 0 {
                    res matches Err(e) && e@ == "no power plans found via powercfg"@
                } else {
                    match first_active(listed_plans(text@)) {
                        Some(i) => res matches Ok(g) && g@ == listed_plans(text@)[i].guid,
                        None => res matches Err(e) && e@
                            == "failed to detect active power plan"@,
                    }
                },
            },
    {
        let plans = Self::list_plans(output)?;
        match find_active(&plans) {
            Some(i) => {
                assert(plan_views(plans@)[i as int] == plans@[i as int]@);
                Ok(plans[i].guid.clone())
            },
            None => Err(string_from("failed to detect active power plan")),
        }
    }

    /// The `powercfg` arguments that make `guid` the active plan.
    pub fn set_active_plan(guid: &str) -> (args: Vec<String>)
        ensures
            args@.len() == 2,
            args@[0]@ == "/SETACTIVE"@,
            args@[1]@ == guid@,
    {
        let mut args: Vec<String> = Vec::new();
        args.push(string_from("/SETACTIVE"));
        args.push(string_from(guid));
        args
    }
}

/// Index of the first plan marked active.
pub open spec fn first_active(plans: Seq<PlanView>) -> Option<int> {
    if exists|i: int| 0 <= i < plans.len() && #[trigger] plans[i].is_active {
        Some(
            choose|i: int|
                0 <= i < plans.len() && #[trigger] plans[i].is_active && forall|k: int|
                    0 <= k < i ==> !plans[k].is_active,
        )
    } else {
        None
    }
}

/// Index of the first plan of `plans` that is marked active.
pub fn find_active(plans: &Vec<PowerPlan>) -> (res: Option<usize>)
    ensures
        match res {
            Some(i) => first_active(plan_views(plans@)) == Some(i as int) && i < plans.len(),
            None => first_active(plan_views(plans@)) is None,
        },
{
    let ghost pv = plan_views(plans@);
    let mut i: usize = 0;
    while i < plans.len()
        invariant
            i <= plans.len(),
            pv == plan_views(plans@),
            forall|k: int| 0 <= k < i ==> !pv[k].is_active,
        decreases plans.len() - i,
    {
        if plans[i].is_active {
            proof {
                assert(pv[i as int].is_active);
                let j = choose|j: int|
                    0 <= j < pv.len() && #[trigger] pv[j].is_active && forall|k: int|
                        0 <= k < j ==> !pv[k].is_active;
                if j < i {
                    assert(!pv[j].is_active);
                }
                if i < j {
                    assert(!pv[i as int].is_active);
                }
            }
            return Some(i);
        }
        i = i + 1;
    }
    None
}

// ---------------------------------------------------------------------------
// Failed runs
// ---------------------------------------------------------------------------

/// A signed integer in decimal, as `{:?}` writes it.
pub open spec fn signed_decimal(n: int) -> Seq<char> {
    if n < 0 {
        "-"@ + decimal((-n) as nat)
    } else {
        decimal(n as nat)
    }
}

/// An optional exit code as `{:?}` writes it: `Some(1)` or `None`.
pub open spec fn exit_code_text(code: Option<i32>) -> Seq<char> {
    match code {
        Some(n) => "Some("@ + signed_decimal(n as int) + ")"@,
        None => "None"@,
    }
}

/// The error text of a `powercfg` run that exited with failure: its exit
/// code and trimmed standard output, and its trimmed standard error where
/// that is not empty.
pub open spec fn failure_text(code: Option<i32>, stdout: Seq<char>, stderr: Seq<char>) -> Seq<char> {
    "powercfg failed (code "@ + exit_code_text(code) + "): "@ + trim(stdout) + if trim(
        stderr,
    ).len() == 0 {
        Seq::<char>::empty()
    } else {
        " | "@ + trim(stderr)
    }
}

fn signed_decimal_chars(n: i32) -> (res: Vec<char>)
    ensures
        res@ == signed_decimal(n as int),
{
    if n < 0 {
        let magnitude: u64 = (0i64 - (n as i64)) as u64;
        let mut v = chars_of("-");
        append_chars(&mut v, &decimal_chars(magnitude));
        v
    } else {
        decimal_chars(n as u64)
    }
}

/// The error text of a `powercfg` run that exited with failure.
pub fn powercfg_failure_message(code: Option<i32>, stdout: &str, stderr: &str) -> (res: String)
    ensures
        res@ == failure_text(code, stdout@, stderr@),
{
    let mut v = chars_of("powercfg failed (code ");
    match code {
        Some(n) => {
            append_str(&mut v, "Some(");
            append_chars(&mut v, &signed_decimal_chars(n));
            append_str(&mut v, ")");
        },
        None => append_str(&mut v, "None"),
    }
    append_str(&mut v, "): ");
    let out = trim_chars(&chars_of(stdout), TrimSet::White);
    append_chars(&mut v, &out);
    let err = trim_chars(&chars_of(stderr), TrimSet::White);
    if err.len() > 0 {
        append_str(&mut v, " | ");
        append_chars(&mut v, &err);
    }
    proof {
        let e = trim(stderr@);
        if e.len() == 0 {
            assert(v@ =~= failure_text(code, stdout@, stderr@));
        } else {
            assert(v@ =~= failure_text(code, stdout@, stderr@));
        }
    }
    string_of(&v)
}

// ---------------------------------------------------------------------------
// Laws
// ---------------------------------------------------------------------------

/// A GUID in lower case.
pub open spec fn canonical_guid(g: Seq<char>) -> bool {
    is_guid_seq(g) && ascii_lower_seq(g) == g
}

proof fn lemma_lower_char(c: char)
    ensures
        ascii_lower(ascii_lower(c)) == ascii_lower(c),
        is_hex_digit(c) ==> is_hex_digit(ascii_lower(c)),
        c == '-' ==> ascii_lower(c) == '-',
{
    if 0x41 <= (c as u32) <= 0x5a {
        let u = ((c as u32) + 32) as u32;
        assert(vstd::utf8::is_scalar(u));
        assert(((u as char) as u32) == u);
    }
}

proof fn lemma_lower_guid(t: Seq<char>)
    requires
        is_guid_seq(t),
    ensures
        canonical_guid(ascii_lower_seq(t)),
{
    let l = ascii_lower_seq(t);
    assert forall|i: int| 0 <= i < 36 implies guid_char_ok(i, #[trigger] l[i]) by {
        lemma_lower_char(t[i]);
        assert(guid_char_ok(i, t[i]));
    }
    assert forall|i: int| 0 <= i < l.len() implies #[trigger] ascii_lower_seq(l)[i] == l[i] by {
        lemma_lower_char(t[i]);
    }
    assert(ascii_lower_seq(l) =~= l);
}

proof fn lemma_first_guid_canonical(tokens: Seq<Seq<char>>)
    ensures
        first_guid(tokens) matches Some(g) ==> canonical_guid(g),
    decreases tokens.len(),
{
    if tokens.len() > 0 {
        let t = trim_by(tokens[0], guid_marks());
        if is_guid_seq(t) {
            lemma_lower_guid(t);
        } else {
            lemma_first_guid_canonical(tokens.drop_first());
        }
    }
}

proof fn lemma_plans_canonical(lines: Seq<Seq<char>>)
    ensures
        forall|i: int|
            0 <= i < plans_of_lines(lines).len() ==> canonical_guid(
                #[trigger] plans_of_lines(lines)[i].guid,
            ),
    decreases lines.len(),
{
    if lines.len() > 0 {
        let earlier = plans_of_lines(lines.drop_last());
        lemma_plans_canonical(lines.drop_last());
        lemma_first_guid_canonical(words(lines.last()));
        let all = plans_of_lines(lines);
        assert forall|i: int| 0 <= i < all.len() implies canonical_guid(#[trigger] all[i].guid) by {
            if i < earlier.len() {
                assert(all[i] == earlier[i]);
            } else {
                assert(line_plan(lines.last()) is Some);
            }
        }
    }
}

/// Every plan read from `powercfg /L` output carries a GUID in canonical
/// form: 36 characters, dashes at 8, 13, 18 and 23, lower-case
/// hexadecimal digits elsewhere.
pub proof fn law_listed_guids_are_canonical(output: Seq<char>)
    ensures
        forall|i: int|
            0 <= i < listed_plans(output).len() ==> canonical_guid(
                #[trigger] listed_plans(output)[i].guid,
            ),
{
    lemma_plans_canonical(text_lines(output));
}

proof fn lemma_words_of_word(s: Seq<char>)
    requires
        s.len() > 0,
        forall|i: int| 0 <= i < s.len() ==> !is_white(#[trigger] s[i]),
    ensures
        words(s) == seq![s],
    decreases s.len(),
{
    if s.len() >= 2 {
        let t = s.drop_last();
        lemma_words_of_word(t);
        assert(s[s.len() - 2] == t[t.len() - 1]);
        assert(!is_white(s.last()));
        assert(!is_white(s[s.len() - 2]));
        assert(t.push(s.last()) =~= s);
        assert(words(t).last() == t);
        assert(seq![t].update(0, s) =~= seq![s]);
        assert(words(s) == words(t).update(0, words(t).last().push(s.last())));
    } else {
        assert(s.drop_last() =~= Seq::<char>::empty());
        assert(words(s.drop_last()) == Seq::<Seq<char>>::empty());
        assert(!is_white(s.last()));
        assert(seq![s.last()] =~= s);
        assert(Seq::<Seq<char>>::empty().push(seq![s.last()]) =~= seq![s]);
    }
}

/// A GUID in canonical form is read back as itself: it is one token,
/// carries no marks to trim, and is already lower-case.
pub proof fn law_guid_extracts_to_itself(g: Seq<char>)
    requires
        canonical_guid(g),
    ensures
        line_guid(g) == Some(g),
{
    assert forall|i: int| 0 <= i < g.len() implies !is_white(#[trigger] g[i]) by {
        assert(guid_char_ok(i, g[i]));
    }
    lemma_words_of_word(g);
    assert(guid_char_ok(0, g[0]));
    assert(guid_char_ok(35, g[35]));
    assert(drop_front_while(g, guid_marks()) == g);
    assert(drop_back_while(g, guid_marks()) == g);
    assert(token_guid(g) == Some(g));
    assert(words(g)[0] == g);
    assert(first_guid(words(g)) == Some(g));
}

/// The active scheme's GUID is the GUID of the first line that names one:
/// that line names it and no line before it names any; where no line names
/// a GUID there is none.
pub proof fn law_active_scheme_is_first_guid(lines: Seq<Seq<char>>)
    ensures
        first_line_guid(lines) matches Some(g) ==> exists|k: int|
            0 <= k < lines.len() && line_guid(#[trigger] lines[k]) == Some(g) && forall|j: int|
                0 <= j < k ==> line_guid(lines[j]) is None,
        first_line_guid(lines) is None ==> forall|k: int|
            0 <= k < lines.len() ==> line_guid(#[trigger] lines[k]) is None,
    decreases lines.len(),
{
    if lines.len() > 0 {
        let rest = lines.drop_first();
        law_active_scheme_is_first_guid(rest);
        if line_guid(lines[0]) is Some {
            assert(line_guid(lines[0]) == first_line_guid(lines));
        } else {
            if first_line_guid(rest) is Some {
                let g = first_line_guid(rest)->0;
                let k = choose|k: int|
                    0 <= k < rest.len() && line_guid(#[trigger] rest[k]) == Some(g) && forall|j: int|
                        0 <= j < k ==> line_guid(rest[j]) is None;
                assert(lines[k + 1] == rest[k]);
                assert forall|j: int| 0 <= j < k + 1 implies line_guid(lines[j]) is None by {
                    if j > 0 {
                        assert(lines[j] == rest[j - 1]);
                    }
                }
            } else {
                assert forall|k: int| 0 <= k < lines.len() implies line_guid(#[trigger] lines[k])
                    is None by {
                    if k > 0 {
                        assert(lines[k] == rest[k - 1]);
                    }
                }
            }
        }
    }
}

/// Every line that names a GUID gives one plan, in order, with that GUID,
/// its name or `Unknown`, and marked active exactly when the line holds a
/// `*`; so no plans are listed exactly when no line names a GUID.
pub proof fn law_one_plan_per_guid_line(lines: Seq<Seq<char>>)
    ensures
        (plans_of_lines(lines).len() == 0) <==> forall|k: int|
            0 <= k < lines.len() ==> line_guid(#[trigger] lines[k]) is None,
        lines.len() > 0 && line_guid(lines.last()) is Some ==> ({
            let p = plans_of_lines(lines).last();
            &&& p.guid == line_guid(lines.last())->0
            &&& p.is_active == lines.last().contains('*')
            &&& p.name == (match line_name(lines.last()) {
                Some(n) => n,
                None => "Unknown"@,
            })
        }),
    decreases lines.len(),
{
    if lines.len() > 0 {
        let t = lines.drop_last();
        law_one_plan_per_guid_line(t);
        if line_guid(lines.last()) is None {
            assert forall|k: int| 0 <= k < t.len() implies (line_guid(#[trigger] lines[k]) is None
                <==> line_guid(t[k]) is None) by {
                assert(lines[k] == t[k]);
            }
            if plans_of_lines(t).len() == 0 {
                assert forall|k: int| 0 <= k < lines.len() implies line_guid(#[trigger] lines[k])
                    is None by {
                    if k < t.len() {
                        assert(lines[k] == t[k]);
                    }
                }
            } else {
                let k = choose|k: int| 0 <= k < t.len() && line_guid(#[trigger] t[k]) is Some;
                assert(lines[k] == t[k]);
            }
        } else {
            assert(line_guid(lines[lines.len() - 1]) is Some);
        }
    }
}

} // verus!
