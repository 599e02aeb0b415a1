//! Automatic screen selection.
//!
//! Rules are checked in priority order; the first rule that has matched for
//! its whole activation delay wins. A screen chosen by a rule is kept for the
//! rule's return delay after the rule stops matching; when nothing qualifies
//! and nothing is held, the optional default screen is shown.
//!
//! Time is a monotonic clock in milliseconds supplied by the caller. Whether a
//! rule's sensor threshold is reached is decided by the caller too (readings
//! are floating-point); everything else about matching is decided here.
use vstd::prelude::*;
use crate::schema::TransitionKind;
use crate::text::{ascii_lowercase, chars_of, ends_with, is_blank, str_is_blank, string_from_range, to_lowercase, trim, trim_str, unicode_lowercase};

verus! {

/// What a rule watches.
#[derive(Clone, Copy, Debug, PartialEq, Eq, Structural)]
pub enum AutomationRuleKind {
    ProcessRunning,
    GpuTemperatureAbove,
    CpuTemperatureAbove,
    GpuUsageAbove,
    CpuUsageAbove,
    IdleFor,
}

/// One automatic screen rule (its sensor threshold is held by the caller).
#[derive(Clone, Debug)]
pub struct AutomationRule {
    pub enabled: bool,
    pub kind: AutomationRuleKind,
    pub process_name: String,
    pub idle_seconds: u64,
    pub sustain_seconds: u64,
    pub release_seconds: u64,
    pub screen: String,
}

/// The ordered rule list and the fallback screen.
#[derive(Clone, Debug)]
pub struct AutomationConfig {
    pub enabled: bool,
    pub default_screen: Option<String>,
    pub rules: Vec<AutomationRule>,
}

impl Default for AutomationConfig {
    fn default() -> (config: Self)
        ensures
            !config.enabled,
            config.default_screen is None,
            config.rules@.len() == 0,
    {
        AutomationConfig { enabled: false, default_screen: None, rules: Vec::new() }
    }
}

/// The suffix that process names lose before they are compared.
pub open spec fn exe_suffix() -> Seq<char> {
    seq!['.', 'e', 'x', 'e']
}

/// `s` with every trailing ".exe" removed (`str::trim_end_matches(".exe")`).
pub open spec fn strip_exe(s: Seq<char>) -> Seq<char>
    decreases s.len(),
{
    if ends_with(s, exe_suffix()) {
        strip_exe(s.subrange(0, s.len() - 4))
    } else {
        s
    }
}

/// A process name as rules compare it: trimmed, lower-cased, without ".exe".
pub open spec fn normalised_process_name(name: Seq<char>) -> Seq<char> {
    strip_exe(unicode_lowercase(trim(name)))
}

/// Normalises a process name so that "CINEBENCH.EXE" and "cinebench" compare
/// equal. An ASCII name is lower-cased letter by letter.
pub fn normalise_process_name(name: &str) -> (normalised: String)
    ensures
        normalised@ == normalised_process_name(name@),
        (forall|i: int| 0 <= i < trim(name@).len() ==> (#[trigger] trim(name@)[i] as u32) < 128)
            ==> normalised@ == strip_exe(ascii_lowercase(trim(name@))),
{
    let trimmed = trim_str(name);
    let lowered = to_lowercase(trimmed.as_str());
    let chars = chars_of(lowered.as_str());
    let mut end = chars.len();
    assert(chars@.subrange(0, end as int) == chars@);
    while end >= 4 && chars[end - 4] == '.' && chars[end - 3] == 'e' && chars[end - 2] == 'x'
        && chars[end - 1] == 'e'
        invariant
            end <= chars.len(),
            chars@ == unicode_lowercase(trim(name@)),
            strip_exe(chars@) == strip_exe(chars@.subrange(0, end as int)),
        decreases end,
    {
        proof {
            let s = chars@.subrange(0, end as int);
            assert(s.subrange(s.len() - 4, s.len() as int) =~= exe_suffix());
            assert(s.subrange(0, s.len() - 4) =~= chars@.subrange(0, end - 4));
        }
        end -= 4;
    }
    proof {
        let s = chars@.subrange(0, end as int);
        if ends_with(s, exe_suffix()) {
            assert(s.subrange(s.len() - 4, s.len() as int)[0] == chars@[end - 4]);
            assert(s.subrange(s.len() - 4, s.len() as int)[1] == chars@[end - 3]);
            assert(s.subrange(s.len() - 4, s.len() as int)[2] == chars@[end - 2]);
            assert(s.subrange(s.len() - 4, s.len() as int)[3] == chars@[end - 1]);
        }
    }
    string_from_range(&chars, 0, end)
}

/// Whether a rule matches right now, given the running processes, the idle
/// time and (for sensor rules) whether the caller found the threshold reached.
pub open spec fn rule_matches_spec(
    rule: AutomationRule,
    process_names: Seq<String>,
    idle_seconds: u64,
    threshold_reached: bool,
) -> bool {
    &&& rule.enabled
    &&& !is_blank(rule.screen@)
    &&& match rule.kind {
        AutomationRuleKind::ProcessRunning => {
            let wanted = normalised_process_name(rule.process_name@);
            wanted.len() > 0 && exists|i: int|
                0 <= i < process_names.len() && normalised_process_name(#[trigger] process_names[i]@)
                    == wanted
        },
        AutomationRuleKind::IdleFor => idle_seconds >= rule.idle_seconds,
        _ => threshold_reached,
    }
}

/// A disabled rule, or one whose screen is blank, never matches. Otherwise
/// an idle rule matches once the idle time reaches its threshold, a sensor
/// rule follows whether its threshold was reached, and a process rule
/// matches when some running process has its (non-empty) normalised name and
/// not when none does.
pub proof fn law_rule_matching(
    rule: AutomationRule,
    process_names: Seq<String>,
    idle_seconds: u64,
    threshold_reached: bool,
    k: int,
)
    ensures
        !rule.enabled || is_blank(rule.screen@) ==> !rule_matches_spec(rule, process_names, idle_seconds, threshold_reached),
        rule.enabled && !is_blank(rule.screen@) ==> {
            &&& rule.kind == AutomationRuleKind::IdleFor ==> (rule_matches_spec(rule, process_names, idle_seconds, threshold_reached)
                <==> idle_seconds >= rule.idle_seconds)
            &&& rule.kind == AutomationRuleKind::ProcessRunning && 0 <= k < process_names.len()
                && normalised_process_name(process_names[k]@) == normalised_process_name(rule.process_name@)
                && normalised_process_name(rule.process_name@).len() > 0 ==> rule_matches_spec(
                rule,
                process_names,
                idle_seconds,
                threshold_reached,
            )
            &&& rule.kind == AutomationRuleKind::ProcessRunning && (forall|j: int|
                0 <= j < process_names.len() ==> normalised_process_name(#[trigger] process_names[j]@)
                    != normalised_process_name(rule.process_name@)) ==> !rule_matches_spec(
                rule,
                process_names,
                idle_seconds,
                threshold_reached,
            )
            &&& rule.kind != AutomationRuleKind::ProcessRunning && rule.kind != AutomationRuleKind::IdleFor
                ==> (rule_matches_spec(rule, process_names, idle_seconds, threshold_reached) == threshold_reached)
        },
{
}

/// Decides whether `rule` matches: a disabled rule or one without a screen
/// never does; a process rule looks for a running process of that name; an
/// idle rule compares the idle time; a sensor rule takes `threshold_reached`.
pub fn rule_matches(
    rule: &AutomationRule,
    process_names: &Vec<String>,
    idle_seconds: u64,
    threshold_reached: bool,
) -> (matched: bool)
    ensures
        matched == rule_matches_spec(*rule, process_names@, idle_seconds, threshold_reached),
{
    if !rule.enabled || str_is_blank(rule.screen.as_str()) {
        return false;
    }
    match rule.kind {
        AutomationRuleKind::ProcessRunning => {
            let wanted = normalise_process_name(rule.process_name.as_str());
            if wanted.unicode_len() == 0 {
                return false;
            }
            let mut i: usize = 0;
            while i < process_names.len()
                invariant
                    i <= process_names.len(),
                    rule.enabled,
                    !is_blank(rule.screen@),
                    rule.kind == AutomationRuleKind::ProcessRunning,
                    wanted@.len() > 0,
                    wanted@ == normalised_process_name(rule.process_name@),
                    forall|j: int|
                        0 <= j < i ==> normalised_process_name(#[trigger] process_names@[j]@)
                            != wanted@,
                decreases process_names.len() - i,
            {
                let candidate = normalise_process_name(process_names[i].as_str());
                if candidate == wanted {
                    assert(normalised_process_name(process_names@[i as int]@) == wanted@);
                    return true;
                }
                i += 1;
            }
            false
        },
        AutomationRuleKind::IdleFor => idle_seconds >= rule.idle_seconds,
        _ => threshold_reached,
    }
}

/// Milliseconds from `from` to `now`, zero when `now` is earlier.
pub open spec fn elapsed_ms(from: u64, now: u64) -> nat {
    if now >= from {
        (now - from) as nat
    } else {
        0
    }
}

/// When rule `i` started matching, counting a rule seen for the first time
/// as starting now.
pub open spec fn started_at(since: Map<nat, u64>, i: nat, now: u64) -> u64 {
    if since.contains_key(i) {
        since[i]
    } else {
        now
    }
}

/// Rule `i` matches and has matched for at least its activation delay.
pub open spec fn qualifies(
    rules: Seq<AutomationRule>,
    matches: Seq<bool>,
    since: Map<nat, u64>,
    now: u64,
    i: nat,
) -> bool {
    &&& i < rules.len()
    &&& matches[i as int]
    &&& elapsed_ms(started_at(since, i, now), now) >= rules[i as int].sustain_seconds * 1000
}

/// The first rule at index `i` or later that qualifies.
pub open spec fn first_qualified_from(
    rules: Seq<AutomationRule>,
    matches: Seq<bool>,
    since: Map<nat, u64>,
    now: u64,
    i: nat,
) -> Option<nat>
    decreases rules.len() - i,
{
    if i >= rules.len() {
        None
    } else if qualifies(rules, matches, since, now, i) {
        Some(i)
    } else {
        first_qualified_from(rules, matches, since, now, i + 1)
    }
}

/// The highest-priority rule that qualifies, if any.
pub open spec fn first_qualified(
    rules: Seq<AutomationRule>,
    matches: Seq<bool>,
    since: Map<nat, u64>,
    now: u64,
) -> Option<nat> {
    first_qualified_from(rules, matches, since, now, 0)
}

/// Match start times after rules `0..upto` were examined: a matching rule
/// keeps (or gets) its start time, a non-matching one loses it, later rules
/// are untouched.
pub open spec fn since_examined(
    matches: Seq<bool>,
    since: Map<nat, u64>,
    now: u64,
    upto: nat,
) -> Map<nat, u64> {
    Map::new(
        |k: nat| if k < upto { matches[k as int] } else { since.contains_key(k) },
        |k: nat| if k < upto { started_at(since, k, now) } else { since[k] },
    )
}

/// Match start times after a step: rules up to the winning one (or all rules)
/// are examined, and entries of indices past the rule list are dropped.
pub open spec fn since_after_step(
    rules: Seq<AutomationRule>,
    matches: Seq<bool>,
    since: Map<nat, u64>,
    now: u64,
) -> Map<nat, u64> {
    let upto: nat = match first_qualified(rules, matches, since, now) {
        Some(q) => q + 1,
        None => rules.len(),
    };
    since_examined(matches, since, now, upto).restrict(Set::new(|k: nat| k < rules.len()))
}

/// The screen a winning rule asks for: its trimmed name, unless blank.
pub open spec fn requested_screen(rules: Seq<AutomationRule>, winner: Option<nat>) -> Option<Seq<char>> {
    match winner {
        Some(q) => if is_blank(rules[q as int].screen@) {
            None
        } else {
            Some(trim(rules[q as int].screen@))
        },
        None => None,
    }
}

/// The longest return delay among the rules that lead to `screen` (0 if none).
pub open spec fn release_seconds_for(rules: Seq<AutomationRule>, screen: Seq<char>) -> u64
    decreases rules.len(),
{
    if rules.len() == 0 {
        0
    } else {
        let rest = release_seconds_for(rules.drop_last(), screen);
        let rule = rules.last();
        if trim(rule.screen@) == screen && rule.release_seconds > rest {
            rule.release_seconds
        } else {
            rest
        }
    }
}

/// The default screen, unless it is absent or blank.
pub open spec fn fallback_screen(config: AutomationConfig) -> Option<Seq<char>> {
    match config.default_screen {
        Some(s) => if is_blank(s@) {
            None
        } else {
            Some(s@)
        },
        None => None,
    }
}

pub open spec fn string_opt_view(s: Option<String>) -> Option<Seq<char>> {
    match s {
        Some(s) => Some(s@),
        None => None,
    }
}

/// A screen chosen earlier is held while its return delay has not run out.
pub open spec fn holds_screen(
    active: Option<Seq<char>>,
    last_match: Option<u64>,
    rules: Seq<AutomationRule>,
    now: u64,
) -> bool {
    match (active, last_match) {
        (Some(a), Some(t)) => elapsed_ms(t, now) < release_seconds_for(rules, a) * 1000,
        _ => false,
    }
}

/// The outcome of one step of enabled automation: the screen to show, and
/// the held screen with its last match time afterwards.
pub open spec fn step_outcome(
    config: AutomationConfig,
    matches: Seq<bool>,
    since: Map<nat, u64>,
    active: Option<Seq<char>>,
    last_match: Option<u64>,
    now: u64,
) -> (Option<Seq<char>>, Option<Seq<char>>, Option<u64>) {
    let rules = config.rules@;
    match requested_screen(rules, first_qualified(rules, matches, since, now)) {
        Some(s) => (Some(s), Some(s), Some(now)),
        None => if holds_screen(active, last_match, rules, now) {
            (active, active, last_match)
        } else {
            (fallback_screen(config), None, None)
        },
    }
}

/// The longest return delay among the rules that lead to `screen`.
fn release_seconds(rules: &Vec<AutomationRule>, screen: &String) -> (seconds: u64)
    ensures
        seconds == release_seconds_for(rules@, screen@),
{
    let mut best: u64 = 0;
    let mut i: usize = 0;
    assert(rules@.take(0) =~= Seq::<AutomationRule>::empty());
    while i < rules.len()
        invariant
            i <= rules.len(),
            best == release_seconds_for(rules@.take(i as int), screen@),
        decreases rules.len() - i,
    {
        let trimmed = trim_str(rules[i].screen.as_str());
        assert(rules@.take(i + 1).drop_last() =~= rules@.take(i as int));
        if trimmed == *screen && rules[i].release_seconds > best {
            best = rules[i].release_seconds;
        }
        i += 1;
    }
    assert(rules@.take(rules.len() as int) =~= rules@);
    best
}

/// Keeps, per rule, since when it has matched, and which screen the rules
/// last chose.
pub struct RuleEngine {
    matched_since: Vec<Option<u64>>,
    active_screen: Option<String>,
    active_last_match: Option<u64>,
}

/// The start times held in a slot vector, by rule index.
pub open spec fn slots_map(slots: Seq<Option<u64>>) -> Map<nat, u64> {
    Map::new(|k: nat| k < slots.len() && slots[k as int] is Some, |k: nat| slots[k as int]->0)
}

fn slot_get(slots: &Vec<Option<u64>>, i: usize) -> (value: Option<u64>)
    ensures
        value == (if slots_map(slots@).contains_key(i as nat) {
            Some(slots_map(slots@)[i as nat])
        } else {
            None
        }),
{
    if i < slots.len() {
        slots[i]
    } else {
        None
    }
}

fn slot_set(slots: &mut Vec<Option<u64>>, i: usize, value: Option<u64>)
    requires
        i < usize::MAX,
    ensures
        slots_map(final(slots)@) == (match value {
            Some(t) => slots_map(old(slots)@).insert(i as nat, t),
            None => slots_map(old(slots)@).remove(i as nat),
        }),
{
    if i < slots.len() {
        slots.set(i, value);
    } else if let Some(t) = value {
        while slots.len() < i
            invariant
                slots_map(slots@) == slots_map(old(slots)@),
                old(slots)@.len() <= slots@.len() <= i,
            decreases i - slots.len(),
        {
            let ghost before = slots@;
            slots.push(None);
            assert(slots_map(slots@) =~= slots_map(before));
        }
        slots.push(Some(t));
    }
    proof {
        match value {
            Some(t) => {
                assert(slots_map(slots@) =~= slots_map(old(slots)@).insert(i as nat, t));
            },
            None => {
                assert(slots_map(slots@) =~= slots_map(old(slots)@).remove(i as nat));
            },
        }
    }
}

impl RuleEngine {
    /// Since when each rule (by index) has matched without interruption.
    pub closed spec fn matched_since(&self) -> Map<nat, u64> {
        slots_map(self.matched_since@)
    }

    /// The screen the rules chose last, while it is held.
    pub closed spec fn active_screen(&self) -> Option<Seq<char>> {
        string_opt_view(self.active_screen)
    }

    /// When the held screen's rule last matched.
    pub closed spec fn active_last_match(&self) -> Option<u64> {
        self.active_last_match
    }

    /// A held screen is stamped with the time its rule last matched.
    pub closed spec fn wf(&self) -> bool {
        self.active_screen is Some <==> self.active_last_match is Some
    }

    /// An engine that has seen nothing yet.
    pub fn new() -> (engine: Self)
        ensures
            engine.wf(),
            engine.matched_since() == Map::<nat, u64>::empty(),
            engine.active_screen() is None,
            engine.active_last_match() is None,
    {
        let engine = RuleEngine { matched_since: Vec::new(), active_screen: None, active_last_match: None };
        assert(engine.matched_since() =~= Map::<nat, u64>::empty());
        engine
    }

    /// Forgets every match time and the held screen, so each rule must
    /// sustain its activation delay again.
    pub fn reset(&mut self)
        ensures
            final(self).wf(),
            final(self).matched_since() == Map::<nat, u64>::empty(),
            final(self).active_screen() is None,
            final(self).active_last_match() is None,
    {
        self.matched_since = Vec::new();
        self.active_screen = None;
        self.active_last_match = None;
        assert(self.matched_since() =~= Map::<nat, u64>::empty());
    }

    /// One automation step at time `now` (milliseconds), given whether each
    /// rule matches. Examines the rules in order, recording since when each
    /// has matched, and stops at the first one that has matched for its
    /// activation delay; that rule's (trimmed) screen is shown and held.
    /// Otherwise a held screen stays while its return delay lasts, and then
    /// the default screen (if any) is shown. Disabled automation shows nothing
    /// and changes nothing.
    pub fn target_screen(&mut self, config: &AutomationConfig, matches: &Vec<bool>, now: u64) -> (screen: Option<String>)
        requires
            matches@.len() == config.rules@.len(),
        ensures
            !config.enabled ==> {
                &&& screen is None
                &&& final(self).matched_since() == old(self).matched_since()
                &&& final(self).active_screen() == old(self).active_screen()
                &&& final(self).active_last_match() == old(self).active_last_match()
            },
            config.enabled ==> {
                &&& final(self).matched_since() == since_after_step(config.rules@, matches@, old(self).matched_since(), now)
                &&& (string_opt_view(screen), final(self).active_screen(), final(self).active_last_match())
                    == step_outcome(*config, matches@, old(self).matched_since(), old(self).active_screen(), old(self).active_last_match(), now)
            },
    {
        if !config.enabled {
            return None;
        }
        let n = config.rules.len();
        let ghost rules = config.rules@;
        let ghost m = matches@;
        let ghost since0 = self.matched_since();
        let ghost active0 = self.active_screen();
        let ghost last0 = self.active_last_match();
        let mut winner: Option<usize> = None;
        let mut i: usize = 0;
        assert(since_examined(m, since0, now, 0) =~= since0);
        while i < n && winner.is_none()
            invariant
                n == rules.len() == m.len(),
                rules == config.rules@,
                m == matches@,
                i <= n,
                self.active_screen() == active0,
                self.active_last_match() == last0,
                winner is None ==> {
                    &&& first_qualified(rules, m, since0, now) == first_qualified_from(rules, m, since0, now, i as nat)
                    &&& slots_map(self.matched_since@) == since_examined(m, since0, now, i as nat)
                },
                winner matches Some(w) ==> {
                    &&& w == i
                    &&& i < n
                    &&& first_qualified(rules, m, since0, now) == Some(i as nat)
                    &&& slots_map(self.matched_since@) == since_examined(m, since0, now, (i + 1) as nat)
                },
            decreases n - i + (if winner is None { 1int } else { 0int }),
        {
            let ghost before = slots_map(self.matched_since@);
            if matches[i] {
                let started = match slot_get(&self.matched_since, i) {
                    Some(t) => t,
                    None => {
                        slot_set(&mut self.matched_since, i, Some(now));
                        now
                    },
                };
                proof {
                    assert(started == started_at(since0, i as nat, now));
                    assert(slots_map(self.matched_since@) =~= since_examined(m, since0, now, (i + 1) as nat));
                }
                let elapsed: u64 = if now >= started { now - started } else { 0 };
                if (elapsed as u128) >= (config.rules[i].sustain_seconds as u128) * 1000 {
                    assert(qualifies(rules, m, since0, now, i as nat));
                    winner = Some(i);
                } else {
                    assert(!qualifies(rules, m, since0, now, i as nat));
                    i += 1;
                }
            } else {
                slot_set(&mut self.matched_since, i, None);
                proof {
                    assert(!qualifies(rules, m, since0, now, i as nat));
                    assert(slots_map(self.matched_since@) =~= since_examined(m, since0, now, (i + 1) as nat));
                }
                i += 1;
            }
        }
        let ghost examined = slots_map(self.matched_since@);
        let ghost slots_before = self.matched_since@;
        self.matched_since.truncate(n);
        proof {
            let upto: nat = match first_qualified(rules, m, since0, now) {
                Some(q) => q + 1,
                None => rules.len(),
            };
            assert(examined == since_examined(m, since0, now, upto));
            assert(slots_map(self.matched_since@) =~= examined.restrict(Set::new(|k: nat| k < rules.len())));
        }
        let mut requested: Option<String> = None;
        if let Some(w) = winner {
            let trimmed = trim_str(config.rules[w].screen.as_str());
            if trimmed.unicode_len() > 0 {
                requested = Some(trimmed);
            }
        }
        assert(string_opt_view(requested) == requested_screen(rules, first_qualified(rules, m, since0, now)));
        if let Some(chosen) = requested {
            self.active_screen = Some(chosen.clone());
            self.active_last_match = Some(now);
            return Some(chosen);
        }
        let mut held: Option<String> = None;
        if let Some(active) = &self.active_screen {
            if let Some(last) = self.active_last_match {
                let release = release_seconds(&config.rules, active);
                let elapsed: u64 = if now >= last { now - last } else { 0 };
                if (elapsed as u128) < (release as u128) * 1000 {
                    held = Some(active.clone());
                }
            }
        }
        proof {
            assert(self.active_screen() == active0);
            assert(self.active_last_match() == last0);
            assert(requested_screen(rules, first_qualified(rules, m, since0, now)) is None);
            let a = string_opt_view(self.active_screen);
            if holds_screen(a, self.active_last_match, rules, now) {
                assert(held is Some);
            }
            assert(held is Some ==> holds_screen(a, self.active_last_match, rules, now));
            assert(held is Some ==> string_opt_view(held) == a);
        }
        if held.is_some() {
            return held;
        }
        self.active_screen = None;
        self.active_last_match = None;
        match &config.default_screen {
            Some(default_screen) => {
                if str_is_blank(default_screen.as_str()) {
                    None
                } else {
                    Some(default_screen.clone())
                }
            },
            None => None,
        }
    }

    /// Whether any rule matches right now (and automation is enabled).
    pub fn any_rule_matches(&self, config: &AutomationConfig, matches: &Vec<bool>) -> (any: bool)
        requires
            matches@.len() == config.rules@.len(),
        ensures
            any == (config.enabled && exists|i: int| 0 <= i < matches@.len() && matches@[i]),
    {
        if !config.enabled {
            return false;
        }
        let mut i: usize = 0;
        while i < matches.len()
            invariant
                i <= matches.len(),
                config.enabled,
                forall|j: int| 0 <= j < i ==> !matches@[j],
            decreases matches.len() - i,
        {
            if matches[i] {
                assert(matches@[i as int]);
                return true;
            }
            i += 1;
        }
        false
    }
}

} // verus!

verus! {

proof fn lemma_first_qualified_from_is_least(
    rules: Seq<AutomationRule>,
    matches: Seq<bool>,
    since: Map<nat, u64>,
    now: u64,
    i: nat,
)
    ensures
        first_qualified_from(rules, matches, since, now, i) matches Some(q) ==> {
            &&& i <= q
            &&& qualifies(rules, matches, since, now, q)
            &&& forall|j: nat| i <= j < q ==> !qualifies(rules, matches, since, now, j)
        },
        first_qualified_from(rules, matches, since, now, i) is None ==> forall|j: nat|
            i <= j ==> !qualifies(rules, matches, since, now, j),
    decreases rules.len() - i,
{
    if i < rules.len() && !qualifies(rules, matches, since, now, i) {
        lemma_first_qualified_from_is_least(rules, matches, since, now, i + 1);
        assert forall|j: nat| i <= j && !qualifies(rules, matches, since, now, i) && j == i implies !qualifies(rules, matches, since, now, j) by {}
    }
}

/// Rules are examined in priority order: the rule that wins is one that
/// qualifies (it matches and has matched for its whole activation delay),
/// and no rule before it in the list qualifies. When none wins, none
/// qualifies.
pub proof fn law_first_qualifying_rule_wins(
    rules: Seq<AutomationRule>,
    matches: Seq<bool>,
    since: Map<nat, u64>,
    now: u64,
)
    ensures
        first_qualified(rules, matches, since, now) matches Some(q) ==> {
            &&& qualifies(rules, matches, since, now, q)
            &&& forall|j: nat| j < q ==> !qualifies(rules, matches, since, now, j)
        },
        first_qualified(rules, matches, since, now) is None ==> forall|j: nat|
            !qualifies(rules, matches, since, now, j),
{
    lemma_first_qualified_from_is_least(rules, matches, since, now, 0);
}

/// A brief spike cannot switch screens: a rule that was not already matching
/// (has no recorded start time) and has a non-zero activation delay does not
/// win the step in which it first matches; its start time is recorded as now.
pub proof fn law_new_match_waits_for_its_delay(
    rules: Seq<AutomationRule>,
    matches: Seq<bool>,
    since: Map<nat, u64>,
    now: u64,
    i: nat,
)
    requires
        i < rules.len(),
        i < matches.len(),
        matches[i as int],
        !since.contains_key(i),
        rules[i as int].sustain_seconds > 0,
    ensures
        first_qualified(rules, matches, since, now) != Some(i),
        first_qualified(rules, matches, since, now) is None
            || first_qualified(rules, matches, since, now)->0 >= i ==> since_after_step(rules, matches, since, now).contains_key(i)
            && since_after_step(rules, matches, since, now)[i] == now,
{
    lemma_first_qualified_from_is_least(rules, matches, since, now, 0);
    assert(!qualifies(rules, matches, since, now, i));
}

/// A rule that does not match loses its start time, so it must sustain its
/// activation delay again before it can win.
pub proof fn law_interrupted_match_restarts(
    rules: Seq<AutomationRule>,
    matches: Seq<bool>,
    since: Map<nat, u64>,
    now: u64,
    i: nat,
)
    requires
        i < rules.len(),
        i < matches.len(),
        !matches[i as int],
        first_qualified(rules, matches, since, now) is None || first_qualified(rules, matches, since, now)->0 > i,
    ensures
        !since_after_step(rules, matches, since, now).contains_key(i),
{
}

/// Returning is delayed too: while no rule asks for a screen, the screen
/// the rules chose last stays shown until its longest return delay has run
/// out since its rule last matched; after that the default screen is shown
/// and nothing is held.
pub proof fn law_screen_is_held_for_its_return_delay(
    config: AutomationConfig,
    matches: Seq<bool>,
    since: Map<nat, u64>,
    active: Option<Seq<char>>,
    last_match: Option<u64>,
    now: u64,
)
    requires
        requested_screen(config.rules@, first_qualified(config.rules@, matches, since, now)) is None,
    ensures
        holds_screen(active, last_match, config.rules@, now) ==> step_outcome(config, matches, since, active, last_match, now)
            == (active, active, last_match),
        !holds_screen(active, last_match, config.rules@, now) ==> step_outcome(config, matches, since, active, last_match, now)
            == (fallback_screen(config), None::<Seq<char>>, None::<u64>),
{
}

/// A screen is held for the longest return delay among the rules that lead
/// to it (their trimmed screen names it): no such rule has a longer delay,
/// and the delay is that of one of them, or 0 when no rule leads to it.
pub proof fn law_hold_delay_is_the_longest_of_its_rules(rules: Seq<AutomationRule>, screen: Seq<char>)
    ensures
        forall|i: int|
            0 <= i < rules.len() && trim((#[trigger] rules[i]).screen@) == screen ==> rules[i].release_seconds
                <= release_seconds_for(rules, screen),
        release_seconds_for(rules, screen) == 0 || exists|i: int|
            0 <= i < rules.len() && trim((#[trigger] rules[i]).screen@) == screen && rules[i].release_seconds
                == release_seconds_for(rules, screen),
    decreases rules.len(),
{
    if rules.len() > 0 {
        let earlier = rules.drop_last();
        law_hold_delay_is_the_longest_of_its_rules(earlier, screen);
        let last = rules.len() - 1;
        assert forall|i: int|
            0 <= i < rules.len() && trim((#[trigger] rules[i]).screen@) == screen implies rules[i].release_seconds
                <= release_seconds_for(rules, screen) by {
            if i < last {
                assert(rules[i] == earlier[i]);
            }
        }
        if release_seconds_for(rules, screen) != 0 {
            if release_seconds_for(rules, screen) != release_seconds_for(earlier, screen) {
                assert(trim(rules[last].screen@) == screen);
            } else {
                let w = choose|i: int|
                    0 <= i < earlier.len() && trim((#[trigger] earlier[i]).screen@) == screen
                        && earlier[i].release_seconds == release_seconds_for(earlier, screen);
                assert(rules[w] == earlier[w]);
            }
        }
    }
}

/// After a reset no rule with an activation delay can win at once: each
/// must sustain its match again.
pub proof fn law_reset_requires_sustain_again(
    rules: Seq<AutomationRule>,
    matches: Seq<bool>,
    now: u64,
    i: nat,
)
    requires
        i < rules.len(),
        i < matches.len(),
        rules[i as int].sustain_seconds > 0,
    ensures
        first_qualified(rules, matches, Map::<nat, u64>::empty(), now) != Some(i),
{
    lemma_first_qualified_from_is_least(rules, matches, Map::<nat, u64>::empty(), now, 0);
    assert(!qualifies(rules, matches, Map::<nat, u64>::empty(), now, i));
}

/// Start times are only kept for rules that exist.
pub proof fn law_start_times_only_for_listed_rules(
    rules: Seq<AutomationRule>,
    matches: Seq<bool>,
    since: Map<nat, u64>,
    now: u64,
    k: nat,
)
    requires
        k >= rules.len(),
    ensures
        !since_after_step(rules, matches, since, now).contains_key(k),
{
}

} // verus!

verus! {

/// `x * y` modulo 2^32, as `u32::wrapping_mul` computes it.
pub open spec fn mul_mod32(x: u32, y: u32) -> u32 {
    ((x as nat * y as nat) % 0x1_0000_0000) as u32
}

/// The pixel hash that drives the dissolve, glitch and boot effects.
pub open spec fn pixel_hash(x: u32, y: u32) -> u32 {
    let first = mul_mod32(x, 0x45d9f3b) ^ mul_mod32(y, 0x119de1f3);
    let mixed = first ^ (first >> 16u32);
    let second = mul_mod32(mixed, 0x45d9f3b);
    second ^ (second >> 16u32)
}

/// Hashes pixel coordinates into a pseudo-random `u32`.
pub fn hash(x: u32, y: u32) -> (value: u32)
    ensures
        value == pixel_hash(x, y),
{
    let mut value = x.wrapping_mul(0x45d9f3b) ^ y.wrapping_mul(0x119de1f3);
    value ^= value >> 16;
    value = value.wrapping_mul(0x45d9f3b);
    value ^ (value >> 16)
}

/// How long a transition between screens runs: none when transitions are
/// disabled or the duration is zero, otherwise the duration clamped to
/// 100..=3000 ms.
pub fn transition_duration_ms(kind: TransitionKind, duration_ms: u64) -> (duration: Option<u64>)
    ensures
        duration == (if kind == TransitionKind::Disabled || duration_ms == 0 {
            None::<u64>
        } else if duration_ms < 100 {
            Some(100u64)
        } else if duration_ms > 3000 {
            Some(3000u64)
        } else {
            Some(duration_ms)
        }),
{
    if kind == TransitionKind::Disabled || duration_ms == 0 {
        None
    } else if duration_ms < 100 {
        Some(100)
    } else if duration_ms > 3000 {
        Some(3000)
    } else {
        Some(duration_ms)
    }
}

} // verus!
