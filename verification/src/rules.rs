//! Application-specific rules.
//!
//! Legacy xxkb supported `XXkb.app_list.<property>.<action>: <patterns>`.
//! Here each rule is an [`AppRule`]: a glob pattern on one window
//! property ([`AppMatch`]) and what to do on a match ([`RuleAction`]).
//! Patterns are compiled once when the rule set is built.

use vstd::prelude::*;

use crate::glob::{compile_pattern, glob_is_match, glob_match, pattern_error, CompiledGlob};
use crate::layout::Group;

verus! {

/// A snapshot of the properties of one window: what rules match against.
#[derive(Debug, Clone, Default)]
pub struct WindowProps {
    /// Class part of `WM_CLASS` (e.g. "Firefox").
    pub wm_class_class: String,
    /// Instance part of `WM_CLASS` (e.g. "firefox").
    pub wm_class_name: String,
    /// `WM_NAME` (the window title).
    pub wm_name: String,
}

impl PartialEq for WindowProps {
    fn eq(&self, other: &Self) -> (r: bool) {
        self.wm_class_class == other.wm_class_class && self.wm_class_name == other.wm_class_name
            && self.wm_name == other.wm_name
    }
}

impl vstd::std_specs::cmp::PartialEqSpecImpl for WindowProps {
    open spec fn obeys_eq_spec() -> bool {
        true
    }

    open spec fn eq_spec(&self, other: &Self) -> bool {
        &&& self.wm_class_class@ == other.wm_class_class@
        &&& self.wm_class_name@ == other.wm_class_name@
        &&& self.wm_name@ == other.wm_name@
    }
}

impl Eq for WindowProps {}

/// Which window property a rule matches against.
#[derive(Debug, Clone, Copy, PartialEq, Eq, Structural)]
pub enum MatchField {
    /// `WM_CLASS.class`.
    WmClassClass,
    /// `WM_CLASS.name`.
    WmClassName,
    /// `WM_NAME`.
    WmName,
}

/// What part of [`WindowProps`] a rule matches against, with its glob.
#[derive(Debug, Clone)]
pub enum AppMatch {
    /// Match against `WM_CLASS.class`.
    WmClassClass(String),
    /// Match against `WM_CLASS.name`.
    WmClassName(String),
    /// Match against `WM_NAME`.
    WmName(String),
}

impl AppMatch {
    /// The property this match looks at.
    pub open spec fn field(self) -> MatchField {
        match self {
            AppMatch::WmClassClass(_) => MatchField::WmClassClass,
            AppMatch::WmClassName(_) => MatchField::WmClassName,
            AppMatch::WmName(_) => MatchField::WmName,
        }
    }

    /// The glob pattern, as characters.
    pub open spec fn spec_pattern(self) -> Seq<char> {
        match self {
            AppMatch::WmClassClass(p) => p@,
            AppMatch::WmClassName(p) => p@,
            AppMatch::WmName(p) => p@,
        }
    }

    /// The glob pattern.
    pub fn pattern(&self) -> (r: &String)
        ensures
            r@ == self.spec_pattern(),
    {
        match self {
            AppMatch::WmClassClass(p) => p,
            AppMatch::WmClassName(p) => p,
            AppMatch::WmName(p) => p,
        }
    }
}

impl PartialEq for AppMatch {
    fn eq(&self, other: &Self) -> (r: bool) {
        match self {
            AppMatch::WmClassClass(a) => match other {
                AppMatch::WmClassClass(b) => *a == *b,
                _ => false,
            },
            AppMatch::WmClassName(a) => match other {
                AppMatch::WmClassName(b) => *a == *b,
                _ => false,
            },
            AppMatch::WmName(a) => match other {
                AppMatch::WmName(b) => *a == *b,
                _ => false,
            },
        }
    }
}

impl vstd::std_specs::cmp::PartialEqSpecImpl for AppMatch {
    open spec fn obeys_eq_spec() -> bool {
        true
    }

    open spec fn eq_spec(&self, other: &Self) -> bool {
        self.field() == other.field() && self.spec_pattern() == other.spec_pattern()
    }
}

impl Eq for AppMatch {}

/// What to do when a rule matches.
#[derive(Debug, Clone, Copy, PartialEq, Eq, Structural)]
pub enum RuleAction {
    /// Don't manage this window at all (legacy `app_list.*.ignore`).
    Ignore,
    /// Switch to the configured alt group when the window first appears
    /// (legacy `app_list.*.start_alt`).
    StartAlt,
    /// Use a specific group as alt for this window
    /// (legacy `app_list.*.alt_groupN`).
    AltGroup(Group),
}

/// A single configured rule.
#[derive(Debug, Clone)]
pub struct AppRule {
    /// What to match against.
    pub match_: AppMatch,
    /// What to do on match.
    pub action: RuleAction,
}

impl PartialEq for AppRule {
    fn eq(&self, other: &Self) -> (r: bool) {
        self.match_ == other.match_ && self.action == other.action
    }
}

impl vstd::std_specs::cmp::PartialEqSpecImpl for AppRule {
    open spec fn obeys_eq_spec() -> bool {
        true
    }

    open spec fn eq_spec(&self, other: &Self) -> bool {
        self@ == other@
    }
}

impl Eq for AppRule {}

/// Abstract value of an [`AppRule`] (and of a compiled one).
pub struct RuleModel {
    /// Property matched.
    pub field: MatchField,
    /// Glob pattern.
    pub pattern: Seq<char>,
    /// Action on match.
    pub action: RuleAction,
}

impl View for AppRule {
    type V = RuleModel;

    open spec fn view(&self) -> RuleModel {
        RuleModel {
            field: self.match_.field(),
            pattern: self.match_.spec_pattern(),
            action: self.action,
        }
    }
}

/// A deep copy of a rule.
pub fn clone_app_rule(r: &AppRule) -> (c: AppRule)
    ensures
        c@ == r@,
{
    let m = match &r.match_ {
        AppMatch::WmClassClass(p) => AppMatch::WmClassClass(p.clone()),
        AppMatch::WmClassName(p) => AppMatch::WmClassName(p.clone()),
        AppMatch::WmName(p) => AppMatch::WmName(p.clone()),
    };
    AppRule { match_: m, action: r.action }
}

/// Verdict for a window.
#[derive(Debug, Clone, Copy, PartialEq, Eq, Structural)]
pub enum Verdict {
    /// Window is managed normally.
    Manage,
    /// Don't track or decorate this window.
    Ignore,
    /// Manage, but immediately switch to the alt group.
    StartAlt,
    /// Manage and use this specific group as the alt for this window.
    AltGroup(Group),
}

/// A rule with its pattern compiled.
struct CompiledRule {
    field: MatchField,
    glob: CompiledGlob,
    action: RuleAction,
}

/// A compiled rule set.
pub struct AppRules {
    rules: Vec<CompiledRule>,
    /// If set, the meaning of [`RuleAction::Ignore`] is inverted: only
    /// matched windows are managed (legacy `XXkb.ignore.reverse`).
    pub ignore_reverse: bool,
}

/// Abstract contents of an [`AppRules`].
pub struct RulesModel {
    /// The rules, in order.
    pub rules: Seq<RuleModel>,
    /// Whether `Ignore` is inverted.
    pub ignore_reverse: bool,
}

impl View for AppRules {
    type V = RulesModel;

    closed spec fn view(&self) -> RulesModel {
        RulesModel {
            rules: self.rules@.map_values(
                |r: CompiledRule|
                    RuleModel { field: r.field, pattern: r.glob.source(), action: r.action },
            ),
            ignore_reverse: self.ignore_reverse,
        }
    }
}

/// The property of `props` that `field` names.
pub open spec fn prop_text(props: WindowProps, field: MatchField) -> Seq<char> {
    match field {
        MatchField::WmClassClass => props.wm_class_class@,
        MatchField::WmClassName => props.wm_class_name@,
        MatchField::WmName => props.wm_name@,
    }
}

/// Does rule `r` match `props`?
pub open spec fn rule_matches(r: RuleModel, props: WindowProps) -> bool {
    glob_match(r.pattern, prop_text(props, r.field))
}

/// Index of the first rule at or after `start` matching `props`, or -1.
pub open spec fn first_match_from(rules: Seq<RuleModel>, props: WindowProps, start: int) -> int
    decreases rules.len() - start,
{
    if start < 0 || start >= rules.len() {
        -1
    } else if rule_matches(rules[start], props) {
        start
    } else {
        first_match_from(rules, props, start + 1)
    }
}

/// What [`first_match_from`] finds.
pub proof fn lemma_first_match_from(rules: Seq<RuleModel>, props: WindowProps, start: int)
    requires
        0 <= start,
    ensures
        ({
            let r = first_match_from(rules, props, start);
            &&& -1 <= r < rules.len()
            &&& r >= 0 ==> start <= r && rule_matches(rules[r], props)
            &&& r >= 0 ==> forall|j: int| start <= j < r ==> !rule_matches(rules[j], props)
            &&& r < 0 ==> forall|j: int| start <= j < rules.len() ==> !rule_matches(rules[j], props)
        }),
    decreases rules.len() - start,
{
    if start < rules.len() && !rule_matches(rules[start], props) {
        lemma_first_match_from(rules, props, start + 1);
    }
}

/// The verdict a matched action gives.
pub open spec fn action_verdict(action: RuleAction, ignore_reverse: bool) -> Verdict {
    match action {
        RuleAction::Ignore => if ignore_reverse {
            Verdict::Manage
        } else {
            Verdict::Ignore
        },
        RuleAction::StartAlt => Verdict::StartAlt,
        RuleAction::AltGroup(g) => Verdict::AltGroup(g),
    }
}

/// First match wins; with `ignore_reverse`, a window that matches no rule
/// is ignored (provided there is at least one rule).
pub open spec fn spec_verdict(m: RulesModel, props: WindowProps) -> Verdict {
    let i = first_match_from(m.rules, props, 0);
    if i >= 0 {
        action_verdict(m.rules[i].action, m.ignore_reverse)
    } else if m.ignore_reverse && m.rules.len() > 0 {
        Verdict::Ignore
    } else {
        Verdict::Manage
    }
}

/// Index of the first rule whose pattern does not compile, or -1.
pub open spec fn first_bad_pattern(rules: Seq<RuleModel>) -> int {
    if exists|i: int| 0 <= i < rules.len() && pattern_error(#[trigger] rules[i].pattern) is Some {
        choose|i: int|
            0 <= i < rules.len() && pattern_error(#[trigger] rules[i].pattern) is Some && forall|j: int|
                0 <= j < i ==> pattern_error(#[trigger] rules[j].pattern) is None
    } else {
        -1
    }
}

/// The views of a slice of rules.
pub open spec fn rules_view(rules: Seq<AppRule>) -> Seq<RuleModel> {
    rules.map_values(|r: AppRule| r@)
}

/// Error for a pattern that cannot be compiled, with its reason.
pub open spec fn bad_glob_error(pattern: Seq<char>, reason: Seq<char>) -> bool {
    pattern_error(pattern) == Some(reason)
}

impl AppRules {
    /// Build from a slice of rules. Fails on the first pattern that cannot
    /// be compiled (see [`pattern_error`]), naming the pattern and the reason.
    pub fn build(rules: &[AppRule], ignore_reverse: bool) -> (r: Result<Self, crate::layout::CoreError>)
        ensures
            match r {
                Ok(rs) => {
                    &&& forall|i: int|
                        0 <= i < rules@.len() ==> pattern_error(#[trigger] rules@[i]@.pattern) is None
                    &&& rs@.rules == rules_view(rules@)
                    &&& rs@.ignore_reverse == ignore_reverse
                },
                Err(e) => exists|i: int|
                    0 <= i < rules@.len() && pattern_error(#[trigger] rules@[i]@.pattern) is Some
                        && (forall|j: int|
                        0 <= j < i ==> pattern_error(#[trigger] rules@[j]@.pattern) is None) && match e {
                        crate::layout::CoreError::BadGlob { pattern, reason } => pattern@
                            == rules@[i]@.pattern && bad_glob_error(pattern@, reason@),
                        _ => false,
                    },
            },
    {
        let mut compiled: Vec<CompiledRule> = Vec::new();
        for i in 0..rules.len()
            invariant
                compiled@.len() == i,
                forall|k: int| 0 <= k < i ==> pattern_error(#[trigger] rules@[k]@.pattern) is None,
                forall|k: int|
                    0 <= k < i ==> (RuleModel {
                        field: (#[trigger] compiled@[k]).field,
                        pattern: compiled@[k].glob.source(),
                        action: compiled@[k].action,
                    }) == rules@[k]@,
        {
            let r = &rules[i];
            let pattern = r.match_.pattern();
            match compile_pattern(pattern.as_str()) {
                Ok(glob) => {
                    let field = match &r.match_ {
                        AppMatch::WmClassClass(_) => MatchField::WmClassClass,
                        AppMatch::WmClassName(_) => MatchField::WmClassName,
                        AppMatch::WmName(_) => MatchField::WmName,
                    };
                    compiled.push(CompiledRule { field, glob, action: r.action });
                },
                Err(reason) => {
                    assert(pattern_error(rules@[i as int]@.pattern) is Some);
                    return Err(
                        crate::layout::CoreError::BadGlob { pattern: pattern.clone(), reason },
                    );
                },
            }
        }
        let rs = AppRules { rules: compiled, ignore_reverse };
        proof {
            assert(rs@.rules =~= rules_view(rules@));
        }
        Ok(rs)
    }

    /// True if there are no rules.
    pub fn is_empty(&self) -> (r: bool)
        ensures
            r == (self@.rules.len() == 0),
    {
        self.rules.len() == 0
    }

    /// Decide what to do with a window: the first matching rule decides;
    /// with `ignore_reverse`, `Ignore` rules mean "manage" and unmatched
    /// windows are ignored.
    pub fn verdict(&self, props: &WindowProps) -> (r: Verdict)
        ensures
            r == spec_verdict(self@, *props),
    {
        let ghost m = self@;
        let n = self.rules.len();
        for i in 0..n
            invariant
                n == self.rules@.len(),
                m == self@,
                first_match_from(m.rules, *props, 0) == first_match_from(m.rules, *props, i as int),
        {
            let rule = &self.rules[i];
            let text = match rule.field {
                MatchField::WmClassClass => props.wm_class_class.as_str(),
                MatchField::WmClassName => props.wm_class_name.as_str(),
                MatchField::WmName => props.wm_name.as_str(),
            };
            assert(m.rules[i as int].pattern == rule.glob.source());
            if glob_is_match(&rule.glob, text) {
                return match rule.action {
                    RuleAction::Ignore => {
                        if self.ignore_reverse {
                            Verdict::Manage
                        } else {
                            Verdict::Ignore
                        }
                    },
                    RuleAction::StartAlt => Verdict::StartAlt,
                    RuleAction::AltGroup(g) => Verdict::AltGroup(g),
                };
            }
        }
        if self.ignore_reverse && self.rules.len() != 0 {
            Verdict::Ignore
        } else {
            Verdict::Manage
        }
    }
}

/// `ignore_reverse` inverts the meaning of `Ignore`: a window whose first
/// matching rule says `Ignore` is managed, and a window no rule matches
/// is ignored (as long as there is some rule); all other verdicts are
/// unaffected.
pub proof fn lemma_ignore_reverse_inverts(rules: Seq<RuleModel>, props: WindowProps)
    ensures
        ({
            let plain = RulesModel { rules, ignore_reverse: false };
            let rev = RulesModel { rules, ignore_reverse: true };
            let i = first_match_from(rules, props, 0);
            &&& i >= 0 && rules[i].action == RuleAction::Ignore ==> spec_verdict(plain, props)
                == Verdict::Ignore && spec_verdict(rev, props) == Verdict::Manage
            &&& i < 0 && rules.len() > 0 ==> spec_verdict(plain, props) == Verdict::Manage
                && spec_verdict(rev, props) == Verdict::Ignore
            &&& i >= 0 && rules[i].action != RuleAction::Ignore ==> spec_verdict(plain, props)
                == spec_verdict(rev, props)
        }),
{
}

/// A window no rule matches is managed, unless `ignore_reverse` is on
/// and there are rules; an empty rule set manages everything.
pub proof fn lemma_no_rules_manage_all(ignore_reverse: bool, props: WindowProps)
    ensures
        spec_verdict(RulesModel { rules: Seq::empty(), ignore_reverse }, props) == Verdict::Manage,
{
}

} // verus!
