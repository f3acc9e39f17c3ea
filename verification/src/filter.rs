//! Visibility Filter: decides whether a parsed entry is surfaced to the
//! user, by the fixed rule order below (first matching rule wins):
//! wrong entry type, missing exec, hidden/no-display, `OnlyShowIn`
//! mismatch, `NotShowIn` match — otherwise accept.

use vstd::prelude::*;
use crate::entry::EntryKind;
use crate::entry::RawDesktopEntry;
use crate::entry::RawEntryView;

verus! {

/// The outcome of the visibility decision; every rejection names the one
/// rule that caused it.
#[derive(Clone, Copy, Debug, PartialEq, Eq, Structural)]
pub enum VisibilityDecision {
    Accept,
    NotApplication,
    NoExec,
    Hidden,
    NotInOnlyShowIn,
    InNotShowIn,
}

pub open spec fn seq_contains_str(l: Seq<Seq<char>>, x: Seq<char>) -> bool {
    exists|i: int| 0 <= i < l.len() && l[i] == x
}

/// The decision, rule by rule, in the specified order.
pub open spec fn spec_visibility_decision(e: RawEntryView, de: Seq<char>) -> VisibilityDecision {
    if e.entry_type != EntryKind::Application {
        VisibilityDecision::NotApplication
    } else if e.exec_cmd is None {
        VisibilityDecision::NoExec
    } else if e.hidden == Some(true) || e.no_display == Some(true) {
        VisibilityDecision::Hidden
    } else if e.only_show_in.len() > 0 && !seq_contains_str(e.only_show_in, de) {
        VisibilityDecision::NotInOnlyShowIn
    } else if seq_contains_str(e.not_show_in, de) {
        VisibilityDecision::InNotShowIn
    } else {
        VisibilityDecision::Accept
    }
}

/// An entry is surfaced exactly when no rule rejects it.
pub open spec fn spec_should_display(e: RawEntryView, de: Seq<char>) -> bool {
    spec_visibility_decision(e, de) == VisibilityDecision::Accept
}

/// Whether `x` is one of the strings in `l`.
pub fn vec_contains_string(l: &Vec<String>, x: &String) -> (r: bool)
    ensures
        r == seq_contains_str(l.deep_view(), x@),
{
    let mut i: usize = 0;
    while i < l.len()
        invariant
            i <= l.len(),
            forall|j: int| 0 <= j < i ==> l.deep_view()[j] != x@,
        decreases l.len() - i,
    {
        proof {
            assert(l.deep_view()[i as int] == l@[i as int].deep_view());
        }
        if l[i].eq(x) {
            return true;
        }
        i += 1;
    }
    false
}

impl RawDesktopEntry {
    /// Which rule, if any, keeps this entry from being shown in the given
    /// desktop environment.
    pub fn visibility_decision(&self, desktop_environment: &String) -> (r: VisibilityDecision)
        ensures
            r == spec_visibility_decision(self@, desktop_environment@),
    {
        if self.entry_type != EntryKind::Application {
            return VisibilityDecision::NotApplication;
        }
        if self.exec_cmd.is_none() {
            return VisibilityDecision::NoExec;
        }
        let hidden = match self.hidden {
            Some(b) => b,
            None => false,
        };
        let no_display = match self.no_display {
            Some(b) => b,
            None => false,
        };
        if hidden || no_display {
            return VisibilityDecision::Hidden;
        }
        if self.only_show_in.len() > 0 && !vec_contains_string(
            &self.only_show_in,
            desktop_environment,
        ) {
            return VisibilityDecision::NotInOnlyShowIn;
        }
        if vec_contains_string(&self.not_show_in, desktop_environment) {
            return VisibilityDecision::InNotShowIn;
        }
        VisibilityDecision::Accept
    }

    /// Whether this entry passes every visibility rule.
    pub fn should_display(&self, desktop_environment: &String) -> (r: bool)
        ensures
            r == spec_should_display(self@, desktop_environment@),
    {
        let d = self.visibility_decision(desktop_environment);
        d == VisibilityDecision::Accept
    }
}

/// An entry marked `Hidden=true` or `NoDisplay=true` is never surfaced,
/// whatever its other fields hold (it is rejected earlier only when its type
/// or its missing exec already rejects it).
pub proof fn lemma_hidden_never_displayed(e: RawEntryView, de: Seq<char>)
    requires
        e.hidden == Some(true) || e.no_display == Some(true),
    ensures
        !spec_should_display(e, de),
{
}

/// A non-empty `OnlyShowIn` without the current environment always rejects;
/// an empty `OnlyShowIn` never causes a rejection.
pub proof fn lemma_only_show_in(e: RawEntryView, de: Seq<char>)
    ensures
        e.only_show_in.len() > 0 && !seq_contains_str(e.only_show_in, de) ==> !spec_should_display(
            e,
            de,
        ),
        e.only_show_in.len() == 0 ==> spec_visibility_decision(e, de)
            != VisibilityDecision::NotInOnlyShowIn,
{
}

} // verus!
