//! The agent's memory across runs: hypotheses tried and patterns found.

use vstd::prelude::*;

use crate::codegen::Hypothesis;
use crate::text::str_eq;

verus! {

/// A pattern that passed the significance and effect-size gates.
///
/// The statistics are kept as the IEEE-754 bits of the `f64` values.
#[derive(Debug, Clone)]
pub struct SignificantRecord {
    pub name: String,
    pub description: String,
    pub family: String,
    pub p_value_bits: u64,
    pub effect_size_bits: u64,
    pub pattern_id: String,
}

/// What the agent remembers between runs.
pub struct AgentState {
    /// Every hypothesis ever attempted, one per name.
    pub seen: Vec<Hypothesis>,
    /// The significant finds, one per name.
    pub significant: Vec<SignificantRecord>,
}

/// Whether some hypothesis in `s` has this name.
pub open spec fn has_hypothesis_named(s: Seq<Hypothesis>, name: Seq<char>) -> bool {
    exists|i: int| 0 <= i < s.len() && (#[trigger] s[i]).name@ == name
}

/// Whether some record in `s` has this name.
pub open spec fn has_record_named(s: Seq<SignificantRecord>, name: Seq<char>) -> bool {
    exists|i: int| 0 <= i < s.len() && (#[trigger] s[i]).name@ == name
}

/// `s` after remembering `h`: unchanged if a hypothesis of that name is
/// already there, else with `h` appended.
pub open spec fn with_seen(s: Seq<Hypothesis>, h: Hypothesis) -> Seq<Hypothesis> {
    if has_hypothesis_named(s, h.name@) {
        s
    } else {
        s.push(h)
    }
}

/// `s` after remembering `r`: unchanged if a record of that name is already
/// there, else with `r` appended.
pub open spec fn with_significant(s: Seq<SignificantRecord>, r: SignificantRecord) -> Seq<
    SignificantRecord,
> {
    if has_record_named(s, r.name@) {
        s
    } else {
        s.push(r)
    }
}

/// Whether no two hypotheses of `s` share a name.
pub open spec fn hypothesis_names_unique(s: Seq<Hypothesis>) -> bool {
    forall|i: int, j: int|
        0 <= i < j < s.len() ==> (#[trigger] s[i]).name@ != (#[trigger] s[j]).name@
}

/// Whether no two records of `s` share a name.
pub open spec fn record_names_unique(s: Seq<SignificantRecord>) -> bool {
    forall|i: int, j: int|
        0 <= i < j < s.len() ==> (#[trigger] s[i]).name@ != (#[trigger] s[j]).name@
}

impl AgentState {
    /// A state that remembers nothing.
    pub fn new() -> (s: AgentState)
        ensures
            s.seen@.len() == 0,
            s.significant@.len() == 0,
    {
        AgentState { seen: Vec::new(), significant: Vec::new() }
    }

    /// Remembers a hypothesis, unless one of the same name is remembered.
    pub fn add_seen(&mut self, hyp: Hypothesis)
        ensures
            final(self).seen@ == with_seen(old(self).seen@, hyp),
            final(self).significant@ == old(self).significant@,
    {
        let mut i: usize = 0;
        while i < self.seen.len()
            invariant
                i <= self.seen.len(),
                forall|j: int| 0 <= j < i ==> (#[trigger] self.seen@[j]).name@ != hyp.name@,
            decreases self.seen.len() - i,
        {
            if str_eq(self.seen[i].name.as_str(), hyp.name.as_str()) {
                assert(self.seen@[i as int].name@ == hyp.name@);
                return;
            }
            i = i + 1;
        }
        self.seen.push(hyp);
    }

    /// Remembers a significant find, unless one of the same name is remembered.
    pub fn add_significant(&mut self, rec: SignificantRecord)
        ensures
            final(self).significant@ == with_significant(old(self).significant@, rec),
            final(self).seen@ == old(self).seen@,
    {
        let mut i: usize = 0;
        while i < self.significant.len()
            invariant
                i <= self.significant.len(),
                forall|j: int| 0 <= j < i ==> (#[trigger] self.significant@[j]).name@ != rec.name@,
            decreases self.significant.len() - i,
        {
            if str_eq(self.significant[i].name.as_str(), rec.name.as_str()) {
                assert(self.significant@[i as int].name@ == rec.name@);
                return;
            }
            i = i + 1;
        }
        self.significant.push(rec);
    }
}

impl Default for AgentState {
    fn default() -> (s: AgentState)
        ensures
            s.seen@.len() == 0,
            s.significant@.len() == 0,
    {
        AgentState::new()
    }
}

/// Remembering hypotheses never puts two of one name in the list: names
/// that were unique stay unique.
pub proof fn lemma_seen_names_stay_unique(s: Seq<Hypothesis>, h: Hypothesis)
    requires
        hypothesis_names_unique(s),
    ensures
        hypothesis_names_unique(with_seen(s, h)),
{
    if !has_hypothesis_named(s, h.name@) {
        let t = s.push(h);
        assert forall|i: int, j: int| 0 <= i < j < t.len() implies (#[trigger] t[i]).name@ != (
        #[trigger] t[j]).name@ by {
            if j == s.len() {
                assert(t[i] == s[i]);
            } else {
                assert(t[i] == s[i] && t[j] == s[j]);
            }
        }
    }
}

/// Remembering significant finds never puts two of one name in the list.
pub proof fn lemma_significant_names_stay_unique(s: Seq<SignificantRecord>, r: SignificantRecord)
    requires
        record_names_unique(s),
    ensures
        record_names_unique(with_significant(s, r)),
{
    if !has_record_named(s, r.name@) {
        let t = s.push(r);
        assert forall|i: int, j: int| 0 <= i < j < t.len() implies (#[trigger] t[i]).name@ != (
        #[trigger] t[j]).name@ by {
            if j == s.len() {
                assert(t[i] == s[i]);
            } else {
                assert(t[i] == s[i] && t[j] == s[j]);
            }
        }
    }
}

/// Remembering the same hypothesis twice is remembering it once.
pub proof fn lemma_add_seen_idempotent(s: Seq<Hypothesis>, h: Hypothesis)
    ensures
        with_seen(with_seen(s, h), h) == with_seen(s, h),
{
    if !has_hypothesis_named(s, h.name@) {
        let t = s.push(h);
        assert(t[t.len() - 1].name@ == h.name@);
        assert(has_hypothesis_named(t, h.name@));
    }
}

/// Once a hypothesis of some name is remembered, it stays remembered.
pub proof fn lemma_seen_is_remembered(s: Seq<Hypothesis>, h: Hypothesis)
    ensures
        has_hypothesis_named(with_seen(s, h), h.name@),
{
    if !has_hypothesis_named(s, h.name@) {
        let t = s.push(h);
        assert(t[t.len() - 1].name@ == h.name@);
    }
}

} // verus!
