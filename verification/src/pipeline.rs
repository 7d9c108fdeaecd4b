//! The agent's way from generated code to a runnable detector: build it,
//! and on a build error ask once for a fix and build again.

use vstd::prelude::*;

verus! {

/// Where a hypothesis's detector stands.
#[derive(Debug, Clone, Copy, PartialEq, Eq)]
pub enum BuildStage {
    /// A build is under way; `retried` once the code was fixed.
    Building { retried: bool },
    /// A fix of the code was asked for.
    Fixing,
    /// The detector was built and can run.
    Ready,
    /// The hypothesis is given up.
    Abandoned,
}

/// What the outside work reported.
#[derive(Debug, Clone, Copy, PartialEq, Eq)]
pub enum BuildEvent {
    Built,
    BuildFailed,
    Fixed,
    FixFailed,
}

/// What the agent does next.
#[derive(Debug, Clone, Copy, PartialEq, Eq)]
pub enum BuildAction {
    /// Build the (fixed) code.
    Build,
    /// Ask the model to fix the code, showing it the build error.
    AskForFix,
    /// Run the built detector.
    Run,
    /// Go on with the next hypothesis.
    Skip,
}

/// The stage a detector starts in: its first build.
pub open spec fn initial_stage() -> BuildStage {
    BuildStage::Building { retried: false }
}

/// Whether nothing more happens in this stage.
pub open spec fn is_final(s: BuildStage) -> bool {
    s is Ready || s is Abandoned
}

/// The next stage and action after `e` in stage `s`. An event that cannot
/// come in `s` gives the hypothesis up.
pub open spec fn next(s: BuildStage, e: BuildEvent) -> (BuildStage, BuildAction) {
    match (s, e) {
        (BuildStage::Building { .. }, BuildEvent::Built) => (BuildStage::Ready, BuildAction::Run),
        (BuildStage::Building { retried: false }, BuildEvent::BuildFailed) => (
            BuildStage::Fixing,
            BuildAction::AskForFix,
        ),
        (BuildStage::Fixing, BuildEvent::Fixed) => (
            BuildStage::Building { retried: true },
            BuildAction::Build,
        ),
        (BuildStage::Ready, _) => (BuildStage::Ready, BuildAction::Skip),
        _ => (BuildStage::Abandoned, BuildAction::Skip),
    }
}

/// The first stage of the detector's first build.
pub fn start() -> (s: BuildStage)
    ensures
        s == initial_stage(),
{
    BuildStage::Building { retried: false }
}

/// One step of the build: the next stage and what to do.
pub fn step(s: BuildStage, e: BuildEvent) -> (r: (BuildStage, BuildAction))
    ensures
        r == next(s, e),
{
    match (s, e) {
        (BuildStage::Building { .. }, BuildEvent::Built) => (BuildStage::Ready, BuildAction::Run),
        (BuildStage::Building { retried: false }, BuildEvent::BuildFailed) => (
            BuildStage::Fixing,
            BuildAction::AskForFix,
        ),
        (BuildStage::Fixing, BuildEvent::Fixed) => (
            BuildStage::Building { retried: true },
            BuildAction::Build,
        ),
        (BuildStage::Ready, _) => (BuildStage::Ready, BuildAction::Skip),
        _ => (BuildStage::Abandoned, BuildAction::Skip),
    }
}

/// The stage after the events `es`, from `s`.
pub open spec fn stage_after(s: BuildStage, es: Seq<BuildEvent>) -> BuildStage
    decreases es.len(),
{
    if es.len() == 0 {
        s
    } else {
        stage_after(next(s, es[0]).0, es.drop_first())
    }
}

/// How many times the events `es`, from `s`, make the agent do `a`.
pub open spec fn count_actions(s: BuildStage, es: Seq<BuildEvent>, a: BuildAction) -> nat
    decreases es.len(),
{
    if es.len() == 0 {
        0
    } else {
        let (t, b) = next(s, es[0]);
        (if b == a {
            1nat
        } else {
            0nat
        }) + count_actions(t, es.drop_first(), a)
    }
}

proof fn lemma_final_stays(s: BuildStage, es: Seq<BuildEvent>)
    requires
        is_final(s),
    ensures
        stage_after(s, es) == s,
        count_actions(s, es, BuildAction::Build) == 0,
        count_actions(s, es, BuildAction::AskForFix) == 0,
        count_actions(s, es, BuildAction::Run) == 0,
    decreases es.len(),
{
    if es.len() > 0 {
        lemma_final_stays(next(s, es[0]).0, es.drop_first());
    }
}

proof fn lemma_retried_build(es: Seq<BuildEvent>)
    ensures
        es.len() >= 1 ==> is_final(stage_after(BuildStage::Building { retried: true }, es)),
        count_actions(BuildStage::Building { retried: true }, es, BuildAction::Build) == 0,
        count_actions(BuildStage::Building { retried: true }, es, BuildAction::AskForFix) == 0,
        count_actions(BuildStage::Building { retried: true }, es, BuildAction::Run) <= 1,
{
    if es.len() > 0 {
        lemma_final_stays(next(BuildStage::Building { retried: true }, es[0]).0, es.drop_first());
    }
}

proof fn lemma_fixing(es: Seq<BuildEvent>)
    ensures
        es.len() >= 2 ==> is_final(stage_after(BuildStage::Fixing, es)),
        count_actions(BuildStage::Fixing, es, BuildAction::Build) <= 1,
        count_actions(BuildStage::Fixing, es, BuildAction::AskForFix) == 0,
        count_actions(BuildStage::Fixing, es, BuildAction::Run) <= 1,
{
    if es.len() > 0 {
        let t = next(BuildStage::Fixing, es[0]).0;
        if t == (BuildStage::Building { retried: true }) {
            lemma_retried_build(es.drop_first());
        } else {
            lemma_final_stays(t, es.drop_first());
        }
    }
}

/// Whatever the builds and the model report, a detector is built at most
/// twice, with at most one fix asked for in between, it is run at most
/// once, and after three reports its way has ended.
pub proof fn lemma_one_retry(es: Seq<BuildEvent>)
    ensures
        count_actions(initial_stage(), es, BuildAction::AskForFix) <= 1,
        count_actions(initial_stage(), es, BuildAction::Build) <= 1,
        count_actions(initial_stage(), es, BuildAction::Run) <= 1,
        es.len() >= 3 ==> is_final(stage_after(initial_stage(), es)),
{
    if es.len() > 0 {
        let t = next(initial_stage(), es[0]).0;
        if t == BuildStage::Fixing {
            lemma_fixing(es.drop_first());
        } else {
            lemma_final_stays(t, es.drop_first());
        }
    }
}

} // verus!
