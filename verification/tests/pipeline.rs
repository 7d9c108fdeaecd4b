use superstition::pipeline::{start, step, BuildAction, BuildEvent, BuildStage};

#[test]
fn first_build_succeeds() {
    let s = start();
    assert_eq!(s, BuildStage::Building { retried: false });
    assert_eq!(step(s, BuildEvent::Built), (BuildStage::Ready, BuildAction::Run));
}

#[test]
fn one_fix_then_build() {
    let (s, a) = step(start(), BuildEvent::BuildFailed);
    assert_eq!((s, a), (BuildStage::Fixing, BuildAction::AskForFix));
    let (s, a) = step(s, BuildEvent::Fixed);
    assert_eq!((s, a), (BuildStage::Building { retried: true }, BuildAction::Build));
    assert_eq!(step(s, BuildEvent::Built), (BuildStage::Ready, BuildAction::Run));
}

#[test]
fn second_failure_gives_up() {
    let (s, _) = step(start(), BuildEvent::BuildFailed);
    let (s, _) = step(s, BuildEvent::Fixed);
    let (s, a) = step(s, BuildEvent::BuildFailed);
    assert_eq!((s, a), (BuildStage::Abandoned, BuildAction::Skip));
    // nothing more happens once given up
    assert_eq!(step(s, BuildEvent::Built), (BuildStage::Abandoned, BuildAction::Skip));
}

#[test]
fn failed_fix_gives_up() {
    let (s, _) = step(start(), BuildEvent::BuildFailed);
    assert_eq!(step(s, BuildEvent::FixFailed), (BuildStage::Abandoned, BuildAction::Skip));
}
