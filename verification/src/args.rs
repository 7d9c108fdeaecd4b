//! Command-line parsing for the agent, the host runner and the verifier.

use vstd::prelude::*;

use crate::text::{parse_unsigned, parse_unsigned_decimal, str_eq};

verus! {

/// The flags that take a value.
#[derive(Debug, Clone, Copy, PartialEq, Eq)]
pub enum Flag {
    Corpus,
    Workspace,
    Feed,
    State,
    Iterations,
    Hypotheses,
    LoopInterval,
}

/// Why a command line was refused.
#[derive(Debug, Clone, Copy, PartialEq, Eq)]
pub enum ArgError {
    /// The flag was the last argument, with no value after it.
    MissingValue(Flag),
    /// The flag's value is not a number in range.
    InvalidNumber(Flag),
    /// A required argument was never given.
    Usage,
}

/// The views of a list of strings.
pub open spec fn views(args: Seq<String>) -> Seq<Seq<char>> {
    args.map_values(|s: String| s@)
}

// ── agent ───────────────────────────────────────────────────────────────────

/// The agent's settings.
pub struct AgentConfig {
    pub corpus_dir: String,
    pub workspace_root: String,
    pub feed_path: String,
    pub state_path: String,
    pub iterations: usize,
    pub hypotheses_per_iter: usize,
    /// If some, run forever, sleeping this many seconds between runs.
    pub loop_interval: Option<u64>,
}

/// The agent's settings while the command line is read.
pub struct AgentScan {
    pub corpus_dir: Option<Seq<char>>,
    pub workspace_root: Seq<char>,
    pub feed_path: Seq<char>,
    pub state_path: Seq<char>,
    pub iterations: nat,
    pub hypotheses_per_iter: nat,
    pub loop_interval: Option<nat>,
}

/// The settings before any argument is read.
pub open spec fn agent_defaults() -> AgentScan {
    AgentScan {
        corpus_dir: None,
        workspace_root: "."@,
        feed_path: "feed.json"@,
        state_path: "state.json"@,
        iterations: 1,
        hypotheses_per_iter: 3,
        loop_interval: None,
    }
}

/// Reads `args[i..]` on top of the settings `st`. Unknown arguments are skipped.
pub open spec fn scan_agent_args(args: Seq<Seq<char>>, i: nat, st: AgentScan) -> Result<AgentScan, ArgError>
    decreases args.len() - i,
{
    if i >= args.len() {
        Ok(st)
    } else {
        let a = args[i as int];
        let has_value = i + 1 < args.len();
        let v = args[i + 1int];
        if a == "--corpus"@ {
            if has_value {
                scan_agent_args(args, i + 2, AgentScan { corpus_dir: Some(v), ..st })
            } else {
                Err(ArgError::MissingValue(Flag::Corpus))
            }
        } else if a == "--workspace"@ {
            if has_value {
                scan_agent_args(args, i + 2, AgentScan { workspace_root: v, ..st })
            } else {
                Err(ArgError::MissingValue(Flag::Workspace))
            }
        } else if a == "--feed"@ {
            if has_value {
                scan_agent_args(args, i + 2, AgentScan { feed_path: v, ..st })
            } else {
                Err(ArgError::MissingValue(Flag::Feed))
            }
        } else if a == "--state"@ {
            if has_value {
                scan_agent_args(args, i + 2, AgentScan { state_path: v, ..st })
            } else {
                Err(ArgError::MissingValue(Flag::State))
            }
        } else if a == "--iterations"@ || a == "-n"@ {
            if !has_value {
                Err(ArgError::MissingValue(Flag::Iterations))
            } else {
                match parse_unsigned(v, usize::MAX as nat) {
                    Some(n) => scan_agent_args(args, i + 2, AgentScan { iterations: n, ..st }),
                    None => Err(ArgError::InvalidNumber(Flag::Iterations)),
                }
            }
        } else if a == "--hypotheses"@ || a == "-h"@ {
            if !has_value {
                Err(ArgError::MissingValue(Flag::Hypotheses))
            } else {
                match parse_unsigned(v, usize::MAX as nat) {
                    Some(n) => scan_agent_args(args, i + 2, AgentScan { hypotheses_per_iter: n, ..st }),
                    None => Err(ArgError::InvalidNumber(Flag::Hypotheses)),
                }
            }
        } else if a == "--loop-interval"@ {
            if !has_value {
                Err(ArgError::MissingValue(Flag::LoopInterval))
            } else {
                match parse_unsigned(v, u64::MAX as nat) {
                    Some(n) => scan_agent_args(args, i + 2, AgentScan { loop_interval: Some(n), ..st }),
                    None => Err(ArgError::InvalidNumber(Flag::LoopInterval)),
                }
            }
        } else {
            scan_agent_args(args, i + 1, st)
        }
    }
}

impl AgentConfig {
    /// The settings, as read by `scan_agent_args`.
    pub open spec fn scan(&self) -> AgentScan {
        AgentScan {
            corpus_dir: Some(self.corpus_dir@),
            workspace_root: self.workspace_root@,
            feed_path: self.feed_path@,
            state_path: self.state_path@,
            iterations: self.iterations as nat,
            hypotheses_per_iter: self.hypotheses_per_iter as nat,
            loop_interval: match self.loop_interval {
                Some(n) => Some(n as nat),
                None => None,
            },
        }
    }
}

/// What the agent's command line (without the program name) asks for.
pub open spec fn agent_args_outcome(args: Seq<Seq<char>>) -> Result<AgentScan, ArgError> {
    match scan_agent_args(args, 0, agent_defaults()) {
        Ok(st) => if st.corpus_dir is Some {
            Ok(st)
        } else {
            Err(ArgError::Usage)
        },
        Err(e) => Err(e),
    }
}

fn literal(s: &str) -> (r: String)
    ensures
        r@ == s@,
{
    String::from_str(s)
}

/// Reads the agent's command line (without the program name).
pub fn parse_agent_args(args: &Vec<String>) -> (r: Result<AgentConfig, ArgError>)
    ensures
        match r {
            Ok(cfg) => agent_args_outcome(views(args@)) == Ok::<AgentScan, ArgError>(cfg.scan()),
            Err(e) => agent_args_outcome(views(args@)) == Err::<AgentScan, ArgError>(e),
        },
{
    let ghost va = views(args@);
    let mut corpus_dir: Option<String> = None;
    let mut workspace_root = literal(".");
    let mut feed_path = literal("feed.json");
    let mut state_path = literal("state.json");
    let mut iterations: usize = 1;
    let mut hypotheses_per_iter: usize = 3;
    let mut loop_interval: Option<u64> = None;
    let mut i: usize = 0;
    while i < args.len()
        invariant
            va == views(args@),
            va.len() == args.len(),
            i <= args.len(),
            scan_agent_args(va, 0, agent_defaults()) == scan_agent_args(
                va,
                i as nat,
                AgentScan {
                    corpus_dir: match corpus_dir {
                        Some(c) => Some(c@),
                        None => None,
                    },
                    workspace_root: workspace_root@,
                    feed_path: feed_path@,
                    state_path: state_path@,
                    iterations: iterations as nat,
                    hypotheses_per_iter: hypotheses_per_iter as nat,
                    loop_interval: match loop_interval {
                        Some(n) => Some(n as nat),
                        None => None,
                    },
                },
            ),
        decreases args.len() - i,
    {
        let a = args[i].as_str();
        assert(a@ == va[i as int]);
        let has_value = i + 1 < args.len();
        if str_eq(a, "--corpus") {
            if !has_value {
                return Err(ArgError::MissingValue(Flag::Corpus));
            }
            corpus_dir = Some(args[i + 1].clone());
            i = i + 2;
        } else if str_eq(a, "--workspace") {
            if !has_value {
                return Err(ArgError::MissingValue(Flag::Workspace));
            }
            workspace_root = args[i + 1].clone();
            i = i + 2;
        } else if str_eq(a, "--feed") {
            if !has_value {
                return Err(ArgError::MissingValue(Flag::Feed));
            }
            feed_path = args[i + 1].clone();
            i = i + 2;
        } else if str_eq(a, "--state") {
            if !has_value {
                return Err(ArgError::MissingValue(Flag::State));
            }
            state_path = args[i + 1].clone();
            i = i + 2;
        } else if str_eq(a, "--iterations") || str_eq(a, "-n") {
            if !has_value {
                return Err(ArgError::MissingValue(Flag::Iterations));
            }
            match parse_unsigned_decimal(args[i + 1].as_str(), usize::MAX as u64) {
                Some(n) => {
                    iterations = n as usize;
                },
                None => {
                    return Err(ArgError::InvalidNumber(Flag::Iterations));
                },
            }
            i = i + 2;
        } else if str_eq(a, "--hypotheses") || str_eq(a, "-h") {
            if !has_value {
                return Err(ArgError::MissingValue(Flag::Hypotheses));
            }
            match parse_unsigned_decimal(args[i + 1].as_str(), usize::MAX as u64) {
                Some(n) => {
                    hypotheses_per_iter = n as usize;
                },
                None => {
                    return Err(ArgError::InvalidNumber(Flag::Hypotheses));
                },
            }
            i = i + 2;
        } else if str_eq(a, "--loop-interval") {
            if !has_value {
                return Err(ArgError::MissingValue(Flag::LoopInterval));
            }
            match parse_unsigned_decimal(args[i + 1].as_str(), u64::MAX) {
                Some(n) => {
                    loop_interval = Some(n);
                },
                None => {
                    return Err(ArgError::InvalidNumber(Flag::LoopInterval));
                },
            }
            i = i + 2;
        } else {
            i = i + 1;
        }
    }
    match corpus_dir {
        Some(c) => Ok(
            AgentConfig {
                corpus_dir: c,
                workspace_root,
                feed_path,
                state_path,
                iterations,
                hypotheses_per_iter,
                loop_interval,
            },
        ),
        None => Err(ArgError::Usage),
    }
}


// ── host runner ─────────────────────────────────────────────────────────────

/// What the host runner was asked for: an optional corpus directory and the
/// detector files, in the order given.
pub struct HostArgs {
    pub corpus_dir: Option<String>,
    pub wasm_paths: Vec<String>,
}

/// Reads `args[i..]` for the host runner: `--corpus <dir>` sets the corpus,
/// every other argument is a detector file.
pub open spec fn scan_host_args(
    args: Seq<Seq<char>>,
    i: nat,
    corpus: Option<Seq<char>>,
    paths: Seq<Seq<char>>,
) -> Result<(Option<Seq<char>>, Seq<Seq<char>>), ArgError>
    decreases args.len() - i,
{
    if i >= args.len() {
        Ok((corpus, paths))
    } else if args[i as int] == "--corpus"@ {
        if i + 1 < args.len() {
            scan_host_args(args, i + 2, Some(args[i + 1int]), paths)
        } else {
            Err(ArgError::MissingValue(Flag::Corpus))
        }
    } else {
        scan_host_args(args, i + 1, corpus, paths.push(args[i as int]))
    }
}

impl HostArgs {
    pub open spec fn outcome(&self) -> (Option<Seq<char>>, Seq<Seq<char>>) {
        (
            match self.corpus_dir {
                Some(c) => Some(c@),
                None => None,
            },
            views(self.wasm_paths@),
        )
    }
}

/// Reads the host runner's command line (without the program name).
pub fn parse_host_args(args: &Vec<String>) -> (r: Result<HostArgs, ArgError>)
    ensures
        match r {
            Ok(h) => scan_host_args(views(args@), 0, None, Seq::empty()) == Ok::<
                (Option<Seq<char>>, Seq<Seq<char>>),
                ArgError,
            >(h.outcome()),
            Err(e) => scan_host_args(views(args@), 0, None, Seq::empty()) == Err::<
                (Option<Seq<char>>, Seq<Seq<char>>),
                ArgError,
            >(e),
        },
{
    let ghost va = views(args@);
    let mut corpus_dir: Option<String> = None;
    let mut wasm_paths: Vec<String> = Vec::new();
    let mut i: usize = 0;
    assert(views(wasm_paths@) =~= Seq::<Seq<char>>::empty());
    while i < args.len()
        invariant
            va == views(args@),
            va.len() == args.len(),
            i <= args.len(),
            scan_host_args(va, 0, None, Seq::empty()) == scan_host_args(
                va,
                i as nat,
                match corpus_dir {
                    Some(c) => Some(c@),
                    None => None,
                },
                views(wasm_paths@),
            ),
        decreases args.len() - i,
    {
        let a = args[i].as_str();
        assert(a@ == va[i as int]);
        if str_eq(a, "--corpus") {
            if i + 1 >= args.len() {
                return Err(ArgError::MissingValue(Flag::Corpus));
            }
            corpus_dir = Some(args[i + 1].clone());
            i = i + 2;
        } else {
            let ghost before = views(wasm_paths@);
            wasm_paths.push(args[i].clone());
            assert(views(wasm_paths@) =~= before.push(va[i as int]));
            i = i + 1;
        }
    }
    Ok(HostArgs { corpus_dir, wasm_paths })
}

// ── verifier ────────────────────────────────────────────────────────────────

/// What the verifier was asked for.
pub struct VerifyArgs {
    pub id: String,
    pub feed_path: String,
    pub corpus_dir: String,
}

/// Reads `args[i..]` for the verifier: `--feed <path>` and `--corpus <dir>`
/// take a value; any other argument is the pattern id (the last one wins).
pub open spec fn scan_verify_args(
    args: Seq<Seq<char>>,
    i: nat,
    id: Option<Seq<char>>,
    feed: Seq<char>,
    corpus: Seq<char>,
) -> Result<(Option<Seq<char>>, Seq<char>, Seq<char>), ArgError>
    decreases args.len() - i,
{
    if i >= args.len() {
        Ok((id, feed, corpus))
    } else if args[i as int] == "--feed"@ {
        if i + 1 < args.len() {
            scan_verify_args(args, i + 2, id, args[i + 1int], corpus)
        } else {
            Err(ArgError::MissingValue(Flag::Feed))
        }
    } else if args[i as int] == "--corpus"@ {
        if i + 1 < args.len() {
            scan_verify_args(args, i + 2, id, feed, args[i + 1int])
        } else {
            Err(ArgError::MissingValue(Flag::Corpus))
        }
    } else {
        scan_verify_args(args, i + 1, Some(args[i as int]), feed, corpus)
    }
}

/// What the verifier's command line asks for: the id is required.
pub open spec fn verify_args_outcome(args: Seq<Seq<char>>) -> Result<
    (Seq<char>, Seq<char>, Seq<char>),
    ArgError,
> {
    match scan_verify_args(args, 0, None, "feed.json"@, "corpus/test_fixture"@) {
        Ok((Some(id), feed, corpus)) => Ok((id, feed, corpus)),
        Ok((None, _, _)) => Err(ArgError::Usage),
        Err(e) => Err(e),
    }
}

/// Reads the verifier's command line (without the program name).
pub fn parse_verify_args(args: &Vec<String>) -> (r: Result<VerifyArgs, ArgError>)
    ensures
        match r {
            Ok(v) => verify_args_outcome(views(args@)) == Ok::<
                (Seq<char>, Seq<char>, Seq<char>),
                ArgError,
            >((v.id@, v.feed_path@, v.corpus_dir@)),
            Err(e) => verify_args_outcome(views(args@)) == Err::<
                (Seq<char>, Seq<char>, Seq<char>),
                ArgError,
            >(e),
        },
{
    let ghost va = views(args@);
    let mut id: Option<String> = None;
    let mut feed_path = literal("feed.json");
    let mut corpus_dir = literal("corpus/test_fixture");
    let mut i: usize = 0;
    while i < args.len()
        invariant
            va == views(args@),
            va.len() == args.len(),
            i <= args.len(),
            scan_verify_args(va, 0, None, "feed.json"@, "corpus/test_fixture"@)
                == scan_verify_args(
                va,
                i as nat,
                match id {
                    Some(s) => Some(s@),
                    None => None,
                },
                feed_path@,
                corpus_dir@,
            ),
        decreases args.len() - i,
    {
        let a = args[i].as_str();
        assert(a@ == va[i as int]);
        if str_eq(a, "--feed") {
            if i + 1 >= args.len() {
                return Err(ArgError::MissingValue(Flag::Feed));
            }
            feed_path = args[i + 1].clone();
            i = i + 2;
        } else if str_eq(a, "--corpus") {
            if i + 1 >= args.len() {
                return Err(ArgError::MissingValue(Flag::Corpus));
            }
            corpus_dir = args[i + 1].clone();
            i = i + 2;
        } else {
            id = Some(args[i].clone());
            i = i + 1;
        }
    }
    match id {
        Some(id) => Ok(VerifyArgs { id, feed_path, corpus_dir }),
        None => Err(ArgError::Usage),
    }
}

} // verus!
