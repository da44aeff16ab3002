//! Assembly of the external driver's argument list and outcome reporting.
//!
//! The orchestrator's decisions live here, specified exactly: which
//! argument list a set of dependencies and the optional global flags
//! produce, which error a driver outcome maps to, which exit code an
//! outcome earns, and which diagnostic lines a failure prints. Running the
//! driver itself is the embedder's part; it hands the outcome back as a
//! `DriverEvent`.

use vstd::prelude::*;
use vstd::string::StringExecFns;

use crate::source::dep_spec;
use crate::source::failed_dep;
use crate::source::opt_text;
use crate::source::res_view;
use crate::source::resolved_frag;
use crate::source::Dependency;
use crate::source::ErrView;
use crate::source::ErrorChain;
use crate::source::ErrorKind;

verus! {

/// The views of a sequence of strings.
pub open spec fn text_seq(v: Seq<String>) -> Seq<Seq<char>> {
    v.map_values(|s: String| s@)
}

/// The view of an outcome without a payload.
pub open spec fn done_view(r: Result<(), ErrorChain>) -> Result<(), ErrView> {
    match r {
        Ok(u) => Ok(u),
        Err(e) => Err(e@),
    }
}

// ---------------------------------------------------------------------------
// Resolving every dependency
// ---------------------------------------------------------------------------

/// Resolves every dependency to its specification string, in input order.
/// Fails on the first dependency whose source fails to resolve, with that
/// dependency's error; nothing is kept of a partial success.
pub fn resolve_all(deps: &Vec<Dependency>, base: &Option<String>) -> (r: Result<
    Vec<String>,
    ErrorChain,
>)
    ensures
        match r {
            Ok(specs) => {
                &&& specs@.len() == deps@.len()
                &&& forall|j: int|
                    0 <= j < deps@.len() ==> #[trigger] resolved_frag(
                        deps@[j],
                        opt_text(*base),
                        specs@[j]@,
                    )
            },
            Err(e) => exists|j: int|
                0 <= j < deps@.len() && #[trigger] failed_dep(deps@[j], opt_text(*base), e@),
        },
{
    let mut specs: Vec<String> = Vec::new();
    let n = deps.len();
    let mut i: usize = 0;
    while i < n
        invariant
            i <= n,
            n == deps@.len(),
            specs@.len() == i,
            forall|j: int|
                0 <= j < i ==> #[trigger] resolved_frag(deps@[j], opt_text(*base), specs@[j]@),
        decreases n - i,
    {
        let r = deps[i].to_specification(base);
        let ghost gr = r;
        let ghost found0 = choose|found: Seq<bool>|
            res_view(gr) == dep_spec(deps@[i as int], opt_text(*base), found);
        match r {
            Ok(s) => {
                let ghost gs = s@;
                let ghost old_specs = specs@;
                specs.push(s);
                proof {
                    assert(res_view(gr) == Ok::<Seq<char>, ErrView>(gs));
                    assert(specs@[i as int]@ == gs);
                    assert(Ok::<Seq<char>, ErrView>(gs) == dep_spec(
                        deps@[i as int],
                        opt_text(*base),
                        found0,
                    ));
                    assert(resolved_frag(deps@[i as int], opt_text(*base), gs));
                    assert forall|j: int| 0 <= j < i + 1 implies #[trigger] resolved_frag(
                        deps@[j],
                        opt_text(*base),
                        specs@[j]@,
                    ) by {
                        if j < i {
                            assert(specs@[j] == old_specs[j]);
                            assert(resolved_frag(deps@[j], opt_text(*base), old_specs[j]@));
                        }
                    }
                }
            },
            Err(e) => {
                proof {
                    assert(Err::<Seq<char>, ErrView>(e@) == dep_spec(
                        deps@[i as int],
                        opt_text(*base),
                        found0,
                    ));
                    assert(failed_dep(deps@[i as int], opt_text(*base), e@));
                }
                return Err(e);
            },
        }
        i = i + 1;
    }
    Ok(specs)
}

// ---------------------------------------------------------------------------
// The argument list
// ---------------------------------------------------------------------------

/// The driver's argument list: one specification string per dependency in
/// input order, then `--toolchain <name>` when a toolchain override is
/// given, then `--proc-macro2-rev <revision>` when a pinned revision is
/// given.
pub open spec fn args_spec(
    specs: Seq<Seq<char>>,
    toolchain: Option<Seq<char>>,
    rev: Option<Seq<char>>,
) -> Seq<Seq<char>> {
    let t = match toolchain {
        Some(name) => seq!["--toolchain"@, name],
        None => Seq::<Seq<char>>::empty(),
    };
    let p = match rev {
        Some(r) => seq!["--proc-macro2-rev"@, r],
        None => Seq::<Seq<char>>::empty(),
    };
    specs + t + p
}

/// Appends the optional global flags to the resolved specification
/// strings.
pub fn make_args(
    specs: Vec<String>,
    toolchain: &Option<String>,
    proc_macro2_rev: &Option<String>,
) -> (args: Vec<String>)
    ensures
        text_seq(args@) == args_spec(
            text_seq(specs@),
            opt_text(*toolchain),
            opt_text(*proc_macro2_rev),
        ),
{
    let ghost given = specs@;
    let mut args = specs;
    match toolchain {
        Some(name) => {
            args.push(String::from_str("--toolchain"));
            args.push(name.clone());
        },
        None => {},
    }
    match proc_macro2_rev {
        Some(r) => {
            args.push(String::from_str("--proc-macro2-rev"));
            args.push(r.clone());
        },
        None => {},
    }
    proof {
        assert(text_seq(args@) =~= args_spec(
            text_seq(given),
            opt_text(*toolchain),
            opt_text(*proc_macro2_rev),
        ));
    }
    args
}

/// The toolchain override is always honoured: whatever the dependency set
/// (empty included), the argument list carries `--toolchain` and the given
/// name, right after the specification strings.
pub proof fn lemma_toolchain_flag(specs: Seq<Seq<char>>, name: Seq<char>, rev: Option<Seq<char>>)
    ensures
        args_spec(specs, Some(name), rev).len() >= specs.len() + 2,
        args_spec(specs, Some(name), rev)[specs.len() as int] == "--toolchain"@,
        args_spec(specs, Some(name), rev)[specs.len() as int + 1] == name,
{
}

/// Everything `resolve_all` and `make_args` do, in one call: the full
/// argument list for one driver invocation, or the error that aborts the
/// build before the driver is launched.
pub fn plan_invocation(
    deps: &Vec<Dependency>,
    base: &Option<String>,
    toolchain: &Option<String>,
    proc_macro2_rev: &Option<String>,
) -> (r: Result<Vec<String>, ErrorChain>)
    ensures
        match r {
            Ok(args) => exists|frags: Seq<Seq<char>>|
                {
                    &&& text_seq(args@) == #[trigger] args_spec(
                        frags,
                        opt_text(*toolchain),
                        opt_text(*proc_macro2_rev),
                    )
                    &&& frags.len() == deps@.len()
                    &&& forall|j: int|
                        0 <= j < deps@.len() ==> resolved_frag(deps@[j], opt_text(*base), frags[j])
                },
            Err(e) => exists|j: int|
                0 <= j < deps@.len() && #[trigger] failed_dep(deps@[j], opt_text(*base), e@),
        },
{
    match resolve_all(deps, base) {
        Ok(specs) => {
            let ghost gspecs = specs@;
            let ghost frags = text_seq(gspecs);
            let args = make_args(specs, toolchain, proc_macro2_rev);
            proof {
                assert forall|j: int| 0 <= j < deps@.len() implies resolved_frag(
                    deps@[j],
                    opt_text(*base),
                    frags[j],
                ) by {
                    assert(frags[j] == gspecs[j]@);
                    assert(resolved_frag(deps@[j], opt_text(*base), gspecs[j]@));
                }
                assert(text_seq(args@) == args_spec(
                    frags,
                    opt_text(*toolchain),
                    opt_text(*proc_macro2_rev),
                ));
            }
            Ok(args)
        },
        Err(e) => Err(e),
    }
}

// ---------------------------------------------------------------------------
// The driver's outcome
// ---------------------------------------------------------------------------

/// What happened when the embedder ran the external driver.
#[derive(Debug)]
pub enum DriverEvent {
    /// The driver executable could not be started; `detail` is the
    /// operating system's error text.
    LaunchFailure { detail: String },
    /// The driver ran to an exit status: `success` is whether the status
    /// was zero, `status` its textual representation.
    Exited { success: bool, status: String },
}

pub open spec fn launch_failure_error(exe: Seq<char>, detail: Seq<char>) -> ErrView {
    ErrView {
        kind: ErrorKind::ProcessLaunchFailure,
        msgs: seq!["could not execute `"@ + exe + "`"@, detail],
    }
}

pub open spec fn exit_failure_error(exe: Seq<char>, status: Seq<char>) -> ErrView {
    ErrView {
        kind: ErrorKind::ProcessExitFailure,
        msgs: seq!["`"@ + exe + "` failed: "@ + status],
    }
}

/// The outcome the orchestrator reports for a driver event: success
/// exactly for a zero exit status, otherwise the matching error chain.
pub open spec fn driver_outcome_spec(exe: Seq<char>, event: DriverEvent) -> Result<(), ErrView> {
    match event {
        DriverEvent::LaunchFailure { detail } => Err(launch_failure_error(exe, detail@)),
        DriverEvent::Exited { success, status } => if success {
            Ok(())
        } else {
            Err(exit_failure_error(exe, status@))
        },
    }
}

/// Turns the driver event the embedder observed into the orchestrator's
/// outcome. `exe` is the driver executable's name, used in the messages.
pub fn driver_result(exe: &str, event: DriverEvent) -> (r: Result<(), ErrorChain>)
    ensures
        done_view(r) == driver_outcome_spec(exe@, event),
{
    match event {
        DriverEvent::LaunchFailure { detail } => {
            let mut msg = String::from_str("could not execute `");
            msg.append(exe);
            msg.append("`");
            let mut messages: Vec<String> = Vec::new();
            messages.push(msg);
            messages.push(detail);
            let e = ErrorChain { kind: ErrorKind::ProcessLaunchFailure, messages };
            proof {
                assert(e@.msgs =~= launch_failure_error(exe@, e.messages@[1]@).msgs);
                assert(e@ =~= launch_failure_error(exe@, e.messages@[1]@));
            }
            Err(e)
        },
        DriverEvent::Exited { success, status } => {
            if success {
                Ok(())
            } else {
                let mut msg = String::from_str("`");
                msg.append(exe);
                msg.append("` failed: ");
                msg.append(status.as_str());
                let mut messages: Vec<String> = Vec::new();
                messages.push(msg);
                let e = ErrorChain { kind: ErrorKind::ProcessExitFailure, messages };
                proof {
                    assert(e@.msgs =~= exit_failure_error(exe@, status@).msgs);
                    assert(e@ =~= exit_failure_error(exe@, status@));
                }
                Err(e)
            }
        },
    }
}

/// The exit code the host process ends with.
pub open spec fn exit_code_spec(r: Result<(), ErrView>) -> int {
    match r {
        Ok(u) => 0,
        Err(e) => 1,
    }
}

/// Zero for full success, one for any failure.
pub fn exit_code(r: &Result<(), ErrorChain>) -> (c: i32)
    ensures
        c == exit_code_spec(done_view(*r)),
{
    match r {
        Ok(u) => 0,
        Err(e) => 1,
    }
}

/// A driver that did not succeed — a failed launch, or any non-zero exit
/// status — always earns exit code one and a non-empty error chain.
pub proof fn lemma_failed_driver_is_reported(exe: Seq<char>, event: DriverEvent)
    requires
        !(event matches DriverEvent::Exited { success: true, .. }),
    ensures
        driver_outcome_spec(exe, event) is Err,
        driver_outcome_spec(exe, event) matches Err(e) ==> e.msgs.len() > 0,
        exit_code_spec(driver_outcome_spec(exe, event)) == 1,
{
}

// ---------------------------------------------------------------------------
// Failure reporting
// ---------------------------------------------------------------------------

/// The diagnostic lines for a failure: the primary message prefixed with
/// `Error: `, every later cause prefixed with `Caused by: `, in chain
/// order.
pub fn report_lines(e: &ErrorChain) -> (lines: Vec<String>)
    ensures
        lines@.len() == e.messages@.len(),
        forall|i: int|
            0 <= i < lines@.len() ==> #[trigger] lines@[i]@ == (if i == 0 {
                "Error: "@
            } else {
                "Caused by: "@
            }) + e.messages@[i]@,
{
    let mut lines: Vec<String> = Vec::new();
    let n = e.messages.len();
    let mut i: usize = 0;
    while i < n
        invariant
            i <= n,
            n == e.messages@.len(),
            lines@.len() == i,
            forall|j: int|
                0 <= j < i ==> #[trigger] lines@[j]@ == (if j == 0 {
                    "Error: "@
                } else {
                    "Caused by: "@
                }) + e.messages@[j]@,
        decreases n - i,
    {
        let mut line = if i == 0 {
            String::from_str("Error: ")
        } else {
            String::from_str("Caused by: ")
        };
        line.append(e.messages[i].as_str());
        lines.push(line);
        i = i + 1;
    }
    lines
}

} // verus!

