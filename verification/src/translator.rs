//! The translator: a pure function from a parsed request to the target
//! invocation, resolving mode precedence and composing per-mode flags.
//!
//! The precedence chain and every argument vector are specified exactly:
//! [`mode_of`] picks the execution mode, [`spec_args`] gives the full
//! argument sequence, and `translate` is proved to return both, together
//! with the environment assignment that the CA-store flags demand.

use vstd::prelude::*;
use vstd::string::*;
use crate::request::{ParsedRequest, ReqView};
use crate::strutil::{
    views, lemma_views_push, join_commas, join_escaped, spec_join, escaped_views, u16_to_dec,
    spec_dec,
};

verus! {

/// The mutually exclusive execution intents, in strict precedence order.
#[derive(Clone, Copy, PartialEq, Eq, Structural, Debug)]
pub enum Mode {
    /// Print the shim's own help text; no target invocation.
    Help,
    /// Ask the target runtime for its version.
    Version,
    /// Ask the underlying engine for its own help text.
    EngineHelp,
    /// Run a package script by name.
    Task,
    /// Evaluate an inline code string.
    Eval,
    /// Interactive mode.
    Repl,
    /// Test-runner mode.
    Test,
    /// Default script-run mode.
    Run,
}

/// Resolves the request to a single mode: the first matching rule wins.
pub open spec fn mode_of(r: ReqView) -> Mode {
    if r.print_help {
        Mode::Help
    } else if r.print_version {
        Mode::Version
    } else if r.print_engine_help {
        Mode::EngineHelp
    } else if r.run_task.len() > 0 {
        Mode::Task
    } else if r.has_eval_string {
        Mode::Eval
    } else if r.remaining_args.len() == 0 || r.force_repl {
        Mode::Repl
    } else if r.is_test_run {
        Mode::Test
    } else {
        Mode::Run
    }
}

/// Resolves the request's mode, executably.
pub fn resolve_mode(req: &ParsedRequest) -> (m: Mode)
    ensures
        m == mode_of(req@),
{
    if req.print_help {
        Mode::Help
    } else if req.print_version {
        Mode::Version
    } else if req.print_engine_help {
        Mode::EngineHelp
    } else if req.run_task.unicode_len() > 0 {
        Mode::Task
    } else if req.has_eval_string {
        Mode::Eval
    } else if req.remaining_args.len() == 0 || req.force_repl {
        Mode::Repl
    } else if req.is_test_run {
        Mode::Test
    } else {
        Mode::Run
    }
}

/// The fixed compatibility flags that every run-like mode starts with.
pub open spec fn compat_flags() -> Seq<Seq<char>> {
    seq![
        "--unstable-node-globals"@,
        "--unstable-bare-node-builtins"@,
        "--unstable-detect-cjs"@,
        "--node-modules-dir=manual"@,
        "--no-config"@,
    ]
}

/// The env-file flag: bare when no path was given, `=`-joined otherwise.
pub open spec fn env_file_part(r: ReqView) -> Seq<Seq<char>> {
    if !r.has_env_file {
        Seq::empty()
    } else if r.env_file.len() == 0 {
        seq!["--env-file"@]
    } else {
        seq!["--env-file="@ + r.env_file]
    }
}

/// The engine flags, joined with commas behind one flag, in original order.
pub open spec fn engine_part(r: ReqView) -> Seq<Seq<char>> {
    if r.engine_args.len() == 0 {
        Seq::empty()
    } else {
        seq!["--v8-flags="@ + spec_join(r.engine_args)]
    }
}

/// The conditions flag: the names comma-joined in original order, never
/// deduplicated, and only present when the list is non-empty.
pub open spec fn conditions_part(r: ReqView) -> Seq<Seq<char>> {
    if r.conditions.len() == 0 {
        Seq::empty()
    } else {
        seq!["--conditions="@ + spec_join(r.conditions)]
    }
}

/// The watch flag: bare without paths; otherwise each path has its commas
/// doubled first, and the escaped paths are then joined with plain commas.
pub open spec fn watch_part(r: ReqView) -> Seq<Seq<char>> {
    if !r.watch_mode {
        Seq::empty()
    } else if r.watch_paths.len() == 0 {
        seq!["--watch"@]
    } else {
        seq!["--watch="@ + spec_join(escaped_views(r.watch_paths))]
    }
}

/// The inspector flag, `host:port`-formatted, with the break variant chosen
/// when execution should pause at entry.
pub open spec fn inspect_part(r: ReqView) -> Seq<Seq<char>> {
    if !r.inspector_enabled {
        Seq::empty()
    } else {
        seq![
            (if r.break_on_first_line {
                "--inspect-brk="@
            } else {
                "--inspect="@
            }) + r.debug_host + seq![':'] + spec_dec(r.debug_port),
        ]
    }
}

/// The single conditions token, for a request that names conditions.
pub open spec fn spec_conditions_token(r: ReqView) -> Seq<char> {
    "--conditions="@ + spec_join(r.conditions)
}

/// The single watch token, for a request that watches explicit paths.
pub open spec fn spec_watch_token(r: ReqView) -> Seq<char> {
    "--watch="@ + spec_join(escaped_views(r.watch_paths))
}

/// The flag region of an eval invocation, before the code string.
pub open spec fn eval_prefix(r: ReqView) -> Seq<Seq<char>> {
    seq!["node"@, "eval"@, "-A"@] + compat_flags() + env_file_part(r) + (if r.print_eval_result {
        seq!["--print"@]
    } else {
        Seq::<Seq<char>>::empty()
    }) + engine_part(r)
}

/// The full target argument vector for the request, by resolved mode.
pub open spec fn spec_args(r: ReqView) -> Seq<Seq<char>> {
    match mode_of(r) {
        Mode::Help => Seq::empty(),
        Mode::Version => seq!["node"@, "--version"@],
        Mode::EngineHelp => seq!["node"@, "run"@, "--v8-flags=--help"@],
        Mode::Task => seq!["node"@, "task"@, r.run_task] + r.remaining_args,
        Mode::Eval => eval_prefix(r) + seq![r.eval_string, "--"@] + r.remaining_args,
        Mode::Repl => seq!["node"@, "repl"@, "-A"@] + engine_part(r) + conditions_part(r)
            + inspect_part(r) + seq!["--"@] + r.remaining_args,
        Mode::Test => seq!["node"@, "test"@, "-A"@] + compat_flags() + watch_part(r)
            + env_file_part(r) + engine_part(r) + conditions_part(r) + inspect_part(r)
            + r.remaining_args,
        Mode::Run => seq!["node"@, "run"@, "-A"@] + compat_flags() + watch_part(r)
            + env_file_part(r) + engine_part(r) + conditions_part(r) + inspect_part(r)
            + r.remaining_args,
    }
}

/// One environment assignment to apply before launching the target runtime.
pub struct EnvPair {
    /// The variable's name.
    pub name: String,
    /// The value to set it to.
    pub value: String,
}

/// The translated invocation: the target argument vector, and the optional
/// environment assignment to apply immediately before launch.
pub struct TranslationOutput {
    /// The target argument vector.
    pub args: Vec<String>,
    /// The environment assignment, when a CA-store flag asked for one.
    pub env: Option<EnvPair>,
}

/// Pushes one literal token.
fn push_str(v: &mut Vec<String>, s: &str)
    ensures
        views(final(v)@) == views(old(v)@).push(s@),
{
    let x = String::from_str(s);
    proof {
        lemma_views_push(v@, x);
    }
    v.push(x);
}

/// Pushes one owned token.
fn push_string(v: &mut Vec<String>, s: String)
    ensures
        views(final(v)@) == views(old(v)@).push(s@),
{
    proof {
        lemma_views_push(v@, s);
    }
    v.push(s);
}

/// Appends the fixed compatibility flags.
fn append_compat(v: &mut Vec<String>)
    ensures
        views(final(v)@) == views(old(v)@) + compat_flags(),
{
    push_str(v, "--unstable-node-globals");
    push_str(v, "--unstable-bare-node-builtins");
    push_str(v, "--unstable-detect-cjs");
    push_str(v, "--node-modules-dir=manual");
    push_str(v, "--no-config");
    proof {
        assert(views(v@) =~= views(old(v)@) + compat_flags());
    }
}

/// Appends the env-file flag, when one was requested.
fn append_env_file(v: &mut Vec<String>, req: &ParsedRequest)
    ensures
        views(final(v)@) == views(old(v)@) + env_file_part(req@),
{
    if req.has_env_file {
        if req.env_file.unicode_len() == 0 {
            push_str(v, "--env-file");
        } else {
            let flag = String::from_str("--env-file=").concat(req.env_file.as_str());
            push_string(v, flag);
        }
    }
    proof {
        assert(views(v@) =~= views(old(v)@) + env_file_part(req@));
    }
}

/// Appends the joined engine flags, when any were collected.
fn append_engine(v: &mut Vec<String>, req: &ParsedRequest)
    ensures
        views(final(v)@) == views(old(v)@) + engine_part(req@),
{
    if req.engine_args.len() > 0 {
        let joined = join_commas(&req.engine_args);
        let flag = String::from_str("--v8-flags=").concat(joined.as_str());
        push_string(v, flag);
    }
    proof {
        assert(views(v@) =~= views(old(v)@) + engine_part(req@));
    }
}

/// Appends the joined conditions flag, when any conditions were named.
fn append_conditions(v: &mut Vec<String>, req: &ParsedRequest)
    ensures
        views(final(v)@) == views(old(v)@) + conditions_part(req@),
{
    if req.conditions.len() > 0 {
        let joined = join_commas(&req.conditions);
        let flag = String::from_str("--conditions=").concat(joined.as_str());
        push_string(v, flag);
    }
    proof {
        assert(views(v@) =~= views(old(v)@) + conditions_part(req@));
    }
}

/// Appends the watch flag, escaping each path's commas before joining.
fn append_watch(v: &mut Vec<String>, req: &ParsedRequest)
    ensures
        views(final(v)@) == views(old(v)@) + watch_part(req@),
{
    if req.watch_mode {
        if req.watch_paths.len() == 0 {
            push_str(v, "--watch");
        } else {
            let joined = join_escaped(&req.watch_paths);
            let flag = String::from_str("--watch=").concat(joined.as_str());
            push_string(v, flag);
        }
    }
    proof {
        assert(views(v@) =~= views(old(v)@) + watch_part(req@));
    }
}

/// Appends the inspector flag, when the inspector was enabled.
fn append_inspect(v: &mut Vec<String>, req: &ParsedRequest)
    ensures
        views(final(v)@) == views(old(v)@) + inspect_part(req@),
{
    if req.inspector_enabled {
        let mut flag = if req.break_on_first_line {
            String::from_str("--inspect-brk=")
        } else {
            String::from_str("--inspect=")
        };
        flag.append(req.debug_host.as_str());
        flag.append(":");
        let port_text = u16_to_dec(req.debug_port);
        flag.append(port_text.as_str());
        proof {
            reveal_strlit(":");
            assert(":"@ =~= seq![':']);
            assert(flag@ =~= (if req@.break_on_first_line {
                "--inspect-brk="@
            } else {
                "--inspect="@
            }) + req@.debug_host + seq![':'] + spec_dec(req@.debug_port));
        }
        push_string(v, flag);
    }
    proof {
        assert(views(v@) =~= views(old(v)@) + inspect_part(req@));
    }
}

/// Appends the remaining arguments, verbatim and in order.
fn append_remaining(v: &mut Vec<String>, req: &ParsedRequest)
    ensures
        views(final(v)@) == views(old(v)@) + req@.remaining_args,
{
    let ghost base = views(v@);
    let mut j: usize = 0;
    proof {
        assert(base + req@.remaining_args.take(0) =~= base);
    }
    while j < req.remaining_args.len()
        invariant
            j <= req.remaining_args@.len(),
            views(v@) == base + views(req.remaining_args@).take(j as int),
        decreases req.remaining_args@.len() - j,
    {
        let s = req.remaining_args[j].clone();
        push_string(v, s);
        proof {
            assert(views(v@) =~= base + views(req.remaining_args@).take(j + 1));
        }
        j += 1;
    }
    proof {
        assert(views(req.remaining_args@).take(req.remaining_args@.len() as int) =~= views(
            req.remaining_args@,
        ));
    }
}

/// Builds the eval-mode invocation.
#[verifier::rlimit(100)]
fn build_eval(req: &ParsedRequest) -> (v: Vec<String>)
    requires
        mode_of(req@) == Mode::Eval,
    ensures
        views(v@) == spec_args(req@),
{
    let mut v: Vec<String> = Vec::new();
    proof {
        assert(views(v@) =~= Seq::<Seq<char>>::empty());
    }
    push_str(&mut v, "node");
    push_str(&mut v, "eval");
    push_str(&mut v, "-A");
    append_compat(&mut v);
    append_env_file(&mut v, req);
    let ghost before_print = views(v@);
    if req.print_eval_result {
        push_str(&mut v, "--print");
    }
    proof {
        assert(views(v@) =~= before_print + (if req@.print_eval_result {
            seq!["--print"@]
        } else {
            Seq::<Seq<char>>::empty()
        }));
    }
    append_engine(&mut v, req);
    proof {
        assert(views(v@) =~= eval_prefix(req@));
    }
    push_string(&mut v, req.eval_string.clone());
    push_str(&mut v, "--");
    append_remaining(&mut v, req);
    proof {
        assert(views(v@) =~= eval_prefix(req@) + seq![req@.eval_string, "--"@]
            + req@.remaining_args);
    }
    v
}

/// Builds the interactive-mode invocation.
#[verifier::rlimit(100)]
fn build_repl(req: &ParsedRequest) -> (v: Vec<String>)
    requires
        mode_of(req@) == Mode::Repl,
    ensures
        views(v@) == spec_args(req@),
{
    let mut v: Vec<String> = Vec::new();
    proof {
        assert(views(v@) =~= Seq::<Seq<char>>::empty());
    }
    push_str(&mut v, "node");
    push_str(&mut v, "repl");
    push_str(&mut v, "-A");
    append_engine(&mut v, req);
    append_conditions(&mut v, req);
    append_inspect(&mut v, req);
    push_str(&mut v, "--");
    append_remaining(&mut v, req);
    proof {
        assert(views(v@) =~= spec_args(req@));
    }
    v
}

/// Builds the test-runner or default script-run invocation; the two differ
/// only in the subcommand.
#[verifier::rlimit(100)]
fn build_run_like(req: &ParsedRequest, test_mode: bool) -> (v: Vec<String>)
    requires
        test_mode ==> mode_of(req@) == Mode::Test,
        !test_mode ==> mode_of(req@) == Mode::Run,
    ensures
        views(v@) == spec_args(req@),
{
    let mut v: Vec<String> = Vec::new();
    proof {
        assert(views(v@) =~= Seq::<Seq<char>>::empty());
    }
    push_str(&mut v, "node");
    if test_mode {
        push_str(&mut v, "test");
    } else {
        push_str(&mut v, "run");
    }
    push_str(&mut v, "-A");
    append_compat(&mut v);
    append_watch(&mut v, req);
    append_env_file(&mut v, req);
    append_engine(&mut v, req);
    append_conditions(&mut v, req);
    append_inspect(&mut v, req);
    append_remaining(&mut v, req);
    proof {
        assert(views(v@) =~= spec_args(req@));
    }
    v
}

/// Translates the parsed request into the target invocation.
///
/// The argument vector is exactly [`spec_args`] of the request, and the
/// environment assignment `DENO_TLS_CA_STORE=system` is present exactly when
/// either CA-store flag was given, whatever mode is resolved.
pub fn translate(req: &ParsedRequest) -> (out: TranslationOutput)
    ensures
        views(out.args@) == spec_args(req@),
        (req@.use_system_ca || req@.use_openssl_ca) <==> out.env is Some,
        (out.env matches Some(p) ==> p.name@ == "DENO_TLS_CA_STORE"@ && p.value@ == "system"@),
{
    let env = if req.use_system_ca || req.use_openssl_ca {
        Some(
            EnvPair {
                name: String::from_str("DENO_TLS_CA_STORE"),
                value: String::from_str("system"),
            },
        )
    } else {
        None
    };
    let args = match resolve_mode(req) {
        Mode::Help => {
            let v: Vec<String> = Vec::new();
            proof {
                assert(views(v@) =~= Seq::<Seq<char>>::empty());
            }
            v
        },
        Mode::Version => {
            let mut v: Vec<String> = Vec::new();
            proof {
                assert(views(v@) =~= Seq::<Seq<char>>::empty());
            }
            push_str(&mut v, "node");
            push_str(&mut v, "--version");
            proof {
                assert(views(v@) =~= spec_args(req@));
            }
            v
        },
        Mode::EngineHelp => {
            let mut v: Vec<String> = Vec::new();
            proof {
                assert(views(v@) =~= Seq::<Seq<char>>::empty());
            }
            push_str(&mut v, "node");
            push_str(&mut v, "run");
            push_str(&mut v, "--v8-flags=--help");
            proof {
                assert(views(v@) =~= spec_args(req@));
            }
            v
        },
        Mode::Task => {
            let mut v: Vec<String> = Vec::new();
            proof {
                assert(views(v@) =~= Seq::<Seq<char>>::empty());
            }
            push_str(&mut v, "node");
            push_str(&mut v, "task");
            push_string(&mut v, req.run_task.clone());
            append_remaining(&mut v, req);
            proof {
                assert(views(v@) =~= spec_args(req@));
            }
            v
        },
        Mode::Eval => build_eval(req),
        Mode::Repl => build_repl(req),
        Mode::Test => build_run_like(req, true),
        Mode::Run => build_run_like(req, false),
    };
    TranslationOutput { args, env }
}

} // verus!
