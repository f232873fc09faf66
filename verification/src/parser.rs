//! The parser: raw argument tokens in, a structured [`ParsedRequest`] or a
//! list of error messages out.
//!
//! Tokens are scanned left to right. Recognized flags update the request;
//! flags destined for the underlying engine are collected raw; scanning stops
//! at the first token that is not a flag form (or at a bare `--`), and that
//! boundary token and everything after it are forwarded verbatim. Malformed
//! flags produce error messages but never stop the scan, so one run reports
//! every defect at once.
//!
//! The whole scan is specified by [`spec_parse`], a recursive function over
//! the token views, and `parse_args` is proved to return exactly its result.

use vstd::prelude::*;
use vstd::string::*;
use crate::request::{ParsedRequest, ReqView, spec_empty_request, empty_request};
use crate::strutil::{
    views, lemma_views_push, str_eq, has_prefix, tail_from, spec_last_colon,
    lemma_last_colon_bounds, find_last_colon, parse_port, all_digits, all_digits_exec,
    is_port_text, digits_val,
};

verus! {

/// A parse in progress: the request built so far and the errors collected.
pub struct ParseState {
    pub req: ReqView,
    pub errors: Seq<Seq<char>>,
}

/// A token that looks like a flag: a dash followed by at least one more
/// character. A lone dash, like any dash-free token, starts the script region.
pub open spec fn is_flag_token(t: Seq<char>) -> bool {
    t.len() >= 2 && t[0] == '-'
}

/// Flags whose value is supplied by the following token.
pub open spec fn takes_separate_value(t: Seq<char>) -> bool {
    ||| t == "-e"@
    ||| t == "--eval"@
    ||| t == "-p"@
    ||| t == "--print"@
    ||| t == "--run"@
    ||| t == "-C"@
    ||| t == "--conditions"@
    ||| t == "--watch-path"@
}

/// Decides whether the token is a flag that takes the next token as value.
pub fn takes_separate_value_exec(t: &str) -> (r: bool)
    ensures
        r == takes_separate_value(t@),
{
    str_eq(t, "-e") || str_eq(t, "--eval") || str_eq(t, "-p") || str_eq(t, "--print") || str_eq(
        t,
        "--run",
    ) || str_eq(t, "-C") || str_eq(t, "--conditions") || str_eq(t, "--watch-path")
}

/// The recognized shapes of a single self-contained flag token.
#[derive(Clone, Copy)]
pub enum FlagKind {
    /// `-h` / `--help`.
    Help,
    /// `-v` / `--version`.
    Version,
    /// `--v8-options`.
    EngineHelp,
    /// `-i` / `--interactive`.
    Interactive,
    /// `--test`.
    TestFlag,
    /// `--watch`.
    WatchFlag,
    /// `--use-system-ca`.
    SystemCa,
    /// `--use-openssl-ca`.
    OpensslCa,
    /// `--inspect`, bare.
    Inspect,
    /// `--inspect-brk`, bare.
    InspectBrk,
    /// `--inspect=<addr>`.
    InspectEq,
    /// `--inspect-brk=<addr>`.
    InspectBrkEq,
    /// `--eval=<code>`.
    EvalEq,
    /// `--print=<code>`.
    PrintEq,
    /// `--run=<task>`.
    RunEq,
    /// `--conditions=<name>`.
    ConditionsEq,
    /// `--watch-path=<path>`.
    WatchPathEq,
    /// `--env-file`, bare.
    EnvFile,
    /// `--env-file=<path>`.
    EnvFileEq,
    /// A flag forwarded raw to the underlying engine.
    Engine,
    /// Anything else that still looks like a flag.
    Unknown,
}

/// Flags forwarded raw to the underlying execution engine.
pub open spec fn is_engine_flag(t: Seq<char>) -> bool {
    ||| t == "--expose-gc"@
    ||| t == "--jitless"@
    ||| t == "--max-old-space-size"@
    ||| "--max-old-space-size="@.is_prefix_of(t)
    ||| t == "--max-semi-space-size"@
    ||| "--max-semi-space-size="@.is_prefix_of(t)
    ||| t == "--stack-size"@
    ||| "--stack-size="@.is_prefix_of(t)
}

/// Classifies one self-contained flag token by its form.
#[verifier::opaque]
pub open spec fn classify(t: Seq<char>) -> FlagKind {
    if t == "-h"@ || t == "--help"@ {
        FlagKind::Help
    } else if t == "-v"@ || t == "--version"@ {
        FlagKind::Version
    } else if t == "--v8-options"@ {
        FlagKind::EngineHelp
    } else if t == "-i"@ || t == "--interactive"@ {
        FlagKind::Interactive
    } else if t == "--test"@ {
        FlagKind::TestFlag
    } else if t == "--watch"@ {
        FlagKind::WatchFlag
    } else if t == "--use-system-ca"@ {
        FlagKind::SystemCa
    } else if t == "--use-openssl-ca"@ {
        FlagKind::OpensslCa
    } else if t == "--inspect"@ {
        FlagKind::Inspect
    } else if t == "--inspect-brk"@ {
        FlagKind::InspectBrk
    } else if "--inspect="@.is_prefix_of(t) {
        FlagKind::InspectEq
    } else if "--inspect-brk="@.is_prefix_of(t) {
        FlagKind::InspectBrkEq
    } else if "--eval="@.is_prefix_of(t) {
        FlagKind::EvalEq
    } else if "--print="@.is_prefix_of(t) {
        FlagKind::PrintEq
    } else if "--run="@.is_prefix_of(t) {
        FlagKind::RunEq
    } else if "--conditions="@.is_prefix_of(t) {
        FlagKind::ConditionsEq
    } else if "--watch-path="@.is_prefix_of(t) {
        FlagKind::WatchPathEq
    } else if t == "--env-file"@ {
        FlagKind::EnvFile
    } else if "--env-file="@.is_prefix_of(t) {
        FlagKind::EnvFileEq
    } else if is_engine_flag(t) {
        FlagKind::Engine
    } else {
        FlagKind::Unknown
    }
}

/// Classifies one self-contained flag token, executably.
#[verifier::rlimit(100)]
pub fn classify_exec(t: &str) -> (k: FlagKind)
    ensures
        k == classify(t@),
{
    proof {
        reveal(classify);
    }
    if str_eq(t, "-h") || str_eq(t, "--help") {
        FlagKind::Help
    } else if str_eq(t, "-v") || str_eq(t, "--version") {
        FlagKind::Version
    } else if str_eq(t, "--v8-options") {
        FlagKind::EngineHelp
    } else if str_eq(t, "-i") || str_eq(t, "--interactive") {
        FlagKind::Interactive
    } else if str_eq(t, "--test") {
        FlagKind::TestFlag
    } else if str_eq(t, "--watch") {
        FlagKind::WatchFlag
    } else if str_eq(t, "--use-system-ca") {
        FlagKind::SystemCa
    } else if str_eq(t, "--use-openssl-ca") {
        FlagKind::OpensslCa
    } else if str_eq(t, "--inspect") {
        FlagKind::Inspect
    } else if str_eq(t, "--inspect-brk") {
        FlagKind::InspectBrk
    } else if has_prefix(t, "--inspect=") {
        FlagKind::InspectEq
    } else if has_prefix(t, "--inspect-brk=") {
        FlagKind::InspectBrkEq
    } else if has_prefix(t, "--eval=") {
        FlagKind::EvalEq
    } else if has_prefix(t, "--print=") {
        FlagKind::PrintEq
    } else if has_prefix(t, "--run=") {
        FlagKind::RunEq
    } else if has_prefix(t, "--conditions=") {
        FlagKind::ConditionsEq
    } else if has_prefix(t, "--watch-path=") {
        FlagKind::WatchPathEq
    } else if str_eq(t, "--env-file") {
        FlagKind::EnvFile
    } else if has_prefix(t, "--env-file=") {
        FlagKind::EnvFileEq
    } else if str_eq(t, "--expose-gc") || str_eq(t, "--jitless") || str_eq(
        t,
        "--max-old-space-size",
    ) || has_prefix(t, "--max-old-space-size=") || str_eq(t, "--max-semi-space-size")
        || has_prefix(t, "--max-semi-space-size=") || str_eq(t, "--stack-size") || has_prefix(
        t,
        "--stack-size=",
    ) {
        FlagKind::Engine
    } else {
        FlagKind::Unknown
    }
}

/// A token classified as an `=`-attached flag really carries that prefix.
pub proof fn lemma_classify_prefix(t: Seq<char>)
    ensures
        classify(t) == FlagKind::InspectEq ==> "--inspect="@.is_prefix_of(t),
        classify(t) == FlagKind::InspectBrkEq ==> "--inspect-brk="@.is_prefix_of(t),
        classify(t) == FlagKind::EvalEq ==> "--eval="@.is_prefix_of(t),
        classify(t) == FlagKind::PrintEq ==> "--print="@.is_prefix_of(t),
        classify(t) == FlagKind::RunEq ==> "--run="@.is_prefix_of(t),
        classify(t) == FlagKind::ConditionsEq ==> "--conditions="@.is_prefix_of(t),
        classify(t) == FlagKind::WatchPathEq ==> "--watch-path="@.is_prefix_of(t),
        classify(t) == FlagKind::EnvFileEq ==> "--env-file="@.is_prefix_of(t),
{
    reveal(classify);
}

/// The message for a flag nobody recognizes.
pub open spec fn msg_unknown(t: Seq<char>) -> Seq<char> {
    "unknown flag: "@ + t
}

/// The message for a flag that needed a value and got none.
pub open spec fn msg_missing(t: Seq<char>) -> Seq<char> {
    "missing value for "@ + t
}

/// The message for an inspector address whose port does not parse.
pub open spec fn msg_bad_port(t: Seq<char>) -> Seq<char> {
    "invalid inspector port: "@ + t
}

/// Applies an inspector flag that carried an `=`-attached address value.
///
/// The value is read as `host:port`, as a bare port when it is all digits,
/// or as a bare host otherwise; a malformed port is an error.
#[verifier::opaque]
pub open spec fn apply_inspect(st: ParseState, v: Seq<char>, brk: bool, whole: Seq<char>) -> ParseState {
    let k = spec_last_colon(v);
    if k >= 0 {
        let host = v.take(k);
        let ptext = v.skip(k + 1);
        if is_port_text(ptext) {
            ParseState {
                req: ReqView {
                    inspector_enabled: true,
                    break_on_first_line: brk,
                    debug_host: host,
                    debug_port: digits_val(ptext),
                    ..st.req
                },
                errors: st.errors,
            }
        } else {
            ParseState { req: st.req, errors: st.errors.push(msg_bad_port(whole)) }
        }
    } else if v.len() > 0 && all_digits(v) {
        if is_port_text(v) {
            ParseState {
                req: ReqView {
                    inspector_enabled: true,
                    break_on_first_line: brk,
                    debug_port: digits_val(v),
                    ..st.req
                },
                errors: st.errors,
            }
        } else {
            ParseState { req: st.req, errors: st.errors.push(msg_bad_port(whole)) }
        }
    } else {
        ParseState {
            req: ReqView {
                inspector_enabled: true,
                break_on_first_line: brk,
                debug_host: v,
                ..st.req
            },
            errors: st.errors,
        }
    }
}

/// Applies one flag that consumes no further token.
#[verifier::opaque]
pub open spec fn single_step(st: ParseState, t: Seq<char>) -> ParseState {
    match classify(t) {
        FlagKind::Help => ParseState {
            req: ReqView { print_help: true, ..st.req },
            errors: st.errors,
        },
        FlagKind::Version => ParseState {
            req: ReqView { print_version: true, ..st.req },
            errors: st.errors,
        },
        FlagKind::EngineHelp => ParseState {
            req: ReqView { print_engine_help: true, ..st.req },
            errors: st.errors,
        },
        FlagKind::Interactive => ParseState {
            req: ReqView { force_repl: true, ..st.req },
            errors: st.errors,
        },
        FlagKind::TestFlag => ParseState {
            req: ReqView { is_test_run: true, ..st.req },
            errors: st.errors,
        },
        FlagKind::WatchFlag => ParseState {
            req: ReqView { watch_mode: true, ..st.req },
            errors: st.errors,
        },
        FlagKind::SystemCa => ParseState {
            req: ReqView { use_system_ca: true, ..st.req },
            errors: st.errors,
        },
        FlagKind::OpensslCa => ParseState {
            req: ReqView { use_openssl_ca: true, ..st.req },
            errors: st.errors,
        },
        FlagKind::Inspect => ParseState {
            req: ReqView { inspector_enabled: true, break_on_first_line: false, ..st.req },
            errors: st.errors,
        },
        FlagKind::InspectBrk => ParseState {
            req: ReqView { inspector_enabled: true, break_on_first_line: true, ..st.req },
            errors: st.errors,
        },
        FlagKind::InspectEq => apply_inspect(st, t.skip("--inspect="@.len() as int), false, t),
        FlagKind::InspectBrkEq => apply_inspect(
            st,
            t.skip("--inspect-brk="@.len() as int),
            true,
            t,
        ),
        FlagKind::EvalEq => ParseState {
            req: ReqView {
                has_eval_string: true,
                eval_string: t.skip("--eval="@.len() as int),
                ..st.req
            },
            errors: st.errors,
        },
        FlagKind::PrintEq => ParseState {
            req: ReqView {
                has_eval_string: true,
                eval_string: t.skip("--print="@.len() as int),
                print_eval_result: true,
                ..st.req
            },
            errors: st.errors,
        },
        FlagKind::RunEq => ParseState {
            req: ReqView { run_task: t.skip("--run="@.len() as int), ..st.req },
            errors: st.errors,
        },
        FlagKind::ConditionsEq => ParseState {
            req: ReqView {
                conditions: st.req.conditions.push(t.skip("--conditions="@.len() as int)),
                ..st.req
            },
            errors: st.errors,
        },
        FlagKind::WatchPathEq => ParseState {
            req: ReqView {
                watch_mode: true,
                watch_paths: st.req.watch_paths.push(t.skip("--watch-path="@.len() as int)),
                ..st.req
            },
            errors: st.errors,
        },
        FlagKind::EnvFile => ParseState {
            req: ReqView { has_env_file: true, env_file: Seq::empty(), ..st.req },
            errors: st.errors,
        },
        FlagKind::EnvFileEq => ParseState {
            req: ReqView {
                has_env_file: true,
                env_file: t.skip("--env-file="@.len() as int),
                ..st.req
            },
            errors: st.errors,
        },
        FlagKind::Engine => ParseState {
            req: ReqView { engine_args: st.req.engine_args.push(t), ..st.req },
            errors: st.errors,
        },
        FlagKind::Unknown => ParseState {
            req: st.req,
            errors: st.errors.push(msg_unknown(t)),
        },
    }
}

/// Which value-taking flag a token is.
pub enum ValueFlagKind {
    /// `-e` / `--eval`.
    EvalFlag,
    /// `-p` / `--print`.
    PrintFlag,
    /// `--run`.
    RunFlag,
    /// `-C` / `--conditions`.
    ConditionsFlag,
    /// `--watch-path`.
    WatchPathFlag,
}

/// Classifies a value-taking flag token.
#[verifier::opaque]
pub open spec fn classify_value(t: Seq<char>) -> ValueFlagKind {
    if t == "-e"@ || t == "--eval"@ {
        ValueFlagKind::EvalFlag
    } else if t == "-p"@ || t == "--print"@ {
        ValueFlagKind::PrintFlag
    } else if t == "--run"@ {
        ValueFlagKind::RunFlag
    } else if t == "-C"@ || t == "--conditions"@ {
        ValueFlagKind::ConditionsFlag
    } else {
        ValueFlagKind::WatchPathFlag
    }
}

/// Classifies a value-taking flag token, executably.
pub fn classify_value_exec(t: &str) -> (k: ValueFlagKind)
    ensures
        k == classify_value(t@),
{
    proof {
        reveal(classify_value);
    }
    if str_eq(t, "-e") || str_eq(t, "--eval") {
        ValueFlagKind::EvalFlag
    } else if str_eq(t, "-p") || str_eq(t, "--print") {
        ValueFlagKind::PrintFlag
    } else if str_eq(t, "--run") {
        ValueFlagKind::RunFlag
    } else if str_eq(t, "-C") || str_eq(t, "--conditions") {
        ValueFlagKind::ConditionsFlag
    } else {
        ValueFlagKind::WatchPathFlag
    }
}

/// Applies a flag together with the separate value token that followed it.
/// Such a flag never fails, so only the request changes.
#[verifier::opaque]
pub open spec fn apply_value_flag(req: ReqView, t: Seq<char>, v: Seq<char>) -> ReqView {
    match classify_value(t) {
        ValueFlagKind::EvalFlag => ReqView { has_eval_string: true, eval_string: v, ..req },
        ValueFlagKind::PrintFlag => ReqView {
            has_eval_string: true,
            eval_string: v,
            print_eval_result: true,
            ..req
        },
        ValueFlagKind::RunFlag => ReqView { run_task: v, ..req },
        ValueFlagKind::ConditionsFlag => ReqView { conditions: req.conditions.push(v), ..req },
        ValueFlagKind::WatchPathFlag => ReqView {
            watch_mode: true,
            watch_paths: req.watch_paths.push(v),
            ..req
        },
    }
}

/// One left-to-right scan from position `i`, starting in state `st`.
#[verifier::opaque]
pub open spec fn spec_parse_rec(st: ParseState, toks: Seq<Seq<char>>, i: int) -> ParseState
    decreases toks.len() - i,
{
    if i < 0 || i >= toks.len() {
        st
    } else {
        let t = toks[i];
        if t == "--"@ {
            ParseState {
                req: ReqView { remaining_args: toks.skip(i + 1), ..st.req },
                errors: st.errors,
            }
        } else if !is_flag_token(t) {
            ParseState {
                req: ReqView { remaining_args: toks.skip(i), ..st.req },
                errors: st.errors,
            }
        } else if takes_separate_value(t) {
            if i + 1 < toks.len() {
                spec_parse_rec(
                    ParseState { req: apply_value_flag(st.req, t, toks[i + 1]), errors: st.errors },
                    toks,
                    i + 2,
                )
            } else {
                spec_parse_rec(
                    ParseState { req: st.req, errors: st.errors.push(msg_missing(t)) },
                    toks,
                    i + 1,
                )
            }
        } else {
            spec_parse_rec(single_step(st, t), toks, i + 1)
        }
    }
}

/// The state all parsing starts from: an empty request and no errors.
pub open spec fn initial_state() -> ParseState {
    ParseState { req: spec_empty_request(), errors: Seq::empty() }
}

/// The full parse of a token list.
pub open spec fn spec_parse(toks: Seq<Seq<char>>) -> ParseState {
    spec_parse_rec(initial_state(), toks, 0)
}

/// Past the end of the tokens, the scan is finished.
pub proof fn lemma_parse_rec_done(st: ParseState, toks: Seq<Seq<char>>, i: int)
    requires
        i >= toks.len(),
    ensures
        spec_parse_rec(st, toks, i) == st,
{
    reveal(spec_parse_rec);
}

/// A bare `--` ends the scan; everything after it is forwarded verbatim.
pub proof fn lemma_step_boundary_sep(st: ParseState, toks: Seq<Seq<char>>, i: int)
    requires
        0 <= i < toks.len(),
        toks[i] == "--"@,
    ensures
        (spec_parse_rec(st, toks, i) == ParseState {
            req: ReqView { remaining_args: toks.skip(i + 1), ..st.req },
            errors: st.errors,
        }),
{
    reveal(spec_parse_rec);
}

/// A token that is no flag form ends the scan and starts the script region.
pub proof fn lemma_step_boundary_script(st: ParseState, toks: Seq<Seq<char>>, i: int)
    requires
        0 <= i < toks.len(),
        toks[i] != "--"@,
        !is_flag_token(toks[i]),
    ensures
        (spec_parse_rec(st, toks, i) == ParseState {
            req: ReqView { remaining_args: toks.skip(i), ..st.req },
            errors: st.errors,
        }),
{
    reveal(spec_parse_rec);
}

/// A value-taking flag with its value consumes two tokens.
pub proof fn lemma_step_valued(st: ParseState, toks: Seq<Seq<char>>, i: int)
    requires
        0 <= i < toks.len(),
        toks[i] != "--"@,
        is_flag_token(toks[i]),
        takes_separate_value(toks[i]),
        i + 1 < toks.len(),
    ensures
        (spec_parse_rec(st, toks, i) == spec_parse_rec(
            ParseState { req: apply_value_flag(st.req, toks[i], toks[i + 1]), errors: st.errors },
            toks,
            i + 2,
        )),
{
    reveal(spec_parse_rec);
}

/// A value-taking flag at the very end is missing its value.
pub proof fn lemma_step_missing(st: ParseState, toks: Seq<Seq<char>>, i: int)
    requires
        0 <= i < toks.len(),
        toks[i] != "--"@,
        is_flag_token(toks[i]),
        takes_separate_value(toks[i]),
        i + 1 >= toks.len(),
    ensures
        (spec_parse_rec(st, toks, i) == spec_parse_rec(
            ParseState { req: st.req, errors: st.errors.push(msg_missing(toks[i])) },
            toks,
            i + 1,
        )),
{
    reveal(spec_parse_rec);
}

/// Any other flag token consumes exactly one token.
pub proof fn lemma_step_single(st: ParseState, toks: Seq<Seq<char>>, i: int)
    requires
        0 <= i < toks.len(),
        toks[i] != "--"@,
        is_flag_token(toks[i]),
        !takes_separate_value(toks[i]),
    ensures
        spec_parse_rec(st, toks, i) == spec_parse_rec(single_step(st, toks[i]), toks, i + 1),
{
    reveal(spec_parse_rec);
}

/// Clones the tokens from position `from` to the end.
fn clone_tail(args: &Vec<String>, from: usize) -> (r: Vec<String>)
    requires
        from <= args@.len(),
    ensures
        views(r@) == views(args@).skip(from as int),
{
    let mut r: Vec<String> = Vec::new();
    proof {
        assert(views(r@) =~= views(args@).subrange(from as int, from as int));
    }
    let mut j: usize = from;
    while j < args.len()
        invariant
            from <= j <= args@.len(),
            views(r@) == views(args@).subrange(from as int, j as int),
        decreases args@.len() - j,
    {
        let s = args[j].clone();
        proof {
            lemma_views_push(r@, s);
        }
        r.push(s);
        proof {
            assert(views(r@) =~= views(args@).subrange(from as int, j + 1));
        }
        j += 1;
    }
    proof {
        assert(views(args@).subrange(from as int, args@.len() as int) =~= views(args@).skip(
            from as int,
        ));
    }
    r
}

/// Applies an `=`-attached inspector address to the request.
#[verifier::rlimit(100)]
fn exec_apply_inspect(
    cur: &mut ParsedRequest,
    errs: &mut Vec<String>,
    v: &str,
    brk: bool,
    whole: &str,
)
    ensures
        (ParseState { req: final(cur)@, errors: views(final(errs)@) } == apply_inspect(
            ParseState { req: old(cur)@, errors: views(old(errs)@) },
            v@,
            brk,
            whole@,
        )),
{
    let ghost st0 = ParseState { req: cur@, errors: views(errs@) };
    let vlen: usize = v.unicode_len();
    match find_last_colon(v) {
        Some(k) => {
            proof {
                lemma_last_colon_bounds(v@);
            }
            let host = String::from_str(v.substring_char(0, k));
            let ptext = v.substring_char(k + 1, vlen);
            proof {
                assert(host@ =~= v@.take(k as int));
                assert(ptext@ =~= v@.skip(k + 1));
            }
            match parse_port(ptext) {
                Some(p) => {
                    cur.inspector_enabled = true;
                    cur.break_on_first_line = brk;
                    cur.debug_host = host;
                    cur.debug_port = p;
                    proof {
                        reveal(apply_inspect);
                        assert(ParseState { req: cur@, errors: views(errs@) } == apply_inspect(
                            st0,
                            v@,
                            brk,
                            whole@,
                        ));
                    }
                },
                None => {
                    let msg = String::from_str("invalid inspector port: ").concat(whole);
                    proof {
                        lemma_views_push(errs@, msg);
                    }
                    errs.push(msg);
                    proof {
                        reveal(apply_inspect);
                        assert(ParseState { req: cur@, errors: views(errs@) } == apply_inspect(
                            st0,
                            v@,
                            brk,
                            whole@,
                        ));
                    }
                },
            }
        },
        None => {
            if vlen > 0 && all_digits_exec(v) {
                match parse_port(v) {
                    Some(p) => {
                        cur.inspector_enabled = true;
                        cur.break_on_first_line = brk;
                        cur.debug_port = p;
                        proof {
                            reveal(apply_inspect);
                            assert(ParseState { req: cur@, errors: views(errs@) }
                                == apply_inspect(st0, v@, brk, whole@));
                        }
                    },
                    None => {
                        let msg = String::from_str("invalid inspector port: ").concat(whole);
                        proof {
                            lemma_views_push(errs@, msg);
                        }
                        errs.push(msg);
                        proof {
                            reveal(apply_inspect);
                            assert(ParseState { req: cur@, errors: views(errs@) }
                                == apply_inspect(st0, v@, brk, whole@));
                        }
                    },
                }
            } else {
                cur.inspector_enabled = true;
                cur.break_on_first_line = brk;
                cur.debug_host = String::from_str(v);
                proof {
                    reveal(apply_inspect);
                    assert(ParseState { req: cur@, errors: views(errs@) } == apply_inspect(
                        st0,
                        v@,
                        brk,
                        whole@,
                    ));
                }
            }
        },
    }
}

/// Applies one flag that consumes no further token.
fn exec_single_step(cur: &mut ParsedRequest, errs: &mut Vec<String>, t: &str)
    ensures
        (ParseState { req: final(cur)@, errors: views(final(errs)@) } == single_step(
            ParseState { req: old(cur)@, errors: views(old(errs)@) },
            t@,
        )),
{
    let k = classify_exec(t);
    match k {
        FlagKind::Help | FlagKind::Version | FlagKind::EngineHelp | FlagKind::Interactive
        | FlagKind::TestFlag | FlagKind::WatchFlag | FlagKind::SystemCa | FlagKind::OpensslCa
        | FlagKind::Inspect | FlagKind::InspectBrk | FlagKind::EnvFile => {
            exec_single_plain(cur, t, k, Ghost(views(errs@)));
        },
        _ => {
            exec_single_valued(cur, errs, t, k);
        },
    }
}

/// Applies a flag that sets request fields and can never fail.
#[verifier::rlimit(100)]
fn exec_single_plain(cur: &mut ParsedRequest, t: &str, k: FlagKind, errors: Ghost<Seq<Seq<char>>>)
    requires
        k == classify(t@),
        ({
            ||| k is Help
            ||| k is Version
            ||| k is EngineHelp
            ||| k is Interactive
            ||| k is TestFlag
            ||| k is WatchFlag
            ||| k is SystemCa
            ||| k is OpensslCa
            ||| k is Inspect
            ||| k is InspectBrk
            ||| k is EnvFile
        }),
    ensures
        (ParseState { req: final(cur)@, errors: errors@ } == single_step(
            ParseState { req: old(cur)@, errors: errors@ },
            t@,
        )),
{
    let ghost st0 = ParseState { req: cur@, errors: errors@ };
    match k {
        FlagKind::Help => {
            cur.print_help = true;
            proof {
                reveal(single_step);
                assert(ParseState { req: cur@, errors: errors@ } == single_step(st0, t@));
            }
        },
        FlagKind::Version => {
            cur.print_version = true;
            proof {
                reveal(single_step);
                assert(ParseState { req: cur@, errors: errors@ } == single_step(st0, t@));
            }
        },
        FlagKind::EngineHelp => {
            cur.print_engine_help = true;
            proof {
                reveal(single_step);
                assert(ParseState { req: cur@, errors: errors@ } == single_step(st0, t@));
            }
        },
        FlagKind::Interactive => {
            cur.force_repl = true;
            proof {
                reveal(single_step);
                assert(ParseState { req: cur@, errors: errors@ } == single_step(st0, t@));
            }
        },
        FlagKind::TestFlag => {
            cur.is_test_run = true;
            proof {
                reveal(single_step);
                assert(ParseState { req: cur@, errors: errors@ } == single_step(st0, t@));
            }
        },
        FlagKind::WatchFlag => {
            cur.watch_mode = true;
            proof {
                reveal(single_step);
                assert(ParseState { req: cur@, errors: errors@ } == single_step(st0, t@));
            }
        },
        FlagKind::SystemCa => {
            cur.use_system_ca = true;
            proof {
                reveal(single_step);
                assert(ParseState { req: cur@, errors: errors@ } == single_step(st0, t@));
            }
        },
        FlagKind::OpensslCa => {
            cur.use_openssl_ca = true;
            proof {
                reveal(single_step);
                assert(ParseState { req: cur@, errors: errors@ } == single_step(st0, t@));
            }
        },
        FlagKind::Inspect => {
            cur.inspector_enabled = true;
            cur.break_on_first_line = false;
            proof {
                reveal(single_step);
                assert(ParseState { req: cur@, errors: errors@ } == single_step(st0, t@));
            }
        },
        FlagKind::InspectBrk => {
            cur.inspector_enabled = true;
            cur.break_on_first_line = true;
            proof {
                reveal(single_step);
                assert(ParseState { req: cur@, errors: errors@ } == single_step(st0, t@));
            }
        },
        FlagKind::EnvFile => {
            cur.has_env_file = true;
            cur.env_file = String::new();
            proof {
                reveal(single_step);
                assert(ParseState { req: cur@, errors: errors@ } == single_step(st0, t@));
            }
        },
        _ => {
            proof {
                assert(false);
            }
        },
    }
}

/// Applies a flag that carries an attached value, forwards an engine flag,
/// or records an unknown one.
#[verifier::rlimit(100)]
fn exec_single_valued(cur: &mut ParsedRequest, errs: &mut Vec<String>, t: &str, k: FlagKind)
    requires
        k == classify(t@),
        ({
            ||| k is InspectEq
            ||| k is InspectBrkEq
            ||| k is EvalEq
            ||| k is PrintEq
            ||| k is RunEq
            ||| k is ConditionsEq
            ||| k is WatchPathEq
            ||| k is EnvFileEq
            ||| k is Engine
            ||| k is Unknown
        }),
    ensures
        (ParseState { req: final(cur)@, errors: views(final(errs)@) } == single_step(
            ParseState { req: old(cur)@, errors: views(old(errs)@) },
            t@,
        )),
{
    let ghost st0 = ParseState { req: cur@, errors: views(errs@) };
    match k {
        FlagKind::InspectEq => {
            proof {
                lemma_classify_prefix(t@);
            }
            let plen: usize = "--inspect=".unicode_len();
            let v = tail_from(t, plen);
            exec_apply_inspect(cur, errs, v.as_str(), false, t);
            proof {
                reveal(single_step);
                assert(ParseState { req: cur@, errors: views(errs@) } == single_step(st0, t@));
            }
        },
        FlagKind::InspectBrkEq => {
            proof {
                lemma_classify_prefix(t@);
            }
            let plen: usize = "--inspect-brk=".unicode_len();
            let v = tail_from(t, plen);
            exec_apply_inspect(cur, errs, v.as_str(), true, t);
            proof {
                reveal(single_step);
                assert(ParseState { req: cur@, errors: views(errs@) } == single_step(st0, t@));
            }
        },
        FlagKind::EvalEq => {
            proof {
                lemma_classify_prefix(t@);
            }
            let plen: usize = "--eval=".unicode_len();
            cur.has_eval_string = true;
            cur.eval_string = tail_from(t, plen);
            proof {
                reveal(single_step);
                assert(ParseState { req: cur@, errors: views(errs@) } == single_step(st0, t@));
            }
        },
        FlagKind::PrintEq => {
            proof {
                lemma_classify_prefix(t@);
            }
            let plen: usize = "--print=".unicode_len();
            cur.has_eval_string = true;
            cur.eval_string = tail_from(t, plen);
            cur.print_eval_result = true;
            proof {
                reveal(single_step);
                assert(ParseState { req: cur@, errors: views(errs@) } == single_step(st0, t@));
            }
        },
        FlagKind::RunEq => {
            proof {
                lemma_classify_prefix(t@);
            }
            let plen: usize = "--run=".unicode_len();
            cur.run_task = tail_from(t, plen);
            proof {
                reveal(single_step);
                assert(ParseState { req: cur@, errors: views(errs@) } == single_step(st0, t@));
            }
        },
        FlagKind::ConditionsEq => {
            proof {
                lemma_classify_prefix(t@);
            }
            let plen: usize = "--conditions=".unicode_len();
            let v = tail_from(t, plen);
            proof {
                lemma_views_push(cur.conditions@, v);
            }
            cur.conditions.push(v);
            proof {
                reveal(single_step);
                assert(ParseState { req: cur@, errors: views(errs@) } == single_step(st0, t@));
            }
        },
        FlagKind::WatchPathEq => {
            proof {
                lemma_classify_prefix(t@);
            }
            let plen: usize = "--watch-path=".unicode_len();
            let v = tail_from(t, plen);
            cur.watch_mode = true;
            proof {
                lemma_views_push(cur.watch_paths@, v);
            }
            cur.watch_paths.push(v);
            proof {
                reveal(single_step);
                assert(ParseState { req: cur@, errors: views(errs@) } == single_step(st0, t@));
            }
        },
        FlagKind::EnvFileEq => {
            proof {
                lemma_classify_prefix(t@);
            }
            let plen: usize = "--env-file=".unicode_len();
            cur.has_env_file = true;
            cur.env_file = tail_from(t, plen);
            proof {
                reveal(single_step);
                assert(ParseState { req: cur@, errors: views(errs@) } == single_step(st0, t@));
            }
        },
        FlagKind::Engine => {
            let raw = String::from_str(t);
            proof {
                lemma_views_push(cur.engine_args@, raw);
            }
            cur.engine_args.push(raw);
            proof {
                reveal(single_step);
                assert(ParseState { req: cur@, errors: views(errs@) } == single_step(st0, t@));
            }
        },
        FlagKind::Unknown => {
            let msg = String::from_str("unknown flag: ").concat(t);
            proof {
                lemma_views_push(errs@, msg);
            }
            errs.push(msg);
            proof {
                reveal(single_step);
                assert(ParseState { req: cur@, errors: views(errs@) } == single_step(st0, t@));
            }
        },
        _ => {
            proof {
                assert(false);
            }
        },
    }
}

/// Applies a flag together with its separate value token.
#[verifier::rlimit(100)]
fn exec_apply_value_flag(cur: &mut ParsedRequest, t: &str, v: String)
    ensures
        final(cur)@ == apply_value_flag(old(cur)@, t@, v@),
{
    let ghost r0 = cur@;
    let ghost vv = v@;
    match classify_value_exec(t) {
        ValueFlagKind::EvalFlag => {
            cur.has_eval_string = true;
            cur.eval_string = v;
            proof {
                reveal(apply_value_flag);
                assert(cur@ == apply_value_flag(r0, t@, vv));
            }
        },
        ValueFlagKind::PrintFlag => {
            cur.has_eval_string = true;
            cur.eval_string = v;
            cur.print_eval_result = true;
            proof {
                reveal(apply_value_flag);
                assert(cur@ == apply_value_flag(r0, t@, vv));
            }
        },
        ValueFlagKind::RunFlag => {
            cur.run_task = v;
            proof {
                reveal(apply_value_flag);
                assert(cur@ == apply_value_flag(r0, t@, vv));
            }
        },
        ValueFlagKind::ConditionsFlag => {
            proof {
                lemma_views_push(cur.conditions@, v);
            }
            cur.conditions.push(v);
            proof {
                reveal(apply_value_flag);
                assert(cur@ == apply_value_flag(r0, t@, vv));
            }
        },
        ValueFlagKind::WatchPathFlag => {
            cur.watch_mode = true;
            proof {
                lemma_views_push(cur.watch_paths@, v);
            }
            cur.watch_paths.push(v);
            proof {
                reveal(apply_value_flag);
                assert(cur@ == apply_value_flag(r0, t@, vv));
            }
        },
    }
}

/// Handles a value-taking flag at position `i` and returns the next position.
#[verifier::rlimit(100)]
fn parse_valued_step(cur: &mut ParsedRequest, errs: &mut Vec<String>, args: &Vec<String>, i: usize) -> (ni: usize)
    requires
        i < args@.len(),
        views(args@)[i as int] != "--"@,
        is_flag_token(views(args@)[i as int]),
        takes_separate_value(views(args@)[i as int]),
    ensures
        i < ni <= args@.len(),
        (spec_parse_rec(
            ParseState { req: final(cur)@, errors: views(final(errs)@) },
            views(args@),
            ni as int,
        ) == spec_parse_rec(
            ParseState { req: old(cur)@, errors: views(old(errs)@) },
            views(args@),
            i as int,
        )),
{
    let ghost toks = views(args@);
    let ghost st0 = ParseState { req: cur@, errors: views(errs@) };
    proof {
        assert(toks[i as int] == args@[i as int]@);
    }
    let n: usize = args.len();
    if i + 1 < n {
        let v = args[i + 1].clone();
        let t = args[i].clone();
        proof {
            assert(toks[i + 1] == args@[i + 1]@);
        }
        exec_apply_value_flag(cur, t.as_str(), v);
        proof {
            let stv = ParseState {
                req: apply_value_flag(st0.req, toks[i as int], toks[i + 1]),
                errors: st0.errors,
            };
            assert(ParseState { req: cur@, errors: views(errs@) } == stv);
            lemma_step_valued(st0, toks, i as int);
        }
        i + 2
    } else {
        let msg = String::from_str("missing value for ").concat(args[i].as_str());
        proof {
            lemma_views_push(errs@, msg);
        }
        errs.push(msg);
        proof {
            let stm = ParseState {
                req: st0.req,
                errors: st0.errors.push(msg_missing(toks[i as int])),
            };
            assert(ParseState { req: cur@, errors: views(errs@) } == stm);
            lemma_step_missing(st0, toks, i as int);
        }
        i + 1
    }
}

/// Handles the boundary token at position `i`: the rest of the tokens become
/// the script's own arguments and the scan is over.
#[verifier::rlimit(100)]
fn parse_boundary_step(
    cur: &mut ParsedRequest,
    args: &Vec<String>,
    i: usize,
    sep: bool,
    errors: Ghost<Seq<Seq<char>>>,
) -> (ni: usize)
    requires
        i < args@.len(),
        sep ==> views(args@)[i as int] == "--"@,
        !sep ==> views(args@)[i as int] != "--"@ && !is_flag_token(views(args@)[i as int]),
    ensures
        ni == args@.len(),
        (spec_parse_rec(
            ParseState { req: final(cur)@, errors: errors@ },
            views(args@),
            ni as int,
        ) == spec_parse_rec(
            ParseState { req: old(cur)@, errors: errors@ },
            views(args@),
            i as int,
        )),
{
    let ghost toks = views(args@);
    let ghost st0 = ParseState { req: cur@, errors: errors@ };
    let n: usize = args.len();
    if sep {
        let rest = clone_tail(args, i + 1);
        cur.remaining_args = rest;
        proof {
            lemma_step_boundary_sep(st0, toks, i as int);
            assert(ParseState { req: cur@, errors: errors@ } == spec_parse_rec(
                st0,
                toks,
                i as int,
            ));
            lemma_parse_rec_done(ParseState { req: cur@, errors: errors@ }, toks, n as int);
        }
    } else {
        let rest = clone_tail(args, i);
        cur.remaining_args = rest;
        proof {
            lemma_step_boundary_script(st0, toks, i as int);
            assert(ParseState { req: cur@, errors: errors@ } == spec_parse_rec(
                st0,
                toks,
                i as int,
            ));
            lemma_parse_rec_done(ParseState { req: cur@, errors: errors@ }, toks, n as int);
        }
    }
    n
}

/// Handles the token at position `i` and returns the next scan position.
#[verifier::rlimit(100)]
fn parse_step(cur: &mut ParsedRequest, errs: &mut Vec<String>, args: &Vec<String>, i: usize) -> (ni: usize)
    requires
        i < args@.len(),
    ensures
        i < ni <= args@.len(),
        (spec_parse_rec(
            ParseState { req: final(cur)@, errors: views(final(errs)@) },
            views(args@),
            ni as int,
        ) == spec_parse_rec(
            ParseState { req: old(cur)@, errors: views(old(errs)@) },
            views(args@),
            i as int,
        )),
{
    let ghost toks = views(args@);
    let ghost st0 = ParseState { req: cur@, errors: views(errs@) };
    proof {
        assert(toks[i as int] == args@[i as int]@);
    }
    let n: usize = args.len();
    let tlen: usize = args[i].unicode_len();
    let flag_form = tlen >= 2 && args[i].as_str().get_char(0) == '-';
    if str_eq(args[i].as_str(), "--") {
        parse_boundary_step(cur, args, i, true, Ghost(views(errs@)))
    } else if !flag_form {
        parse_boundary_step(cur, args, i, false, Ghost(views(errs@)))
    } else if takes_separate_value_exec(args[i].as_str()) {
        parse_valued_step(cur, errs, args, i)
    } else {
        let t = args[i].clone();
        exec_single_step(cur, errs, t.as_str());
        proof {
            assert(ParseState { req: cur@, errors: views(errs@) } == single_step(
                st0,
                toks[i as int],
            ));
            lemma_step_single(st0, toks, i as int);
        }
        i + 1
    }
}

/// Parses the raw argument tokens (program name already stripped).
///
/// Returns the structured request exactly when the scan collected no error,
/// and the full error list, in scan order, otherwise.
#[verifier::rlimit(100)]
pub fn parse_args(args: Vec<String>) -> (r: Result<ParsedRequest, Vec<String>>)
    ensures
        (spec_parse(views(args@)).errors.len() == 0 ==> (r matches Ok(req) && req@ == spec_parse(
            views(args@),
        ).req)),
        (spec_parse(views(args@)).errors.len() > 0 ==> (r matches Err(es) && views(es@)
            == spec_parse(views(args@)).errors)),
{
    let ghost toks = views(args@);
    let mut cur = empty_request();
    let mut errs: Vec<String> = Vec::new();
    proof {
        assert(views(errs@) =~= Seq::<Seq<char>>::empty());
        assert(ParseState { req: cur@, errors: views(errs@) } == initial_state());
    }
    let n: usize = args.len();
    let mut i: usize = 0;
    while i < n
        invariant
            n == args@.len(),
            i <= n,
            toks == views(args@),
            spec_parse_rec(ParseState { req: cur@, errors: views(errs@) }, toks, i as int)
                == spec_parse(toks),
        decreases n - i,
    {
        let ni = parse_step(&mut cur, &mut errs, &args, i);
        i = ni;
    }
    proof {
        lemma_parse_rec_done(ParseState { req: cur@, errors: views(errs@) }, toks, i as int);
    }
    if errs.len() == 0 {
        proof {
            assert(views(errs@) =~= Seq::<Seq<char>>::empty());
        }
        Ok(cur)
    } else {
        proof {
            assert(views(errs@).len() == errs@.len());
        }
        Err(errs)
    }
}

} // verus!
