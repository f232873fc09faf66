//! The laws this library promises, stated over the same spec functions that
//! the parser's and translator's contracts use, and proved by Verus.

use vstd::prelude::*;
use crate::request::ReqView;
use crate::parser::{
    ParseState, spec_parse, initial_state, is_flag_token, lemma_step_boundary_script,
    lemma_parse_rec_done,
};
use crate::translator::{
    Mode, mode_of, spec_args, compat_flags, eval_prefix, watch_part, conditions_part,
    env_file_part, engine_part, inspect_part, spec_conditions_token, spec_watch_token,
};
use crate::strutil::{spec_join, escaped_views};

verus! {

/// Help wins over everything: a request that asks for help resolves to help
/// mode, whatever else it carries (in particular a version request).
pub proof fn lemma_help_precedes_version(r: ReqView)
    requires
        r.print_help,
    ensures
        mode_of(r) == Mode::Help,
{
}

/// Version wins over the test runner: a request carrying both a version
/// request and a test-run request resolves to version mode.
pub proof fn lemma_version_precedes_test(r: ReqView)
    requires
        r.print_version,
        r.is_test_run,
        !r.print_help,
    ensures
        mode_of(r) == Mode::Version,
{
}

/// In eval mode the code string stands immediately before the separator
/// token, and the remaining arguments follow it unchanged and in order.
pub proof fn lemma_eval_string_before_separator(r: ReqView)
    requires
        mode_of(r) == Mode::Eval,
    ensures
        spec_args(r) == eval_prefix(r) + seq![r.eval_string, "--"@] + r.remaining_args,
        spec_args(r).len() == eval_prefix(r).len() + 2 + r.remaining_args.len(),
        spec_args(r)[eval_prefix(r).len() as int] == r.eval_string,
        spec_args(r)[(eval_prefix(r).len() + 1) as int] == "--"@,
{
    let a = spec_args(r);
    let p = eval_prefix(r);
    assert(a[p.len() as int] == (seq![r.eval_string, "--"@] + r.remaining_args)[0]);
    assert(a[(p.len() + 1) as int] == (seq![r.eval_string, "--"@] + r.remaining_args)[1]);
}

/// A single script path and nothing else parses without error and translates
/// to the default script-run invocation: the full fixed compatibility-flag
/// set in its fixed order, followed by the path.
pub proof fn lemma_single_script_runs(tok: Seq<char>)
    requires
        !is_flag_token(tok),
    ensures
        spec_parse(seq![tok]).errors.len() == 0,
        mode_of(spec_parse(seq![tok]).req) == Mode::Run,
        spec_args(spec_parse(seq![tok]).req) == seq!["node"@, "run"@, "-A"@] + compat_flags()
            + seq![tok],
{
    let toks = seq![tok];
    reveal_strlit("--");
    assert(tok != "--"@) by {
        if tok == "--"@ {
            assert(tok.len() == 2 && tok[0] == '-');
        }
    }
    lemma_step_boundary_script(initial_state(), toks, 0);
    let st = ParseState {
        req: ReqView { remaining_args: toks.skip(0), ..initial_state().req },
        errors: initial_state().errors,
    };
    assert(toks.skip(0) =~= toks);
    assert(spec_parse(toks) == st);
    let r = st.req;
    assert(mode_of(r) == Mode::Run);
    assert(watch_part(r) =~= Seq::<Seq<char>>::empty());
    assert(env_file_part(r) =~= Seq::<Seq<char>>::empty());
    assert(engine_part(r) =~= Seq::<Seq<char>>::empty());
    assert(conditions_part(r) =~= Seq::<Seq<char>>::empty());
    assert(inspect_part(r) =~= Seq::<Seq<char>>::empty());
    assert(spec_args(r) =~= seq!["node"@, "run"@, "-A"@] + compat_flags() + seq![tok]);
}

/// For any non-empty ordered list of condition names, the run-like and
/// interactive invocations carry one conditions flag whose value is the list
/// joined by commas in original order, with no deduplication; no other part
/// of the flag region is a conditions flag.
pub proof fn lemma_conditions_flag_joined(r: ReqView)
    requires
        r.conditions.len() > 0,
        mode_of(r) == Mode::Test || mode_of(r) == Mode::Run || mode_of(r) == Mode::Repl,
    ensures
        conditions_part(r) == seq![spec_conditions_token(r)],
        spec_conditions_token(r) == "--conditions="@ + spec_join(r.conditions),
        mode_of(r) == Mode::Repl ==> spec_args(r) == seq!["node"@, "repl"@, "-A"@]
            + engine_part(r) + seq![spec_conditions_token(r)] + inspect_part(r) + seq!["--"@]
            + r.remaining_args,
        mode_of(r) == Mode::Test ==> spec_args(r) == seq!["node"@, "test"@, "-A"@]
            + compat_flags() + watch_part(r) + env_file_part(r) + engine_part(r)
            + seq![spec_conditions_token(r)] + inspect_part(r) + r.remaining_args,
        mode_of(r) == Mode::Run ==> spec_args(r) == seq!["node"@, "run"@, "-A"@]
            + compat_flags() + watch_part(r) + env_file_part(r) + engine_part(r)
            + seq![spec_conditions_token(r)] + inspect_part(r) + r.remaining_args,
{
    assert(conditions_part(r) =~= seq![spec_conditions_token(r)]);
}

/// Watch paths are escaped per path, by doubling each literal comma, before
/// the escaped paths are joined with plain commas: the watch flag's value is
/// the join of the escaped paths, never the escape of the join.
pub proof fn lemma_watch_paths_escaped_before_join(r: ReqView)
    requires
        r.watch_mode,
        r.watch_paths.len() > 0,
        mode_of(r) == Mode::Test || mode_of(r) == Mode::Run,
    ensures
        watch_part(r) == seq![spec_watch_token(r)],
        spec_watch_token(r) == "--watch="@ + spec_join(escaped_views(r.watch_paths)),
        mode_of(r) == Mode::Test ==> spec_args(r) == seq!["node"@, "test"@, "-A"@]
            + compat_flags() + seq![spec_watch_token(r)] + env_file_part(r) + engine_part(r)
            + conditions_part(r) + inspect_part(r) + r.remaining_args,
        mode_of(r) == Mode::Run ==> spec_args(r) == seq!["node"@, "run"@, "-A"@]
            + compat_flags() + seq![spec_watch_token(r)] + env_file_part(r) + engine_part(r)
            + conditions_part(r) + inspect_part(r) + r.remaining_args,
{
    assert(watch_part(r) =~= seq![spec_watch_token(r)]);
}

} // verus!
