//! The structured result of parsing a command line: a flat, validated record
//! of everything the caller asked for, together with its mathematical view.

use vstd::prelude::*;
use vstd::string::*;
use crate::strutil::views;

verus! {

/// What the caller asked for, as parsed from the raw argument tokens.
///
/// The record may carry flags for several execution modes at once; resolving
/// the conflict between them is the translator's responsibility.
#[derive(Debug)]
pub struct ParsedRequest {
    /// Use the operating system's certificate trust store.
    pub use_system_ca: bool,
    /// Use the OpenSSL certificate trust store.
    pub use_openssl_ca: bool,
    /// Help requested.
    pub print_help: bool,
    /// Version requested.
    pub print_version: bool,
    /// The underlying engine's own help text requested.
    pub print_engine_help: bool,
    /// Name of a package script to run; empty means absent.
    pub run_task: String,
    /// Whether an inline code string was supplied.
    pub has_eval_string: bool,
    /// Inline code to evaluate.
    pub eval_string: String,
    /// Whether the eval result should be echoed.
    pub print_eval_result: bool,
    /// Whether an env-file flag was supplied (possibly without a path).
    pub has_env_file: bool,
    /// Path to the env file; empty means the default path.
    pub env_file: String,
    /// Force interactive mode even with other flags present.
    pub force_repl: bool,
    /// Module resolution condition names, in order, duplicates kept.
    pub conditions: Vec<String>,
    /// Invoke test-runner mode.
    pub is_test_run: bool,
    /// Enable file-watch restart.
    pub watch_mode: bool,
    /// Explicit paths to watch; empty means watch everything.
    pub watch_paths: Vec<String>,
    /// Attach a debugger/inspector.
    pub inspector_enabled: bool,
    /// Pause execution at entry when debugging.
    pub break_on_first_line: bool,
    /// Inspector bind address.
    pub debug_host: String,
    /// Inspector bind port.
    pub debug_port: u16,
    /// Everything after the recognized flag region, verbatim and in order.
    pub remaining_args: Vec<String>,
    /// Raw flags destined for the underlying execution engine, in order.
    pub engine_args: Vec<String>,
}

/// The mathematical view of a [`ParsedRequest`]: strings become character
/// sequences, string lists become sequences of character sequences.
pub struct ReqView {
    pub use_system_ca: bool,
    pub use_openssl_ca: bool,
    pub print_help: bool,
    pub print_version: bool,
    pub print_engine_help: bool,
    pub run_task: Seq<char>,
    pub has_eval_string: bool,
    pub eval_string: Seq<char>,
    pub print_eval_result: bool,
    pub has_env_file: bool,
    pub env_file: Seq<char>,
    pub force_repl: bool,
    pub conditions: Seq<Seq<char>>,
    pub is_test_run: bool,
    pub watch_mode: bool,
    pub watch_paths: Seq<Seq<char>>,
    pub inspector_enabled: bool,
    pub break_on_first_line: bool,
    pub debug_host: Seq<char>,
    pub debug_port: int,
    pub remaining_args: Seq<Seq<char>>,
    pub engine_args: Seq<Seq<char>>,
}

impl View for ParsedRequest {
    type V = ReqView;

    open spec fn view(&self) -> ReqView {
        ReqView {
            use_system_ca: self.use_system_ca,
            use_openssl_ca: self.use_openssl_ca,
            print_help: self.print_help,
            print_version: self.print_version,
            print_engine_help: self.print_engine_help,
            run_task: self.run_task@,
            has_eval_string: self.has_eval_string,
            eval_string: self.eval_string@,
            print_eval_result: self.print_eval_result,
            has_env_file: self.has_env_file,
            env_file: self.env_file@,
            force_repl: self.force_repl,
            conditions: views(self.conditions@),
            is_test_run: self.is_test_run,
            watch_mode: self.watch_mode,
            watch_paths: views(self.watch_paths@),
            inspector_enabled: self.inspector_enabled,
            break_on_first_line: self.break_on_first_line,
            debug_host: self.debug_host@,
            debug_port: self.debug_port as int,
            remaining_args: views(self.remaining_args@),
            engine_args: views(self.engine_args@),
        }
    }
}

/// The request before any flag has been seen: everything off or empty, and
/// the inspector bound to its default address.
pub open spec fn spec_empty_request() -> ReqView {
    ReqView {
        use_system_ca: false,
        use_openssl_ca: false,
        print_help: false,
        print_version: false,
        print_engine_help: false,
        run_task: Seq::empty(),
        has_eval_string: false,
        eval_string: Seq::empty(),
        print_eval_result: false,
        has_env_file: false,
        env_file: Seq::empty(),
        force_repl: false,
        conditions: Seq::empty(),
        is_test_run: false,
        watch_mode: false,
        watch_paths: Seq::empty(),
        inspector_enabled: false,
        break_on_first_line: false,
        debug_host: "127.0.0.1"@,
        debug_port: 9229,
        remaining_args: Seq::empty(),
        engine_args: Seq::empty(),
    }
}

/// Builds the request all parsing starts from.
pub fn empty_request() -> (r: ParsedRequest)
    ensures
        r@ == spec_empty_request(),
{
    let r = ParsedRequest {
        use_system_ca: false,
        use_openssl_ca: false,
        print_help: false,
        print_version: false,
        print_engine_help: false,
        run_task: String::new(),
        has_eval_string: false,
        eval_string: String::new(),
        print_eval_result: false,
        has_env_file: false,
        env_file: String::new(),
        force_repl: false,
        conditions: Vec::new(),
        is_test_run: false,
        watch_mode: false,
        watch_paths: Vec::new(),
        inspector_enabled: false,
        break_on_first_line: false,
        debug_host: String::from_str("127.0.0.1"),
        debug_port: 9229,
        remaining_args: Vec::new(),
        engine_args: Vec::new(),
    };
    proof {
        assert(views(Seq::<String>::empty()) =~= Seq::<Seq<char>>::empty());
        assert(r@ == spec_empty_request());
    }
    r
}

} // verus!
