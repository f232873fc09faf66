//! End-to-end tests: raw argument lists through the parser and translator,
//! against the exact expected target invocations.

use node_shim::parser::parse_args;
use node_shim::translator::{translate, resolve_mode, Mode};

fn svec(xs: &[&str]) -> Vec<String> {
    xs.iter().map(|s| s.to_string()).collect()
}

fn run(input: &[&str]) -> Vec<String> {
    let parsed = parse_args(svec(input)).unwrap();
    translate(&parsed).args
}

#[test]
fn test_repl_no_args() {
    assert_eq!(run(&[]), svec(&["node", "repl", "-A", "--"]));
}

#[test]
fn test_run_script() {
    assert_eq!(
        run(&["foo.js"]),
        svec(&[
            "node",
            "run",
            "-A",
            "--unstable-node-globals",
            "--unstable-bare-node-builtins",
            "--unstable-detect-cjs",
            "--node-modules-dir=manual",
            "--no-config",
            "foo.js"
        ])
    );
}

#[test]
fn test_eval_literal_before_separator() {
    assert_eq!(
        run(&["-e", "console.log(1)", "x.js", "extra"]),
        svec(&[
            "node",
            "eval",
            "-A",
            "--unstable-node-globals",
            "--unstable-bare-node-builtins",
            "--unstable-detect-cjs",
            "--node-modules-dir=manual",
            "--no-config",
            "console.log(1)",
            "--",
            "x.js",
            "extra"
        ])
    );
}

#[test]
fn test_eval_attached_and_print() {
    let out = run(&["--print=1+1"]);
    assert_eq!(out[1], "eval");
    assert!(out.contains(&"--print".to_string()));
    let k = out.iter().position(|s| s == "1+1").unwrap();
    assert_eq!(out[k + 1], "--");
}

#[test]
fn test_conditions_joined_once_in_order() {
    let out = run(&["-C", "dev", "-C", "dev", "--conditions", "prod", "app.js"]);
    let hits: Vec<&String> = out.iter().filter(|s| s.starts_with("--conditions=")).collect();
    assert_eq!(hits.len(), 1);
    assert_eq!(hits[0], "--conditions=dev,dev,prod");
}

#[test]
fn test_watch_comma_escaped_per_path() {
    let out = run(&["--watch-path", "a,b", "--watch-path", "c", "app.js"]);
    assert!(out.contains(&"--watch=a,,b,c".to_string()));
}

#[test]
fn test_watch_bare() {
    let out = run(&["--watch", "app.js"]);
    assert!(out.contains(&"--watch".to_string()));
}

#[test]
fn test_ca_store_env_any_mode() {
    let parsed = parse_args(svec(&["--use-system-ca", "app.js"])).unwrap();
    let out = translate(&parsed);
    let pair = out.env.unwrap();
    assert_eq!(pair.name, "DENO_TLS_CA_STORE");
    assert_eq!(pair.value, "system");

    let parsed = parse_args(svec(&["--use-openssl-ca", "-v"])).unwrap();
    let out = translate(&parsed);
    assert_eq!(out.args, svec(&["node", "--version"]));
    let pair = out.env.unwrap();
    assert_eq!(pair.name, "DENO_TLS_CA_STORE");
    assert_eq!(pair.value, "system");

    let parsed = parse_args(svec(&["app.js"])).unwrap();
    assert!(translate(&parsed).env.is_none());
}

#[test]
fn test_version_beats_test_runner() {
    assert_eq!(run(&["-v", "--test"]), svec(&["node", "--version"]));
}

#[test]
fn test_help_beats_version() {
    let parsed = parse_args(svec(&["-h", "-v"])).unwrap();
    assert_eq!(resolve_mode(&parsed), Mode::Help);
    assert!(translate(&parsed).args.is_empty());
}

#[test]
fn test_two_malformed_flags_both_reported() {
    let errs = parse_args(svec(&["--bogus", "--wrong", "app.js"])).unwrap_err();
    assert_eq!(
        errs,
        svec(&["unknown flag: --bogus", "unknown flag: --wrong"])
    );
}

#[test]
fn test_missing_value_reported() {
    let errs = parse_args(svec(&["-e"])).unwrap_err();
    assert_eq!(errs, svec(&["missing value for -e"]));
}

#[test]
fn test_invalid_inspector_port_reported() {
    let errs = parse_args(svec(&["--inspect=host:99999999", "x.js"])).unwrap_err();
    assert_eq!(errs, svec(&["invalid inspector port: --inspect=host:99999999"]));
}

#[test]
fn test_inspect_defaults_and_explicit() {
    let out = run(&["--inspect", "app.js"]);
    assert!(out.contains(&"--inspect=127.0.0.1:9229".to_string()));

    let out = run(&["--inspect-brk=1.2.3.4:9230", "app.js"]);
    assert!(out.contains(&"--inspect-brk=1.2.3.4:9230".to_string()));

    let out = run(&["--inspect=9230", "app.js"]);
    assert!(out.contains(&"--inspect=127.0.0.1:9230".to_string()));
}

#[test]
fn test_task_mode_appends_remaining() {
    assert_eq!(
        run(&["--run", "build", "alpha", "beta"]),
        svec(&["node", "task", "build", "alpha", "beta"])
    );
}

#[test]
fn test_engine_flags_joined() {
    let out = run(&["--stack-size=500", "--expose-gc", "app.js"]);
    assert!(out.contains(&"--v8-flags=--stack-size=500,--expose-gc".to_string()));
}

#[test]
fn test_engine_help() {
    assert_eq!(run(&["--v8-options"]), svec(&["node", "run", "--v8-flags=--help"]));
}

#[test]
fn test_env_file_forms() {
    let out = run(&["--env-file", "x.js"]);
    assert!(out.contains(&"--env-file".to_string()));
    let out = run(&["--env-file=.env", "x.js"]);
    assert!(out.contains(&"--env-file=.env".to_string()));
}

#[test]
fn test_double_dash_boundary() {
    let out = run(&["--", "--test"]);
    assert_eq!(*out.last().unwrap(), "--test".to_string());
    assert_eq!(out[1], "run");
}

#[test]
fn test_forced_repl_with_script() {
    let out = run(&["-i", "app.js"]);
    assert_eq!(out[1], "repl");
    assert_eq!(*out.last().unwrap(), "app.js".to_string());
}

#[test]
fn test_flags_after_script_forwarded() {
    let out = run(&["app.js", "--test", "-v"]);
    assert_eq!(out[1], "run");
    let n = out.len();
    assert_eq!(out[n - 3], "app.js");
    assert_eq!(out[n - 2], "--test");
    assert_eq!(out[n - 1], "-v");
}
