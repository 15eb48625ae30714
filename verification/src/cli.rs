//! Start-up options: command-line flags over the defaults kept in the
//! configuration file.
use vstd::prelude::*;
use vstd::string::*;
use crate::config::CliConfig;
use crate::text::{owned, str_eq, views};

verus! {

/// Options the application starts with.
#[derive(Clone, Debug, Default)]
pub struct CliArgs {
    /// Post to Discord and store posts (`--no-post` turns this off).
    pub post_enabled: bool,
    /// Also log to a console.
    pub console: bool,
    /// Run the pipeline once and exit instead of scheduling.
    pub run_once: bool,
    /// The topic a single run is limited to.
    pub topic_filter: Option<String>,
    /// Skip the run at start-up.
    pub no_initial_run: bool,
    /// The configuration file.
    pub config_path: Option<String>,
    /// Debug-level logging.
    pub verbose: bool,
}

/// Index of the first argument equal to `a`.
pub open spec fn arg_index(args: Seq<Seq<char>>, a: Seq<char>, i: int) -> Option<int>
    decreases args.len() - i,
{
    if i < 0 || i >= args.len() {
        None
    } else if args[i] == a {
        Some(i)
    } else {
        arg_index(args, a, i + 1)
    }
}

proof fn lemma_arg_index_range(args: Seq<Seq<char>>, a: Seq<char>, i: int)
    ensures
        arg_index(args, a, i) matches Some(j) ==> i <= j < args.len() && args[j] == a,
    decreases args.len() - i,
{
    if 0 <= i < args.len() && args[i] != a {
        lemma_arg_index_range(args, a, i + 1);
    }
}

/// The argument right after the first `flag`, when there is one.
pub open spec fn arg_after(args: Seq<Seq<char>>, flag: Seq<char>) -> Option<Seq<char>> {
    match arg_index(args, flag, 0) {
        Some(i) => if i + 1 < args.len() { Some(args[i + 1]) } else { None },
        None => None,
    }
}

/// Whether the flag is given.
pub open spec fn has_flag(args: Seq<Seq<char>>, flag: Seq<char>) -> bool {
    arg_index(args, flag, 0) is Some
}

fn arg_index_exec(args: &Vec<String>, a: &str) -> (r: Option<usize>)
    ensures
        match arg_index(views(args@), a@, 0) {
            Some(i) => r == Some(i as usize),
            None => r is None,
        },
        r matches Some(j) ==> j < args.len(),
{
    let mut i: usize = 0;
    while i < args.len()
        invariant
            i <= args@.len(),
            arg_index(views(args@), a@, i as int) == arg_index(views(args@), a@, 0),
        decreases args@.len() - i,
    {
        if str_eq(args[i].as_str(), a) {
            return Some(i);
        }
        i += 1;
    }
    None
}

fn has_flag_exec(args: &Vec<String>, flag: &str) -> (r: bool)
    ensures
        r == has_flag(views(args@), flag@),
{
    arg_index_exec(args, flag).is_some()
}

fn arg_after_exec(args: &Vec<String>, flag: &str) -> (r: Option<String>)
    ensures
        match arg_after(views(args@), flag@) {
            Some(v) => r matches Some(s) && s@ == v,
            None => r is None,
        },
{
    match arg_index_exec(args, flag) {
        Some(i) => {
            if i + 1 < args.len() {
                proof {
                    lemma_arg_index_range(views(args@), flag@, 0);
                    assert(views(args@).len() == args@.len());
                    assert(views(args@)[i + 1] == args@[i + 1]@);
                }
                Some(owned(args[i + 1].as_str()))
            } else {
                proof {
                    lemma_arg_index_range(views(args@), flag@, 0);
                    assert(views(args@).len() == args@.len());
                }
                None
            }
        },
        None => None,
    }
}

/// The configuration file named on the command line (`--config <path>`).
pub fn config_path_arg(args: &Vec<String>) -> (r: Option<String>)
    ensures
        match arg_after(views(args@), "--config"@) {
            Some(v) => r matches Some(s) && s@ == v,
            None => r is None,
        },
{
    arg_after_exec(args, "--config")
}

/// The start-up options: each flag given on the command line wins over the
/// configuration file's default. `--no-post` / `--post` set posting,
/// `--console` / `--no-console` the console, `--run-once` / `--scheduler` a
/// single run, `--topic <name>` its topic (else a non-empty file default),
/// `--no-run` skips the start-up run, `--verbose` or `--debug` raise the
/// log level.
pub fn resolve_cli_args(args: &Vec<String>, defaults: &CliConfig, config_path: Option<String>) -> (r: CliArgs)
    ensures
        r.post_enabled == if has_flag(views(args@), "--no-post"@) { false }
            else if has_flag(views(args@), "--post"@) { true } else { !defaults.no_post },
        r.console == if has_flag(views(args@), "--console"@) { true }
            else if has_flag(views(args@), "--no-console"@) { false } else { defaults.console },
        r.run_once == if has_flag(views(args@), "--run-once"@) { true }
            else if has_flag(views(args@), "--scheduler"@) { false } else { defaults.run_once },
        match arg_after(views(args@), "--topic"@) {
            Some(t) => r.topic_filter matches Some(s) && s@ == t,
            None => match defaults.topic {
                Some(d) if d@.len() > 0 => r.topic_filter matches Some(s) && s@ == d@,
                _ => r.topic_filter is None,
            },
        },
        r.no_initial_run == (has_flag(views(args@), "--no-run"@) || defaults.no_run),
        r.config_path == config_path,
        r.verbose == (has_flag(views(args@), "--verbose"@) || has_flag(views(args@), "--debug"@) || defaults.verbose),
{
    let post_enabled = if has_flag_exec(args, "--no-post") {
        false
    } else if has_flag_exec(args, "--post") {
        true
    } else {
        !defaults.no_post
    };
    let console = if has_flag_exec(args, "--console") {
        true
    } else if has_flag_exec(args, "--no-console") {
        false
    } else {
        defaults.console
    };
    let run_once = if has_flag_exec(args, "--run-once") {
        true
    } else if has_flag_exec(args, "--scheduler") {
        false
    } else {
        defaults.run_once
    };
    let topic_filter = match arg_after_exec(args, "--topic") {
        Some(t) => Some(t),
        None => match &defaults.topic {
            Some(d) => if d.as_str().is_empty() { None } else { Some(d.clone()) },
            None => None,
        },
    };
    let no_initial_run = if has_flag_exec(args, "--no-run") { true } else { defaults.no_run };
    let verbose = if has_flag_exec(args, "--verbose") || has_flag_exec(args, "--debug") {
        true
    } else {
        defaults.verbose
    };
    CliArgs { post_enabled, console, run_once, topic_filter, no_initial_run, config_path, verbose }
}

} // verus!
