//! The command line of the benchmark driver:
//! `<program> <concur_num> <command> [<regex>]`.

use vstd::prelude::*;
use crate::number::{parse_usize, spec_parse_usize};
use crate::text::chars_of;

verus! {

/// The duration pattern used when the command line gives none.
pub open spec fn default_pattern() -> Seq<char> {
    "\"total_dur\\(ms\\)\": ([\\d.]+)"@
}

/// Why the command line was refused.
#[derive(Debug, Clone, Copy, PartialEq, Eq, Structural)]
pub enum CliError {
    /// No concurrency was given (fewer than two arguments): print the usage.
    MissingArguments,
    /// The concurrency does not read as a `usize`.
    InvalidConcurrency,
}

/// What the command line asks for.
pub struct BenchArgs {
    /// Requests per second, and the capacity of the result channel.
    pub concur_num: usize,
    /// The duration pattern.
    pub pattern: String,
}

/// Reads the arguments (the program's own name first): the concurrency from
/// the second, the duration pattern from the fourth if there is one.
pub fn parse_bench_args(args: &Vec<String>) -> (res: Result<BenchArgs, CliError>)
    ensures
        args.len() < 2 ==> res == Err::<BenchArgs, CliError>(CliError::MissingArguments),
        args.len() >= 2 ==> match spec_parse_usize(args@[1]@) {
            None => res == Err::<BenchArgs, CliError>(CliError::InvalidConcurrency),
            Some(n) => res matches Ok(b) && b.concur_num == n && b.pattern@ == (if args.len() > 3 {
                args@[3]@
            } else {
                default_pattern()
            }),
        },
{
    if args.len() < 2 {
        return Err(CliError::MissingArguments);
    }
    let cs = chars_of(args[1].as_str());
    let concur_num = match parse_usize(cs.as_slice()) {
        Some(n) => n,
        None => return Err(CliError::InvalidConcurrency),
    };
    let pattern = if args.len() > 3 {
        args[3].clone()
    } else {
        "\"total_dur\\(ms\\)\": ([\\d.]+)".to_owned()
    };
    Ok(BenchArgs { concur_num, pattern })
}

/// The number of requests a run issues for concurrency `concur_num`:
/// ten per unit of concurrency, and one more.
pub fn total_task_num(concur_num: usize) -> (n: usize)
    requires
        concur_num * 10 + 1 <= usize::MAX,
    ensures
        n == concur_num * 10 + 1,
{
    concur_num * 10 + 1
}

} // verus!
