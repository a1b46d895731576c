//! Aggregating a bulk command run: splitting the extra arguments, deciding
//! the parallelism, and folding the per-project outcomes into a single
//! result.

use vstd::prelude::*;

use crate::commands::{spec_excl_owned, spec_filter_excluded};
use crate::data::{Project, WashError};
use crate::text::{spec_dec, spec_split, split_str, u64_to_string};

verus! {

/// How many of the outcomes are the wanted one.
pub open spec fn spec_count(outcomes: Seq<bool>, want: bool) -> int
    decreases outcomes.len(),
{
    if outcomes.len() == 0 {
        0
    } else {
        spec_count(outcomes.drop_last(), want) + if outcomes.last() == want {
            1int
        } else {
            0int
        }
    }
}

/// The count never exceeds how many outcomes there are.
proof fn lemma_count_bound(outcomes: Seq<bool>, want: bool)
    ensures
        0 <= spec_count(outcomes, want) <= outcomes.len(),
    decreases outcomes.len(),
{
    if outcomes.len() > 0 {
        lemma_count_bound(outcomes.drop_last(), want);
    }
}

/// Settles a bulk command run over the non-excluded projects, given the
/// outcome (did the command exit successfully?) of each one. Every project
/// was already attempted; this only reports: success when every run
/// succeeded, and an error carrying the exact failure count when any
/// failed.
pub fn run(
    projects: &Vec<Project>,
    options: &crate::cli::Options,
    command: &str,
    outcomes: &Vec<bool>,
) -> (r: Result<(), WashError>)
    requires
        outcomes@.len() == spec_filter_excluded(
            projects@,
            spec_excl_owned(options.exclude),
        ).len(),
    ensures
        ({
            let failures = spec_count(outcomes@, false);
            if failures == 0 {
                r == Ok::<(), WashError>(())
            } else {
                r == Err::<(), WashError>(WashError::SomeFailed { failed: failures as u64 })
            }
        }),
{
    let n = outcomes.len();
    let mut failures: u64 = 0;
    let mut i: usize = 0;
    proof {
        assert(outcomes@.take(0) =~= Seq::<bool>::empty());
    }
    while i < n
        invariant
            i <= n,
            n == outcomes@.len(),
            failures == spec_count(outcomes@.take(i as int), false),
            failures <= i,
        decreases n - i,
    {
        proof {
            assert(outcomes@.take(i as int + 1).drop_last() =~= outcomes@.take(i as int));
            lemma_count_bound(outcomes@.take(i as int), false);
        }
        if !outcomes[i] {
            failures = failures + 1;
        }
        i = i + 1;
    }
    proof {
        assert(outcomes@.take(n as int) =~= outcomes@);
    }
    if failures == 0 {
        Ok(())
    } else {
        Err(WashError::SomeFailed { failed: failures })
    }
}

/// The message the total execution time is reported with, the seconds
/// broken into hours, minutes and seconds as the duration warrants.
pub open spec fn spec_execution_time_message(secs: int) -> Seq<char> {
    if secs >= 3600 {
        "Total execution time: "@ + spec_dec(secs / 3600) + "h "@ + spec_dec((secs % 3600) / 60)
            + "m "@ + spec_dec(secs % 60) + "s"@
    } else if secs >= 60 {
        "Total execution time: "@ + spec_dec(secs / 60) + "m "@ + spec_dec(secs % 60) + "s"@
    } else {
        "Total execution time: "@ + spec_dec(secs) + "s"@
    }
}

/// Builds the message reporting how long a bulk run took, given the
/// elapsed whole seconds.
pub fn print_execution_time(secs: u64) -> (r: String)
    ensures
        r@ == spec_execution_time_message(secs as int),
{
    let mut out = "Total execution time: ".to_owned();
    if secs >= 3600 {
        out.append(u64_to_string(secs / 3600).as_str());
        out.append("h ");
        out.append(u64_to_string((secs % 3600) / 60).as_str());
        out.append("m ");
        out.append(u64_to_string(secs % 60).as_str());
        out.append("s");
    } else if secs >= 60 {
        out.append(u64_to_string(secs / 60).as_str());
        out.append("m ");
        out.append(u64_to_string(secs % 60).as_str());
        out.append("s");
    } else {
        out.append(u64_to_string(secs).as_str());
        out.append("s");
    }
    out
}

/// How many build jobs a compute-heavy command gets when projects run in
/// parallel: a third of the machine's logical cores, never fewer than two.
pub fn parallel_jobs(nproc: usize) -> (r: usize)
    ensures
        ({
            let base: int = if nproc < 2 {
                2
            } else {
                nproc as int
            };
            r as int == if base / 3 < 2 {
                2int
            } else {
                base / 3
            }
        }),
{
    let base: usize = if nproc < 2 {
        2
    } else {
        nproc
    };
    let jobs = base / 3;
    if jobs < 2 {
        2
    } else {
        jobs
    }
}

/// The caller-supplied extra arguments, each further split at spaces, in
/// order.
pub open spec fn spec_split_args(args: Seq<Seq<char>>) -> Seq<Seq<char>>
    decreases args.len(),
{
    if args.len() == 0 {
        Seq::empty()
    } else {
        spec_split(args.first(), ' ') + spec_split_args(args.drop_first())
    }
}

/// Appending one argument appends its pieces.
proof fn lemma_split_args_push(args: Seq<Seq<char>>, x: Seq<char>)
    ensures
        spec_split_args(args.push(x)) == spec_split_args(args) + spec_split(x, ' '),
    decreases args.len(),
{
    if args.len() == 0 {
        assert(args.push(x).drop_first() =~~= args);
        assert(spec_split_args(args.push(x)) =~~= spec_split_args(args) + spec_split(x, ' '));
    } else {
        assert(args.push(x).drop_first() =~~= args.drop_first().push(x));
        lemma_split_args_push(args.drop_first(), x);
        assert(spec_split_args(args.push(x)) =~~= spec_split_args(args) + spec_split(x, ' '));
    }
}

/// Splits each extra argument at spaces and flattens the results, the way
/// the arguments are handed to the spawned command one word at a time.
pub fn split_args(args: &Vec<String>) -> (r: Vec<String>)
    ensures
        r.deep_view() == spec_split_args(args.deep_view()),
{
    let n = args.len();
    let mut out: Vec<String> = Vec::new();
    let mut i: usize = 0;
    proof {
        assert(args.deep_view().take(0) =~~= Seq::<Seq<char>>::empty());
        assert(out.deep_view() =~~= spec_split_args(args.deep_view().take(0)));
    }
    while i < n
        invariant
            i <= n,
            n == args@.len(),
            out.deep_view() == spec_split_args(args.deep_view().take(i as int)),
        decreases n - i,
    {
        let ghost prev = out.deep_view();
        let mut pieces = split_str(args[i].as_str(), ' ');
        out.append(&mut pieces);
        proof {
            assert(args.deep_view().take(i as int + 1) =~~= args.deep_view().take(i as int).push(
                args.deep_view()[i as int],
            ));
            lemma_split_args_push(args.deep_view().take(i as int), args.deep_view()[i as int]);
            assert(out.deep_view() =~~= prev + spec_split(args.deep_view()[i as int], ' '));
        }
        i = i + 1;
    }
    proof {
        assert(args.deep_view().take(n as int) =~~= args.deep_view());
    }
    out
}

} // verus!
