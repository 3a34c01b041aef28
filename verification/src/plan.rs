//! What one invocation of the wrapper does, decided from its arguments.
use vstd::prelude::*;
use crate::flags::{flags_named_by, leading_flag_count, parse_flags, WrapperFlags};
use crate::route::{qmd_args_for, routed_args};
use crate::text::is_word;

verus! {

broadcast use vstd::string::group_string_axioms;

/// What an invocation does.
pub enum Invocation {
    /// Report the cache directory and its size.
    CacheStats,
    /// Empty the cache directory.
    ClearCache,
    /// Print the usage text.
    Usage,
    /// Run `qmd` with these arguments, untouched and uncached.
    Passthrough(Vec<String>),
    /// Run this qmd command line without reading or writing the cache.
    Uncached(Vec<String>),
    /// Run this qmd command line through the cache; with `refresh` the
    /// stored entry is not read but a fresh result is still stored.
    Cached { qmd_args: Vec<String>, refresh: bool },
}

/// The wrapper flags given on a command line.
pub open spec fn command_flags(words: Seq<Seq<char>>) -> WrapperFlags {
    flags_named_by(words.take(leading_flag_count(words) as int))
}

/// The words after the wrapper flags.
pub open spec fn command_words(words: Seq<Seq<char>>) -> Seq<Seq<char>> {
    words.skip(leading_flag_count(words) as int)
}

/// Decides what the command line `args` asks for. In order: `--cache-stats`
/// wins, then `--clear-cache`; help or no words after the flags give the
/// usage text; `qmd` as first word passes the rest to qmd untouched;
/// otherwise the words are routed (see `routed_args`) and run without the
/// cache under `--no-cache`, or through it.
pub fn plan_invocation(args: Vec<String>) -> (r: Invocation)
    ensures
        ({
            let f = command_flags(args.deep_view());
            let rest = command_words(args.deep_view());
            match r {
                Invocation::CacheStats => f.cache_stats,
                Invocation::ClearCache => !f.cache_stats && f.clear_cache,
                Invocation::Usage => !f.cache_stats && !f.clear_cache && (f.help || rest.len() == 0),
                Invocation::Passthrough(a) => {
                    &&& !f.cache_stats && !f.clear_cache && !f.help
                    &&& rest.len() > 0 && rest[0] == "qmd"@
                    &&& a.deep_view() == rest.drop_first()
                },
                Invocation::Uncached(a) => {
                    &&& !f.cache_stats && !f.clear_cache && !f.help
                    &&& rest.len() > 0 && rest[0] != "qmd"@
                    &&& f.no_cache
                    &&& a.deep_view() == routed_args(rest)
                },
                Invocation::Cached { qmd_args, refresh } => {
                    &&& !f.cache_stats && !f.clear_cache && !f.help
                    &&& rest.len() > 0 && rest[0] != "qmd"@
                    &&& !f.no_cache
                    &&& qmd_args.deep_view() == routed_args(rest)
                    &&& refresh == f.refresh
                },
            }
        }),
{
    let mut args = args;
    let flags = parse_flags(&mut args);
    if flags.cache_stats {
        return Invocation::CacheStats;
    }
    if flags.clear_cache {
        return Invocation::ClearCache;
    }
    if flags.help || args.len() == 0 {
        return Invocation::Usage;
    }
    proof {
        assert(args.deep_view()[0] == args@[0]@);
    }
    if is_word(&args[0], "qmd") {
        let ghost before = args.deep_view();
        args.remove(0);
        proof {
            assert(args.deep_view() =~= before.drop_first());
        }
        return Invocation::Passthrough(args);
    }
    let words = args.as_slice();
    proof {
        assert(words.deep_view() =~= args.deep_view());
    }
    let qmd_args = qmd_args_for(words);
    if flags.no_cache {
        Invocation::Uncached(qmd_args)
    } else {
        Invocation::Cached { qmd_args, refresh: flags.refresh }
    }
}

} // verus!
