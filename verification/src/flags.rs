//! The wrapper's own flags, which stand before the mode word.
use vstd::prelude::*;
use crate::text::is_word;

verus! {

broadcast use vstd::string::group_string_axioms;

/// The wrapper flags given before the mode word.
pub struct WrapperFlags {
    /// `--refresh`: skip the cache read, still store a fresh result.
    pub refresh: bool,
    /// `--no-cache`: neither read nor write the cache.
    pub no_cache: bool,
    /// `--cache-stats`: report the cache directory and its size.
    pub cache_stats: bool,
    /// `--clear-cache`: empty the cache directory.
    pub clear_cache: bool,
    /// `-h`, `--help` or `help`: print the usage text.
    pub help: bool,
}

impl Default for WrapperFlags {
    fn default() -> (r: Self)
        ensures
            !r.refresh && !r.no_cache && !r.cache_stats && !r.clear_cache && !r.help,
    {
        WrapperFlags { refresh: false, no_cache: false, cache_stats: false, clear_cache: false, help: false }
    }
}

/// True for the words that ask for help.
pub open spec fn is_help_word(w: Seq<char>) -> bool {
    w == "-h"@ || w == "--help"@ || w == "help"@
}

/// True for the words that the wrapper reads as its own flags.
pub open spec fn is_wrapper_flag(w: Seq<char>) -> bool {
    ||| w == "--refresh"@
    ||| w == "--no-cache"@
    ||| w == "--cache-stats"@
    ||| w == "--clear-cache"@
    ||| is_help_word(w)
}

/// How many words at the start of `args` are wrapper flags, up to the first
/// word that is not one.
pub open spec fn leading_flag_count(args: Seq<Seq<char>>) -> nat
    decreases args.len(),
{
    if args.len() > 0 && is_wrapper_flag(args[0]) {
        1 + leading_flag_count(args.drop_first())
    } else {
        0
    }
}

/// The flags set by a run of flag words: each flag is set when one of the
/// words names it.
pub open spec fn flags_named_by(words: Seq<Seq<char>>) -> WrapperFlags {
    WrapperFlags {
        refresh: words.contains("--refresh"@),
        no_cache: words.contains("--no-cache"@),
        cache_stats: words.contains("--cache-stats"@),
        clear_cache: words.contains("--clear-cache"@),
        help: exists|i: int| 0 <= i < words.len() && is_help_word(#[trigger] words[i]),
    }
}

proof fn lemma_flag_words_distinct()
    ensures
        "--refresh"@ != "--no-cache"@,
        "--refresh"@ != "--cache-stats"@,
        "--refresh"@ != "--clear-cache"@,
        "--no-cache"@ != "--cache-stats"@,
        "--no-cache"@ != "--clear-cache"@,
        "--cache-stats"@ != "--clear-cache"@,
        !is_help_word("--refresh"@),
        !is_help_word("--no-cache"@),
        !is_help_word("--cache-stats"@),
        !is_help_word("--clear-cache"@),
{
    reveal_strlit("--refresh");
    reveal_strlit("--no-cache");
    reveal_strlit("--cache-stats");
    reveal_strlit("--clear-cache");
    reveal_strlit("-h");
    reveal_strlit("--help");
    reveal_strlit("help");
    assert("--refresh"@.len() != "--no-cache"@.len());
    assert("--refresh"@.len() != "--cache-stats"@.len());
    assert("--refresh"@.len() != "--clear-cache"@.len());
    assert("--no-cache"@.len() != "--cache-stats"@.len());
    assert("--no-cache"@.len() != "--clear-cache"@.len());
    assert("--cache-stats"@[3] != "--clear-cache"@[3]);
    assert("--refresh"@[2] != "--help"@[2]);
    assert("--no-cache"@.len() != "--help"@.len());
    assert("--cache-stats"@.len() != "--help"@.len());
    assert("--clear-cache"@.len() != "--help"@.len());
    assert("--refresh"@.len() != "-h"@.len());
    assert("--no-cache"@.len() != "-h"@.len());
    assert("--cache-stats"@.len() != "-h"@.len());
    assert("--clear-cache"@.len() != "-h"@.len());
    assert("--refresh"@[0] != "help"@[0]);
    assert("--no-cache"@[0] != "help"@[0]);
    assert("--cache-stats"@[0] != "help"@[0]);
    assert("--clear-cache"@[0] != "help"@[0]);
}

/// Which wrapper flag a word is, if any.
fn classify_flag(arg: &String) -> (r: u8)
    ensures
        r == 1 <==> arg@ == "--refresh"@,
        r == 2 <==> arg@ == "--no-cache"@,
        r == 3 <==> arg@ == "--cache-stats"@,
        r == 4 <==> arg@ == "--clear-cache"@,
        r == 5 <==> is_help_word(arg@),
        r == 0 <==> !is_wrapper_flag(arg@),
        r <= 5,
{
    proof {
        lemma_flag_words_distinct();
    }
    if is_word(arg, "--refresh") {
        1
    } else if is_word(arg, "--no-cache") {
        2
    } else if is_word(arg, "--cache-stats") {
        3
    } else if is_word(arg, "--clear-cache") {
        4
    } else if is_word(arg, "-h") || is_word(arg, "--help") || is_word(arg, "help") {
        5
    } else {
        0
    }
}

/// Reads the wrapper flags at the front of `args` and removes them. Reading
/// stops at the first word that is not a wrapper flag, so flags and words
/// such as `help` after the mode word stay in `args` for qmd.
pub fn parse_flags(args: &mut Vec<String>) -> (flags: WrapperFlags)
    ensures
        final(args).deep_view() == old(args).deep_view().skip(
            leading_flag_count(old(args).deep_view()) as int,
        ),
        flags == flags_named_by(
            old(args).deep_view().take(leading_flag_count(old(args).deep_view()) as int),
        ),
{
    let ghost orig = args.deep_view();
    let ghost mut taken: int = 0;
    let mut flags = WrapperFlags::default();
    proof {
        assert(orig.skip(0) =~= orig);
        assert(orig.take(0) =~= Seq::<Seq<char>>::empty());
    }
    let mut done = false;
    while !done && args.len() > 0
        invariant
            done ==> args.len() > 0 && !is_wrapper_flag(args.deep_view()[0]),
            0 <= taken <= orig.len(),
            args.deep_view() == orig.skip(taken),
            leading_flag_count(orig) == taken + leading_flag_count(orig.skip(taken)),
            flags == flags_named_by(orig.take(taken)),
        decreases args.len() + if done { 0int } else { 1int },
    {
        let kind = classify_flag(&args[0]);
        proof {
            assert(args.deep_view()[0] == args@[0]@);
        }
        if kind == 0 {
            done = true;
        } else {
            let ghost word = orig[taken];
            proof {
                assert(word == args@[0]@);
                assert(orig.skip(taken).drop_first() =~= orig.skip(taken + 1));
                assert(orig.take(taken + 1) =~= orig.take(taken).push(word));
            }
            if kind == 1 {
                flags.refresh = true;
            } else if kind == 2 {
                flags.no_cache = true;
            } else if kind == 3 {
                flags.cache_stats = true;
            } else if kind == 4 {
                flags.clear_cache = true;
            } else {
                flags.help = true;
            }
            args.remove(0);
            proof {
                let words = orig.take(taken + 1);
                let before = orig.take(taken);
                assert forall|w: Seq<char>| words.contains(w) <==> before.contains(w) || w == word by {
                    if words.contains(w) {
                        let i = choose|i: int| 0 <= i < words.len() && words[i] == w;
                        if i < before.len() {
                            assert(before[i] == w);
                        }
                    }
                    if before.contains(w) {
                        let i = choose|i: int| 0 <= i < before.len() && before[i] == w;
                        assert(words[i] == w);
                    }
                    if w == word {
                        assert(words[taken] == w);
                    }
                }
                assert((exists|i: int| 0 <= i < words.len() && is_help_word(#[trigger] words[i])) <==> (
                exists|i: int| 0 <= i < before.len() && is_help_word(#[trigger] before[i]))
                    || is_help_word(word)) by {
                    if exists|i: int| 0 <= i < words.len() && is_help_word(#[trigger] words[i]) {
                        let i = choose|i: int| 0 <= i < words.len() && is_help_word(#[trigger] words[i]);
                        if i < before.len() {
                            assert(is_help_word(before[i]));
                        }
                    }
                    if exists|i: int| 0 <= i < before.len() && is_help_word(#[trigger] before[i]) {
                        let i = choose|i: int| 0 <= i < before.len() && is_help_word(#[trigger] before[i]);
                        assert(words[i] == before[i]);
                    }
                    if is_help_word(word) {
                        assert(words[taken] == word);
                    }
                }
                assert(args.deep_view() =~= orig.skip(taken + 1));
                taken = taken + 1;
            }
        }
    }
    proof {
        if args.len() > 0 {
            assert(!is_wrapper_flag(orig.skip(taken)[0]));
        }
        assert(leading_flag_count(orig.skip(taken)) == 0);
    }
    flags
}

} // verus!

verus! {

/// The words that `parse_flags` takes are exactly the longest run of
/// wrapper flags at the front: every one of them is a flag, and the word
/// after them, if any, is not.
pub proof fn law_flags_are_the_leading_run(args: Seq<Seq<char>>)
    ensures
        leading_flag_count(args) <= args.len(),
        forall|i: int| 0 <= i < leading_flag_count(args) ==> is_wrapper_flag(#[trigger] args[i]),
        leading_flag_count(args) < args.len() ==> !is_wrapper_flag(
            args[leading_flag_count(args) as int],
        ),
    decreases args.len(),
{
    if args.len() > 0 && is_wrapper_flag(args[0]) {
        let rest = args.drop_first();
        law_flags_are_the_leading_run(rest);
        assert forall|i: int| 0 <= i < leading_flag_count(args) implies is_wrapper_flag(
            #[trigger] args[i],
        ) by {
            if i > 0 {
                assert(args[i] == rest[i - 1]);
            }
        }
        if leading_flag_count(args) < args.len() {
            assert(args[leading_flag_count(args) as int] == rest[leading_flag_count(rest) as int]);
        }
    }
}

} // verus!

verus! {

/// Each of the three help words asks for help, and nothing else does: the
/// flags named by a run of words ask for help exactly when the run holds
/// `-h`, `--help` or `help`; likewise each other flag is set exactly when
/// its own word is in the run.
pub proof fn law_help_words_set_help(words: Seq<Seq<char>>)
    ensures
        flags_named_by(words).help <==> (words.contains("-h"@) || words.contains("--help"@)
            || words.contains("help"@)),
        flags_named_by(words).refresh <==> words.contains("--refresh"@),
        flags_named_by(words).no_cache <==> words.contains("--no-cache"@),
        flags_named_by(words).cache_stats <==> words.contains("--cache-stats"@),
        flags_named_by(words).clear_cache <==> words.contains("--clear-cache"@),
{
    let f = flags_named_by(words);
    if f.help {
        let i = choose|i: int| 0 <= i < words.len() && is_help_word(#[trigger] words[i]);
        assert(words[i] == words[i]);
    }
    if words.contains("-h"@) {
        let i = choose|i: int| 0 <= i < words.len() && words[i] == "-h"@;
        assert(is_help_word(words[i]));
    }
    if words.contains("--help"@) {
        let i = choose|i: int| 0 <= i < words.len() && words[i] == "--help"@;
        assert(is_help_word(words[i]));
    }
    if words.contains("help"@) {
        let i = choose|i: int| 0 <= i < words.len() && words[i] == "help"@;
        assert(is_help_word(words[i]));
    }
}

/// The words that parsing takes from the front are exactly the longest run
/// of the seven flag words `--refresh`, `--no-cache`, `--cache-stats`,
/// `--clear-cache`, `-h`, `--help` and `help`; the first word after the run,
/// if any, is none of them.
pub proof fn law_leading_run_is_the_flag_words(args: Seq<Seq<char>>)
    ensures
        leading_flag_count(args) <= args.len(),
        forall|i: int|
            0 <= i < leading_flag_count(args) ==> {
                let w = #[trigger] args[i];
                w == "--refresh"@ || w == "--no-cache"@ || w == "--cache-stats"@ || w
                    == "--clear-cache"@ || w == "-h"@ || w == "--help"@ || w == "help"@
            },
        leading_flag_count(args) < args.len() ==> {
            let w = args[leading_flag_count(args) as int];
            w != "--refresh"@ && w != "--no-cache"@ && w != "--cache-stats"@ && w
                != "--clear-cache"@ && w != "-h"@ && w != "--help"@ && w != "help"@
        },
{
    law_flags_are_the_leading_run(args);
}

} // verus!
