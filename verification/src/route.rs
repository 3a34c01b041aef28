//! How the words after the wrapper flags become a `qmd` command line, and
//! which QMD index that command line names.
use vstd::prelude::*;
use crate::text::is_word;

verus! {

broadcast use vstd::string::group_string_axioms;

/// The qmd retrieval modes that pass through unchanged.
pub open spec fn is_qmd_mode(w: Seq<char>) -> bool {
    w == "search"@ || w == "vsearch"@ || w == "query"@
}

/// The qmd command line for the words after the wrapper flags: the modes
/// `search`, `vsearch` and `query` pass through, `bm25` stands for `search`,
/// `fast-query` stands for `query --no-rerank`, and any other first word is
/// query text for `query --no-rerank`.
pub open spec fn routed_args(args: Seq<Seq<char>>) -> Seq<Seq<char>> {
    let head = args[0];
    if is_qmd_mode(head) {
        args
    } else if head == "bm25"@ {
        seq!["search"@] + args.drop_first()
    } else if head == "fast-query"@ {
        seq!["query"@, "--no-rerank"@] + args.drop_first()
    } else {
        seq!["query"@, "--no-rerank"@] + args
    }
}

/// Appends copies of `args[from..]`.
fn push_copies(out: &mut Vec<String>, args: &[String], from: usize)
    requires
        from <= args@.len(),
    ensures
        final(out).deep_view() == old(out).deep_view() + args.deep_view().skip(from as int),
{
    let ghost start = out.deep_view();
    let n = args.len();
    for i in from..n
        invariant
            n == args@.len(),
            from <= i <= n,
            out.deep_view() == start + args.deep_view().subrange(from as int, i as int),
    {
        let w = args[i].clone();
        let ghost before = out.deep_view();
        out.push(w);
        proof {
            assert(out.deep_view() =~= before.push(w@));
            assert(args.deep_view()[i as int] == w@);
            assert(out.deep_view() =~= start + args.deep_view().subrange(from as int, i + 1));
        }
    }
    proof {
        assert(args.deep_view().subrange(from as int, n as int) =~= args.deep_view().skip(from as int));
    }
}

/// Turns the words after the wrapper flags into the qmd command line (see
/// `routed_args`). The first word must exist.
pub fn qmd_args_for(args: &[String]) -> (r: Vec<String>)
    requires
        args@.len() > 0,
    ensures
        r.deep_view() == routed_args(args.deep_view()),
{
    let mut out: Vec<String> = Vec::new();
    let head = &args[0];
    proof {
        assert(args.deep_view()[0] == head@);
    }
    if is_word(head, "search") || is_word(head, "vsearch") || is_word(head, "query") {
        push_copies(&mut out, args, 0);
        proof {
            assert(args.deep_view().skip(0) =~= args.deep_view());
        }
    } else if is_word(head, "bm25") {
        out.push(String::from_str("search"));
        push_copies(&mut out, args, 1);
        proof {
            assert(args.deep_view().skip(1) =~= args.deep_view().drop_first());
        }
    } else {
        out.push(String::from_str("query"));
        out.push(String::from_str("--no-rerank"));
        if is_word(head, "fast-query") {
            push_copies(&mut out, args, 1);
            proof {
                assert(args.deep_view().skip(1) =~= args.deep_view().drop_first());
            }
        } else {
            push_copies(&mut out, args, 0);
            proof {
                assert(args.deep_view().skip(0) =~= args.deep_view());
            }
        }
    }
    out
}

} // verus!

verus! {

proof fn lemma_mode_words_distinct()
    ensures
        !is_qmd_mode("bm25"@),
        !is_qmd_mode("fast-query"@),
        "bm25"@ != "fast-query"@,
        is_qmd_mode("search"@),
        is_qmd_mode("query"@),
{
    reveal_strlit("search");
    reveal_strlit("vsearch");
    reveal_strlit("query");
    reveal_strlit("bm25");
    reveal_strlit("fast-query");
    assert("bm25"@.len() != "search"@.len());
    assert("bm25"@.len() != "vsearch"@.len());
    assert("bm25"@.len() != "query"@.len());
    assert("fast-query"@.len() != "search"@.len());
    assert("fast-query"@.len() != "vsearch"@.len());
    assert("fast-query"@.len() != "query"@.len());
    assert("fast-query"@.len() != "bm25"@.len());
}

/// Every routed command line starts with one of the retrieval modes
/// `search`, `vsearch` or `query`, so the cached path only ever runs
/// retrieval commands.
pub proof fn law_routed_command_is_retrieval(args: Seq<Seq<char>>)
    requires
        args.len() > 0,
    ensures
        routed_args(args).len() > 0,
        is_qmd_mode(routed_args(args)[0]),
{
    lemma_mode_words_distinct();
}

/// Routing a routed command line again changes nothing.
pub proof fn law_routing_is_idempotent(args: Seq<Seq<char>>)
    requires
        args.len() > 0,
    ensures
        routed_args(routed_args(args)) == routed_args(args),
{
    law_routed_command_is_retrieval(args);
}

/// `bm25` is another name for `search`: the same words after either give
/// the same command line.
pub proof fn law_bm25_is_search(rest: Seq<Seq<char>>)
    ensures
        routed_args(seq!["bm25"@] + rest) == routed_args(seq!["search"@] + rest),
{
    lemma_mode_words_distinct();
    assert((seq!["bm25"@] + rest)[0] == "bm25"@);
    assert((seq!["search"@] + rest)[0] == "search"@);
    assert((seq!["bm25"@] + rest).drop_first() =~= rest);
}

/// `fe <query> ...` is the same as `fe fast-query <query> ...` whenever the
/// query text is not itself a mode word.
pub proof fn law_bare_query_is_fast_query(rest: Seq<Seq<char>>)
    requires
        rest.len() > 0,
        !is_qmd_mode(rest[0]),
        rest[0] != "bm25"@,
        rest[0] != "fast-query"@,
    ensures
        routed_args(seq!["fast-query"@] + rest) == routed_args(rest),
{
    lemma_mode_words_distinct();
    assert((seq!["fast-query"@] + rest)[0] == "fast-query"@);
    assert((seq!["fast-query"@] + rest).drop_first() =~= rest);
}

} // verus!

verus! {

/// True when `w` starts with `--index=`.
pub open spec fn is_index_assignment(w: Seq<char>) -> bool {
    w.len() >= "--index="@.len() && w.take("--index="@.len() as int) == "--index="@
}

/// The index named in `args` at or after position `i`: the first word that
/// is either `--index` followed by another word (which names the index) or
/// `--index=NAME`.
pub open spec fn explicit_index_from(args: Seq<Seq<char>>, i: int) -> Option<Seq<char>>
    decreases args.len() - i,
{
    if i < 0 || i >= args.len() {
        None
    } else if args[i] == "--index"@ && i + 1 < args.len() {
        Some(args[i + 1])
    } else if is_index_assignment(args[i]) {
        Some(args[i].skip("--index="@.len() as int))
    } else {
        explicit_index_from(args, i + 1)
    }
}

/// The QMD index a command line uses: the one it names, else the
/// configured one, else `index`.
pub open spec fn index_name_for(args: Seq<Seq<char>>, configured: Option<Seq<char>>) -> Seq<
    char,
> {
    match explicit_index_from(args, 0) {
        Some(name) => name,
        None => match configured {
            Some(name) => name,
            None => "index"@,
        },
    }
}

/// The name of the QMD index that `args` asks for: the word after the
/// first `--index`, or the text after the first `--index=`, whichever comes
/// first; without either, `configured` (the `QMD_INDEX` setting), and
/// without that, `index`.
pub fn qmd_index_name(args: &[String], configured: Option<String>) -> (r: String)
    ensures
        r@ == index_name_for(args.deep_view(), configured.deep_view()),
{
    let ghost words = args.deep_view();
    let n = args.len();
    proof {
        reveal_strlit("--index=");
    }
    for i in 0..n
        invariant
            n == args@.len(),
            words == args.deep_view(),
            explicit_index_from(words, 0) == explicit_index_from(words, i as int),
    {
        let arg = &args[i];
        proof {
            reveal_strlit("--index=");
            assert(words[i as int] == arg@);
        }
        if is_word(arg, "--index") && i + 1 < n {
            let r = args[i + 1].clone();
            proof {
                assert(words[i + 1] == r@);
            }
            return r;
        }
        let text = arg.as_str();
        let len = text.unicode_len();
        if len >= 8 {
            let head = String::from_str(text.substring_char(0, 8));
            if is_word(&head, "--index=") {
                let r = String::from_str(text.substring_char(8, len));
                proof {
                    assert(arg@.take(8) =~= head@);
                    assert(r@ =~= arg@.skip(8));
                }
                return r;
            }
            proof {
                assert(arg@.take(8) =~= head@);
            }
        }
        proof {
            assert(!is_index_assignment(words[i as int]));
            assert(explicit_index_from(words, i as int) == explicit_index_from(words, i + 1));
        }
    }
    match configured {
        Some(name) => name,
        None => String::from_str("index"),
    }
}

} // verus!

verus! {

/// Routing goes by the whole first word: exactly `search`, `vsearch` or
/// `query` passes the line through, exactly `bm25` becomes `search`,
/// exactly `fast-query` becomes `query --no-rerank`, and any other first
/// word (even one that merely starts with a mode word) is query text, so
/// every word follows `query --no-rerank`.
pub proof fn law_routing_by_first_word(args: Seq<Seq<char>>)
    requires
        args.len() > 0,
    ensures
        (args[0] == "search"@ || args[0] == "vsearch"@ || args[0] == "query"@) ==> routed_args(args)
            == args,
        args[0] == "bm25"@ ==> routed_args(args) == seq!["search"@] + args.drop_first(),
        args[0] == "fast-query"@ ==> routed_args(args) == seq!["query"@, "--no-rerank"@]
            + args.drop_first(),
        (args[0] != "search"@ && args[0] != "vsearch"@ && args[0] != "query"@ && args[0]
            != "bm25"@ && args[0] != "fast-query"@) ==> routed_args(args) == seq![
            "query"@,
            "--no-rerank"@,
        ] + args,
{
    lemma_mode_words_distinct();
}

/// True when the word names an index by itself, as `--index=NAME`.
pub open spec fn starts_with_index_assignment(w: Seq<char>) -> bool {
    w.len() >= 8 && w.take(8) == "--index="@
}

proof fn lemma_explicit_index_skips(args: Seq<Seq<char>>, i: int)
    requires
        0 <= i <= args.len(),
        forall|j: int|
            0 <= j < i ==> !(#[trigger] args[j] == "--index"@ && j + 1 < args.len())
                && !starts_with_index_assignment(args[j]),
    ensures
        explicit_index_from(args, 0) == explicit_index_from(args, i),
    decreases i,
{
    reveal_strlit("--index=");
    if i > 0 {
        lemma_explicit_index_skips(args, i - 1);
        let w = args[i - 1];
        assert(!(w == "--index"@ && i < args.len()));
        assert(!is_index_assignment(w));
    }
}

/// The index named by a command line is given by its first naming word: at
/// the first position `i` where `--index` is followed by another word, the
/// name is the next word, whatever words follow it; at the first position
/// holding `--index=NAME` (and no earlier naming word), the name is `NAME`.
pub proof fn law_index_named_by_first_naming_word(
    args: Seq<Seq<char>>,
    i: int,
    configured: Option<Seq<char>>,
)
    requires
        0 <= i < args.len(),
        forall|j: int|
            0 <= j < i ==> !(#[trigger] args[j] == "--index"@ && j + 1 < args.len())
                && !starts_with_index_assignment(args[j]),
    ensures
        args[i] == "--index"@ && i + 1 < args.len() ==> index_name_for(args, configured)
            == args[i + 1],
        !(args[i] == "--index"@ && i + 1 < args.len()) && starts_with_index_assignment(args[i])
            ==> index_name_for(args, configured) == args[i].skip(8),
{
    reveal_strlit("--index=");
    lemma_explicit_index_skips(args, i);
}

/// Without any naming word, the index is the configured one, else `index`.
pub proof fn law_index_defaults_without_naming_word(
    args: Seq<Seq<char>>,
    configured: Option<Seq<char>>,
)
    requires
        forall|j: int|
            0 <= j < args.len() ==> !(#[trigger] args[j] == "--index"@ && j + 1 < args.len())
                && !starts_with_index_assignment(args[j]),
    ensures
        index_name_for(args, configured) == match configured {
            Some(name) => name,
            None => "index"@,
        },
{
    lemma_explicit_index_skips(args, args.len() as int);
}

} // verus!
