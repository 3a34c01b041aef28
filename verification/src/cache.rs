//! The cache's bookkeeping: the metadata text that keys an entry, the file
//! names of an entry, when a stored entry is replayed or a run is stored,
//! the fingerprints of the qmd binary and the index, and the tally of the
//! cache directory.
use vstd::prelude::*;
use crate::hash::{fnv1a64_hex, fnv1a64_key};
use crate::text::{ascii_bytes, decimal, is_word, push_char, push_decimal, push_decimal_bytes};

verus! {

broadcast use vstd::string::group_string_axioms;

/// What the cache metadata records besides the command line.
pub struct MetaInputs {
    /// The qmd binary that would run (its path as displayed).
    pub qmd_bin: String,
    /// The stat fingerprint of that binary.
    pub qmd_stat: String,
    /// The name of the QMD index in use.
    pub index_name: String,
    /// The index database file (its path as displayed).
    pub index_file: String,
    /// The fingerprint of the index database.
    pub index_fingerprint: String,
    /// The `QMD_FORCE_CPU` setting handed to qmd.
    pub qmd_force_cpu: String,
    /// The `QMD_EDITOR_URI` setting (empty when unset).
    pub editor_uri: String,
}

/// The command line as recorded in the metadata: each word followed by a
/// NUL character.
pub open spec fn argv_text(args: Seq<Seq<char>>) -> Seq<char>
    decreases args.len(),
{
    if args.len() == 0 {
        Seq::empty()
    } else {
        argv_text(args.drop_last()) + args.last() + seq!['\0']
    }
}

/// One `label=value` line of the metadata.
pub open spec fn meta_line(label: Seq<char>, value: Seq<char>) -> Seq<char> {
    label + value + seq!['\n']
}

/// The metadata text of a cache entry: a version line, one line per input,
/// and the command line.
pub open spec fn meta_text(args: Seq<Seq<char>>, m: MetaInputs) -> Seq<char> {
    "v=3\n"@ + (meta_line("qmd_bin="@, m.qmd_bin@) + (meta_line("qmd_stat="@, m.qmd_stat@) + (
    meta_line("index_name="@, m.index_name@) + (meta_line("index_file="@, m.index_file@) + (
    meta_line("index_fingerprint="@, m.index_fingerprint@) + (meta_line(
        "QMD_FORCE_CPU="@,
        m.qmd_force_cpu@,
    ) + (meta_line("QMD_EDITOR_URI="@, m.editor_uri@) + ("argv="@ + argv_text(args)))))))))
}

/// Appends a `label=value` line.
fn push_line(out: &mut String, label: &str, value: &String)
    ensures
        final(out)@ == old(out)@ + meta_line(label@, value@),
{
    out.append(label);
    out.append(value.as_str());
    push_char(out, '\n');
    proof {
        assert(final(out)@ =~= old(out)@ + meta_line(label@, value@));
    }
}

/// The metadata text for running `args` (the qmd command line) under
/// `inputs`. The cache key is the hash of this text, and a stored entry is
/// replayed only when its recorded metadata equals it.
pub fn cache_meta(args: &[String], inputs: &MetaInputs) -> (r: String)
    ensures
        r@ == meta_text(args.deep_view(), *inputs),
{
    let mut out = String::new();
    out.append("v=3\n");
    push_line(&mut out, "qmd_bin=", &inputs.qmd_bin);
    push_line(&mut out, "qmd_stat=", &inputs.qmd_stat);
    push_line(&mut out, "index_name=", &inputs.index_name);
    push_line(&mut out, "index_file=", &inputs.index_file);
    push_line(&mut out, "index_fingerprint=", &inputs.index_fingerprint);
    push_line(&mut out, "QMD_FORCE_CPU=", &inputs.qmd_force_cpu);
    push_line(&mut out, "QMD_EDITOR_URI=", &inputs.editor_uri);
    out.append("argv=");
    let ghost head = out@;
    let n = args.len();
    for i in 0..n
        invariant
            n == args@.len(),
            out@ == head + argv_text(args.deep_view().take(i as int)),
    {
        proof {
            let words = args.deep_view();
            assert(words.take(i + 1).drop_last() =~= words.take(i as int));
            assert(words.take(i + 1).last() == args@[i as int]@);
        }
        out.append(args[i].as_str());
        push_char(&mut out, '\0');
        proof {
            assert(out@ =~= head + argv_text(args.deep_view().take(i + 1)));
        }
    }
    proof {
        assert(args.deep_view().take(n as int) =~= args.deep_view());
        assert(out@ =~= meta_text(args.deep_view(), *inputs));
    }
    out
}

} // verus!

verus! {

/// The four files of a cache entry.
#[derive(Clone, Copy, PartialEq, Eq, Structural, Debug)]
pub enum CacheFile {
    /// The recorded standard output.
    Stdout,
    /// The recorded standard error.
    Stderr,
    /// The recorded exit code.
    ExitCode,
    /// The recorded metadata.
    Metadata,
}

/// The file name extension of each file of an entry.
pub open spec fn cache_file_ext(file: CacheFile) -> Seq<char> {
    match file {
        CacheFile::Stdout => "out"@,
        CacheFile::Stderr => "err"@,
        CacheFile::ExitCode => "code"@,
        CacheFile::Metadata => "meta"@,
    }
}

/// The extension text of a file of an entry.
pub fn cache_file_ext_str(file: CacheFile) -> (r: &'static str)
    ensures
        r@ == cache_file_ext(file),
{
    match file {
        CacheFile::Stdout => "out",
        CacheFile::Stderr => "err",
        CacheFile::ExitCode => "code",
        CacheFile::Metadata => "meta",
    }
}

/// The name of a file of the entry with key `key`: `KEY.EXT`.
pub open spec fn entry_file_name(key: Seq<char>, file: CacheFile) -> Seq<char> {
    key + "."@ + cache_file_ext(file)
}

/// The name of the temporary file written before an entry's file is put in
/// place: `KEY.PID.STAMP.EXT.tmp`.
pub open spec fn temp_name(key: Seq<char>, pid: u32, stamp: u128, file: CacheFile) -> Seq<char> {
    key + "."@ + decimal(pid as nat) + "."@ + decimal(stamp as nat) + "."@ + cache_file_ext(file)
        + ".tmp"@
}

/// The name of a file of the entry with key `key`: `KEY.EXT`.
pub fn cache_file_name(key: &str, file: CacheFile) -> (r: String)
    ensures
        r@ == entry_file_name(key@, file),
{
    let mut out = String::from_str(key);
    out.append(".");
    out.append(cache_file_ext_str(file));
    out
}

/// The name of the temporary file that a run writes before renaming it to
/// its place: `KEY.PID.STAMP.EXT.tmp`, unique per process and moment.
pub fn temp_file_name(key: &str, pid: u32, stamp: u128, file: CacheFile) -> (r: String)
    ensures
        r@ == temp_name(key@, pid, stamp, file),
{
    let mut out = String::from_str(key);
    out.append(".");
    push_decimal(&mut out, pid as u128);
    out.append(".");
    push_decimal(&mut out, stamp);
    out.append(".");
    out.append(cache_file_ext_str(file));
    out.append(".tmp");
    out
}

/// What is found in the cache directory for an entry's key.
pub struct CacheLookup {
    /// Whether the output file exists.
    pub out_exists: bool,
    /// Whether the error file exists.
    pub err_exists: bool,
    /// Whether the exit-code file exists.
    pub code_exists: bool,
    /// Whether the metadata file exists.
    pub meta_exists: bool,
    /// The recorded metadata (empty when it cannot be read).
    pub stored_meta: String,
}

/// When a stored entry is replayed: not on `--refresh`, and only when all
/// four files exist and the recorded metadata equals the current one.
pub open spec fn replays(refresh: bool, lookup: CacheLookup, meta: Seq<char>) -> bool {
    &&& !refresh
    &&& lookup.out_exists
    &&& lookup.err_exists
    &&& lookup.code_exists
    &&& lookup.meta_exists
    &&& lookup.stored_meta@ == meta
}

/// Decides whether the stored entry found by `lookup` is replayed instead
/// of running qmd (see `replays`).
pub fn replay_cached(refresh: bool, lookup: &CacheLookup, meta: &String) -> (r: bool)
    ensures
        r == replays(refresh, *lookup, meta@),
{
    !refresh && lookup.out_exists && lookup.err_exists && lookup.code_exists && lookup.meta_exists
        && lookup.stored_meta.eq(meta)
}

/// A run is stored in the cache only when qmd exited with status 0.
pub fn should_store(exit_code: i32) -> (r: bool)
    ensures
        r == (exit_code == 0),
{
    exit_code == 0
}

/// The decimal text of an exit code, as recorded in the code file.
pub fn exit_code_text(code: i32) -> (r: String)
    ensures
        r@ == crate::text::signed_decimal(code as int),
{
    let mut out = String::new();
    if code < 0 {
        push_char(&mut out, '-');
        let magnitude: i64 = -(code as i64);
        push_decimal(&mut out, magnitude as u128);
    } else {
        push_decimal(&mut out, code as u128);
    }
    proof {
        if code < 0 {
            assert(out@ =~= seq!['-'] + decimal((-(code as int)) as nat));
        } else {
            assert(out@ =~= decimal(code as nat));
        }
    }
    out
}

/// The stat fingerprint of a file: `missing`, or its size and modification
/// time in nanoseconds since the epoch.
pub open spec fn stat_fingerprint_of(stat: Option<(u64, u128)>) -> Seq<char> {
    match stat {
        None => "missing"@,
        Some((size, mtime_ns)) => "exists:size="@ + decimal(size as nat) + ":mtime_ns="@ + decimal(
            mtime_ns as nat,
        ),
    }
}

/// Renders the stat fingerprint of a file from its size and modification
/// time (`None` when the file cannot be read).
pub fn stat_fingerprint_text(stat: Option<(u64, u128)>) -> (r: String)
    ensures
        r@ == stat_fingerprint_of(stat),
{
    match stat {
        None => String::from_str("missing"),
        Some((size, mtime_ns)) => {
            let mut out = String::from_str("exists:size=");
            push_decimal(&mut out, size as u128);
            out.append(":mtime_ns=");
            push_decimal(&mut out, mtime_ns);
            out
        },
    }
}

/// What was observed of the QMD index database.
pub enum IndexObservation {
    /// The file does not exist.
    Missing,
    /// `sqlite3` summarised the database: its file size and the summary
    /// rows it printed.
    Summary { size: u64, rows: Vec<u8> },
    /// The file exists but could not be summarised; its stat fingerprint.
    Unsummarised { stat: String },
}

/// The bytes hashed for a summarised index: a `size=N` line, then the rows.
pub open spec fn index_summary_bytes(size: u64, rows: Seq<u8>) -> Seq<u8> {
    ascii_bytes("size="@ + decimal(size as nat) + "\n"@) + rows
}

/// The fingerprint of the QMD index: `missing`, `sqlite:` and the hash of
/// the summary, or `stat:` and the stat fingerprint.
pub open spec fn index_fingerprint_of(obs: IndexObservation) -> Seq<char> {
    match obs {
        IndexObservation::Missing => "missing"@,
        IndexObservation::Summary { size, rows } => "sqlite:"@ + fnv1a64_key(
            index_summary_bytes(size, rows@),
        ),
        IndexObservation::Unsummarised { stat } => "stat:"@ + stat@,
    }
}

/// Renders the fingerprint of the QMD index from what was observed of it.
pub fn index_fingerprint_text(obs: &IndexObservation) -> (r: String)
    ensures
        r@ == index_fingerprint_of(*obs),
{
    match obs {
        IndexObservation::Missing => String::from_str("missing"),
        IndexObservation::Summary { size, rows } => {
            let mut bytes: Vec<u8> = Vec::new();
            bytes.push(115u8);
            bytes.push(105u8);
            bytes.push(122u8);
            bytes.push(101u8);
            bytes.push(61u8);
            push_decimal_bytes(&mut bytes, *size as u128);
            bytes.push(10u8);
            let ghost head = bytes@;
            let n = rows.len();
            for i in 0..n
                invariant
                    n == rows@.len(),
                    bytes@ == head + rows@.take(i as int),
            {
                bytes.push(rows[i]);
                proof {
                    assert(bytes@ =~= head + rows@.take(i + 1));
                }
            }
            proof {
                reveal_strlit("size=");
                reveal_strlit("\n");
                let text = "size="@ + decimal(*size as nat) + "\n"@;
                assert(ascii_bytes(text) =~= seq![115u8, 105u8, 122u8, 101u8, 61u8] + ascii_bytes(
                    decimal(*size as nat),
                ) + seq![10u8]);
                assert(rows@.take(n as int) =~= rows@);
                assert(bytes@ =~= index_summary_bytes(*size, rows@));
            }
            let key = fnv1a64_hex(bytes.as_slice());
            let mut out = String::from_str("sqlite:");
            out.append(key.as_str());
            out
        },
        IndexObservation::Unsummarised { stat } => {
            let mut out = String::from_str("stat:");
            out.append(stat.as_str());
            out
        },
    }
}

/// A file is taken for an executable when it is a regular file with at
/// least one execute permission bit set.
pub fn is_executable_mode(is_file: bool, mode: u32) -> (r: bool)
    ensures
        r == (is_file && (mode & 0o111) != 0),
{
    is_file && (mode & 0o111) != 0
}

} // verus!

verus! {

/// Running totals over the cache directory.
pub struct CacheTally {
    /// The number of entries (output files).
    pub entries: u64,
    /// The bytes taken by the files that are kept.
    pub bytes: u64,
}

/// True for a file left behind by an interrupted store (extension `tmp`).
pub open spec fn is_leftover(extension: Option<&str>) -> bool {
    extension matches Some(e) && e@ == "tmp"@
}

/// True for the output file of an entry (extension `out`).
pub open spec fn is_entry_output(extension: Option<&str>) -> bool {
    extension matches Some(e) && e@ == "out"@
}

fn is_ext(extension: Option<&str>, word: &str) -> (r: bool)
    ensures
        r == (extension matches Some(e) && e@ == word@),
{
    match extension {
        Some(e) => is_word(&String::from_str(e), word),
        None => false,
    }
}

/// True when a file of the cache directory, given its extension, is a
/// leftover of an interrupted store that is to be removed.
pub fn entry_is_leftover(extension: Option<&str>) -> (r: bool)
    ensures
        r == is_leftover(extension),
{
    is_ext(extension, "tmp")
}

/// Counts one kept file of the cache directory, given its extension and
/// size: its size is added, and an output file adds an entry.
pub fn tally_entry(tally: &mut CacheTally, extension: Option<&str>, len: u64)
    requires
        !is_leftover(extension),
        old(tally).bytes + len <= u64::MAX,
        is_entry_output(extension) ==> old(tally).entries < u64::MAX,
    ensures
        final(tally).bytes == old(tally).bytes + len,
        final(tally).entries == old(tally).entries + if is_entry_output(extension) {
            1int
        } else {
            0int
        },
{
    if is_ext(extension, "out") {
        tally.entries = tally.entries + 1;
    }
    tally.bytes = tally.bytes + len;
}

} // verus!

verus! {

/// True when no word of `args` holds a NUL character (as with every
/// command line that an operating system hands over).
pub open spec fn words_without_nul(args: Seq<Seq<char>>) -> bool {
    forall|i: int| 0 <= i < args.len() ==> !(#[trigger] args[i]).contains('\0')
}

/// True when no recorded input holds a line break.
pub open spec fn inputs_without_newline(m: MetaInputs) -> bool {
    &&& !m.qmd_bin@.contains('\n')
    &&& !m.qmd_stat@.contains('\n')
    &&& !m.index_name@.contains('\n')
    &&& !m.index_file@.contains('\n')
    &&& !m.index_fingerprint@.contains('\n')
    &&& !m.qmd_force_cpu@.contains('\n')
    &&& !m.editor_uri@.contains('\n')
}

/// True when two sets of inputs record the same values.
pub open spec fn same_inputs(m1: MetaInputs, m2: MetaInputs) -> bool {
    &&& m1.qmd_bin@ == m2.qmd_bin@
    &&& m1.qmd_stat@ == m2.qmd_stat@
    &&& m1.index_name@ == m2.index_name@
    &&& m1.index_file@ == m2.index_file@
    &&& m1.index_fingerprint@ == m2.index_fingerprint@
    &&& m1.qmd_force_cpu@ == m2.qmd_force_cpu@
    &&& m1.editor_uri@ == m2.editor_uri@
}

proof fn lemma_strip_prefix(p: Seq<char>, s1: Seq<char>, s2: Seq<char>)
    requires
        p + s1 == p + s2,
    ensures
        s1 == s2,
{
    assert(s1 =~= (p + s1).skip(p.len() as int));
    assert(s2 =~= (p + s2).skip(p.len() as int));
}

/// Two texts that start with the same `label` and a line without a line
/// break agree on that line and on what follows.
proof fn lemma_line_split(label: Seq<char>, x: Seq<char>, y: Seq<char>, r1: Seq<char>, r2: Seq<char>)
    requires
        meta_line(label, x) + r1 == meta_line(label, y) + r2,
        !x.contains('\n'),
        !y.contains('\n'),
    ensures
        x == y,
        r1 == r2,
{
    let s1 = meta_line(label, x) + r1;
    let s2 = meta_line(label, y) + r2;
    let l = label.len() as int;
    if x.len() < y.len() {
        assert(s1[l + x.len()] == '\n');
        assert(s2[l + x.len()] == y[x.len() as int]);
        assert(y.contains(y[x.len() as int]));
    } else if y.len() < x.len() {
        assert(s2[l + y.len()] == '\n');
        assert(s1[l + y.len()] == x[y.len() as int]);
        assert(x.contains(x[y.len() as int]));
    }
    assert(x =~= s1.subrange(l, l + x.len()));
    assert(y =~= s2.subrange(l, l + y.len()));
    assert(r1 =~= s1.skip(l + x.len() + 1));
    assert(r2 =~= s2.skip(l + y.len() + 1));
}

proof fn lemma_argv_ends_with_nul(args: Seq<Seq<char>>)
    ensures
        args.len() == 0 <==> argv_text(args).len() == 0,
        args.len() > 0 ==> argv_text(args).last() == '\0',
{
}

/// The recorded command line determines the command line, when no word
/// holds a NUL character.
proof fn lemma_argv_injective(a: Seq<Seq<char>>, b: Seq<Seq<char>>)
    requires
        argv_text(a) == argv_text(b),
        words_without_nul(a),
        words_without_nul(b),
    ensures
        a == b,
    decreases a.len() + b.len(),
{
    lemma_argv_ends_with_nul(a);
    lemma_argv_ends_with_nul(b);
    if a.len() == 0 || b.len() == 0 {
        assert(a =~= b);
    } else {
        let pa = argv_text(a.drop_last());
        let pb = argv_text(b.drop_last());
        let w = a.last();
        let v = b.last();
        let s = argv_text(a);
        assert(!w.contains('\0')) by {
            assert(a[a.len() - 1] == w);
        }
        assert(!v.contains('\0')) by {
            assert(b[b.len() - 1] == v);
        }
        lemma_argv_ends_with_nul(a.drop_last());
        lemma_argv_ends_with_nul(b.drop_last());
        let n = s.len() as int;
        if w.len() < v.len() {
            let i = n - 1 - w.len() - 1;
            assert(pa.len() > 0);
            assert(s[i] == pa.last());
            assert(s == pb + v + seq!['\0']);
            assert(s[i] == v[i - pb.len()]);
            assert(v.contains(v[i - pb.len()]));
        } else if v.len() < w.len() {
            let i = n - 1 - v.len() - 1;
            assert(pb.len() > 0);
            assert(s == pb + v + seq!['\0']);
            assert(s[i] == pb.last());
            assert(s[i] == w[i - pa.len()]);
            assert(w.contains(w[i - pa.len()]));
        }
        assert(w =~= s.subrange(pa.len() as int, n - 1));
        assert(v =~= (pb + v + seq!['\0']).subrange(pb.len() as int, n - 1));
        assert(pa =~= s.subrange(0, pa.len() as int));
        assert(pb =~= (pb + v + seq!['\0']).subrange(0, pb.len() as int));
        assert(words_without_nul(a.drop_last()));
        assert(words_without_nul(b.drop_last()));
        lemma_argv_injective(a.drop_last(), b.drop_last());
        assert(a =~= a.drop_last().push(w));
        assert(b =~= b.drop_last().push(v));
    }
}

/// The metadata text keys a cache entry by everything it records: two
/// requests with the same metadata have the same command line, the same
/// qmd binary and stat, the same index name, file and fingerprint, and the
/// same `QMD_FORCE_CPU` and `QMD_EDITOR_URI` settings (for words without
/// NUL characters and inputs without line breaks).
pub proof fn law_meta_determines_request(a1: Seq<Seq<char>>, m1: MetaInputs, a2: Seq<Seq<char>>, m2: MetaInputs)
    requires
        meta_text(a1, m1) == meta_text(a2, m2),
        words_without_nul(a1),
        words_without_nul(a2),
        inputs_without_newline(m1),
        inputs_without_newline(m2),
    ensures
        a1 == a2,
        same_inputs(m1, m2),
{
    let t7_1 = "argv="@ + argv_text(a1);
    let t7_2 = "argv="@ + argv_text(a2);
    let t6_1 = meta_line("QMD_EDITOR_URI="@, m1.editor_uri@) + t7_1;
    let t6_2 = meta_line("QMD_EDITOR_URI="@, m2.editor_uri@) + t7_2;
    let t5_1 = meta_line("QMD_FORCE_CPU="@, m1.qmd_force_cpu@) + t6_1;
    let t5_2 = meta_line("QMD_FORCE_CPU="@, m2.qmd_force_cpu@) + t6_2;
    let t4_1 = meta_line("index_fingerprint="@, m1.index_fingerprint@) + t5_1;
    let t4_2 = meta_line("index_fingerprint="@, m2.index_fingerprint@) + t5_2;
    let t3_1 = meta_line("index_file="@, m1.index_file@) + t4_1;
    let t3_2 = meta_line("index_file="@, m2.index_file@) + t4_2;
    let t2_1 = meta_line("index_name="@, m1.index_name@) + t3_1;
    let t2_2 = meta_line("index_name="@, m2.index_name@) + t3_2;
    let t1_1 = meta_line("qmd_stat="@, m1.qmd_stat@) + t2_1;
    let t1_2 = meta_line("qmd_stat="@, m2.qmd_stat@) + t2_2;
    let t0_1 = meta_line("qmd_bin="@, m1.qmd_bin@) + t1_1;
    let t0_2 = meta_line("qmd_bin="@, m2.qmd_bin@) + t1_2;
    lemma_strip_prefix("v=3\n"@, t0_1, t0_2);
    lemma_line_split("qmd_bin="@, m1.qmd_bin@, m2.qmd_bin@, t1_1, t1_2);
    lemma_line_split("qmd_stat="@, m1.qmd_stat@, m2.qmd_stat@, t2_1, t2_2);
    lemma_line_split("index_name="@, m1.index_name@, m2.index_name@, t3_1, t3_2);
    lemma_line_split("index_file="@, m1.index_file@, m2.index_file@, t4_1, t4_2);
    lemma_line_split(
        "index_fingerprint="@,
        m1.index_fingerprint@,
        m2.index_fingerprint@,
        t5_1,
        t5_2,
    );
    lemma_line_split("QMD_FORCE_CPU="@, m1.qmd_force_cpu@, m2.qmd_force_cpu@, t6_1, t6_2);
    lemma_line_split("QMD_EDITOR_URI="@, m1.editor_uri@, m2.editor_uri@, t7_1, t7_2);
    lemma_strip_prefix("argv="@, argv_text(a1), argv_text(a2));
    lemma_argv_injective(a1, a2);
}

} // verus!

verus! {

/// A stored entry is replayed only for the request it was stored for: if
/// the entry recorded the metadata of one request and is replayed for
/// another, the two have the same command line and the same inputs (index
/// fingerprint and settings included); and under `--refresh` nothing is
/// replayed.
pub proof fn law_replay_serves_only_its_own_request(
    refresh: bool,
    lookup: CacheLookup,
    stored_args: Seq<Seq<char>>,
    stored_inputs: MetaInputs,
    args: Seq<Seq<char>>,
    inputs: MetaInputs,
)
    requires
        lookup.stored_meta@ == meta_text(stored_args, stored_inputs),
        replays(refresh, lookup, meta_text(args, inputs)),
        words_without_nul(stored_args),
        words_without_nul(args),
        inputs_without_newline(stored_inputs),
        inputs_without_newline(inputs),
    ensures
        !refresh,
        stored_args == args,
        same_inputs(stored_inputs, inputs),
{
    law_meta_determines_request(stored_args, stored_inputs, args, inputs);
}

/// Every cache key is sixteen lowercase hexadecimal digits.
pub proof fn law_cache_key_is_sixteen_hex_digits(bytes: Seq<u8>)
    ensures
        fnv1a64_key(bytes).len() == 16,
        forall|i: int|
            0 <= i < 16 ==> {
                let c = #[trigger] fnv1a64_key(bytes)[i];
                (48 <= c as int <= 57) || (97 <= c as int <= 102)
            },
{
    crate::text::lemma_hex_width_digits(crate::hash::fnv1a64(bytes) as nat, 16);
}

} // verus!

verus! {

/// True when `ext` (free of dots) is the extension of the file name
/// `name`: the name ends in a dot followed by `ext`.
pub open spec fn has_extension(name: Seq<char>, ext: Seq<char>) -> bool {
    &&& !ext.contains('.')
    &&& name.len() > ext.len()
    &&& name[name.len() - ext.len() - 1] == '.'
    &&& name.skip(name.len() - ext.len()) == ext
}

/// The temporary files that a store writes carry the extension `tmp`, which
/// `--cache-stats` sweeps when a store was interrupted; the files of a
/// stored entry carry their own extension, which is never `tmp`.
pub proof fn law_temp_files_are_swept_and_entries_kept(
    key: Seq<char>,
    pid: u32,
    stamp: u128,
    file: CacheFile,
)
    ensures
        has_extension(temp_name(key, pid, stamp, file), "tmp"@),
        has_extension(entry_file_name(key, file), cache_file_ext(file)),
        cache_file_ext(file) != "tmp"@,
{
    reveal_strlit(".tmp");
    reveal_strlit("tmp");
    reveal_strlit(".");
    reveal_strlit("out");
    reveal_strlit("err");
    reveal_strlit("code");
    reveal_strlit("meta");
    let t = temp_name(key, pid, stamp, file);
    assert(t.skip(t.len() - 3) =~= "tmp"@);
    assert(t[t.len() - 4] == '.');
    let e = entry_file_name(key, file);
    let x = cache_file_ext(file);
    assert(e.skip(e.len() - x.len()) =~= x);
    assert(e[e.len() - x.len() - 1] == '.');
    assert(!"tmp"@.contains('.')) by {
        assert forall|i: int| 0 <= i < 3 implies "tmp"@[i] != '.' by {}
    }
    assert(!x.contains('.')) by {
        assert forall|i: int| 0 <= i < x.len() implies x[i] != '.' by {}
    }
    assert(x != "tmp"@) by {
        if x.len() == 3 {
            assert(x[0] != "tmp"@[0]);
        }
    }
}

} // verus!

verus! {

/// Only the extension `tmp` marks a leftover: a file without an extension
/// is kept, and so are the files of a stored entry (`out`, `err`, `code`,
/// `meta`); only `out` counts as an entry.
pub proof fn law_only_tmp_files_are_leftovers(e: &str)
    ensures
        is_leftover(Some(e)) <==> e@ == "tmp"@,
        !is_leftover(None),
        (e@ == "out"@ || e@ == "err"@ || e@ == "code"@ || e@ == "meta"@) ==> !is_leftover(Some(e)),
        is_entry_output(Some(e)) <==> e@ == "out"@,
        !is_entry_output(None),
{
    reveal_strlit("tmp");
    reveal_strlit("out");
    reveal_strlit("err");
    reveal_strlit("code");
    reveal_strlit("meta");
    if e@ == "out"@ || e@ == "err"@ || e@ == "meta"@ {
        assert(e@[0] != "tmp"@[0]);
    }
    if e@ == "code"@ {
        assert(e@.len() != "tmp"@.len());
    }
}

} // verus!

verus! {

/// An entry's files are named by the extensions `out` (standard output),
/// `err` (standard error), `code` (exit code) and `meta` (metadata).
pub proof fn law_entry_file_extensions()
    ensures
        cache_file_ext(CacheFile::Stdout) == "out"@,
        cache_file_ext(CacheFile::Stderr) == "err"@,
        cache_file_ext(CacheFile::ExitCode) == "code"@,
        cache_file_ext(CacheFile::Metadata) == "meta"@,
{
}

/// A stored entry is replayed exactly when `--refresh` is off, all four of
/// its files exist, and its recorded metadata equals the current one.
pub proof fn law_replay_needs_a_complete_matching_entry(
    refresh: bool,
    lookup: CacheLookup,
    meta: Seq<char>,
)
    ensures
        replays(refresh, lookup, meta) <==> (!refresh && lookup.out_exists && lookup.err_exists
            && lookup.code_exists && lookup.meta_exists && lookup.stored_meta@ == meta),
{
}

} // verus!
