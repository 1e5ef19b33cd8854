//! Command-line arguments, source-name matching and interactive selection.
use vstd::prelude::*;

use crate::ndi::Source;
use crate::text::{
    chars_of, contains, contains_chars, decimal, decimal_string_usize, lowercase, parse_usize,
    string_of, to_lower, trim, trim_chars, usize_value, lemma_usize_round_trip, occurs_at,
    all_white_space, lemma_decimal_reads_back, lemma_digit_not_white_space, lemma_trim_surrounded,
};

verus! {

/// The command-line arguments.
#[derive(Debug)]
pub struct Args {
    /// List discovered NDI sources and exit.
    pub list: bool,
    /// NDI source name (case-insensitive substring match).
    pub source: Option<String>,
    /// Server name to publish under (default: the NDI source name).
    pub name: Option<String>,
    /// Discovery / capture timeout in milliseconds.
    pub timeout_ms: u32,
    /// Verbose logging (resolution, fps).
    pub verbose: bool,
}

/// How a query matched the list of source names.
#[derive(Debug)]
pub enum SourceMatch {
    NoMatch,
    One(usize),
    Many(Vec<usize>),
}

/// The index of the first name among the first `n` that equals `q`.
pub open spec fn first_exact(names: Seq<Seq<char>>, q: Seq<char>, n: nat) -> Option<usize>
    decreases n,
{
    if n == 0 {
        None
    } else {
        match first_exact(names, q, (n - 1) as nat) {
            Some(i) => Some(i),
            None => if names[n - 1] == q {
                Some((n - 1) as usize)
            } else {
                None
            },
        }
    }
}

/// The indices, in increasing order, of the names among the first `n`
/// that contain `q`.
pub open spec fn substring_hits(names: Seq<Seq<char>>, q: Seq<char>, n: nat) -> Seq<usize>
    decreases n,
{
    if n == 0 {
        Seq::empty()
    } else {
        let prev = substring_hits(names, q, (n - 1) as nat);
        if contains(names[n - 1], q) {
            prev.push((n - 1) as usize)
        } else {
            prev
        }
    }
}

/// What matching `q` against `names` (both already case-folded) yields: the
/// first name equal to `q` if there is one; otherwise the names containing
/// `q`: none, exactly one, or several (in increasing order).
pub open spec fn is_match_of(r: SourceMatch, names: Seq<Seq<char>>, q: Seq<char>) -> bool {
    match first_exact(names, q, names.len()) {
        Some(i) => r == SourceMatch::One(i),
        None => {
            let hits = substring_hits(names, q, names.len());
            if hits.len() == 0 {
                r is NoMatch
            } else if hits.len() == 1 {
                r == SourceMatch::One(hits[0])
            } else {
                r matches SourceMatch::Many(v) && v@ == hits
            }
        },
    }
}

/// The case-folded characters of every name.
pub open spec fn folded_names(names: Seq<String>) -> Seq<Seq<char>> {
    names.map_values(|n: String| lowercase(n@))
}

/// The characters of every string.
pub open spec fn string_views(names: Seq<String>) -> Seq<Seq<char>> {
    names.map_values(|n: String| n@)
}

/// Matches an already case-folded query against already case-folded names:
/// an exact match wins; otherwise the substring matches decide.
pub fn match_folded(names: &[String], query: &str) -> (r: SourceMatch)
    ensures
        is_match_of(r, string_views(names@), query@),
{
    let ghost views = string_views(names@);
    let n = names.len();
    let q = chars_of(query);
    let mut i: usize = 0;
    while i < n
        invariant
            n == names@.len(),
            i <= n,
            views == string_views(names@),
            q@ == query@,
            first_exact(views, query@, i as nat) is None,
        decreases n - i,
    {
        let name_chars = chars_of(names[i].as_str());
        assert(views[i as int] == names@[i as int]@);
        if name_chars.len() == q.len() && eq_chars(&name_chars, &q) {
            assert(first_exact(views, query@, i as nat) is None);
            assert(first_exact(views, query@, (i + 1) as nat) == Some(i));
            proof {
                lemma_first_exact_stable(views, query@, (i + 1) as nat, n as nat);
            }
            return SourceMatch::One(i);
        }
        i = i + 1;
    }
    let mut hits: Vec<usize> = Vec::new();
    let mut j: usize = 0;
    while j < n
        invariant
            n == names@.len(),
            j <= n,
            views == string_views(names@),
            q@ == query@,
            hits@ == substring_hits(views, query@, j as nat),
        decreases n - j,
    {
        let name_chars = chars_of(names[j].as_str());
        assert(views[j as int] == names@[j as int]@);
        if contains_chars(&name_chars, &q) {
            hits.push(j);
        }
        j = j + 1;
    }
    if hits.len() == 0 {
        SourceMatch::NoMatch
    } else if hits.len() == 1 {
        SourceMatch::One(hits[0])
    } else {
        SourceMatch::Many(hits)
    }
}

/// Once found, the first exact match stays the first.
proof fn lemma_first_exact_stable(names: Seq<Seq<char>>, q: Seq<char>, m: nat, n: nat)
    requires
        m <= n,
        first_exact(names, q, m) is Some,
    ensures
        first_exact(names, q, n) == first_exact(names, q, m),
    decreases n - m,
{
    if m < n {
        lemma_first_exact_stable(names, q, m, (n - 1) as nat);
    }
}

/// True iff `a` and `b` hold the same characters.
fn eq_chars(a: &Vec<char>, b: &Vec<char>) -> (r: bool)
    requires
        a.len() == b.len(),
    ensures
        r == (a@ == b@),
{
    let mut i: usize = 0;
    while i < a.len()
        invariant
            a.len() == b.len(),
            i <= a.len(),
            forall|k: int| 0 <= k < i ==> a@[k] == b@[k],
        decreases a.len() - i,
    {
        if a[i] != b[i] {
            return false;
        }
        i = i + 1;
    }
    assert(a@ =~= b@);
    true
}

/// Matches `query` against `names` case-insensitively: a name equal to the
/// query wins; otherwise the names containing the query decide.
pub fn match_source(names: &[String], query: &str) -> (r: SourceMatch)
    ensures
        is_match_of(r, folded_names(names@), lowercase(query@)),
{
    let q = to_lower(query);
    let mut folded: Vec<String> = Vec::new();
    let mut i: usize = 0;
    while i < names.len()
        invariant
            i <= names@.len(),
            folded@.len() == i,
            string_views(folded@) == folded_names(names@).take(i as int),
        decreases names.len() - i,
    {
        let f = to_lower(names[i].as_str());
        assert(folded_names(names@)[i as int] == lowercase(names@[i as int]@));
        let ghost prev = folded@;
        folded.push(f);
        assert forall|k: int| 0 <= k <= i implies #[trigger] string_views(folded@)[k]
            == folded_names(names@).take(i + 1)[k] by {
            if k < i {
                assert(folded@[k] == prev[k]);
                assert(string_views(prev)[k] == folded_names(names@).take(i as int)[k]);
            }
        }
        i = i + 1;
        assert(string_views(folded@) =~= folded_names(names@).take(i as int));
    }
    assert(folded_names(names@).take(names@.len() as int) =~= folded_names(names@));
    match_folded(folded.as_slice(), q.as_str())
}

/// The message for a selection that is not a number.
pub open spec fn not_a_number_message(trimmed: Seq<char>) -> Seq<char> {
    "'"@ + trimmed + "' is not a number"@
}

/// The message for a selection number outside `1..=count`.
pub open spec fn out_of_range_message(count: nat) -> Seq<char> {
    "choose 1..="@ + decimal(count)
}

/// What reading `input` as a 1-based choice among `count` items gives:
/// the zero-based index, or the message explaining the refusal.
pub open spec fn selection_result(input: Seq<char>, count: nat, r: Result<usize, String>) -> bool {
    let t = trim(input);
    match usize_value(t) {
        None => r matches Err(e) && e@ == not_a_number_message(t),
        Some(n) => if 1 <= n <= count {
            r == Ok::<usize, String>((n - 1) as usize)
        } else {
            r matches Err(e) && e@ == out_of_range_message(count)
        },
    }
}

/// Reads a 1-based choice among `count` items from a line of input
/// (surrounding whitespace ignored) and returns it zero-based.
pub fn parse_selection(input: &str, count: usize) -> (r: Result<usize, String>)
    ensures
        selection_result(input@, count as nat, r),
{
    let chars = chars_of(input);
    let t = trim_chars(&chars);
    match parse_usize(&t) {
        None => {
            let mut msg = String::from_str("'");
            let ts = string_of(&t);
            msg.append(ts.as_str());
            msg.append("' is not a number");
            Err(msg)
        },
        Some(n) => {
            if n == 0 || n > count {
                let mut msg = String::from_str("choose 1..=");
                let c = decimal_string_usize(count);
                msg.append(c.as_str());
                Err(msg)
            } else {
                Ok(n - 1)
            }
        },
    }
}

/// The names of the sources, in order.
pub open spec fn source_names(sources: Seq<Source>) -> Seq<String> {
    sources.map_values(|s: Source| s.name)
}

/// The message when no source matches `q`.
pub open spec fn no_match_message(q: Seq<char>, sources: Seq<Source>) -> Seq<char> {
    "no source matches '"@ + q + "'. Available:\n"@ + listing(sources, sources.len())
}

/// The message when `n` sources match `q`.
pub open spec fn ambiguous_message(q: Seq<char>, n: nat, sources: Seq<Source>) -> Seq<char> {
    "'"@ + q + "' is ambiguous ("@ + decimal(n) + " matches). Be more specific:\n"@ + listing(
        sources,
        sources.len(),
    )
}

/// What choosing a source by the query `q` gives: the index of the source
/// that `match_source` settles on, or the message explaining why none could
/// be chosen.
pub open spec fn choice_of(sources: Seq<Source>, q: Seq<char>, r: Result<usize, String>) -> bool {
    let names = folded_names(source_names(sources));
    let lq = lowercase(q);
    match first_exact(names, lq, names.len()) {
        Some(i) => r == Ok::<usize, String>(i),
        None => {
            let hits = substring_hits(names, lq, names.len());
            if hits.len() == 0 {
                r matches Err(e) && e@ == no_match_message(q, sources)
            } else if hits.len() == 1 {
                r == Ok::<usize, String>(hits[0])
            } else {
                r matches Err(e) && e@ == ambiguous_message(q, hits.len(), sources)
            }
        },
    }
}

/// Chooses the source that `query` names (see `match_source`), or explains,
/// listing the sources, why none can be chosen.
pub fn select_source(sources: &[Source], query: &str) -> (r: Result<usize, String>)
    ensures
        choice_of(sources@, query@, r),
{
    let mut names: Vec<String> = Vec::new();
    let mut i: usize = 0;
    while i < sources.len()
        invariant
            i <= sources@.len(),
            names@ == source_names(sources@).take(i as int),
        decreases sources.len() - i,
    {
        names.push(sources[i].name.clone());
        i = i + 1;
        assert(names@ =~= source_names(sources@).take(i as int));
    }
    assert(source_names(sources@).take(sources@.len() as int) =~= source_names(sources@));
    match match_source(names.as_slice(), query) {
        SourceMatch::One(i) => Ok(i),
        SourceMatch::NoMatch => {
            let mut msg = String::from_str("no source matches '");
            msg.append(query);
            msg.append("'. Available:\n");
            let list = list_str(sources);
            msg.append(list.as_str());
            Err(msg)
        },
        SourceMatch::Many(v) => {
            let mut msg = String::from_str("'");
            msg.append(query);
            msg.append("' is ambiguous (");
            let n = decimal_string_usize(v.len());
            msg.append(n.as_str());
            msg.append(" matches). Be more specific:\n");
            let list = list_str(sources);
            msg.append(list.as_str());
            Err(msg)
        },
    }
}

/// The name to publish under: the one given, else the source's own name.
pub fn server_name(name: &Option<String>, source: &Source) -> (r: String)
    ensures
        r@ == (match name {
            Some(n) => n@,
            None => source.name@,
        }),
{
    match name {
        Some(n) => n.clone(),
        None => source.name.clone(),
    }
}

/// The discovery / capture timeout used when none is given, in milliseconds.
pub const DEFAULT_TIMEOUT_MS: u32 = 5000;

/// One entry of a source listing: `"  <i+1>: <name>"`.
pub open spec fn listing_entry(i: int, name: Seq<char>) -> Seq<char> {
    "  "@ + decimal((i + 1) as nat) + ": "@ + name
}

/// The entries for the first `n` sources, one per line.
pub open spec fn listing(sources: Seq<Source>, n: nat) -> Seq<char>
    decreases n,
{
    if n == 0 {
        Seq::empty()
    } else if n == 1 {
        listing_entry(0, sources[0].name@)
    } else {
        listing(sources, (n - 1) as nat) + "\n"@ + listing_entry(n - 1, sources[n - 1].name@)
    }
}

/// The sources, numbered from 1, one per line (used in error messages).
pub fn list_str(sources: &[Source]) -> (r: String)
    ensures
        r@ == listing(sources@, sources@.len()),
{
    let mut out = String::new();
    let mut i: usize = 0;
    while i < sources.len()
        invariant
            i <= sources@.len(),
            out@ == listing(sources@, i as nat),
        decreases sources.len() - i,
    {
        if i > 0 {
            out.append("\n");
        }
        out.append("  ");
        let num = decimal_string_usize(i + 1);
        out.append(num.as_str());
        out.append(": ");
        out.append(sources[i].name.as_str());
        i = i + 1;
        assert(out@ =~= listing(sources@, i as nat));
    }
    out
}

/// The line printed for source `i`: `"<i+1>: <name> (<url>)"`.
pub open spec fn source_line(i: int, s: Source) -> Seq<char> {
    decimal((i + 1) as nat) + ": "@ + s.name@ + " ("@ + s.url@ + ")"@
}

/// The line printed when no source was found.
pub open spec fn no_sources_line() -> Seq<char> {
    "(no NDI sources found)"@
}

/// The lines that present the discovered sources to the user.
pub fn source_lines(sources: &[Source]) -> (r: Vec<String>)
    ensures
        sources@.len() == 0 ==> r@.len() == 1 && r@[0]@ == no_sources_line(),
        sources@.len() > 0 ==> r@.len() == sources@.len() && forall|i: int|
            0 <= i < r@.len() ==> #[trigger] r@[i]@ == source_line(i, sources@[i]),
{
    let mut lines: Vec<String> = Vec::new();
    if sources.len() == 0 {
        lines.push(String::from_str("(no NDI sources found)"));
        return lines;
    }
    let mut i: usize = 0;
    while i < sources.len()
        invariant
            i <= sources@.len(),
            lines@.len() == i,
            forall|k: int| 0 <= k < i ==> #[trigger] lines@[k]@ == source_line(k, sources@[k]),
        decreases sources.len() - i,
    {
        let mut line = decimal_string_usize(i + 1);
        line.append(": ");
        line.append(sources[i].name.as_str());
        line.append(" (");
        line.append(sources[i].url.as_str());
        line.append(")");
        assert(line@ =~= source_line(i as int, sources@[i as int]));
        lines.push(line);
        i = i + 1;
    }
    lines
}

/// The first exact match is a name equal to the query and no earlier name
/// is; when there is none, no name equals the query.
pub proof fn lemma_first_exact_is_first(names: Seq<Seq<char>>, q: Seq<char>, n: nat)
    requires
        n <= names.len() <= usize::MAX,
    ensures
        match first_exact(names, q, n) {
            Some(i) => i < n && names[i as int] == q && forall|j: int|
                0 <= j < i ==> names[j] != q,
            None => forall|j: int| 0 <= j < n ==> names[j] != q,
        },
    decreases n,
{
    if n > 0 {
        lemma_first_exact_is_first(names, q, (n - 1) as nat);
    }
}

/// The substring matches are exactly the names that contain the query,
/// each once, in increasing order.
pub proof fn lemma_substring_hits_exact(names: Seq<Seq<char>>, q: Seq<char>, n: nat)
    requires
        n <= names.len() <= usize::MAX,
    ensures
        forall|k: int|
            0 <= k < substring_hits(names, q, n).len() ==> {
                let i = #[trigger] substring_hits(names, q, n)[k];
                i < n && contains(names[i as int], q)
            },
        forall|k1: int, k2: int|
            0 <= k1 < k2 < substring_hits(names, q, n).len() ==> substring_hits(names, q, n)[k1]
                < substring_hits(names, q, n)[k2],
        forall|i: int|
            0 <= i < n && contains(names[i], q) ==> substring_hits(names, q, n).contains(
                i as usize,
            ),
    decreases n,
{
    if n > 0 {
        lemma_substring_hits_exact(names, q, (n - 1) as nat);
        let prev = substring_hits(names, q, (n - 1) as nat);
        let h = substring_hits(names, q, n);
        if contains(names[n - 1], q) {
            assert(h == prev.push((n - 1) as usize));
            assert forall|i: int| 0 <= i < n && contains(names[i], q) implies h.contains(
                i as usize,
            ) by {
                if i < n - 1 {
                    let k = choose|k: int| 0 <= k < prev.len() && prev[k] == i as usize;
                    assert(h[k] == i as usize);
                } else {
                    assert(h[h.len() - 1] == i as usize);
                }
            }
        }
    }
}

/// An equal name contains the query.
proof fn lemma_equal_contains(name: Seq<char>, q: Seq<char>)
    requires
        name == q,
    ensures
        contains(name, q),
{
    assert(name.subrange(0, q.len() as int) =~= q);
    assert(occurs_at(name, q, 0));
}

/// Whatever a match answers is sound: `One` names a source that contains the
/// query, `Many` lists at least two such sources in increasing order, and
/// `NoMatch` means that no source contains the query.
pub proof fn lemma_match_is_sound(r: SourceMatch, names: Seq<Seq<char>>, q: Seq<char>)
    requires
        is_match_of(r, names, q),
        names.len() <= usize::MAX,
    ensures
        match r {
            SourceMatch::One(i) => i < names.len() && contains(names[i as int], q),
            SourceMatch::Many(v) => {
                &&& v@.len() >= 2
                &&& forall|k: int|
                    0 <= k < v@.len() ==> #[trigger] v@[k] < names.len() && contains(
                        names[v@[k] as int],
                        q,
                    )
                &&& forall|k1: int, k2: int| 0 <= k1 < k2 < v@.len() ==> v@[k1] < v@[k2]
            },
            SourceMatch::NoMatch => forall|i: int| 0 <= i < names.len() ==> !contains(names[i], q),
        },
{
    lemma_first_exact_is_first(names, q, names.len());
    lemma_substring_hits_exact(names, q, names.len());
    let hits = substring_hits(names, q, names.len());
    match first_exact(names, q, names.len()) {
        Some(i) => {
            lemma_equal_contains(names[i as int], q);
        },
        None => {
            if hits.len() == 1 {
                assert(hits[0] == hits[0]);
            }
            if hits.len() == 0 {
                assert forall|i: int| 0 <= i < names.len() implies !contains(names[i], q) by {
                    if contains(names[i], q) {
                        assert(hits.contains(i as usize));
                    }
                }
            }
        },
    }
}

/// True iff no name equals `q`.
pub open spec fn no_name_equals(names: Seq<Seq<char>>, q: Seq<char>) -> bool {
    forall|k: int| 0 <= k < names.len() ==> names[k] != q
}

/// A match answer is complete: a name equal to the query is always the
/// answer (the first such); when no name equals it, `One(i)` means that `i`
/// is the only name containing the query, and `Many` lists every name that
/// contains it. So when two names contain the query and none equals it, the
/// answer is `Many`.
pub proof fn lemma_match_is_complete(r: SourceMatch, names: Seq<Seq<char>>, q: Seq<char>)
    requires
        is_match_of(r, names, q),
        names.len() <= usize::MAX,
    ensures
        !no_name_equals(names, q) ==> match r {
            SourceMatch::One(i) => i < names.len() && names[i as int] == q && forall|k: int|
                0 <= k < i ==> names[k] != q,
            _ => false,
        },
        no_name_equals(names, q) ==> match r {
            SourceMatch::One(i) => forall|j: int|
                0 <= j < names.len() && j != i ==> !contains(names[j], q),
            SourceMatch::Many(v) => forall|j: int|
                0 <= j < names.len() ==> (contains(names[j], q) <==> v@.contains(j as usize)),
            SourceMatch::NoMatch => true,
        },
        forall|i: int, j: int|
            0 <= i < j < names.len() && no_name_equals(names, q) && contains(names[i], q) && contains(
                names[j],
                q,
            ) ==> r is Many,
{
    lemma_first_exact_is_first(names, q, names.len());
    lemma_substring_hits_exact(names, q, names.len());
    lemma_match_is_sound(r, names, q);
    let hits = substring_hits(names, q, names.len());
    match first_exact(names, q, names.len()) {
        Some(i) => {
            assert(!no_name_equals(names, q));
        },
        None => {
            assert(no_name_equals(names, q));
            assert forall|i: int, j: int|
                0 <= i < j < names.len() && contains(names[i], q) && contains(
                    names[j],
                    q,
                ) implies hits.len() >= 2 by {
                assert(hits.contains(i as usize));
                assert(hits.contains(j as usize));
                if hits.len() < 2 {
                    let ki = choose|k: int| 0 <= k < hits.len() && hits[k] == i as usize;
                    let kj = choose|k: int| 0 <= k < hits.len() && hits[k] == j as usize;
                    assert(ki == kj);
                }
            }
            if hits.len() == 1 {
                assert forall|j: int| 0 <= j < names.len() && j != hits[0] implies !contains(
                    names[j],
                    q,
                ) by {
                    if contains(names[j], q) {
                        assert(hits.contains(j as usize));
                    }
                }
            }
            if hits.len() >= 2 {
                assert forall|j: int| 0 <= j < names.len() implies (contains(names[j], q)
                    <==> hits.contains(j as usize)) by {
                    if hits.contains(j as usize) {
                        let k = choose|k: int| 0 <= k < hits.len() && hits[k] == j as usize;
                        assert(hits[k] < names.len() && contains(names[hits[k] as int], q));
                    }
                }
            }
        },
    }
}

/// Choosing by a query picks only a source whose case-folded name equals or
/// contains the case-folded query, and fails whenever no source name
/// contains it, however many sources there are.
pub proof fn lemma_choice_matches_query(sources: Seq<Source>, q: Seq<char>, r: Result<usize, String>)
    requires
        choice_of(sources, q, r),
        sources.len() <= usize::MAX,
    ensures
        match r {
            Ok(i) => i < sources.len() && contains(lowercase(sources[i as int].name@), lowercase(q)),
            Err(_) => true,
        },
        (forall|j: int|
            0 <= j < sources.len() ==> !contains(lowercase(sources[j].name@), lowercase(q)))
            ==> r is Err,
{
    let names = folded_names(source_names(sources));
    let lq = lowercase(q);
    assert forall|j: int| 0 <= j < sources.len() implies names[j] == lowercase(
        sources[j].name@,
    ) by {
        assert(source_names(sources)[j] == sources[j].name);
    }
    lemma_first_exact_is_first(names, lq, names.len());
    lemma_substring_hits_exact(names, lq, names.len());
    let hits = substring_hits(names, lq, names.len());
    match first_exact(names, lq, names.len()) {
        Some(i) => {
            lemma_equal_contains(names[i as int], lq);
        },
        None => {
            if hits.len() == 1 {
                assert(hits[0] < names.len() && contains(names[hits[0] as int], lq));
            }
            if hits.len() > 0 {
                assert(hits[0] < names.len() && contains(names[hits[0] as int], lq));
            }
        },
    }
}

/// Entering the number a source is listed under (see `source_line` and
/// `listing_entry`) selects that source.
pub proof fn lemma_listed_number_selects(i: usize, count: usize, input: Seq<char>)
    requires
        i < count,
        trim(input) == decimal((i + 1) as nat),
    ensures
        selection_result(input, count as nat, Ok(i)),
{
    lemma_usize_round_trip((i + 1) as usize);
}

/// Entering, with any surrounding whitespace, the number a source is listed
/// under (see `source_line` and `listing_entry`) selects that source.
pub proof fn lemma_number_selects(i: usize, count: usize, pre: Seq<char>, post: Seq<char>)
    requires
        i < count,
        all_white_space(pre),
        all_white_space(post),
    ensures
        selection_result(pre + decimal((i + 1) as nat) + post, count as nat, Ok(i)),
{
    let d = decimal((i + 1) as nat);
    lemma_decimal_reads_back((i + 1) as nat);
    lemma_digit_not_white_space(d[0]);
    lemma_digit_not_white_space(d[d.len() - 1]);
    lemma_trim_surrounded(pre, d, post);
    lemma_listed_number_selects(i, count, pre + d + post);
}

} // verus!
