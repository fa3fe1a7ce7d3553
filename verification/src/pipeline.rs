//! The compilation pipeline: extract raw entries from the document, resolve
//! official-content entries, normalize and filter community entries, sort,
//! then format the output and report missing required identifiers. One run
//! is a pure function of its inputs.

use vstd::prelude::*;

use crate::extract::{
    display_names_in, dlc_rows_selector, extract_dlc_names, extract_mod_names, mod_rows_selector,
};
use crate::format::{format_mods, format_spec};
use crate::ignore::contains_id;
use crate::normalize::{normalize, normalized_of};
use crate::require::{check_required, missing_message_of};
use crate::resolve::{lemma_resolved_from_table, resolve_all, resolved_of};
use crate::sort::{lemma_sort_contains, sort_mods, sort_spec};
use crate::text::is_alnum;

verus! {

/// The identifiers the community section contributes: each raw name
/// normalized, names that strip to nothing dropped, suppressed identifiers
/// excluded, in input order.
pub open spec fn community_of(names: Seq<Seq<char>>, ignore: Seq<Seq<char>>) -> Seq<Seq<char>>
    decreases names.len(),
{
    if names.len() == 0 {
        Seq::empty()
    } else {
        let rest = community_of(names.drop_last(), ignore);
        match normalized_of(names.last()) {
            Some(id) => if ignore.contains(id) {
                rest
            } else {
                rest.push(id)
            },
            None => rest,
        }
    }
}

/// Normalizes the community display names and drops the suppressed ones.
pub fn filter_community(names: &Vec<String>, ignore: &Vec<String>) -> (r: Vec<String>)
    ensures
        r.deep_view() == community_of(names.deep_view(), ignore.deep_view()),
{
    let mut out: Vec<String> = Vec::new();
    let mut i: usize = 0;
    proof {
        assert(names.deep_view().subrange(0, 0) =~= Seq::<Seq<char>>::empty());
        assert(out.deep_view() =~= Seq::<Seq<char>>::empty());
    }
    while i < names.len()
        invariant
            i <= names.len(),
            out.deep_view() == community_of(
                names.deep_view().subrange(0, i as int),
                ignore.deep_view(),
            ),
        decreases names.len() - i,
    {
        let ghost prefix1 = names.deep_view().subrange(0, i + 1);
        proof {
            assert(prefix1.drop_last() =~= names.deep_view().subrange(0, i as int));
            assert(prefix1.last() == names.deep_view()[i as int]);
        }
        let ghost before = out.deep_view();
        match normalize(names[i].as_str()) {
            Some(id) => {
                proof {
                    assert(normalized_of(names.deep_view()[i as int]) == Some(id@));
                }
                if !contains_id(ignore, &id) {
                    out.push(id);
                    proof {
                        assert(out.deep_view() =~= before.push(
                            normalized_of(prefix1.last())->Some_0,
                        ));
                    }
                }
            },
            None => {},
        }
        i += 1;
    }
    proof {
        assert(names.deep_view().subrange(0, names.len() as int) =~= names.deep_view());
    }
    out
}

/// The final identifier sequence of a run: the resolved official entries,
/// then the filtered community entries, sorted case-insensitively.
pub open spec fn final_ids(
    doc: Seq<char>,
    table: Seq<(Seq<char>, Seq<char>)>,
    ignore: Seq<Seq<char>>,
) -> Seq<Seq<char>> {
    sort_spec(
        resolved_of(table, display_names_in(doc, dlc_rows_selector())) + community_of(
            display_names_in(doc, mod_rows_selector()),
            ignore,
        ),
    )
}

/// The whole pipeline as a function of its inputs: the formatted output
/// string and the optional missing-requirements diagnostic.
pub open spec fn pipeline_spec(
    doc: Seq<char>,
    table: Seq<(Seq<char>, Seq<char>)>,
    ignore: Seq<Seq<char>>,
    required: Seq<Seq<char>>,
    fenced: bool,
) -> (Seq<char>, Option<Seq<char>>) {
    let ids = final_ids(doc, table, ignore);
    (format_spec(ids, fenced), missing_message_of(required, ids))
}

/// Everything one run returns: the formatted identifier string and the
/// missing-requirements diagnostic, if any.
pub struct CompilationOutput {
    pub mods: String,
    pub missing: Option<String>,
}

/// Runs one compilation: parse, resolve, normalize, filter, sort, check,
/// format.
pub fn compile(
    document: &str,
    table: &Vec<(String, String)>,
    ignore: &Vec<String>,
    required: &Vec<String>,
    fenced: bool,
) -> (r: CompilationOutput)
    ensures
        (r.mods@, r.missing.deep_view()) == pipeline_spec(
            document@,
            table.deep_view(),
            ignore.deep_view(),
            required.deep_view(),
            fenced,
        ),
{
    let dlc_names = extract_dlc_names(document);
    let mod_names = extract_mod_names(document);
    let mut combined = resolve_all(table, &dlc_names);
    let mut community = filter_community(&mod_names, ignore);
    let ghost officials_part = combined.deep_view();
    let ghost community_part = community.deep_view();
    combined.append(&mut community);
    proof {
        assert(combined.deep_view() =~= officials_part + community_part);
    }
    let sorted = sort_mods(&combined);
    let mods = format_mods(&sorted, fenced);
    let missing = check_required(required, &sorted);
    CompilationOutput { mods, missing }
}

/// The application state one run fills: the compiled identifier string,
/// the fenced-output flag, and the missing-requirements diagnostic.
pub struct ModListInfo {
    pub mods: String,
    pub backticks: bool,
    pub missing_mods: String,
}

/// The compilation configuration held for the lifetime of the process: the
/// official-content lookup table and the suppression set.
pub struct MyDelegate {
    pub dlc_prefixes: Vec<(String, String)>,
    pub ignored_mods: Vec<String>,
}

impl MyDelegate {
    /// Handles one import of a preset document: compiles it and publishes
    /// the result into the application state. The fenced flag is read from
    /// the state and kept; the diagnostic field is emptied when nothing is
    /// missing.
    pub fn command(&self, document: &str, required: &Vec<String>, data: &mut ModListInfo)
        ensures
            ({
                let out = pipeline_spec(
                    document@,
                    self.dlc_prefixes.deep_view(),
                    self.ignored_mods.deep_view(),
                    required.deep_view(),
                    old(data).backticks,
                );
                &&& final(data).mods@ == out.0
                &&& final(data).backticks == old(data).backticks
                &&& final(data).missing_mods@ == match out.1 {
                    Some(m) => m,
                    None => Seq::<char>::empty(),
                }
            }),
    {
        let out = compile(
            document,
            &self.dlc_prefixes,
            &self.ignored_mods,
            required,
            data.backticks,
        );
        data.mods = out.mods;
        match out.missing {
            Some(m) => {
                data.missing_mods = m;
            },
            None => {
                data.missing_mods = String::new();
            },
        }
    }
}

/// A raw name with no alphanumeric characters contributes nothing: the
/// community sequence over the names with it appended equals the one
/// without it, so no bare `@` ever enters the result.
pub proof fn lemma_empty_strip_dropped(
    names: Seq<Seq<char>>,
    ignore: Seq<Seq<char>>,
    name: Seq<char>,
)
    requires
        normalized_of(name) is None,
    ensures
        community_of(names.push(name), ignore) == community_of(names, ignore),
{
    assert(names.push(name).drop_last() =~= names);
    assert(names.push(name).last() == name);
}

/// The community pass never lets a suppressed identifier through.
pub proof fn lemma_community_ignored_absent(
    names: Seq<Seq<char>>,
    ignore: Seq<Seq<char>>,
    x: Seq<char>,
)
    requires
        ignore.contains(x),
    ensures
        !community_of(names, ignore).contains(x),
    decreases names.len(),
{
    if names.len() == 0 {
    } else {
        lemma_community_ignored_absent(names.drop_last(), ignore, x);
        let rest = community_of(names.drop_last(), ignore);
        match normalized_of(names.last()) {
            Some(id) => {
                if !ignore.contains(id) {
                    if rest.push(id).contains(x) {
                        let k = choose|k: int|
                            0 <= k < rest.push(id).len() && rest.push(id)[k] == x;
                        if k < rest.len() {
                            assert(rest[k] == x);
                        } else {
                            assert(x == id);
                        }
                    }
                }
            },
            None => {},
        }
    }
}

/// An identifier in the suppression set never appears in the final
/// sequence, however often the document mentions it in the community
/// section — as long as the lookup table does not itself resolve an
/// official entry to that identifier, which the filter by design never
/// touches.
pub proof fn lemma_ignored_absent(
    doc: Seq<char>,
    table: Seq<(Seq<char>, Seq<char>)>,
    ignore: Seq<Seq<char>>,
    x: Seq<char>,
)
    requires
        ignore.contains(x),
        !resolved_of(table, display_names_in(doc, dlc_rows_selector())).contains(x),
    ensures
        !final_ids(doc, table, ignore).contains(x),
{
    let officials = resolved_of(table, display_names_in(doc, dlc_rows_selector()));
    let community = community_of(display_names_in(doc, mod_rows_selector()), ignore);
    lemma_community_ignored_absent(display_names_in(doc, mod_rows_selector()), ignore, x);
    lemma_sort_contains(officials + community, x);
    if (officials + community).contains(x) {
        let k = choose|k: int|
            0 <= k < (officials + community).len() && (officials + community)[k] == x;
        if k < officials.len() {
            assert(officials[k] == x);
        } else {
            assert(community[k - officials.len()] == x);
        }
    }
}

/// The canonical identifier shape: a leading `@` with only alphanumeric
/// characters after it.
pub open spec fn is_canonical(id: Seq<char>) -> bool {
    id.len() >= 1 && id[0] == '@' && forall|j: int| 1 <= j < id.len() ==> is_alnum(#[trigger] id[j])
}

/// Every identifier the community pass yields is canonical: normalization
/// leaves only a leading `@` and alphanumeric characters.
pub proof fn lemma_community_canonical(names: Seq<Seq<char>>, ignore: Seq<Seq<char>>, k: int)
    requires
        0 <= k < community_of(names, ignore).len(),
    ensures
        is_canonical(community_of(names, ignore)[k]),
    decreases names.len(),
{
    if names.len() == 0 {
    } else {
        let rest = community_of(names.drop_last(), ignore);
        match normalized_of(names.last()) {
            Some(id) => {
                let f = names.last().filter(|c: char| is_alnum(c));
                assert forall|j: int| 0 <= j < f.len() implies is_alnum(#[trigger] f[j]) by {
                    names.last().lemma_filter_pred(|c: char| is_alnum(c), j);
                }
                assert(is_canonical(id));
                if ignore.contains(id) {
                    lemma_community_canonical(names.drop_last(), ignore, k);
                } else {
                    if k < rest.len() {
                        lemma_community_canonical(names.drop_last(), ignore, k);
                    }
                }
            },
            None => {
                lemma_community_canonical(names.drop_last(), ignore, k);
            },
        }
    }
}

/// Every identifier in the final sequence is canonical, provided every
/// identifier the lookup table can yield is canonical itself: community
/// entries are canonical by normalization, official entries by this
/// assumption on the table.
pub proof fn lemma_final_canonical(
    doc: Seq<char>,
    table: Seq<(Seq<char>, Seq<char>)>,
    ignore: Seq<Seq<char>>,
    k: int,
)
    requires
        forall|t: int| 0 <= t < table.len() ==> is_canonical(#[trigger] table[t].1),
        0 <= k < final_ids(doc, table, ignore).len(),
    ensures
        is_canonical(final_ids(doc, table, ignore)[k]),
{
    let officials = resolved_of(table, display_names_in(doc, dlc_rows_selector()));
    let community = community_of(display_names_in(doc, mod_rows_selector()), ignore);
    let combined = officials + community;
    let id = final_ids(doc, table, ignore)[k];
    assert(final_ids(doc, table, ignore).contains(id));
    lemma_sort_contains(combined, id);
    let j = choose|j: int| 0 <= j < combined.len() && combined[j] == id;
    if j < officials.len() {
        lemma_resolved_from_table(table, display_names_in(doc, dlc_rows_selector()), j);
    } else {
        assert(community[j - officials.len()] == id);
        lemma_community_canonical(
            display_names_in(doc, mod_rows_selector()),
            ignore,
            j - officials.len(),
        );
    }
}

/// One run is a pure function of its inputs: two outputs computed from an
/// identical document, lookup table, suppression set, required list and
/// flag are identical.
pub proof fn lemma_pipeline_deterministic(
    doc: Seq<char>,
    table: Seq<(Seq<char>, Seq<char>)>,
    ignore: Seq<Seq<char>>,
    required: Seq<Seq<char>>,
    fenced: bool,
    out1: (Seq<char>, Option<Seq<char>>),
    out2: (Seq<char>, Option<Seq<char>>),
)
    requires
        out1 == pipeline_spec(doc, table, ignore, required, fenced),
        out2 == pipeline_spec(doc, table, ignore, required, fenced),
    ensures
        out1 == out2,
{
}

} // verus!
