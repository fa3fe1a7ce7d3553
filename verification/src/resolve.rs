//! OfficialContentResolver: maps official-content display names to canonical
//! identifiers through a caller-supplied lookup table. A miss yields nothing;
//! an empty table is a valid configuration under which every entry is
//! dropped.

use vstd::prelude::*;

verus! {

/// The identifier a lookup table yields for a display name: the value of the
/// first entry whose key equals the name, or nothing on a miss.
pub open spec fn lookup_of(table: Seq<(Seq<char>, Seq<char>)>, name: Seq<char>) -> Option<
    Seq<char>,
>
    decreases table.len(),
{
    if table.len() == 0 {
        None
    } else if table[0].0 == name {
        Some(table[0].1)
    } else {
        lookup_of(table.drop_first(), name)
    }
}

/// The identifiers the table yields for a sequence of display names, in
/// input order; names the table does not know contribute nothing.
pub open spec fn resolved_of(
    table: Seq<(Seq<char>, Seq<char>)>,
    names: Seq<Seq<char>>,
) -> Seq<Seq<char>>
    decreases names.len(),
{
    if names.len() == 0 {
        Seq::empty()
    } else {
        let rest = resolved_of(table, names.drop_last());
        match lookup_of(table, names.last()) {
            Some(id) => rest.push(id),
            None => rest,
        }
    }
}

/// A hit returns one of the table's values.
pub proof fn lemma_lookup_in_table(table: Seq<(Seq<char>, Seq<char>)>, name: Seq<char>)
    requires
        lookup_of(table, name) is Some,
    ensures
        exists|t: int|
            0 <= t < table.len() && lookup_of(table, name)->Some_0 == #[trigger] table[t].1,
    decreases table.len(),
{
    if table.len() == 0 {
    } else if table[0].0 == name {
        assert(lookup_of(table, name)->Some_0 == table[0].1);
    } else {
        lemma_lookup_in_table(table.drop_first(), name);
        let t = choose|t: int|
            0 <= t < table.drop_first().len() && lookup_of(table.drop_first(), name)->Some_0
                == #[trigger] table.drop_first()[t].1;
        assert(lookup_of(table, name)->Some_0 == table[t + 1].1);
    }
}

/// Every resolved identifier is one of the table's values.
pub proof fn lemma_resolved_from_table(
    table: Seq<(Seq<char>, Seq<char>)>,
    names: Seq<Seq<char>>,
    k: int,
)
    requires
        0 <= k < resolved_of(table, names).len(),
    ensures
        exists|t: int|
            0 <= t < table.len() && resolved_of(table, names)[k] == #[trigger] table[t].1,
    decreases names.len(),
{
    if names.len() == 0 {
    } else {
        let rest = resolved_of(table, names.drop_last());
        match lookup_of(table, names.last()) {
            Some(id) => {
                if k < rest.len() {
                    lemma_resolved_from_table(table, names.drop_last(), k);
                } else {
                    assert(resolved_of(table, names)[k] == id);
                    lemma_lookup_in_table(table, names.last());
                }
            },
            None => {
                lemma_resolved_from_table(table, names.drop_last(), k);
            },
        }
    }
}

/// Looks one display name up in the table; the first matching entry wins.
pub fn lookup(table: &Vec<(String, String)>, name: &String) -> (r: Option<String>)
    ensures
        r.deep_view() == lookup_of(table.deep_view(), name@),
{
    let mut i: usize = 0;
    proof {
        assert(table.deep_view().skip(0) =~= table.deep_view());
    }
    while i < table.len()
        invariant
            i <= table.len(),
            lookup_of(table.deep_view(), name@) == lookup_of(
                table.deep_view().skip(i as int),
                name@,
            ),
        decreases table.len() - i,
    {
        proof {
            assert(table.deep_view().skip(i as int).drop_first() =~= table.deep_view().skip(
                i + 1,
            ));
            assert(table.deep_view().skip(i as int)[0] == table.deep_view()[i as int]);
        }
        if table[i].0 == *name {
            return Some(table[i].1.clone());
        }
        i += 1;
    }
    proof {
        assert(table.deep_view().skip(table.len() as int) =~= Seq::<
            (Seq<char>, Seq<char>),
        >::empty());
    }
    None
}

/// Resolves every official-content display name, dropping the misses.
pub fn resolve_all(table: &Vec<(String, String)>, names: &Vec<String>) -> (r: Vec<String>)
    ensures
        r.deep_view() == resolved_of(table.deep_view(), names.deep_view()),
{
    let mut out: Vec<String> = Vec::new();
    let mut i: usize = 0;
    proof {
        assert(names.deep_view().subrange(0, 0) =~= Seq::<Seq<char>>::empty());
        assert(out.deep_view() =~= Seq::<Seq<char>>::empty());
    }
    while i < names.len()
        invariant
            i <= names.len(),
            out.deep_view() == resolved_of(
                table.deep_view(),
                names.deep_view().subrange(0, i as int),
            ),
        decreases names.len() - i,
    {
        let ghost prefix = names.deep_view().subrange(0, i as int);
        let ghost prefix1 = names.deep_view().subrange(0, i + 1);
        proof {
            assert(prefix1.drop_last() =~= prefix);
            assert(prefix1.last() == names.deep_view()[i as int]);
        }
        let ghost before = out.deep_view();
        match lookup(table, &names[i]) {
            Some(id) => {
                proof {
                    assert(lookup_of(table.deep_view(), names.deep_view()[i as int]) == Some(
                        id@,
                    ));
                }
                out.push(id);
                proof {
                    assert(out.deep_view() =~= before.push(
                        lookup_of(table.deep_view(), prefix1.last())->Some_0,
                    ));
                }
            },
            None => {},
        }
        proof {
            assert(out.deep_view() =~= resolved_of(table.deep_view(), prefix1));
        }
        i += 1;
    }
    proof {
        assert(names.deep_view().subrange(0, names.len() as int) =~= names.deep_view());
    }
    out
}

} // verus!
