//! RequirementChecker: finds every mandatory identifier absent from the
//! final sequence and words the diagnostic message; it never alters the
//! sequence itself.

use vstd::prelude::*;

use crate::format::{join, join_spec};
use crate::ignore::contains_id;

verus! {

/// The required identifiers not present in the final sequence, in the
/// required list's own order, by exact, case-sensitive match.
pub open spec fn missing_of(required: Seq<Seq<char>>, mods: Seq<Seq<char>>) -> Seq<Seq<char>>
    decreases required.len(),
{
    if required.len() == 0 {
        Seq::empty()
    } else {
        let rest = missing_of(required.drop_last(), mods);
        if mods.contains(required.last()) {
            rest
        } else {
            rest.push(required.last())
        }
    }
}

/// The diagnostic for the missing identifiers: no message when none is
/// missing, otherwise one line naming them all.
pub open spec fn missing_message_of(required: Seq<Seq<char>>, mods: Seq<Seq<char>>) -> Option<
    Seq<char>,
> {
    let missing = missing_of(required, mods);
    if missing.len() == 0 {
        None
    } else {
        Some("Required mods missing: "@ + join_spec(missing, ", "@))
    }
}

/// When every required identifier stands in the final sequence, there is
/// no diagnostic at all.
pub proof fn lemma_all_present_no_message(required: Seq<Seq<char>>, mods: Seq<Seq<char>>)
    requires
        forall|k: int| 0 <= k < required.len() ==> mods.contains(#[trigger] required[k]),
    ensures
        missing_message_of(required, mods) is None,
{
    lemma_all_present_nothing_missing(required, mods);
}

/// When every required identifier stands in the final sequence, nothing is
/// missing.
proof fn lemma_all_present_nothing_missing(required: Seq<Seq<char>>, mods: Seq<Seq<char>>)
    requires
        forall|k: int| 0 <= k < required.len() ==> mods.contains(#[trigger] required[k]),
    ensures
        missing_of(required, mods).len() == 0,
    decreases required.len(),
{
    if required.len() == 0 {
    } else {
        assert(forall|k: int|
            0 <= k < required.drop_last().len() ==> mods.contains(
                #[trigger] required.drop_last()[k],
            ));
        lemma_all_present_nothing_missing(required.drop_last(), mods);
        assert(mods.contains(required.last()));
    }
}

/// Checks the final sequence against the required list; `Some` with the
/// diagnostic exactly when at least one required identifier is absent.
pub fn check_required(required: &Vec<String>, mods: &Vec<String>) -> (r: Option<String>)
    ensures
        r.deep_view() == missing_message_of(required.deep_view(), mods.deep_view()),
{
    let mut missing: Vec<String> = Vec::new();
    let mut i: usize = 0;
    proof {
        assert(required.deep_view().subrange(0, 0) =~= Seq::<Seq<char>>::empty());
        assert(missing.deep_view() =~= Seq::<Seq<char>>::empty());
    }
    while i < required.len()
        invariant
            i <= required.len(),
            missing.deep_view() == missing_of(
                required.deep_view().subrange(0, i as int),
                mods.deep_view(),
            ),
        decreases required.len() - i,
    {
        let ghost prefix1 = required.deep_view().subrange(0, i + 1);
        proof {
            assert(prefix1.drop_last() =~= required.deep_view().subrange(0, i as int));
            assert(prefix1.last() == required.deep_view()[i as int]);
        }
        let ghost before = missing.deep_view();
        if !contains_id(mods, &required[i]) {
            missing.push(required[i].clone());
            proof {
                assert(missing.deep_view() =~= before.push(required.deep_view()[i as int]));
            }
        }
        i += 1;
    }
    proof {
        assert(required.deep_view().subrange(0, required.len() as int) =~= required.deep_view());
    }
    if missing.len() == 0 {
        proof {
            assert(missing.deep_view().len() == 0);
        }
        None
    } else {
        let mut msg = String::from_str("Required mods missing: ");
        let tail = join(&missing, ", ");
        msg.append(tail.as_str());
        Some(msg)
    }
}

} // verus!
