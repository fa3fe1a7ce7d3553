//! Formatter: joins the final identifier sequence with `;` and, on request,
//! wraps it in a fixed three-line fenced block.

use vstd::prelude::*;

verus! {

/// The elements joined with the separator between neighbours; an empty
/// sequence yields the empty string.
pub open spec fn join_spec(ids: Seq<Seq<char>>, sep: Seq<char>) -> Seq<char>
    decreases ids.len(),
{
    if ids.len() == 0 {
        Seq::empty()
    } else if ids.len() == 1 {
        ids[0]
    } else {
        join_spec(ids.drop_last(), sep) + sep + ids.last()
    }
}

/// The formatted output: the `;`-joined sequence, wrapped between a fence
/// line above and below when `fenced` is set.
pub open spec fn format_spec(ids: Seq<Seq<char>>, fenced: bool) -> Seq<char> {
    let base = join_spec(ids, ";"@);
    if fenced {
        "```\n"@ + base + "\n```"@
    } else {
        base
    }
}

/// Strips the fixed fence lines that `format_spec` with the flag set puts
/// around the base string.
pub open spec fn unfence(s: Seq<char>) -> Seq<char> {
    s.subrange("```\n"@.len() as int, s.len() - "\n```"@.len())
}

/// Joins the identifiers with the separator between neighbours.
pub fn join(ids: &Vec<String>, sep: &str) -> (r: String)
    ensures
        r@ == join_spec(ids.deep_view(), sep@),
{
    let mut out = String::new();
    let mut i: usize = 0;
    proof {
        assert(ids.deep_view().subrange(0, 0) =~= Seq::<Seq<char>>::empty());
    }
    while i < ids.len()
        invariant
            i <= ids.len(),
            out@ == join_spec(ids.deep_view().subrange(0, i as int), sep@),
        decreases ids.len() - i,
    {
        let ghost prefix = ids.deep_view().subrange(0, i as int);
        let ghost prefix1 = ids.deep_view().subrange(0, i + 1);
        proof {
            assert(prefix1.drop_last() =~= prefix);
            assert(prefix1.last() == ids.deep_view()[i as int]);
        }
        if i > 0 {
            out.append(sep);
        }
        out.append(ids[i].as_str());
        proof {
            if prefix1.len() == 1 {
                assert(out@ =~= prefix1[0]);
            }
        }
        i += 1;
    }
    proof {
        assert(ids.deep_view().subrange(0, ids.len() as int) =~= ids.deep_view());
    }
    out
}

/// Formats the final sequence, fenced or plain.
pub fn format_mods(ids: &Vec<String>, fenced: bool) -> (r: String)
    ensures
        r@ == format_spec(ids.deep_view(), fenced),
{
    let base = join(ids, ";");
    if fenced {
        let mut out = String::from_str("```\n");
        out.append(base.as_str());
        out.append("\n```");
        out
    } else {
        base
    }
}

/// Stripping the fence lines from the fenced output gives exactly the
/// plain output, for every identifier sequence.
pub proof fn lemma_fence_round_trip(ids: Seq<Seq<char>>)
    ensures
        unfence(format_spec(ids, true)) == format_spec(ids, false),
{
    reveal_strlit("```\n");
    reveal_strlit("\n```");
    let base = join_spec(ids, ";"@);
    assert(unfence("```\n"@ + base + "\n```"@) =~= base);
}

} // verus!
