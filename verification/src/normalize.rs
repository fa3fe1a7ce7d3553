//! NameNormalizer: turns a raw community display name into a canonical
//! `@`-prefixed identifier token, or drops it when nothing alphanumeric
//! survives.

use vstd::prelude::*;

use crate::text::{alnum, is_alnum};

verus! {

/// The canonical identifier for a raw display name: every character that is
/// not alphanumeric is removed; the result is prefixed with `@` unless it
/// already starts with one. A name with no alphanumeric characters yields
/// nothing at all rather than a bare `@`.
pub open spec fn normalized_of(s: Seq<char>) -> Option<Seq<char>> {
    let f = s.filter(|c: char| is_alnum(c));
    if f.len() == 0 {
        None
    } else if f[0] == '@' {
        Some(f)
    } else {
        Some(seq!['@'] + f)
    }
}

/// Normalizes one community display name; `None` when the name holds no
/// alphanumeric character.
pub fn normalize(name: &str) -> (r: Option<String>)
    ensures
        r.deep_view() == normalized_of(name@),
{
    let n: usize = name.unicode_len();
    let mut filtered = String::new();
    let mut i: usize = 0;
    proof {
        reveal(Seq::filter);
        assert(name@.subrange(0, 0) =~= Seq::<char>::empty());
    }
    while i < n
        invariant
            i <= n,
            n == name@.len(),
            filtered@ == name@.subrange(0, i as int).filter(|c: char| is_alnum(c)),
        decreases n - i,
    {
        let c = name.get_char(i);
        proof {
            reveal(Seq::filter);
            assert(name@.subrange(0, i + 1).drop_last() =~= name@.subrange(0, i as int));
            assert(name@.subrange(0, i + 1).last() == name@[i as int]);
        }
        if alnum(c) {
            filtered.push(c);
        }
        i += 1;
    }
    proof {
        assert(name@.subrange(0, n as int) =~= name@);
    }
    if filtered.as_str().unicode_len() == 0 {
        None
    } else if filtered.as_str().get_char(0) == '@' {
        Some(filtered)
    } else {
        let mut out = String::new();
        out.push('@');
        out.append(filtered.as_str());
        proof {
            assert(out@ =~= seq!['@'] + filtered@);
        }
        Some(out)
    }
}

} // verus!
