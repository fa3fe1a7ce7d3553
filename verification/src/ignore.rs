//! IgnoreFilter: the suppression set of canonical identifiers, its
//! membership test, and the parser for its plain-text source (one
//! identifier per line, blank lines skipped).

use vstd::prelude::*;

verus! {

/// A line with one trailing carriage return removed, so that a source with
/// Windows line endings yields the same identifiers.
pub open spec fn trimmed(line: Seq<char>) -> Seq<char> {
    if line.len() > 0 && line.last() == '\r' {
        line.drop_last()
    } else {
        line
    }
}

/// The state of a left-to-right line scan of the text: the non-blank lines
/// completed so far and the partial line after the last newline.
pub open spec fn scan_lines(s: Seq<char>) -> (Seq<Seq<char>>, Seq<char>)
    decreases s.len(),
{
    if s.len() == 0 {
        (Seq::empty(), Seq::empty())
    } else {
        let (done, cur) = scan_lines(s.drop_last());
        if s.last() == '\n' {
            if trimmed(cur).len() == 0 {
                (done, Seq::empty())
            } else {
                (done.push(trimmed(cur)), Seq::empty())
            }
        } else {
            (done, cur.push(s.last()))
        }
    }
}

/// The identifiers of an ignore-list source text: the text split at
/// newlines, each line stripped of one trailing carriage return, blank
/// lines dropped.
pub open spec fn ignore_entries_of(s: Seq<char>) -> Seq<Seq<char>> {
    let (done, cur) = scan_lines(s);
    if trimmed(cur).len() == 0 {
        done
    } else {
        done.push(trimmed(cur))
    }
}

/// Strips one trailing carriage return from the line.
fn trim_line(line: String) -> (r: String)
    ensures
        r@ == trimmed(line@),
{
    let m: usize = line.as_str().unicode_len();
    if m > 0 && line.as_str().get_char(m - 1) == '\r' {
        let t = String::from_str(line.as_str().substring_char(0, m - 1));
        proof {
            assert(line@.subrange(0, m - 1) =~= line@.drop_last());
        }
        t
    } else {
        line
    }
}

/// Parses an ignore-list source text into its identifiers, in source order.
pub fn parse_ignore_list(text: &str) -> (r: Vec<String>)
    ensures
        r.deep_view() == ignore_entries_of(text@),
{
    let n: usize = text.unicode_len();
    let mut out: Vec<String> = Vec::new();
    let mut cur = String::new();
    let mut i: usize = 0;
    proof {
        assert(text@.subrange(0, 0) =~= Seq::<char>::empty());
        assert(out.deep_view() =~= Seq::<Seq<char>>::empty());
    }
    while i < n
        invariant
            i <= n,
            n == text@.len(),
            (out.deep_view(), cur@) == scan_lines(text@.subrange(0, i as int)),
        decreases n - i,
    {
        let ghost before = out.deep_view();
        let c = text.get_char(i);
        proof {
            assert(text@.subrange(0, i + 1).drop_last() =~= text@.subrange(0, i as int));
            assert(text@.subrange(0, i + 1).last() == text@[i as int]);
        }
        if c == '\n' {
            let line = trim_line(cur);
            if line.as_str().unicode_len() > 0 {
                out.push(line);
                proof {
                    assert(out.deep_view() =~= before.push(trimmed(
                        scan_lines(text@.subrange(0, i as int)).1,
                    )));
                }
            }
            cur = String::new();
        } else {
            cur.push(c);
        }
        i += 1;
    }
    proof {
        assert(text@.subrange(0, n as int) =~= text@);
    }
    let last = trim_line(cur);
    let ghost before = out.deep_view();
    if last.as_str().unicode_len() > 0 {
        out.push(last);
        proof {
            assert(out.deep_view() =~= before.push(trimmed(scan_lines(text@).1)));
        }
    }
    out
}

/// Whether the identifier stands in the list, by exact, case-sensitive
/// match; used both for the suppression set and for the requirement check.
pub fn contains_id(list: &Vec<String>, id: &String) -> (r: bool)
    ensures
        r == list.deep_view().contains(id@),
{
    let mut i: usize = 0;
    while i < list.len()
        invariant
            i <= list.len(),
            forall|j: int| 0 <= j < i ==> list.deep_view()[j] != id@,
        decreases list.len() - i,
    {
        if list[i] == *id {
            proof {
                assert(list.deep_view()[i as int] == id@);
            }
            return true;
        }
        i += 1;
    }
    false
}

} // verus!
