//! Splitting delimiter-joined literals from catalog data into their parts.

use vstd::prelude::*;
use vstd::string::StrSliceExecFns;

verus! {

/// Whether two string slices hold the same characters.
pub fn str_eq(a: &str, b: &str) -> (equal: bool)
    ensures
        equal == (a@ == b@),
{
    let x: String = a.to_owned();
    let y: String = b.to_owned();
    x == y
}

/// The string the parts describe: the parts in order, one separator between
/// each two neighbours.
pub open spec fn joined_with(parts: Seq<Seq<char>>, sep: char) -> Seq<char>
    decreases parts.len(),
{
    if parts.len() == 0 {
        Seq::empty()
    } else if parts.len() == 1 {
        parts[0]
    } else {
        joined_with(parts.drop_last(), sep).push(sep) + parts.last()
    }
}

/// Splits a string at every occurrence of the separator. The result is the
/// one decomposition into separator-free parts whose separator-joining gives
/// the string back; splitting never returns an empty list.
pub fn split_on(s: &str, sep: char) -> (parts: Vec<String>)
    ensures
        parts@.len() >= 1,
        forall|j: int| 0 <= j < parts@.len() ==> !parts@[j]@.contains(sep),
        joined_with(parts.deep_view(), sep) == s@,
{
    let n = s.unicode_len();
    let mut parts: Vec<String> = Vec::new();
    let mut start: usize = 0;
    let mut i: usize = 0;
    while i < n
        invariant
            n == s@.len(),
            0 <= start <= i <= n,
            forall|j: int| 0 <= j < parts@.len() ==> !#[trigger] parts@[j]@.contains(sep),
            forall|k: int| start <= k < i ==> s@[k] != sep,
            parts@.len() == 0 ==> start == 0,
            parts@.len() > 0 ==> joined_with(parts.deep_view(), sep).push(sep) == s@.subrange(
                0,
                start as int,
            ),
        decreases n - i,
    {
        if s.get_char(i) == sep {
            let part = s.substring_char(start, i).to_owned();
            let ghost earlier = parts.deep_view();
            proof {
                lemma_no_sep_part(s@, start as int, i as int, sep);
                lemma_join_grows(earlier, part@, sep);
                assert(joined_with(earlier.push(part@), sep).push(sep) =~= s@.subrange(0, i + 1));
            }
            parts.push(part);
            proof {
                assert(parts.deep_view() =~= earlier.push(part@));
            }
            start = i + 1;
        }
        i = i + 1;
    }
    let part = s.substring_char(start, n).to_owned();
    let ghost earlier = parts.deep_view();
    proof {
        lemma_no_sep_part(s@, start as int, n as int, sep);
        lemma_join_grows(earlier, part@, sep);
        assert(joined_with(earlier.push(part@), sep) =~= s@);
    }
    parts.push(part);
    proof {
        assert(parts.deep_view() =~= earlier.push(part@));
    }
    parts
}

/// A segment none of whose characters is the separator does not contain it.
proof fn lemma_no_sep_part(s: Seq<char>, start: int, end: int, sep: char)
    requires
        0 <= start <= end <= s.len(),
        forall|k: int| start <= k < end ==> s[k] != sep,
    ensures
        !s.subrange(start, end).contains(sep),
{
    let part = s.subrange(start, end);
    assert forall|k: int| 0 <= k < part.len() implies part[k] != sep by {
        assert(part[k] == s[start + k]);
    }
}

/// Appending a part extends the joined string by a separator and the part.
proof fn lemma_join_grows(parts: Seq<Seq<char>>, part: Seq<char>, sep: char)
    ensures
        parts.len() == 0 ==> joined_with(parts.push(part), sep) == part,
        parts.len() > 0 ==> joined_with(parts.push(part), sep) == joined_with(parts, sep).push(sep)
            + part,
{
    let grown = parts.push(part);
    if parts.len() == 0 {
        assert(joined_with(grown, sep) == grown[0]);
    } else {
        assert(grown.drop_last() =~= parts);
        assert(grown.last() == part);
    }
}

} // verus!
