use vstd::prelude::*;
use vstd::string::StrSliceExecFns;
use crate::text::{ends_with_seq, ends_with_str};

verus! {

/// The suffix of a match file's name.
pub open spec fn yml_suffix() -> Seq<char> {
    seq!['.', 'y', 'm', 'l']
}

/// A file name whose extension is `yml`: it ends in `.yml` and has a stem
/// before it (a bare `.yml` is a hidden file without extension).
pub open spec fn is_match_file_name(name: Seq<char>) -> bool {
    ends_with_seq(name, yml_suffix()) && name.len() > yml_suffix().len()
}

/// The names of a listing, as character sequences.
pub open spec fn names_view(names: Seq<String>) -> Seq<Seq<char>> {
    names.map_values(|s: String| s@)
}

/// Whether `name` is the name of a match file.
pub fn is_match_file(name: &str) -> (r: bool)
    ensures
        r == is_match_file_name(name@),
{
    let suffix = ".yml";
    proof {
        reveal_strlit(".yml");
    }
    assert(suffix@ =~= yml_suffix());
    ends_with_str(name, suffix) && name.unicode_len() > 4
}

/// The match files among the entry names of a directory, in listing order.
pub fn match_file_names(entries: Vec<String>) -> (r: Vec<String>)
    ensures
        names_view(r@) == names_view(entries@).filter(|n: Seq<char>| is_match_file_name(n)),
{
    let ghost pred = |n: Seq<char>| is_match_file_name(n);
    let mut out: Vec<String> = Vec::new();
    let mut i: usize = 0;
    while i < entries.len()
        invariant
            i <= entries@.len(),
            pred == (|n: Seq<char>| is_match_file_name(n)),
            names_view(out@) == names_view(entries@.subrange(0, i as int)).filter(pred),
        decreases entries@.len() - i,
    {
        let ghost prefix = names_view(entries@.subrange(0, i as int));
        let ghost next = names_view(entries@.subrange(0, i + 1));
        assert(next.drop_last() =~= prefix);
        assert(next.last() == entries@[i as int]@);
        reveal(Seq::filter);
        assert(next.len() > 0);
        if is_match_file(entries[i].as_str()) {
            assert(next.filter(pred) == prefix.filter(pred).push(next.last()));
            out.push(entries[i].clone());
            assert(names_view(out@) =~= prefix.filter(pred).push(entries@[i as int]@));
        } else {
            assert(next.filter(pred) == prefix.filter(pred));
        }
        i = i + 1;
    }
    assert(entries@.subrange(0, entries@.len() as int) =~= entries@);
    out
}

} // verus!
