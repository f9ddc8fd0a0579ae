use vstd::prelude::*;
use vstd::string::StrSliceExecFns;
use crate::text::{chars_of, contains_chars, contains_seq, lower_of, lowercase};

verus! {

/// A text-expansion rule: typing `trigger` inserts `replace`.
pub struct Match {
    pub trigger: String,
    pub replace: String,
}

/// The mathematical value of a [`Match`].
pub struct MatchSpec {
    pub trigger: Seq<char>,
    pub replace: Seq<char>,
}

impl View for Match {
    type V = MatchSpec;

    open spec fn view(&self) -> MatchSpec {
        MatchSpec { trigger: self.trigger@, replace: self.replace@ }
    }
}

/// The values of a collection of matches, in order.
pub open spec fn matches_view(ms: Seq<Match>) -> Seq<MatchSpec> {
    ms.map_values(|m: Match| m@)
}

impl Match {
    pub fn new(trigger: String, replace: String) -> (r: Match)
        ensures
            r@ == (MatchSpec { trigger: trigger@, replace: replace@ }),
    {
        Match { trigger, replace }
    }

    /// A copy of this match.
    pub fn duplicate(&self) -> (r: Match)
        ensures
            r@ == self@,
    {
        Match { trigger: self.trigger.clone(), replace: self.replace.clone() }
    }
}

/// A match is shown under query `q` when its trigger or its replacement holds
/// `q`, compared without regard to case.
pub open spec fn matches_query(m: MatchSpec, q: Seq<char>) -> bool {
    shown_lower(m, lower_of(q))
}

/// A match is shown under a query whose lowercase form is `lq`.
pub open spec fn shown_lower(m: MatchSpec, lq: Seq<char>) -> bool {
    contains_seq(lower_of(m.trigger), lq) || contains_seq(lower_of(m.replace), lq)
}

/// The matches of `ms` shown under query `q`, in their original order.
pub open spec fn filter_spec(ms: Seq<MatchSpec>, q: Seq<char>) -> Seq<MatchSpec> {
    ms.filter(|m: MatchSpec| matches_query(m, q))
}

/// Every character sequence contains the empty sequence.
pub(crate) proof fn lemma_contains_empty(hay: Seq<char>, needle: Seq<char>)
    requires
        needle.len() == 0,
    ensures
        contains_seq(hay, needle),
{
    let i: int = 0;
    assert(hay.subrange(i, i + needle.len()) =~= needle);
}

/// Where the query's lowercase form is empty, every match is shown and the
/// filtered collection is the whole one.
proof fn lemma_filter_empty_lower(ms: Seq<MatchSpec>, q: Seq<char>)
    requires
        lower_of(q).len() == 0,
    ensures
        filter_spec(ms, q) == ms,
    decreases ms.len(),
{
    reveal(Seq::filter);
    if ms.len() > 0 {
        lemma_filter_empty_lower(ms.drop_last(), q);
        lemma_contains_empty(lower_of(ms.last().trigger), lower_of(q));
        assert(ms.drop_last().push(ms.last()) =~= ms);
    }
}

/// A match is in the filtered collection exactly when it is in the collection
/// and its trigger or replacement holds the query, compared without regard to
/// case.
pub proof fn lemma_filter_membership(ms: Seq<MatchSpec>, q: Seq<char>, m: MatchSpec)
    ensures
        filter_spec(ms, q).contains(m) <==> (ms.contains(m) && matches_query(m, q)),
{
    broadcast use vstd::seq_lib::group_filter_ensures;

    let pred = |x: MatchSpec| matches_query(x, q);
    if filter_spec(ms, q).contains(m) {
        ms.lemma_filter_contains_rev(pred, m);
        let k = choose|k: int| 0 <= k < ms.filter(pred).len() && ms.filter(pred)[k] == m;
        assert(pred(ms.filter(pred)[k]));
    }
    if ms.contains(m) && matches_query(m, q) {
        let k = choose|k: int| 0 <= k < ms.len() && ms[k] == m;
        assert(pred(ms[k]));
    }
}

/// Whether a match whose lowercase trigger and replacement are `t` and `r` is
/// shown under a query whose lowercase form is `q`.
pub fn shown_folded(t: &Vec<char>, r: &Vec<char>, q: &Vec<char>) -> (b: bool)
    ensures
        b == (contains_seq(t@, q@) || contains_seq(r@, q@)),
{
    contains_chars(t, q) || contains_chars(r, q)
}

/// Whether `m` is shown under the query whose lowercase characters are `lq`.
pub(crate) fn shown_under(m: &Match, lq: &Vec<char>) -> (r: bool)
    ensures
        r == shown_lower(m@, lq@),
{
    let t = chars_of(lowercase(m.trigger.as_str()).as_str());
    let p = chars_of(lowercase(m.replace.as_str()).as_str());
    shown_folded(&t, &p, lq)
}

/// The matches of `ms` whose trigger or replacement holds `query` without
/// regard to case, in their original order; `ms` is left as it is.
pub fn filter_matches(ms: &Vec<Match>, query: &str) -> (r: Vec<Match>)
    ensures
        matches_view(r@) == filter_spec(matches_view(ms@), query@),
        query@.len() == 0 ==> matches_view(r@) == matches_view(ms@),
{
    let lq = chars_of(lowercase(query).as_str());
    if query.unicode_len() == 0 {
        proof {
            lemma_filter_empty_lower(matches_view(ms@), query@);
        }
    }
    let ghost pred = |m: MatchSpec| matches_query(m, query@);
    let mut out: Vec<Match> = Vec::new();
    let mut i: usize = 0;
    while i < ms.len()
        invariant
            i <= ms@.len(),
            lq@ == lower_of(query@),
            pred == (|m: MatchSpec| matches_query(m, query@)),
            matches_view(out@) == matches_view(ms@.subrange(0, i as int)).filter(pred),
        decreases ms@.len() - i,
    {
        let ghost prefix = matches_view(ms@.subrange(0, i as int));
        let ghost next = matches_view(ms@.subrange(0, i + 1));
        assert(next.drop_last() =~= prefix);
        assert(next.last() == ms@[i as int]@);
        reveal(Seq::filter);
        assert(next.len() > 0);
        let shown = shown_under(&ms[i], &lq);
        assert(shown == matches_query(next.last(), query@));
        if shown {
            assert(pred(next.last()));
            assert(next.filter(pred) == prefix.filter(pred).push(next.last()));
            out.push(ms[i].duplicate());
            assert(matches_view(out@) =~= prefix.filter(pred).push(ms@[i as int]@));
        } else {
            assert(!pred(next.last()));
            assert(next.filter(pred) == prefix.filter(pred));
        }
        i = i + 1;
    }
    assert(ms@.subrange(0, ms@.len() as int) =~= ms@);
    out
}

/// How an insertion or update of a match ended.
#[derive(Clone, Copy, Debug, PartialEq, Eq, Structural)]
pub enum UpsertOutcome {
    /// The new match was added at the end.
    Appended,
    /// The match at the target position was replaced.
    Replaced,
    /// The trigger or the replacement was empty; nothing changed.
    Rejected,
    /// The target position lies outside the collection; nothing changed.
    StaleIndex,
}

impl UpsertOutcome {
    /// The edit was taken: the draft was valid.
    pub open spec fn spec_accepted(self) -> bool {
        self != UpsertOutcome::Rejected
    }

    /// The collection changed and must be written back.
    pub open spec fn spec_changed(self) -> bool {
        self == UpsertOutcome::Appended || self == UpsertOutcome::Replaced
    }

    /// Whether the collection changed and must be written back.
    pub fn changed(&self) -> (r: bool)
        ensures
            r == self.spec_changed(),
    {
        match self {
            UpsertOutcome::Appended => true,
            UpsertOutcome::Replaced => true,
            _ => false,
        }
    }

    /// Whether the draft was accepted (both fields non-empty).
    pub fn accepted(&self) -> (r: bool)
        ensures
            r == self.spec_accepted(),
    {
        match self {
            UpsertOutcome::Rejected => false,
            _ => true,
        }
    }
}

/// The outcome of storing a match with the given field lengths at `target`
/// in a collection of `len` matches.
pub open spec fn upsert_outcome(
    len: nat,
    target: Option<usize>,
    trigger: Seq<char>,
    replace: Seq<char>,
) -> UpsertOutcome {
    if trigger.len() == 0 || replace.len() == 0 {
        UpsertOutcome::Rejected
    } else {
        match target {
            None => UpsertOutcome::Appended,
            Some(i) => if i < len {
                UpsertOutcome::Replaced
            } else {
                UpsertOutcome::StaleIndex
            },
        }
    }
}

/// The collection after storing `m` at `target` with the given outcome.
pub open spec fn upsert_spec(
    ms: Seq<MatchSpec>,
    target: Option<usize>,
    m: MatchSpec,
    outcome: UpsertOutcome,
) -> Seq<MatchSpec> {
    match outcome {
        UpsertOutcome::Appended => ms.push(m),
        UpsertOutcome::Replaced => ms.update(target.unwrap() as int, m),
        _ => ms,
    }
}

/// Adds a match (`target` is `None`) or replaces the match at position `i`
/// (`target` is `Some(i)`). A match with an empty trigger or replacement is
/// rejected, and a position outside the collection changes nothing.
pub fn upsert(ms: &mut Vec<Match>, target: Option<usize>, trigger: String, replace: String) -> (r:
    UpsertOutcome)
    ensures
        r == upsert_outcome(old(ms)@.len(), target, trigger@, replace@),
        matches_view(final(ms)@) == upsert_spec(
            matches_view(old(ms)@),
            target,
            MatchSpec { trigger: trigger@, replace: replace@ },
            r,
        ),
        !r.spec_changed() ==> final(ms)@ == old(ms)@,
{
    if trigger.unicode_len() == 0 || replace.unicode_len() == 0 {
        return UpsertOutcome::Rejected;
    }
    let m = Match::new(trigger, replace);
    match target {
        None => {
            ms.push(m);
            assert(matches_view(ms@) =~= matches_view(old(ms)@).push(m@));
            UpsertOutcome::Appended
        },
        Some(i) => {
            if i < ms.len() {
                ms.set(i, m);
                assert(matches_view(ms@) =~= matches_view(old(ms)@).update(i as int, m@));
                UpsertOutcome::Replaced
            } else {
                UpsertOutcome::StaleIndex
            }
        },
    }
}

/// Removes the match at `index`; an index outside the collection changes
/// nothing. Returns whether a match was removed.
pub fn delete_at(ms: &mut Vec<Match>, index: usize) -> (r: bool)
    ensures
        r == (index < old(ms)@.len()),
        r ==> final(ms)@ == old(ms)@.remove(index as int),
        r ==> matches_view(final(ms)@) == matches_view(old(ms)@).remove(index as int),
        !r ==> final(ms)@ == old(ms)@,
{
    if index < ms.len() {
        ms.remove(index);
        assert(matches_view(ms@) =~= matches_view(old(ms)@).remove(index as int));
        true
    } else {
        false
    }
}

} // verus!
