use vstd::prelude::*;
use crate::catalog::names_view;
use crate::document::{decode_text, document_of, read_matches, render_matches, yaml_emit, yaml_parse};
use crate::entry::{
    Match, MatchSpec, UpsertOutcome, delete_at, filter_matches, filter_spec, matches_query,
    matches_view, upsert, upsert_outcome, upsert_spec,
};
use crate::entry::{lemma_contains_empty, shown_under};
use crate::text::{chars_of, lower_of, lowercase, same_text};

verus! {

/// The name selected by default: the first of the listing, or the empty name
/// where the listing is empty.
pub open spec fn first_or_empty(files: Seq<Seq<char>>) -> Seq<char> {
    if files.len() > 0 {
        files[0]
    } else {
        Seq::empty()
    }
}

/// The selection after the listing became `files`: the current name where it
/// is still listed, else the default.
pub open spec fn reselect(files: Seq<Seq<char>>, current: Seq<char>) -> Seq<char> {
    if files.contains(current) {
        current
    } else {
        first_or_empty(files)
    }
}

/// The positions in `ms` of the matches shown under `q`, in order: position
/// `k` of the filtered view shows `ms[shown_positions(ms, q)[k]]`.
pub open spec fn shown_positions(ms: Seq<MatchSpec>, q: Seq<char>) -> Seq<int> {
    shown_prefix(ms, q, ms.len() as int)
}

/// The positions below `n` of the matches of `ms` shown under `q`, in order.
pub open spec fn shown_prefix(ms: Seq<MatchSpec>, q: Seq<char>, n: int) -> Seq<int> {
    Seq::new(n as nat, |i: int| i).filter(|i: int| matches_query(ms[i], q))
}

/// The matches of `ms` at the positions `ps`.
pub open spec fn matches_at(ms: Seq<MatchSpec>, ps: Seq<int>) -> Seq<MatchSpec> {
    ps.map_values(|p: int| ms[p])
}

/// Machine positions as integers.
pub open spec fn positions_view(ps: Seq<usize>) -> Seq<int> {
    ps.map_values(|p: usize| p as int)
}

/// The filtered view and the shown positions agree: the `k`-th match of the
/// view is the match at the `k`-th shown position, so an action on a row of
/// the view reaches that match in the collection.
pub proof fn lemma_shown_positions_view(ms: Seq<MatchSpec>, q: Seq<char>)
    ensures
        matches_at(ms, shown_positions(ms, q)) == filter_spec(ms, q),
{
    lemma_shown_prefix_view(ms, q, ms.len() as int);
    assert(ms.subrange(0, ms.len() as int) =~= ms);
}

proof fn lemma_shown_prefix_view(ms: Seq<MatchSpec>, q: Seq<char>, n: int)
    requires
        0 <= n <= ms.len(),
    ensures
        matches_at(ms, shown_prefix(ms, q, n)) == filter_spec(ms.subrange(0, n), q),
    decreases n,
{
    reveal(Seq::filter);
    if n == 0 {
        assert(Seq::new(0, |i: int| i) =~= Seq::<int>::empty());
        assert(ms.subrange(0, 0) =~= Seq::<MatchSpec>::empty());
        assert(matches_at(ms, shown_prefix(ms, q, n)) =~= Seq::<MatchSpec>::empty());
    } else {
        lemma_shown_prefix_view(ms, q, n - 1);
        let idx = Seq::new(n as nat, |i: int| i);
        assert(idx.drop_last() =~= Seq::new((n - 1) as nat, |i: int| i));
        assert(idx.last() == n - 1);
        let sub = ms.subrange(0, n);
        assert(sub.drop_last() =~= ms.subrange(0, n - 1));
        assert(sub.last() == ms[n - 1]);
        let before = shown_prefix(ms, q, n - 1);
        if matches_query(ms[n - 1], q) {
            assert(shown_prefix(ms, q, n) == before.push(n - 1));
            assert(matches_at(ms, before.push(n - 1)) =~= matches_at(ms, before).push(ms[n - 1]));
        } else {
            assert(shown_prefix(ms, q, n) == before);
        }
    }
}

/// The edit target after the match at `removed` was deleted: an edit of that
/// match ends, and an edit of a later one follows it down by one.
pub open spec fn shift_target(target: Option<usize>, removed: int) -> Option<usize> {
    match target {
        Some(e) => if e == removed {
            None
        } else if e > removed {
            Some((e - 1) as usize)
        } else {
            Some(e)
        },
        None => None,
    }
}

/// How loading a file's text ended.
#[derive(Clone, Copy, Debug, PartialEq, Eq, Structural)]
pub enum LoadStatus {
    /// The text parsed; its matches were taken.
    Loaded,
    /// The file could not be read; it counts as holding no matches.
    Unreadable,
    /// The text is not YAML; it counts as holding no matches.
    Malformed,
}

/// Why the collection cannot be saved.
#[derive(Clone, Copy, Debug, PartialEq, Eq, Structural)]
pub enum SaveError {
    /// The file did not parse when it was loaded; writing would destroy its
    /// content.
    Malformed,
    /// The serializer failed.
    Encoding,
}

/// The state of one editing session: the listed files, the selected one and
/// its matches, the filter, and the draft under construction together with
/// the position it will replace (`None`: it will be added).
pub struct EspansoHelper {
    pub files: Vec<String>,
    pub selected_file: String,
    pub new_trigger: String,
    pub new_replacement: String,
    pub filter_text: String,
    pub editing_index: Option<usize>,
    pub matches: Vec<Match>,
    /// How the last load of the selected file ended.
    pub load_status: LoadStatus,
}

impl EspansoHelper {
    /// The selected name is empty with no files listed, else one of them; an
    /// edit target is a position of the collection.
    pub open spec fn wf(&self) -> bool {
        &&& if self.files@.len() == 0 {
            self.selected_file@.len() == 0
        } else {
            names_view(self.files@).contains(self.selected_file@)
        }
        &&& self.editing_index matches Some(i) ==> i < self.matches@.len()
    }

    /// The matches as values.
    pub open spec fn matches_spec(&self) -> Seq<MatchSpec> {
        matches_view(self.matches@)
    }

    /// A session over the listing `files`, with the first file selected, no
    /// matches loaded yet, and no filter or draft.
    pub fn new(files: Vec<String>) -> (r: EspansoHelper)
        ensures
            r.wf(),
            r.files@ == files@,
            r.selected_file@ == first_or_empty(names_view(files@)),
            r.matches@.len() == 0,
            r.filter_text@.len() == 0,
            r.new_trigger@.len() == 0,
            r.new_replacement@.len() == 0,
            r.editing_index.is_none(),
            r.load_status == LoadStatus::Unreadable,
    {
        let selected_file = if files.len() > 0 {
            files[0].clone()
        } else {
            String::new()
        };
        proof {
            if files@.len() > 0 {
                assert(names_view(files@)[0] == files@[0]@);
            }
        }
        EspansoHelper {
            files,
            selected_file,
            new_trigger: String::new(),
            new_replacement: String::new(),
            filter_text: String::new(),
            editing_index: None,
            matches: Vec::new(),
            load_status: LoadStatus::Unreadable,
        }
    }

    /// Whether `name` is one of the listed files.
    pub fn is_listed(&self, name: &str) -> (r: bool)
        ensures
            r == names_view(self.files@).contains(name@),
    {
        let mut i: usize = 0;
        while i < self.files.len()
            invariant
                i <= self.files@.len(),
                forall|k: int| 0 <= k < i ==> self.files@[k]@ != name@,
            decreases self.files@.len() - i,
        {
            if same_text(self.files[i].as_str(), name) {
                assert(names_view(self.files@)[i as int] == name@);
                return true;
            }
            i = i + 1;
        }
        proof {
            if names_view(self.files@).contains(name@) {
                let k = choose|k: int|
                    0 <= k < names_view(self.files@).len() && names_view(self.files@)[k]
                        == name@;
                assert(self.files@[k]@ == name@);
            }
        }
        false
    }

    /// Takes a new listing of the files: clears the filter, the draft and the
    /// edit target, and keeps the selected file where it is still listed, else
    /// selects the first one (or none). The caller then loads the selected
    /// file.
    pub fn refresh(&mut self, files: Vec<String>)
        requires
            old(self).wf(),
        ensures
            final(self).wf(),
            final(self).files@ == files@,
            final(self).load_status == old(self).load_status,
            final(self).selected_file@ == reselect(
                names_view(files@),
                old(self).selected_file@,
            ),
            final(self).matches@ == old(self).matches@,
            final(self).filter_text@.len() == 0,
            final(self).new_trigger@.len() == 0,
            final(self).new_replacement@.len() == 0,
            final(self).editing_index.is_none(),
    {
        self.new_trigger = String::new();
        self.new_replacement = String::new();
        self.filter_text = String::new();
        self.editing_index = None;
        self.files = files;
        if !self.is_listed(self.selected_file.as_str()) {
            self.selected_file = if self.files.len() > 0 {
                self.files[0].clone()
            } else {
                String::new()
            };
            proof {
                if self.files@.len() > 0 {
                    assert(names_view(self.files@)[0] == self.files@[0]@);
                }
            }
        } else {
            proof {
                if self.files@.len() == 0 {
                    assert(names_view(self.files@).len() == 0);
                }
            }
        }
    }

    /// Selects the listed file `name`; a name that is not listed is refused
    /// and changes nothing. The caller then loads the selected file.
    pub fn select_file(&mut self, name: String) -> (r: bool)
        requires
            old(self).wf(),
        ensures
            final(self).wf(),
            r == names_view(old(self).files@).contains(name@),
            r ==> final(self).selected_file@ == name@,
            !r ==> final(self).selected_file@ == old(self).selected_file@,
            final(self).files@ == old(self).files@,
            final(self).load_status == old(self).load_status,
            final(self).matches@ == old(self).matches@,
            final(self).filter_text@ == old(self).filter_text@,
            final(self).new_trigger@ == old(self).new_trigger@,
            final(self).new_replacement@ == old(self).new_replacement@,
            final(self).editing_index == old(self).editing_index,
    {
        if self.is_listed(name.as_str()) {
            self.selected_file = name;
            true
        } else {
            false
        }
    }

    /// Replaces the collection with the matches decoded from the selected
    /// file's text (`None`: the file could not be read). An unreadable file
    /// and a malformed one both hold no matches, and the outcome tells them
    /// apart. An edit target that no longer indexes the collection is dropped.
    pub fn load_text(&mut self, text: Option<&str>) -> (r: LoadStatus)
        requires
            old(self).wf(),
        ensures
            final(self).wf(),
            r == match text {
                Some(t) => if yaml_parse(t@).is_some() {
                    LoadStatus::Loaded
                } else {
                    LoadStatus::Malformed
                },
                None => LoadStatus::Unreadable,
            },
            final(self).matches_spec() == match text {
                Some(t) => decode_text(t@),
                None => Seq::empty(),
            },
            final(self).editing_index == match old(self).editing_index {
                Some(i) => if i < final(self).matches@.len() {
                    Some(i)
                } else {
                    None
                },
                None => None,
            },
            final(self).files@ == old(self).files@,
            final(self).load_status == r,
            final(self).selected_file@ == old(self).selected_file@,
            final(self).filter_text@ == old(self).filter_text@,
            final(self).new_trigger@ == old(self).new_trigger@,
            final(self).new_replacement@ == old(self).new_replacement@,
    {
        let (ms, status) = match text {
            Some(t) => match read_matches(t) {
                Some(ms) => (ms, LoadStatus::Loaded),
                None => (Vec::new(), LoadStatus::Malformed),
            },
            None => (Vec::new(), LoadStatus::Unreadable),
        };
        self.matches = ms;
        self.load_status = status;
        proof {
            if status != LoadStatus::Loaded {
                assert(matches_view(self.matches@) =~= Seq::empty());
            }
        }
        if let Some(i) = self.editing_index {
            if i >= self.matches.len() {
                self.editing_index = None;
            }
        }
        status
    }

    /// Sets the filter text.
    pub fn set_filter(&mut self, text: String)
        requires
            old(self).wf(),
        ensures
            final(self).wf(),
            final(self).filter_text@ == text@,
            final(self).files@ == old(self).files@,
            final(self).load_status == old(self).load_status,
            final(self).selected_file@ == old(self).selected_file@,
            final(self).matches@ == old(self).matches@,
            final(self).new_trigger@ == old(self).new_trigger@,
            final(self).new_replacement@ == old(self).new_replacement@,
            final(self).editing_index == old(self).editing_index,
    {
        self.filter_text = text;
    }

    /// The positions in the collection of the matches shown under the current
    /// filter, in order.
    pub fn filtered_positions(&self) -> (r: Vec<usize>)
        ensures
            positions_view(r@) == shown_positions(self.matches_spec(), self.filter_text@),
            forall|k: int| 0 <= k < r@.len() ==> #[trigger] r@[k] < self.matches@.len(),
            self.filter_text@.len() == 0 ==> positions_view(r@) == Seq::new(
                self.matches@.len(),
                |j: int| j,
            ),
    {
        let ghost ms = self.matches_spec();
        let ghost q = self.filter_text@;
        let ghost pred = |i: int| matches_query(ms[i], q);
        let lq = chars_of(lowercase(self.filter_text.as_str()).as_str());
        assert(q.len() == 0 ==> lq@.len() == 0);
        let mut out: Vec<usize> = Vec::new();
        let mut i: usize = 0;
        while i < self.matches.len()
            invariant
                i <= self.matches@.len(),
                ms == self.matches_spec(),
                q == self.filter_text@,
                lq@ == lower_of(q),
                pred == (|i: int| matches_query(ms[i], q)),
                positions_view(out@) == Seq::new(i as nat, |j: int| j).filter(pred),
                forall|k: int| 0 <= k < out@.len() ==> #[trigger] out@[k] < i,
                q.len() == 0 ==> lq@.len() == 0,
                q.len() == 0 ==> positions_view(out@) == Seq::new(i as nat, |j: int| j),
            decreases self.matches@.len() - i,
        {
            let ghost idx = Seq::new((i + 1) as nat, |j: int| j);
            assert(idx.drop_last() =~= Seq::new(i as nat, |j: int| j));
            assert(idx.last() == i);
            reveal(Seq::filter);
            assert(ms[i as int] == self.matches@[i as int]@);
            proof {
                if q.len() == 0 {
                    lemma_contains_empty(lower_of(ms[i as int].trigger), lq@);
                }
            }
            if shown_under(&self.matches[i], &lq) {
                let ghost before = positions_view(out@);
                out.push(i);
                assert(positions_view(out@) =~= before.push(i as int));
                assert(q.len() == 0 ==> before.push(i as int) =~= Seq::new((i + 1) as nat, |j: int| j));
            }
            i = i + 1;
        }
        out
    }

    /// Starts editing the match on row `index` of the filtered view: the draft
    /// takes its fields, and the edit target its position in the collection.
    /// A row outside the view changes nothing.
    pub fn begin_edit(&mut self, index: usize) -> (r: bool)
        requires
            old(self).wf(),
        ensures
            final(self).wf(),
            r == (index < shown_positions(old(self).matches_spec(), old(self).filter_text@).len()),
            r ==> ({
                let p = shown_positions(old(self).matches_spec(), old(self).filter_text@)[index as int];
                &&& final(self).editing_index == Some(p as usize)
                &&& final(self).new_trigger@ == old(self).matches_spec()[p].trigger
                &&& final(self).new_replacement@ == old(self).matches_spec()[p].replace
            }),
            !r ==> final(self).editing_index == old(self).editing_index,
            !r ==> final(self).new_trigger@ == old(self).new_trigger@,
            !r ==> final(self).new_replacement@ == old(self).new_replacement@,
            final(self).files@ == old(self).files@,
            final(self).load_status == old(self).load_status,
            final(self).selected_file@ == old(self).selected_file@,
            final(self).matches@ == old(self).matches@,
            final(self).filter_text@ == old(self).filter_text@,
    {
        let positions = self.filtered_positions();
        if index >= positions.len() {
            return false;
        }
        let p = positions[index];
        assert(positions_view(positions@)[index as int] == p as int);
        self.new_trigger = self.matches[p].trigger.clone();
        self.new_replacement = self.matches[p].replace.clone();
        self.editing_index = Some(p);
        true
    }

    /// Drops the draft and the edit target; the collection stays as it is.
    pub fn cancel_edit(&mut self)
        requires
            old(self).wf(),
        ensures
            final(self).wf(),
            final(self).new_trigger@.len() == 0,
            final(self).new_replacement@.len() == 0,
            final(self).editing_index.is_none(),
            final(self).files@ == old(self).files@,
            final(self).load_status == old(self).load_status,
            final(self).selected_file@ == old(self).selected_file@,
            final(self).matches@ == old(self).matches@,
            final(self).filter_text@ == old(self).filter_text@,
    {
        self.new_trigger = String::new();
        self.new_replacement = String::new();
        self.editing_index = None;
    }

    /// Commits the draft: adds it as a new match, or replaces the match at the
    /// edit target. A draft with an empty trigger or replacement is rejected
    /// and kept; an accepted one is cleared with the edit target. The caller
    /// writes the file back when the collection changed.
    pub fn add_or_update_match(&mut self) -> (r: UpsertOutcome)
        requires
            old(self).wf(),
        ensures
            final(self).wf(),
            r == upsert_outcome(
                old(self).matches@.len(),
                old(self).editing_index,
                old(self).new_trigger@,
                old(self).new_replacement@,
            ),
            r != UpsertOutcome::StaleIndex,
            final(self).matches_spec() == upsert_spec(
                old(self).matches_spec(),
                old(self).editing_index,
                MatchSpec { trigger: old(self).new_trigger@, replace: old(self).new_replacement@ },
                r,
            ),
            r.spec_accepted() ==> final(self).new_trigger@.len() == 0
                && final(self).new_replacement@.len() == 0 && final(self).editing_index.is_none(),
            !r.spec_accepted() ==> final(self).new_trigger@ == old(self).new_trigger@
                && final(self).new_replacement@ == old(self).new_replacement@
                && final(self).editing_index == old(self).editing_index
                && final(self).matches@ == old(self).matches@,
            final(self).files@ == old(self).files@,
            final(self).load_status == old(self).load_status,
            final(self).selected_file@ == old(self).selected_file@,
            final(self).filter_text@ == old(self).filter_text@,
    {
        let r = upsert(
            &mut self.matches,
            self.editing_index,
            self.new_trigger.clone(),
            self.new_replacement.clone(),
        );
        if r.accepted() {
            self.new_trigger = String::new();
            self.new_replacement = String::new();
            self.editing_index = None;
        }
        r
    }

    /// Deletes the match on row `index` of the filtered view, and moves the
    /// edit target with the collection. A row outside the view changes
    /// nothing. Returns whether a match was removed; the caller then writes
    /// the file back.
    pub fn delete_match(&mut self, index: usize) -> (r: bool)
        requires
            old(self).wf(),
        ensures
            final(self).wf(),
            r == (index < shown_positions(old(self).matches_spec(), old(self).filter_text@).len()),
            r ==> ({
                let p = shown_positions(old(self).matches_spec(), old(self).filter_text@)[index as int];
                &&& final(self).matches@ == old(self).matches@.remove(p)
                &&& final(self).matches_spec() == old(self).matches_spec().remove(p)
                &&& final(self).editing_index == shift_target(old(self).editing_index, p)
            }),
            old(self).filter_text@.len() == 0 ==> r == (index < old(self).matches@.len()),
            old(self).filter_text@.len() == 0 && r ==> final(self).matches@ == old(
                self,
            ).matches@.remove(index as int),
            !r ==> final(self).matches@ == old(self).matches@,
            !r ==> final(self).editing_index == old(self).editing_index,
            final(self).files@ == old(self).files@,
            final(self).load_status == old(self).load_status,
            final(self).selected_file@ == old(self).selected_file@,
            final(self).filter_text@ == old(self).filter_text@,
            final(self).new_trigger@ == old(self).new_trigger@,
            final(self).new_replacement@ == old(self).new_replacement@,
    {
        let positions = self.filtered_positions();
        proof {
            if self.filter_text@.len() == 0 {
                assert(positions_view(positions@).len() == positions@.len());
                assert(shown_positions(self.matches_spec(), self.filter_text@).len()
                    == self.matches@.len());
            }
        }
        if index >= positions.len() {
            return false;
        }
        let p = positions[index];
        assert(positions_view(positions@)[index as int] == p as int);
        delete_at(&mut self.matches, p);
        match self.editing_index {
            Some(e) => {
                if e == p {
                    self.editing_index = None;
                } else if e > p {
                    self.editing_index = Some(e - 1);
                }
            },
            None => {},
        }
        true
    }

    /// The text to write back to the selected file: that of the document
    /// saved for the collection. A file that did not parse when loaded is
    /// never overwritten.
    pub fn save_text(&self) -> (r: Result<String, SaveError>)
        ensures
            self.load_status == LoadStatus::Malformed ==> r matches Err(SaveError::Malformed),
            self.load_status != LoadStatus::Malformed ==> match yaml_emit(
                document_of(self.matches_spec()),
            ) {
                Some(t) => r matches Ok(s) && s@ == t,
                None => r matches Err(SaveError::Encoding),
            },
    {
        if self.load_status == LoadStatus::Malformed {
            return Err(SaveError::Malformed);
        }
        match render_matches(&self.matches) {
            Some(t) => Ok(t),
            None => Err(SaveError::Encoding),
        }
    }

    /// The matches shown under the current filter, in collection order.
    pub fn filtered_matches(&self) -> (r: Vec<Match>)
        ensures
            matches_view(r@) == filter_spec(self.matches_spec(), self.filter_text@),
    {
        filter_matches(&self.matches, self.filter_text.as_str())
    }
}

} // verus!
