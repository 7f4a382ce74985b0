//! The settings that persist between runs, and how a loaded copy is tidied.

use vstd::prelude::*;
use crate::recent::{at_most, RecentFileRecord, MAX_RECENT_FILES};
use crate::theme::ReaderTheme;

verus! {

broadcast use vstd::seq_lib::group_to_multiset_ensures;

/// What the application stores between runs.
#[derive(Debug)]
pub struct StoredSettings {
    pub selected_theme: ReaderTheme,
    pub auto_reload: bool,
    pub recent_files: Vec<RecentFileRecord>,
}

impl Default for StoredSettings {
    fn default() -> (s: Self)
        ensures
            s.selected_theme == ReaderTheme::GitHub,
            s.auto_reload,
            s.recent_files@ == Seq::<RecentFileRecord>::empty(),
    {
        StoredSettings {
            selected_theme: ReaderTheme::GitHub,
            auto_reload: true,
            recent_files: Vec::new(),
        }
    }
}

impl Clone for StoredSettings {
    fn clone(&self) -> (s: Self)
        ensures
            s.selected_theme == self.selected_theme,
            s.auto_reload == self.auto_reload,
            s.recent_files@ == self.recent_files@,
    {
        StoredSettings {
            selected_theme: self.selected_theme,
            auto_reload: self.auto_reload,
            recent_files: clone_records(&self.recent_files),
        }
    }
}

/// A copy of a list of records, entry for entry.
pub fn clone_records(list: &Vec<RecentFileRecord>) -> (r: Vec<RecentFileRecord>)
    ensures
        r@ == list@,
{
    let r = list.clone();
    assert forall|i: int| 0 <= i < list.len() implies r@[i] == list@[i] by {
        assert(cloned::<RecentFileRecord>(list[i], r[i]));
    }
    assert(r@ =~= list@);
    r
}

/// `record` placed in `sorted` before the first entry opened no later than it.
pub open spec fn insert_by_recency(record: RecentFileRecord, sorted: Seq<RecentFileRecord>) -> Seq<
    RecentFileRecord,
>
    decreases sorted.len(),
{
    if sorted.len() == 0 {
        seq![record]
    } else if record.last_opened >= sorted[0].last_opened {
        seq![record] + sorted
    } else {
        seq![sorted[0]] + insert_by_recency(record, sorted.drop_first())
    }
}

/// `list` ordered from the most recently opened to the least, entries opened at
/// the same time keeping their order (a stable sort).
pub open spec fn sort_by_recency(list: Seq<RecentFileRecord>) -> Seq<RecentFileRecord>
    decreases list.len(),
{
    if list.len() == 0 {
        list
    } else {
        insert_by_recency(list[0], sort_by_recency(list.drop_first()))
    }
}

/// Every entry was opened no earlier than the entries after it.
pub open spec fn newest_first(list: Seq<RecentFileRecord>) -> bool {
    forall|i: int, j: int|
        0 <= i < j < list.len() ==> (#[trigger] list[i]).last_opened >= (#[trigger] list[j]).last_opened
}

/// `j` is where `insert_by_recency` puts `record`: every entry before it is newer.
pub open spec fn is_insertion_point(record: RecentFileRecord, list: Seq<RecentFileRecord>, j: int) -> bool {
    &&& 0 <= j <= list.len()
    &&& forall|k: int| 0 <= k < j ==> (#[trigger] list[k]).last_opened > record.last_opened
    &&& j < list.len() ==> list[j].last_opened <= record.last_opened
}

/// The position at which `insert_by_recency` places `record`.
pub open spec fn insertion_index(record: RecentFileRecord, list: Seq<RecentFileRecord>) -> int
    decreases list.len(),
{
    if list.len() == 0 {
        0
    } else if record.last_opened >= list[0].last_opened {
        0
    } else {
        1 + insertion_index(record, list.drop_first())
    }
}

pub proof fn lemma_insertion_index(record: RecentFileRecord, list: Seq<RecentFileRecord>)
    ensures
        is_insertion_point(record, list, insertion_index(record, list)),
    decreases list.len(),
{
    if list.len() > 0 && record.last_opened < list[0].last_opened {
        let rest = list.drop_first();
        lemma_insertion_index(record, rest);
        let j = insertion_index(record, list);
        assert forall|k: int| 0 <= k < j implies (#[trigger] list[k]).last_opened
            > record.last_opened by {
            if k > 0 {
                assert(list[k] == rest[k - 1]);
            }
        }
        if j < list.len() {
            assert(list[j] == rest[j - 1]);
        }
    }
}

/// `insert_by_recency` inserts at any insertion point.
pub proof fn lemma_insert_at(record: RecentFileRecord, list: Seq<RecentFileRecord>, j: int)
    requires
        is_insertion_point(record, list, j),
    ensures
        insert_by_recency(record, list) == list.insert(j, record),
    decreases list.len(),
{
    if j == 0 {
        assert(list.insert(0, record) =~= seq![record] + list);
    } else {
        let rest = list.drop_first();
        assert(list[0].last_opened > record.last_opened);
        assert(is_insertion_point(record, rest, j - 1)) by {
            assert forall|k: int| 0 <= k < j - 1 implies (#[trigger] rest[k]).last_opened
                > record.last_opened by {
                assert(rest[k] == list[k + 1]);
            }
            if j - 1 < rest.len() {
                assert(rest[j - 1] == list[j]);
            }
        }
        lemma_insert_at(record, rest, j - 1);
        assert(seq![list[0]] + rest.insert(j - 1, record) =~= list.insert(j, record));
    }
}

/// Sorting by recency orders the list newest first and keeps every entry.
pub proof fn lemma_sort_by_recency(list: Seq<RecentFileRecord>)
    ensures
        newest_first(sort_by_recency(list)),
        sort_by_recency(list).to_multiset() == list.to_multiset(),
        sort_by_recency(list).len() == list.len(),
    decreases list.len(),
{
    if list.len() > 0 {
        let rest = list.drop_first();
        lemma_sort_by_recency(rest);
        let r = sort_by_recency(rest);
        let x = list[0];
        let j = insertion_index(x, r);
        lemma_insertion_index(x, r);
        lemma_insert_at(x, r, j);
        let out = r.insert(j, x);
        assert(sort_by_recency(list) == out);
        assert forall|a: int, b: int| 0 <= a < b < out.len() implies (#[trigger] out[a]).last_opened
            >= (#[trigger] out[b]).last_opened by {
            if b < j {
                assert(out[a] == r[a] && out[b] == r[b]);
            } else if b == j {
                assert(out[a] == r[a]);
            } else if a < j {
                assert(out[a] == r[a] && out[b] == r[b - 1]);
            } else if a == j {
                assert(out[b] == r[b - 1]);
                assert(r[j].last_opened <= x.last_opened);
                assert(r[j].last_opened >= r[b - 1].last_opened || b - 1 == j);
            } else {
                assert(out[a] == r[a - 1] && out[b] == r[b - 1]);
            }
        }
        assert(rest.insert(0, x) =~= list);
        vstd::seq_lib::to_multiset_insert(r, j, x);
        vstd::seq_lib::to_multiset_insert(rest, 0, x);
    }
}

/// Puts `record` into a list ordered newest first, after the entries newer than it.
fn insert_newest_first(list: &mut Vec<RecentFileRecord>, record: RecentFileRecord)
    ensures
        final(list)@ == insert_by_recency(record, old(list)@),
{
    let mut j: usize = 0;
    while j < list.len() && list[j].last_opened > record.last_opened
        invariant
            j <= list.len(),
            forall|k: int| 0 <= k < j ==> (#[trigger] list@[k]).last_opened > record.last_opened,
        decreases list.len() - j,
    {
        j = j + 1;
    }
    proof {
        lemma_insert_at(record, list@, j as int);
    }
    list.insert(j, record);
}

/// `list` ordered newest first, stably.
pub fn sorted_by_recency(list: Vec<RecentFileRecord>) -> (r: Vec<RecentFileRecord>)
    ensures
        r@ == sort_by_recency(list@),
{
    let mut r: Vec<RecentFileRecord> = Vec::new();
    let mut i: usize = list.len();
    let mut rest = list;
    let ghost whole = rest@;
    assert(whole.skip(whole.len() as int) =~= Seq::<RecentFileRecord>::empty());
    while i > 0
        invariant
            i <= whole.len(),
            rest@ == whole.take(i as int),
            r@ == sort_by_recency(whole.skip(i as int)),
        decreases i,
    {
        let record = rest.pop().unwrap();
        i = i - 1;
        assert(rest@ =~= whole.take(i as int));
        assert(whole.skip(i as int).drop_first() =~= whole.skip(i + 1));
        assert(whole.skip(i as int)[0] == record);
        insert_newest_first(&mut r, record);
    }
    assert(whole.skip(0) =~= whole);
    r
}

/// A loaded copy of the settings with its recent list ordered newest first
/// and cut to `MAX_RECENT_FILES` entries.
pub fn normalize_settings(settings: StoredSettings) -> (r: StoredSettings)
    ensures
        r.selected_theme == settings.selected_theme,
        r.auto_reload == settings.auto_reload,
        r.recent_files@ == at_most(sort_by_recency(settings.recent_files@), MAX_RECENT_FILES as nat),
{
    let StoredSettings { selected_theme, auto_reload, recent_files } = settings;
    let mut sorted = sorted_by_recency(recent_files);
    sorted.truncate(MAX_RECENT_FILES);
    StoredSettings { selected_theme, auto_reload, recent_files: sorted }
}

/// After tidying, the recent list is ordered newest first, holds at most
/// `MAX_RECENT_FILES` entries (exactly that many when there were more), and
/// holds only entries that were there before, each no more often than before.
pub proof fn law_normalized_recent_files(list: Seq<RecentFileRecord>)
    ensures
        newest_first(at_most(sort_by_recency(list), MAX_RECENT_FILES as nat)),
        at_most(sort_by_recency(list), MAX_RECENT_FILES as nat).len() == if list.len()
            > MAX_RECENT_FILES {
            MAX_RECENT_FILES as nat
        } else {
            list.len()
        },
        at_most(sort_by_recency(list), MAX_RECENT_FILES as nat).to_multiset().subset_of(
            list.to_multiset(),
        ),
        list.len() <= MAX_RECENT_FILES ==> at_most(
            sort_by_recency(list),
            MAX_RECENT_FILES as nat,
        ).to_multiset() == list.to_multiset(),
{
    lemma_sort_by_recency(list);
    let s = sort_by_recency(list);
    let t = at_most(s, MAX_RECENT_FILES as nat);
    if s.len() > MAX_RECENT_FILES {
        let u = s.skip(MAX_RECENT_FILES as int);
        assert(s =~= t + u);
        vstd::seq_lib::lemma_multiset_commutative(t, u);
        assert(t.to_multiset().subset_of(s.to_multiset())) by {
            broadcast use vstd::multiset::group_multiset_axioms;
        }
    }
}

/// A list already ordered newest first is left as it is by the sort.
pub proof fn lemma_sort_sorted(list: Seq<RecentFileRecord>)
    requires
        newest_first(list),
    ensures
        sort_by_recency(list) == list,
    decreases list.len(),
{
    if list.len() > 0 {
        let rest = list.drop_first();
        assert(newest_first(rest)) by {
            assert forall|i: int, j: int| 0 <= i < j < rest.len() implies (#[trigger] rest[i]).last_opened
                >= (#[trigger] rest[j]).last_opened by {
                assert(rest[i] == list[i + 1] && rest[j] == list[j + 1]);
            }
        }
        lemma_sort_sorted(rest);
        if rest.len() > 0 {
            assert(list[0].last_opened >= list[1].last_opened);
        }
        assert(seq![list[0]] + rest =~= list);
    }
}

/// Tidying settings that were already tidied changes nothing.
pub proof fn law_normalize_idempotent(list: Seq<RecentFileRecord>)
    ensures
        at_most(
            sort_by_recency(at_most(sort_by_recency(list), MAX_RECENT_FILES as nat)),
            MAX_RECENT_FILES as nat,
        ) == at_most(sort_by_recency(list), MAX_RECENT_FILES as nat),
{
    law_normalized_recent_files(list);
    let t = at_most(sort_by_recency(list), MAX_RECENT_FILES as nat);
    lemma_sort_sorted(t);
}

/// The entries of `list` opened at time `t`, in their order.
pub open spec fn opened_at(list: Seq<RecentFileRecord>, t: i64) -> Seq<RecentFileRecord>
    decreases list.len(),
{
    if list.len() == 0 {
        list
    } else if list[0].last_opened == t {
        seq![list[0]] + opened_at(list.drop_first(), t)
    } else {
        opened_at(list.drop_first(), t)
    }
}

/// Inserting at an insertion point puts the record before every entry opened
/// at the same time.
pub proof fn lemma_opened_at_insert(
    record: RecentFileRecord,
    list: Seq<RecentFileRecord>,
    j: int,
    t: i64,
)
    requires
        is_insertion_point(record, list, j),
    ensures
        opened_at(list.insert(j, record), t) == if record.last_opened == t {
            seq![record] + opened_at(list, t)
        } else {
            opened_at(list, t)
        },
    decreases j,
{
    let out = list.insert(j, record);
    if j == 0 {
        assert(out =~= seq![record] + list);
        assert(out.drop_first() =~= list);
    } else {
        let rest = list.drop_first();
        assert(is_insertion_point(record, rest, j - 1)) by {
            assert forall|k: int| 0 <= k < j - 1 implies (#[trigger] rest[k]).last_opened
                > record.last_opened by {
                assert(rest[k] == list[k + 1]);
            }
            if j - 1 < rest.len() {
                assert(rest[j - 1] == list[j]);
            }
        }
        lemma_opened_at_insert(record, rest, j - 1, t);
        assert(out[0] == list[0]);
        assert(out.drop_first() =~= rest.insert(j - 1, record));
        assert(list[0].last_opened > record.last_opened);
    }
}

/// The sort is stable: for every time, the entries opened at that time come
/// out in the order they went in.
pub proof fn law_sort_is_stable(list: Seq<RecentFileRecord>, t: i64)
    ensures
        opened_at(sort_by_recency(list), t) == opened_at(list, t),
    decreases list.len(),
{
    if list.len() > 0 {
        let rest = list.drop_first();
        law_sort_is_stable(rest, t);
        let r = sort_by_recency(rest);
        let x = list[0];
        let j = insertion_index(x, r);
        lemma_insertion_index(x, r);
        lemma_insert_at(x, r, j);
        lemma_opened_at_insert(x, r, j, t);
    }
}

} // verus!
