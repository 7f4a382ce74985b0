//! The recent-files list: its records and the operations that keep it.

use vstd::prelude::*;
use crate::text::str_equal;

verus! {

/// How many files the recent list keeps at most.
pub const MAX_RECENT_FILES: usize = 8;

/// One entry of the recent-files list.
#[derive(Debug, PartialEq, Eq)]
pub struct RecentFileRecord {
    pub path: String,
    pub display_name: String,
    /// Seconds since the Unix epoch at which the file was last opened.
    pub last_opened: i64,
}

impl Clone for RecentFileRecord {
    fn clone(&self) -> (r: Self)
        ensures
            r == *self,
    {
        RecentFileRecord {
            path: self.path.clone(),
            display_name: self.display_name.clone(),
            last_opened: self.last_opened,
        }
    }
}

/// `list` without the records whose path is `path`, in their order.
pub open spec fn without_path(list: Seq<RecentFileRecord>, path: Seq<char>) -> Seq<RecentFileRecord>
    decreases list.len(),
{
    if list.len() == 0 {
        Seq::<RecentFileRecord>::empty()
    } else {
        let rest = without_path(list.drop_last(), path);
        if list.last().path@ == path {
            rest
        } else {
            rest.push(list.last())
        }
    }
}

/// The first `n` entries of `s`, or all of them when there are fewer.
pub open spec fn at_most(s: Seq<RecentFileRecord>, n: nat) -> Seq<RecentFileRecord> {
    if s.len() > n {
        s.take(n as int)
    } else {
        s
    }
}

/// The recent list after `record` was opened: it comes first, any older
/// record of the same path leaves, and the list keeps at most
/// `MAX_RECENT_FILES` entries.
pub open spec fn spec_add_recent(list: Seq<RecentFileRecord>, record: RecentFileRecord) -> Seq<
    RecentFileRecord,
> {
    seq![record] + at_most(without_path(list, record.path@), (MAX_RECENT_FILES - 1) as nat)
}

/// No path occurs twice in `list`.
pub open spec fn unique_paths(list: Seq<RecentFileRecord>) -> bool {
    forall|i: int, j: int|
        0 <= i < j < list.len() ==> (#[trigger] list[i]).path@ != (#[trigger] list[j]).path@
}

/// `path` is the path of no record in `list`.
pub open spec fn lacks_path(list: Seq<RecentFileRecord>, path: Seq<char>) -> bool {
    forall|i: int| 0 <= i < list.len() ==> (#[trigger] list[i]).path@ != path
}

/// What `without_path` keeps: records of `list` whose path differs, no more than `list` holds.
pub proof fn lemma_without_path(list: Seq<RecentFileRecord>, path: Seq<char>)
    ensures
        without_path(list, path).len() <= list.len(),
        lacks_path(without_path(list, path), path),
        forall|x: RecentFileRecord| #[trigger]
            without_path(list, path).contains(x) ==> list.contains(x),
        unique_paths(list) ==> unique_paths(without_path(list, path)),
        lacks_path(list, path) ==> without_path(list, path) == list,
    decreases list.len(),
{
    if list.len() > 0 {
        let init = list.drop_last();
        lemma_without_path(init, path);
        let rest = without_path(init, path);
        assert forall|x: RecentFileRecord| #[trigger]
            without_path(list, path).contains(x) implies list.contains(x) by {
            if rest.contains(x) {
                assert(init.contains(x));
                let m = choose|m: int| 0 <= m < init.len() && init[m] == x;
                assert(list[m] == x);
            } else {
                assert(list[list.len() - 1] == x);
            }
        }
        if unique_paths(list) {
            assert(unique_paths(init)) by {
                assert forall|i: int, j: int| 0 <= i < j < init.len() implies (#[trigger] init[i]).path@
                    != (#[trigger] init[j]).path@ by {
                    assert(init[i] == list[i]);
                    assert(init[j] == list[j]);
                }
            }
            if list.last().path@ != path {
                let r = rest.push(list.last());
                assert forall|i: int, j: int| 0 <= i < j < r.len() implies (#[trigger] r[i]).path@
                    != (#[trigger] r[j]).path@ by {
                    if j == r.len() - 1 {
                        assert(rest.contains(r[i]));
                        assert(init.contains(r[i]));
                        let m = choose|m: int| 0 <= m < init.len() && init[m] == r[i];
                        assert(list[m] == r[i]);
                    } else {
                        assert(r[i] == rest[i]);
                        assert(r[j] == rest[j]);
                    }
                }
            }
        }
        if lacks_path(list, path) {
            assert(lacks_path(init, path)) by {
                assert forall|i: int| 0 <= i < init.len() implies (#[trigger] init[i]).path@
                    != path by {
                    assert(init[i] == list[i]);
                }
            }
            assert(list[list.len() - 1].path@ != path);
            assert(init.push(list.last()) =~= list);
        }
    }
}

/// Removing a path from a list that starts with `x` treats `x` on its own.
pub proof fn lemma_without_path_cons(
    x: RecentFileRecord,
    s: Seq<RecentFileRecord>,
    path: Seq<char>,
)
    ensures
        without_path(seq![x] + s, path) == (if x.path@ == path {
            without_path(s, path)
        } else {
            seq![x] + without_path(s, path)
        }),
    decreases s.len(),
{
    let l = seq![x] + s;
    if s.len() == 0 {
        assert(l.drop_last() =~= Seq::<RecentFileRecord>::empty());
        assert(l.last() == x);
        assert(without_path(s, path) =~= Seq::<RecentFileRecord>::empty());
        assert(without_path(l.drop_last(), path) =~= Seq::<RecentFileRecord>::empty());
        assert(seq![x] + Seq::<RecentFileRecord>::empty() =~= seq![x]);
        assert(Seq::<RecentFileRecord>::empty().push(x) =~= seq![x]);
    } else {
        assert(l.drop_last() =~= seq![x] + s.drop_last());
        assert(l.last() == s.last());
        lemma_without_path_cons(x, s.drop_last(), path);
        let w = without_path(s.drop_last(), path);
        assert(without_path(s, path) == (if s.last().path@ == path {
            w
        } else {
            w.push(s.last())
        }));
        if x.path@ != path {
            assert((seq![x] + w).push(s.last()) =~= seq![x] + w.push(s.last()));
        }
    }
}

/// Opening a file puts its record first; the list never grows past
/// `MAX_RECENT_FILES`; the path occurs nowhere after the first entry; the
/// other entries keep their order; and a list without repeated paths keeps
/// that property.
pub proof fn law_add_recent_shape(list: Seq<RecentFileRecord>, record: RecentFileRecord)
    ensures
        spec_add_recent(list, record).len() >= 1,
        spec_add_recent(list, record).len() <= MAX_RECENT_FILES,
        spec_add_recent(list, record)[0] == record,
        lacks_path(spec_add_recent(list, record).skip(1), record.path@),
        forall|i: int|
            1 <= i < spec_add_recent(list, record).len() ==> #[trigger] spec_add_recent(
                list,
                record,
            )[i] == without_path(list, record.path@)[i - 1],
        unique_paths(list) ==> unique_paths(spec_add_recent(list, record)),
{
    let rest = without_path(list, record.path@);
    lemma_without_path(list, record.path@);
    let kept = at_most(rest, (MAX_RECENT_FILES - 1) as nat);
    let res = spec_add_recent(list, record);
    assert(res.skip(1) =~= kept);
    assert forall|i: int| 0 <= i < kept.len() implies (#[trigger] kept[i]).path@ != record.path@ by {
        assert(kept[i] == rest[i]);
    }
    if unique_paths(list) {
        assert forall|i: int, j: int| 0 <= i < j < res.len() implies (#[trigger] res[i]).path@
            != (#[trigger] res[j]).path@ by {
            if i == 0 {
                assert(res[j] == kept[j - 1]);
            } else {
                assert(res[i] == rest[i - 1]);
                assert(res[j] == rest[j - 1]);
            }
        }
    }
}

/// Opening a file that is already first in the list and opening it again
/// gives the list that opening it once more would give: the second record
/// simply replaces the first.
pub proof fn law_reopen_replaces(
    list: Seq<RecentFileRecord>,
    first: RecentFileRecord,
    second: RecentFileRecord,
)
    requires
        first.path@ == second.path@,
    ensures
        spec_add_recent(spec_add_recent(list, first), second) == spec_add_recent(list, second),
{
    let p = first.path@;
    let rest = without_path(list, p);
    lemma_without_path(list, p);
    let kept = at_most(rest, (MAX_RECENT_FILES - 1) as nat);
    assert(lacks_path(kept, p)) by {
        assert forall|i: int| 0 <= i < kept.len() implies (#[trigger] kept[i]).path@ != p by {
            assert(kept[i] == rest[i]);
        }
    }
    lemma_without_path_cons(first, kept, p);
    lemma_without_path(kept, p);
    assert(without_path(spec_add_recent(list, first), p) == kept);
    assert(at_most(kept, (MAX_RECENT_FILES - 1) as nat) == kept);
}

/// Opening a file that is not in a list with room left adds it in front of
/// the unchanged list.
pub proof fn law_add_new_with_room(list: Seq<RecentFileRecord>, record: RecentFileRecord)
    requires
        lacks_path(list, record.path@),
        list.len() < MAX_RECENT_FILES,
    ensures
        spec_add_recent(list, record) == seq![record] + list,
{
    lemma_without_path(list, record.path@);
}

/// The test that a record's path is not `path`.
pub open spec fn path_differs(path: Seq<char>) -> spec_fn(RecentFileRecord) -> bool {
    |r: RecentFileRecord| r.path@ != path
}

/// Removing a path keeps exactly the records whose path differs, in their
/// order: it is `Seq::filter` with that test.
pub proof fn law_without_path_is_filter(list: Seq<RecentFileRecord>, path: Seq<char>)
    ensures
        without_path(list, path) == list.filter(path_differs(path)),
    decreases list.len(),
{
    reveal_with_fuel(Seq::<RecentFileRecord>::filter, 1);
    if list.len() > 0 {
        law_without_path_is_filter(list.drop_last(), path);
    }
}

/// Opening a file gives the list that keeping the other paths, putting the
/// file in front and cutting to `MAX_RECENT_FILES` gives: as many entries as
/// that leaves, up to the limit, and entry for entry the same.
pub proof fn law_add_recent_keeps_others_up_to_limit(
    list: Seq<RecentFileRecord>,
    record: RecentFileRecord,
)
    ensures
        ({
            let kept = seq![record] + list.filter(path_differs(record.path@));
            &&& spec_add_recent(list, record).len() == if kept.len() > MAX_RECENT_FILES {
                MAX_RECENT_FILES as int
            } else {
                kept.len() as int
            }
            &&& forall|i: int|
                0 <= i < spec_add_recent(list, record).len() ==> #[trigger] spec_add_recent(
                    list,
                    record,
                )[i] == kept[i]
        }),
{
    law_without_path_is_filter(list, record.path@);
    let kept = seq![record] + list.filter(path_differs(record.path@));
    let res = spec_add_recent(list, record);
    assert forall|i: int| 0 <= i < res.len() implies #[trigger] res[i] == kept[i] by {
        if i > 0 {
            assert(res[i] == without_path(list, record.path@)[i - 1]);
        }
    }
}

/// The records of `list` whose path is not `path`, in their order.
pub fn records_without_path(list: &Vec<RecentFileRecord>, path: &str) -> (r: Vec<RecentFileRecord>)
    ensures
        r@ == without_path(list@, path@),
{
    let mut r: Vec<RecentFileRecord> = Vec::new();
    let mut i: usize = 0;
    while i < list.len()
        invariant
            i <= list.len(),
            r@ == without_path(list@.take(i as int), path@),
        decreases list.len() - i,
    {
        let ghost before = list@.take(i as int);
        assert(list@.take(i + 1).drop_last() =~= before);
        if !str_equal(list[i].path.as_str(), path) {
            r.push(list[i].clone());
        }
        i = i + 1;
    }
    assert(list@.take(list.len() as int) =~= list@);
    r
}

/// Puts `record` first in `list`, drops any older record of the same path and
/// keeps at most `MAX_RECENT_FILES` entries.
pub fn add_recent_record(list: &mut Vec<RecentFileRecord>, record: RecentFileRecord)
    ensures
        final(list)@ == spec_add_recent(old(list)@, record),
{
    let mut kept = records_without_path(list, record.path.as_str());
    kept.insert(0, record);
    kept.truncate(MAX_RECENT_FILES);
    assert(kept@ =~= spec_add_recent(old(list)@, record));
    *list = kept;
}

} // verus!
