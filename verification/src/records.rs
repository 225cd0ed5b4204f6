//! The records in force, each with the watches on its two files.
use crate::path::{path_key, FilePath};
use crate::types::{law_record_key, same_record, FromTo, Record, RecordKey, RecordView, UID};
use vstd::prelude::*;

verus! {

/// A record in force, with the ids of the watches on its source and target.
#[derive(Debug)]
pub struct Entry {
    pub record: Record,
    pub watches: FromTo<i32>,
}

#[verifier::ext_equal]
pub struct EntryView {
    pub record: RecordView,
    pub watches: FromTo<i32>,
}

impl View for Entry {
    type V = EntryView;

    open spec fn view(&self) -> EntryView {
        EntryView { record: self.record@, watches: self.watches }
    }
}

impl DeepView for Entry {
    type V = EntryView;

    open spec fn deep_view(&self) -> EntryView {
        self@
    }
}

/// The place of the first entry that `p` holds of, or the length.
pub open spec fn first_where(s: Seq<EntryView>, p: spec_fn(EntryView) -> bool) -> int
    decreases s.len(),
{
    if s.len() == 0 || p(s[0]) {
        0
    } else {
        1 + first_where(s.drop_first(), p)
    }
}

/// Entries of the record with key `k`.
pub open spec fn keyed(k: RecordKey) -> spec_fn(EntryView) -> bool {
    |e: EntryView| e.record.key() == k
}

/// Entries with the watch `wd` on one of their files.
pub open spec fn watched(wd: i32) -> spec_fn(EntryView) -> bool {
    |e: EntryView| e.watches.from == wd || e.watches.to == wd
}

/// Whether `path` is the one that is wanted, if one is.
pub open spec fn wanted_path(wanted: Option<Seq<char>>, path: Seq<char>) -> bool {
    wanted is Some && path_key(wanted->0) == path_key(path)
}

/// Entries of user `me` with the wanted source or the wanted target.
pub open spec fn selected(wanted: FromTo<Option<Seq<char>>>, me: UID) -> spec_fn(
    EntryView,
) -> bool {
    |e: EntryView|
        e.record.user == me && (wanted_path(wanted.from, e.record.src_dst.from) || wanted_path(
            wanted.to,
            e.record.src_dst.to,
        ))
}

/// The other entries.
pub open spec fn unselected(wanted: FromTo<Option<Seq<char>>>, me: UID) -> spec_fn(
    EntryView,
) -> bool {
    |e: EntryView| !selected(wanted, me)(e)
}

/// `s` with the watches `w` for the record `r`: in its place, under the writing
/// that is there, if it is in force, and at the end otherwise.
pub open spec fn put(s: Seq<EntryView>, r: RecordView, w: FromTo<i32>) -> Seq<EntryView> {
    let i = first_where(s, keyed(r.key()));
    if i < s.len() {
        s.update(i, EntryView { record: s[i].record, watches: w })
    } else {
        s.push(EntryView { record: r, watches: w })
    }
}

/// The records of the entries.
pub open spec fn records_of(s: Seq<EntryView>) -> Seq<RecordView> {
    s.map_values(|e: EntryView| e.record)
}

/// No record is in force twice.
pub open spec fn distinct_keys(s: Seq<EntryView>) -> bool {
    forall|i: int, j: int|
        0 <= i < j < s.len() ==> #[trigger] s[i].record.key() != #[trigger] s[j].record.key()
}

/// `first_where` finds `i` if `i` is the first place that `p` holds at.
pub proof fn lemma_first_where(s: Seq<EntryView>, p: spec_fn(EntryView) -> bool, i: int)
    requires
        0 <= i <= s.len(),
        forall|j: int| 0 <= j < i ==> !p(#[trigger] s[j]),
        i < s.len() ==> p(s[i]),
    ensures
        first_where(s, p) == i,
    decreases s.len(),
{
    if i > 0 {
        let t = s.drop_first();
        assert forall|j: int| 0 <= j < i - 1 implies !p(#[trigger] t[j]) by {
            assert(t[j] == s[j + 1]);
        }
        assert(i < s.len() ==> t[i - 1] == s[i]);
        lemma_first_where(t, p, i - 1);
    }
}

/// What `first_where` finds.
pub proof fn lemma_first_where_found(s: Seq<EntryView>, p: spec_fn(EntryView) -> bool)
    ensures
        0 <= first_where(s, p) <= s.len(),
        forall|j: int| 0 <= j < first_where(s, p) ==> !p(#[trigger] s[j]),
        first_where(s, p) < s.len() ==> p(s[first_where(s, p)]),
    decreases s.len(),
{
    if s.len() > 0 && !p(s[0]) {
        let t = s.drop_first();
        lemma_first_where_found(t, p);
        let i = first_where(s, p);
        assert forall|j: int| 0 <= j < i implies !p(#[trigger] s[j]) by {
            if j > 0 {
                assert(t[j - 1] == s[j]);
            }
        }
        assert(i < s.len() ==> t[i - 1] == s[i]);
    }
}

/// An event of the watch `wd` concerns the first entry that has `wd` itself on its
/// source or on its target, and none just if no entry has.
pub proof fn law_first_watched(s: Seq<EntryView>, wd: i32)
    ensures
        ({
            let i = first_where(s, watched(wd));
            &&& 0 <= i <= s.len()
            &&& i < s.len() ==> s[i].watches.from == wd || s[i].watches.to == wd
            &&& forall|j: int|
                0 <= j < i ==> (#[trigger] s[j]).watches.from != wd && s[j].watches.to != wd
        }),
{
    lemma_first_where_found(s, watched(wd));
    assert forall|j: int| 0 <= j < first_where(s, watched(wd)) implies (
    #[trigger] s[j]).watches.from != wd && s[j].watches.to != wd by {
        assert(!watched(wd)(s[j]));
    }
}

/// An entry of user `me` is selected if its source is the wanted one, whatever target
/// is wanted, and if its target is the wanted one, whatever source is wanted. No other
/// is, and none of another user.
pub proof fn law_selected(e: EntryView, wanted: FromTo<Option<Seq<char>>>, me: UID)
    ensures
        wanted.from matches Some(p) && path_key(p) == path_key(e.record.src_dst.from)
            && e.record.user == me ==> selected(wanted, me)(e),
        wanted.to matches Some(p) && path_key(p) == path_key(e.record.src_dst.to) && e.record.user
            == me ==> selected(wanted, me)(e),
        selected(wanted, me)(e) ==> {
            &&& e.record.user == me
            &&& {
                ||| wanted.from matches Some(p) && path_key(p) == path_key(e.record.src_dst.from)
                ||| wanted.to matches Some(p) && path_key(p) == path_key(e.record.src_dst.to)
            }
        },
        unselected(wanted, me)(e) <==> !selected(wanted, me)(e),
{
}

/// Putting a record gives the entry of the same record, if there is one, the new
/// watches, and comes last otherwise. Every other entry stays as it is, in its place.
pub proof fn law_put_entries(s: Seq<EntryView>, r: RecordView, w: FromTo<i32>)
    requires
        distinct_keys(s),
    ensures
        ({
            let t = put(s, r, w);
            &&& forall|i: int|
                0 <= i < s.len() && !same_record(s[i].record, r) ==> #[trigger] t[i] == s[i]
            &&& forall|i: int|
                0 <= i < s.len() && same_record(s[i].record, r) ==> (#[trigger] t[i]).record
                    == s[i].record && t[i].watches == w
            &&& forall|i: int|
                0 <= i < s.len() && same_record((#[trigger] s[i]).record, r) ==> t.len() == s.len()
            &&& (forall|i: int| 0 <= i < s.len() ==> !same_record((#[trigger] s[i]).record, r))
                ==> t == s.push(EntryView { record: r, watches: w })
        }),
{
    let t = put(s, r, w);
    let p = keyed(r.key());
    let k = first_where(s, p);
    lemma_first_where_found(s, p);
    assert forall|i: int| 0 <= i < s.len() implies (same_record(#[trigger] s[i].record, r) <==> i
        == k) by {
        law_record_key(s[i].record, r);
        if i < k {
            assert(!p(s[i]));
        } else if i > k {
            assert(p(s[k]));
            assert(s[k].record.key() != s[i].record.key());
        } else {
            assert(p(s[k]));
        }
    }
    if forall|i: int| 0 <= i < s.len() ==> !same_record((#[trigger] s[i]).record, r) {
        if k < s.len() {
            assert(same_record(s[k].record, r));
        }
    }
}

/// No record is in force twice just if no two entries are of the same record.
pub proof fn law_distinct(s: Seq<EntryView>)
    ensures
        distinct_keys(s) <==> forall|i: int, j: int|
            0 <= i < j < s.len() ==> !same_record(
                (#[trigger] s[i]).record,
                (#[trigger] s[j]).record,
            ),
{
    assert forall|i: int, j: int| 0 <= i < j < s.len() implies (s[i].record.key()
        == s[j].record.key() <==> same_record(
        (#[trigger] s[i]).record,
        (#[trigger] s[j]).record,
    )) by {
        law_record_key(s[i].record, s[j].record);
    }
    if distinct_keys(s) {
        assert forall|i: int, j: int| 0 <= i < j < s.len() implies !same_record(
            (#[trigger] s[i]).record,
            (#[trigger] s[j]).record,
        ) by {
            assert(s[i].record.key() != s[j].record.key());
        }
    } else {
        let (i, j) = choose|i: int, j: int|
            0 <= i < j < s.len() && !(#[trigger] s[i].record.key() != #[trigger] s[j].record.key());
        assert(same_record(s[i].record, s[j].record));
    }
}

/// The records of the entries are as many, and in the same order.
pub proof fn law_records_of(s: Seq<EntryView>)
    ensures
        records_of(s).len() == s.len(),
        forall|i: int| 0 <= i < s.len() ==> #[trigger] records_of(s)[i] == s[i].record,
{
}

/// Putting a record keeps the keys distinct.
pub proof fn lemma_put_distinct(s: Seq<EntryView>, r: RecordView, w: FromTo<i32>)
    requires
        distinct_keys(s),
    ensures
        distinct_keys(put(s, r, w)),
{
    lemma_first_where_found(s, keyed(r.key()));
    let t = put(s, r, w);
    assert forall|i: int, j: int| 0 <= i < j < t.len() implies #[trigger] t[i].record.key()
        != #[trigger] t[j].record.key() by {
        if j < s.len() {
            assert(s[i].record.key() != s[j].record.key());
        } else {
            assert(!keyed(r.key())(s[i]));
        }
    }
}

/// Taking one entry out keeps the keys distinct.
pub proof fn lemma_remove_distinct(s: Seq<EntryView>, i: int)
    requires
        distinct_keys(s),
        0 <= i < s.len(),
    ensures
        distinct_keys(s.remove(i)),
{
    let t = s.remove(i);
    assert forall|a: int, b: int| 0 <= a < b < t.len() implies #[trigger] t[a].record.key()
        != #[trigger] t[b].record.key() by {
        let c = if a < i {
            a
        } else {
            a + 1
        };
        let d = if b < i {
            b
        } else {
            b + 1
        };
        assert(s[c].record.key() != s[d].record.key());
    }
}

/// Leaving the last entry out keeps the keys distinct.
pub proof fn lemma_drop_last_distinct(s: Seq<EntryView>)
    requires
        distinct_keys(s),
        s.len() > 0,
    ensures
        distinct_keys(s.drop_last()),
{
    assert(s.drop_last() =~= s.remove(s.len() - 1));
    lemma_remove_distinct(s, s.len() - 1);
}

/// Filtering keeps the keys distinct.
pub proof fn lemma_filter_distinct(s: Seq<EntryView>, p: spec_fn(EntryView) -> bool)
    requires
        distinct_keys(s),
    ensures
        distinct_keys(s.filter(p)),
    decreases s.len(),
{
    reveal(Seq::filter);
    if s.len() > 0 {
        let t = s.drop_last();
        lemma_drop_last_distinct(s);
        lemma_filter_distinct(t, p);
        let f = t.filter(p);
        let n = s.len() - 1;
        assert forall|i: int| 0 <= i < f.len() implies #[trigger] f[i].record.key()
            != s[n].record.key() by {
            assert(f.contains(f[i]));
            t.lemma_filter_contains_rev(p, f[i]);
            let k = choose|k: int| 0 <= k < t.len() && t[k] == f[i];
            assert(s[k].record.key() != s[n].record.key());
        }
        assert forall|i: int, j: int| 0 <= i < j < s.filter(p).len() implies #[trigger] s.filter(
            p,
        )[i].record.key() != #[trigger] s.filter(p)[j].record.key() by {
            if j < f.len() {
                assert(f[i].record.key() != f[j].record.key());
            }
        }
    }
}

/// The records in force. None is there twice; the first to come is the first.
#[derive(Debug)]
pub struct Records {
    entries: Vec<Entry>,
}

impl View for Records {
    type V = Seq<EntryView>;

    closed spec fn view(&self) -> Seq<EntryView> {
        self.entries.deep_view()
    }
}

fn path_is_wanted(wanted: &Option<FilePath>, path: &FilePath) -> (b: bool)
    ensures
        b == wanted_path(wanted.deep_view(), path@),
{
    match wanted {
        Some(w) => *w == *path,
        None => false,
    }
}

impl Records {
    pub open spec fn wf(self) -> bool {
        distinct_keys(self@)
    }

    /// No records.
    pub fn new() -> (r: Records)
        ensures
            r.wf(),
            r@ == Seq::<EntryView>::empty(),
    {
        let r = Records { entries: Vec::new() };
        assert(r@ =~= Seq::<EntryView>::empty());
        r
    }

    fn find_key(&self, record: &Record) -> (i: usize)
        ensures
            i == first_where(self@, keyed(record@.key())),
            i <= self.entries.len(),
    {
        let mut i: usize = 0;
        while i < self.entries.len() && self.entries[i].record != *record
            invariant
                i <= self.entries.len(),
                forall|j: int| 0 <= j < i ==> !keyed(record@.key())(#[trigger] self@[j]),
            decreases self.entries.len() - i,
        {
            i += 1;
        }
        proof {
            lemma_first_where(self@, keyed(record@.key()), i as int);
        }
        i
    }

    fn find_watch(&self, wd: i32) -> (i: usize)
        ensures
            i == first_where(self@, watched(wd)),
            i <= self.entries.len(),
    {
        let mut i: usize = 0;
        while i < self.entries.len() && self.entries[i].watches.from != wd
            && self.entries[i].watches.to != wd
            invariant
                i <= self.entries.len(),
                forall|j: int| 0 <= j < i ==> !watched(wd)(#[trigger] self@[j]),
            decreases self.entries.len() - i,
        {
            i += 1;
        }
        proof {
            lemma_first_where(self@, watched(wd), i as int);
        }
        i
    }

    /// Puts `record` in force with `watches`.
    pub fn insert(&mut self, record: Record, watches: FromTo<i32>)
        requires
            old(self).wf(),
        ensures
            final(self).wf(),
            final(self)@ == put(old(self)@, record@, watches),
    {
        let i = self.find_key(&record);
        proof {
            lemma_put_distinct(self@, record@, watches);
        }
        if i < self.entries.len() {
            self.entries[i].watches = watches;
        } else {
            self.entries.push(Entry { record, watches });
        }
        assert(self@ =~= put(old(self)@, record@, watches));
    }

    /// Takes out the first entry with the watch `wd`.
    pub fn take_watched(&mut self, wd: i32) -> (r: Option<Entry>)
        requires
            old(self).wf(),
        ensures
            final(self).wf(),
            r matches Some(e) ==> e.watches.from == wd || e.watches.to == wd,
            r is None <==> forall|j: int|
                0 <= j < old(self)@.len() ==> (#[trigger] old(self)@[j]).watches.from != wd && old(
                    self,
                )@[j].watches.to != wd,
            ({
                let i = first_where(old(self)@, watched(wd));
                if i < old(self)@.len() {
                    &&& r matches Some(e) && e@ == old(self)@[i]
                    &&& final(self)@ == old(self)@.remove(i)
                } else {
                    r is None && final(self)@ == old(self)@
                }
            }),
    {
        let i = self.find_watch(wd);
        proof {
            law_first_watched(self@, wd);
        }
        if i < self.entries.len() {
            let e = self.entries.remove(i);
            assert(self@ =~= old(self)@.remove(i as int));
            proof {
                lemma_remove_distinct(old(self)@, i as int);
            }
            Some(e)
        } else {
            None
        }
    }

    fn is_selected(&self, i: usize, wanted: &FromTo<Option<FilePath>>, me: UID) -> (b: bool)
        requires
            i < self.entries.len(),
        ensures
            b == selected(wanted.deep_view(), me)(self@[i as int]),
    {
        let r = &self.entries[i].record;
        r.user == me && (path_is_wanted(&wanted.from, &r.src_dst.from) || path_is_wanted(
            &wanted.to,
            &r.src_dst.to,
        ))
    }

    /// Takes out the entries of user `me` with the wanted source or target.
    pub fn take_selected(&mut self, wanted: &FromTo<Option<FilePath>>, me: UID) -> (taken: Vec<
        Entry,
    >)
        requires
            old(self).wf(),
        ensures
            final(self).wf(),
            taken.deep_view() == old(self)@.filter(selected(wanted.deep_view(), me)),
            final(self)@ == old(self)@.filter(unselected(wanted.deep_view(), me)),
    {
        let mut taken: Vec<Entry> = Vec::new();
        let mut i: usize = 0;
        let ghost all = self@;
        let ghost mut k: int = 0;
        let ghost yes = selected(wanted.deep_view(), me);
        let ghost no = unselected(wanted.deep_view(), me);
        proof {
            reveal(Seq::filter);
            assert(taken.deep_view() =~= all.take(0).filter(yes));
            assert(self@ =~= all.take(0).filter(no) + all.skip(0));
        }
        while i < self.entries.len()
            invariant
                0 <= k <= all.len(),
                yes == selected(wanted.deep_view(), me),
                no == unselected(wanted.deep_view(), me),
                taken.deep_view() == all.take(k).filter(yes),
                i == all.take(k).filter(no).len(),
                self@ == all.take(k).filter(no) + all.skip(k),
                self@.len() == self.entries.len(),
            decreases all.len() - k,
        {
            let ghost before = self@;
            proof {
                assert(k < all.len());
                assert(before[i as int] == all.skip(k)[0]);
                assert(all.take(k + 1) =~= all.take(k).push(all[k]));
                all.take(k).lemma_filter_push(all[k], yes);
                all.take(k).lemma_filter_push(all[k], no);
            }
            if self.is_selected(i, wanted, me) {
                let e = self.entries.remove(i);
                let ghost grown = taken.deep_view().push(e@);
                taken.push(e);
                assert(taken.deep_view() =~= grown);
                assert(self@ =~= before.remove(i as int));
            } else {
                i += 1;
            }
            proof {
                assert(self@ =~= all.take(k + 1).filter(no) + all.skip(k + 1));
                k = k + 1;
            }
        }
        proof {
            assert(k == all.len());
            assert(all.take(k) =~= all);
            assert(self@ =~= all.filter(no));
            lemma_filter_distinct(all, no);
        }
        taken
    }

    /// The records in force, in order.
    pub fn keys(&self) -> (v: Vec<Record>)
        ensures
            v.deep_view() == records_of(self@),
    {
        let mut v: Vec<Record> = Vec::new();
        let mut i: usize = 0;
        while i < self.entries.len()
            invariant
                i <= self.entries.len(),
                v.len() == i,
                forall|j: int| 0 <= j < i ==> v@[j]@ == #[trigger] self@[j].record,
            decreases self.entries.len() - i,
        {
            v.push(self.entries[i].record.clone());
            i += 1;
        }
        assert(v.deep_view() =~= records_of(self@));
        v
    }
}

/// An entry is seen as what its fields are.
pub proof fn law_entry_fields(e: Entry)
    ensures
        e@.record == e.record@,
        e@.watches.from == e.watches.from,
        e@.watches.to == e.watches.to,
        e.deep_view() == e@,
{
}

/// What is in force is every entry that is held, in order.
proof fn law_records_held(r: Records)
    ensures
        r@.len() == r.entries@.len(),
        forall|i: int| 0 <= i < r@.len() ==> #[trigger] r@[i] == r.entries@[i]@,
{
}

/// The entry is of user `me`, and its source is the wanted one or its target is.
pub open spec fn named(e: EntryView, wanted: FromTo<Option<Seq<char>>>, me: UID) -> bool {
    &&& e.record.user == me
    &&& {
        ||| wanted.from matches Some(p) && path_key(p) == path_key(e.record.src_dst.from)
        ||| wanted.to matches Some(p) && path_key(p) == path_key(e.record.src_dst.to)
    }
}

/// The entries that are selected are those that are named, and no others, in order.
pub proof fn law_selects_named(
    s: Seq<EntryView>,
    wanted: FromTo<Option<Seq<char>>>,
    me: UID,
)
    ensures
        s.filter(selected(wanted, me)) == s.filter(|e: EntryView| named(e, wanted, me)),
        s.filter(unselected(wanted, me)) == s.filter(|e: EntryView| !named(e, wanted, me)),
{
    let yes = |e: EntryView| named(e, wanted, me);
    let no = |e: EntryView| !named(e, wanted, me);
    assert forall|e: EntryView| #[trigger] selected(wanted, me)(e) == yes(e) by {
        law_selected(e, wanted, me);
    }
    assert forall|e: EntryView| #[trigger] unselected(wanted, me)(e) == no(e) by {
        law_selected(e, wanted, me);
    }
    assert(selected(wanted, me) =~= yes);
    assert(unselected(wanted, me) =~= no);
}

/// No records are in force at first.
pub proof fn law_no_records(r: Records)
    requires
        call_ensures(Records::new, (), r),
    ensures
        r@.len() == 0,
{
}

/// The records that are told are those in force, as many, in order and as they are
/// written.
pub proof fn law_keys(r: Records, v: Vec<Record>)
    requires
        call_ensures(Records::keys, (&r,), v),
    ensures
        v@.len() == r@.len(),
        forall|i: int| 0 <= i < v@.len() ==> (#[trigger] v@[i])@ == r@[i].record,
{
    assert(v.deep_view().len() == v@.len());
    assert forall|i: int| 0 <= i < v@.len() implies (#[trigger] v@[i])@ == r@[i].record by {
        assert(v.deep_view()[i] == v@[i]@);
    }
}

/// Inserting a record gives the entry of the same record, if there is one, the new
/// watches, and comes last otherwise. Every other entry stays as it is, in its place.
pub proof fn law_insert(records: &mut Records, record: Record, watches: FromTo<i32>)
    requires
        old(records).wf(),
        call_ensures(Records::insert, (records, record, watches), ()),
    ensures
        forall|i: int|
            0 <= i < old(records)@.len() && !same_record(old(records)@[i].record, record@)
                ==> #[trigger] final(records)@[i] == old(records)@[i],
        forall|i: int|
            0 <= i < old(records)@.len() && same_record(old(records)@[i].record, record@) ==> (
            #[trigger] final(records)@[i]).record == old(records)@[i].record
                && final(records)@[i].watches == watches,
        forall|i: int|
            0 <= i < old(records)@.len() && same_record(
                (#[trigger] old(records)@[i]).record,
                record@,
            ) ==> final(records)@.len() == old(records)@.len(),
        (forall|i: int|
            0 <= i < old(records)@.len() ==> !same_record(
                (#[trigger] old(records)@[i]).record,
                record@,
            )) ==> final(records)@ == old(records)@.push(
            EntryView { record: record@, watches },
        ),
{
    law_put_entries(old(records)@, record@, watches);
}

/// What is taken for the watch `wd` is the first entry that has `wd` itself on its
/// source or on its target, and nothing just if no entry has. All others stay as they
/// are, in order.
pub proof fn law_take_watched(records: &mut Records, wd: i32, r: Option<Entry>)
    requires
        call_ensures(Records::take_watched, (records, wd), r),
    ensures
        r is None <==> forall|j: int|
            0 <= j < old(records)@.len() ==> (#[trigger] old(records)@[j]).watches.from != wd
                && old(records)@[j].watches.to != wd,
        r is None ==> final(records)@ == old(records)@,
        r matches Some(e) ==> exists|i: int|
            {
                &&& 0 <= i < old(records)@.len()
                &&& e@ == #[trigger] old(records)@[i]
                &&& e.watches.from == wd || e.watches.to == wd
                &&& final(records)@ == old(records)@.remove(i)
                &&& forall|j: int|
                    0 <= j < i ==> (#[trigger] old(records)@[j]).watches.from != wd
                        && old(records)@[j].watches.to != wd
            },
{
    let i = first_where(old(records)@, watched(wd));
    law_first_watched(old(records)@, wd);
    if r is Some {
        assert(r->0@ == old(records)@[i]);
    }
}

/// What is taken for a deletion are the entries that it names, in order, and what is
/// left are the others, in order.
pub proof fn law_take_selected(
    records: &mut Records,
    wanted: FromTo<Option<FilePath>>,
    me: UID,
    taken: Vec<Entry>,
)
    requires
        call_ensures(Records::take_selected, (records, &wanted, me), taken),
    ensures
        ({
            let w = FromTo {
                from: match wanted.from {
                    Some(p) => Some(p.text@),
                    None => None,
                },
                to: match wanted.to {
                    Some(p) => Some(p.text@),
                    None => None,
                },
            };
            &&& taken.deep_view() == old(records)@.filter(|e: EntryView| named(e, w, me))
            &&& final(records)@ == old(records)@.filter(|e: EntryView| !named(e, w, me))
        }),
{
    law_selects_named(old(records)@, wanted.deep_view(), me);
    assert(wanted.deep_view() == FromTo {
        from: match wanted.from {
            Some(p) => Some(p.text@),
            None => None,
        },
        to: match wanted.to {
            Some(p) => Some(p.text@),
            None => None,
        },
    });
}

} // verus!
