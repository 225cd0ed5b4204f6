//! What holds of the records whatever becomes of each step outside.
use crate::cdl_msg::{add_answered, del_answered};
use crate::records::{
    distinct_keys, first_where, keyed, law_first_watched, law_put_entries, law_selects_named,
    lemma_drop_last_distinct, lemma_filter_distinct, lemma_first_where, lemma_first_where_found,
    lemma_put_distinct, lemma_remove_distinct, named, put, records_of, selected, unselected,
    watched, EntryView,
};
use crate::path::path_key;
use crate::syncing::{copy_result, law_copy_result};
use crate::types::{
    law_record_key, same_record, ActionView, FromTo, LoopCtrl, RecordKey, RecordView, ResultsView,
    SuccOrFailView, UID,
};
use crate::watching::{
    action_begun, add_done, add_failed, copied, del_next, del_verdict, event_begun,
    event_unwatched, event_watched, next_event_begun, request_begun, round_begun, round_result,
    source_unwatched, source_watched, target_unwatched, target_watched, Ending, EventView,
    EventsRead, RoundView, StepView,
};
use vstd::prelude::*;

verus! {

/// The watches of each record in force.
pub open spec fn in_force(s: Seq<EntryView>) -> Map<RecordKey, FromTo<i32>> {
    Map::new(
        |k: RecordKey| first_where(s, keyed(k)) < s.len(),
        |k: RecordKey| s[first_where(s, keyed(k))].watches,
    )
}

/// An entry's record is in force with the entry's watches, and nothing else is.
pub proof fn law_in_force(s: Seq<EntryView>)
    requires
        distinct_keys(s),
    ensures
        forall|i: int|
            0 <= i < s.len() ==> in_force(s).contains_key(#[trigger] s[i].record.key()) && in_force(
                s,
            )[s[i].record.key()] == s[i].watches,
        forall|k: RecordKey| #[trigger]
            in_force(s).contains_key(k) ==> exists|i: int|
                0 <= i < s.len() && (#[trigger] s[i]).record.key() == k,
{
    assert forall|i: int| 0 <= i < s.len() implies in_force(s).contains_key(
        #[trigger] s[i].record.key(),
    ) && in_force(s)[s[i].record.key()] == s[i].watches by {
        let k = s[i].record.key();
        assert forall|j: int| 0 <= j < i implies !keyed(k)(#[trigger] s[j]) by {
            assert(s[j].record.key() != s[i].record.key());
        }
        lemma_first_where(s, keyed(k), i);
    }
    assert forall|k: RecordKey| #[trigger] in_force(s).contains_key(k) implies exists|i: int|
        0 <= i < s.len() && (#[trigger] s[i]).record.key() == k by {
        lemma_first_where_found(s, keyed(k));
        assert(keyed(k)(s[first_where(s, keyed(k))]));
    }
}

/// Putting a record gives it its watches and touches no other.
pub proof fn law_put(s: Seq<EntryView>, r: RecordView, w: FromTo<i32>)
    ensures
        in_force(put(s, r, w)) == in_force(s).insert(r.key(), w),
{
    let t = put(s, r, w);
    let p = keyed(r.key());
    let i = first_where(s, p);
    lemma_first_where_found(s, p);
    assert forall|k: RecordKey| in_force(t).contains_key(k) == #[trigger] in_force(s).insert(
        r.key(),
        w,
    ).contains_key(k) && (in_force(t).contains_key(k) ==> in_force(t)[k] == in_force(s).insert(
        r.key(),
        w,
    )[k]) by {
        let j = first_where(s, keyed(k));
        lemma_first_where_found(s, keyed(k));
        if k == r.key() {
            lemma_first_where(t, p, i);
        } else if j < s.len() {
            assert(keyed(k)(s[j]));
            assert forall|m: int| 0 <= m < j implies !keyed(k)(#[trigger] t[m]) by {
                assert(!keyed(k)(s[m]));
            }
            lemma_first_where(t, keyed(k), j);
        } else {
            assert forall|m: int| 0 <= m < t.len() implies !keyed(k)(#[trigger] t[m]) by {
                if m < s.len() {
                    assert(!keyed(k)(s[m]));
                }
            }
            lemma_first_where(t, keyed(k), t.len() as int);
        }
    }
    assert(in_force(t) =~= in_force(s).insert(r.key(), w));
}

/// Taking an entry out takes its record out of force and touches no other.
pub proof fn law_remove(s: Seq<EntryView>, i: int)
    requires
        distinct_keys(s),
        0 <= i < s.len(),
    ensures
        in_force(s.remove(i)) == in_force(s).remove(s[i].record.key()),
{
    let t = s.remove(i);
    let gone = s[i].record.key();
    assert forall|k: RecordKey| in_force(t).contains_key(k) == #[trigger] in_force(s).remove(
        gone,
    ).contains_key(k) && (in_force(t).contains_key(k) ==> in_force(t)[k] == in_force(s)[k]) by {
        let j = first_where(s, keyed(k));
        lemma_first_where_found(s, keyed(k));
        if k == gone {
            assert forall|m: int| 0 <= m < t.len() implies !keyed(k)(#[trigger] t[m]) by {
                let n = if m < i {
                    m
                } else {
                    m + 1
                };
                assert(t[m] == s[n]);
                if n < i {
                    assert(s[n].record.key() != s[i].record.key());
                } else {
                    assert(s[i].record.key() != s[n].record.key());
                }
            }
            lemma_first_where(t, keyed(k), t.len() as int);
        } else {
            assert(j < s.len() ==> keyed(k)(s[j]));
            let q = if j <= i {
                j
            } else {
                j - 1
            };
            assert forall|m: int| 0 <= m < q implies !keyed(k)(#[trigger] t[m]) by {
                let n = if m < i {
                    m
                } else {
                    m + 1
                };
                assert(t[m] == s[n]);
                assert(!keyed(k)(s[n]));
            }
            assert(j != i);
            assert(q < t.len() ==> t[q] == s[j]);
            lemma_first_where(t, keyed(k), q);
        }
    }
    assert(in_force(t) =~= in_force(s).remove(gone));
}

// Additions

/// What became of the steps of an addition, as far as it came to them.
pub struct AddOutcome {
    pub status: Result<bool, Seq<char>>,
    pub source: Result<i32, Seq<char>>,
    pub target: Result<i32, Seq<char>>,
}

impl AddOutcome {
    /// The copy and both watches succeeded.
    pub open spec fn succeeded(self) -> bool {
        self.status == Ok::<bool, Seq<char>>(true) && self.source is Ok && self.target is Ok
    }
}

/// An addition of `r` to `s`, from its beginning to its end: `status` becomes of the
/// copy, and `source` and `target` of the watches, as far as it comes to them.
pub open spec fn add_run(
    s: Seq<EntryView>,
    r: RecordView,
    status: Result<bool, Seq<char>>,
    source: Result<i32, Seq<char>>,
    target: Result<i32, Seq<char>>,
) -> (Seq<EntryView>, StepView) {
    match action_begun(s, ActionView::Add(r)) {
        (s1, StepView::Copy(r1)) => add_rest(s1, r1, status, source, target),
        begun => begun,
    }
}

/// What is left of an addition of `r` that begins with the copy.
pub open spec fn add_rest(
    s: Seq<EntryView>,
    r: RecordView,
    status: Result<bool, Seq<char>>,
    source: Result<i32, Seq<char>>,
    target: Result<i32, Seq<char>>,
) -> (Seq<EntryView>, StepView) {
    match copied(r, status) {
        StepView::WatchSource(r1) => match source_watched(r1, source) {
            StepView::WatchTarget(r2, from) => target_watched(s, r2, from, target),
            step => (s, step),
        },
        step => (s, step),
    }
}

/// An addition puts its record in force with the two new watches if everything
/// succeeds. Otherwise it changes nothing, and the answer is the first failure.
pub proof fn law_add(
    s: Seq<EntryView>,
    r: RecordView,
    status: Result<bool, Seq<char>>,
    source: Result<i32, Seq<char>>,
    target: Result<i32, Seq<char>>,
)
    ensures
        ({
            let (t, step) = add_run(s, r, status, source, target);
            match (copy_result(r, status), source, target) {
                (Ok(()), Ok(from), Ok(to)) => {
                    &&& t == put(s, r, FromTo { from, to })
                    &&& in_force(t) == in_force(s).insert(r.key(), FromTo { from, to })
                    &&& step == add_done()
                },
                (Err(e), _, _) => t == s && step == add_failed(e),
                (_, Err(e), _) => t == s && step == add_failed(e),
                (_, _, Err(e)) => t == s && step == add_failed(e),
            }
        }),
{
    if let (Ok(from), Ok(to)) = (source, target) {
        law_put(s, r, FromTo { from, to });
    }
}

/// An addition whose copy or one of whose watches fails changes nothing, and is
/// answered with the first failure.
pub proof fn law_add_refused(
    s: Seq<EntryView>,
    r: RecordView,
    status: Result<bool, Seq<char>>,
    source: Result<i32, Seq<char>>,
    target: Result<i32, Seq<char>>,
)
    requires
        status != Ok::<bool, Seq<char>>(true) || source is Err || target is Err,
    ensures
        ({
            let (t, step) = add_run(s, r, status, source, target);
            &&& t == s
            &&& step matches StepView::Finished { results: ResultsView::Add(Err(e)), ending } && {
                &&& ending == Ending::Answer
                &&& status matches Err(x) ==> e == x
                &&& status == Ok::<bool, Seq<char>>(false) ==> Err::<(), Seq<char>>(e)
                    == copy_result(r, status)
                &&& status == Ok::<bool, Seq<char>>(true) ==> e == if source is Err {
                    source->Err_0
                } else {
                    target->Err_0
                }
            }
        }),
{
    law_copy_result(r, status);
}

/// Adding a record that differs from each in force, in its source, its target, its user
/// or its group, leaves all of them in force with their watches, and adds one.
pub proof fn law_add_another(s: Seq<EntryView>, r: RecordView, source: i32, target: i32)
    requires
        distinct_keys(s),
        forall|i: int|
            0 <= i < s.len() ==> {
                ||| path_key((#[trigger] s[i]).record.src_dst.from) != path_key(r.src_dst.from)
                ||| path_key(s[i].record.src_dst.to) != path_key(r.src_dst.to)
                ||| s[i].record.user != r.user
                ||| s[i].record.group != r.group
            },
    ensures
        add_run(s, r, Ok(true), Ok(source), Ok(target)).0 == s.push(
            EntryView { record: r, watches: FromTo { from: source, to: target } },
        ),
{
    let w = FromTo { from: source, to: target };
    law_add(s, r, Ok(true), Ok(source), Ok(target));
    assert forall|i: int| 0 <= i < s.len() implies !keyed(r.key())(#[trigger] s[i]) by {
        law_record_key(s[i].record, r);
    }
    lemma_first_where(s, keyed(r.key()), s.len() as int);
}

/// Adding a record again gives its entry the two new watches, in its place and as it was
/// written, and touches no other.
pub proof fn law_add_again(s: Seq<EntryView>, r: RecordView, i: int, source: i32, target: i32)
    requires
        distinct_keys(s),
        0 <= i < s.len(),
        same_record(s[i].record, r),
    ensures
        add_run(s, r, Ok(true), Ok(source), Ok(target)).0 == s.update(
            i,
            EntryView { record: s[i].record, watches: FromTo { from: source, to: target } },
        ),
{
    law_add(s, r, Ok(true), Ok(source), Ok(target));
    law_record_key(s[i].record, r);
    assert forall|j: int| 0 <= j < i implies !keyed(r.key())(#[trigger] s[j]) by {
        assert(s[j].record.key() != s[i].record.key());
    }
    lemma_first_where(s, keyed(r.key()), i);
}

/// A file is watched for a new record only once it is in step: no request begins
/// with a watch, the first watch follows a copy that succeeded, and the second
/// follows the first.
pub proof fn law_watch_after_copy(
    s: Seq<EntryView>,
    a: ActionView,
    r: RecordView,
    status: Result<bool, Seq<char>>,
    source: Result<i32, Seq<char>>,
)
    ensures
        action_begun(s, a).1 !is WatchSource && action_begun(s, a).1 !is WatchTarget,
        a == ActionView::Add(r) ==> action_begun(s, a).1 == StepView::Copy(r),
        copied(r, status) is WatchSource <==> status == Ok::<bool, Seq<char>>(true),
        copied(r, status) !is WatchTarget,
        source_watched(r, source) is WatchTarget <==> source is Ok,
{
}

// Deletions

/// What became of stopping the two watches of an entry.
pub type Stops = FromTo<Result<(), Seq<char>>>;

/// A deletion from the step `step` to its end: `outs` becomes of the entries to go,
/// in order.
pub open spec fn del_run(s: Seq<EntryView>, step: StepView, outs: Seq<Stops>) -> (
    Seq<EntryView>,
    StepView,
)
    decreases outs.len(),
{
    match step {
        StepView::UnwatchSource { entry, rest, done } => if outs.len() > 0 {
            match source_unwatched(entry, rest, done, outs[0].from) {
                StepView::UnwatchTarget { entry, rest, done, source } => {
                    let (t, next) = target_unwatched(s, entry, rest, done, source, outs[0].to);
                    del_run(t, next, outs.drop_first())
                },
                other => (s, other),
            }
        } else {
            (s, step)
        },
        _ => (s, step),
    }
}

/// Both watches were stopped.
pub open spec fn stopped(o: Stops) -> bool {
    o.from is Ok && o.to is Ok
}

/// The entries of `es` whose watches were not both stopped.
pub open spec fn unstopped(es: Seq<EntryView>, outs: Seq<Stops>) -> Seq<EntryView>
    decreases es.len(),
{
    if es.len() == 0 {
        es
    } else {
        let tail = unstopped(es.drop_first(), outs.drop_first());
        if stopped(outs[0]) {
            tail
        } else {
            seq![es[0]] + tail
        }
    }
}

/// The answers about the entries `es`.
pub open spec fn verdicts(es: Seq<EntryView>, outs: Seq<Stops>) -> Seq<SuccOrFailView> {
    Seq::new(es.len(), |i: int| del_verdict(es[i], outs[i].from, outs[i].to))
}

proof fn lemma_del_run(
    s: Seq<EntryView>,
    rest: Seq<EntryView>,
    done: Seq<SuccOrFailView>,
    outs: Seq<Stops>,
)
    requires
        distinct_keys(s + rest),
        outs.len() == rest.len(),
    ensures
        del_run(s, del_next(rest, done), outs) == (
            s + unstopped(rest, outs),
            StepView::Finished {
                results: ResultsView::Del(Ok(done + verdicts(rest, outs))),
                ending: Ending::Answer,
            },
        ),
    decreases rest.len(),
{
    if rest.len() == 0 {
        assert(s + unstopped(rest, outs) =~= s);
        assert(done + verdicts(rest, outs) =~= done);
    } else {
        let e = rest[0];
        let tail = rest.drop_first();
        let outs1 = outs.drop_first();
        let done1 = done.push(del_verdict(e, outs[0].from, outs[0].to));
        let t = target_unwatched(s, e, tail, done, outs[0].from, outs[0].to).0;
        assert(done1 + verdicts(tail, outs1) =~= done + verdicts(rest, outs));
        if stopped(outs[0]) {
            assert((s + rest).remove(s.len() as int) =~= s + tail);
            lemma_remove_distinct(s + rest, s.len() as int);
            lemma_del_run(s, tail, done1, outs1);
        } else {
            let n = s.len() as int;
            assert forall|j: int| 0 <= j < n implies !keyed(e.record.key())(#[trigger] s[j]) by {
                let all = s + rest;
                assert(all[j].record.key() != all[n].record.key());
            }
            lemma_first_where(s, keyed(e.record.key()), n);
            assert(t =~= s.push(e));
            assert(t + tail =~= s + rest);
            lemma_del_run(t, tail, done1, outs1);
            assert(t + unstopped(tail, outs1) =~= s + unstopped(rest, outs));
        }
    }
}

proof fn lemma_parts_distinct(s: Seq<EntryView>, wanted: FromTo<Option<Seq<char>>>, me: UID)
    requires
        distinct_keys(s),
    ensures
        distinct_keys(s.filter(unselected(wanted, me)) + s.filter(selected(wanted, me))),
{
    let yes = selected(wanted, me);
    let no = unselected(wanted, me);
    let a = s.filter(no);
    let b = s.filter(yes);
    let all = a + b;
    lemma_filter_distinct(s, no);
    lemma_filter_distinct(s, yes);
    assert forall|i: int, j: int| 0 <= i < j < all.len() implies #[trigger] all[i].record.key()
        != #[trigger] all[j].record.key() by {
        if j < a.len() {
            assert(a[i].record.key() != a[j].record.key());
        } else if i >= a.len() {
            assert(b[i - a.len()].record.key() != b[j - a.len()].record.key());
        } else {
            let x = a[i];
            let y = b[j - a.len()];
            s.lemma_filter_pred(no, i);
            s.lemma_filter_pred(yes, j - a.len());
            assert(a.contains(x));
            assert(b.contains(y));
            s.lemma_filter_contains_rev(no, x);
            s.lemma_filter_contains_rev(yes, y);
            let m = choose|m: int| 0 <= m < s.len() && s[m] == x;
            let n = choose|n: int| 0 <= n < s.len() && s[n] == y;
            assert(m != n);
            if m < n {
                assert(s[m].record.key() != s[n].record.key());
            } else {
                assert(s[n].record.key() != s[m].record.key());
            }
        }
    }
}

/// A deletion leaves in force what it does not select, in order, and after it what
/// it could not stop. The answer says of each selected entry what became of it.
pub proof fn law_del(
    s: Seq<EntryView>,
    wanted: FromTo<Option<Seq<char>>>,
    me: UID,
    outs: Seq<Stops>,
)
    requires
        distinct_keys(s),
        outs.len() == s.filter(selected(wanted, me)).len(),
    ensures
        ({
            let (s1, step) = action_begun(s, ActionView::Del(wanted, me));
            let es = s.filter(selected(wanted, me));
            del_run(s1, step, outs) == (
                s.filter(unselected(wanted, me)) + unstopped(es, outs),
                StepView::Finished {
                    results: ResultsView::Del(Ok(verdicts(es, outs))),
                    ending: Ending::Answer,
                },
            )
        }),
{
    lemma_parts_distinct(s, wanted, me);
    let es = s.filter(selected(wanted, me));
    lemma_del_run(s.filter(unselected(wanted, me)), es, Seq::empty(), outs);
    assert(Seq::<SuccOrFailView>::empty() + verdicts(es, outs) =~= verdicts(es, outs));
}

/// If every watch is stopped, what a deletion selects is out of force.
pub proof fn law_del_all_stopped(es: Seq<EntryView>, outs: Seq<Stops>)
    requires
        outs.len() == es.len(),
        forall|i: int| 0 <= i < outs.len() ==> stopped(#[trigger] outs[i]),
    ensures
        unstopped(es, outs) == Seq::<EntryView>::empty(),
        verdicts(es, outs) == es.map_values(
            |e: EntryView| SuccOrFailView::Succ(e.record.src_dst),
        ),
    decreases es.len(),
{
    assert(verdicts(es, outs) =~= es.map_values(
        |e: EntryView| SuccOrFailView::Succ(e.record.src_dst),
    )) by {
        assert forall|i: int| 0 <= i < es.len() implies #[trigger] verdicts(es, outs)[i]
            == SuccOrFailView::Succ(es[i].record.src_dst) by {
            assert(stopped(outs[i]));
        }
    }
    if es.len() > 0 {
        let outs1 = outs.drop_first();
        assert forall|i: int| 0 <= i < outs1.len() implies stopped(#[trigger] outs1[i]) by {
            assert(outs1[i] == outs[i + 1]);
        }
        law_del_all_stopped(es.drop_first(), outs1);
        assert(stopped(outs[0]));
    } else {
        assert(unstopped(es, outs) =~= Seq::<EntryView>::empty());
    }
}

/// A deletion whose watches are all stopped takes the entries that it names out of
/// force, leaves all others as they are, in order, and answers of each that it named
/// that it succeeded, in order.
pub proof fn law_del_named(
    s: Seq<EntryView>,
    wanted: FromTo<Option<Seq<char>>>,
    me: UID,
    outs: Seq<Stops>,
)
    requires
        distinct_keys(s),
        outs.len() == s.filter(|e: EntryView| named(e, wanted, me)).len(),
        forall|i: int| 0 <= i < outs.len() ==> stopped(#[trigger] outs[i]),
    ensures
        ({
            let (s1, step) = action_begun(s, ActionView::Del(wanted, me));
            let (t, last) = del_run(s1, step, outs);
            let gone = s.filter(|e: EntryView| named(e, wanted, me));
            &&& t == s.filter(|e: EntryView| !named(e, wanted, me))
            &&& last matches StepView::Finished {
                results: ResultsView::Del(Ok(v)),
                ending: Ending::Answer,
            } && v.len() == gone.len() && forall|i: int|
                0 <= i < v.len() ==> #[trigger] v[i] == SuccOrFailView::Succ(gone[i].record.src_dst)
        }),
{
    law_selects_named(s, wanted, me);
    law_del(s, wanted, me, outs);
    let gone = s.filter(|e: EntryView| named(e, wanted, me));
    law_del_all_stopped(gone, outs);
    let kept = s.filter(|e: EntryView| !named(e, wanted, me));
    assert(kept + Seq::<EntryView>::empty() =~= kept);
}

/// What a deletion could not stop of the entries that it names comes back, behind all
/// others, which stay as they are. It is answered of each in order.
pub proof fn law_del_named_stuck(
    s: Seq<EntryView>,
    wanted: FromTo<Option<Seq<char>>>,
    me: UID,
    outs: Seq<Stops>,
)
    requires
        distinct_keys(s),
        outs.len() == s.filter(|e: EntryView| named(e, wanted, me)).len(),
    ensures
        ({
            let (s1, step) = action_begun(s, ActionView::Del(wanted, me));
            let (t, last) = del_run(s1, step, outs);
            let es = s.filter(|e: EntryView| named(e, wanted, me));
            &&& t == s.filter(|e: EntryView| !named(e, wanted, me)) + unstopped(es, outs)
            &&& last matches StepView::Finished {
                results: ResultsView::Del(Ok(v)),
                ending: Ending::Answer,
            } && v.len() == es.len() && forall|i: int|
                0 <= i < v.len() ==> {
                    &&& #[trigger] v[i] is Succ <==> stopped(outs[i])
                    &&& v[i] matches SuccOrFailView::Succ(p) ==> p == es[i].record.src_dst
                    &&& v[i] matches SuccOrFailView::Fail { filenames, .. } ==> filenames
                        == es[i].record.src_dst
                }
        }),
{
    law_selects_named(s, wanted, me);
    law_del(s, wanted, me, outs);
}

/// Deleting the pair that was just added, by its source and its target, puts it out of
/// force, if its watches are stopped, and answers of it that it succeeded. So it does by
/// one of the two.
pub proof fn law_del_added(
    s: Seq<EntryView>,
    r: RecordView,
    source: i32,
    target: i32,
    wanted: FromTo<Option<Seq<char>>>,
    outs: Seq<Stops>,
)
    requires
        distinct_keys(s),
        wanted.from == Some(r.src_dst.from) || wanted.to == Some(r.src_dst.to),
        outs.len() == add_run(s, r, Ok(true), Ok(source), Ok(target)).0.filter(
            |e: EntryView| named(e, wanted, r.user),
        ).len(),
        forall|i: int| 0 <= i < outs.len() ==> stopped(#[trigger] outs[i]),
    ensures
        ({
            let t = add_run(s, r, Ok(true), Ok(source), Ok(target)).0;
            let (t1, step) = action_begun(t, ActionView::Del(wanted, r.user));
            let (u, last) = del_run(t1, step, outs);
            &&& forall|j: int| 0 <= j < u.len() ==> !same_record((#[trigger] u[j]).record, r)
            &&& last matches StepView::Finished { results: ResultsView::Del(Ok(v)), .. }
                && exists|k: int|
                0 <= k < v.len() && {
                    &&& #[trigger] v[k] matches SuccOrFailView::Succ(p)
                    &&& path_key(p.from) == path_key(r.src_dst.from)
                    &&& path_key(p.to) == path_key(r.src_dst.to)
                }
        }),
{
    let t = add_run(s, r, Ok(true), Ok(source), Ok(target)).0;
    let w = FromTo { from: source, to: target };
    law_add(s, r, Ok(true), Ok(source), Ok(target));
    law_put_entries(s, r, w);
    lemma_put_distinct(s, r, w);
    law_del_named(t, wanted, r.user, outs);
    let yes = |e: EntryView| named(e, wanted, r.user);
    let no = |e: EntryView| !named(e, wanted, r.user);
    let (t1, step) = action_begun(t, ActionView::Del(wanted, r.user));
    let u = del_run(t1, step, outs).0;
    assert forall|j: int| 0 <= j < u.len() implies !same_record((#[trigger] u[j]).record, r) by {
        t.lemma_filter_pred(no, j);
    }
    let i = if exists|i: int| 0 <= i < s.len() && same_record((#[trigger] s[i]).record, r) {
        choose|i: int| 0 <= i < s.len() && same_record((#[trigger] s[i]).record, r)
    } else {
        s.len() as int
    };
    assert(same_record(t[i].record, r));
    assert(yes(t[i]));
    t.lemma_filter_contains(yes, i);
    let k = choose|k: int| 0 <= k < t.filter(yes).len() && t.filter(yes)[k] == t[i];
    let v = del_run(t1, step, outs).1->results->Del_0->Ok_0;
    assert(v[k] == SuccOrFailView::Succ(t[i].record.src_dst));
}

/// A deletion asks for nothing but that watches be stopped: no file is copied, and
/// none is watched.
pub proof fn law_del_only_unwatches(
    s: Seq<EntryView>,
    wanted: FromTo<Option<Seq<char>>>,
    me: UID,
    e: EntryView,
    rest: Seq<EntryView>,
    done: Seq<SuccOrFailView>,
    out: Stops,
)
    ensures
        ({
            let begun = action_begun(s, ActionView::Del(wanted, me)).1;
            begun is UnwatchSource || begun is Finished
        }),
        ({
            let next = target_unwatched(s, e, rest, done, out.from, out.to).1;
            next is UnwatchSource || next is Finished
        }),
{
}

/// Entries of other users than `me`.
pub open spec fn of_others(me: UID) -> spec_fn(EntryView) -> bool {
    |e: EntryView| e.record.user != me
}

proof fn lemma_unstopped_from(es: Seq<EntryView>, outs: Seq<Stops>)
    requires
        outs.len() == es.len(),
    ensures
        forall|i: int|
            0 <= i < unstopped(es, outs).len() ==> es.contains(#[trigger] unstopped(es, outs)[i]),
    decreases es.len(),
{
    if es.len() > 0 {
        let tail = es.drop_first();
        let u = unstopped(tail, outs.drop_first());
        lemma_unstopped_from(tail, outs.drop_first());
        assert forall|i: int| 0 <= i < unstopped(es, outs).len() implies es.contains(
            #[trigger] unstopped(es, outs)[i],
        ) by {
            let x = unstopped(es, outs)[i];
            if !stopped(outs[0]) && i == 0 {
                assert(es[0] == x);
            } else {
                let k = if stopped(outs[0]) {
                    i
                } else {
                    i - 1
                };
                assert(u[k] == x);
                let m = choose|m: int| 0 <= m < tail.len() && tail[m] == x;
                assert(es[m + 1] == x);
            }
        }
    }
}

proof fn lemma_filter_twice(
    s: Seq<EntryView>,
    weak: spec_fn(EntryView) -> bool,
    strong: spec_fn(EntryView) -> bool,
)
    requires
        forall|e: EntryView| #[trigger] strong(e) ==> weak(e),
    ensures
        s.filter(weak).filter(strong) == s.filter(strong),
    decreases s.len(),
{
    reveal(Seq::filter);
    if s.len() > 0 {
        let t = s.drop_last();
        lemma_filter_twice(t, weak, strong);
        if weak(s.last()) {
            t.filter(weak).lemma_filter_push(s.last(), strong);
        }
    }
}

/// A deletion by one user leaves the entries of all others as they are.
pub proof fn law_del_spares_others(
    s: Seq<EntryView>,
    wanted: FromTo<Option<Seq<char>>>,
    me: UID,
    outs: Seq<Stops>,
)
    requires
        distinct_keys(s),
        outs.len() == s.filter(selected(wanted, me)).len(),
    ensures
        ({
            let (s1, step) = action_begun(s, ActionView::Del(wanted, me));
            del_run(s1, step, outs).0.filter(of_others(me)) == s.filter(of_others(me))
        }),
{
    law_del(s, wanted, me, outs);
    let others = of_others(me);
    let yes = selected(wanted, me);
    let no = unselected(wanted, me);
    let es = s.filter(yes);
    let u = unstopped(es, outs);
    Seq::filter_distributes_over_add(s.filter(no), u, others);
    lemma_filter_twice(s, no, others);
    lemma_unstopped_from(es, outs);
    assert forall|i: int| 0 <= i < u.len() implies !others(#[trigger] u[i]) by {
        assert(es.contains(u[i]));
        let m = choose|m: int| 0 <= m < es.len() && es[m] == u[i];
        s.lemma_filter_pred(yes, m);
    }
    u.lemma_all_neg_filter_empty(others);
    assert(s.filter(others) + u.filter(others) =~= s.filter(others));
}

/// Stopping to sync what was added undoes the addition: `s` is again what is in
/// force if neither the record nor another of the user's with its source was there.
pub proof fn law_del_undoes_add(s: Seq<EntryView>, r: RecordView, w: FromTo<i32>, out: Stops)
    requires
        distinct_keys(s),
        first_where(s, keyed(r.key())) == s.len(),
        stopped(out),
        forall|i: int|
            0 <= i < s.len() ==> !selected(
                FromTo { from: Some(r.src_dst.from), to: None::<Seq<char>> },
                r.user,
            )(#[trigger] s[i]),
    ensures
        ({
            let wanted = FromTo { from: Some(r.src_dst.from), to: None::<Seq<char>> };
            let (s1, step) = action_begun(put(s, r, w), ActionView::Del(wanted, r.user));
            del_run(s1, step, seq![out]) == (
                s,
                StepView::Finished {
                    results: ResultsView::Del(Ok(seq![SuccOrFailView::Succ(r.src_dst)])),
                    ending: Ending::Answer,
                },
            )
        }),
{
    let wanted = FromTo { from: Some(r.src_dst.from), to: None::<Seq<char>> };
    let yes = selected(wanted, r.user);
    let no = unselected(wanted, r.user);
    let e = EntryView { record: r, watches: w };
    let t = put(s, r, w);
    assert(t == s.push(e));
    s.lemma_filter_push(e, yes);
    s.lemma_filter_push(e, no);
    s.lemma_all_neg_filter_empty(yes);
    assert(s.filter(yes) =~= Seq::<EntryView>::empty());
    lemma_filter_all(s, no);
    assert(t.filter(yes) =~= seq![e]);
    lemma_put_distinct(s, r, w);
    law_del(t, wanted, r.user, seq![out]);
    law_del_all_stopped(seq![e], seq![out]);
    assert(s + Seq::<EntryView>::empty() =~= s);
    assert(verdicts(seq![e], seq![out]) =~= seq![SuccOrFailView::Succ(r.src_dst)]);
}

proof fn lemma_filter_all(s: Seq<EntryView>, p: spec_fn(EntryView) -> bool)
    requires
        forall|i: int| 0 <= i < s.len() ==> p(#[trigger] s[i]),
    ensures
        s.filter(p) == s,
    decreases s.len(),
{
    reveal(Seq::filter);
    if s.len() > 0 {
        let t = s.drop_last();
        assert forall|i: int| 0 <= i < t.len() implies p(#[trigger] t[i]) by {
            assert(t[i] == s[i]);
        }
        lemma_filter_all(t, p);
        assert(p(s[s.len() - 1]));
        assert(t.push(s.last()) =~= s);
    } else {
        assert(s.filter(p) =~= s);
    }
}

// Events

/// An event of the watch `wd`, from its beginning to its end, and the record that it
/// has synced, if any: `unwatch` and `watch` become of the watches on the target, as
/// far as it comes to them.
pub open spec fn event_run(
    s: Seq<EntryView>,
    wd: i32,
    unwatch: Result<(), Seq<char>>,
    watch: Result<i32, Seq<char>>,
) -> (Seq<EntryView>, Option<RecordView>, EventView) {
    let (s1, step1) = event_begun(s, wd);
    event_rest(s1, step1, unwatch, watch)
}

/// What is left of an event that begins with `step`.
pub open spec fn event_rest(
    s: Seq<EntryView>,
    step: EventView,
    unwatch: Result<(), Seq<char>>,
    watch: Result<i32, Seq<char>>,
) -> (Seq<EntryView>, Option<RecordView>, EventView) {
    match step {
        EventView::Unwatch(r, w) => match event_unwatched(r, w, unwatch) {
            EventView::Queue(r2, from) => {
                let (s2, step2) = event_watched(s, r2, from, watch);
                (s2, Some(r2), step2)
            },
            step2 => (s, None, step2),
        },
        _ => (s, None, step),
    }
}

/// An event has at most one record synced: that of the first entry with the watch,
/// once its target is no longer watched. The record stays in force, with a new watch
/// on its target, if both changes of watches succeed, and is out of force otherwise.
/// No other record is touched.
pub proof fn law_event(
    s: Seq<EntryView>,
    wd: i32,
    unwatch: Result<(), Seq<char>>,
    watch: Result<i32, Seq<char>>,
)
    requires
        distinct_keys(s),
    ensures
        ({
            let (t, synced, step) = event_run(s, wd, unwatch, watch);
            let i = first_where(s, watched(wd));
            &&& distinct_keys(t)
            &&& i == s.len() <==> forall|j: int|
                0 <= j < s.len() ==> (#[trigger] s[j]).watches.from != wd && s[j].watches.to != wd
            &&& if i == s.len() {
                t == s && synced is None && step == EventView::Finished(Ok(()))
            } else {
                let r = s[i].record;
                &&& 0 <= i < s.len()
                &&& s[i].watches.from == wd || s[i].watches.to == wd
                &&& forall|j: int|
                    0 <= j < i ==> (#[trigger] s[j]).watches.from != wd && s[j].watches.to != wd
                &&& match (unwatch, watch) {
                    (Ok(()), Ok(to)) => {
                        &&& in_force(t) == in_force(s).insert(
                            r.key(),
                            FromTo { from: s[i].watches.from, to },
                        )
                        &&& records_of(t).to_multiset() == records_of(s).to_multiset()
                        &&& synced == Some(r)
                        &&& step == EventView::Finished(Ok(()))
                    },
                    (Err(e), _) => {
                        &&& in_force(t) == in_force(s).remove(r.key())
                        &&& synced is None
                        &&& step == EventView::Finished(Err(e))
                    },
                    (Ok(()), Err(e)) => {
                        &&& in_force(t) == in_force(s).remove(r.key())
                        &&& synced == Some(r)
                        &&& step == EventView::Finished(Err(e))
                    },
                }
            }
        }),
{
    let i = first_where(s, watched(wd));
    law_first_watched(s, wd);
    if i < s.len() {
        let r = s[i].record;
        let s1 = s.remove(i);
        law_remove(s, i);
        lemma_remove_distinct(s, i);
        if let (Ok(()), Ok(to)) = (unwatch, watch) {
            let w = FromTo { from: s[i].watches.from, to };
            let t = put(s1, r, w);
            law_put(s1, r, w);
            lemma_put_distinct(s1, r, w);
            assert(in_force(s).remove(r.key()).insert(r.key(), w) =~= in_force(s).insert(
                r.key(),
                w,
            ));
            lemma_taken_is_gone(s, i);
            assert(records_of(t) =~= records_of(s).remove(i).push(r));
            records_of(s).to_multiset_ensures();
            records_of(s).remove(i).to_multiset_ensures();
            assert(records_of(s).contains(records_of(s)[i]));
            assert(records_of(s).to_multiset().remove(r).insert(r) =~= records_of(
                s,
            ).to_multiset());
        }
    }
}

/// An event of the watch `wd` whose first entry is the `i`th has the watch on that
/// entry's target stopped. If it is, the entry's record is synced. The entry comes
/// last then, with the watch on its source and a new one on its target, and is lost if
/// a change of watches fails. All others stay as they are, in order.
pub proof fn law_event_of_entry(
    s: Seq<EntryView>,
    wd: i32,
    i: int,
    unwatch: Result<(), Seq<char>>,
    watch: Result<i32, Seq<char>>,
)
    requires
        distinct_keys(s),
        0 <= i < s.len(),
        s[i].watches.from == wd || s[i].watches.to == wd,
        forall|j: int| 0 <= j < i ==> (#[trigger] s[j]).watches.from != wd && s[j].watches.to != wd,
    ensures
        event_begun(s, wd).1 == EventView::Unwatch(s[i].record, s[i].watches),
        ({
            let (t, synced, step) = event_run(s, wd, unwatch, watch);
            match (unwatch, watch) {
                (Ok(()), Ok(to)) => {
                    &&& t == s.remove(i).push(
                        EntryView {
                            record: s[i].record,
                            watches: FromTo { from: s[i].watches.from, to },
                        },
                    )
                    &&& synced == Some(s[i].record)
                    &&& step == EventView::Finished(Ok(()))
                },
                (Ok(()), Err(e)) => {
                    &&& t == s.remove(i)
                    &&& synced == Some(s[i].record)
                    &&& step == EventView::Finished(Err(e))
                },
                (Err(e), _) => {
                    &&& t == s.remove(i)
                    &&& synced is None
                    &&& step == EventView::Finished(Err(e))
                },
            }
        }),
{
    law_first_watched(s, wd);
    lemma_taken_is_gone(s, i);
}

/// An event of a watch that no entry has changes nothing, and has nothing synced.
pub proof fn law_event_of_none(
    s: Seq<EntryView>,
    wd: i32,
    unwatch: Result<(), Seq<char>>,
    watch: Result<i32, Seq<char>>,
)
    requires
        forall|j: int|
            0 <= j < s.len() ==> (#[trigger] s[j]).watches.from != wd && s[j].watches.to != wd,
    ensures
        event_run(s, wd, unwatch, watch) == (s, None::<RecordView>, EventView::Finished(Ok(()))),
{
    law_first_watched(s, wd);
}

/// What became of the watches on the target that an event changes.
pub struct EventOutcome {
    pub unwatch: Result<(), Seq<char>>,
    pub watch: Result<i32, Seq<char>>,
}

/// The events of the watches `wds`, one after the other, and what each of them has
/// synced: `outs` becomes of them, in order.
pub open spec fn events_run(s: Seq<EntryView>, wds: Seq<i32>, outs: Seq<EventOutcome>) -> (
    Seq<EntryView>,
    Seq<Option<RecordView>>,
)
    decreases wds.len(),
{
    if wds.len() == 0 {
        (s, Seq::empty())
    } else {
        let (t, synced, _) = event_run(s, wds[0], outs[0].unwatch, outs[0].watch);
        let (u, rest) = events_run(t, wds.drop_first(), outs.drop_first());
        (u, seq![synced] + rest)
    }
}

/// Entries with none of the watches `wds`.
pub open spec fn unconcerned(wds: Seq<i32>) -> spec_fn(EntryView) -> bool {
    |e: EntryView| forall|i: int| 0 <= i < wds.len() ==> !watched(#[trigger] wds[i])(e)
}

/// Entries that are among `es`.
pub open spec fn among(es: Seq<EntryView>) -> spec_fn(EntryView) -> bool {
    |e: EntryView| es.contains(e)
}

proof fn lemma_remove_filter(s: Seq<EntryView>, i: int, p: spec_fn(EntryView) -> bool)
    requires
        0 <= i < s.len(),
        !p(s[i]),
    ensures
        s.remove(i).filter(p) == s.filter(p),
{
    let a = s.take(i);
    let b = s.skip(i + 1);
    assert(s =~= a.push(s[i]) + b);
    assert(s.remove(i) =~= a + b);
    Seq::filter_distributes_over_add(a.push(s[i]), b, p);
    Seq::filter_distributes_over_add(a, b, p);
    a.lemma_filter_push(s[i], p);
}

proof fn lemma_filter_among(s: Seq<EntryView>, p: spec_fn(EntryView) -> bool)
    ensures
        s.filter(among(s.filter(p))) == s.filter(p),
{
    let es = s.filter(p);
    assert forall|i: int| 0 <= i < s.len() implies (p(#[trigger] s[i]) <==> es.contains(s[i])) by {
        if p(s[i]) {
            s.lemma_filter_contains(p, i);
        } else if es.contains(s[i]) {
            let j = choose|j: int| 0 <= j < es.len() && es[j] == s[i];
            s.lemma_filter_pred(p, j);
        }
    }
    lemma_filter_same(s, es, p);
}

proof fn lemma_filter_same(s: Seq<EntryView>, es: Seq<EntryView>, p: spec_fn(EntryView) -> bool)
    requires
        forall|i: int| 0 <= i < s.len() ==> (p(#[trigger] s[i]) <==> es.contains(s[i])),
    ensures
        s.filter(among(es)) == s.filter(p),
    decreases s.len(),
{
    reveal(Seq::filter);
    if s.len() > 0 {
        let t = s.drop_last();
        assert forall|i: int| 0 <= i < t.len() implies (p(#[trigger] t[i]) <==> es.contains(
            t[i],
        )) by {
            assert(t[i] == s[i]);
        }
        lemma_filter_same(t, es, p);
        assert(p(s[s.len() - 1]) <==> es.contains(s[s.len() - 1]));
    }
}

/// One event leaves alone those of the entries `es` that do not have its watch.
proof fn lemma_event_spares(
    s: Seq<EntryView>,
    wd: i32,
    unwatch: Result<(), Seq<char>>,
    watch: Result<i32, Seq<char>>,
    es: Seq<EntryView>,
)
    requires
        distinct_keys(s),
        s.filter(among(es)) == es,
        forall|j: int| 0 <= j < es.len() ==> !watched(wd)(#[trigger] es[j]),
    ensures
        event_run(s, wd, unwatch, watch).0.filter(among(es)) == es,
{
    let p = among(es);
    let i = first_where(s, watched(wd));
    lemma_first_where_found(s, watched(wd));
    if i < s.len() {
        let s1 = s.remove(i);
        assert(!p(s[i]));
        lemma_remove_filter(s, i, p);
        if let (Ok(()), Ok(to)) = (unwatch, watch) {
            let r = s[i].record;
            let e = EntryView { record: r, watches: FromTo { from: s[i].watches.from, to } };
            lemma_taken_is_gone(s, i);
            if es.contains(e) {
                s.lemma_filter_contains_rev(p, e);
                let j = choose|j: int| 0 <= j < s.len() && s[j] == e;
                if j < i {
                    assert(s[j].record.key() != s[i].record.key());
                } else if j > i {
                    assert(s[i].record.key() != s[j].record.key());
                }
            }
            s1.lemma_filter_push(e, p);
        }
    }
}

/// With an entry taken out, its record is not in force.
proof fn lemma_taken_is_gone(s: Seq<EntryView>, i: int)
    requires
        distinct_keys(s),
        0 <= i < s.len(),
    ensures
        first_where(s.remove(i), keyed(s[i].record.key())) == s.len() - 1,
{
    let t = s.remove(i);
    let k = s[i].record.key();
    assert forall|m: int| 0 <= m < t.len() implies !keyed(k)(#[trigger] t[m]) by {
        if m < i {
            assert(s[m].record.key() != s[i].record.key());
        } else {
            assert(s[i].record.key() != s[m + 1].record.key());
        }
    }
    lemma_first_where(t, keyed(k), t.len() as int);
}

proof fn lemma_events_spare(
    s: Seq<EntryView>,
    wds: Seq<i32>,
    outs: Seq<EventOutcome>,
    es: Seq<EntryView>,
)
    requires
        distinct_keys(s),
        outs.len() == wds.len(),
        s.filter(among(es)) == es,
        forall|j: int| 0 <= j < es.len() ==> unconcerned(wds)(#[trigger] es[j]),
    ensures
        events_run(s, wds, outs).0.filter(among(es)) == es,
    decreases wds.len(),
{
    if wds.len() > 0 {
        let t = event_run(s, wds[0], outs[0].unwatch, outs[0].watch).0;
        let wds1 = wds.drop_first();
        assert forall|j: int| 0 <= j < es.len() implies !watched(wds[0])(#[trigger] es[j]) by {
            assert(unconcerned(wds)(es[j]));
        }
        lemma_event_spares(s, wds[0], outs[0].unwatch, outs[0].watch, es);
        law_event(s, wds[0], outs[0].unwatch, outs[0].watch);
        assert forall|j: int| 0 <= j < es.len() implies unconcerned(wds1)(#[trigger] es[j]) by {
            assert(unconcerned(wds)(es[j]));
            assert forall|i: int| 0 <= i < wds1.len() implies !watched(#[trigger] wds1[i])(
                es[j],
            ) by {
                assert(wds1[i] == wds[i + 1]);
            }
        }
        lemma_events_spare(t, wds1, outs.drop_first(), es);
    }
}

/// An event brings no record in force that was not, and has none synced that was not.
proof fn lemma_event_adds_none(
    s: Seq<EntryView>,
    wd: i32,
    unwatch: Result<(), Seq<char>>,
    watch: Result<i32, Seq<char>>,
)
    ensures
        ({
            let (t, synced, _) = event_run(s, wd, unwatch, watch);
            &&& forall|i: int|
                0 <= i < records_of(t).len() ==> records_of(s).contains(#[trigger] records_of(t)[i])
            &&& synced matches Some(r) ==> records_of(s).contains(r)
        }),
{
    let (t, synced, _) = event_run(s, wd, unwatch, watch);
    let i = first_where(s, watched(wd));
    lemma_first_where_found(s, watched(wd));
    if i < s.len() {
        assert(records_of(s)[i] == s[i].record);
        lemma_first_where_found(s.remove(i), keyed(s[i].record.key()));
        assert forall|j: int| 0 <= j < records_of(t).len() implies records_of(s).contains(
            #[trigger] records_of(t)[j],
        ) by {
            if j < s.len() - 1 {
                let k = if j < i {
                    j
                } else {
                    j + 1
                };
                assert(records_of(s)[k] == records_of(t)[j]);
            }
        }
    } else {
        assert forall|j: int| 0 <= j < records_of(t).len() implies records_of(s).contains(
            #[trigger] records_of(t)[j],
        ) by {
            assert(records_of(s)[j] == records_of(t)[j]);
        }
    }
}

/// However many events there are, and whatever becomes of them: each has at most one
/// record synced, which was in force. No record is in force that was not, and none
/// twice. The entries that no event concerns stay as they are, in order. If every
/// change of watches succeeds, no record is lost.
pub proof fn law_events(s: Seq<EntryView>, wds: Seq<i32>, outs: Seq<EventOutcome>)
    requires
        distinct_keys(s),
        outs.len() == wds.len(),
    ensures
        ({
            let (t, synced) = events_run(s, wds, outs);
            let spared = s.filter(unconcerned(wds));
            &&& distinct_keys(t)
            &&& synced.len() == wds.len()
            &&& forall|i: int|
                0 <= i < synced.len() ==> (#[trigger] synced[i] matches Some(r)
                    ==> records_of(s).contains(r))
            &&& forall|i: int|
                0 <= i < records_of(t).len() ==> records_of(s).contains(#[trigger] records_of(t)[i])
            &&& t.filter(among(spared)) == spared
            &&& (forall|i: int|
                0 <= i < outs.len() ==> (#[trigger] outs[i]).unwatch is Ok && outs[i].watch is Ok)
                ==> records_of(t).to_multiset() == records_of(s).to_multiset()
        }),
    decreases wds.len(),
{
    let spared = s.filter(unconcerned(wds));
    lemma_filter_among(s, unconcerned(wds));
    assert forall|j: int| 0 <= j < spared.len() implies unconcerned(wds)(#[trigger] spared[j]) by {
        s.lemma_filter_pred(unconcerned(wds), j);
    }
    lemma_events_spare(s, wds, outs, spared);
    let (t, synced) = events_run(s, wds, outs);
    if wds.len() == 0 {
        assert forall|i: int| 0 <= i < records_of(t).len() implies records_of(s).contains(
            #[trigger] records_of(t)[i],
        ) by {
            assert(records_of(s)[i] == records_of(t)[i]);
        }
    } else {
        let o = outs[0];
        let outs1 = outs.drop_first();
        let (s1, first, _) = event_run(s, wds[0], o.unwatch, o.watch);
        let rest = events_run(s1, wds.drop_first(), outs1).1;
        law_event(s, wds[0], o.unwatch, o.watch);
        lemma_event_adds_none(s, wds[0], o.unwatch, o.watch);
        law_events(s1, wds.drop_first(), outs1);
        assert forall|r: RecordView| records_of(s1).contains(r) implies #[trigger] records_of(
            s,
        ).contains(r) by {
            let k = choose|k: int| 0 <= k < records_of(s1).len() && records_of(s1)[k] == r;
            assert(records_of(s).contains(records_of(s1)[k]));
        }
        assert forall|i: int| 0 <= i < synced.len() implies (#[trigger] synced[i] matches Some(r)
            ==> records_of(s).contains(r)) by {
            if i > 0 {
                assert(synced[i] == rest[i - 1]);
            }
        }
        if forall|i: int|
            0 <= i < outs.len() ==> (#[trigger] outs[i]).unwatch is Ok && outs[i].watch is Ok {
            assert(outs[0].unwatch is Ok);
            assert forall|i: int| 0 <= i < outs1.len() implies (#[trigger] outs1[i]).unwatch is Ok
                && outs1[i].watch is Ok by {
                assert(outs1[i] == outs[i + 1]);
            }
        }
    }
}

// Lists

/// A list names every record in force, and none of them twice, and changes nothing.
pub proof fn law_list(s: Seq<EntryView>)
    requires
        distinct_keys(s),
    ensures
        action_begun(s, ActionView::List) == (
            s,
            StepView::Finished {
                results: ResultsView::List(records_of(s)),
                ending: Ending::Silent(LoopCtrl::Continue),
            },
        ),
        forall|i: int, j: int|
            0 <= i < j < records_of(s).len() ==> (#[trigger] records_of(s)[i]).key() != (
            #[trigger] records_of(s)[j]).key(),
        forall|k: RecordKey| #[trigger]
            in_force(s).contains_key(k) ==> exists|i: int|
                0 <= i < records_of(s).len() && (#[trigger] records_of(s)[i]).key() == k,
        forall|i: int|
            0 <= i < records_of(s).len() ==> in_force(s).contains_key(
                (#[trigger] records_of(s)[i]).key(),
            ),
{
    let v = records_of(s);
    law_in_force(s);
    assert forall|i: int, j: int| 0 <= i < j < v.len() implies (#[trigger] v[i]).key() != (
    #[trigger] v[j]).key() by {
        assert(s[i].record.key() != s[j].record.key());
    }
    assert forall|k: RecordKey| #[trigger] in_force(s).contains_key(k) implies exists|i: int|
        0 <= i < v.len() && (#[trigger] v[i]).key() == k by {
        let i = choose|i: int| 0 <= i < s.len() && (#[trigger] s[i]).record.key() == k;
        assert(v[i].key() == k);
    }
    assert forall|i: int| 0 <= i < v.len() implies in_force(s).contains_key(
        (#[trigger] v[i]).key(),
    ) by {
        assert(in_force(s).contains_key(s[i].record.key()));
    }
}

// Requests

/// A request, from its beginning to its end: `status`, `source` and `target` become
/// of what an addition does, and `outs` of what a deletion does.
pub open spec fn request_run(
    s: Seq<EntryView>,
    a: ActionView,
    status: Result<bool, Seq<char>>,
    source: Result<i32, Seq<char>>,
    target: Result<i32, Seq<char>>,
    outs: Seq<Stops>,
) -> (Seq<EntryView>, StepView) {
    let (t, step) = action_begun(s, a);
    request_rest(t, step, status, source, target, outs)
}

/// What is left of a request that begins with `step`.
pub open spec fn request_rest(
    s: Seq<EntryView>,
    step: StepView,
    status: Result<bool, Seq<char>>,
    source: Result<i32, Seq<char>>,
    target: Result<i32, Seq<char>>,
    outs: Seq<Stops>,
) -> (Seq<EntryView>, StepView) {
    match step {
        StepView::Copy(r) => add_rest(s, r, status, source, target),
        _ => del_run(s, step, outs),
    }
}

/// How a request ends.
pub open spec fn request_ending(a: ActionView) -> Ending {
    match a {
        ActionView::Add(_) => Ending::Answer,
        ActionView::Del(_, _) => Ending::Answer,
        ActionView::List => Ending::Silent(LoopCtrl::Continue),
        ActionView::Stop => Ending::Silent(LoopCtrl::Break),
    }
}

/// Every request comes to its end, whatever becomes of its steps, and leaves no
/// record in force twice. Additions and deletions are answered however they end;
/// lists and stops are not.
pub proof fn law_request(
    s: Seq<EntryView>,
    a: ActionView,
    status: Result<bool, Seq<char>>,
    source: Result<i32, Seq<char>>,
    target: Result<i32, Seq<char>>,
    outs: Seq<Stops>,
)
    requires
        distinct_keys(s),
        a matches ActionView::Del(wanted, me) ==> outs.len() == s.filter(
            selected(wanted, me),
        ).len(),
    ensures
        ({
            let (t, step) = request_run(s, a, status, source, target, outs);
            &&& distinct_keys(t)
            &&& step matches StepView::Finished { ending, .. } && ending == request_ending(a)
        }),
{
    match a {
        ActionView::Add(r) => {
            if let (Ok(from), Ok(to)) = (source, target) {
                lemma_put_distinct(s, r, FromTo { from, to });
            }
        },
        ActionView::Del(wanted, me) => {
            law_del(s, wanted, me, outs);
            lemma_parts_distinct(s, wanted, me);
            lemma_unstopped_distinct(
                s.filter(unselected(wanted, me)),
                s.filter(selected(wanted, me)),
                outs,
            );
        },
        _ => {},
    }
}

proof fn lemma_unstopped_distinct(s: Seq<EntryView>, es: Seq<EntryView>, outs: Seq<Stops>)
    requires
        distinct_keys(s + es),
        outs.len() == es.len(),
    ensures
        distinct_keys(s + unstopped(es, outs)),
    decreases es.len(),
{
    if es.len() == 0 {
        assert(s + unstopped(es, outs) =~= s + es);
    } else {
        let tail = es.drop_first();
        let outs1 = outs.drop_first();
        if stopped(outs[0]) {
            assert((s + es).remove(s.len() as int) =~= s + tail);
            lemma_remove_distinct(s + es, s.len() as int);
            lemma_unstopped_distinct(s, tail, outs1);
        } else {
            assert(s.push(es[0]) + tail =~= s + es);
            lemma_unstopped_distinct(s.push(es[0]), tail, outs1);
            assert(s.push(es[0]) + unstopped(tail, outs1) =~= s + unstopped(es, outs));
        }
    }
}

/// The records are stored after a request just if it was an addition or a deletion
/// and its answer was sent. A round fails just if such an answer was not sent, and
/// just a stop ends the loop.
pub proof fn law_after_request(a: ActionView, sent: Result<(), Seq<char>>, shown: Seq<char>)
    ensures
        ({
            let r = round_result(request_ending(a), sent, shown);
            let answered = a is Add || a is Del;
            &&& r == Ok::<LoopCtrl, Seq<char>>(LoopCtrl::ContinuePersist) <==> answered && sent is Ok
            &&& r is Err <==> answered && sent is Err
            &&& r == Ok::<LoopCtrl, Seq<char>>(LoopCtrl::Break) <==> a is Stop
        }),
{
}

/// What a client hears of an addition is that it is done, or the first failure.
pub proof fn law_client_hears_of_addition(
    s: Seq<EntryView>,
    r: RecordView,
    status: Result<bool, Seq<char>>,
    source: Result<i32, Seq<char>>,
    target: Result<i32, Seq<char>>,
)
    ensures
        add_run(s, r, status, source, target).1 matches StepView::Finished { results, .. }
            && add_answered(Ok(results)) == match (copy_result(r, status), source, target) {
            (Err(e), _, _) => Err::<(), Seq<char>>(e),
            (_, Err(e), _) => Err::<(), Seq<char>>(e),
            (_, _, Err(e)) => Err::<(), Seq<char>>(e),
            _ => Ok::<(), Seq<char>>(()),
        },
{
    law_add(s, r, status, source, target);
}

/// What a client hears of a deletion is what became of each entry that it selects.
pub proof fn law_client_hears_of_deletion(
    s: Seq<EntryView>,
    wanted: FromTo<Option<Seq<char>>>,
    me: UID,
    outs: Seq<Stops>,
)
    requires
        distinct_keys(s),
        outs.len() == s.filter(selected(wanted, me)).len(),
    ensures
        ({
            let (s1, step) = action_begun(s, ActionView::Del(wanted, me));
            del_run(s1, step, outs).1 matches StepView::Finished { results, .. } && del_answered(
                Ok(results),
            ) == Ok::<Seq<SuccOrFailView>, Seq<char>>(
                verdicts(s.filter(selected(wanted, me)), outs),
            )
        }),
{
    law_del(s, wanted, me, outs);
}

// Restarts

/// What is in force once the records `rs` were added one by one to nothing, and
/// `outs` became of the additions, in order.
pub open spec fn restored(rs: Seq<RecordView>, outs: Seq<AddOutcome>) -> Seq<EntryView>
    decreases rs.len(),
{
    if rs.len() == 0 {
        Seq::empty()
    } else {
        let o = outs.last();
        add_run(
            restored(rs.drop_last(), outs.drop_last()),
            rs.last(),
            o.status,
            o.source,
            o.target,
        ).0
    }
}

/// The records of `rs` whose additions succeeded, in order, each with its new watches.
pub open spec fn added(rs: Seq<RecordView>, outs: Seq<AddOutcome>) -> Seq<EntryView>
    decreases rs.len(),
{
    if rs.len() == 0 {
        Seq::empty()
    } else {
        let before = added(rs.drop_last(), outs.drop_last());
        let o = outs.last();
        if o.succeeded() {
            before.push(
                EntryView {
                    record: rs.last(),
                    watches: FromTo { from: o.source->Ok_0, to: o.target->Ok_0 },
                },
            )
        } else {
            before
        }
    }
}

proof fn lemma_added_from(rs: Seq<RecordView>, outs: Seq<AddOutcome>)
    ensures
        forall|j: int|
            0 <= j < added(rs, outs).len() ==> rs.contains(
                (#[trigger] added(rs, outs)[j]).record,
            ),
    decreases rs.len(),
{
    if rs.len() > 0 {
        let rs1 = rs.drop_last();
        let before = added(rs1, outs.drop_last());
        lemma_added_from(rs1, outs.drop_last());
        assert forall|j: int| 0 <= j < added(rs, outs).len() implies rs.contains(
            (#[trigger] added(rs, outs)[j]).record,
        ) by {
            if j < before.len() {
                let m = choose|m: int| 0 <= m < rs1.len() && rs1[m] == before[j].record;
                assert(rs[m] == before[j].record);
            } else {
                assert(rs[rs.len() - 1] == rs.last());
            }
        }
    }
}

/// Adding the records that were stored brings in force just those whose copy and
/// watches succeed, in order, each with its new watches.
pub proof fn law_restart(s: Seq<EntryView>, outs: Seq<AddOutcome>)
    requires
        distinct_keys(s),
        outs.len() == s.len(),
    ensures
        restored(records_of(s), outs) == added(records_of(s), outs),
    decreases s.len(),
{
    let rs = records_of(s);
    if s.len() > 0 {
        let s1 = s.drop_last();
        let n = s.len() - 1;
        let rs1 = rs.drop_last();
        lemma_drop_last_distinct(s);
        assert(rs1 =~= records_of(s1));
        law_restart(s1, outs.drop_last());
        let t = added(rs1, outs.drop_last());
        lemma_added_from(rs1, outs.drop_last());
        assert forall|j: int| 0 <= j < t.len() implies !keyed(rs.last().key())(#[trigger] t[j]) by {
            let m = choose|m: int| 0 <= m < rs1.len() && rs1[m] == t[j].record;
            assert(s[m].record.key() != s[n].record.key());
        }
        lemma_first_where(t, keyed(rs.last().key()), t.len() as int);
    }
}

/// If every addition succeeds, a restart brings in force just the records that were,
/// in order.
pub proof fn law_restart_all_added(s: Seq<EntryView>, outs: Seq<AddOutcome>)
    requires
        distinct_keys(s),
        outs.len() == s.len(),
        forall|i: int| 0 <= i < outs.len() ==> (#[trigger] outs[i]).succeeded(),
    ensures
        records_of(restored(records_of(s), outs)) == records_of(s),
    decreases s.len(),
{
    let rs = records_of(s);
    law_restart(s, outs);
    if s.len() == 0 {
        assert(records_of(restored(rs, outs)) =~= rs);
    } else {
        let s1 = s.drop_last();
        let outs1 = outs.drop_last();
        lemma_drop_last_distinct(s);
        assert(rs.drop_last() =~= records_of(s1));
        assert forall|i: int| 0 <= i < outs1.len() implies (#[trigger] outs1[i]).succeeded() by {
            assert(outs1[i] == outs[i]);
        }
        law_restart_all_added(s1, outs1);
        law_restart(s1, outs1);
        assert(outs[s.len() - 1].succeeded());
        assert(records_of(added(rs, outs)) =~= records_of(added(records_of(s1), outs1)).push(
            rs.last(),
        ));
        assert(rs.drop_last().push(rs.last()) =~= rs);
    }
}

// Rounds

/// If reading events fails, the round is over at once: nothing changes and no request
/// is taken. Otherwise a request is taken once no event is left.
pub proof fn law_round(s: Seq<EntryView>, read: EventsRead, wds: Seq<i32>)
    ensures
        round_begun(s, read).1 is Finished <==> read is Failed,
        read matches EventsRead::Failed(e) ==> round_begun(s, read) == (
            s,
            RoundView::Finished(Err(e@)),
        ),
        next_event_begun(s, wds).1 is TakeRequest <==> wds.len() == 0,
        wds.len() == 0 ==> next_event_begun(s, wds).0 == s,
{
}

/// How many events a round has still to handle.
pub open spec fn events_left(round: RoundView) -> nat {
    match round {
        RoundView::Event { rest, .. } => rest.len() + 1,
        _ => 0,
    }
}

/// A round from the step `round` until no event is left, and what each event has
/// synced: `outs` becomes of the events, in order.
pub open spec fn events_handled(s: Seq<EntryView>, round: RoundView, outs: Seq<EventOutcome>) -> (
    Seq<EntryView>,
    Seq<Option<RecordView>>,
    RoundView,
)
    decreases events_left(round),
{
    match round {
        RoundView::Event { step, rest } => {
            let (t, synced, _) = event_rest(s, step, outs[0].unwatch, outs[0].watch);
            let (u, next) = next_event_begun(t, rest);
            let (v, more, last) = events_handled(u, next, outs.drop_first());
            (v, seq![synced] + more, last)
        },
        _ => (s, Seq::empty(), round),
    }
}

/// A round, from its beginning to its end, and what each event has synced: `read` is
/// what reading events gave, `events` becomes of them, `request` is what was asked
/// for, `add` and `outs` become of that, and `sent` of the answer to the request,
/// which is shown as `shown`.
pub open spec fn round_run(
    s: Seq<EntryView>,
    read: EventsRead,
    events: Seq<EventOutcome>,
    request: Option<ActionView>,
    add: AddOutcome,
    outs: Seq<Stops>,
    sent: Result<(), Seq<char>>,
    shown: Seq<char>,
) -> (Seq<EntryView>, Seq<Option<RecordView>>, RoundView) {
    let (s1, begun) = round_begun(s, read);
    let (s2, synced, handled) = events_handled(s1, begun, events);
    if handled is TakeRequest {
        match request_begun(s2, request) {
            (s3, RoundView::Act(step)) => {
                let (s4, last) = request_rest(s3, step, add.status, add.source, add.target, outs);
                let round = match last {
                    StepView::Finished { ending, .. } => RoundView::Finished(
                        round_result(ending, sent, shown),
                    ),
                    _ => RoundView::Act(last),
                };
                (s4, synced, round)
            },
            (s3, round) => (s3, synced, round),
        }
    } else {
        (s2, synced, handled)
    }
}

/// The watches whose events were read.
pub open spec fn events_of(read: EventsRead) -> Seq<i32> {
    match read {
        EventsRead::Events(wds) => wds@,
        _ => Seq::empty(),
    }
}

proof fn lemma_events_handled(s: Seq<EntryView>, wds: Seq<i32>, outs: Seq<EventOutcome>)
    ensures
        ({
            let (s1, begun) = next_event_begun(s, wds);
            let (t, synced) = events_run(s, wds, outs);
            events_handled(s1, begun, outs) == (t, synced, RoundView::TakeRequest)
        }),
    decreases wds.len(),
{
    if wds.len() > 0 {
        let t = event_run(s, wds[0], outs[0].unwatch, outs[0].watch).0;
        lemma_events_handled(t, wds.drop_first(), outs.drop_first());
    }
}

/// A round comes to its end, whatever becomes of its steps. Unless reading events
/// fails, every event is handled, in order, and after them the request, if there is
/// one. No record is in force twice.
pub proof fn law_whole_round(
    s: Seq<EntryView>,
    read: EventsRead,
    events: Seq<EventOutcome>,
    request: Option<ActionView>,
    add: AddOutcome,
    outs: Seq<Stops>,
    sent: Result<(), Seq<char>>,
    shown: Seq<char>,
)
    requires
        distinct_keys(s),
        events.len() == events_of(read).len(),
        request matches Some(ActionView::Del(wanted, me)) ==> outs.len() == events_run(
            s,
            events_of(read),
            events,
        ).0.filter(selected(wanted, me)).len(),
    ensures
        ({
            let (t, synced, last) = round_run(s, read, events, request, add, outs, sent, shown);
            let (u, heard) = events_run(s, events_of(read), events);
            &&& distinct_keys(t)
            &&& synced == heard
            &&& match (read, request) {
                (EventsRead::Failed(e), _) => t == s && last == RoundView::Finished(Err(e@)),
                (_, Some(a)) => {
                    &&& t == request_run(u, a, add.status, add.source, add.target, outs).0
                    &&& last == RoundView::Finished(round_result(request_ending(a), sent, shown))
                },
                (_, None) => t == u && last == RoundView::Finished(Ok(LoopCtrl::Continue)),
            }
        }),
{
    let wds = events_of(read);
    lemma_events_handled(s, wds, events);
    law_events(s, wds, events);
    if let Some(a) = request {
        let u = events_run(s, wds, events).0;
        law_request(u, a, add.status, add.source, add.target, outs);
    }
}

/// A stop changes nothing, answers nobody, and ends the loop.
pub proof fn law_stop(s: Seq<EntryView>)
    ensures
        action_begun(s, ActionView::Stop).0 == s,
        action_begun(s, ActionView::Stop).1 matches StepView::Finished {
            ending: Ending::Silent(LoopCtrl::Break),
            ..
        },
{
}

/// A list is of each record in force, in order, as it is written.
pub proof fn law_list_entries(s: Seq<EntryView>)
    ensures
        action_begun(s, ActionView::List).0 == s,
        action_begun(s, ActionView::List).1 matches StepView::Finished {
            results: ResultsView::List(v),
            ending: Ending::Silent(LoopCtrl::Continue),
        } && v.len() == s.len() && forall|i: int|
            0 <= i < v.len() ==> #[trigger] v[i] == s[i].record,
{
}

} // verus!
