//! What is kept in step, and what is asked and answered about it.
use crate::path::{path_key, FilePath, PathKey};
use vstd::prelude::*;

verus! {

/// Something of a source, and the same of its target.
#[derive(Debug, PartialEq, Eq, Hash)]
#[verifier::ext_equal]
pub struct FromTo<T> {
    pub from: T,
    pub to: T,
}

impl<T: View> View for FromTo<T> {
    type V = FromTo<T::V>;

    open spec fn view(&self) -> FromTo<T::V> {
        FromTo { from: self.from@, to: self.to@ }
    }
}

impl<T: DeepView> DeepView for FromTo<T> {
    type V = FromTo<T::V>;

    open spec fn deep_view(&self) -> FromTo<T::V> {
        FromTo { from: self.from.deep_view(), to: self.to.deep_view() }
    }
}

impl<T: Clone> Clone for FromTo<T> {
    fn clone(&self) -> (c: FromTo<T>)
        ensures
            cloned::<T>(self.from, c.from),
            cloned::<T>(self.to, c.to),
    {
        FromTo { from: self.from.clone(), to: self.to.clone() }
    }
}

pub type UID = u32;

pub type GID = u32;

/// A file to keep in step, and the user and group to copy it as.
#[derive(Debug)]
pub struct Record {
    pub src_dst: FromTo<FilePath>,
    pub user: UID,
    pub group: GID,
}

#[verifier::ext_equal]
pub struct RecordView {
    pub src_dst: FromTo<Seq<char>>,
    pub user: UID,
    pub group: GID,
}

/// What two writings of one record have in common.
#[verifier::ext_equal]
pub struct RecordKey {
    pub from: PathKey,
    pub to: PathKey,
    pub user: UID,
    pub group: GID,
}

impl RecordView {
    pub open spec fn key(self) -> RecordKey {
        RecordKey {
            from: path_key(self.src_dst.from),
            to: path_key(self.src_dst.to),
            user: self.user,
            group: self.group,
        }
    }
}

impl View for Record {
    type V = RecordView;

    open spec fn view(&self) -> RecordView {
        RecordView { src_dst: self.src_dst@, user: self.user, group: self.group }
    }
}

impl DeepView for Record {
    type V = RecordView;

    open spec fn deep_view(&self) -> RecordView {
        self@
    }
}

impl Clone for Record {
    fn clone(&self) -> (r: Record)
        ensures
            r == *self,
    {
        Record { src_dst: self.src_dst.clone(), user: self.user, group: self.group }
    }
}

impl PartialEq for Record {
    fn eq(&self, other: &Record) -> (b: bool) {
        self.src_dst.from == other.src_dst.from && self.src_dst.to == other.src_dst.to && self.user
            == other.user && self.group == other.group
    }
}

impl vstd::std_specs::cmp::PartialEqSpecImpl for Record {
    open spec fn obeys_eq_spec() -> bool {
        true
    }

    open spec fn eq_spec(&self, other: &Record) -> bool {
        self@.key() == other@.key()
    }
}

impl Eq for Record {

}

/// What the watching side can be asked for.
#[derive(Debug)]
pub enum InotifyActions {
    Add(Record),
    Del(FromTo<Option<FilePath>>, u32),
    List,
    Stop,
}

#[verifier::ext_equal]
pub enum ActionView {
    Add(RecordView),
    Del(FromTo<Option<Seq<char>>>, u32),
    List,
    Stop,
}

impl View for InotifyActions {
    type V = ActionView;

    open spec fn view(&self) -> ActionView {
        match self {
            InotifyActions::Add(r) => ActionView::Add(r@),
            InotifyActions::Del(wanted, me) => ActionView::Del(wanted.deep_view(), *me),
            InotifyActions::List => ActionView::List,
            InotifyActions::Stop => ActionView::Stop,
        }
    }
}

/// Whether the syncing of one pair of files was stopped.
#[derive(Debug, PartialEq, Eq)]
pub enum SuccOrFail {
    Succ(FromTo<FilePath>),
    Fail { filenames: FromTo<FilePath>, error: String },
}

#[verifier::ext_equal]
pub enum SuccOrFailView {
    Succ(FromTo<Seq<char>>),
    Fail { filenames: FromTo<Seq<char>>, error: Seq<char> },
}

impl View for SuccOrFail {
    type V = SuccOrFailView;

    open spec fn view(&self) -> SuccOrFailView {
        match self {
            SuccOrFail::Succ(filenames) => SuccOrFailView::Succ(filenames@),
            SuccOrFail::Fail { filenames, error } => SuccOrFailView::Fail {
                filenames: filenames@,
                error: error@,
            },
        }
    }
}

impl DeepView for SuccOrFail {
    type V = SuccOrFailView;

    open spec fn deep_view(&self) -> SuccOrFailView {
        self@
    }
}

/// What the watching side found or did. A failure is told in words.
#[derive(Debug)]
pub enum InotifyResults {
    Add(Result<(), String>),
    Del(Result<Vec<SuccOrFail>, String>),
    List(Vec<Record>),
}

#[verifier::ext_equal]
pub enum ResultsView {
    Add(Result<(), Seq<char>>),
    Del(Result<Seq<SuccOrFailView>, Seq<char>>),
    List(Seq<RecordView>),
}

/// A result whose failure is told in words.
pub open spec fn told<T>(r: Result<T, String>) -> Result<T, Seq<char>> {
    match r {
        Ok(t) => Ok(t),
        Err(e) => Err(e@),
    }
}

impl View for InotifyResults {
    type V = ResultsView;

    open spec fn view(&self) -> ResultsView {
        match self {
            InotifyResults::Add(r) => ResultsView::Add(told(*r)),
            InotifyResults::Del(Ok(v)) => ResultsView::Del(Ok(v.deep_view())),
            InotifyResults::Del(Err(e)) => ResultsView::Del(Err(e@)),
            InotifyResults::List(v) => ResultsView::List(v.deep_view()),
        }
    }
}

/// How the watching loop goes on.
#[derive(Debug, Clone, Copy, PartialEq, Eq, Structural)]
pub enum LoopCtrl {
    Continue,
    ContinuePersist,
    Break,
}

/// `a` and `b` are the same pair of files, copied as the same user and group.
pub open spec fn same_record(a: RecordView, b: RecordView) -> bool {
    &&& path_key(a.src_dst.from) == path_key(b.src_dst.from)
    &&& path_key(a.src_dst.to) == path_key(b.src_dst.to)
    &&& a.user == b.user
    &&& a.group == b.group
}

/// Records are told apart by their source, by their target, by their user and by
/// their group, and by nothing else.
pub proof fn law_record_key(a: RecordView, b: RecordView)
    ensures
        a.key() == b.key() <==> same_record(a, b),
        path_key(a.src_dst.from) != path_key(b.src_dst.from) ==> a.key() != b.key(),
        path_key(a.src_dst.to) != path_key(b.src_dst.to) ==> a.key() != b.key(),
        a.user != b.user ==> a.key() != b.key(),
        a.group != b.group ==> a.key() != b.key(),
{
}

/// Records compare equal just if their paths do, source with source and target with
/// target, and their users and groups are the same.
pub proof fn law_record_eq(a: Record, b: Record)
    ensures
        vstd::std_specs::cmp::PartialEqSpec::eq_spec(&a, &b) <==> {
            &&& path_key(a.src_dst.from.text@) == path_key(b.src_dst.from.text@)
            &&& path_key(a.src_dst.to.text@) == path_key(b.src_dst.to.text@)
            &&& a.user == b.user
            &&& a.group == b.group
        },
{
}

/// A record is seen as what its fields are.
pub proof fn law_record_fields(r: Record)
    ensures
        r@.src_dst.from == r.src_dst.from.text@,
        r@.src_dst.to == r.src_dst.to.text@,
        r@.user == r.user,
        r@.group == r.group,
        r.deep_view() == r@,
{
}

/// A request is seen as what its fields are.
pub proof fn law_action_fields(a: InotifyActions)
    ensures
        a matches InotifyActions::Add(r) ==> a@ == ActionView::Add(r@),
        a matches InotifyActions::Del(wanted, me) ==> {
            &&& a@ matches ActionView::Del(w, m)
            &&& m == me
            &&& w.from is Some <==> wanted.from is Some
            &&& w.to is Some <==> wanted.to is Some
            &&& wanted.from matches Some(p) ==> w.from == Some(p.text@)
            &&& wanted.to matches Some(p) ==> w.to == Some(p.text@)
        },
        a is List <==> a@ is List,
        a is Stop <==> a@ is Stop,
{
}

/// Results are seen as what their fields are, a list item by item.
pub proof fn law_results_fields(r: InotifyResults)
    ensures
        r matches InotifyResults::Add(Ok(())) ==> r@ == ResultsView::Add(Ok(())),
        r matches InotifyResults::Add(Err(e)) ==> r@ == ResultsView::Add(Err(e@)),
        r matches InotifyResults::Del(Err(e)) ==> r@ == ResultsView::Del(Err(e@)),
        r matches InotifyResults::Del(Ok(v)) ==> {
            &&& r@ matches ResultsView::Del(Ok(w))
            &&& w.len() == v.len()
            &&& forall|i: int| 0 <= i < v.len() ==> #[trigger] w[i] == v@[i]@
        },
        r matches InotifyResults::List(v) ==> {
            &&& r@ matches ResultsView::List(w)
            &&& w.len() == v.len()
            &&& forall|i: int| 0 <= i < v.len() ==> #[trigger] w[i] == v@[i]@
        },
{
}

/// What is said of a pair is seen as what its fields are.
pub proof fn law_verdict_fields(s: SuccOrFail)
    ensures
        s matches SuccOrFail::Succ(p) ==> {
            &&& s@ matches SuccOrFailView::Succ(q)
            &&& q.from == p.from.text@
            &&& q.to == p.to.text@
        },
        s matches SuccOrFail::Fail { filenames: p, error: e } ==> {
            &&& s@ matches SuccOrFailView::Fail { filenames: q, error: f }
            &&& q.from == p.from.text@
            &&& q.to == p.to.text@
            &&& f == e@
        },
        s.deep_view() == s@,
{
}

/// A failure in words keeps its words, and a success what it is.
pub proof fn law_told<T>(t: T, e: String)
    ensures
        told(Ok::<T, String>(t)) == Ok::<T, Seq<char>>(t),
        told(Err::<T, String>(e)) == Err::<T, Seq<char>>(e@),
{
}

/// `a` and `b` have the same paths, written the same, and the same user and group.
pub open spec fn same_writing(a: Record, b: Record) -> bool {
    &&& a.src_dst.from.text@ == b.src_dst.from.text@
    &&& a.src_dst.to.text@ == b.src_dst.to.text@
    &&& a.user == b.user
    &&& a.group == b.group
}

/// A copy of a record is the same record, written the same.
pub proof fn law_record_copy(r: Record, c: Record)
    requires
        call_ensures(Record::clone, (&r,), c),
    ensures
        same_writing(c, r),
{
}

} // verus!
