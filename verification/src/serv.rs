//! The server's start, its loop and its end.
use crate::path::FilePath;
use crate::types::{same_writing, ActionView, InotifyActions, LoopCtrl, Record};
use vstd::prelude::*;
use vstd::string::*;

verus! {

/// What to do about the file of records before it is read.
#[derive(Debug)]
pub enum DbStep {
    /// It is there.
    Read,
    /// It is to be created with these contents.
    Create(String),
    /// It could not be looked for.
    Fail(String),
}

/// A file of records that is not there is created with no records in it.
pub fn prepare_db(found: Result<bool, String>) -> (s: DbStep)
    ensures
        match found {
            Ok(true) => s is Read,
            Ok(false) => s matches DbStep::Create(c) && c@ == "[]"@,
            Err(e) => s == DbStep::Fail(e),
        },
{
    match found {
        Ok(true) => DbStep::Read,
        Ok(false) => DbStep::Create("[]".to_owned()),
        Err(e) => DbStep::Fail(e),
    }
}

/// The requests that bring the stored records in force: an addition for each, in
/// order.
pub fn startup_requests(records: &Vec<Record>) -> (v: Vec<InotifyActions>)
    ensures
        v.len() == records.len(),
        forall|i: int|
            0 <= i < v.len() ==> (#[trigger] v@[i])@ == ActionView::Add(records@[i]@),
{
    let mut v: Vec<InotifyActions> = Vec::new();
    let mut i: usize = 0;
    while i < records.len()
        invariant
            i <= records.len(),
            v.len() == i,
            forall|j: int| 0 <= j < i ==> (#[trigger] v@[j])@ == ActionView::Add(records@[j]@),
        decreases records.len() - i,
    {
        v.push(InotifyActions::Add(records[i].clone()));
        i += 1;
    }
    v
}

/// What the watching loop does after a round.
#[derive(Debug)]
pub enum AfterRound {
    /// Tells of the failure, and goes on.
    Warn(String),
    GoOn,
    /// Stores the records, and goes on.
    Persist,
    Stop,
}

/// What follows a round of the watching loop.
pub fn after_round(round: Result<LoopCtrl, String>) -> (a: AfterRound)
    ensures
        a == match round {
            Err(e) => AfterRound::Warn(e),
            Ok(LoopCtrl::Break) => AfterRound::Stop,
            Ok(LoopCtrl::Continue) => AfterRound::GoOn,
            Ok(LoopCtrl::ContinuePersist) => AfterRound::Persist,
        },
{
    match round {
        Err(e) => AfterRound::Warn(e),
        Ok(LoopCtrl::Break) => AfterRound::Stop,
        Ok(LoopCtrl::Continue) => AfterRound::GoOn,
        Ok(LoopCtrl::ContinuePersist) => AfterRound::Persist,
    }
}

/// The arguments with which `rm` takes the socket away.
pub fn socket_removal(uds: &FilePath) -> (args: Vec<String>)
    ensures
        args.deep_view() == seq!["-f"@, uds@],
{
    let mut args: Vec<String> = Vec::new();
    args.push("-f".to_owned());
    args.push(uds.text.clone());
    assert(args.deep_view() =~= seq!["-f"@, uds@]);
    args
}

/// A file of records is created just if it is known not to be there, and then with an
/// empty list in it.
pub proof fn law_prepare_db(found: Result<bool, String>, s: DbStep)
    requires
        call_ensures(prepare_db, (found,), s),
    ensures
        s is Read <==> found == Ok::<bool, String>(true),
        s is Create <==> found == Ok::<bool, String>(false),
        s matches DbStep::Create(c) ==> c@ == seq!['[', ']'],
        s is Fail <==> found is Err,
        s matches DbStep::Fail(e) ==> found == Err::<bool, String>(e),
{
    reveal_strlit("[]");
}

/// Every record that was stored is added again, each once, in order, and as it was.
pub proof fn law_startup(records: Vec<Record>, v: Vec<InotifyActions>)
    requires
        call_ensures(startup_requests, (&records,), v),
    ensures
        v@.len() == records@.len(),
        forall|i: int|
            0 <= i < v@.len() ==> #[trigger] v@[i] is Add && same_writing(
                v@[i]->Add_0,
                records@[i],
            ),
{
    assert forall|i: int| 0 <= i < v@.len() implies #[trigger] v@[i] is Add && same_writing(
        v@[i]->Add_0,
        records@[i],
    ) by {
        assert(v@[i]@ == ActionView::Add(records@[i]@));
    }
}

/// The loop stops just after a round that says so, and the records are stored just
/// after one that says so. A failure is told, and the loop goes on.
pub proof fn law_after_round(round: Result<LoopCtrl, String>, a: AfterRound)
    requires
        call_ensures(after_round, (round,), a),
    ensures
        a is Stop <==> round == Ok::<LoopCtrl, String>(LoopCtrl::Break),
        a is Persist <==> round == Ok::<LoopCtrl, String>(LoopCtrl::ContinuePersist),
        a is GoOn <==> round == Ok::<LoopCtrl, String>(LoopCtrl::Continue),
        a is Warn <==> round is Err,
        a matches AfterRound::Warn(e) ==> round == Err::<LoopCtrl, String>(e),
{
}

/// What is taken away is the socket, and nothing else.
pub proof fn law_socket_removal(uds: FilePath, args: Vec<String>)
    requires
        call_ensures(socket_removal, (&uds,), args),
    ensures
        args@.len() == 2,
        args@[0]@ == seq!['-', 'f'],
        args@[1]@ == uds.text@,
{
    reveal_strlit("-f");
    assert(args.deep_view().len() == args@.len());
    assert(args.deep_view()[0] == args@[0]@);
    assert(args.deep_view()[1] == args@[1]@);
}

} // verus!
