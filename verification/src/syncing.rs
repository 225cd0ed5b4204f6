//! Bringing a target in step with its source.
use crate::text::{all_digits, decimal, decimal_text, law_decimal, value_of};
use crate::traits::BoolToResult;
use crate::types::{told, Record, RecordView, GID, UID};
use vstd::prelude::*;
use vstd::string::*;

verus! {

/// A program to run as a user and a group.
#[derive(Debug)]
pub struct CommandLine {
    pub program: String,
    pub user: UID,
    pub group: GID,
    pub args: Vec<String>,
}

#[verifier::ext_equal]
pub struct CommandLineView {
    pub program: Seq<char>,
    pub user: UID,
    pub group: GID,
    pub args: Seq<Seq<char>>,
}

impl View for CommandLine {
    type V = CommandLineView;

    open spec fn view(&self) -> CommandLineView {
        CommandLineView {
            program: self.program@,
            user: self.user,
            group: self.group,
            args: self.args.deep_view(),
        }
    }
}

/// How the source of `r` is copied over its target.
pub open spec fn copy_line(r: RecordView) -> CommandLineView {
    CommandLineView {
        program: "cp"@,
        user: r.user,
        group: r.group,
        args: seq!["-f"@, r.src_dst.from, r.src_dst.to],
    }
}

/// What is said of a copy that did not succeed.
pub open spec fn copy_failure(r: RecordView) -> Seq<char> {
    "Failed sync from "@ + r.src_dst.from + " to "@ + r.src_dst.to + " as "@ + decimal(
        r.user as nat,
    )
}

/// What became of a copy that ran with success or without, or did not run.
pub open spec fn copy_result(r: RecordView, status: Result<bool, Seq<char>>) -> Result<
    (),
    Seq<char>,
> {
    match status {
        Ok(true) => Ok(()),
        Ok(false) => Err(copy_failure(r)),
        Err(e) => Err(e),
    }
}

/// The command that copies the source of `r` over its target, as its user and group.
pub fn copy_command(r: &Record) -> (c: CommandLine)
    ensures
        c@ == copy_line(r@),
        copies(c, *r),
{
    let mut args: Vec<String> = Vec::new();
    args.push("-f".to_owned());
    args.push(r.src_dst.from.text.clone());
    args.push(r.src_dst.to.text.clone());
    let c = CommandLine { program: "cp".to_owned(), user: r.user, group: r.group, args };
    assert(c@.args =~= copy_line(r@).args);
    c
}

fn copy_failure_text(r: &Record) -> (t: String)
    ensures
        t@ == copy_failure(r@),
{
    let mut t = "Failed sync from ".to_owned();
    t.append(r.src_dst.from.text.as_str());
    t.append(" to ");
    t.append(r.src_dst.to.text.as_str());
    t.append(" as ");
    t.append(decimal_text(r.user).as_str());
    t
}

/// What became of the copy for `r`, whose command ran with success or without, or
/// could not be run.
pub fn copy_outcome(r: &Record, status: Result<bool, String>) -> (o: Result<(), String>)
    ensures
        told(o) == copy_result(r@, told(status)),
{
    match status {
        Ok(success) => success.to_result((), copy_failure_text(r)),
        Err(e) => Err(e),
    }
}

/// What the syncing side does next.
#[derive(Debug)]
pub enum SyncingStep {
    /// Copy for a record.
    Copy(Record, CommandLine),
    Sleep { millis: u64 },
}

/// Copies what was received, and rests for a millisecond if nothing was.
pub fn serv_syncing(received: Option<Record>) -> (s: SyncingStep)
    ensures
        match received {
            Some(r) => s matches SyncingStep::Copy(r2, c) && r2 == r && c@ == copy_line(r@),
            None => s == (SyncingStep::Sleep { millis: 1 }),
        },
{
    match received {
        Some(r) => {
            let c = copy_command(&r);
            SyncingStep::Copy(r, c)
        },
        None => SyncingStep::Sleep { millis: 1 },
    }
}

/// A copy is run as the record's user and group, whatever they are, and goes from the
/// record's source to its target.
pub proof fn law_copy_line(r: RecordView)
    ensures
        copy_line(r).program == "cp"@,
        copy_line(r).user == r.user,
        copy_line(r).group == r.group,
        copy_line(r).args.len() == 3,
        copy_line(r).args[0] == "-f"@,
        copy_line(r).args[1] == r.src_dst.from,
        copy_line(r).args[2] == r.src_dst.to,
{
}

/// The command that a record is copied with goes from its source to its target, as its
/// user and group, on the syncing side too.
pub proof fn law_copy_command(r: Record, c: CommandLine, s: SyncingStep)
    requires
        call_ensures(copy_command, (&r,), c),
        call_ensures(serv_syncing, (Some(r),), s),
    ensures
        copies(c, r),
        s matches SyncingStep::Copy(r2, c2) && r2 == r && copies(c2, r),
{
    assert forall|c: CommandLine| #[trigger] c@ == copy_line(r@) implies copies(c, r) by {
        assert(c@.args.len() == c.args@.len());
        assert(c.args@[0]@ == c@.args[0]);
        assert(c.args@[1]@ == c@.args[1]);
        assert(c.args@[2]@ == c@.args[2]);
    }
}

/// `c` copies the source of `r` over its target, as its user and group.
pub open spec fn copies(c: CommandLine, r: Record) -> bool {
    &&& c.program@ == "cp"@
    &&& c.user == r.user
    &&& c.group == r.group
    &&& c.args@.len() == 3
    &&& c.args@[0]@ == "-f"@
    &&& c.args@[1]@ == r.src_dst.from.text@
    &&& c.args@[2]@ == r.src_dst.to.text@
}

/// With nothing to copy the syncing side rests, for a millisecond.
pub proof fn law_rest(s: SyncingStep)
    requires
        call_ensures(serv_syncing, (None::<Record>,), s),
    ensures
        s matches SyncingStep::Sleep { millis } && millis == 1,
{
}

/// A copy succeeds just if its command ran with success. That it could not be run is
/// told in the words it came with. One without success is told with its source, its
/// target and its user, in this order.
pub proof fn law_copy_result(r: RecordView, status: Result<bool, Seq<char>>)
    ensures
        copy_result(r, status) is Ok <==> status == Ok::<bool, Seq<char>>(true),
        status matches Err(e) ==> copy_result(r, status) == Err::<(), Seq<char>>(e),
        status == Ok::<bool, Seq<char>>(false) ==> {
            &&& copy_result(r, status) matches Err(t)
            &&& exists|n: Seq<char>|
                {
                    &&& #[trigger] all_digits(n)
                    &&& value_of(n) == r.user
                    &&& t == "Failed sync from "@ + r.src_dst.from + " to "@ + r.src_dst.to
                        + " as "@ + n
                }
        },
{
    law_decimal(r.user as nat);
}

/// What is told of a copy is what became of it.
pub proof fn law_copy_outcome(r: Record, status: Result<bool, String>, o: Result<(), String>)
    requires
        call_ensures(copy_outcome, (&r, status), o),
    ensures
        o is Ok <==> status == Ok::<bool, String>(true),
        status matches Err(e) ==> o matches Err(f) && f@ == e@,
{
}

} // verus!
