//! The requests of clients, handed to the watching side and answered by it.
use crate::path::FilePath;
use crate::types::{
    told, ActionView, FromTo, InotifyActions, InotifyResults, Record, RecordView, ResultsView,
    SuccOrFail, SuccOrFailView, GID, UID,
};
use vstd::prelude::*;
use vstd::string::*;

verus! {

/// What a client can ask for. A failure is told in words.
pub trait CdlMsg: Sized {
    /// Keeps `dst` in step with `src`, as user `me` and group `group`.
    fn add(self, src: FilePath, dst: FilePath, me: UID, group: GID) -> Result<(), String>;

    /// The pairs of files that are kept in step.
    fn list(self, me: UID) -> Result<Vec<FromTo<FilePath>>, String>;

    /// Stops keeping in step what user `me` has with the source `src` or the target
    /// `dst`.
    fn del(self, src: Option<FilePath>, dst: Option<FilePath>, me: UID) -> Result<
        Vec<SuccOrFail>,
        String,
    >;
}

/// Serves clients by asking the watching side.
#[derive(Clone, Debug)]
pub struct Server {
    pub inotify_request: std::sync::mpsc::Sender<
        (InotifyActions, std::sync::mpsc::Sender<InotifyResults>),
    >,
}

/// What is said when nobody takes requests.
pub open spec fn send_closed() -> Seq<char> {
    "sending on a closed channel"@
}

/// What is said when a request was dropped without an answer.
pub open spec fn recv_closed() -> Seq<char> {
    "receiving on a closed channel"@
}

/// A reply, or that the channel was closed.
pub open spec fn reply_or_closed(reply: Result<ResultsView, Seq<char>>) -> bool {
    reply matches Err(e) ==> e == send_closed() || e == recv_closed()
}

/// What a reply says about an addition. One that is about something else says
/// nothing against it.
pub open spec fn add_answered(reply: Result<ResultsView, Seq<char>>) -> Result<(), Seq<char>> {
    match reply {
        Ok(ResultsView::Add(r)) => r,
        Ok(_) => Ok(()),
        Err(e) => Err(e),
    }
}

/// The pairs of files in a reply. One that is about something else has none.
pub open spec fn list_answered(reply: Result<ResultsView, Seq<char>>) -> Result<
    Seq<FromTo<Seq<char>>>,
    Seq<char>,
> {
    match reply {
        Ok(ResultsView::List(v)) => Ok(v.map_values(|r: RecordView| r.src_dst)),
        Ok(_) => Ok(Seq::empty()),
        Err(e) => Err(e),
    }
}

/// What a reply says about a deletion. One that is about something else has nothing.
pub open spec fn del_answered(reply: Result<ResultsView, Seq<char>>) -> Result<
    Seq<SuccOrFailView>,
    Seq<char>,
> {
    match reply {
        Ok(ResultsView::Del(r)) => r,
        Ok(_) => Ok(Seq::empty()),
        Err(e) => Err(e),
    }
}

/// A reply, or the words for the closed channel.
pub open spec fn reply_view(reply: Result<InotifyResults, String>) -> Result<
    ResultsView,
    Seq<char>,
> {
    match reply {
        Ok(r) => Ok(r@),
        Err(e) => Err(e@),
    }
}

/// A list of things, or a failure in words.
pub open spec fn vec_told<T: DeepView>(r: Result<Vec<T>, String>) -> Result<Seq<T::V>, Seq<char>> {
    match r {
        Ok(v) => Ok(v.deep_view()),
        Err(e) => Err(e@),
    }
}

/// `tx` and `rx` are the two ends of one channel for a reply.
pub open spec fn ends_of_channel(
    tx: std::sync::mpsc::Sender<InotifyResults>,
    rx: std::sync::mpsc::Receiver<InotifyResults>,
) -> bool {
    call_ensures(std::sync::mpsc::channel::<InotifyResults>, (), (tx, rx))
}

/// Sending `action` on `line`, with `tx` as the way for the reply, gave `sent`.
pub open spec fn send_gave(
    line: &std::sync::mpsc::Sender<(InotifyActions, std::sync::mpsc::Sender<InotifyResults>)>,
    action: InotifyActions,
    tx: std::sync::mpsc::Sender<InotifyResults>,
    sent: Result<
        (),
        std::sync::mpsc::SendError<(InotifyActions, std::sync::mpsc::Sender<InotifyResults>)>,
    >,
) -> bool {
    call_ensures(
        std::sync::mpsc::Sender::<
            (InotifyActions, std::sync::mpsc::Sender<InotifyResults>),
        >::send,
        (line, (action, tx)),
        sent,
    )
}

/// Waiting for a reply at `rx` gave `got`.
pub open spec fn recv_gave(
    rx: std::sync::mpsc::Receiver<InotifyResults>,
    got: Result<InotifyResults, std::sync::mpsc::RecvError>,
) -> bool {
    call_ensures(std::sync::mpsc::Receiver::<InotifyResults>::recv, (&rx,), got)
}

/// Asking for `action` on `line` gave `reply`: the request was sent with one end of a
/// new channel, and the reply is what came at the other end. Where nobody took the
/// request, or nothing came, the words for it stand in place of the reply.
pub open spec fn asked(
    line: &std::sync::mpsc::Sender<(InotifyActions, std::sync::mpsc::Sender<InotifyResults>)>,
    action: InotifyActions,
    reply: Result<InotifyResults, String>,
) -> bool {
    exists|
        tx: std::sync::mpsc::Sender<InotifyResults>,
        rx: std::sync::mpsc::Receiver<InotifyResults>,
        sent: Result<
            (),
            std::sync::mpsc::SendError<(InotifyActions, std::sync::mpsc::Sender<InotifyResults>)>,
        >,
    |
        {
            &&& #[trigger] ends_of_channel(tx, rx)
            &&& #[trigger] send_gave(line, action, tx, sent)
            &&& match sent {
                Ok(()) => exists|got: Result<InotifyResults, std::sync::mpsc::RecvError>|
                    {
                        &&& #[trigger] recv_gave(rx, got)
                        &&& match got {
                            Ok(results) => reply == Ok::<InotifyResults, String>(results),
                            Err(_) => reply_view(reply) == Err::<ResultsView, Seq<char>>(
                                recv_closed(),
                            ),
                        }
                    },
                Err(_) => reply_view(reply) == Err::<ResultsView, Seq<char>>(send_closed()),
            }
        }
}

/// What the watching side is asked to add `src` and `dst` with.
pub fn add_request(src: FilePath, dst: FilePath, me: UID, group: GID) -> (a: InotifyActions)
    ensures
        a@ == ActionView::Add(
            RecordView { src_dst: FromTo { from: src@, to: dst@ }, user: me, group },
        ),
{
    InotifyActions::Add(Record { src_dst: FromTo { from: src, to: dst }, user: me, group })
}

/// What the watching side is asked to delete with.
pub fn del_request(src: Option<FilePath>, dst: Option<FilePath>, me: UID) -> (a: InotifyActions)
    ensures
        a@ == ActionView::Del(FromTo { from: src.deep_view(), to: dst.deep_view() }, me),
{
    InotifyActions::Del(FromTo { from: src, to: dst }, me)
}

/// What a client hears of an addition.
pub fn add_answer(reply: Result<InotifyResults, String>) -> (r: Result<(), String>)
    ensures
        told(r) == add_answered(reply_view(reply)),
{
    match reply {
        Ok(InotifyResults::Add(r)) => r,
        Ok(_) => Ok(()),
        Err(e) => Err(e),
    }
}

/// What a client hears of the pairs of files.
pub fn list_answer(reply: Result<InotifyResults, String>) -> (r: Result<
    Vec<FromTo<FilePath>>,
    String,
>)
    ensures
        vec_told(r) == list_answered(reply_view(reply)),
{
    let mut pairs: Vec<FromTo<FilePath>> = Vec::new();
    match reply {
        Ok(InotifyResults::List(v)) => {
            let mut i: usize = 0;
            while i < v.len()
                invariant
                    i <= v.len(),
                    pairs.len() == i,
                    forall|j: int| 0 <= j < i ==> pairs@[j]@ == #[trigger] v@[j]@.src_dst,
                decreases v.len() - i,
            {
                pairs.push(v[i].src_dst.clone());
                i += 1;
            }
            assert(pairs.deep_view() =~= v.deep_view().map_values(|r: RecordView| r.src_dst));
            Ok(pairs)
        },
        Ok(_) => {
            assert(pairs.deep_view() =~= Seq::<FromTo<Seq<char>>>::empty());
            Ok(pairs)
        },
        Err(e) => Err(e),
    }
}

/// What a client hears of a deletion.
pub fn del_answer(reply: Result<InotifyResults, String>) -> (r: Result<Vec<SuccOrFail>, String>)
    ensures
        vec_told(r) == del_answered(reply_view(reply)),
{
    match reply {
        Ok(InotifyResults::Del(r)) => r,
        Ok(_) => {
            let none: Vec<SuccOrFail> = Vec::new();
            assert(none.deep_view() =~= Seq::<SuccOrFailView>::empty());
            Ok(none)
        },
        Err(e) => Err(e),
    }
}

/// Adds by way of `ask`: hands it the request, once, and reads its reply.
pub fn add_by<F: FnOnce(InotifyActions) -> Result<InotifyResults, String>>(
    ask: F,
    src: FilePath,
    dst: FilePath,
    me: UID,
    group: GID,
) -> (r: Result<(), String>)
    requires
        forall|a: InotifyActions| call_requires(ask, (a,)),
    ensures
        exists|a: InotifyActions, reply: Result<InotifyResults, String>|
            {
                &&& #[trigger] call_ensures(ask, (a,), reply)
                &&& a@ == ActionView::Add(
                    RecordView { src_dst: FromTo { from: src@, to: dst@ }, user: me, group },
                )
                &&& told(r) == add_answered(reply_view(reply))
            },
{
    let reply = ask(add_request(src, dst, me, group));
    add_answer(reply)
}

/// Lists by way of `ask`: hands it the request, once, and reads its reply. Whoever
/// asks hears of the records of all.
pub fn list_by<F: FnOnce(InotifyActions) -> Result<InotifyResults, String>>(ask: F) -> (r: Result<
    Vec<FromTo<FilePath>>,
    String,
>)
    requires
        forall|a: InotifyActions| call_requires(ask, (a,)),
    ensures
        exists|reply: Result<InotifyResults, String>|
            {
                &&& #[trigger] call_ensures(ask, (InotifyActions::List,), reply)
                &&& vec_told(r) == list_answered(reply_view(reply))
            },
{
    let reply = ask(InotifyActions::List);
    list_answer(reply)
}

/// Deletes by way of `ask`: hands it the request, once, and reads its reply.
pub fn del_by<F: FnOnce(InotifyActions) -> Result<InotifyResults, String>>(
    ask: F,
    src: Option<FilePath>,
    dst: Option<FilePath>,
    me: UID,
) -> (r: Result<Vec<SuccOrFail>, String>)
    requires
        forall|a: InotifyActions| call_requires(ask, (a,)),
    ensures
        exists|a: InotifyActions, reply: Result<InotifyResults, String>|
            {
                &&& #[trigger] call_ensures(ask, (a,), reply)
                &&& a@ == ActionView::Del(
                    FromTo { from: src.deep_view(), to: dst.deep_view() },
                    me,
                )
                &&& vec_told(r) == del_answered(reply_view(reply))
            },
{
    let reply = ask(del_request(src, dst, me));
    del_answer(reply)
}

impl Server {
    /// Hands `action` to the watching side and waits for the reply.
    fn ask(&self, action: InotifyActions) -> (reply: Result<InotifyResults, String>)
        ensures
            asked(&self.inotify_request, action, reply),
            reply_or_closed(reply_view(reply)),
    {
        let (tx, rx) = std::sync::mpsc::channel();
        assert(ends_of_channel(tx, rx));
        let ghost (way, request) = (tx, action);
        let sent = self.inotify_request.send((action, tx));
        assert(send_gave(&self.inotify_request, request, way, sent));
        match sent {
            Ok(()) => {
                let got = rx.recv();
                assert(recv_gave(rx, got));
                match got {
                    Ok(reply) => Ok(reply),
                    Err(_) => Err("receiving on a closed channel".to_owned()),
                }
            },
            Err(_) => Err("sending on a closed channel".to_owned()),
        }
    }
}

impl CdlMsg for Server {
    /// The outcome is what the reply to this request says, or that the channel was
    /// closed.
    fn add(self, src: FilePath, dst: FilePath, me: UID, group: GID) -> (r: Result<(), String>)
        ensures
            exists|a: InotifyActions, reply: Result<InotifyResults, String>|
                {
                    &&& #[trigger] asked(&self.inotify_request, a, reply)
                    &&& a@ == ActionView::Add(
                        RecordView { src_dst: FromTo { from: src@, to: dst@ }, user: me, group },
                    )
                    &&& reply_or_closed(reply_view(reply))
                    &&& told(r) == add_answered(reply_view(reply))
                },
    {
        let ask = |a: InotifyActions| -> (reply: Result<InotifyResults, String>)
            ensures
                asked(&self.inotify_request, a, reply),
                reply_or_closed(reply_view(reply)),
            { self.ask(a) };
        add_by(ask, src, dst, me, group)
    }

    /// The outcome is what the reply to this request says, or that the channel was
    /// closed.
    fn list(self, me: UID) -> (r: Result<Vec<FromTo<FilePath>>, String>)
        ensures
            exists|reply: Result<InotifyResults, String>|
                {
                    &&& #[trigger] asked(&self.inotify_request, InotifyActions::List, reply)
                    &&& reply_or_closed(reply_view(reply))
                    &&& vec_told(r) == list_answered(reply_view(reply))
                },
    {
        let ask = |a: InotifyActions| -> (reply: Result<InotifyResults, String>)
            ensures
                asked(&self.inotify_request, a, reply),
                reply_or_closed(reply_view(reply)),
            { self.ask(a) };
        list_by(ask)
    }

    /// The outcome is what the reply to this request says, or that the channel was
    /// closed.
    fn del(self, src: Option<FilePath>, dst: Option<FilePath>, me: UID) -> (r: Result<
        Vec<SuccOrFail>,
        String,
    >)
        ensures
            exists|a: InotifyActions, reply: Result<InotifyResults, String>|
                {
                    &&& #[trigger] asked(&self.inotify_request, a, reply)
                    &&& a@ == ActionView::Del(
                        FromTo { from: src.deep_view(), to: dst.deep_view() },
                        me,
                    )
                    &&& reply_or_closed(reply_view(reply))
                    &&& vec_told(r) == del_answered(reply_view(reply))
                },
    {
        let ask = |a: InotifyActions| -> (reply: Result<InotifyResults, String>)
            ensures
                asked(&self.inotify_request, a, reply),
                reply_or_closed(reply_view(reply)),
            { self.ask(a) };
        del_by(ask, src, dst, me)
    }
}

/// What is asked for an addition is the pair as the client named it, and its user and
/// group.
pub proof fn law_add_request(src: FilePath, dst: FilePath, me: UID, group: GID, a: InotifyActions)
    requires
        call_ensures(add_request, (src, dst, me, group), a),
    ensures
        asks_to_add(a, src, dst, me, group),
{
}

/// What is asked for a deletion is the source and the target as far as the client named
/// them, and the user.
pub proof fn law_del_request(
    src: Option<FilePath>,
    dst: Option<FilePath>,
    me: UID,
    a: InotifyActions,
)
    requires
        call_ensures(del_request, (src, dst, me), a),
    ensures
        asks_to_delete(a, src, dst, me),
{
}

/// A client hears of an addition what the watching side says of it, and that there was
/// no reply. Any other reply is nothing against it.
pub proof fn law_add_answer(reply: Result<InotifyResults, String>, r: Result<(), String>)
    requires
        call_ensures(add_answer, (reply,), r),
    ensures
        reply matches Ok(InotifyResults::Add(Err(e))) ==> r is Err && r->Err_0@ == e@,
        reply matches Err(e) ==> r is Err && r->Err_0@ == e@,
        r is Err ==> reply is Err || reply->Ok_0 is Add && reply->Ok_0->Add_0 is Err,
{
}

/// A client hears of the pair of each record that is listed, as many, in order and as
/// they are written.
pub proof fn law_list_answer(
    reply: Result<InotifyResults, String>,
    r: Result<Vec<FromTo<FilePath>>, String>,
)
    requires
        call_ensures(list_answer, (reply,), r),
    ensures
        r is Err <==> reply is Err,
        reply matches Err(e) ==> r->Err_0@ == e@,
        reply matches Ok(InotifyResults::List(v)) ==> r->Ok_0@.len() == v@.len() && forall|i: int|
            0 <= i < v@.len() ==> (#[trigger] r->Ok_0@[i]).from.text@ == v@[i].src_dst.from.text@
                && r->Ok_0@[i].to.text@ == v@[i].src_dst.to.text@,
        reply is Ok && reply->Ok_0 !is List ==> r->Ok_0@.len() == 0,
{
    assert(r matches Ok(p) ==> p.deep_view().len() == p@.len());
    if let Ok(InotifyResults::List(v)) = reply {
        let p = r->Ok_0;
        assert(v.deep_view().len() == v@.len());
        assert forall|i: int| 0 <= i < v@.len() implies (#[trigger] p@[i]).from.text@
            == v@[i].src_dst.from.text@ && p@[i].to.text@ == v@[i].src_dst.to.text@ by {
            assert(p.deep_view()[i] == p@[i].deep_view());
            assert(v.deep_view()[i] == v@[i]@);
            assert(p.deep_view()[i] == v.deep_view()[i].src_dst);
        }
    }
}

/// A client hears of a deletion what the watching side says of each pair, as many and in
/// order, or the failure.
pub proof fn law_del_answer(
    reply: Result<InotifyResults, String>,
    r: Result<Vec<SuccOrFail>, String>,
)
    requires
        call_ensures(del_answer, (reply,), r),
    ensures
        reply matches Ok(InotifyResults::Del(Ok(v))) ==> r is Ok && r->Ok_0@.len() == v@.len()
            && forall|i: int| 0 <= i < v@.len() ==> (#[trigger] r->Ok_0@[i])@ == v@[i]@,
        reply matches Ok(InotifyResults::Del(Err(e))) ==> r is Err && r->Err_0@ == e@,
        reply matches Err(e) ==> r is Err && r->Err_0@ == e@,
        reply is Ok && reply->Ok_0 !is Del ==> r is Ok && r->Ok_0@.len() == 0,
{
    assert(r matches Ok(p) ==> p.deep_view().len() == p@.len());
    if let Ok(InotifyResults::Del(Ok(v))) = reply {
        let p = r->Ok_0;
        assert(v.deep_view().len() == v@.len());
        assert forall|i: int| 0 <= i < v@.len() implies (#[trigger] p@[i])@ == v@[i]@ by {
            assert(p.deep_view()[i] == p@[i]@);
            assert(v.deep_view()[i] == v@[i]@);
        }
    }
}

/// A reply that is had to a request came at one end of a channel whose other end was
/// sent with that request. Without one, nobody took the request, or nothing came.
pub proof fn law_asked(
    line: &std::sync::mpsc::Sender<(InotifyActions, std::sync::mpsc::Sender<InotifyResults>)>,
    action: InotifyActions,
    reply: Result<InotifyResults, String>,
)
    requires
        asked(line, action, reply),
    ensures
        exists|
            tx: std::sync::mpsc::Sender<InotifyResults>,
            rx: std::sync::mpsc::Receiver<InotifyResults>,
            sent: Result<
                (),
                std::sync::mpsc::SendError<
                    (InotifyActions, std::sync::mpsc::Sender<InotifyResults>),
                >,
            >,
        |
            {
                &&& #[trigger] call_ensures(
                    std::sync::mpsc::channel::<InotifyResults>,
                    (),
                    (tx, rx),
                )
                &&& #[trigger] call_ensures(
                    std::sync::mpsc::Sender::<
                        (InotifyActions, std::sync::mpsc::Sender<InotifyResults>),
                    >::send,
                    (line, (action, tx)),
                    sent,
                )
                &&& sent is Err ==> reply is Err && reply->Err_0@ == "sending on a closed channel"@
                &&& reply matches Ok(results) ==> sent is Ok && call_ensures(
                    std::sync::mpsc::Receiver::<InotifyResults>::recv,
                    (&rx,),
                    Ok(results),
                )
                &&& sent is Ok && reply is Err ==> reply->Err_0@ == "receiving on a closed channel"@
            },
{
    let (tx, rx, sent) = choose|
        tx: std::sync::mpsc::Sender<InotifyResults>,
        rx: std::sync::mpsc::Receiver<InotifyResults>,
        sent: Result<
            (),
            std::sync::mpsc::SendError<(InotifyActions, std::sync::mpsc::Sender<InotifyResults>)>,
        >,
    |
        {
            &&& #[trigger] ends_of_channel(tx, rx)
            &&& #[trigger] send_gave(line, action, tx, sent)
            &&& match sent {
                Ok(()) => exists|got: Result<InotifyResults, std::sync::mpsc::RecvError>|
                    {
                        &&& #[trigger] recv_gave(rx, got)
                        &&& match got {
                            Ok(results) => reply == Ok::<InotifyResults, String>(results),
                            Err(_) => reply_view(reply) == Err::<ResultsView, Seq<char>>(
                                recv_closed(),
                            ),
                        }
                    },
                Err(_) => reply_view(reply) == Err::<ResultsView, Seq<char>>(send_closed()),
            }
        };
    assert(ends_of_channel(tx, rx));
    assert(send_gave(line, action, tx, sent));
}

/// `a` asks to add the pair `src` and `dst` as user `me` and group `group`.
pub open spec fn asks_to_add(
    a: InotifyActions,
    src: FilePath,
    dst: FilePath,
    me: UID,
    group: GID,
) -> bool {
    a matches InotifyActions::Add(r) && {
        &&& r.src_dst.from.text@ == src.text@
        &&& r.src_dst.to.text@ == dst.text@
        &&& r.user == me
        &&& r.group == group
    }
}

/// `a` asks to delete what user `me` has with the source `src` or the target `dst`.
pub open spec fn asks_to_delete(
    a: InotifyActions,
    src: Option<FilePath>,
    dst: Option<FilePath>,
    me: UID,
) -> bool {
    a matches InotifyActions::Del(wanted, user) && {
        &&& user == me
        &&& wanted.from is Some <==> src is Some
        &&& wanted.to is Some <==> dst is Some
        &&& src matches Some(p) ==> wanted.from->0.text@ == p.text@
        &&& dst matches Some(p) ==> wanted.to->0.text@ == p.text@
    }
}

/// A server asks the watching side for just what its client asked it for.
pub proof fn law_server_add(
    s: Server,
    src: FilePath,
    dst: FilePath,
    me: UID,
    group: GID,
    r: Result<(), String>,
)
    requires
        call_ensures(<Server as CdlMsg>::add, (s, src, dst, me, group), r),
    ensures
        exists|a: InotifyActions, reply: Result<InotifyResults, String>|
            {
                &&& #[trigger] asked(&s.inotify_request, a, reply)
                &&& asks_to_add(a, src, dst, me, group)
                &&& reply matches Ok(InotifyResults::Add(Err(e))) ==> r is Err && r->Err_0@ == e@
                &&& reply matches Err(e) ==> r is Err && r->Err_0@ == e@
                &&& r is Err ==> reply is Err || reply->Ok_0 is Add && reply->Ok_0->Add_0 is Err
            },
{
    let (a, reply) = choose|a: InotifyActions, reply: Result<InotifyResults, String>|
        {
            &&& #[trigger] asked(&s.inotify_request, a, reply)
            &&& a@ == ActionView::Add(
                RecordView { src_dst: FromTo { from: src@, to: dst@ }, user: me, group },
            )
            &&& told(r) == add_answered(reply_view(reply))
        };
    assert(asked(&s.inotify_request, a, reply));
}

/// A server asks the watching side for a list, whoever its client is.
pub proof fn law_server_list(s: Server, me: UID, r: Result<Vec<FromTo<FilePath>>, String>)
    requires
        call_ensures(<Server as CdlMsg>::list, (s, me), r),
    ensures
        exists|reply: Result<InotifyResults, String>|
            {
                &&& #[trigger] asked(&s.inotify_request, InotifyActions::List, reply)
                &&& r is Err <==> reply is Err
                &&& reply matches Err(e) ==> r->Err_0@ == e@
                &&& reply matches Ok(InotifyResults::List(v)) ==> r->Ok_0.deep_view()
                    == v.deep_view().map_values(|x: RecordView| x.src_dst)
            },
{
}

/// A server asks the watching side to delete just what its client asked it to.
pub proof fn law_server_del(
    s: Server,
    src: Option<FilePath>,
    dst: Option<FilePath>,
    me: UID,
    r: Result<Vec<SuccOrFail>, String>,
)
    requires
        call_ensures(<Server as CdlMsg>::del, (s, src, dst, me), r),
    ensures
        exists|a: InotifyActions, reply: Result<InotifyResults, String>|
            {
                &&& #[trigger] asked(&s.inotify_request, a, reply)
                &&& asks_to_delete(a, src, dst, me)
                &&& reply matches Err(e) ==> r is Err && r->Err_0@ == e@
                &&& reply matches Ok(InotifyResults::Del(Err(e))) ==> r is Err && r->Err_0@ == e@
                &&& reply matches Ok(InotifyResults::Del(Ok(v))) ==> r is Ok
                    && r->Ok_0.deep_view() == v.deep_view()
            },
{
    let (a, reply) = choose|a: InotifyActions, reply: Result<InotifyResults, String>|
        {
            &&& #[trigger] asked(&s.inotify_request, a, reply)
            &&& a@ == ActionView::Del(FromTo { from: src.deep_view(), to: dst.deep_view() }, me)
            &&& vec_told(r) == del_answered(reply_view(reply))
        };
    assert(asked(&s.inotify_request, a, reply));
}

} // verus!
