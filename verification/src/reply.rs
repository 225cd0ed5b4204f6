//! A channel on which each question carries the way for its answer.
use crate::channels::{
    ends_of_way, lemma_message_sent, message_sent, oneshot_send, sent_at_other_end,
};
use vstd::prelude::*;
use vstd::string::*;

verus! {

/// What can go wrong on the asking side.
#[derive(Debug)]
pub enum SenderSideError<Q> {
    /// Nobody is left to be asked: the question comes back.
    SendError(Q),
    GetReplyErrorNotSentYet,
    GetReplyErrorNotRepliedYet,
    GetReplyErrorDisconnected,
}

impl<Q> From<oneshot::TryRecvError> for SenderSideError<Q> {
    fn from(value: oneshot::TryRecvError) -> (e: Self) {
        match value {
            oneshot::TryRecvError::Empty => SenderSideError::GetReplyErrorNotRepliedYet,
            oneshot::TryRecvError::Disconnected => SenderSideError::GetReplyErrorDisconnected,
        }
    }
}

impl<Q> vstd::std_specs::convert::FromSpecImpl<oneshot::TryRecvError> for SenderSideError<Q> {
    open spec fn obeys_from_spec() -> bool {
        true
    }

    open spec fn from_spec(value: oneshot::TryRecvError) -> Self {
        match value {
            oneshot::TryRecvError::Empty => SenderSideError::GetReplyErrorNotRepliedYet,
            oneshot::TryRecvError::Disconnected => SenderSideError::GetReplyErrorDisconnected,
        }
    }
}

impl<Q> SenderSideError<Q> {
    /// The error in words: its name, and in brackets the question that came back, as
    /// `question` shows it.
    pub fn fmt(&self, question: &str) -> (t: String)
        ensures
            t@ == match *self {
                SenderSideError::SendError(_) => "SendError("@ + question@ + ")"@,
                SenderSideError::GetReplyErrorNotSentYet => "GetReplyErrorNotSentYet"@,
                SenderSideError::GetReplyErrorNotRepliedYet => "GetReplyErrorNotRepliedYet"@,
                SenderSideError::GetReplyErrorDisconnected => "GetReplyErrorDisconnected"@,
            },
    {
        match self {
            SenderSideError::SendError(_) => {
                let mut t = "SendError(".to_owned();
                t.append(question);
                t.append(")");
                t
            },
            SenderSideError::GetReplyErrorNotSentYet => "GetReplyErrorNotSentYet".to_owned(),
            SenderSideError::GetReplyErrorNotRepliedYet => "GetReplyErrorNotRepliedYet".to_owned(),
            SenderSideError::GetReplyErrorDisconnected => "GetReplyErrorDisconnected".to_owned(),
        }
    }
}

/// The asking side.
#[verifier::reject_recursive_types(Q)]
#[verifier::reject_recursive_types(A)]
pub struct Sender<Q, A> {
    question: std::sync::mpsc::Sender<(Q, oneshot::Sender<A>)>,
    answer: Option<oneshot::Receiver<A>>,
}

/// Sending the question `t` on `line`, with `s` as the way for the answer, gave
/// `outcome`.
pub open spec fn question_sent<Q, A>(
    line: std::sync::mpsc::Sender<(Q, oneshot::Sender<A>)>,
    t: Q,
    s: oneshot::Sender<A>,
    outcome: Result<(), std::sync::mpsc::SendError<(Q, oneshot::Sender<A>)>>,
) -> bool {
    call_ensures(
        std::sync::mpsc::Sender::<(Q, oneshot::Sender<A>)>::send,
        (&line, (t, s)),
        outcome,
    )
}

/// Looking for an answer at `way` gave `ret`.
pub open spec fn answer_sought<A>(
    way: oneshot::Receiver<A>,
    ret: Result<A, oneshot::TryRecvError>,
) -> bool {
    call_ensures(oneshot::Receiver::<A>::try_recv, (&way,), ret)
}

/// Asking `t` takes the asking side from `pre` to `post` with the result `r`.
pub open spec fn send_step<Q, A>(
    pre: Sender<Q, A>,
    t: Q,
    post: Sender<Q, A>,
    r: Result<(), SenderSideError<Q>>,
) -> bool {
    match r {
        Ok(()) => post.waits() && post.line() == pre.line(),
        Err(e) => e == SenderSideError::SendError(t) && post == pre,
    }
}

/// Looking for the answer takes the asking side from `pre` to `post` with the
/// result `r`.
pub open spec fn get_reply_step<Q, A>(
    pre: Sender<Q, A>,
    post: Sender<Q, A>,
    r: Result<A, SenderSideError<Q>>,
) -> bool {
    &&& post.line() == pre.line()
    &&& if !pre.waits() {
        r == Err::<A, SenderSideError<Q>>(SenderSideError::GetReplyErrorNotSentYet) && post == pre
    } else {
        match r {
            Ok(_) => !post.waits(),
            Err(SenderSideError::GetReplyErrorNotRepliedYet) => post == pre,
            Err(SenderSideError::GetReplyErrorDisconnected) => !post.waits(),
            Err(_) => false,
        }
    }
}

/// Asking `t` sent it on the line with one end of a new channel for the answer. It
/// succeeded just if the sending did, and the answer is then waited for at the other
/// end.
pub open spec fn question_asked<Q, A>(
    pre: Sender<Q, A>,
    t: Q,
    post: Sender<Q, A>,
    r: Result<(), SenderSideError<Q>>,
) -> bool {
    exists|
        s: oneshot::Sender<A>,
        way: oneshot::Receiver<A>,
        outcome: Result<(), std::sync::mpsc::SendError<(Q, oneshot::Sender<A>)>>,
    |
        {
            &&& #[trigger] ends_of_way(s, way)
            &&& #[trigger] question_sent(pre.line(), t, s, outcome)
            &&& r is Ok <==> outcome is Ok
            &&& r is Ok ==> post.waits_by(way)
        }
}

/// What looking for an answer comes to on the asking side.
pub open spec fn reply_read<Q, A>(ret: Result<A, oneshot::TryRecvError>) -> Result<
    A,
    SenderSideError<Q>,
> {
    match ret {
        Ok(a) => Ok(a),
        Err(oneshot::TryRecvError::Empty) => Err(SenderSideError::GetReplyErrorNotRepliedYet),
        Err(oneshot::TryRecvError::Disconnected) => Err(SenderSideError::GetReplyErrorDisconnected),
    }
}

/// The result `r` is what looking for the answer gave, at the way where it is waited
/// for. An answer was sent at the other end of it.
pub open spec fn reply_looked_for<Q, A>(
    pre: Sender<Q, A>,
    r: Result<A, SenderSideError<Q>>,
) -> bool {
    exists|way: oneshot::Receiver<A>, ret: Result<A, oneshot::TryRecvError>|
        {
            &&& pre.waits_by(way)
            &&& #[trigger] answer_sought(way, ret)
            &&& r == reply_read::<Q, A>(ret)
            &&& r matches Ok(a) ==> sent_at_other_end(way, a)
        }
}

impl<Q, A> Sender<Q, A> {
    /// A question was asked and its answer has not come.
    pub closed spec fn waits(self) -> bool {
        self.answer is Some
    }

    /// Where questions go.
    pub closed spec fn line(self) -> std::sync::mpsc::Sender<(Q, oneshot::Sender<A>)> {
        self.question
    }

    /// Notes how the sending of a question ended, whose answer comes by `way`.
    pub fn sent(
        &mut self,
        way: oneshot::Receiver<A>,
        outcome: Result<(), std::sync::mpsc::SendError<(Q, oneshot::Sender<A>)>>,
    ) -> (r: Result<(), SenderSideError<Q>>)
        ensures
            match outcome {
                Ok(()) => {
                    &&& r is Ok
                    &&& final(self).waits_by(way)
                    &&& final(self).line() == old(self).line()
                },
                Err(e) => {
                    &&& r == Err::<(), SenderSideError<Q>>(SenderSideError::SendError(e.0.0))
                    &&& *final(self) == *old(self)
                },
            },
    {
        match outcome {
            Ok(()) => {
                self.answer = Some(way);
                Ok(())
            },
            Err(std::sync::mpsc::SendError((q, _))) => Err(SenderSideError::SendError(q)),
        }
    }

    /// The answer is to come by `way`.
    pub closed spec fn waits_by(self, way: oneshot::Receiver<A>) -> bool {
        self.answer == Some(way)
    }

    /// Asks `t`, with one end of a new channel, at whose other end the answer is
    /// waited for. The answer to an earlier question is no longer waited for, unless
    /// nobody is left to be asked.
    pub fn send(&mut self, t: Q) -> (r: Result<(), SenderSideError<Q>>)
        ensures
            send_step(*old(self), t, *final(self), r),
            question_asked(*old(self), t, *final(self), r),
    {
        let (s, way) = oneshot::channel();
        assert(ends_of_way(s, way));
        let ghost (asked, back) = (t, s);
        let outcome = self.question.send((t, s));
        assert(question_sent(old(self).line(), asked, back, outcome));
        self.sent(way, outcome)
    }

    /// Takes what looking for the answer gave. Unless there is none yet, it is no
    /// longer waited for.
    pub fn settle(&mut self, ret: Result<A, oneshot::TryRecvError>) -> (r: Result<
        A,
        SenderSideError<Q>,
    >)
        ensures
            final(self).line() == old(self).line(),
            match ret {
                Ok(a) => r == Ok::<A, SenderSideError<Q>>(a) && !final(self).waits(),
                Err(oneshot::TryRecvError::Empty) => {
                    &&& r == Err::<A, SenderSideError<Q>>(
                        SenderSideError::GetReplyErrorNotRepliedYet,
                    )
                    &&& *final(self) == *old(self)
                },
                Err(oneshot::TryRecvError::Disconnected) => {
                    &&& r == Err::<A, SenderSideError<Q>>(
                        SenderSideError::GetReplyErrorDisconnected,
                    )
                    &&& !final(self).waits()
                },
            },
    {
        match ret {
            Ok(a) => {
                self.answer = None;
                Ok(a)
            },
            Err(e) => {
                if let oneshot::TryRecvError::Disconnected = e {
                    self.answer = None;
                }
                Err(SenderSideError::from(e))
            },
        }
    }

    /// Looks for the answer to the last question.
    pub fn try_get_reply(&mut self) -> (r: Result<A, SenderSideError<Q>>)
        ensures
            get_reply_step(*old(self), *final(self), r),
            old(self).waits() ==> reply_looked_for(*old(self), r),
    {
        let ret = match &self.answer {
            Some(way) => {
                let ret = way.try_recv();
                assert(answer_sought(*way, ret));
                ret
            },
            None => {
                return Err(SenderSideError::GetReplyErrorNotSentYet);
            },
        };
        self.settle(ret)
    }
}

/// What can go wrong on the answering side.
#[derive(Debug)]
pub enum ReceiverSideError<A> {
    TryRecvErrorNotSentYet,
    TryRecvErrorDisconnected,
    NotRecvedYet,
    /// Nobody waits for the answer: it comes back.
    ReplyError(A),
}

impl<A> From<std::sync::mpsc::TryRecvError> for ReceiverSideError<A> {
    fn from(value: std::sync::mpsc::TryRecvError) -> (e: Self) {
        match value {
            std::sync::mpsc::TryRecvError::Empty => ReceiverSideError::TryRecvErrorNotSentYet,
            std::sync::mpsc::TryRecvError::Disconnected => ReceiverSideError::TryRecvErrorDisconnected,
        }
    }
}

impl<A> vstd::std_specs::convert::FromSpecImpl<std::sync::mpsc::TryRecvError> for ReceiverSideError<A> {
    open spec fn obeys_from_spec() -> bool {
        true
    }

    open spec fn from_spec(value: std::sync::mpsc::TryRecvError) -> Self {
        match value {
            std::sync::mpsc::TryRecvError::Empty => ReceiverSideError::TryRecvErrorNotSentYet,
            std::sync::mpsc::TryRecvError::Disconnected => ReceiverSideError::TryRecvErrorDisconnected,
        }
    }
}

/// The answering side.
#[verifier::reject_recursive_types(Q)]
#[verifier::reject_recursive_types(A)]
pub struct Receiver<Q, A> {
    question: std::sync::mpsc::Receiver<(Q, oneshot::Sender<A>)>,
    answer: Option<oneshot::Sender<A>>,
}

/// Looking for a question on `line` gave `ret`.
pub open spec fn question_sought<Q, A>(
    line: std::sync::mpsc::Receiver<(Q, oneshot::Sender<A>)>,
    ret: Result<(Q, oneshot::Sender<A>), std::sync::mpsc::TryRecvError>,
) -> bool {
    call_ensures(
        std::sync::mpsc::Receiver::<(Q, oneshot::Sender<A>)>::try_recv,
        (&line,),
        ret,
    )
}

/// Looking for a question takes the answering side from `pre` to `post` with the
/// result `r`.
pub open spec fn recv_step<Q, A>(
    pre: Receiver<Q, A>,
    post: Receiver<Q, A>,
    r: Result<Q, ReceiverSideError<A>>,
) -> bool {
    match r {
        Ok(_) => post.owes() && post.line() == pre.line(),
        Err(ReceiverSideError::TryRecvErrorNotSentYet) => post == pre,
        Err(ReceiverSideError::TryRecvErrorDisconnected) => post == pre,
        Err(_) => false,
    }
}

/// Answering `t` takes the answering side from `pre` to `post` with the result `r`.
pub open spec fn reply_step<Q, A>(
    pre: Receiver<Q, A>,
    t: A,
    post: Receiver<Q, A>,
    r: Result<(), ReceiverSideError<A>>,
) -> bool {
    &&& post.line() == pre.line()
    &&& !post.owes()
    &&& if pre.owes() {
        r is Ok || r == Err::<(), ReceiverSideError<A>>(ReceiverSideError::ReplyError(t))
    } else {
        r == Err::<(), ReceiverSideError<A>>(ReceiverSideError::NotRecvedYet) && post == pre
    }
}

/// The result `r` is what looking for a question on the line gave. A question that
/// came is to be answered by the way that came with it.
pub open spec fn question_looked_for<Q, A>(
    pre: Receiver<Q, A>,
    post: Receiver<Q, A>,
    r: Result<Q, ReceiverSideError<A>>,
) -> bool {
    exists|ret: Result<(Q, oneshot::Sender<A>), std::sync::mpsc::TryRecvError>|
        {
            &&& #[trigger] question_sought(pre.line(), ret)
            &&& match ret {
                Ok((q, way)) => r == Ok::<Q, ReceiverSideError<A>>(q) && post.owes_by(way),
                Err(std::sync::mpsc::TryRecvError::Empty) => r == Err::<Q, ReceiverSideError<A>>(
                    ReceiverSideError::TryRecvErrorNotSentYet,
                ),
                Err(std::sync::mpsc::TryRecvError::Disconnected) => r == Err::<
                    Q,
                    ReceiverSideError<A>,
                >(ReceiverSideError::TryRecvErrorDisconnected),
            }
        }
}

/// The answer `t` was sent by the way on which it was owed. It succeeded just if the
/// sending did.
pub open spec fn answer_given<Q, A>(
    pre: Receiver<Q, A>,
    t: A,
    r: Result<(), ReceiverSideError<A>>,
) -> bool {
    exists|way: oneshot::Sender<A>, outcome: Result<(), A>|
        {
            &&& pre.owes_by(way)
            &&& #[trigger] message_sent(way, t, outcome)
            &&& r is Ok <==> outcome is Ok
        }
}

impl<Q, A> Receiver<Q, A> {
    /// A question was received and not answered.
    pub closed spec fn owes(self) -> bool {
        self.answer is Some
    }

    /// Where questions come from.
    pub closed spec fn line(self) -> std::sync::mpsc::Receiver<(Q, oneshot::Sender<A>)> {
        self.question
    }

    /// The answer is to go by `way`.
    pub closed spec fn owes_by(self, way: oneshot::Sender<A>) -> bool {
        self.answer == Some(way)
    }

    /// Takes what looking for a question gave.
    pub fn accept(
        &mut self,
        ret: Result<(Q, oneshot::Sender<A>), std::sync::mpsc::TryRecvError>,
    ) -> (r: Result<Q, ReceiverSideError<A>>)
        ensures
            match ret {
                Ok((q, way)) => {
                    &&& r == Ok::<Q, ReceiverSideError<A>>(q)
                    &&& final(self).owes_by(way)
                    &&& final(self).line() == old(self).line()
                },
                Err(std::sync::mpsc::TryRecvError::Empty) => {
                    &&& r == Err::<Q, ReceiverSideError<A>>(
                        ReceiverSideError::TryRecvErrorNotSentYet,
                    )
                    &&& *final(self) == *old(self)
                },
                Err(std::sync::mpsc::TryRecvError::Disconnected) => {
                    &&& r == Err::<Q, ReceiverSideError<A>>(
                        ReceiverSideError::TryRecvErrorDisconnected,
                    )
                    &&& *final(self) == *old(self)
                },
            },
    {
        match ret {
            Ok((q, way)) => {
                self.answer = Some(way);
                Ok(q)
            },
            Err(e) => Err(ReceiverSideError::from(e)),
        }
    }

    /// Looks for a question. An earlier one can no longer be answered then.
    pub fn try_recv(&mut self) -> (r: Result<Q, ReceiverSideError<A>>)
        ensures
            recv_step(*old(self), *final(self), r),
            question_looked_for(*old(self), *final(self), r),
    {
        let ret = self.question.try_recv();
        assert(question_sought(old(self).line(), ret));
        self.accept(ret)
    }

    /// What the sending of an answer comes to.
    pub fn replied(outcome: Result<(), A>) -> (r: Result<(), ReceiverSideError<A>>)
        ensures
            r == match outcome {
                Ok(()) => Ok::<(), ReceiverSideError<A>>(()),
                Err(a) => Err::<(), ReceiverSideError<A>>(ReceiverSideError::ReplyError(a)),
            },
    {
        match outcome {
            Ok(()) => Ok(()),
            Err(a) => Err(ReceiverSideError::ReplyError(a)),
        }
    }

    /// Answers the last question with `t`.
    pub fn reply(&mut self, t: A) -> (r: Result<(), ReceiverSideError<A>>)
        ensures
            reply_step(*old(self), t, *final(self), r),
            old(self).owes() ==> answer_given(*old(self), t, r),
    {
        match self.answer.take() {
            // Once used the way is of no more use, whether the answer could be sent
            // or nobody waits for it.
            Some(way) => {
                let ghost (to, answer) = (way, t);
                let outcome = oneshot_send(way, t);
                proof {
                    lemma_message_sent(to, answer, outcome);
                }
                Self::replied(outcome)
            },
            None => Err(ReceiverSideError::NotRecvedYet),
        }
    }
}

/// The two sides of a new channel.
pub fn channel<Q, A>() -> (sides: (Sender<Q, A>, Receiver<Q, A>))
    ensures
        !sides.0.waits(),
        !sides.1.owes(),
        call_ensures(
            std::sync::mpsc::channel::<(Q, oneshot::Sender<A>)>,
            (),
            (sides.0.line(), sides.1.line()),
        ),
{
    let (s, r) = std::sync::mpsc::channel();
    (Sender { question: s, answer: None }, Receiver { question: r, answer: None })
}

/// An answer is waited for at one way alone, and is waited for just if there is one.
pub proof fn law_waits_by_one_way<Q, A>(
    s: Sender<Q, A>,
    a: oneshot::Receiver<A>,
    b: oneshot::Receiver<A>,
)
    ensures
        s.waits_by(a) && s.waits_by(b) ==> a == b,
        s.waits() <==> exists|way: oneshot::Receiver<A>| #[trigger] s.waits_by(way),
{
    if s.waits() {
        assert(s.waits_by(s.answer->0));
    }
}

/// An answer is owed by one way alone, and is owed just if there is one.
pub proof fn law_owes_by_one_way<Q, A>(
    r: Receiver<Q, A>,
    a: oneshot::Sender<A>,
    b: oneshot::Sender<A>,
)
    ensures
        r.owes_by(a) && r.owes_by(b) ==> a == b,
        r.owes() <==> exists|way: oneshot::Sender<A>| #[trigger] r.owes_by(way),
{
    if r.owes() {
        assert(r.owes_by(r.answer->0));
    }
}

/// Once `t` was sent, its answer alone is waited for: that to an earlier question is
/// given up.
pub proof fn law_last_question_only<Q, A>(a: Sender<Q, A>, t: Q, b: Sender<Q, A>)
    requires
        question_asked(a, t, b, Ok::<(), SenderSideError<Q>>(())),
    ensures
        exists|s: oneshot::Sender<A>, way: oneshot::Receiver<A>|
            {
                &&& #[trigger] ends_of_way(s, way)
                &&& question_sent(a.line(), t, s, Ok(()))
                &&& forall|w: oneshot::Receiver<A>| #[trigger] b.waits_by(w) <==> w == way
            },
{
    let (s, way, outcome) = choose|
        s: oneshot::Sender<A>,
        way: oneshot::Receiver<A>,
        outcome: Result<(), std::sync::mpsc::SendError<(Q, oneshot::Sender<A>)>>,
    |
        {
            &&& #[trigger] ends_of_way(s, way)
            &&& #[trigger] question_sent(a.line(), t, s, outcome)
            &&& outcome is Ok
            &&& b.waits_by(way)
        };
    assert(ends_of_way(s, way));
    assert(outcome->Ok_0 == ());
}

/// Once the question `q` was received, an answer to it alone is owed: an earlier
/// question that was not answered is given up.
pub proof fn law_last_received_only<Q, A>(a: Receiver<Q, A>, b: Receiver<Q, A>, q: Q)
    requires
        question_looked_for(a, b, Ok::<Q, ReceiverSideError<A>>(q)),
    ensures
        exists|way: oneshot::Sender<A>|
            {
                &&& #[trigger] question_sought(a.line(), Ok((q, way)))
                &&& forall|w: oneshot::Sender<A>| #[trigger] b.owes_by(w) <==> w == way
            },
{
    let ret = choose|ret: Result<(Q, oneshot::Sender<A>), std::sync::mpsc::TryRecvError>|
        {
            &&& #[trigger] question_sought(a.line(), ret)
            &&& ret matches Ok((q2, way)) && q2 == q && b.owes_by(way)
        };
    assert(question_sought(a.line(), Ok((q, ret->Ok_0.1))));
}

/// After `t` was sent, an answer is looked for at the way whose other end went with
/// `t`, and what is found there is the result.
pub proof fn law_reply_to_last_question<Q, A>(
    a: Sender<Q, A>,
    t: Q,
    b: Sender<Q, A>,
    r: Result<A, SenderSideError<Q>>,
)
    requires
        question_asked(a, t, b, Ok::<(), SenderSideError<Q>>(())),
        reply_looked_for(b, r),
    ensures
        exists|
            s: oneshot::Sender<A>,
            way: oneshot::Receiver<A>,
            ret: Result<A, oneshot::TryRecvError>,
        |
            {
                &&& #[trigger] ends_of_way(s, way)
                &&& question_sent(a.line(), t, s, Ok(()))
                &&& #[trigger] answer_sought(way, ret)
                &&& r == reply_read::<Q, A>(ret)
            },
{
    law_last_question_only(a, t, b);
}

/// An answer that is had was given: it was sent by the end that went with the last
/// question.
pub proof fn law_reply_was_given<Q, A>(a: Sender<Q, A>, t: Q, b: Sender<Q, A>, x: A)
    requires
        question_asked(a, t, b, Ok::<(), SenderSideError<Q>>(())),
        reply_looked_for(b, Ok::<A, SenderSideError<Q>>(x)),
    ensures
        exists|s: oneshot::Sender<A>|
            {
                &&& #[trigger] question_sent(a.line(), t, s, Ok(()))
                &&& message_sent(s, x, Ok(()))
            },
{
    law_last_question_only(a, t, b);
}

/// After `q` was received, an answer `t` goes by the way that came with `q`.
pub proof fn law_answer_to_last_received<Q, A>(
    a: Receiver<Q, A>,
    b: Receiver<Q, A>,
    q: Q,
    t: A,
    r: Result<(), ReceiverSideError<A>>,
)
    requires
        question_looked_for(a, b, Ok::<Q, ReceiverSideError<A>>(q)),
        answer_given(b, t, r),
    ensures
        exists|way: oneshot::Sender<A>, outcome: Result<(), A>|
            {
                &&& #[trigger] question_sought(a.line(), Ok((q, way)))
                &&& #[trigger] message_sent(way, t, outcome)
                &&& r is Ok <==> outcome is Ok
            },
{
    law_last_received_only(a, b, q);
}

/// A question is answered at most once: a second answer is refused and changes
/// nothing.
pub proof fn law_one_answer<Q, A>(
    a: Receiver<Q, A>,
    b: Receiver<Q, A>,
    c: Receiver<Q, A>,
    first: A,
    second: A,
    r1: Result<(), ReceiverSideError<A>>,
    r2: Result<(), ReceiverSideError<A>>,
)
    requires
        reply_step(a, first, b, r1),
        reply_step(b, second, c, r2),
    ensures
        r2 == Err::<(), ReceiverSideError<A>>(ReceiverSideError::NotRecvedYet),
        c == b,
{
}

/// A question that was received can be answered: that it was not received is never
/// the error then.
pub proof fn law_received_can_be_answered<Q, A>(
    a: Receiver<Q, A>,
    b: Receiver<Q, A>,
    c: Receiver<Q, A>,
    q: Q,
    t: A,
    r: Result<(), ReceiverSideError<A>>,
)
    requires
        recv_step(a, b, Ok::<Q, ReceiverSideError<A>>(q)),
        reply_step(b, t, c, r),
    ensures
        r is Ok || r == Err::<(), ReceiverSideError<A>>(ReceiverSideError::ReplyError(t)),
{
}

/// Failing to receive leaves an earlier question as it was, to be answered still.
pub proof fn law_failed_receive_keeps<Q, A>(
    a: Receiver<Q, A>,
    b: Receiver<Q, A>,
    e: ReceiverSideError<A>,
)
    requires
        recv_step(a, b, Err::<Q, ReceiverSideError<A>>(e)),
    ensures
        b == a,
{
}

/// An answer is had at most once: after it, and after the loss of it, nothing is
/// waited for.
pub proof fn law_one_reply<Q, A>(
    a: Sender<Q, A>,
    b: Sender<Q, A>,
    c: Sender<Q, A>,
    r1: Result<A, SenderSideError<Q>>,
    r2: Result<A, SenderSideError<Q>>,
)
    requires
        get_reply_step(a, b, r1),
        get_reply_step(b, c, r2),
        r1 is Ok || r1 == Err::<A, SenderSideError<Q>>(SenderSideError::GetReplyErrorDisconnected),
    ensures
        r2 == Err::<A, SenderSideError<Q>>(SenderSideError::GetReplyErrorNotSentYet),
        c == b,
{
}

/// One may look for an answer as often as one likes: that there is none yet changes
/// nothing.
pub proof fn law_look_again<Q, A>(a: Sender<Q, A>, b: Sender<Q, A>)
    requires
        get_reply_step(
            a,
            b,
            Err::<A, SenderSideError<Q>>(SenderSideError::GetReplyErrorNotRepliedYet),
        ),
    ensures
        b == a,
        a.waits(),
{
}

/// After a question was sent, that none was sent is never the error.
pub proof fn law_sent_is_waited_for<Q, A>(
    a: Sender<Q, A>,
    b: Sender<Q, A>,
    c: Sender<Q, A>,
    t: Q,
    r: Result<A, SenderSideError<Q>>,
)
    requires
        send_step(a, t, b, Ok::<(), SenderSideError<Q>>(())),
        get_reply_step(b, c, r),
    ensures
        r != Err::<A, SenderSideError<Q>>(SenderSideError::GetReplyErrorNotSentYet),
{
}

/// A question that could not be sent comes back whole, and what was waited for
/// before still is.
pub proof fn law_failed_send_keeps<Q, A>(
    a: Sender<Q, A>,
    b: Sender<Q, A>,
    t: Q,
    e: SenderSideError<Q>,
)
    requires
        send_step(a, t, b, Err::<(), SenderSideError<Q>>(e)),
    ensures
        e == SenderSideError::SendError(t),
        b == a,
{
}

/// What can be said of an error is its name, with the question in brackets where one
/// came back.
pub proof fn law_error_in_words<Q>(e: SenderSideError<Q>, question: &str, t: String)
    requires
        call_ensures(SenderSideError::<Q>::fmt, (&e, question), t),
    ensures
        e is SendError ==> t@ == "SendError("@ + question@ + ")"@,
        e is GetReplyErrorNotSentYet ==> t@ == "GetReplyErrorNotSentYet"@,
        e is GetReplyErrorNotRepliedYet ==> t@ == "GetReplyErrorNotRepliedYet"@,
        e is GetReplyErrorDisconnected ==> t@ == "GetReplyErrorDisconnected"@,
{
}

/// An answer that is there is what is had. That there is none yet is told apart from
/// that none will come.
pub proof fn law_reply_read<Q, A>(ret: Result<A, oneshot::TryRecvError>)
    ensures
        ret matches Ok(a) ==> reply_read::<Q, A>(ret) == Ok::<A, SenderSideError<Q>>(a),
        ret is Err && ret->Err_0 is Empty <==> reply_read::<Q, A>(ret) == Err::<
            A,
            SenderSideError<Q>,
        >(SenderSideError::GetReplyErrorNotRepliedYet),
        ret is Err && ret->Err_0 is Disconnected <==> reply_read::<Q, A>(ret) == Err::<
            A,
            SenderSideError<Q>,
        >(SenderSideError::GetReplyErrorDisconnected),
{
}

/// What came of looking is told apart in errors: nothing yet, and nothing to come.
pub proof fn law_errors_told_apart<Q, A>(e: oneshot::TryRecvError, f: std::sync::mpsc::TryRecvError)
    ensures
        e is Empty ==> <SenderSideError<Q> as vstd::std_specs::convert::FromSpec<
            oneshot::TryRecvError,
        >>::from_spec(e) == SenderSideError::<Q>::GetReplyErrorNotRepliedYet,
        e is Disconnected ==> <SenderSideError<Q> as vstd::std_specs::convert::FromSpec<
            oneshot::TryRecvError,
        >>::from_spec(e) == SenderSideError::<Q>::GetReplyErrorDisconnected,
        f is Empty ==> <ReceiverSideError<A> as vstd::std_specs::convert::FromSpec<
            std::sync::mpsc::TryRecvError,
        >>::from_spec(f) == ReceiverSideError::<A>::TryRecvErrorNotSentYet,
        f is Disconnected ==> <ReceiverSideError<A> as vstd::std_specs::convert::FromSpec<
            std::sync::mpsc::TryRecvError,
        >>::from_spec(f) == ReceiverSideError::<A>::TryRecvErrorDisconnected,
{
}

/// A question is had just as it came, and its answer is owed by the way that came with
/// it. That there is none yet is told apart from that none will come.
pub proof fn law_question_read<Q, A>(
    a: Receiver<Q, A>,
    b: Receiver<Q, A>,
    r: Result<Q, ReceiverSideError<A>>,
)
    requires
        question_looked_for(a, b, r),
    ensures
        exists|ret: Result<(Q, oneshot::Sender<A>), std::sync::mpsc::TryRecvError>|
            {
                &&& #[trigger] question_sought(a.line(), ret)
                &&& ret matches Ok(x) ==> r == Ok::<Q, ReceiverSideError<A>>(x.0) && b.owes_by(x.1)
                &&& ret is Err && ret->Err_0 is Empty ==> r == Err::<Q, ReceiverSideError<A>>(
                    ReceiverSideError::TryRecvErrorNotSentYet,
                )
                &&& ret is Err && ret->Err_0 is Disconnected ==> r == Err::<
                    Q,
                    ReceiverSideError<A>,
                >(ReceiverSideError::TryRecvErrorDisconnected)
            },
{
}

/// Where nothing was asked, that is the error, and where nothing was received, that.
/// Neither changes anything.
pub proof fn law_nothing_pending<Q, A>(
    a: Sender<Q, A>,
    b: Sender<Q, A>,
    r: Result<A, SenderSideError<Q>>,
    c: Receiver<Q, A>,
    t: A,
    d: Receiver<Q, A>,
    q: Result<(), ReceiverSideError<A>>,
)
    requires
        get_reply_step(a, b, r),
        reply_step(c, t, d, q),
    ensures
        !a.waits() ==> r == Err::<A, SenderSideError<Q>>(SenderSideError::GetReplyErrorNotSentYet)
            && b == a,
        !c.owes() ==> q == Err::<(), ReceiverSideError<A>>(ReceiverSideError::NotRecvedYet) && d
            == c,
        a.waits() ==> r != Err::<A, SenderSideError<Q>>(SenderSideError::GetReplyErrorNotSentYet),
        c.owes() ==> q != Err::<(), ReceiverSideError<A>>(ReceiverSideError::NotRecvedYet),
{
}

/// Every operation leaves the line as it is.
pub proof fn law_line_stays<Q, A>(
    a: Sender<Q, A>,
    t: Q,
    b: Sender<Q, A>,
    r: Result<(), SenderSideError<Q>>,
    c: Sender<Q, A>,
    x: Result<A, SenderSideError<Q>>,
)
    requires
        send_step(a, t, b, r),
        get_reply_step(b, c, x),
    ensures
        b.line() == a.line(),
        c.line() == a.line(),
{
}

/// Every operation of the answering side leaves the line as it is.
pub proof fn law_questions_line_stays<Q, A>(
    a: Receiver<Q, A>,
    b: Receiver<Q, A>,
    q: Result<Q, ReceiverSideError<A>>,
    t: A,
    c: Receiver<Q, A>,
    r: Result<(), ReceiverSideError<A>>,
)
    requires
        recv_step(a, b, q),
        reply_step(b, t, c, r),
    ensures
        b.line() == a.line(),
        c.line() == a.line(),
{
}

/// The two sides of a new channel are joined, and nothing is pending on either.
pub proof fn law_new_channel<Q, A>(sides: (Sender<Q, A>, Receiver<Q, A>))
    requires
        call_ensures(channel::<Q, A>, (), sides),
    ensures
        !sides.0.waits(),
        !sides.1.owes(),
        call_ensures(
            std::sync::mpsc::channel::<(Q, oneshot::Sender<A>)>,
            (),
            (sides.0.line(), sides.1.line()),
        ),
{
}

/// An answer that could not be sent comes back, and is the error.
pub proof fn law_replied<Q, A>(outcome: Result<(), A>, r: Result<(), ReceiverSideError<A>>)
    requires
        call_ensures(Receiver::<Q, A>::replied, (outcome,), r),
    ensures
        outcome is Ok <==> r is Ok,
        outcome matches Err(a) ==> r == Err::<(), ReceiverSideError<A>>(
            ReceiverSideError::ReplyError(a),
        ),
{
}

/// What is said of the sending of a question, and of looking for it and for its answer,
/// is said of the calls on the channels themselves.
pub proof fn law_calls_on_channels<Q, A>(
    s: oneshot::Sender<A>,
    way: oneshot::Receiver<A>,
    line: std::sync::mpsc::Sender<(Q, oneshot::Sender<A>)>,
    t: Q,
    outcome: Result<(), std::sync::mpsc::SendError<(Q, oneshot::Sender<A>)>>,
    a: Result<A, oneshot::TryRecvError>,
    from: std::sync::mpsc::Receiver<(Q, oneshot::Sender<A>)>,
    q: Result<(Q, oneshot::Sender<A>), std::sync::mpsc::TryRecvError>,
)
    ensures
        ends_of_way(s, way) <==> call_ensures(oneshot::channel::<A>, (), (s, way)),
        question_sent(line, t, s, outcome) <==> call_ensures(
            std::sync::mpsc::Sender::<(Q, oneshot::Sender<A>)>::send,
            (&line, (t, s)),
            outcome,
        ),
        answer_sought(way, a) <==> call_ensures(oneshot::Receiver::<A>::try_recv, (&way,), a),
        question_sought(from, q) <==> call_ensures(
            std::sync::mpsc::Receiver::<(Q, oneshot::Sender<A>)>::try_recv,
            (&from,),
            q,
        ),
{
}

/// What was asked is sent, whatever was asked before, and what comes of the sending is
/// the result.
pub proof fn law_send<Q, A>(s: &mut Sender<Q, A>, t: Q, r: Result<(), SenderSideError<Q>>)
    requires
        call_ensures(Sender::<Q, A>::send, (s, t), r),
    ensures
        question_asked(*old(s), t, *final(s), r),
        r is Ok ==> final(s).waits(),
        r matches Err(e) ==> e == SenderSideError::SendError(t) && *final(s) == *old(s),
{
}

/// Whatever is waited for is looked for, and what is found is the result.
pub proof fn law_try_get_reply<Q, A>(s: &mut Sender<Q, A>, r: Result<A, SenderSideError<Q>>)
    requires
        call_ensures(Sender::<Q, A>::try_get_reply, (s,), r),
    ensures
        !old(s).waits() <==> r == Err::<A, SenderSideError<Q>>(
            SenderSideError::GetReplyErrorNotSentYet,
        ),
        old(s).waits() ==> reply_looked_for(*old(s), r),
        r is Ok ==> !final(s).waits(),
{
}

/// A question is looked for, whatever was received before, and what is found is the
/// result.
pub proof fn law_try_recv<Q, A>(s: &mut Receiver<Q, A>, r: Result<Q, ReceiverSideError<A>>)
    requires
        call_ensures(Receiver::<Q, A>::try_recv, (s,), r),
    ensures
        question_looked_for(*old(s), *final(s), r),
        r is Ok ==> final(s).owes(),
        r is Err ==> *final(s) == *old(s),
{
}

/// Whatever is owed is answered, and is then no longer owed.
pub proof fn law_reply<Q, A>(s: &mut Receiver<Q, A>, t: A, r: Result<(), ReceiverSideError<A>>)
    requires
        call_ensures(Receiver::<Q, A>::reply, (s, t), r),
    ensures
        !old(s).owes() <==> r == Err::<(), ReceiverSideError<A>>(ReceiverSideError::NotRecvedYet),
        old(s).owes() ==> answer_given(*old(s), t, r),
        old(s).owes() && r is Err ==> r == Err::<(), ReceiverSideError<A>>(
            ReceiverSideError::ReplyError(t),
        ),
        !final(s).owes(),
{
}

} // verus!
