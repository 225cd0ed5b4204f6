use cross_device_link::reply::{channel, Receiver, ReceiverSideError, Sender, SenderSideError};

fn ends() -> (Sender<u32, String>, Receiver<u32, String>) {
    channel()
}

#[test]
fn a_question_is_answered() {
    let (mut s, mut r) = ends();
    assert!(matches!(s.send(7), Ok(())));
    assert!(matches!(r.try_recv(), Ok(7)));
    assert!(matches!(r.reply("seven".to_string()), Ok(())));
    match s.try_get_reply() {
        Ok(a) => assert_eq!(a, "seven"),
        Err(_) => panic!("no answer"),
    }
}

#[test]
fn questions_are_answered_in_turn() {
    let (mut s, mut r) = ends();
    for n in [1, 2, 3] {
        assert!(matches!(s.send(n), Ok(())));
        match r.try_recv() {
            Ok(q) => assert_eq!(q, n),
            Err(_) => panic!("no question"),
        }
        assert!(matches!(r.reply(n.to_string()), Ok(())));
        match s.try_get_reply() {
            Ok(a) => assert_eq!(a, n.to_string()),
            Err(_) => panic!("no answer"),
        }
    }
}

#[test]
fn no_answer_without_a_question() {
    let (mut s, _r) = ends();
    assert!(matches!(s.try_get_reply(), Err(SenderSideError::GetReplyErrorNotSentYet)));
}

#[test]
fn an_answer_is_had_once() {
    let (mut s, mut r) = ends();
    assert!(matches!(s.send(1), Ok(())));
    assert!(matches!(r.try_recv(), Ok(1)));
    assert!(matches!(r.reply(String::new()), Ok(())));
    assert!(matches!(s.try_get_reply(), Ok(_)));
    assert!(matches!(s.try_get_reply(), Err(SenderSideError::GetReplyErrorNotSentYet)));
}

#[test]
fn one_may_look_again() {
    let (mut s, mut r) = ends();
    assert!(matches!(s.send(1), Ok(())));
    assert!(matches!(s.try_get_reply(), Err(SenderSideError::GetReplyErrorNotRepliedYet)));
    assert!(matches!(r.try_recv(), Ok(1)));
    assert!(matches!(s.try_get_reply(), Err(SenderSideError::GetReplyErrorNotRepliedYet)));
    assert!(matches!(r.reply("late".to_string()), Ok(())));
    assert!(matches!(s.try_get_reply(), Ok(a) if a == "late"));
}

#[test]
fn an_answer_can_be_lost() {
    let (mut s, mut r) = ends();
    assert!(matches!(s.send(1), Ok(())));
    assert!(matches!(s.send(2), Ok(())));
    assert!(matches!(r.try_recv(), Ok(1)));
    // Taking the next question gives the first one up.
    assert!(matches!(r.try_recv(), Ok(2)));
    drop(r);
    assert!(matches!(s.try_get_reply(), Err(SenderSideError::GetReplyErrorDisconnected)));
    assert!(matches!(s.try_get_reply(), Err(SenderSideError::GetReplyErrorNotSentYet)));
}

#[test]
fn a_question_that_nobody_takes_comes_back() {
    let (mut s, r) = ends();
    drop(r);
    assert!(matches!(s.send(9), Err(SenderSideError::SendError(9))));
    assert!(matches!(s.try_get_reply(), Err(SenderSideError::GetReplyErrorNotSentYet)));
}

#[test]
fn no_question_yet_and_no_more() {
    let (s, mut r) = ends();
    assert!(matches!(r.try_recv(), Err(ReceiverSideError::TryRecvErrorNotSentYet)));
    drop(s);
    assert!(matches!(r.try_recv(), Err(ReceiverSideError::TryRecvErrorDisconnected)));
}

#[test]
fn a_question_is_answered_once() {
    let (mut s, mut r) = ends();
    assert!(matches!(r.reply(String::new()), Err(ReceiverSideError::NotRecvedYet)));
    assert!(matches!(s.send(1), Ok(())));
    assert!(matches!(r.reply(String::new()), Err(ReceiverSideError::NotRecvedYet)));
    assert!(matches!(r.try_recv(), Ok(1)));
    assert!(matches!(r.reply("a".to_string()), Ok(())));
    assert!(matches!(r.reply("b".to_string()), Err(ReceiverSideError::NotRecvedYet)));
    assert!(matches!(s.try_get_reply(), Ok(a) if a == "a"));
}

#[test]
fn an_answer_that_nobody_waits_for_comes_back() {
    let (mut s, mut r) = ends();
    assert!(matches!(s.send(1), Ok(())));
    assert!(matches!(r.try_recv(), Ok(1)));
    drop(s);
    match r.reply("alone".to_string()) {
        Err(ReceiverSideError::ReplyError(a)) => assert_eq!(a, "alone"),
        _ => panic!("somebody waited"),
    }
    assert!(matches!(r.reply(String::new()), Err(ReceiverSideError::NotRecvedYet)));
}

#[test]
fn only_the_answer_to_the_last_question_is_waited_for() {
    let (mut s, mut r) = ends();
    assert!(matches!(s.send(1), Ok(())));
    assert!(matches!(r.try_recv(), Ok(1)));
    assert!(matches!(s.send(2), Ok(())));
    assert!(matches!(
        r.reply("one".to_string()),
        Err(ReceiverSideError::ReplyError(a)) if a == "one"
    ));
    assert!(matches!(s.try_get_reply(), Err(SenderSideError::GetReplyErrorNotRepliedYet)));
    assert!(matches!(r.try_recv(), Ok(2)));
    assert!(matches!(r.reply("two".to_string()), Ok(())));
    assert!(matches!(s.try_get_reply(), Ok(a) if a == "two"));
}

#[test]
fn only_the_last_question_received_is_answered() {
    let (mut s, mut r) = ends();
    assert!(matches!(s.send(1), Ok(())));
    assert!(matches!(s.send(2), Ok(())));
    assert!(matches!(r.try_recv(), Ok(1)));
    assert!(matches!(r.try_recv(), Ok(2)));
    assert!(matches!(r.reply("two".to_string()), Ok(())));
    assert!(matches!(r.reply("one".to_string()), Err(ReceiverSideError::NotRecvedYet)));
    assert!(matches!(s.try_get_reply(), Ok(a) if a == "two"));
}

#[test]
fn a_failed_receive_keeps_the_question() {
    let (mut s, mut r) = ends();
    assert!(matches!(s.send(1), Ok(())));
    assert!(matches!(r.try_recv(), Ok(1)));
    assert!(matches!(r.try_recv(), Err(ReceiverSideError::TryRecvErrorNotSentYet)));
    assert!(matches!(r.reply("still".to_string()), Ok(())));
    assert!(matches!(s.try_get_reply(), Ok(a) if a == "still"));
}

#[test]
fn what_comes_back_is_told_apart() {
    let (mut s, mut r) = ends();
    assert!(matches!(s.settle(Ok("x".to_string())), Ok(a) if a == "x"));
    assert!(matches!(
        s.settle(Err(oneshot::TryRecvError::Empty)),
        Err(SenderSideError::GetReplyErrorNotRepliedYet)
    ));
    assert!(matches!(
        s.settle(Err(oneshot::TryRecvError::Disconnected)),
        Err(SenderSideError::GetReplyErrorDisconnected)
    ));
    assert!(matches!(
        r.accept(Err(std::sync::mpsc::TryRecvError::Empty)),
        Err(ReceiverSideError::TryRecvErrorNotSentYet)
    ));
    let (way, answer) = oneshot::channel();
    assert!(matches!(r.accept(Ok((5, way))), Ok(5)));
    assert!(matches!(r.reply("five".to_string()), Ok(())));
    assert_eq!(answer.try_recv(), Ok("five".to_string()));
    assert!(matches!(Receiver::<u32, u8>::replied(Ok(())), Ok(())));
    assert!(matches!(
        Receiver::<u32, u8>::replied(Err(3)),
        Err(ReceiverSideError::ReplyError(3))
    ));
}

#[test]
fn errors_in_words() {
    let e: SenderSideError<u32> = SenderSideError::SendError(9);
    assert_eq!(e.fmt("9"), format!("{e:?}"));
    let e: SenderSideError<u32> = SenderSideError::GetReplyErrorNotSentYet;
    assert_eq!(e.fmt(""), format!("{e:?}"));
    let e: SenderSideError<u32> = SenderSideError::from(oneshot::TryRecvError::Empty);
    assert_eq!(e.fmt(""), "GetReplyErrorNotRepliedYet");
    let e: SenderSideError<u32> = SenderSideError::from(oneshot::TryRecvError::Disconnected);
    assert_eq!(e.fmt(""), "GetReplyErrorDisconnected");
}
