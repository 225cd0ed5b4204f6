use cross_device_link::cdl_msg::{
    add_answer, add_by, add_request, del_answer, del_by, del_request, list_answer, list_by, CdlMsg,
    Server,
};
use cross_device_link::path::FilePath;
use cross_device_link::types::{FromTo, InotifyActions, InotifyResults, Record, SuccOrFail};
use std::sync::mpsc;

fn pair(from: &str, to: &str) -> FromTo<FilePath> {
    FromTo { from: FilePath::new(from), to: FilePath::new(to) }
}

/// Serves one request with `reply`, or drops it, and gives what was asked for and
/// what the client got.
fn served<T: Send + 'static>(
    reply: Option<InotifyResults>,
    client: fn(Server) -> T,
) -> (InotifyActions, T) {
    let (tx, rx) = mpsc::channel::<(InotifyActions, mpsc::Sender<InotifyResults>)>();
    let rt = tokio::runtime::Runtime::new().unwrap();
    let asked = rt.spawn_blocking(move || {
        let (action, way) = rx.recv().unwrap();
        if let Some(r) = reply {
            way.send(r).unwrap();
        }
        action
    });
    let got = client(Server { inotify_request: tx });
    (rt.block_on(asked).unwrap(), got)
}

#[test]
fn an_addition_is_asked_for_and_answered() {
    let client =
        |s: Server| s.add(FilePath::new("/a"), FilePath::new("/b"), 1000, 100);
    let (asked, got) = served(Some(InotifyResults::Add(Ok(()))), client);
    assert_eq!(got, Ok(()));
    match asked {
        InotifyActions::Add(r) => {
            assert_eq!(r, Record { src_dst: pair("/a", "/b"), user: 1000, group: 100 })
        }
        _ => panic!("another request"),
    }
    let (_, got) = served(Some(InotifyResults::Add(Err("no".to_string()))), client);
    assert_eq!(got, Err("no".to_string()));
}

#[test]
fn a_list_is_asked_for_and_answered() {
    let client = |s: Server| s.list(1000);
    let records = vec![Record { src_dst: pair("/a", "/b"), user: 1, group: 2 }];
    let (asked, got) = served(Some(InotifyResults::List(records)), client);
    assert!(matches!(asked, InotifyActions::List));
    assert_eq!(got, Ok(vec![pair("/a", "/b")]));
}

#[test]
fn a_deletion_is_asked_for_and_answered() {
    let client = |s: Server| s.del(Some(FilePath::new("/a")), None, 1000);
    let done = vec![SuccOrFail::Succ(pair("/a", "/b"))];
    let (asked, got) = served(Some(InotifyResults::Del(Ok(done))), client);
    match asked {
        InotifyActions::Del(wanted, me) => {
            assert_eq!(wanted.from, Some(FilePath::new("/a")));
            assert_eq!(wanted.to, None);
            assert_eq!(me, 1000);
        }
        _ => panic!("another request"),
    }
    assert_eq!(got, Ok(vec![SuccOrFail::Succ(pair("/a", "/b"))]));
}

#[test]
fn a_request_that_is_dropped() {
    let (_, got) = served(None, |s: Server| s.list(1));
    assert_eq!(got, Err("receiving on a closed channel".to_string()));
    assert_eq!(mpsc::RecvError.to_string(), "receiving on a closed channel");
}

#[test]
fn nobody_takes_requests() {
    let (tx, rx) = mpsc::channel();
    drop(rx);
    let server = Server { inotify_request: tx };
    assert_eq!(server.clone().list(1), Err("sending on a closed channel".to_string()));
    assert_eq!(server.del(None, None, 1), Err("sending on a closed channel".to_string()));
    assert_eq!(mpsc::SendError(1).to_string(), "sending on a closed channel");
}

#[test]
fn what_is_asked_for() {
    assert!(matches!(
        add_request(FilePath::new("/a"), FilePath::new("/b"), 1, 2),
        InotifyActions::Add(r) if r == Record { src_dst: pair("/a", "/b"), user: 1, group: 2 }
    ));
    assert!(matches!(
        del_request(None, Some(FilePath::new("/b")), 3),
        InotifyActions::Del(FromTo { from: None, to: Some(p) }, 3) if p.text == "/b"
    ));
}

#[test]
fn replies_about_something_else() {
    assert_eq!(add_answer(Ok(InotifyResults::List(vec![]))), Ok(()));
    assert_eq!(list_answer(Ok(InotifyResults::Add(Ok(())))), Ok(vec![]));
    assert_eq!(del_answer(Ok(InotifyResults::Add(Err("x".to_string())))), Ok(vec![]));
    assert_eq!(del_answer(Ok(InotifyResults::Del(Err("x".to_string())))), Err("x".to_string()));
    assert_eq!(add_answer(Err("closed".to_string())), Err("closed".to_string()));
}

#[test]
fn the_request_is_what_is_handed_over() {
    let r = add_by(
        |a| match a {
            InotifyActions::Add(r) => Err(r.src_dst.to.text),
            _ => panic!("another request"),
        },
        FilePath::new("/a"),
        FilePath::new("/b"),
        1,
        2,
    );
    assert_eq!(r, Err("/b".to_string()));
    let r = list_by(|a| match a {
        InotifyActions::List => Err("listed".to_string()),
        _ => panic!("another request"),
    });
    assert_eq!(r, Err("listed".to_string()));
    let r = del_by(
        |a| match a {
            InotifyActions::Del(wanted, me) => {
                assert!(wanted.from.is_none() && wanted.to.is_none());
                Err(me.to_string())
            }
            _ => panic!("another request"),
        },
        None,
        None,
        5,
    );
    assert_eq!(r, Err("5".to_string()));
}

#[test]
fn one_request_is_made() {
    let words = "only once".to_string();
    assert_eq!(list_by(move |_| Err(words)), Err("only once".to_string()));
}
