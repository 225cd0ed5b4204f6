use cross_device_link::path::FilePath;
use cross_device_link::records::Records;
use cross_device_link::types::{
    FromTo, InotifyActions, InotifyResults, LoopCtrl, Record, SuccOrFail,
};
use cross_device_link::watching::{
    begin_action, begin_event, begin_round, next_event, take_request, ActionStep, Ending,
    EventStep, EventsRead, RoundStep, UnwatchStep, WatchStep,
};

const SRC: u32 = 0xd02;
const DST: u32 = 0xc02;

fn record(from: &str, to: &str, user: u32) -> Record {
    Record {
        src_dst: FromTo { from: FilePath::new(from), to: FilePath::new(to) },
        user,
        group: 100,
    }
}

fn shown(records: &Records) -> Vec<(String, String, u32)> {
    records
        .keys()
        .into_iter()
        .map(|r| (r.src_dst.from.text, r.src_dst.to.text, r.user))
        .collect()
}

fn pair(from: &str, to: &str, user: u32) -> (String, String, u32) {
    (from.to_string(), to.to_string(), user)
}

fn del(from: Option<&str>, to: Option<&str>, me: u32) -> InotifyActions {
    InotifyActions::Del(FromTo { from: from.map(FilePath::new), to: to.map(FilePath::new) }, me)
}

/// Does what a request asks for; every watch is stopped but those in `stuck`.
fn finish(records: &mut Records, mut step: ActionStep, stuck: &[i32]) -> (InotifyResults, Ending) {
    let mut next_id = 100;
    loop {
        step = match step {
            ActionStep::Copy(c) => c.copied(Ok(true)),
            ActionStep::Watch(w) => {
                next_id += 1;
                w.watched(records, Ok(next_id))
            }
            ActionStep::Unwatch(u) => {
                let outcome = if stuck.contains(&u.watch()) {
                    Err("gone".to_string())
                } else {
                    Ok(())
                };
                u.unwatched(records, outcome)
            }
            ActionStep::Finished { results, ending } => return (results, ending),
        };
    }
}

fn three() -> Records {
    let mut records = Records::new();
    records.insert(record("/a", "/x/a", 1), FromTo { from: 1, to: 2 });
    records.insert(record("/b", "/x/b", 2), FromTo { from: 3, to: 4 });
    records.insert(record("/c", "/x/c", 1), FromTo { from: 5, to: 6 });
    records
}

#[test]
fn an_addition_copies_then_watches() {
    let mut records = Records::new();
    let action = InotifyActions::Add(record("/a", "/x/a", 1000));
    let step = begin_action(&mut records, &action);
    let step = match step {
        ActionStep::Copy(c) => {
            let line = c.command();
            assert_eq!(line.program, "cp");
            assert_eq!(line.user, 1000);
            assert_eq!(line.group, 100);
            assert_eq!(line.args, ["-f", "/a", "/x/a"]);
            c.copied(Ok(true))
        }
        _ => panic!("no copy"),
    };
    assert!(records.keys().is_empty());
    let step = match step {
        ActionStep::Watch(w) => {
            assert!(matches!(w, WatchStep::Source(_)));
            assert_eq!(w.request().path.text, "/a");
            assert_eq!(w.request().mask, SRC);
            w.watched(&mut records, Ok(5))
        }
        _ => panic!("no watch"),
    };
    assert!(records.keys().is_empty());
    let step = match step {
        ActionStep::Watch(w) => {
            assert!(matches!(w, WatchStep::Target(_, 5)));
            assert_eq!(w.request().path.text, "/x/a");
            assert_eq!(w.request().mask, DST);
            w.watched(&mut records, Ok(6))
        }
        _ => panic!("no watch"),
    };
    assert!(matches!(
        step,
        ActionStep::Finished { results: InotifyResults::Add(Ok(())), ending: Ending::Answer }
    ));
    let e = records.take_watched(6).unwrap();
    assert_eq!(e.record, record("/a", "/x/a", 1000));
    assert_eq!(e.watches, FromTo { from: 5, to: 6 });
}

#[test]
fn a_failed_addition_changes_nothing() {
    let words = |step: ActionStep| match step {
        ActionStep::Finished { results: InotifyResults::Add(Err(e)), ending: Ending::Answer } => e,
        _ => panic!("no failure"),
    };
    let mut records = three();
    let before = shown(&records);
    let action = InotifyActions::Add(record("/d", "/x/d", 7));
    for n in 0..4 {
        let step = match begin_action(&mut records, &action) {
            ActionStep::Copy(c) => match n {
                0 => c.copied(Ok(false)),
                1 => c.copied(Err("no cp".to_string())),
                _ => c.copied(Ok(true)),
            },
            _ => panic!("no copy"),
        };
        if n == 0 {
            assert_eq!(words(step), "Failed sync from /d to /x/d as 7");
        } else if n == 1 {
            assert_eq!(words(step), "no cp");
        } else {
            let step = match step {
                ActionStep::Watch(w) if n == 2 => w.watched(&mut records, Err("full".to_string())),
                ActionStep::Watch(w) => match w.watched(&mut records, Ok(9)) {
                    ActionStep::Watch(w) => w.watched(&mut records, Err("full".to_string())),
                    _ => panic!("no watch"),
                },
                _ => panic!("no watch"),
            };
            assert_eq!(words(step), "full");
        }
        assert_eq!(shown(&records), before);
    }
}

#[test]
fn adding_again_replaces_the_watches() {
    let mut records = three();
    let step = begin_action(&mut records, &InotifyActions::Add(record("//b", "/x/./b", 2)));
    let (results, _) = finish(&mut records, step, &[]);
    assert!(matches!(results, InotifyResults::Add(Ok(()))));
    // The record keeps its place and its writing.
    assert_eq!(
        shown(&records),
        [pair("/a", "/x/a", 1), pair("/b", "/x/b", 2), pair("/c", "/x/c", 1)]
    );
    assert!(records.take_watched(3).is_none());
    assert_eq!(records.take_watched(101).unwrap().watches, FromTo { from: 101, to: 102 });
}

#[test]
fn records_of_another_user_or_group_are_others() {
    let mut records = Records::new();
    records.insert(record("/a", "/b", 1), FromTo { from: 1, to: 2 });
    records.insert(record("/a", "/b", 2), FromTo { from: 3, to: 4 });
    let mut r = record("/a", "/b", 1);
    r.group = 101;
    records.insert(r, FromTo { from: 5, to: 6 });
    assert_eq!(records.keys().len(), 3);
}

#[test]
fn a_deletion_by_source_or_target() {
    let mut records = three();
    let step = begin_action(&mut records, &del(Some("/a/"), Some("/x//c"), 1));
    assert_eq!(shown(&records), [pair("/b", "/x/b", 2)]);
    match &step {
        ActionStep::Unwatch(u) => {
            assert!(matches!(u, UnwatchStep::Source { .. }));
            assert_eq!(u.watch(), 1);
        }
        _ => panic!("no watch to stop"),
    }
    let (results, ending) = finish(&mut records, step, &[]);
    assert_eq!(ending, Ending::Answer);
    match results {
        InotifyResults::Del(Ok(v)) => assert_eq!(
            v,
            [
                SuccOrFail::Succ(FromTo {
                    from: FilePath::new("/a"),
                    to: FilePath::new("/x/a")
                }),
                SuccOrFail::Succ(FromTo {
                    from: FilePath::new("/c"),
                    to: FilePath::new("/x/c")
                }),
            ]
        ),
        _ => panic!("no answer"),
    }
    assert_eq!(shown(&records), [pair("/b", "/x/b", 2)]);
}

#[test]
fn a_deletion_stops_the_source_then_the_target() {
    let mut records = three();
    let step = begin_action(&mut records, &del(None, Some("/x/b"), 2));
    let step = match step {
        ActionStep::Unwatch(u) => {
            assert_eq!(u.watch(), 3);
            u.unwatched(&mut records, Err("x".to_string()))
        }
        _ => panic!("no watch to stop"),
    };
    let step = match step {
        ActionStep::Unwatch(u) => {
            assert!(matches!(u, UnwatchStep::Target { .. }));
            assert_eq!(u.watch(), 4);
            u.unwatched(&mut records, Ok(()))
        }
        _ => panic!("no watch to stop"),
    };
    match step {
        ActionStep::Finished { results: InotifyResults::Del(Ok(v)), .. } => match &v[0] {
            SuccOrFail::Fail { error, .. } => assert_eq!(error, "From Err(x), To Ok(())"),
            _ => panic!("no failure"),
        },
        _ => panic!("no answer"),
    }
}

#[test]
fn what_could_not_be_stopped_comes_back() {
    let mut records = three();
    let step = begin_action(&mut records, &del(Some("/a"), Some("/x/c"), 1));
    let (results, _) = finish(&mut records, step, &[2]);
    match results {
        InotifyResults::Del(Ok(v)) => {
            assert_eq!(v.len(), 2);
            match &v[0] {
                SuccOrFail::Fail { filenames, error } => {
                    assert_eq!(filenames.from.text, "/a");
                    assert_eq!(error, "From Ok(()), To Err(gone)");
                }
                _ => panic!("no failure"),
            }
            assert!(matches!(&v[1], SuccOrFail::Succ(f) if f.from.text == "/c"));
        }
        _ => panic!("no answer"),
    }
    assert_eq!(shown(&records), [pair("/b", "/x/b", 2), pair("/a", "/x/a", 1)]);
    assert_eq!(records.take_watched(2).unwrap().watches, FromTo { from: 1, to: 2 });
}

#[test]
fn a_deletion_spares_other_users() {
    let mut records = three();
    let step = begin_action(&mut records, &del(Some("/b"), Some("/x/b"), 1));
    let (results, _) = finish(&mut records, step, &[]);
    assert!(matches!(results, InotifyResults::Del(Ok(v)) if v.is_empty()));
    assert_eq!(records.keys().len(), 3);
}

#[test]
fn a_deletion_of_nothing() {
    let mut records = three();
    let step = begin_action(&mut records, &del(None, None, 1));
    let (results, ending) = finish(&mut records, step, &[]);
    assert!(matches!(results, InotifyResults::Del(Ok(v)) if v.is_empty()));
    assert_eq!(ending, Ending::Answer);
    assert_eq!(records.keys().len(), 3);
}

#[test]
fn a_deletion_undoes_an_addition() {
    let mut records = three();
    let before = shown(&records);
    let step = begin_action(&mut records, &InotifyActions::Add(record("/d", "/x/d", 1)));
    finish(&mut records, step, &[]);
    assert_eq!(records.keys().len(), 4);
    let step = begin_action(&mut records, &del(Some("/d"), None, 1));
    finish(&mut records, step, &[]);
    assert_eq!(shown(&records), before);
}

#[test]
fn a_list_names_every_record() {
    let mut records = three();
    match begin_action(&mut records, &InotifyActions::List) {
        ActionStep::Finished { results: InotifyResults::List(v), ending } => {
            assert_eq!(
                v,
                [record("/a", "/x/a", 1), record("/b", "/x/b", 2), record("/c", "/x/c", 1)]
            );
            assert_eq!(ending, Ending::Silent(LoopCtrl::Continue));
        }
        _ => panic!("no list"),
    }
    assert_eq!(records.keys().len(), 3);
}

#[test]
fn a_stop_ends_the_loop() {
    let mut records = three();
    match begin_action(&mut records, &InotifyActions::Stop) {
        ActionStep::Finished { results: InotifyResults::List(v), ending } => {
            assert!(v.is_empty());
            assert_eq!(ending.conclude(Ok(()), ""), Ok(LoopCtrl::Break));
        }
        _ => panic!("no end"),
    }
}

#[test]
fn an_event_has_its_record_synced() {
    for wd in [3, 4] {
        let mut records = three();
        let step = match begin_event(&mut records, wd) {
            EventStep::Unwatch(u) => {
                assert_eq!(u.watch(), 4);
                u.unwatched(Ok(()))
            }
            _ => panic!("no watch to stop"),
        };
        let step = match step {
            EventStep::Queue(q) => {
                assert_eq!(q.record(), record("/b", "/x/b", 2));
                q.queued()
            }
            _ => panic!("nothing to sync"),
        };
        let step = match step {
            EventStep::Watch(w) => {
                assert_eq!(w.request().path.text, "/x/b");
                assert_eq!(w.request().mask, SRC);
                w.watched(&mut records, Ok(40))
            }
            _ => panic!("no watch"),
        };
        assert!(matches!(step, EventStep::Finished(Ok(()))));
        assert_eq!(
            shown(&records),
            [pair("/a", "/x/a", 1), pair("/c", "/x/c", 1), pair("/b", "/x/b", 2)]
        );
        assert_eq!(records.take_watched(40).unwrap().watches, FromTo { from: 3, to: 40 });
    }
}

#[test]
fn an_event_of_no_record() {
    let mut records = three();
    assert!(matches!(begin_event(&mut records, 77), EventStep::Finished(Ok(()))));
    assert_eq!(records.keys().len(), 3);
}

#[test]
fn an_event_that_fails_loses_its_record() {
    let mut records = three();
    match begin_event(&mut records, 1) {
        EventStep::Unwatch(u) => assert!(
            matches!(u.unwatched(Err("gone".to_string())), EventStep::Finished(Err(e)) if e == "gone")
        ),
        _ => panic!("no watch to stop"),
    }
    assert_eq!(shown(&records), [pair("/b", "/x/b", 2), pair("/c", "/x/c", 1)]);
    let step = match begin_event(&mut records, 5) {
        EventStep::Unwatch(u) => match u.unwatched(Ok(())) {
            EventStep::Queue(q) => match q.queued() {
                EventStep::Watch(w) => w.watched(&mut records, Err("full".to_string())),
                _ => panic!("no watch"),
            },
            _ => panic!("nothing to sync"),
        },
        _ => panic!("no watch to stop"),
    };
    assert!(matches!(step, EventStep::Finished(Err(e)) if e == "full"));
    assert_eq!(shown(&records), [pair("/b", "/x/b", 2)]);
}

#[test]
fn only_the_first_entry_with_a_watch_is_taken() {
    let mut records = Records::new();
    records.insert(record("/a", "/x", 1), FromTo { from: 1, to: 2 });
    records.insert(record("/b", "/x", 1), FromTo { from: 3, to: 2 });
    assert_eq!(records.take_watched(2).unwrap().record.src_dst.from.text, "/a");
    assert_eq!(records.keys().len(), 1);
}

#[test]
fn a_round_handles_events_then_a_request() {
    let mut records = three();
    let rest = match begin_round(&mut records, EventsRead::Events(vec![1, 77])) {
        RoundStep::Event { step: EventStep::Unwatch(_), rest } => rest,
        _ => panic!("no event"),
    };
    assert_eq!(rest, [77]);
    let rest = match next_event(&mut records, rest) {
        RoundStep::Event { step: EventStep::Finished(Ok(())), rest } => rest,
        _ => panic!("no event"),
    };
    assert!(matches!(next_event(&mut records, rest), RoundStep::TakeRequest));
    assert!(matches!(
        take_request(&mut records, None),
        RoundStep::Finished(Ok(LoopCtrl::Continue))
    ));
    assert!(matches!(
        take_request(&mut records, Some(&InotifyActions::Stop)),
        RoundStep::Act(ActionStep::Finished { .. })
    ));
}

#[test]
fn a_round_without_events() {
    let mut records = three();
    assert!(matches!(
        begin_round(&mut records, EventsRead::WouldBlock),
        RoundStep::TakeRequest
    ));
    assert!(matches!(
        begin_round(&mut records, EventsRead::Failed("bad".to_string())),
        RoundStep::Finished(Err(e)) if e == "bad"
    ));
}

#[test]
fn an_answer_that_arrives_has_the_records_stored() {
    assert!(Ending::Answer.is_answered());
    assert!(!Ending::Silent(LoopCtrl::Continue).is_answered());
    assert_eq!(Ending::Answer.conclude(Ok(()), "x"), Ok(LoopCtrl::ContinuePersist));
    assert_eq!(
        Ending::Answer.conclude(Err("SendError { .. }".to_string()), "Stop"),
        Err("Failed to send response SendError { .. } for Stop".to_string())
    );
    assert_eq!(
        Ending::Silent(LoopCtrl::Continue).conclude(Err(String::new()), ""),
        Ok(LoopCtrl::Continue)
    );
}

#[test]
fn stored_records_come_back() {
    let stored = three().keys();
    let mut records = Records::new();
    for action in cross_device_link::serv::startup_requests(&stored) {
        let step = begin_action(&mut records, &action);
        finish(&mut records, step, &[]);
    }
    assert_eq!(records.keys(), stored);
}

#[test]
fn stored_records_that_fail_stay_out() {
    let stored = three().keys();
    let mut records = Records::new();
    for (n, action) in cross_device_link::serv::startup_requests(&stored).iter().enumerate() {
        match begin_action(&mut records, action) {
            ActionStep::Copy(c) if n == 1 => {
                c.copied(Ok(false));
            }
            step => {
                finish(&mut records, step, &[]);
            }
        }
    }
    let left = records.keys();
    assert_eq!(left.len(), 2);
    assert!(left[0] == stored[0] && left[1] == stored[2]);
}

#[test]
fn a_whole_round() {
    let mut records = three();
    records.insert(record("/d", "/x/d", 3), FromTo { from: 7, to: 8 });
    let request = InotifyActions::Add(record("/e", "/x/e", 3));
    let mut synced = Vec::new();
    let mut watches = vec![20, 21, 22].into_iter();
    // The watch 4 is stopped by the first event; that of no record comes in between.
    let mut round = begin_round(&mut records, EventsRead::Events(vec![4, 77, 5, 3, 8]));
    let result = loop {
        round = match round {
            RoundStep::Event { mut step, rest } => {
                loop {
                    step = match step {
                        EventStep::Unwatch(u) => {
                            let outcome = if u.watch() == 8 { Err("gone".to_string()) } else { Ok(()) };
                            u.unwatched(outcome)
                        }
                        EventStep::Queue(q) => {
                            synced.push(q.record().src_dst.from.text);
                            q.queued()
                        }
                        EventStep::Watch(w) => w.watched(&mut records, Ok(watches.next().unwrap())),
                        EventStep::Finished(_) => break,
                    }
                }
                next_event(&mut records, rest)
            }
            RoundStep::TakeRequest => take_request(&mut records, Some(&request)),
            RoundStep::Act(step) => {
                let (_, ending) = finish(&mut records, step, &[]);
                RoundStep::Finished(ending.conclude(Ok(()), ""))
            }
            RoundStep::Finished(r) => break r,
        };
    };
    assert_eq!(result, Ok(LoopCtrl::ContinuePersist));
    assert_eq!(synced, ["/b", "/c", "/b"]);
    assert_eq!(
        shown(&records),
        [pair("/a", "/x/a", 1), pair("/c", "/x/c", 1), pair("/b", "/x/b", 2), pair("/e", "/x/e", 3)]
    );
    assert_eq!(records.take_watched(1).unwrap().watches, FromTo { from: 1, to: 2 });
    assert_eq!(records.take_watched(22).unwrap().watches, FromTo { from: 3, to: 22 });
}
