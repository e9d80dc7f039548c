use std::sync::Arc;

use chats::{
    pick_targets, recipients, Delivery, Inbox, Input, Message, Session, State, Step, MAILBOX_CAPACITY,
    USERNAME_PROMPT,
};

fn drain(inbox: &mut Inbox) -> Vec<String> {
    let mut out = Vec::new();
    while let Ok(m) = inbox.try_recv() {
        out.push(m.render());
    }
    out
}

fn sorted(v: &[u64]) -> Vec<u64> {
    let mut v = v.to_vec();
    v.sort();
    v
}

#[test]
fn render_chat() {
    assert_eq!(Message::chat("alice", "hi").render(), "alice: hi");
}

#[test]
fn render_joined() {
    assert_eq!(Message::user_joined("bob").render(), "bob joined the chat");
}

#[test]
fn render_left() {
    assert_eq!(Message::user_left("bob").render(), "bob left the chat, :(");
}

#[test]
fn chat_keeps_sender_and_content() {
    match Message::chat("carol", "a: b") {
        Message::Chat { sender, content } => {
            assert_eq!(sender, "carol");
            assert_eq!(content, "a: b");
        }
        other => panic!("unexpected {:?}", other),
    }
    assert_eq!(Message::chat("", "").render(), ": ");
}

#[test]
fn joined_and_left_variants() {
    assert!(matches!(Message::user_joined("x"), Message::UserJoined(_)));
    assert!(matches!(Message::user_left("x"), Message::UserLeft(_)));
}

#[test]
fn recipients_skip_the_sender_in_order() {
    assert_eq!(recipients(&vec![3, 1, 2, 1], 1), vec![3, 2]);
    assert_eq!(recipients(&vec![], 1), Vec::<u64>::new());
    assert_eq!(recipients(&vec![5, 6], 9), vec![5, 6]);
}

#[test]
fn recipients_never_hold_an_absent_peer() {
    let peers = vec![1, 3, 4];
    assert!(!recipients(&peers, 1).contains(&2));
}

#[test]
fn pick_targets_by_outcome() {
    let targets = vec![1, 2, 3, 4, 5];
    let outcomes = vec![
        Delivery::Queued,
        Delivery::Full,
        Delivery::Absent,
        Delivery::Closed,
        Delivery::Full,
    ];
    assert_eq!(pick_targets(&targets, &outcomes, Delivery::Full), vec![2, 5]);
    assert_eq!(pick_targets(&targets, &outcomes, Delivery::Closed), vec![4]);
    assert_eq!(pick_targets(&targets, &outcomes, Delivery::Queued), vec![1]);
    assert_eq!(pick_targets(&vec![], &vec![], Delivery::Closed), Vec::<u64>::new());
}

#[test]
fn broadcast_skips_the_sender() {
    let state = State::new();
    let mut a = state.add(1);
    let mut b = state.add(2);
    let report = state.broadcast(1, &Arc::new(Message::chat("a", "x")));
    assert_eq!(sorted(&report.peers), vec![1, 2]);
    assert_eq!(report.targets, vec![2]);
    assert_eq!(report.outcomes, vec![Delivery::Queued]);
    assert!(report.stalled.is_empty());
    assert!(report.evicted.is_empty());
    assert!(drain(&mut a).is_empty());
    assert_eq!(drain(&mut b), vec!["a: x".to_string()]);
}

#[test]
fn one_sender_is_received_in_order() {
    let state = State::new();
    let _s = state.add(10);
    let mut p = state.add(11);
    let mut q = state.add(12);
    state.broadcast(10, &Arc::new(Message::chat("s", "m1")));
    state.broadcast(10, &Arc::new(Message::chat("s", "m2")));
    let want = vec!["s: m1".to_string(), "s: m2".to_string()];
    assert_eq!(drain(&mut p), want);
    assert_eq!(drain(&mut q), want);
}

#[test]
fn removed_peer_is_not_targeted() {
    let state = State::new();
    let _a = state.add(1);
    let mut b = state.add(2);
    let mut c = state.add(3);
    state.remove(2);
    let report = state.broadcast(1, &Arc::new(Message::chat("a", "x")));
    assert_eq!(report.targets, vec![3]);
    assert!(drain(&mut b).is_empty());
    assert!(b.try_recv().is_err());
    assert_eq!(drain(&mut c), vec!["a: x".to_string()]);
}

#[test]
fn closed_mailbox_is_evicted() {
    let state = State::new();
    let _a = state.add(1);
    let b = state.add(2);
    drop(b);
    let report = state.broadcast(1, &Arc::new(Message::chat("a", "x")));
    assert_eq!(report.outcomes, vec![Delivery::Closed]);
    assert!(report.stalled.is_empty());
    assert_eq!(report.evicted, vec![2]);
    let again = state.broadcast(1, &Arc::new(Message::chat("a", "y")));
    assert!(again.targets.is_empty());
}

#[test]
fn three_peers_join_and_chat() {
    let state = State::new();
    let mut inboxes = Vec::new();
    for (id, name) in [(1u64, "A"), (2, "B"), (3, "C")] {
        inboxes.push(state.add(id));
        state.broadcast(id, &Arc::new(Message::user_joined(name)));
    }
    state.broadcast(1, &Arc::new(Message::chat("A", "hello")));
    let a = drain(&mut inboxes[0]);
    let b = drain(&mut inboxes[1]);
    let c = drain(&mut inboxes[2]);
    assert_eq!(a, vec!["B joined the chat".to_string(), "C joined the chat".to_string()]);
    assert_eq!(b, vec!["C joined the chat".to_string(), "A: hello".to_string()]);
    assert_eq!(c, vec!["A: hello".to_string()]);
    assert!(a.iter().all(|m| !m.starts_with("A")));
}

#[test]
fn full_mailbox_does_not_hold_up_others() {
    let state = State::new();
    let _a = state.add(1);
    let mut b = state.add(2);
    let mut c = state.add(3);
    for k in 0..MAILBOX_CAPACITY {
        let report = state.broadcast(1, &Arc::new(Message::chat("A", &k.to_string())));
        assert!(report.stalled.is_empty());
        assert!(report.evicted.is_empty());
        assert_eq!(drain(&mut c).len(), 1);
    }
    let report = state.broadcast(1, &Arc::new(Message::chat("A", "more")));
    assert_eq!(report.stalled, vec![2]);
    assert!(report.evicted.is_empty());
    assert_eq!(drain(&mut c), vec!["A: more".to_string()]);
    let after = state.broadcast(1, &Arc::new(Message::chat("A", "later")));
    assert_eq!(sorted(&after.targets), vec![2, 3]);
    assert_eq!(after.stalled, vec![2]);
    assert_eq!(drain(&mut c), vec!["A: later".to_string()]);
    assert_eq!(drain(&mut b).len(), MAILBOX_CAPACITY);
    let owed = state.mailbox(2).expect("a stalled peer stays registered");
    assert!(owed.try_send(Arc::new(Message::chat("A", "more"))).is_ok());
    assert_eq!(drain(&mut b), vec!["A: more".to_string()]);
}

#[test]
fn mailbox_of_unknown_peer_is_none() {
    let state = State::new();
    let _a = state.add(1);
    assert!(state.mailbox(1).is_some());
    assert!(state.mailbox(2).is_none());
    state.remove(1);
    assert!(state.mailbox(1).is_none());
}

#[test]
fn mailbox_capacity_is_bounded() {
    let state = State::new();
    let inbox = state.add(7);
    assert_eq!(inbox.max_capacity(), MAILBOX_CAPACITY);
    assert_eq!(MAILBOX_CAPACITY, 128);
}

#[test]
fn read_error_before_join_announces_nothing() {
    let mut s = Session::new();
    assert!(matches!(s.step(Input::ReadError), Step::Stop));
    assert!(matches!(s.step(Input::Line("late".to_string())), Step::Stop));
    assert!(matches!(s.step(Input::End), Step::Stop));
}

#[test]
fn end_before_join_announces_nothing() {
    let mut s = Session::new();
    assert!(matches!(s.step(Input::End), Step::Stop));
}

#[test]
fn session_lifecycle() {
    let mut s = Session::new();
    match s.step(Input::Line("dan".to_string())) {
        Step::Join { username, announce } => {
            assert_eq!(username, "dan");
            assert_eq!(announce.render(), "dan joined the chat");
        }
        _ => panic!("expected a join"),
    }
    for line in ["one", "two"] {
        match s.step(Input::Line(line.to_string())) {
            Step::Broadcast(m) => assert_eq!(m.render(), format!("dan: {}", line)),
            _ => panic!("expected a broadcast"),
        }
    }
    match s.step(Input::ReadError) {
        Step::Leave(m) => assert_eq!(m.render(), "dan left the chat, :("),
        _ => panic!("expected a leave"),
    }
    assert!(matches!(s, Session::Terminated));
    assert!(matches!(s.step(Input::Line("x".to_string())), Step::Stop));
}

#[test]
fn prompt_asks_for_a_username() {
    assert_eq!(USERNAME_PROMPT, "Enter your username:");
}
