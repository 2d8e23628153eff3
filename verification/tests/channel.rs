use power_policy::deferred::Channel;
use power_policy::error::Error;

#[test]
fn fresh_channel_has_nothing_to_claim() {
    let mut channel: Channel<u32, u32> = Channel::new();
    assert!(channel.receive().is_none());
    assert_eq!(channel.poll_response(0), None);
}

#[test]
fn tickets_count_the_requests() {
    let mut channel: Channel<u32, u32> = Channel::new();
    assert_eq!(channel.execute(10), Ok(0));
    assert_eq!(channel.execute(11), Ok(1));
    assert_eq!(channel.execute(12), Ok(2));
}

#[test]
fn one_exchange() {
    let mut channel: Channel<u32, &str> = Channel::new();
    let ticket = channel.execute(41).unwrap();
    assert_eq!(channel.poll_response(ticket), None);
    let request = channel.receive().unwrap();
    assert_eq!(request.ticket(), ticket);
    assert_eq!(request.command(), 41);
    assert_eq!(channel.poll_response(ticket), None);
    assert!(channel.respond(request, "done"));
    assert_eq!(channel.poll_response(ticket), Some(Ok((41, "done"))));
    assert_eq!(channel.poll_response(ticket), None);
    assert!(channel.receive().is_none());
}

#[test]
fn sequential_exchanges_match() {
    let mut channel: Channel<u32, u32> = Channel::new();
    let mut exchanges = Vec::new();
    for i in 0..50u32 {
        let ticket = channel.execute(100 + i).unwrap();
        let request = channel.receive().unwrap();
        let answer = request.command() * 2;
        assert!(channel.respond(request, answer));
        match channel.poll_response(ticket) {
            Some(Ok((command, response))) => exchanges.push((ticket, command, response)),
            other => panic!("no answer under ticket {}: {:?}", ticket, other),
        }
    }
    let expected: Vec<(u64, u32, u32)> =
        (0..50u32).map(|i| (i as u64, 100 + i, (100 + i) * 2)).collect();
    assert_eq!(exchanges, expected);
}

#[test]
fn concurrent_exchanges_match() {
    let mut channel: Channel<u32, u32> = Channel::new();
    let tickets: Vec<u64> = (0..20u32).map(|i| channel.execute(i).unwrap()).collect();
    assert_eq!(tickets, (0..20u64).collect::<Vec<u64>>());
    let mut exchanges = Vec::new();
    for round in 0..20usize {
        // Only one request is in flight at a time.
        let request = channel.receive().unwrap();
        assert!(channel.receive().is_none());
        assert_eq!(request.ticket(), tickets[round]);
        let answer = 1000 + request.command();
        assert!(channel.respond(request, answer));
        // Issuers poll in the reverse of the call order; only the one whose
        // turn it is finds an answer.
        for &ticket in tickets.iter().rev() {
            match channel.poll_response(ticket) {
                Some(Ok((command, response))) => exchanges.push((ticket, command, response)),
                Some(Err(e)) => panic!("open channel reported {:?}", e),
                None => {},
            }
        }
        assert_eq!(exchanges.len(), round + 1);
    }
    let expected: Vec<(u64, u32, u32)> = (0..20u32).map(|i| (i as u64, i, 1000 + i)).collect();
    assert_eq!(exchanges, expected);
    assert!(channel.receive().is_none());
}

#[test]
fn next_request_waits_for_collection() {
    let mut channel: Channel<u32, u32> = Channel::new();
    let first = channel.execute(1).unwrap();
    let second = channel.execute(2).unwrap();
    let request = channel.receive().unwrap();
    assert!(channel.respond(request, 10));
    // The answer has not been collected: the mailbox is still taken.
    assert!(channel.receive().is_none());
    assert_eq!(channel.poll_response(second), None);
    assert_eq!(channel.poll_response(first), Some(Ok((1, 10))));
    let request = channel.receive().unwrap();
    assert_eq!(request.ticket(), second);
    assert_eq!(request.command(), 2);
}

#[test]
fn answer_that_is_not_due_is_refused() {
    let mut a: Channel<u32, u32> = Channel::new();
    let mut b: Channel<u32, u32> = Channel::new();
    a.execute(1).unwrap();
    a.execute(2).unwrap();
    b.execute(7).unwrap();
    let from_a = a.receive().unwrap();
    // Nothing is claimed on `b`, so no answer is due there.
    assert!(!b.respond(from_a, 5));
    assert_eq!(b.poll_response(0), None);
    let from_b = b.receive().unwrap();
    assert_eq!(from_b.command(), 7);
    assert!(b.respond(from_b, 70));
    assert_eq!(b.poll_response(0), Some(Ok((7, 70))));
}

#[test]
fn answer_after_close_is_refused() {
    let mut channel: Channel<u32, u32> = Channel::new();
    let ticket = channel.execute(1).unwrap();
    let request = channel.receive().unwrap();
    channel.close();
    assert!(!channel.respond(request, 10));
    assert_eq!(channel.poll_response(ticket), Some(Err(Error::Closed)));
}

#[test]
fn closed_channel_fails_pending_and_future_requests() {
    let mut channel: Channel<u32, u32> = Channel::new();
    let in_flight = channel.execute(1).unwrap();
    let waiting = channel.execute(2).unwrap();
    channel.close();
    assert_eq!(channel.poll_response(in_flight), Some(Err(Error::Closed)));
    assert_eq!(channel.poll_response(waiting), Some(Err(Error::Closed)));
    assert_eq!(channel.execute(3), Err(Error::Closed));
    assert!(channel.receive().is_none());
    assert_eq!(channel.poll_response(99), Some(Err(Error::Closed)));
}

#[test]
fn answer_given_before_close_can_still_be_collected() {
    let mut channel: Channel<u32, u32> = Channel::new();
    let first = channel.execute(1).unwrap();
    let second = channel.execute(2).unwrap();
    let request = channel.receive().unwrap();
    assert!(channel.respond(request, 10));
    channel.close();
    assert_eq!(channel.poll_response(second), Some(Err(Error::Closed)));
    assert_eq!(channel.poll_response(first), Some(Ok((1, 10))));
    assert_eq!(channel.poll_response(first), Some(Err(Error::Closed)));
}

#[test]
fn abandoned_waiting_request_never_reaches_the_receiver() {
    let mut channel: Channel<u32, u32> = Channel::new();
    let first = channel.execute(1).unwrap();
    let second = channel.execute(2).unwrap();
    let third = channel.execute(3).unwrap();
    channel.abandon(second);
    let request = channel.receive().unwrap();
    assert_eq!(request.ticket(), first);
    assert!(channel.respond(request, 10));
    assert_eq!(channel.poll_response(first), Some(Ok((1, 10))));
    let request = channel.receive().unwrap();
    assert_eq!(request.ticket(), third);
    assert_eq!(request.command(), 3);
    assert!(channel.respond(request, 30));
    assert_eq!(channel.poll_response(second), None);
    assert_eq!(channel.poll_response(third), Some(Ok((3, 30))));
    assert!(channel.receive().is_none());
}

#[test]
fn abandoned_request_in_flight_is_still_served() {
    let mut channel: Channel<u32, u32> = Channel::new();
    let first = channel.execute(1).unwrap();
    let second = channel.execute(2).unwrap();
    // Given up before the receiver claims it: it stays in the mailbox.
    channel.abandon(first);
    let request = channel.receive().unwrap();
    assert_eq!(request.ticket(), first);
    assert!(channel.respond(request, 10));
    // The answer is dropped, and the next request takes the mailbox.
    assert_eq!(channel.poll_response(first), None);
    let request = channel.receive().unwrap();
    assert_eq!(request.ticket(), second);
    assert!(channel.respond(request, 20));
    assert_eq!(channel.poll_response(second), Some(Ok((2, 20))));
}

#[test]
fn abandoned_answer_is_dropped() {
    let mut channel: Channel<u32, u32> = Channel::new();
    let first = channel.execute(1).unwrap();
    let second = channel.execute(2).unwrap();
    let request = channel.receive().unwrap();
    assert!(channel.respond(request, 10));
    channel.abandon(first);
    assert_eq!(channel.poll_response(first), None);
    let request = channel.receive().unwrap();
    assert_eq!(request.ticket(), second);
}

#[test]
fn abandoning_an_unknown_ticket_changes_nothing() {
    let mut channel: Channel<u32, u32> = Channel::new();
    let first = channel.execute(1).unwrap();
    let second = channel.execute(2).unwrap();
    channel.abandon(77);
    let request = channel.receive().unwrap();
    assert_eq!(request.ticket(), first);
    assert!(channel.respond(request, 10));
    assert_eq!(channel.poll_response(first), Some(Ok((1, 10))));
    let request = channel.receive().unwrap();
    assert_eq!(request.ticket(), second);
    assert!(channel.respond(request, 20));
    assert_eq!(channel.poll_response(second), Some(Ok((2, 20))));
}
