use pgpt::RequestId;
use pgpt::admission::{Admission, AdmissionQueue, ADMISSION_CAPACITY};
use pgpt::bootstrap::HandleSlot;
use pgpt::driver::{Driver, Prompt, ResponseCollector, Token};
use pgpt::engine::{GenerationSession, GENERATION_UNIT_BUDGET};
use pgpt::model::{ModelResource, ResourceCell};

#[test]
fn token_pid_names_its_request() {
    let a = RequestId(7);
    let b = RequestId(9);
    let frag = Token::Completion {
        prompt: a,
        token: "hi".to_string(),
    };
    let end = Token::Eos { prompt: b };
    assert_eq!(frag.pid(), a);
    assert_eq!(end.pid(), b);
}

#[test]
fn collector_isolates_interleaved_requests() {
    // Two requests share the bus; each collector assembles only its own
    // fragments, in emission order, and stops at its own end marker.
    let a = RequestId(1);
    let b = RequestId(2);
    let events = vec![
        Token::Completion { prompt: a, token: "Hel".to_string() },
        Token::Completion { prompt: b, token: "By".to_string() },
        Token::Completion { prompt: a, token: "lo".to_string() },
        Token::Eos { prompt: a },
        Token::Completion { prompt: b, token: "e".to_string() },
        Token::Eos { prompt: b },
    ];
    let mut ca = ResponseCollector::new(a);
    assert!(ca.absorb_all(&events));
    assert_eq!(ca.into_text(), "Hello");

    let mut cb = ResponseCollector::new(b);
    assert!(cb.absorb_all(&events));
    assert_eq!(cb.into_text(), "Bye");
}

#[test]
fn collector_ignores_foreign_end_marker() {
    let a = RequestId(1);
    let b = RequestId(2);
    let events = vec![
        Token::Eos { prompt: b },
        Token::Completion { prompt: a, token: "x".to_string() },
    ];
    let mut ca = ResponseCollector::new(a);
    assert!(!ca.absorb_all(&events));
    assert_eq!(ca.into_text(), "x");
}

fn eos_count_for(id: RequestId, events: &[Token]) -> usize {
    events
        .iter()
        .filter(|t| t.pid() == id && matches!(t, Token::Eos { .. }))
        .count()
}

#[test]
fn session_emits_exactly_one_end_marker() {
    let id = RequestId(5);
    let mut s = GenerationSession::new(id, 99);
    assert!(s.can_continue());
    let stop = s.accept_unit(7);
    assert!(!stop);
    s.push_fragment("Hi".to_string());
    let stop = s.accept_unit(99);
    assert!(stop);
    s.finish(Some("!".to_string()));
    let events = s.into_events();
    assert_eq!(events.len(), 3);
    assert_eq!(eos_count_for(id, &events), 1);
    assert!(matches!(
        &events[0],
        Token::Completion { prompt, token } if *prompt == id && token == "Hi"
    ));
    assert!(matches!(
        &events[1],
        Token::Completion { prompt, token } if *prompt == id && token == "!"
    ));
    assert!(matches!(&events[2], Token::Eos { prompt } if *prompt == id));
}

#[test]
fn failed_generation_still_ends_the_stream() {
    // A request that fails immediately after admission still gets its one
    // terminal marker, with no fragments before it.
    let id = RequestId(6);
    let mut s = GenerationSession::new(id, 99);
    s.finish(None);
    let events = s.into_events();
    assert_eq!(events.len(), 1);
    assert_eq!(eos_count_for(id, &events), 1);
}

#[test]
fn session_budget_runs_out() {
    let id = RequestId(8);
    let mut s = GenerationSession::new(id, 99);
    let mut accepted = 0u32;
    while s.can_continue() {
        let stop = s.accept_unit(1);
        assert!(!stop);
        accepted += 1;
        assert!(accepted <= GENERATION_UNIT_BUDGET);
    }
    assert_eq!(accepted, GENERATION_UNIT_BUDGET);
    s.finish(None);
    let events = s.into_events();
    assert_eq!(eos_count_for(id, &events), 1);
}

#[test]
fn fifo_admission_with_capacity_one() {
    // Submitting R1 then R2 with capacity one: R2 must wait until R1 is
    // admitted; nothing is dropped and nothing is reordered.
    let mut q = AdmissionQueue::new(1);
    let r1 = Prompt::new("one".to_string());
    let r2 = Prompt::new("two".to_string());
    let id1 = r1.id;
    let id2 = r2.id;

    assert!(matches!(q.submit(r1), Admission::Queued));
    let r2 = match q.submit(r2) {
        Admission::MustWait(p) => p,
        Admission::Queued => panic!("second submission must wait"),
    };
    let first = q.take_next().expect("R1 was queued");
    assert_eq!(first.id, id1);
    assert!(matches!(q.submit(r2), Admission::Queued));
    let second = q.take_next().expect("R2 was queued after the free slot");
    assert_eq!(second.id, id2);
}

#[test]
fn scenario_third_submission_waits_at_capacity_two() {
    // Capacity two, three rapid submissions: the third goes through only
    // after one of the first two has been taken by the worker.
    assert_eq!(ADMISSION_CAPACITY, 2);
    let mut q = AdmissionQueue::new(ADMISSION_CAPACITY);
    let r1 = Prompt::new("a".to_string());
    let r2 = Prompt::new("b".to_string());
    let r3 = Prompt::new("c".to_string());
    let id1 = r1.id;
    let id3 = r3.id;

    assert!(matches!(q.submit(r1), Admission::Queued));
    assert!(matches!(q.submit(r2), Admission::Queued));
    let r3 = match q.submit(r3) {
        Admission::MustWait(p) => p,
        Admission::Queued => panic!("third submission must wait at capacity two"),
    };
    let admitted = q.take_next().expect("queue was full");
    assert_eq!(admitted.id, id1);
    assert!(matches!(q.submit(r3), Admission::Queued));
    let next = q.take_next().expect("R2 still queued");
    assert_ne!(next.id, id3);
}

#[test]
fn resource_cell_loads_once() {
    // Later acquisitions return the first resource and load nothing new.
    let mut cell = ResourceCell::new();
    assert!(cell.current().is_none());
    assert_eq!(cell.loads(), 0);
    let first = cell.get_or_load(ModelResource { tag: 1 });
    assert_eq!(first.tag, 1);
    let second = cell.get_or_load(ModelResource { tag: 2 });
    assert_eq!(second.tag, 1);
    let third = cell.get_or_load(ModelResource { tag: 3 });
    assert_eq!(third.tag, 1);
    assert_eq!(cell.loads(), 1);
    assert_eq!(cell.current(), Some(ModelResource { tag: 1 }));
}

#[test]
fn dispatch_round_trip_over_the_buses() {
    // One request through the real channels, single-threaded: submit,
    // admit, publish the completed stream, collect the answer.
    let (driver, handle) = Driver::boot(ModelResource { tag: 3 });
    assert_eq!(driver.model().tag, 3);

    let id = handle.submit("ask".to_string()).expect("bus is up");
    let prompt = driver.take_request().expect("one request was queued");
    assert_eq!(prompt.id, id);
    assert_eq!(prompt.payload, "ask");

    let mut session = GenerationSession::new(prompt.id, 99);
    session.push_fragment("an".to_string());
    session.finish(Some("swer".to_string()));
    assert!(driver.publish(session.into_events()));

    let mut collector = ResponseCollector::new(id);
    loop {
        let event = handle.receive_event().expect("dispatcher is alive");
        if collector.absorb(&event) {
            break;
        }
    }
    assert_eq!(collector.into_text(), "answer");
}

#[test]
fn handle_slot_publishes_and_replaces() {
    let (_driver, handle) = Driver::boot(ModelResource { tag: 4 });
    let mut slot = HandleSlot::new();
    assert!(!slot.ready());
    assert!(slot.current().is_none());
    slot.try_replace(handle.duplicate());
    assert!(slot.ready());
    let attached = slot.current().expect("published");
    // the attached handle reaches the same dispatcher
    let id = attached.submit("via slot".to_string()).expect("bus is up");
    let got = _driver.take_request().expect("delivered");
    assert_eq!(got.id, id);
    slot.try_replace(handle);
    assert!(slot.ready());
}
