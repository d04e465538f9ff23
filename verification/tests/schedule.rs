use sep2_client::event::{randomize, signed_draw, EventInfo, Events, ScheduleAction};
use sep2_client::schedule::{add_event, add_event_with_offsets};
use sep2_client::types::{EIStatus, EventStatusType, FunctionSet, ResponseStatus};

/// Drives a schedule as a client would: carries out the actions of each change, calls a
/// logging handler, and runs the start and end tasks once per simulated second.
struct Sim {
    fs: FunctionSet,
    name: &'static str,
    events: Events<u128>,
    logs: Vec<String>,
    responses: Vec<(u128, ResponseStatus)>,
    stamp: u128,
    device_categories: u32,
    handler_answer: Option<ResponseStatus>,
}

impl Sim {
    fn new(fs: FunctionSet, name: &'static str) -> Sim {
        Sim {
            fs,
            name,
            events: Events::new(),
            logs: vec![],
            responses: vec![],
            stamp: 0,
            device_categories: u32::MAX,
            handler_answer: None,
        }
    }

    fn stamp(&mut self) -> u128 {
        self.stamp += 1;
        self.stamp
    }

    fn add(&mut self, info: EventInfo, primacy: u8, program: u128, server: u8, now: i64) {
        let stamp = self.stamp();
        let actions = add_event_with_offsets(
            &mut self.events,
            self.fs,
            info.mrid,
            &info,
            primacy,
            program,
            server,
            self.device_categories,
            now,
            stamp,
            0,
            0,
        );
        self.run(actions);
    }

    fn run(&mut self, actions: Vec<ScheduleAction>) {
        for a in actions {
            match a {
                ScheduleAction::Notify(m) => {
                    self.notify(m);
                }
                ScheduleAction::NotifyAndRespond(m) => {
                    let r = self.notify(m);
                    self.responses.push((m, r));
                }
                ScheduleAction::Respond(m, s) => self.responses.push((m, s)),
            }
        }
    }

    fn notify(&mut self, m: u128) -> ResponseStatus {
        let ei = self.events.get(m).unwrap();
        let word = match ei.status() {
            EIStatus::Scheduled => "Received",
            EIStatus::Active => "Started",
            EIStatus::Cancelled => "Cancelled",
            EIStatus::Complete => "Complete",
            EIStatus::CancelledRandom => "Cancelled",
            EIStatus::Superseded => "Superseded",
        };
        assert_eq!(*ei.event(), m);
        self.logs.push(format!("{} {}: {}", self.name, word, m));
        match self.handler_answer {
            Some(r) => r,
            None => ResponseStatus::from(ei.status()),
        }
    }

    fn tick(&mut self, now: i64) {
        loop {
            let stamp = self.stamp();
            match self.events.end_next(now, stamp) {
                Some(m) => {
                    let r = self.notify(m);
                    self.responses.push((m, r));
                }
                None => break,
            }
        }
        loop {
            let stamp = self.stamp();
            match self.events.start_next(now, stamp) {
                Some(m) => {
                    let r = self.notify(m);
                    self.responses.push((m, r));
                    let stamp = self.stamp();
                    self.events.respond_to_start(self.fs, m, r, stamp);
                }
                None => break,
            }
        }
    }

    fn run_until(&mut self, from: i64, to: i64) {
        for now in from..=to {
            self.tick(now);
        }
    }
}

// Create an event, as would be acquired from the server
fn create_event(status: EventStatusType, count: u128, start: i64, duration: u32) -> EventInfo {
    EventInfo {
        mrid: count,
        creation_time: count as i64,
        start,
        duration,
        status,
        randomize_start: None,
        randomize_duration: None,
        device_category: None,
        target: 0,
    }
}

const T: i64 = 1_700_000_000;

fn basic(fs: FunctionSet, name: &'static str) -> Vec<String> {
    let mut sim = Sim::new(fs, name);
    let first = create_event(EventStatusType::Scheduled, 1, T + 1, 2);
    let second = create_event(EventStatusType::Scheduled, 2, T + 4, 2);
    let third = create_event(EventStatusType::Scheduled, 3, T + 7, 2);
    // Schedule in a different order
    sim.add(second, 0, 0, 0, T);
    sim.add(third, 0, 0, 0, T);
    sim.add(first, 0, 0, 0, T);
    sim.run_until(T, T + 10);
    sim.logs
}

fn expected(name: &str, lines: &[(&str, u32)]) -> Vec<String> {
    lines.iter().map(|(w, m)| format!("{} {}: {}", name, w, m)).collect()
}

/// A new DER schedule holds no events and has nothing to start or end.
#[test]
fn der_scheduler() {
    let sim = Sim::new(FunctionSet::Der, "DERControl");
    assert_eq!(sim.events.len(), 0);
    assert_eq!(sim.events.next_start(), None);
    assert_eq!(sim.events.next_end(), None);
}

/// Test the scheduler with non-overlapping events
#[test]
fn basic_der_scheduler() {
    assert_eq!(
        basic(FunctionSet::Der, "DERControl"),
        expected("DERControl", &[("Started", 1), ("Complete", 1), ("Started", 2), ("Complete", 2), ("Started", 3), ("Complete", 3)])
    );
}

#[test]
fn basic_pricing_scheduler() {
    assert_eq!(
        basic(FunctionSet::Pricing, "TimeTariffInterval"),
        expected("TimeTariffInterval", &[("Started", 1), ("Complete", 1), ("Started", 2), ("Complete", 2), ("Started", 3), ("Complete", 3)])
    );
}

#[test]
fn basic_msg_scheduler() {
    assert_eq!(
        basic(FunctionSet::Messaging, "TextMessage"),
        expected("TextMessage", &[("Started", 1), ("Complete", 1), ("Started", 2), ("Complete", 2), ("Started", 3), ("Complete", 3)])
    );
}

#[test]
fn basic_drlc_scheduler() {
    assert_eq!(
        basic(FunctionSet::Drlc, "EndDeviceControl"),
        expected("EndDeviceControl", &[("Started", 1), ("Complete", 1), ("Started", 2), ("Complete", 2), ("Started", 3), ("Complete", 3)])
    );
}

fn superseded(fs: FunctionSet, name: &'static str) -> Vec<String> {
    let mut sim = Sim::new(fs, name);
    // T2 -> T3 - Never gets run
    let superseded = create_event(EventStatusType::Scheduled, 0, T + 2, 1);
    // T1 -> T5
    let first = create_event(EventStatusType::Scheduled, 1, T + 1, 4);
    // T4 -> T6
    let second = create_event(EventStatusType::Scheduled, 2, T + 4, 2);
    // T7 -> T9
    let third = create_event(EventStatusType::Scheduled, 3, T + 7, 2);
    sim.add(first, 0, 0, 0, T);
    sim.add(superseded, 0, 0, 0, T);
    sim.run_until(T, T + 3);
    sim.add(second, 0, 0, 0, T + 3);
    sim.add(third, 0, 0, 0, T + 3);
    sim.run_until(T + 4, T + 11);
    sim.logs
}

/// Test the scheduler with overlapping events that get superseded
#[test]
fn superseded_der_scheduler() {
    assert_eq!(
        superseded(FunctionSet::Der, "DERControl"),
        expected("DERControl", &[("Started", 1), ("Superseded", 1), ("Started", 2), ("Complete", 2), ("Started", 3), ("Complete", 3)])
    );
}

#[test]
fn superseded_pricing_scheduler() {
    assert_eq!(
        superseded(FunctionSet::Pricing, "TimeTariffInterval"),
        expected("TimeTariffInterval", &[("Started", 1), ("Superseded", 1), ("Started", 2), ("Complete", 2), ("Started", 3), ("Complete", 3)])
    );
}

/// Test the scheduler with overlapping events that would get superseded in another schedule,
/// but don't in messaging
#[test]
fn superseded_msg_scheduler() {
    let mut sim = Sim::new(FunctionSet::Messaging, "TextMessage");
    let first = create_event(EventStatusType::Scheduled, 1, T + 1, 4);
    let second = create_event(EventStatusType::Scheduled, 2, T + 4, 2);
    let third = create_event(EventStatusType::Scheduled, 3, T + 7, 2);
    let fourth = create_event(EventStatusType::Scheduled, 4, T + 2, 1);
    sim.add(first, 0, 0, 0, T);
    sim.add(fourth, 0, 0, 0, T);
    sim.add(second, 0, 0, 0, T);
    sim.add(third, 0, 0, 0, T);
    sim.run_until(T, T + 10);
    assert_eq!(
        sim.logs,
        expected(
            "TextMessage",
            &[
                ("Started", 1),
                ("Started", 4),
                ("Complete", 4),
                ("Started", 2),
                ("Complete", 1),
                ("Complete", 2),
                ("Started", 3),
                ("Complete", 3)
            ]
        )
    );
}

fn cancelling(fs: FunctionSet, name: &'static str) -> (Vec<String>, Vec<(u128, ResponseStatus)>) {
    let mut sim = Sim::new(fs, name);
    let mut first = create_event(EventStatusType::Scheduled, 1, T + 1, 2);
    let mut second = create_event(EventStatusType::Scheduled, 2, T + 4, 2);
    let mut third = create_event(EventStatusType::Scheduled, 3, T + 7, 2);
    sim.add(second, 0, 0, 0, T);
    sim.add(third, 0, 0, 0, T);
    sim.add(first, 0, 0, 0, T);
    // Cancel first event while it's running
    sim.run_until(T, T + 3);
    first.status = EventStatusType::Cancelled;
    sim.add(first, 0, 0, 0, T + 3);
    // Cancel second event while it's running
    sim.run_until(T + 4, T + 6);
    second.status = EventStatusType::Cancelled;
    sim.add(second, 0, 0, 0, T + 6);
    // Cancel third event before it starts
    third.status = EventStatusType::Cancelled;
    sim.add(third, 0, 0, 0, T + 6);
    sim.run_until(T + 7, T + 10);
    (sim.logs, sim.responses)
}

/// Test the scheduler with events that get cancelled while in progress
#[test]
fn cancelling_der_scheduler() {
    let (logs, responses) = cancelling(FunctionSet::Der, "DERControl");
    assert_eq!(
        logs,
        // Client never learns about third event
        expected("DERControl", &[("Started", 1), ("Cancelled", 1), ("Started", 2), ("Cancelled", 2)])
    );
    // The server hears that the third event was cancelled before it started.
    assert_eq!(*responses.last().unwrap(), (3, ResponseStatus::EventCancelled));
}

#[test]
fn cancelling_pricing_scheduler() {
    let (logs, _) = cancelling(FunctionSet::Pricing, "TimeTariffInterval");
    assert_eq!(
        logs,
        expected("TimeTariffInterval", &[("Started", 1), ("Cancelled", 1), ("Started", 2), ("Cancelled", 2)])
    );
}

#[test]
fn cancelling_msg_scheduler() {
    let (logs, _) = cancelling(FunctionSet::Messaging, "TextMessage");
    assert_eq!(
        logs,
        expected("TextMessage", &[("Started", 1), ("Cancelled", 1), ("Started", 2), ("Cancelled", 2)])
    );
}

fn unsupersede(fs: FunctionSet, name: &'static str) -> Vec<String> {
    let mut sim = Sim::new(fs, name);
    // T4 -> T6 (Tentatively superseded)
    let second = create_event(EventStatusType::Scheduled, 0, T + 4, 2);
    // T1 -> T5
    let mut first = create_event(EventStatusType::Scheduled, 1, T + 1, 4);
    // T7 -> T9
    let third = create_event(EventStatusType::Scheduled, 3, T + 7, 2);
    sim.add(first, 0, 0, 0, T);
    sim.add(second, 0, 0, 0, T);
    sim.add(third, 0, 0, 0, T);
    sim.run_until(T, T + 3);
    // Cancel the first event, allowing the second to run, since it was created first
    first.status = EventStatusType::Cancelled;
    sim.add(first, 0, 0, 0, T + 3);
    sim.run_until(T + 4, T + 10);
    sim.logs
}

/// Test the scheduler with events that superseded while scheduled, then unsuperseded
#[test]
fn unsupersede_der_scheduler() {
    assert_eq!(
        unsupersede(FunctionSet::Der, "DERControl"),
        expected("DERControl", &[("Started", 1), ("Cancelled", 1), ("Started", 0), ("Complete", 0), ("Started", 3), ("Complete", 3)])
    );
}

#[test]
fn unsupersede_pricing_scheduler() {
    assert_eq!(
        unsupersede(FunctionSet::Pricing, "TimeTariffInterval"),
        expected(
            "TimeTariffInterval",
            &[("Started", 1), ("Cancelled", 1), ("Started", 0), ("Complete", 0), ("Started", 3), ("Complete", 3)]
        )
    );
}

fn differing_primacy(fs: FunctionSet, name: &'static str) -> Vec<String> {
    let mut sim = Sim::new(fs, name);
    // T1 -> T4
    let first = create_event(EventStatusType::Scheduled, 1, T + 1, 3);
    // T2 -> T4
    let second = create_event(EventStatusType::Scheduled, 2, T + 2, 2);
    // T3 -> T5
    let third = create_event(EventStatusType::Scheduled, 3, T + 3, 2);
    sim.add(first, 2, 0, 0, T);
    sim.add(second, 0, 0, 0, T);
    sim.add(third, 1, 0, 0, T);
    sim.run_until(T, T + 6);
    sim.logs
}

/// Test the scheduler with events that come from programs with differing primacies, and that
/// they get superseded as expected
#[test]
fn schedule_der_differing_primacy() {
    assert_eq!(
        differing_primacy(FunctionSet::Der, "DERControl"),
        expected("DERControl", &[("Started", 2), ("Complete", 2)])
    );
}

#[test]
fn schedule_pricing_differing_primacy() {
    assert_eq!(
        differing_primacy(FunctionSet::Pricing, "TimeTariffInterval"),
        expected("TimeTariffInterval", &[("Started", 2), ("Complete", 2)])
    );
}

/// Test that events with differing primacys do not effect event execution order
#[test]
fn schedule_msg_differing_primacy() {
    let mut sim = Sim::new(FunctionSet::Messaging, "TextMessage");
    let first = create_event(EventStatusType::Scheduled, 1, T + 1, 2);
    let second = create_event(EventStatusType::Scheduled, 2, T + 4, 2);
    let third = create_event(EventStatusType::Scheduled, 3, T + 7, 2);
    sim.add(first, 2, 0, 0, T);
    sim.add(second, 0, 0, 0, T);
    sim.add(third, 1, 0, 0, T);
    sim.run_until(T, T + 10);
    assert_eq!(
        sim.logs,
        expected("TextMessage", &[("Started", 1), ("Complete", 1), ("Started", 2), ("Complete", 2), ("Started", 3), ("Complete", 3)])
    );
}

/// Test the scheduler that TimeTariffIntervals that come from different RateComponents do not
/// supersede one another
#[test]
fn schedule_pricing_differing_rate_components() {
    let mut sim = Sim::new(FunctionSet::Pricing, "TimeTariffInterval");
    let first = create_event(EventStatusType::Scheduled, 1, T + 1, 2);
    let second = create_event(EventStatusType::Scheduled, 2, T + 2, 2);
    let third = create_event(EventStatusType::Scheduled, 3, T + 5, 1);
    sim.add(first, 0, 0, 0, T);
    sim.add(second, 0, 32, 0, T);
    sim.add(third, 0, 33, 0, T);
    sim.run_until(T, T + 7);
    assert_eq!(
        sim.logs,
        expected(
            "TimeTariffInterval",
            &[("Started", 1), ("Started", 2), ("Complete", 1), ("Complete", 2), ("Started", 3), ("Complete", 3)]
        )
    );
}

#[test]
fn der_events_with_different_targets_do_not_supersede() {
    let mut sim = Sim::new(FunctionSet::Der, "DERControl");
    let mut first = create_event(EventStatusType::Scheduled, 1, T + 1, 3);
    first.target = 0b01;
    let mut second = create_event(EventStatusType::Scheduled, 2, T + 2, 3);
    second.target = 0b10;
    sim.add(first, 0, 0, 0, T);
    sim.add(second, 0, 0, 0, T);
    sim.run_until(T, T + 6);
    assert_eq!(
        sim.logs,
        expected("DERControl", &[("Started", 1), ("Started", 2), ("Complete", 1), ("Complete", 2)])
    );
}

#[test]
fn new_events_are_acknowledged() {
    let mut sim = Sim::new(FunctionSet::Der, "DERControl");
    sim.add(create_event(EventStatusType::Scheduled, 7, T + 10, 5), 0, 0, 0, T);
    assert_eq!(sim.responses, vec![(7, ResponseStatus::EventReceived)]);
    assert_eq!(sim.events.len(), 1);
    assert_eq!(sim.events.next_start(), Some((T + 10, 7)));
    assert_eq!(sim.events.next_end(), None);
}

#[test]
fn events_arriving_cancelled_are_not_scheduled() {
    let mut sim = Sim::new(FunctionSet::Der, "DERControl");
    sim.add(create_event(EventStatusType::CancelledRandom, 7, T + 10, 5), 0, 0, 0, T);
    sim.add(create_event(EventStatusType::Superseded, 8, T + 10, 5), 0, 0, 0, T);
    assert_eq!(
        sim.responses,
        vec![
            (7, ResponseStatus::EventReceived),
            (7, ResponseStatus::EventCancelled),
            (8, ResponseStatus::EventReceived),
            (8, ResponseStatus::EventSuperseded)
        ]
    );
    assert_eq!(sim.events.len(), 0);
}

#[test]
fn expired_events_are_not_scheduled() {
    let mut sim = Sim::new(FunctionSet::Drlc, "EndDeviceControl");
    sim.add(create_event(EventStatusType::Scheduled, 7, T - 10, 10), 0, 0, 0, T);
    assert_eq!(sim.responses, vec![(7, ResponseStatus::EventReceived), (7, ResponseStatus::EventExpired)]);
    assert_eq!(sim.events.len(), 0);
    // Text messages that have ended are dropped without a response.
    let mut msgs = Sim::new(FunctionSet::Messaging, "TextMessage");
    msgs.add(create_event(EventStatusType::Scheduled, 7, T - 10, 10), 0, 0, 0, T);
    assert_eq!(msgs.responses, vec![(7, ResponseStatus::EventReceived)]);
    assert_eq!(msgs.events.len(), 0);
}

#[test]
fn events_for_other_devices_are_ignored() {
    let mut sim = Sim::new(FunctionSet::Der, "DERControl");
    sim.device_categories = 0b0100;
    let mut event = create_event(EventStatusType::Scheduled, 7, T + 10, 5);
    event.device_category = Some(0b0011);
    sim.add(event, 0, 0, 0, T);
    assert!(sim.responses.is_empty());
    assert_eq!(sim.events.len(), 0);
    event.device_category = Some(0b0110);
    sim.add(event, 0, 0, 0, T);
    assert_eq!(sim.events.len(), 1);
    // Pricing events are not filtered by category.
    let mut prices = Sim::new(FunctionSet::Pricing, "TimeTariffInterval");
    prices.device_categories = 0b0100;
    event.device_category = Some(0b0011);
    prices.add(event, 0, 0, 0, T);
    assert_eq!(prices.events.len(), 1);
}

#[test]
fn der_opt_out_cancels_event() {
    let mut sim = Sim::new(FunctionSet::Der, "DERControl");
    sim.handler_answer = Some(ResponseStatus::EventOptOut);
    sim.add(create_event(EventStatusType::Scheduled, 1, T + 1, 5), 0, 0, 0, T);
    sim.run_until(T, T + 10);
    assert_eq!(sim.logs, expected("DERControl", &[("Started", 1)]));
    assert_eq!(sim.events.get(1).unwrap().status(), EIStatus::Cancelled);
    // In other function sets the event runs its course.
    let mut prices = Sim::new(FunctionSet::Pricing, "TimeTariffInterval");
    prices.handler_answer = Some(ResponseStatus::EventOptOut);
    prices.add(create_event(EventStatusType::Scheduled, 1, T + 1, 5), 0, 0, 0, T);
    prices.run_until(T, T + 10);
    assert_eq!(prices.logs, expected("TimeTariffInterval", &[("Started", 1), ("Complete", 1)]));
}

#[test]
fn superseding_an_active_event_from_another_program_aborts_it() {
    let mut sim = Sim::new(FunctionSet::Der, "DERControl");
    sim.add(create_event(EventStatusType::Scheduled, 1, T + 1, 10), 0, 100, 0, T);
    sim.run_until(T, T + 3);
    sim.add(create_event(EventStatusType::Scheduled, 2, T + 4, 2), 0, 200, 0, T + 3);
    assert!(sim.responses.contains(&(1, ResponseStatus::EventAbortedProgram)));
    // Same program, another server.
    let mut other = Sim::new(FunctionSet::Der, "DERControl");
    other.add(create_event(EventStatusType::Scheduled, 1, T + 1, 10), 0, 100, 0, T);
    other.run_until(T, T + 3);
    other.add(create_event(EventStatusType::Scheduled, 2, T + 4, 2), 0, 100, 1, T + 3);
    assert!(other.responses.contains(&(1, ResponseStatus::EventAbortedServer)));
    // DRLC does not tell servers apart.
    let mut drlc = Sim::new(FunctionSet::Drlc, "EndDeviceControl");
    drlc.add(create_event(EventStatusType::Scheduled, 1, T + 1, 10), 0, 100, 0, T);
    drlc.run_until(T, T + 3);
    drlc.add(create_event(EventStatusType::Scheduled, 2, T + 4, 2), 0, 100, 1, T + 3);
    assert!(drlc.responses.contains(&(1, ResponseStatus::EventSuperseded)));
    // A scheduled event that is superseded is simply superseded.
    let mut sched = Sim::new(FunctionSet::Der, "DERControl");
    sched.add(create_event(EventStatusType::Scheduled, 1, T + 5, 10), 0, 100, 0, T);
    sched.add(create_event(EventStatusType::Scheduled, 2, T + 6, 2), 0, 200, 1, T);
    assert_eq!(sched.responses.last(), Some(&(1, ResponseStatus::EventSuperseded)));
}

#[test]
fn prune_drops_finished_events() {
    let mut sim = Sim::new(FunctionSet::Der, "DERControl");
    sim.add(create_event(EventStatusType::Scheduled, 1, T + 1, 1), 0, 0, 0, T);
    sim.add(create_event(EventStatusType::Scheduled, 2, T + 20, 1), 0, 0, 0, T);
    sim.run_until(T, T + 5);
    assert_eq!(sim.events.get(1).unwrap().status(), EIStatus::Complete);
    let since = sim.stamp;
    sim.events.prune(since);
    assert!(!sim.events.contains(1));
    assert!(sim.events.contains(2));
    assert_eq!(sim.events.next_start(), Some((T + 20, 2)));
}

#[test]
fn randomized_events_stay_within_their_bounds() {
    for _ in 0..20 {
        let mut events: Events<u128> = Events::new();
        let mut info = create_event(EventStatusType::Scheduled, 1, T + 100, 60);
        info.randomize_duration = Some(-30);
        info.randomize_start = Some(45);
        add_event(&mut events, FunctionSet::Der, 1, &info, 0, 0, 0, u32::MAX, T, 1);
        let ei = events.get(1).unwrap();
        assert!(ei.start_time() >= T + 70 && ei.start_time() <= T + 100);
        let extra = ei.end_time() - ei.start_time() - 60;
        assert!((0..=45).contains(&extra));
    }
}

#[test]
fn draws_take_the_sign_of_their_bound() {
    assert_eq!(signed_draw(600, 250), 250);
    assert_eq!(signed_draw(-600, 250), -250);
    assert_eq!(signed_draw(-3600, 3600), -3600);
    assert_eq!(signed_draw(0, 0), 0);
    assert_eq!(randomize(None), 0);
    assert_eq!(randomize(Some(0)), 0);
    for _ in 0..50 {
        let r = randomize(Some(-90));
        assert!((-90..=0).contains(&r));
        let r = randomize(Some(90));
        assert!((0..=90).contains(&r));
    }
}
