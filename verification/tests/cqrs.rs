use xiangqi_rim::cqrs::{Bus, Command, Event, Kind};

#[test]
fn dispatch() {
    let mut bus = Bus::new(16, 64);
    assert!(bus.send(Command::Stop));
    assert!(bus.emit(Event::Ready));
    let first = bus.poll();
    assert!(first.is_some());
    assert_eq!(first.unwrap().kind, Kind::Command);
    let second = bus.poll();
    assert!(second.is_some());
    assert_eq!(second.unwrap().kind, Kind::Event);
    assert_eq!(bus.store.len(), 2);
}
