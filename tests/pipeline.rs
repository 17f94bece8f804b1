use antikoerper::bus::{Bus, Received};
use antikoerper::digest::DigestKind;
use antikoerper::item::{ExecError, Item, ItemKind, Schedule};
use antikoerper::output::{records, FileOutput, RawPolicy, Record};
use antikoerper::sample::SampleValue;

fn item(digest: DigestKind) -> Item {
    Item {
        interval: 10,
        key: "x".to_string(),
        env: Vec::new(),
        kind: ItemKind::Shell { script: "echo 1".to_string() },
        digest,
    }
}

#[test]
fn lagging_subscriber_is_told_how_many_it_missed() {
    let mut bus: Bus<u32> = Bus::new(3);
    let mut c = bus.subscribe();
    for m in 0..5u32 {
        bus.publish(m);
    }
    assert_eq!(bus.recv(&mut c), Received::Lagged(2));
    assert_eq!(bus.recv(&mut c), Received::Message(&2));
    assert_eq!(bus.recv(&mut c), Received::Message(&3));
    assert_eq!(bus.recv(&mut c), Received::Message(&4));
    assert_eq!(bus.recv(&mut c), Received::Empty);
    bus.publish(5);
    assert_eq!(bus.recv(&mut c), Received::Message(&5));
}

#[test]
fn every_subscriber_sees_each_message() {
    let mut bus: Bus<String> = Bus::new(100);
    let mut a = bus.subscribe();
    let mut b = bus.subscribe();
    bus.publish("r1".to_string());
    let ra = bus.recv(&mut a);
    let rb = bus.recv(&mut b);
    assert_eq!(ra, Received::Message(&"r1".to_string()));
    assert_eq!(ra, rb);
    let late = bus.subscribe();
    assert_eq!(late.next, 1);
}

#[test]
fn failed_collection_publishes_nothing() {
    let it = item(DigestKind::Raw);
    assert!(it.on_collected(Err(ExecError::Spawn)).is_none());
    assert!(it.on_collected(Err(ExecError::Io)).is_none());
    assert!(it.on_collected(Err(ExecError::Encoding)).is_none());
    let r = it.on_collected(Ok("7\n".to_string())).unwrap();
    assert_eq!(r.key, "x");
    assert_eq!(r.raw, "7");
    assert_eq!(
        r.values.get("x.parsed"),
        Some(&SampleValue::Number { text: "7".to_string(), scale: 0 })
    );
}

#[test]
fn schedule_is_fixed_period() {
    let mut s = Schedule::new(10);
    assert_eq!(s.deadline(), Some(10));
    s.complete(13);
    assert_eq!(s.deadline(), Some(20));
    s.complete(29);
    assert_eq!(s.deadline(), Some(30));
    // a tick whose work runs long is followed by one tick at once, not a burst
    s.complete(75);
    assert_eq!(s.next, 7);
    assert_eq!(s.deadline(), Some(70));
    s.complete(75);
    assert_eq!(s.deadline(), Some(80));
}

#[test]
fn schedule_deadline_overflow() {
    let s = Schedule { interval: u64::MAX, next: 2 };
    assert_eq!(s.deadline(), None);
}

#[test]
fn shell_runs_through_configured_shell() {
    let k = ItemKind::Shell { script: "uptime".to_string() };
    let (p, a) = k.command_line("/bin/sh").unwrap();
    assert_eq!(p, "/bin/sh");
    assert_eq!(a, vec!["-c".to_string(), "uptime".to_string()]);
    let c = ItemKind::Command { path: "/bin/ls".to_string(), args: vec!["-l".to_string()] };
    assert_eq!(c.command_line("/bin/sh"), Some(("/bin/ls".to_string(), vec!["-l".to_string()])));
    assert!(ItemKind::File { path: "/proc/loadavg".to_string() }.command_line("/bin/sh").is_none());
}

#[test]
fn file_names_replace_slashes() {
    assert_eq!(FileOutput::file_name_of("disk./home/u.free"), "disk._home_u.free");
    assert_eq!(FileOutput::file_name_of("plain"), "plain");
}

#[test]
fn raw_text_is_written_as_fallback() {
    let it = item(DigestKind::Raw);
    let empty = it.on_collected(Ok("n/a".to_string())).unwrap();
    let full = it.on_collected(Ok("3".to_string())).unwrap();
    let file = FileOutput { base_path: "/tmp".to_string(), always_write_raw: false };
    let recs = records(file.policy(), &empty);
    assert_eq!(recs.len(), 1);
    match &recs[0] {
        Record::Raw { key, text } => {
            assert_eq!(key, "x.raw");
            assert_eq!(text, "n/a");
        }
        _ => panic!("expected raw text"),
    }
    let recs = records(file.policy(), &full);
    assert_eq!(recs.len(), 1);
    assert!(matches!(&recs[0], Record::Value { key, .. } if key == "x.parsed"));

    let influx = RawPolicy { always_write_raw: false, use_raw_as_fallback: false };
    assert!(records(influx, &empty).is_empty());
    let always = RawPolicy { always_write_raw: true, use_raw_as_fallback: false };
    let recs = records(always, &full);
    assert_eq!(recs.len(), 2);
    assert!(matches!(&recs[0], Record::Raw { key, .. } if key == "x.raw"));
}

#[test]
fn closed_bus_ends_receiving() {
    let mut bus: Bus<u8> = Bus::new(2);
    let mut c = bus.subscribe();
    bus.publish(9);
    assert!(bus.is_open());
    bus.close();
    assert!(!bus.is_open());
    assert_eq!(bus.recv(&mut c), Received::Message(&9));
    assert_eq!(bus.recv(&mut c), Received::Closed);
}
