use antikoerper::digest::{capture_samples, Capture, DigestKind};
use antikoerper::plugin::{parse_performance, split_status_line};
use antikoerper::sample::{SampleSet, SampleValue};

fn number(v: &SampleValue) -> f64 {
    match v {
        SampleValue::Number { text, scale } => text.parse::<f64>().unwrap() * 1024f64.powi(*scale as i32),
        SampleValue::NotANumber => f64::NAN,
    }
}

fn value_of(set: &SampleSet, name: &str) -> f64 {
    number(set.get(name).unwrap())
}

#[test]
fn monitoring_plugin_regex_match() {
    let check_load = r"LOAD OK - load average: 0.31, 0.37, 0.29|load1=0.310;10.000;15.000;0; load5=0.370;5.000;6.000;0; load15=0.290;3.000;4.000;0;";
    let line = split_status_line(check_load);
    assert!(line.is_some());
    let line = line.unwrap();
    assert_eq!(Some(line.status.as_str()), Some("OK"));
    let perf = line.performance.as_str();
    assert_eq!(
        perf,
        r"load1=0.310;10.000;15.000;0; load5=0.370;5.000;6.000;0; load15=0.290;3.000;4.000;0;"
    );
    let entries = parse_performance(perf);
    let mut ci = entries.iter();

    let capture = ci.next();
    assert!(capture.is_some());
    let capture = capture.unwrap();
    assert_eq!(capture.label, "load1");
    assert_eq!(capture.value, "0.310");
    assert!(capture.unit.is_none());
    assert_eq!(capture.warn.as_deref().unwrap(), "10.000");
    assert_eq!(capture.crit.as_deref().unwrap(), "15.000");
    assert_eq!(capture.min.as_deref().unwrap(), "0");
    assert!(capture.max.is_none());

    let capture = ci.next();
    assert!(capture.is_some());
    let capture = capture.unwrap();
    assert_eq!(capture.label, "load5");
    assert_eq!(capture.value, "0.370");
    assert!(capture.unit.is_none());
    assert_eq!(capture.warn.as_deref().unwrap(), "5.000");
    assert_eq!(capture.crit.as_deref().unwrap(), "6.000");
    assert_eq!(capture.min.as_deref().unwrap(), "0");
    assert!(capture.max.is_none());

    let capture = ci.next();
    assert!(capture.is_some());
    let capture = capture.unwrap();
    assert_eq!(capture.label, "load15");
    assert_eq!(capture.value, "0.290");
    assert!(capture.unit.is_none());
    assert_eq!(capture.warn.as_deref().unwrap(), "3.000");
    assert_eq!(capture.crit.as_deref().unwrap(), "4.000");
    assert_eq!(capture.min.as_deref().unwrap(), "0");
    assert!(capture.max.is_none());

    let capture = ci.next();
    assert!(capture.is_none());
}

#[test]
fn raw_mode_reads_one_number() {
    let r = DigestKind::Raw.digest("42.5\n", "k");
    assert_eq!(r.values.len(), 1);
    assert_eq!(value_of(&r.values, "k.parsed"), 42.5);
    assert_eq!(r.key, "k");
    assert_eq!(r.raw, "42.5");
}

#[test]
fn raw_mode_keeps_text_that_is_no_number() {
    let r = DigestKind::Raw.digest("not-a-number", "k");
    assert!(r.values.is_empty());
    assert_eq!(r.raw, "not-a-number");
}

#[test]
fn raw_mode_number_forms() {
    for t in ["1e5", ".5", "5.", "-3", "+2.5E-3"] {
        assert_eq!(DigestKind::Raw.digest(t, "k").values.len(), 1, "{}", t);
    }
    for t in ["", "-", ".", "1e", "e5", "1.2.3", "0x10", "inf"] {
        assert!(DigestKind::Raw.digest(t, "k").values.is_empty(), "{}", t);
    }
}

#[test]
fn regex_mode_named_group() {
    let d = DigestKind::Regex { regex: r"(?P<val>\d+)".to_string() };
    let r = d.digest("cpu=73", "k");
    assert_eq!(r.values.len(), 1);
    assert_eq!(value_of(&r.values, "k.val"), 73.0);
}

#[test]
fn regex_mode_unparsable_capture_is_nan() {
    let d = DigestKind::Regex { regex: r"(?P<word>[a-z]+)(?P<opt>\d+)?".to_string() };
    let r = d.digest("abc", "k");
    assert_eq!(r.values.len(), 2);
    assert_eq!(r.values.get("k.word"), Some(&SampleValue::NotANumber));
    assert_eq!(r.values.get("k.opt"), Some(&SampleValue::NotANumber));
}

#[test]
fn regex_mode_without_match_is_empty() {
    let d = DigestKind::Regex { regex: r"(?P<val>\d+)".to_string() };
    assert!(d.digest("none here", "k").values.is_empty());
    let bad = DigestKind::Regex { regex: r"(?P<val>\d+".to_string() };
    assert!(bad.digest("12", "k").values.is_empty());
}

#[test]
fn monitoring_plugin_samples() {
    let r = DigestKind::MonitoringPlugin.digest("LOAD OK - x|load1=0.31;10;15;0;", "k");
    assert_eq!(value_of(&r.values, "k.status"), 0.0);
    assert_eq!(value_of(&r.values, "k.load1"), 0.31);
    assert_eq!(value_of(&r.values, "k.load1.warn"), 10.0);
    assert_eq!(value_of(&r.values, "k.load1.crit"), 15.0);
    assert_eq!(value_of(&r.values, "k.load1.min"), 0.0);
    assert!(r.values.get("k.load1.max").is_none());
    assert_eq!(r.values.len(), 5);
}

#[test]
fn monitoring_plugin_status_codes() {
    for (word, code) in [("OK", 0.0), ("WARNING", 1.0), ("CRITICAL", 2.0), ("UNKNOWN", 3.0)] {
        let r = DigestKind::MonitoringPlugin.digest(&format!("DISK {} |a=1", word), "k");
        assert_eq!(value_of(&r.values, "k.status"), code);
        assert_eq!(value_of(&r.values, "k.a"), 1.0);
    }
}

#[test]
fn monitoring_plugin_needs_status_and_separator() {
    assert!(DigestKind::MonitoringPlugin.digest("no status|a=1", "k").values.is_empty());
    assert!(DigestKind::MonitoringPlugin.digest("OK a=1", "k").values.is_empty());
}

#[test]
fn unit_scaling() {
    let r = DigestKind::MonitoringPlugin.digest("OK|mem=2MB", "k");
    assert_eq!(value_of(&r.values, "k.mem"), 2.0 * 1024.0 * 1024.0);
    let r = DigestKind::MonitoringPlugin.digest("OK|disk=3KB;1;2;0;4 t=5ms", "k");
    assert_eq!(value_of(&r.values, "k.disk"), 3072.0);
    assert_eq!(value_of(&r.values, "k.disk.warn"), 1024.0);
    assert_eq!(value_of(&r.values, "k.disk.max"), 4096.0);
    assert_eq!(value_of(&r.values, "k.t"), 5.0);
}

#[test]
fn unparsable_entries_are_skipped() {
    let r = DigestKind::MonitoringPlugin.digest("OK|a=x b=1XB c=2;foo;3 =4 d=5", "k");
    assert!(r.values.get("k.a").is_none());
    assert!(r.values.get("k.b").is_none());
    assert_eq!(value_of(&r.values, "k.c"), 2.0);
    assert!(r.values.get("k.c.warn").is_none());
    assert_eq!(value_of(&r.values, "k.c.crit"), 3.0);
    assert_eq!(value_of(&r.values, "k.d"), 5.0);
    assert_eq!(r.values.len(), 4);
}

#[test]
fn repeated_label_keeps_last_value() {
    let r = DigestKind::MonitoringPlugin.digest("OK|a=1 a=2", "k");
    assert_eq!(r.values.len(), 2);
    assert_eq!(value_of(&r.values, "k.a"), 2.0);
}

#[test]
fn digest_is_idempotent() {
    for d in [DigestKind::Raw, DigestKind::MonitoringPlugin, DigestKind::Regex { regex: r"(?P<v>\d+)".to_string() }] {
        let a = d.digest(" OK|x=1;2 \n", "k");
        let b = d.digest(" OK|x=1;2 \n", "k");
        assert_eq!(a.values.samples().len(), b.values.samples().len());
        for s in a.values.samples() {
            assert_eq!(b.values.get(&s.name), Some(&s.value));
        }
    }
}

#[test]
fn captures_become_samples() {
    let caps = vec![
        Capture { name: "a".to_string(), text: Some("1.5".to_string()) },
        Capture { name: "b".to_string(), text: Some("x".to_string()) },
        Capture { name: "c".to_string(), text: None },
    ];
    let s = capture_samples("k", &caps);
    assert_eq!(s.len(), 3);
    assert_eq!(value_of(&s, "k.a"), 1.5);
    assert_eq!(s.get("k.b"), Some(&SampleValue::NotANumber));
    assert_eq!(s.get("k.c"), Some(&SampleValue::NotANumber));
    assert!(capture_samples("k", &Vec::new()).is_empty());
}
