use sysmon::hub::Hub;
use sysmon::sample::Sample;
use sysmon::sampler::Sampler;

fn sample(cpus: &[f32], used: u64, total: u64) -> Sample {
    Sample::new(cpus.iter().map(|c| c.to_bits()).collect(), used, total).unwrap()
}

fn readings(s: &Sample) -> (Vec<f32>, u64, u64) {
    (
        s.cpus().iter().map(|b| f32::from_bits(*b)).collect(),
        s.memory_used(),
        s.memory_total(),
    )
}

#[test]
fn publish_with_no_subscribers_is_dropped() {
    let mut hub = Hub::new();
    assert_eq!(hub.subscriber_count(), 0);
    hub.publish(&sample(&[1.0], 1, 2));
    assert_eq!(hub.subscriber_count(), 0);
    let sub = hub.subscribe().unwrap();
    assert!(hub.take(&sub).is_none());
}

#[test]
fn publish_reaches_every_subscriber() {
    let mut hub = Hub::new();
    let subs: Vec<_> = (0..5).map(|_| hub.subscribe().unwrap()).collect();
    assert_eq!(hub.subscriber_count(), 5);
    hub.publish(&sample(&[42.0, 7.5], 300, 900));
    for sub in &subs {
        let got = hub.take(sub).unwrap();
        assert_eq!(readings(&got), (vec![42.0, 7.5], 300, 900));
    }
}

#[test]
fn unconsumed_sample_is_overwritten_by_newer() {
    let mut hub = Hub::new();
    let sub = hub.subscribe().unwrap();
    hub.publish(&sample(&[1.0], 10, 20));
    hub.publish(&sample(&[2.0], 11, 20));
    let got = hub.take(&sub).unwrap();
    assert_eq!(readings(&got), (vec![2.0], 11, 20));
    assert!(hub.take(&sub).is_none());
}

#[test]
fn late_subscriber_gets_no_replay() {
    let mut hub = Hub::new();
    let early = hub.subscribe().unwrap();
    hub.publish(&sample(&[5.0], 1, 4));
    let late = hub.subscribe().unwrap();
    assert!(hub.take(&late).is_none());
    hub.publish(&sample(&[6.0], 2, 4));
    assert_eq!(readings(&hub.take(&late).unwrap()), (vec![6.0], 2, 4));
    assert_eq!(readings(&hub.take(&early).unwrap()), (vec![6.0], 2, 4));
}

#[test]
fn disconnect_leaves_others_untouched() {
    let mut hub = Hub::new();
    let a = hub.subscribe().unwrap();
    let b = hub.subscribe().unwrap();
    let c = hub.subscribe().unwrap();
    hub.publish(&sample(&[3.0], 5, 6));
    let b_id = b.id();
    hub.unsubscribe(b);
    assert_eq!(hub.subscriber_count(), 2);
    assert_eq!(readings(&hub.take(&a).unwrap()), (vec![3.0], 5, 6));
    hub.publish(&sample(&[4.0], 5, 6));
    assert_eq!(readings(&hub.take(&a).unwrap()), (vec![4.0], 5, 6));
    assert_eq!(readings(&hub.take(&c).unwrap()), (vec![4.0], 5, 6));
    assert_ne!(a.id(), b_id);
    assert_ne!(c.id(), b_id);
}

#[test]
fn handles_are_distinct() {
    let mut hub = Hub::new();
    let a = hub.subscribe().unwrap();
    let b = hub.subscribe().unwrap();
    hub.unsubscribe(a);
    let c = hub.subscribe().unwrap();
    assert_ne!(b.id(), c.id());
}

#[test]
fn two_subscribers_receive_the_same_tick() {
    let mut hub = Hub::new();
    let first = hub.subscribe().unwrap();
    let second = hub.subscribe().unwrap();
    let sampler = Sampler::new(1, 0, 0);
    assert!(sampler.tick(&mut hub, vec![10.0f32.to_bits()], 1000, 2000));
    let x = hub.take(&first).unwrap();
    let y = hub.take(&second).unwrap();
    assert_eq!(readings(&x), (vec![10.0], 1000, 2000));
    assert_eq!(readings(&x), readings(&y));
}

#[test]
fn sample_keeps_readings_exactly() {
    let s = sample(&[12.5, 0.0, 99.9], 4096, 8192);
    let (cpus, used, total) = readings(&s);
    assert_eq!(cpus, vec![12.5f32, 0.0, 99.9]);
    assert_eq!(used, 4096);
    assert_eq!(total, 8192);
    let copy = s.duplicate();
    assert_eq!(readings(&copy), (vec![12.5f32, 0.0, 99.9], 4096, 8192));
}

#[test]
fn sample_rejects_more_used_than_installed() {
    assert!(Sample::new(vec![0], 2049, 2048).is_none());
    assert!(Sample::new(vec![0], 2048, 2048).is_some());
    assert!(Sample::new(vec![], 0, 0).is_some());
}

#[test]
fn take_with_unknown_handle_yields_nothing() {
    let mut hub = Hub::new();
    let a = hub.subscribe().unwrap();
    hub.unsubscribe(a);
    let mut other = Hub::new();
    let _x = other.subscribe().unwrap();
    let y = other.subscribe().unwrap();
    hub.publish(&sample(&[1.0], 0, 1));
    assert!(hub.take(&y).is_none());
    assert_eq!(hub.subscriber_count(), 0);
}

#[test]
fn wire_frame_round_trip_keeps_readings() {
    let s = sample(&[12.5, 0.0, 99.9], 4096, 8192);
    let (cpus, used, total) = readings(&s);
    let mut frame = serde_json::Map::new();
    frame.insert("cpus".to_string(), serde_json::Value::from(cpus));
    frame.insert("ram".to_string(), serde_json::Value::from(vec![used, total]));
    let text = serde_json::Value::Object(frame).to_string();

    let back: serde_json::Value = serde_json::from_str(&text).unwrap();
    let cpus_back: Vec<f32> = back["cpus"]
        .as_array()
        .unwrap()
        .iter()
        .map(|v| v.as_f64().unwrap() as f32)
        .collect();
    assert_eq!(cpus_back, vec![12.5f32, 0.0, 99.9]);
    assert_eq!(back["ram"][0].as_u64(), Some(4096));
    assert_eq!(back["ram"][1].as_u64(), Some(8192));
}
