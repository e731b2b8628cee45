use signal_tones::producer::{POLL_BACKOFF_MS, SYNC_EVENT};
use signal_tones::{
    on_hotplug, on_poll, ActiveSignalSet, Config, DeviceProducer, Frequency, HotplugAction,
    HotplugEvent, HotplugStep, InputEvent, Lid, SetOp, ToneKey, Usb,
};

fn hz(value: f64) -> Frequency {
    Frequency::from_bits(value.to_bits())
}

fn key(source: &str, value: f64) -> ToneKey {
    ToneKey::new(source, hz(value))
}

fn sample_config() -> Config {
    Config::new(
        vec![
            Usb::new("1-1", hz(440.0)),
            Usb::new("1-2", hz(880.0)),
            Usb::new("1-1", hz(660.0)),
        ],
        Some(Lid::new(hz(220.0))),
    )
}

fn names(list: &[&str]) -> Vec<String> {
    list.iter().map(|name| name.to_string()).collect()
}

fn event(kind: u16, value: i32) -> InputEvent {
    InputEvent { kind, code: 0, value }
}

fn plug(subsystem: &str, action: HotplugAction, sysname: &str) -> HotplugEvent {
    HotplugEvent {
        subsystem: Some(subsystem.to_string()),
        action,
        sysname: Some(sysname.to_string()),
    }
}

#[test]
fn producer_starts_on_the_first_matching_device() {
    let list = names(&["Power Button", "Lid Switch", "Video Bus", "Lid Switch"]);
    let lid = DeviceProducer::start("Lid", &sample_config(), &list);
    assert_eq!(lid, Some(DeviceProducer { index: 1, key: Some(key("Lid", 220.0)) }));
    let video = DeviceProducer::start("Video Bus", &sample_config(), &list);
    assert_eq!(video, Some(DeviceProducer { index: 2, key: None }));
}

#[test]
fn producer_does_not_start_without_its_device() {
    let list = names(&["Power Button", "Lid Switch"]);
    assert_eq!(DeviceProducer::start("Headphone", &sample_config(), &list), None);
    assert_eq!(DeviceProducer::start("Lid", &sample_config(), &Vec::new()), None);
}

#[test]
fn value_other_than_zero_switches_on_and_zero_off() {
    let lid = DeviceProducer { index: 0, key: Some(key("Lid", 220.0)) };
    assert_eq!(lid.process(&event(5, 1)), Some(SetOp::Activate(key("Lid", 220.0))));
    assert_eq!(lid.process(&event(5, -1)), Some(SetOp::Activate(key("Lid", 220.0))));
    assert_eq!(lid.process(&event(5, i32::MIN)), Some(SetOp::Activate(key("Lid", 220.0))));
    assert_eq!(lid.process(&event(1, 2)), Some(SetOp::Activate(key("Lid", 220.0))));
    assert_eq!(lid.process(&event(5, 0)), Some(SetOp::Deactivate(key("Lid", 220.0))));
    assert_eq!(lid.process(&event(u16::MAX, 0)), Some(SetOp::Deactivate(key("Lid", 220.0))));
    let other_channel = InputEvent { kind: 5, code: 9, value: 1 };
    assert_eq!(lid.process(&other_channel), Some(SetOp::Activate(key("Lid", 220.0))));
}

#[test]
fn marker_events_do_nothing() {
    assert_eq!(SYNC_EVENT, 0);
    let lid = DeviceProducer { index: 0, key: Some(key("Lid", 220.0)) };
    assert_eq!(lid.process(&event(SYNC_EVENT, 0)), None);
    assert_eq!(lid.process(&event(SYNC_EVENT, 1)), None);
}

#[test]
fn device_without_a_tone_never_writes() {
    let headphone = DeviceProducer { index: 3, key: None };
    assert_eq!(headphone.process(&event(5, 1)), None);
    assert_eq!(headphone.process(&event(5, 0)), None);
    assert_eq!(headphone.process(&event(0, 0)), None);
    let list = names(&["Lid Switch"]);
    let unconfigured = Config::new(Vec::new(), None);
    let lid = DeviceProducer::start("Lid", &unconfigured, &list).unwrap();
    assert_eq!(lid.process(&event(5, 1)), None);
    let muted = Config::new(Vec::new(), Some(Lid::new(hz(-220.0))));
    let lid = DeviceProducer::start("Lid", &muted, &list).unwrap();
    assert_eq!(lid.process(&event(5, 1)), None);
}

#[test]
fn added_port_switches_its_tones_on() {
    let ops = on_hotplug(&sample_config(), &plug("usb", HotplugAction::Add, "1-1"));
    assert_eq!(
        ops,
        vec![SetOp::Activate(key("1-1", 440.0)), SetOp::Activate(key("1-1", 660.0))]
    );
    let ops = on_hotplug(&sample_config(), &plug("usb", HotplugAction::Add, "1-2"));
    assert_eq!(ops, vec![SetOp::Activate(key("1-2", 880.0))]);
}

#[test]
fn removed_port_switches_its_tones_off() {
    let ops = on_hotplug(&sample_config(), &plug("usb", HotplugAction::Remove, "1-1"));
    assert_eq!(
        ops,
        vec![SetOp::Deactivate(key("1-1", 440.0)), SetOp::Deactivate(key("1-1", 660.0))]
    );
    let ops = on_hotplug(&sample_config(), &plug("usb", HotplugAction::Remove, "1-2"));
    assert_eq!(ops, vec![SetOp::Deactivate(key("1-2", 880.0))]);
}

#[test]
fn unrelated_notifications_are_ignored() {
    let config = sample_config();
    assert!(on_hotplug(&config, &plug("usb", HotplugAction::Other, "1-1")).is_empty());
    assert!(on_hotplug(&config, &plug("drm", HotplugAction::Add, "1-1")).is_empty());
    assert!(on_hotplug(&config, &plug("USB", HotplugAction::Add, "1-1")).is_empty());
    assert!(on_hotplug(&config, &plug("usb", HotplugAction::Add, "1-3")).is_empty());
    assert!(on_hotplug(&config, &plug("usb", HotplugAction::Remove, "1-1:1.0")).is_empty());
    assert!(on_hotplug(&config, &plug("usb", HotplugAction::Add, "Lid")).is_empty());
    assert!(on_hotplug(&config, &plug("usb", HotplugAction::Add, "")).is_empty());
    assert!(on_hotplug(&config, &plug("", HotplugAction::Add, "1-1")).is_empty());
}

#[test]
fn notifications_with_a_missing_field_are_dropped() {
    let config = Config::new(vec![Usb::new("", hz(440.0)), Usb::new("1-1", hz(880.0))], None);
    let no_subsystem =
        HotplugEvent { subsystem: None, action: HotplugAction::Add, sysname: Some("1-1".into()) };
    let no_sysname =
        HotplugEvent { subsystem: Some("usb".into()), action: HotplugAction::Add, sysname: None };
    let neither = HotplugEvent { subsystem: None, action: HotplugAction::Remove, sysname: None };
    assert!(on_hotplug(&config, &no_subsystem).is_empty());
    assert!(on_hotplug(&config, &no_sysname).is_empty());
    assert!(on_hotplug(&config, &neither).is_empty());
    let empty_name = plug("usb", HotplugAction::Add, "");
    assert_eq!(on_hotplug(&config, &empty_name), vec![SetOp::Activate(key("", 440.0))]);
}

#[test]
fn usb_tones_need_not_be_above_zero() {
    let config = Config::new(vec![Usb::new("1-1", hz(0.0))], None);
    let ops = on_hotplug(&config, &plug("usb", HotplugAction::Add, "1-1"));
    assert_eq!(ops, vec![SetOp::Activate(key("1-1", 0.0))]);
}

#[test]
fn empty_poll_rests_for_the_backoff() {
    assert_eq!(POLL_BACKOFF_MS, 10);
    assert_eq!(on_poll(&sample_config(), None), HotplugStep::Wait(10));
}

#[test]
fn poll_with_a_notification_yields_its_writes() {
    let config = sample_config();
    let step = on_poll(&config, Some(plug("usb", HotplugAction::Add, "1-2")));
    assert_eq!(step, HotplugStep::Apply(vec![SetOp::Activate(key("1-2", 880.0))]));
    let step = on_poll(&config, Some(plug("drm", HotplugAction::Add, "card0")));
    assert_eq!(step, HotplugStep::Apply(Vec::new()));
}

#[test]
fn producers_write_through_to_the_set() {
    let config = sample_config();
    let list = names(&["Lid Switch"]);
    let lid = DeviceProducer::start("Lid", &config, &list).unwrap();
    let mut set = ActiveSignalSet::new();
    if let Some(op) = lid.process(&event(5, 1)) {
        set.apply(&op);
    }
    set.apply_all(&on_hotplug(&config, &plug("usb", HotplugAction::Add, "1-1")));
    assert_eq!(set.len(), 3);
    assert!(set.contains(&key("Lid", 220.0)));
    assert!(set.contains(&key("1-1", 440.0)));
    assert!(set.contains(&key("1-1", 660.0)));
    set.apply_all(&on_hotplug(&config, &plug("usb", HotplugAction::Remove, "1-1")));
    assert_eq!(set.snapshot(), vec![key("Lid", 220.0)]);
    if let Some(op) = lid.process(&event(5, 0)) {
        set.apply(&op);
    }
    assert!(set.is_empty());
}
