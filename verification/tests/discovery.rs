use afc_finder::commands::IdeviceCommands;
use afc_finder::discovery::{
    apps_by_name, device_name, devices_by_name, installed_apps, named_devices, on_listen_event,
    AppInfo, DeviceAnswer, ListenAction, ListenEvent, RECONNECT_DELAY_MS,
};
use idevice::usbmuxd::{Connection, UsbmuxdDevice};
use plist::{Dictionary, Value};

fn device(id: u32) -> UsbmuxdDevice {
    UsbmuxdDevice { connection_type: Connection::Usb, udid: format!("udid-{id}"), device_id: id }
}

fn values(entries: &[(&str, &str)]) -> Value {
    let mut dictionary = Dictionary::new();
    for (key, value) in entries {
        dictionary.insert(key.to_string(), Value::from(*value));
    }
    Value::from(dictionary)
}

#[test]
fn devices_are_looked_for_when_one_comes_or_goes() {
    for event in [ListenEvent::DeviceConnected, ListenEvent::DeviceDisconnected] {
        assert!(matches!(
            on_listen_event(event),
            ListenAction::Request(IdeviceCommands::GetDevices)
        ));
    }
    for event in [
        ListenEvent::ConnectFailed,
        ListenEvent::ListenFailed,
        ListenEvent::StreamFailed,
        ListenEvent::StreamEnded,
    ] {
        assert!(matches!(on_listen_event(event), ListenAction::Reconnect));
    }
    assert_eq!(RECONNECT_DELAY_MS, 500);
}

#[test]
fn device_names_come_from_the_values() {
    assert_eq!(
        device_name(&values(&[("ProductType", "iPhone14,5"), ("DeviceName", "Ana's iPhone")])),
        Some("Ana's iPhone".to_string())
    );
    assert_eq!(device_name(&values(&[("devicename", "x")])), None);
    assert_eq!(device_name(&Value::from("DeviceName")), None);
    let mut dictionary = Dictionary::new();
    dictionary.insert("DeviceName".to_string(), Value::from(5));
    assert_eq!(device_name(&Value::from(dictionary)), None);
}

#[test]
fn devices_are_kept_by_name() {
    let found = named_devices(vec![
        (device(1), Some(values(&[("DeviceName", "phone")]))),
        (device(2), None),
        (device(3), Some(values(&[("DeviceName", "pad")]))),
        (device(4), Some(values(&[("DeviceName", "phone")]))),
    ])
    .unwrap();
    assert_eq!(found.len(), 2);
    assert_eq!(found.get("phone").unwrap().device_id, 4);
    assert_eq!(found.get("pad").unwrap().device_id, 3);
    assert!(named_devices(Vec::new()).unwrap().is_empty());
}

#[test]
fn a_device_that_answers_without_a_name_spoils_the_search() {
    assert!(named_devices(vec![
        (device(1), Some(values(&[("DeviceName", "phone")]))),
        (device(2), Some(values(&[]))),
    ])
    .is_none());
}

#[test]
fn answers_decide_which_devices_are_found() {
    let found = devices_by_name(vec![
        (device(1), DeviceAnswer::Silent),
        (device(2), DeviceAnswer::Named("pad".to_string())),
    ])
    .unwrap();
    assert_eq!(found.len(), 1);
    assert_eq!(found.name(0), "pad");
    assert_eq!(found.value(0).device_id, 2);
    assert!(devices_by_name(vec![(device(1), DeviceAnswer::Nameless)]).is_none());
}

#[test]
fn apps_are_named_by_what_is_known_of_them() {
    let apps = installed_apps(vec![
        (
            "com.example.notes".to_string(),
            values(&[("CFBundleDisplayName", "Notes"), ("CFBundleIdentifier", "other")]),
        ),
        ("com.example.maps".to_string(), values(&[("CFBundleIdentifier", "com.example.Maps")])),
        ("com.example.bare".to_string(), values(&[])),
        ("com.example.odd".to_string(), Value::from(1)),
    ]);
    assert_eq!(apps.len(), 4);
    assert_eq!(apps.get("Notes").unwrap(), "com.example.notes");
    assert_eq!(apps.get("com.example.Maps").unwrap(), "com.example.maps");
    assert_eq!(apps.get("com.example.bare").unwrap(), "com.example.bare");
    assert_eq!(apps.get("com.example.odd").unwrap(), "com.example.odd");
}

#[test]
fn of_two_apps_of_one_name_the_later_counts() {
    let apps = apps_by_name(vec![
        AppInfo {
            bundle_id: "a".to_string(),
            display: Some("Notes".to_string()),
            identifier: None,
        },
        AppInfo {
            bundle_id: "b".to_string(),
            display: None,
            identifier: Some("Notes".to_string()),
        },
        AppInfo { bundle_id: "c".to_string(), display: None, identifier: None },
    ]);
    assert_eq!(apps.len(), 2);
    assert_eq!(apps.get("Notes").unwrap(), "b");
    assert_eq!(apps.get("c").unwrap(), "c");
}
