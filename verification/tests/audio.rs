//! Endpoints, their batteries, and who holds the microphone.
use audio_tray::audio::battery::{
    battery_of, guid_string, levels, percentage, split_multi_string, Guid, Node,
};
use audio_tray::audio::mic::{
    collect, holding, label, notify_thread, users, wait_ms, ConsentKey, Flip, MicWatch, MAX_DEPTH,
    POLL_MS, RECHECK_MS,
};
use audio_tray::audio::{
    describe, find_device, form_factor_from_code, match_names, position_of, Device, DeviceId,
    FormFactor, QueryError,
};

fn device(id: &str, name: &str) -> Device {
    describe(id.to_string(), Some(name.to_string()), Some(1), None)
}

#[test]
fn form_factors_are_read_by_their_number() {
    let known = [
        (1, FormFactor::Speakers),
        (3, FormFactor::Headphones),
        (4, FormFactor::Microphone),
        (5, FormFactor::Headset),
        (8, FormFactor::Spdif),
        (9, FormFactor::DigitalDisplay),
    ];
    for (code, form) in known {
        assert_eq!(form_factor_from_code(code), form);
    }
    for code in [0, 2, 6, 7, 10, u32::MAX] {
        assert_eq!(form_factor_from_code(code), FormFactor::Unknown);
    }
}

#[test]
fn a_device_is_described_by_what_could_be_read() {
    let d = describe("id".into(), None, None, Some(String::new()));
    assert_eq!(d.id, DeviceId("id".into()));
    assert_eq!(d.friendly_name, "(unknown)");
    assert_eq!(d.form_factor, FormFactor::Unknown);
    assert_eq!(d.container_id, None);
    let d = describe("id".into(), Some("Buds".into()), Some(3), Some("{A}".into()));
    assert_eq!(d.friendly_name, "Buds");
    assert_eq!(d.form_factor, FormFactor::Headphones);
    assert_eq!(d.container_id, Some("{A}".to_string()));
}

#[test]
fn ids_are_compared_as_they_are_written() {
    let a = DeviceId("{0.0.0}".into());
    assert!(a.same(&a.copied()));
    assert!(!a.same(&DeviceId("{0.0.1}".into())));
    let devices = [device("a", "A"), device("b", "B"), device("b", "C")];
    assert_eq!(position_of(&devices, &DeviceId("b".into())), Some(1));
    assert_eq!(position_of(&devices, &DeviceId("B".into())), None);
}

#[test]
fn a_query_names_a_device_by_its_id_first() {
    let devices = [device("speakers", "Headphones"), device("x", "Speakers")];
    assert_eq!(find_device(&devices, "speakers"), Ok(0));
}

#[test]
fn a_query_names_a_device_by_part_of_its_name_in_any_case() {
    let devices = [device("a", "Haut-parleurs ÉCRAN"), device("b", "Casque")];
    assert_eq!(find_device(&devices, "écran"), Ok(0));
    assert_eq!(find_device(&devices, "CASQ"), Ok(1));
}

#[test]
fn a_query_that_names_none_or_several_is_refused() {
    let devices = [device("a", "Speakers (A)"), device("b", "Casque"), device("c", "speakers (B)")];
    assert_eq!(find_device(&devices, "hdmi"), Err(QueryError::NoMatch));
    assert_eq!(find_device(&devices, "Speakers"), Err(QueryError::Ambiguous(vec![0, 2])));
    assert_eq!(find_device(&[], ""), Err(QueryError::NoMatch));
    assert_eq!(find_device(&devices, ""), Err(QueryError::Ambiguous(vec![0, 1, 2])));
}

#[test]
fn names_are_matched_in_order() {
    let names = vec!["abc".to_string(), "xbc".to_string(), "b".to_string()];
    assert_eq!(match_names(&names, "bc"), Err(QueryError::Ambiguous(vec![0, 1])));
    assert_eq!(match_names(&names, "a"), Ok(0));
    assert_eq!(match_names(&names, "z"), Err(QueryError::NoMatch));
}

const CONTAINER: Guid = Guid {
    data1: 0x8C7E_D206,
    data2: 0x3F8A,
    data3: 0x4827,
    data4: [0xB3, 0xAB, 0xAE, 0x9E, 0x1F, 0x0E, 0xFC, 0x6C],
};

#[test]
fn an_identifier_is_written_in_braces_and_upper_case() {
    assert_eq!(guid_string(&CONTAINER), "{8C7ED206-3F8A-4827-B3AB-AE9E1F0EFC6C}");
    let zero = Guid { data1: 0, data2: 0, data3: 0, data4: [0; 8] };
    assert_eq!(guid_string(&zero), "{00000000-0000-0000-0000-000000000000}");
}

#[test]
fn a_multi_string_is_split_at_its_zeros() {
    assert_eq!(
        split_multi_string(&[65, 66, 0, 67, 0, 0]),
        vec![vec![65, 66, 0], vec![67, 0]]
    );
    assert_eq!(split_multi_string(&[0, 0, 65]), vec![vec![65, 0]]);
    assert!(split_multi_string(&[]).is_empty());
    assert!(split_multi_string(&[0]).is_empty());
}

#[test]
fn a_level_is_held_to_a_percentage() {
    assert_eq!((percentage(0), percentage(100), percentage(101)), (0, 100, 100));
}

#[test]
fn only_nodes_with_a_level_and_a_container_report() {
    let nodes = [
        Node { battery: Some(180), container: Some(CONTAINER) },
        Node { battery: None, container: Some(CONTAINER) },
        Node { battery: Some(20), container: None },
        Node { battery: Some(35), container: Some(Guid { data1: 1, ..CONTAINER }) },
    ];
    assert_eq!(
        levels(&nodes),
        vec![
            ("{8C7ED206-3F8A-4827-B3AB-AE9E1F0EFC6C}".to_string(), 100),
            ("{00000001-3F8A-4827-B3AB-AE9E1F0EFC6C}".to_string(), 35),
        ]
    );
}

#[test]
fn a_battery_is_found_by_its_container_in_any_case() {
    let levels = [("{ABCD}".to_string(), 40), ("{abcd}".to_string(), 50)];
    assert_eq!(battery_of(&levels, &Some("{abCD}".to_string())), Some(40));
    assert_eq!(battery_of(&levels, &Some("{other}".to_string())), None);
    assert_eq!(battery_of(&levels, &None), None);
}

fn key(name: &str, start: Option<u64>, stop: Option<u64>, subkeys: Vec<ConsentKey>) -> ConsentKey {
    ConsentKey { name: name.to_string(), start, stop, subkeys }
}

#[test]
fn only_a_stop_since_the_start_releases_the_microphone() {
    assert!(holding(Some(5), None));
    assert!(holding(Some(5), Some(0)));
    assert!(holding(Some(5), Some(4)));
    assert!(!holding(Some(5), Some(5)));
    assert!(!holding(Some(5), Some(6)));
    assert!(!holding(None, None));
    assert!(!holding(Some(0), None));
}

#[test]
fn a_path_of_the_store_is_made_readable() {
    assert_eq!(label("NonPackaged\\C:#Apps#rec.exe"), "C:\\Apps\\rec.exe");
    assert_eq!(label("Family_123"), "Family_123");
    assert_eq!(label("NonPackaged\\NonPackaged\\x"), "x");
}

#[test]
fn the_walk_finds_apps_at_every_level_it_reaches() {
    let desktop = key(
        "NonPackaged",
        None,
        None,
        vec![key("C:#rec.exe", Some(9), None, vec![]), key("D:#idle.exe", Some(9), Some(9), vec![])],
    );
    let deep = key(
        "a",
        None,
        None,
        vec![key("b", None, None, vec![key("c", Some(1), None, vec![key("d", Some(1), None, vec![])])])],
    );
    let root = key("", None, None, vec![key("Packaged", Some(2), Some(1), vec![]), desktop, deep]);
    assert_eq!(users(&[root]), vec!["Packaged", "C:\\rec.exe", "a\\b\\c"]);
    assert_eq!(MAX_DEPTH, 3);
    assert!(users(&[]).is_empty());
}

#[test]
fn a_key_before_those_below_it() {
    let root = key("", None, None, vec![key("x", Some(1), None, vec![key("y", Some(1), None, vec![])])]);
    let mut found = vec!["first".to_string()];
    collect(&root, "", 2, &mut found);
    assert_eq!(found, vec!["first", "x", "x\\y"]);
}

#[test]
fn a_change_is_announced_once_and_only_to_a_thread_that_asked() {
    let mut watch = MicWatch::new();
    assert!(watch.start());
    assert!(!watch.start());
    assert_eq!(watch.announce(), None);
    notify_thread(&mut watch, 77);
    assert_eq!(watch.announce(), Some(77));
    let one = ["app".to_string()];
    assert_eq!(watch.observe(&[]), Flip::Unchanged);
    assert_eq!(watch.observe(&one), Flip::InUse);
    assert!(watch.in_use);
    assert_eq!(watch.observe(&one), Flip::Unchanged);
    assert_eq!(watch.observe(&[]), Flip::Released);
    watch.seed(&one);
    assert!(watch.in_use);
}

#[test]
fn a_store_that_announces_nothing_is_polled() {
    assert_eq!(wait_ms(0), POLL_MS);
    assert_eq!(wait_ms(1), RECHECK_MS);
    assert_eq!((POLL_MS, RECHECK_MS), (2_000, 5_000));
}
