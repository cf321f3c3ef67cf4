use lili::notification::{HintValue, Notification};
use lili::registry::{Notifications, RegistryError};
use std::collections::HashMap;

fn note(summary: &str, replaces_id: u32) -> Notification {
    Notification {
        app_name: String::from("mail"),
        replaces_id,
        app_icon: String::from("mail-unread"),
        summary: String::from(summary),
        body: String::from("<b>hello</b>"),
        actions: vec![String::from("default"), String::from("Open")],
        hints: HashMap::new(),
        expire_timeout: -1,
    }
}

fn filled(ids: &[u32]) -> Notifications {
    let mut registry = Notifications::new();
    for id in ids {
        assert_eq!(registry.notify(note("seed", *id)), *id);
    }
    registry
}

#[test]
fn new_registry_is_empty() {
    let registry = Notifications::new();
    assert_eq!(registry.len(), 0);
    assert!(registry.snapshot().is_empty());
    assert!(!registry.contains(1));
    assert!(registry.get(1).is_none());
    assert!(registry.has_free_id());
}

#[test]
fn first_fresh_id_is_one() {
    let mut registry = Notifications::new();
    assert_eq!(registry.notify(note("a", 0)), 1);
    assert_eq!(registry.len(), 1);
    assert!(registry.contains(1));
    assert!(!registry.contains(0));
}

#[test]
fn fresh_id_fills_the_lowest_gap() {
    let mut registry = filled(&[1, 2, 4]);
    assert_eq!(registry.notify(note("new", 0)), 3);
    assert_eq!(registry.len(), 4);
    assert_eq!(registry.get(3), Some(&note("new", 0)));
    assert_eq!(registry.notify(note("next", 0)), 5);
}

#[test]
fn fresh_id_skips_a_run_of_used_ids() {
    let mut registry = filled(&[2, 3, 7]);
    assert_eq!(registry.notify(note("a", 0)), 1);
    assert_eq!(registry.notify(note("b", 0)), 4);
    assert_eq!(registry.notify(note("c", 0)), 5);
    assert_eq!(registry.notify(note("d", 0)), 6);
    assert_eq!(registry.notify(note("e", 0)), 8);
}

#[test]
fn replace_into_absent_id_creates_the_entry() {
    let mut registry = Notifications::new();
    assert_eq!(registry.notify(note("five", 5)), 5);
    assert_eq!(registry.len(), 1);
    assert_eq!(registry.get(5), Some(&note("five", 5)));
    assert!(!registry.contains(1));
}

#[test]
fn replace_into_present_id_overwrites_and_keeps_the_id() {
    let mut registry = filled(&[5]);
    assert_eq!(registry.notify(note("again", 5)), 5);
    assert_eq!(registry.len(), 1);
    assert_eq!(registry.get(5), Some(&note("again", 5)));
}

#[test]
fn replace_leaves_other_entries_alone() {
    let mut registry = Notifications::new();
    assert_eq!(registry.notify(note("a", 0)), 1);
    assert_eq!(registry.notify(note("b", 0)), 2);
    assert_eq!(registry.notify(note("b2", 2)), 2);
    assert_eq!(registry.len(), 2);
    assert_eq!(registry.get(1), Some(&note("a", 0)));
    assert_eq!(registry.get(2), Some(&note("b2", 2)));
}

#[test]
fn replace_at_the_largest_id() {
    let mut registry = Notifications::new();
    assert_eq!(registry.notify(note("top", u32::MAX)), u32::MAX);
    assert!(registry.contains(u32::MAX));
    assert_eq!(registry.notify(note("low", 0)), 1);
}

#[test]
fn close_removes_the_entry() {
    let mut registry = filled(&[1, 2]);
    assert_eq!(registry.close_notification(1), Ok(()));
    assert!(!registry.contains(1));
    assert!(!registry.snapshot().contains_key(&1));
    assert_eq!(registry.len(), 1);
    assert_eq!(registry.get(2), Some(&note("seed", 2)));
}

#[test]
fn second_close_is_not_found() {
    let mut registry = filled(&[3]);
    assert_eq!(registry.close_notification(3), Ok(()));
    assert_eq!(registry.close_notification(3), Err(RegistryError::NotFound));
    assert_eq!(registry.len(), 0);
}

#[test]
fn close_of_unknown_id_changes_nothing() {
    let mut registry = filled(&[1, 2]);
    assert_eq!(registry.close_notification(9), Err(RegistryError::NotFound));
    assert_eq!(registry.close_notification(0), Err(RegistryError::NotFound));
    assert_eq!(registry.len(), 2);
    assert!(registry.contains(1));
    assert!(registry.contains(2));
}

#[test]
fn closed_id_is_handed_out_again() {
    let mut registry = Notifications::new();
    assert_eq!(registry.notify(note("A", 0)), 1);
    assert_eq!(registry.notify(note("B", 0)), 2);
    assert_eq!(registry.close_notification(1), Ok(()));
    assert_eq!(registry.notify(note("C", 0)), 1);
    let snapshot = registry.snapshot();
    assert_eq!(snapshot.len(), 2);
    assert_eq!(snapshot.get(&1), Some(&note("C", 0)));
    assert_eq!(snapshot.get(&2), Some(&note("B", 0)));
}

#[test]
fn batch_into_empty_registry_counts_up_from_one() {
    let mut registry = Notifications::new();
    let n: u32 = 200;
    let mut id: u32 = 1;
    while id <= n {
        assert!(registry.has_free_id());
        assert_eq!(registry.notify(note("x", 0)), id);
        id += 1;
    }
    assert_eq!(registry.len(), 200);
    assert_eq!(registry.snapshot().len(), 200);
    let mut k: u32 = 1;
    while k <= n {
        assert!(registry.contains(k));
        k += 1;
    }
    assert!(!registry.contains(201));
}

#[test]
fn fresh_ids_never_repeat_an_open_one() {
    let mut registry = Notifications::new();
    let mut open: Vec<u32> = Vec::new();
    let mut step: u32 = 0;
    while step < 60 {
        let id = registry.notify(note("n", 0));
        assert!(id >= 1);
        assert!(!open.contains(&id));
        open.push(id);
        if step % 3 == 2 {
            let victim = open.remove(0);
            assert_eq!(registry.close_notification(victim), Ok(()));
        }
        step += 1;
    }
    assert_eq!(registry.len(), open.len());
}

#[test]
fn stored_fields_come_back_unchanged() {
    let mut hints: HashMap<String, HintValue> = HashMap::new();
    hints.insert(String::from("urgency"), HintValue::Byte(2));
    hints.insert(String::from("resident"), HintValue::Boolean(true));
    hints.insert(String::from("category"), HintValue::Text(String::from("email.arrived")));
    hints.insert(String::from("image-data"), HintValue::Bytes(vec![0, 255, 7]));
    hints.insert(String::from("x"), HintValue::Int32(-40));
    let sent = Notification {
        app_name: String::from("chat"),
        replaces_id: 0,
        app_icon: String::from("/usr/share/icons/chat.png"),
        summary: String::from("New message"),
        body: String::from("<i>see you at 5</i>"),
        actions: vec![String::from("reply"), String::from("Reply")],
        hints,
        expire_timeout: 0,
    };
    let mut registry = Notifications::new();
    let id = registry.notify(sent.clone());
    assert_eq!(id, 1);
    let kept = registry.get(id).unwrap();
    assert_eq!(kept, &sent);
    assert_eq!(kept.expire_timeout, 0);
    assert_eq!(kept.replaces_id, 0);
    assert_eq!(kept.hints.get("urgency"), Some(&HintValue::Byte(2)));
    assert_eq!(kept.actions, vec![String::from("reply"), String::from("Reply")]);
}

#[test]
fn expire_timeout_values_are_kept() {
    let mut registry = Notifications::new();
    let mut a = note("default", 0);
    a.expire_timeout = -1;
    let mut b = note("never", 0);
    b.expire_timeout = 0;
    let mut c = note("millis", 0);
    c.expire_timeout = 2500;
    let ia = registry.notify(a);
    let ib = registry.notify(b);
    let ic = registry.notify(c);
    assert_eq!(registry.get(ia).unwrap().expire_timeout, -1);
    assert_eq!(registry.get(ib).unwrap().expire_timeout, 0);
    assert_eq!(registry.get(ic).unwrap().expire_timeout, 2500);
}

#[test]
fn capabilities_are_fixed() {
    let mut registry = Notifications::new();
    let expected = vec![
        String::from("icon-static"),
        String::from("body"),
        String::from("body-images"),
        String::from("persistence"),
    ];
    assert_eq!(registry.get_capabilities(), expected);
    registry.notify(note("a", 0));
    assert_eq!(registry.get_capabilities(), expected);
    assert_eq!(registry.get_capabilities(), registry.get_capabilities());
    assert_eq!(registry.len(), 1);
}

#[test]
fn server_information_is_fixed() {
    let mut registry = Notifications::new();
    let expected = (
        String::from("lili"),
        String::from("lili"),
        String::from("0.1"),
        String::from("1.2"),
    );
    assert_eq!(registry.get_server_information(), expected);
    registry.notify(note("a", 0));
    assert_eq!(registry.get_server_information(), expected);
    assert_eq!(registry.len(), 1);
}

#[test]
fn protocol_reports_do_not_touch_the_registry() {
    let mut registry = filled(&[1, 2]);
    registry.notification_closed(1, 3);
    registry.action_invoked(2, String::from("default"));
    registry.activation_token(1, 77);
    registry.notification_closed(9, 1);
    assert_eq!(registry.len(), 2);
    assert_eq!(registry.get(1), Some(&note("seed", 1)));
    assert_eq!(registry.get(2), Some(&note("seed", 2)));
}

#[test]
fn snapshot_matches_the_registry() {
    let mut registry = filled(&[4, 9]);
    assert_eq!(registry.notify(note("one", 0)), 1);
    let snapshot = registry.snapshot();
    assert_eq!(snapshot.len(), 3);
    assert_eq!(snapshot.get(&4), Some(&note("seed", 4)));
    assert_eq!(snapshot.get(&9), Some(&note("seed", 9)));
    assert_eq!(snapshot.get(&1), Some(&note("one", 0)));
    assert!(snapshot.get(&0).is_none());
}
