use reflector_store::event::Event;
use reflector_store::resource::{Object, ObjectRef, TypeDescriptor};
use reflector_store::store::{store, Writer, WriterDropped};

fn obj(name: &str, namespace: Option<&str>) -> Object {
    Object {
        name: name.to_string(),
        namespace: namespace.map(|s| s.to_string()),
        generation: None,
        data: String::new(),
    }
}

fn key_of(o: &Object) -> ObjectRef {
    ObjectRef::from_obj_with(o, TypeDescriptor::default())
}

#[test]
fn should_allow_getting_namespaced_object_by_namespaced_ref() {
    let cm = obj("obj", Some("ns"));
    let mut store_w = Writer::default();
    store_w.apply_watcher_event(&Event::Applied(cm.clone()));
    let store = store_w.as_reader();
    assert_eq!(store.get(&key_of(&cm)).0, Some(cm));
}

#[test]
fn should_not_allow_getting_namespaced_object_by_clusterscoped_ref() {
    let cm = obj("obj", Some("ns"));
    let mut cluster_cm = cm.clone();
    cluster_cm.namespace = None;
    let mut store_w = Writer::default();
    store_w.apply_watcher_event(&Event::Applied(cm));
    let store = store_w.as_reader();
    assert_eq!(store.get(&key_of(&cluster_cm)).0, None);
}

#[test]
fn should_allow_getting_clusterscoped_object_by_clusterscoped_ref() {
    let cm = obj("obj", None);
    let (store, mut writer) = store();
    writer.apply_watcher_event(&Event::Applied(cm.clone()));
    assert_eq!(store.get(&key_of(&cm)).0, Some(cm));
}

#[test]
fn should_allow_getting_clusterscoped_object_by_namespaced_ref() {
    let cm = obj("obj", None);
    let mut nsed_cm = cm.clone();
    nsed_cm.namespace = Some("ns".to_string());
    let mut store_w = Writer::default();
    store_w.apply_watcher_event(&Event::Applied(cm.clone()));
    let store = store_w.as_reader();
    assert_eq!(store.get(&key_of(&nsed_cm)).0, Some(cm));
}

#[test]
fn find_element_in_store() {
    let cm = obj("obj", None);
    let mut target_cm = cm.clone();

    let (reader, mut writer) = store();
    assert!(reader.is_empty().0);
    writer.apply_watcher_event(&Event::Applied(cm));

    assert_eq!(reader.len().0, 1);
    assert!(reader.find(|k| k.generation == Some(1234)).0.is_none());

    target_cm.name = "obj1".to_string();
    target_cm.generation = Some(1234);
    writer.apply_watcher_event(&Event::Applied(target_cm.clone()));
    assert!(!reader.is_empty().0);
    assert_eq!(reader.len().0, 2);
    let found = reader.find(|k| k.generation == Some(1234)).0;
    assert_eq!(found, Some(target_cm));
}

#[test]
fn upsert_overwrites_prior_entry() {
    let (reader, mut writer) = store();
    let mut first = obj("obj", Some("ns"));
    first.data = "one".to_string();
    let mut second = obj("obj", Some("ns"));
    second.data = "two".to_string();
    writer.apply_watcher_event(&Event::Applied(first.clone()));
    writer.apply_watcher_event(&Event::Applied(second.clone()));
    assert_eq!(reader.len().0, 1);
    assert_eq!(reader.get(&key_of(&first)).0, Some(second));
}

#[test]
fn delete_then_get_returns_absent() {
    let (reader, mut writer) = store();
    let cm = obj("obj", Some("ns"));
    writer.apply_watcher_event(&Event::Applied(cm.clone()));
    assert_eq!(reader.get(&key_of(&cm)).0, Some(cm.clone()));
    writer.apply_watcher_event(&Event::Deleted(cm.clone()));
    assert_eq!(reader.get(&key_of(&cm)).0, None);
    assert_eq!(reader.len().0, 0);
}

#[test]
fn delete_of_absent_key_is_a_noop() {
    let (reader, mut writer) = store();
    let present = obj("kept", None);
    let absent = obj("never-stored", None);
    writer.apply_watcher_event(&Event::Applied(present.clone()));
    writer.apply_watcher_event(&Event::Deleted(absent));
    assert_eq!(reader.len().0, 1);
    assert_eq!(reader.get(&key_of(&present)).0, Some(present));
}

#[test]
fn restart_replaces_the_whole_contents() {
    let (reader, mut writer) = store();
    let stale_a = obj("stale-a", Some("ns"));
    let stale_b = obj("stale-b", None);
    writer.apply_watcher_event(&Event::Applied(stale_a.clone()));
    writer.apply_watcher_event(&Event::Applied(stale_b.clone()));
    assert_eq!(reader.len().0, 2);

    let fresh_a = obj("fresh-a", Some("ns"));
    let fresh_b = obj("fresh-b", Some("ns"));
    writer.apply_watcher_event(&Event::Restarted(vec![fresh_a.clone(), fresh_b.clone()]));

    assert_eq!(reader.len().0, 2);
    assert_eq!(reader.get(&key_of(&stale_a)).0, None);
    assert_eq!(reader.get(&key_of(&stale_b)).0, None);
    assert_eq!(reader.get(&key_of(&fresh_a)).0, Some(fresh_a.clone()));
    assert_eq!(reader.get(&key_of(&fresh_b)).0, Some(fresh_b.clone()));

    let listing = reader.state().0;
    assert_eq!(listing.len(), 2);
    assert!(listing.contains(&fresh_a));
    assert!(listing.contains(&fresh_b));
}

#[test]
fn restart_with_duplicate_keys_keeps_the_later_entry() {
    let (reader, mut writer) = store();
    let mut early = obj("obj", Some("ns"));
    early.data = "early".to_string();
    let mut late = obj("obj", Some("ns"));
    late.data = "late".to_string();
    writer.apply_watcher_event(&Event::Restarted(vec![early.clone(), late.clone()]));
    assert_eq!(reader.len().0, 1);
    assert_eq!(reader.get(&key_of(&early)).0, Some(late));
}

#[test]
fn readiness_is_pending_until_first_apply() {
    let (reader, mut writer) = store();
    assert_eq!(reader.check_ready().0, None);
    writer.apply_watcher_event(&Event::Applied(obj("obj", None)));
    assert_eq!(reader.check_ready().0, Some(Ok(())));
}

#[test]
fn readiness_fires_on_any_first_event_kind() {
    let (reader, mut writer) = store();
    writer.apply_watcher_event(&Event::Restarted(Vec::new()));
    assert_eq!(reader.check_ready().0, Some(Ok(())));
    drop(writer);
    // Once set, the signal stays set even after the writer is gone.
    assert_eq!(reader.check_ready().0, Some(Ok(())));
}

#[test]
fn readiness_is_abandoned_when_writer_drops_without_apply() {
    let (reader, writer) = store();
    let second_reader = reader.clone();
    drop(writer);
    assert_eq!(reader.check_ready().0, Some(Err(WriterDropped)));
    assert_eq!(second_reader.check_ready().0, Some(Err(WriterDropped)));
}

#[test]
fn writer_dropped_error_describes_itself() {
    assert_eq!(
        WriterDropped.message(),
        "writer was dropped before store became ready"
    );
}

#[test]
fn cloned_readers_share_the_backing_map() {
    let (reader, mut writer) = store();
    let clone_before = reader.clone();
    writer.apply_watcher_event(&Event::Applied(obj("obj", None)));
    let clone_after = reader.clone();
    let other = writer.as_reader();
    assert_eq!(clone_before.len().0, 1);
    assert_eq!(clone_after.len().0, 1);
    assert_eq!(other.len().0, 1);
}

#[test]
fn descriptor_is_part_of_the_key() {
    let custom = TypeDescriptor {
        api_group: "apps".to_string(),
        kind: "Widget".to_string(),
    };
    let mut writer = Writer::new(custom.clone());
    let reader = writer.as_reader();
    let cm = obj("obj", Some("ns"));
    writer.apply_watcher_event(&Event::Applied(cm.clone()));
    // A key under the default descriptor names a different kind: no match.
    assert_eq!(reader.get(&key_of(&cm)).0, None);
    let keyed = ObjectRef::from_obj_with(&cm, custom);
    assert_eq!(reader.get(&keyed).0, Some(cm));
}

#[test]
fn concrete_scenario_upsert_get_len_find() {
    let (reader, mut writer) = store();
    let namespaced = obj("obj", Some("ns"));
    writer.apply_watcher_event(&Event::Applied(namespaced.clone()));
    assert_eq!(reader.get(&key_of(&namespaced)).0, Some(namespaced.clone()));
    // The cluster-scoped query for the same name finds nothing: the fallback
    // only goes from namespaced queries to cluster-scoped entries.
    let clusterish = obj("obj", None);
    assert_eq!(reader.get(&key_of(&clusterish)).0, None);

    let mut second = obj("obj1", None);
    second.generation = Some(1234);
    writer.apply_watcher_event(&Event::Applied(second.clone()));
    assert_eq!(reader.len().0, 2);
    assert_eq!(
        reader.find(|k| k.generation == Some(1234)).0,
        Some(second)
    );
    assert_eq!(reader.find(|k| k.generation == Some(9999)).0, None);
}
