use reflector_store::cache::CacheMap;
use reflector_store::resource::{Object, ObjectRef, TypeDescriptor};

fn obj(name: &str, namespace: Option<&str>, data: &str) -> Object {
    Object {
        name: name.to_string(),
        namespace: namespace.map(|s| s.to_string()),
        generation: None,
        data: data.to_string(),
    }
}

fn key_of(o: &Object) -> ObjectRef {
    ObjectRef::from_obj_with(o, TypeDescriptor::default())
}

#[test]
fn cache_map_insert_get_remove() {
    let mut m = CacheMap::new();
    assert!(m.is_empty());
    let a = obj("a", Some("ns"), "payload-a");
    let b = obj("b", None, "payload-b");
    m.insert(key_of(&a), a.clone());
    m.insert(key_of(&b), b.clone());
    assert_eq!(m.len(), 2);
    assert_eq!(m.get(&key_of(&a)), Some(&a));
    assert_eq!(m.get(&key_of(&b)), Some(&b));
    m.remove(&key_of(&a));
    assert_eq!(m.len(), 1);
    assert_eq!(m.get(&key_of(&a)), None);
}

#[test]
fn cache_map_insert_same_key_overwrites() {
    let mut m = CacheMap::new();
    let first = obj("a", Some("ns"), "old");
    let second = obj("a", Some("ns"), "new");
    m.insert(key_of(&first), first.clone());
    m.insert(key_of(&second), second.clone());
    assert_eq!(m.len(), 1);
    assert_eq!(m.get(&key_of(&first)), Some(&second));
}

#[test]
fn cache_map_scoped_lookup_falls_back_to_cluster_key() {
    let mut m = CacheMap::new();
    let cluster = obj("shared-name", None, "cluster-wide");
    m.insert(key_of(&cluster), cluster.clone());
    let namespaced_query = key_of(&obj("shared-name", Some("ns"), ""));
    assert_eq!(m.get_scoped(&namespaced_query), Some(cluster));
    // No fallback in the other direction.
    let mut n = CacheMap::new();
    let namespaced = obj("shared-name", Some("ns"), "scoped");
    n.insert(key_of(&namespaced), namespaced);
    let cluster_query = key_of(&obj("shared-name", None, ""));
    assert_eq!(n.get_scoped(&cluster_query), None);
}

#[test]
fn cache_map_values_and_replace_all() {
    let mut m = CacheMap::new();
    let stale = obj("stale", None, "");
    m.insert(key_of(&stale), stale);
    let fresh_a = obj("fresh-a", None, "");
    let fresh_b = obj("fresh-b", Some("ns"), "");
    m.replace_all(&vec![fresh_a.clone(), fresh_b.clone()], &TypeDescriptor::default());
    assert_eq!(m.len(), 2);
    let values = m.values();
    assert!(values.contains(&fresh_a));
    assert!(values.contains(&fresh_b));

    let hit = m.find_first(|o: &Object| o.name == "fresh-b");
    assert_eq!(hit, Some(fresh_b));
    let miss = m.find_first(|o: &Object| o.name == "no-such");
    assert_eq!(miss, None);
}
