use port_sentinel::registry::{default_node, NodeConfig, NodeRegistry};

fn node(id: &str, name: &str, url: &str, token: Option<&str>) -> NodeConfig {
    NodeConfig {
        id: id.to_string(),
        name: name.to_string(),
        url: url.to_string(),
        token: token.map(|t| t.to_string()),
    }
}

#[test]
fn empty_persistence_bootstraps_single_default_local_node() {
    let registry = NodeRegistry::from_loaded(None);
    let nodes = registry.list();
    assert_eq!(nodes.len(), 1);
    assert_eq!(nodes[0].id, "local");
    assert_eq!(nodes[0].name, "Local Agent");
    assert_eq!(nodes[0].url, "http://127.0.0.1:3001");
    assert_eq!(nodes[0].token.as_deref(), Some("change_me_please"));

    let d = default_node();
    assert_eq!(d.id, "local");
}

#[test]
fn loaded_entries_are_taken_over_first_id_wins() {
    let registry = NodeRegistry::from_loaded(Some(vec![
        node("a", "first", "http://a", None),
        node("b", "second", "http://b", Some("t")),
        node("a", "shadowed", "http://x", None),
    ]));
    let nodes = registry.list();
    assert_eq!(nodes.len(), 2);
    assert_eq!(nodes[0].name, "first");
    assert_eq!(nodes[1].name, "second");
}

#[test]
fn upsert_existing_id_replaces_fields_without_growing() {
    let mut registry = NodeRegistry::from_loaded(Some(vec![
        node("a", "alpha", "http://a", None),
        node("b", "beta", "http://b", None),
    ]));
    registry.upsert(node("a", "renamed", "http://a2", Some("tok")));
    let nodes = registry.list();
    assert_eq!(nodes.len(), 2);
    assert_eq!(nodes[0].id, "a");
    assert_eq!(nodes[0].name, "renamed");
    assert_eq!(nodes[0].url, "http://a2");
    assert_eq!(nodes[0].token.as_deref(), Some("tok"));
    assert_eq!(nodes[1].name, "beta");
}

#[test]
fn upsert_new_id_appends_one_entry() {
    let mut registry = NodeRegistry::from_loaded(None);
    registry.upsert(node("edge", "Edge", "http://edge:3001", None));
    let nodes = registry.list();
    assert_eq!(nodes.len(), 2);
    assert_eq!(nodes[0].id, "local");
    assert_eq!(nodes[1].id, "edge");
}

#[test]
fn delete_removes_exactly_the_matching_id() {
    let mut registry = NodeRegistry::from_loaded(Some(vec![
        node("a", "alpha", "http://a", None),
        node("b", "beta", "http://b", None),
        node("c", "gamma", "http://c", None),
    ]));
    registry.delete("b");
    let nodes = registry.list();
    assert_eq!(nodes.len(), 2);
    assert_eq!(nodes[0].id, "a");
    assert_eq!(nodes[1].id, "c");
    // deleting an unknown id is a no-op
    registry.delete("zzz");
    assert_eq!(registry.list().len(), 2);
}

#[test]
fn token_lookup_follows_the_first_matching_url() {
    let registry = NodeRegistry::from_loaded(Some(vec![
        node("a", "alpha", "http://a", None),
        node("b", "beta", "http://b", Some("secret-b")),
    ]));
    assert_eq!(registry.find_token("http://b").as_deref(), Some("secret-b"));
    assert_eq!(registry.find_token("http://a"), None);
    assert_eq!(registry.find_token("http://unknown"), None);
}
