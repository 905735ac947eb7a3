use std::collections::HashMap;

use ime::story_context_store::{ContextEntity, Contributor, StoryContextStore};

fn entities(store: &StoryContextStore) -> HashMap<String, ContextEntity> {
    store.current().into_iter().map(|e| (e.reference().clone(), e)).collect()
}

#[test]
fn contribute() {
    let mut story_context_store = StoryContextStore::new();

    story_context_store.contribute("story1", "mod-a", "param-foo", "foo");
    story_context_store.contribute("story2", "mod-b", "param-baz", "foo");
    story_context_store.contribute("story1", "mod-a", "param-bar", "bar");

    let mut context_entity_foo = ContextEntity::new("foo");
    context_entity_foo.add_contributor(Contributor::module_new("story1", "mod-a", "param-foo"));
    context_entity_foo.add_contributor(Contributor::module_new("story2", "mod-b", "param-baz"));
    let mut context_entity_bar = ContextEntity::new("bar");
    context_entity_bar.add_contributor(Contributor::module_new("story1", "mod-a", "param-bar"));
    let expected_context_entities: HashMap<String, ContextEntity> =
        [("foo".to_string(), context_entity_foo), ("bar".to_string(), context_entity_bar)]
            .iter()
            .cloned()
            .collect();
    assert_eq!(entities(&story_context_store), expected_context_entities);

    // Contributing the same entity again changes nothing.
    story_context_store.contribute("story1", "mod-a", "param-foo", "foo");
    assert_eq!(entities(&story_context_store), expected_context_entities);
}

#[test]
fn withdraw() {
    let mut story_context_store = StoryContextStore::new();

    story_context_store.contribute("story1", "mod-a", "param-foo", "foo");
    story_context_store.contribute("story2", "mod-b", "param-baz", "foo");
    story_context_store.contribute("story1", "mod-a", "param-bar", "bar");

    story_context_store.withdraw("story2", "mod-b", vec!["param-baz"]);
    story_context_store.withdraw("story1", "mod-a", vec!["param-bar"]);

    let mut context_entity = ContextEntity::new("foo");
    context_entity.add_contributor(Contributor::module_new("story1", "mod-a", "param-foo"));
    let mut expected_context_entities = HashMap::<String, ContextEntity>::new();
    expected_context_entities.insert("foo".to_string(), context_entity);
    assert_eq!(entities(&story_context_store), expected_context_entities);
}

#[test]
fn withdraw_all() {
    let mut story_context_store = StoryContextStore::new();

    story_context_store.contribute("story1", "mod-a", "param-foo", "foo");
    story_context_store.contribute("story2", "mod-b", "param-baz", "foo");
    story_context_store.contribute("story1", "mod-a", "param-bar", "bar");

    story_context_store.withdraw_all("story1", "mod-a");

    let mut context_entity = ContextEntity::new("foo");
    context_entity.add_contributor(Contributor::module_new("story2", "mod-b", "param-baz"));
    let mut expected_context_entities = HashMap::<String, ContextEntity>::new();
    expected_context_entities.insert("foo".to_string(), context_entity);
    assert_eq!(entities(&story_context_store), expected_context_entities);
}

#[test]
fn contribute_moves_a_parameter_to_its_new_reference() {
    let mut store = StoryContextStore::new();
    store.contribute("story1", "mod-a", "param-foo", "foo");
    store.contribute("story1", "mod-a", "param-foo", "bar");

    let mut bar = ContextEntity::new("bar");
    bar.add_contributor(Contributor::module_new("story1", "mod-a", "param-foo"));
    let mut expected = HashMap::<String, ContextEntity>::new();
    expected.insert("bar".to_string(), bar);
    assert_eq!(entities(&store), expected);
}

#[test]
fn new_store_is_empty() {
    let store = StoryContextStore::new();
    assert!(store.current().is_empty());
}

#[test]
fn withdraw_of_unknown_parameters_changes_nothing() {
    let mut store = StoryContextStore::new();
    store.contribute("story1", "mod-a", "param-foo", "foo");
    store.withdraw("story1", "mod-a", vec!["param-bar"]);
    store.withdraw("story2", "mod-a", vec!["param-foo"]);
    store.withdraw_all("story1", "mod-b");
    assert_eq!(store.current().len(), 1);
    assert_eq!(store.current()[0].reference(), "foo");
}

#[test]
fn withdraw_several_parameters_at_once() {
    let mut store = StoryContextStore::new();
    store.contribute("story1", "mod-a", "p1", "foo");
    store.contribute("story1", "mod-a", "p2", "bar");
    store.contribute("story1", "mod-a", "p3", "baz");
    store.withdraw("story1", "mod-a", vec!["p1", "p3"]);

    let mut bar = ContextEntity::new("bar");
    bar.add_contributor(Contributor::module_new("story1", "mod-a", "p2"));
    let mut expected = HashMap::<String, ContextEntity>::new();
    expected.insert("bar".to_string(), bar);
    assert_eq!(entities(&store), expected);
}

#[test]
fn context_entity_equality_ignores_order_and_repeats() {
    let mut a = ContextEntity::new("foo");
    a.add_contributor(Contributor::module_new("s1", "m", "p"));
    a.add_contributor(Contributor::module_new("s2", "m", "p"));
    let mut b = ContextEntity::new("foo");
    b.add_contributor(Contributor::module_new("s2", "m", "p"));
    b.add_contributor(Contributor::module_new("s1", "m", "p"));
    b.add_contributor(Contributor::module_new("s1", "m", "p"));
    assert_eq!(a, b);
    assert_ne!(a, ContextEntity::new("foo"));
    assert_ne!(ContextEntity::new("foo"), ContextEntity::new("bar"));
}

#[test]
fn contributor_module_new_keeps_its_text() {
    let c = Contributor::module_new("story1", "mod-a", "param-foo");
    assert_eq!(
        c,
        Contributor::ModuleContributor {
            story_id: "story1".to_string(),
            module_id: "mod-a".to_string(),
            parameter_name: "param-foo".to_string(),
        }
    );
    assert_ne!(c, Contributor::module_new("story1", "mod-a", "param-bar"));
}
