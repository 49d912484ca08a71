use tool_registry::http::{removal_status, STATUS_CREATED, STATUS_NOT_FOUND, STATUS_OK};
use tool_registry::{CreateTool, RemoveError, Tool, ToolRegistry};

fn input(title: &str, link: &str, description: &str, tags: &[&str]) -> CreateTool {
    CreateTool {
        title: title.to_string(),
        link: link.to_string(),
        description: description.to_string(),
        tags: tags.iter().map(|t| t.to_string()).collect(),
    }
}

fn titles(tools: &[Tool]) -> Vec<String> {
    tools.iter().map(|t| t.title.clone()).collect()
}

fn tag(s: &str) -> Option<String> {
    Some(s.to_string())
}

#[test]
fn new_registry_is_empty() {
    let r = ToolRegistry::new();
    assert_eq!(r.len(), 0);
    assert!(r.get_tools(&None).is_empty());
    assert!(r.get_tools(&tag("text")).is_empty());
}

#[test]
fn seeded_registry_holds_notion() {
    let r = ToolRegistry::seeded();
    let all = r.get_tools(&None);
    assert_eq!(all.len(), 1);
    assert_eq!(all[0].title, "Notion");
    assert_eq!(all[0].link, "https://notion.so");
    assert_eq!(all[0].description, "All in one tool");
    assert_eq!(all[0].tags, vec!["text".to_string()]);
    assert!(r.contains_id(all[0].id));
}

#[test]
fn created_tool_listed_exactly_once() {
    let mut r = ToolRegistry::seeded();
    let t = r.create_tool(input("Figma", "https://figma.com", "Design tool", &["design"]));
    let all = r.get_tools(&None);
    assert_eq!(all.len(), 2);
    assert_eq!(all.iter().filter(|x| x.id == t.id).count(), 1);
    let found = all.iter().find(|x| x.id == t.id).unwrap();
    assert_eq!(found.title, "Figma");
    assert_eq!(found.link, "https://figma.com");
    assert_eq!(found.description, "Design tool");
    assert_eq!(found.tags, vec!["design".to_string()]);
}

#[test]
fn tag_filter_includes_and_excludes() {
    let mut r = ToolRegistry::new();
    let t = r.create_tool(input("Docs", "https://docs.example", "Writing", &["text"]));
    let with_text = r.get_tools(&tag("text"));
    assert_eq!(with_text.len(), 1);
    assert_eq!(with_text[0].id, t.id);
    assert!(r.get_tools(&tag("other")).is_empty());
}

#[test]
fn tag_filter_is_exact_and_case_sensitive() {
    let mut r = ToolRegistry::new();
    r.create_tool(input("A", "a", "a", &["Text", "texts"]));
    assert!(r.get_tools(&tag("text")).is_empty());
    assert_eq!(r.get_tools(&tag("Text")).len(), 1);
    assert!(r.get_tools(&tag("")).is_empty());
}

#[test]
fn empty_tag_filter_matches_empty_tag() {
    let mut r = ToolRegistry::new();
    r.create_tool(input("A", "a", "a", &[""]));
    r.create_tool(input("B", "b", "b", &[]));
    assert_eq!(titles(&r.get_tools(&tag(""))), vec!["A".to_string()]);
}

#[test]
fn listing_keeps_creation_order() {
    let mut r = ToolRegistry::new();
    r.create_tool(input("One", "1", "", &["x"]));
    r.create_tool(input("Two", "2", "", &["y"]));
    r.create_tool(input("Three", "3", "", &["x", "y"]));
    assert_eq!(
        titles(&r.get_tools(&None)),
        vec!["One".to_string(), "Two".to_string(), "Three".to_string()]
    );
    assert_eq!(titles(&r.get_tools(&tag("x"))), vec!["One".to_string(), "Three".to_string()]);
    assert_eq!(titles(&r.get_tools(&tag("y"))), vec!["Two".to_string(), "Three".to_string()]);
}

#[test]
fn no_validation_of_fields() {
    let mut r = ToolRegistry::new();
    let t = r.create_tool(input("", "not a url", "", &[]));
    assert_eq!(t.title, "");
    assert_eq!(t.link, "not a url");
    assert_eq!(r.len(), 1);
}

#[test]
fn removing_existing_tool_succeeds_and_hides_it() {
    let mut r = ToolRegistry::seeded();
    let t = r.create_tool(input("Figma", "https://figma.com", "Design tool", &["design"]));
    let removed = r.remove_tool(t.id);
    assert!(removed.is_ok());
    assert_eq!(removed.unwrap().title, "Figma");
    assert!(!r.contains_id(t.id));
    assert!(r.get_tools(&None).iter().all(|x| x.id != t.id));
    assert_eq!(titles(&r.get_tools(&None)), vec!["Notion".to_string()]);
}

#[test]
fn removing_unknown_id_is_not_found_and_changes_nothing() {
    let mut r = ToolRegistry::seeded();
    let before = r.get_tools(&None);
    let unknown = before[0].id.wrapping_add(1);
    let result = r.remove_tool(unknown);
    assert!(matches!(result, Err(RemoveError::NotFound)));
    let after = r.get_tools(&None);
    assert_eq!(after.len(), before.len());
    assert_eq!(after[0].id, before[0].id);
    assert_eq!(after[0].title, before[0].title);
}

#[test]
fn removing_twice_is_not_found_the_second_time() {
    let mut r = ToolRegistry::seeded();
    let id = r.get_tools(&None)[0].id;
    assert!(r.remove_tool(id).is_ok());
    assert!(matches!(r.remove_tool(id), Err(RemoveError::NotFound)));
    assert_eq!(r.len(), 0);
}

#[test]
fn many_creates_get_distinct_ids() {
    let mut r = ToolRegistry::seeded();
    let mut ids: Vec<u128> = vec![r.get_tools(&None)[0].id];
    for i in 0..200 {
        let t = r.create_tool(input(&format!("tool{}", i), "l", "d", &[]));
        assert!(!ids.contains(&t.id));
        ids.push(t.id);
    }
    assert_eq!(r.len(), 201);
}

#[test]
fn created_ids_are_version_seven_uuids() {
    let mut r = ToolRegistry::new();
    let t = r.create_tool(input("A", "a", "a", &[]));
    assert_eq!((t.id >> 76) & 0xf, 7);
    assert_eq!((t.id >> 62) & 0x3, 2);
}

#[test]
fn create_with_free_id_uses_it() {
    let mut r = ToolRegistry::new();
    let t = r.create_with_id(42, input("A", "a", "a", &["t"]));
    assert_eq!(t.id, 42);
    assert!(r.contains_id(42));
}

#[test]
fn create_with_taken_id_takes_next_free() {
    let mut r = ToolRegistry::new();
    r.create_with_id(10, input("A", "a", "a", &[]));
    r.create_with_id(11, input("B", "b", "b", &[]));
    let t = r.create_with_id(10, input("C", "c", "c", &[]));
    assert_eq!(t.id, 12);
    assert_eq!(r.len(), 3);
}

#[test]
fn create_with_taken_id_wraps_around() {
    let mut r = ToolRegistry::new();
    r.create_with_id(u128::MAX, input("A", "a", "a", &[]));
    let t = r.create_with_id(u128::MAX, input("B", "b", "b", &[]));
    assert_eq!(t.id, 0);
}

#[test]
fn has_tag_matches_whole_tags() {
    let t = Tool {
        id: 1,
        title: "T".to_string(),
        link: "l".to_string(),
        description: "d".to_string(),
        tags: vec!["design".to_string(), "text".to_string()],
    };
    assert!(t.has_tag(&"text".to_string()));
    assert!(t.has_tag(&"design".to_string()));
    assert!(!t.has_tag(&"tex".to_string()));
    let c = t.duplicate();
    assert_eq!(c.id, 1);
    assert_eq!(c.tags, t.tags);
}

#[test]
fn removal_status_codes() {
    let mut r = ToolRegistry::seeded();
    let id = r.get_tools(&None)[0].id;
    assert_eq!(removal_status(&r.remove_tool(id)), 200);
    assert_eq!(removal_status(&r.remove_tool(id)), 404);
    assert_eq!(STATUS_OK, 200);
    assert_eq!(STATUS_CREATED, 201);
    assert_eq!(STATUS_NOT_FOUND, 404);
}

#[test]
fn figma_scenario() {
    let mut r = ToolRegistry::seeded();
    let figma = r.create_tool(input("Figma", "https://figma.com", "Design tool", &["design"]));
    assert_ne!(figma.id, r.get_tools(&tag("text"))[0].id);
    let design = r.get_tools(&tag("design"));
    assert_eq!(titles(&design), vec!["Figma".to_string()]);
    assert_eq!(design[0].id, figma.id);
    assert_eq!(removal_status(&r.remove_tool(figma.id)), STATUS_OK);
    assert!(r.get_tools(&tag("design")).is_empty());
    assert_eq!(titles(&r.get_tools(&tag("text"))), vec!["Notion".to_string()]);
}
