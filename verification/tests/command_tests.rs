use shopping_list::command::{Command, CommandProcessor};
use shopping_list::config::Config;
use shopping_list::store::ListRepo;

fn processor(allowed: Option<&str>) -> CommandProcessor {
    CommandProcessor::new(Config::new("transport-token".to_string(), allowed))
}

#[test]
fn chat_add_replies_with_summary_and_snapshot() {
    let p = processor(Some("42"));
    let mut store = ListRepo::new();
    let reply = p.answer(&mut store, 42, Command::Add("Bread".to_string()));
    assert!(reply.contains("Added 'Bread' to list"));
    assert_eq!(
        reply,
        "✅ Added 'Bread' to list\n\n📋 Current shopping list:\n  1. Bread\n"
    );
    let items = store.list();
    assert_eq!(items.len(), 1);
    assert_eq!(items[0].name, "Bread");
}

#[test]
fn unauthorized_chat_is_refused_without_store_access() {
    let p = processor(Some("42"));
    let mut store = ListRepo::new();
    let reply = p.answer(&mut store, 7, Command::Add("Bread".to_string()));
    assert_eq!(reply, "⛔ This bot is not authorized for use in this chat.");
    assert_eq!(store.list().len(), 0);
    let next = store.add_item("check").unwrap();
    assert_eq!(next.id, 1, "no id may be consumed by a refused command");
}

#[test]
fn empty_allow_list_allows_every_chat() {
    let p = processor(None);
    let mut store = ListRepo::new();
    let reply = p.answer(&mut store, -555, Command::Add("Jam".to_string()));
    assert!(reply.contains("Added 'Jam' to list"));
}

#[test]
fn show_renders_the_list_or_the_empty_notice() {
    let p = processor(None);
    let mut store = ListRepo::new();
    assert_eq!(p.answer(&mut store, 1, Command::Show), "📋 List is empty.");
    p.answer(&mut store, 1, Command::Add("Bread".to_string()));
    p.answer(&mut store, 1, Command::Add("Milk".to_string()));
    assert_eq!(
        p.answer(&mut store, 1, Command::Show),
        "📋 Shopping list:\n  1. Bread\n  2. Milk\n"
    );
}

#[test]
fn chat_remove_replies_with_summary_and_snapshot() {
    let p = processor(None);
    let mut store = ListRepo::new();
    p.answer(&mut store, 1, Command::Add("Bread".to_string()));
    let reply = p.answer(&mut store, 1, Command::Remove(1));
    assert_eq!(reply, "✅ Removed item #1 from list\n📋 List is now empty.");
}

#[test]
fn chat_errors_are_prefixed_and_exact() {
    let p = processor(None);
    let mut store = ListRepo::new();
    assert_eq!(
        p.answer(&mut store, 1, Command::Add(String::new())),
        "❌ Name cannot be empty"
    );
    assert_eq!(
        p.answer(&mut store, 1, Command::Add("a".repeat(101))),
        "❌ Name is too long (max 100 characters)"
    );
    assert_eq!(
        p.answer(&mut store, 1, Command::Remove(3)),
        "❌ Item with id 3 not found"
    );
}

#[test]
fn chat_clear_replies_and_empties_the_list() {
    let p = processor(None);
    let mut store = ListRepo::new();
    p.answer(&mut store, 1, Command::Add("Bread".to_string()));
    assert_eq!(p.answer(&mut store, 1, Command::Clear), "🗑️ List cleared.");
    assert_eq!(store.list().len(), 0);
}

#[test]
fn help_lists_the_commands() {
    let p = processor(None);
    let mut store = ListRepo::new();
    let reply = p.answer(&mut store, 1, Command::Help);
    assert!(reply.starts_with("These commands are supported:"));
    for line in ["/help", "/add", "/remove", "/show", "/clear"] {
        assert!(reply.contains(line));
    }
}

#[test]
fn interleaved_adds_across_interfaces_get_distinct_increasing_ids() {
    let p = processor(None);
    let mut store = ListRepo::new();
    store.add_item("before").unwrap();
    p.answer(&mut store, 1, Command::Add("from chat".to_string()));
    shopping_list::api::add_item(&mut store, Some("Bearer t"), "t", "from api");
    p.answer(&mut store, 2, Command::Add("chat again".to_string()));
    shopping_list::api::add_item(&mut store, Some("Bearer t"), "t", "api again");
    let ids: Vec<u64> = store.list().iter().map(|i| i.id).collect();
    assert_eq!(ids, vec![1, 2, 3, 4, 5]);
    assert!(ids[1..].iter().all(|id| *id > 1), "batch ids exceed every earlier id");
}

#[test]
fn chat_mutation_triggers_no_broadcast_while_api_mutation_does() {
    // The chat path replies only to the issuing chat: `answer` returns the one
    // reply and nothing else, while the HTTP path hands back a broadcast
    // message that `notify` fans out to every configured destination.
    let p = processor(None);
    let mut store = ListRepo::new();
    let _reply: String = p.answer(&mut store, 1, Command::Add("Bread".to_string()));

    let mut api_store = ListRepo::new();
    let (_, broadcast) = shopping_list::api::add_item(
        &mut api_store,
        Some("Bearer t"),
        "t",
        "Bread",
    );
    let message = broadcast.expect("an API mutation must hand back a broadcast message");
    assert!(message.contains("Added 'Bread' to list (via API)"));
    let destinations = vec![5, 6];
    let out = shopping_list::api::notify(&message, &destinations);
    assert_eq!(out.len(), 2);
    assert!(out.iter().all(|(_, m)| m.contains("Added 'Bread' to list (via API)")));
}
