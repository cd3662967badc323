use shopping_list::api::{
    add_item, check_auth, clear_items, docs, list_items, notify, remove_item,
};
use shopping_list::store::ListRepo;

const TOKEN: &str = "s3cr3t";
const GOOD: Option<&str> = Some("Bearer s3cr3t");

#[test]
fn check_auth_accepts_only_the_exact_bearer_credential() {
    assert!(check_auth(Some("Bearer s3cr3t"), TOKEN));
    assert!(!check_auth(None, TOKEN));
    assert!(!check_auth(Some("s3cr3t"), TOKEN));
    assert!(!check_auth(Some("bearer s3cr3t"), TOKEN));
    assert!(!check_auth(Some("Bearer s3cr3t "), TOKEN));
    assert!(!check_auth(Some("Bearer wrong"), TOKEN));
    assert!(!check_auth(Some("Bearer "), TOKEN));
}

#[test]
fn mutation_without_credential_is_401_and_store_untouched() {
    let mut store = ListRepo::new();
    let (reply, broadcast) = add_item(&mut store, None, TOKEN, "Milk");
    assert_eq!(reply.status, 401);
    assert_eq!(reply.body, "{\"error\":\"unauthorized\"}");
    assert!(broadcast.is_none());
    let (reply, broadcast) = remove_item(&mut store, Some("Bearer nope"), TOKEN, 1);
    assert_eq!(reply.status, 401);
    assert!(broadcast.is_none());
    let (reply, broadcast) = clear_items(&mut store, Some("token s3cr3t"), TOKEN);
    assert_eq!(reply.status, 401);
    assert!(broadcast.is_none());
    let listing = list_items(&store, None, TOKEN);
    assert_eq!(listing.status, 401);
    assert_eq!(store.list().len(), 0);
    let next = store.add_item("check").unwrap();
    assert_eq!(next.id, 1, "no id may be consumed by a refused mutation");
}

#[test]
fn rest_scenario_add_get_delete_get() {
    let mut store = ListRepo::new();
    let (reply, _broadcast) = add_item(&mut store, GOOD, TOKEN, "Milk");
    assert_eq!(reply.status, 201);
    assert_eq!(reply.body, "{\"id\":1,\"name\":\"Milk\"}");
    let listing = list_items(&store, GOOD, TOKEN);
    assert_eq!(listing.status, 200);
    assert_eq!(listing.body, "{\"items\":[{\"id\":1,\"name\":\"Milk\"}]}");
    let (reply, _broadcast) = remove_item(&mut store, GOOD, TOKEN, 1);
    assert_eq!(reply.status, 204);
    assert_eq!(reply.body, "");
    let listing = list_items(&store, GOOD, TOKEN);
    assert_eq!(listing.status, 200);
    assert_eq!(listing.body, "{\"items\":[]}");
}

#[test]
fn add_with_invalid_name_is_400_and_creates_nothing() {
    let mut store = ListRepo::new();
    let (reply, broadcast) = add_item(&mut store, GOOD, TOKEN, "");
    assert_eq!(reply.status, 400);
    assert_eq!(reply.body, "{\"error\":\"Name cannot be empty\"}");
    assert!(broadcast.is_none());
    let long = "a".repeat(101);
    let (reply, _) = add_item(&mut store, GOOD, TOKEN, &long);
    assert_eq!(reply.status, 400);
    assert_eq!(
        reply.body,
        "{\"error\":\"Name is too long (max 100 characters)\"}"
    );
    assert_eq!(store.list().len(), 0);
}

#[test]
fn remove_unknown_id_is_404() {
    let mut store = ListRepo::new();
    let (reply, broadcast) = remove_item(&mut store, GOOD, TOKEN, 9);
    assert_eq!(reply.status, 404);
    assert_eq!(reply.body, "{\"error\":\"Item with id 9 not found\"}");
    assert!(broadcast.is_none());
}

#[test]
fn successful_mutations_carry_a_broadcast_summary() {
    let mut store = ListRepo::new();
    let (_, broadcast) = add_item(&mut store, GOOD, TOKEN, "Bread");
    assert_eq!(
        broadcast.unwrap(),
        "✅ Added 'Bread' to list (via API)\n\n📋 Current shopping list:\n  1. Bread\n"
    );
    let (_, broadcast) = remove_item(&mut store, GOOD, TOKEN, 1);
    assert_eq!(
        broadcast.unwrap(),
        "✅ Removed item #1 from list (via API)\n📋 List is now empty."
    );
    let (reply, broadcast) = clear_items(&mut store, GOOD, TOKEN);
    assert_eq!(reply.status, 204);
    assert_eq!(broadcast.unwrap(), "🗑️ List cleared. (via API)");
}

#[test]
fn broadcast_reaches_every_configured_destination() {
    let destinations = vec![11, -22, 33];
    let out = notify("✅ Added 'Bread' to list (via API)", &destinations);
    assert_eq!(out.len(), 3);
    for (k, (chat, message)) in out.iter().enumerate() {
        assert_eq!(*chat, destinations[k]);
        assert_eq!(message, "✅ Added 'Bread' to list (via API)");
    }
}

#[test]
fn json_bodies_escape_names() {
    let mut store = ListRepo::new();
    let (reply, _) = add_item(&mut store, GOOD, TOKEN, "say \"hi\"\\");
    assert_eq!(reply.status, 201);
    assert_eq!(reply.body, "{\"id\":1,\"name\":\"say \\\"hi\\\"\\\\\"}");
    let (reply, _) = add_item(&mut store, GOOD, TOKEN, "a\nb\tc\u{1}");
    assert_eq!(reply.body, "{\"id\":2,\"name\":\"a\\nb\\tc\\u0001\"}");
}

#[test]
fn docs_require_no_credential() {
    let reply = docs();
    assert_eq!(reply.status, 200);
    assert!(reply.body.starts_with("Shopping List API\n"));
    assert!(reply.body.contains("DELETE /items/{id}"));
}
