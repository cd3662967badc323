//! The HTTP front-end's logic: the bearer-credential gate, the JSON bodies
//! each route answers with, and the broadcast fan-out that follows a
//! successful mutation. The surrounding process owns routing and transport;
//! every decision and every byte of a body is computed here.

use vstd::prelude::*;
use crate::store::{
    ItemView, ListItem, ListRepo, StoreError, ValidationError, add_transition, has_id, valid_name,
};
use crate::render::{dec_str, error_text, format_list, snapshot_text, u64_to_string, views_of};

verus! {

/// Relies on String::push: appends the given character to the end of the
/// string.
pub assume_specification[ String::push ](s: &mut String, c: char)
    ensures
        final(s)@ == old(s)@.push(c),
;

/// Whether the presented authorization header value is exactly the scheme
/// `Bearer ` followed by the configured secret.
pub open spec fn presents_token(header: Option<&str>, secret: Seq<char>) -> bool {
    match header {
        Some(h) => h@ == "Bearer "@ + secret,
        None => false,
    }
}

/// Validates a presented credential against the configured secret: true only
/// on exact equality with `Bearer <secret>`. A missing header, a malformed
/// scheme, and a mismatched value are all the same negative outcome.
pub fn check_auth(auth_header: Option<&str>, expected_token: &str) -> (ok: bool)
    ensures
        ok == presents_token(auth_header, expected_token@),
{
    match auth_header {
        None => false,
        Some(h) => {
            let mut full = "Bearer ".to_owned();
            full.append(expected_token);
            let presented = h.to_owned();
            presented == full
        },
    }
}

/// The hexadecimal digit for a value between 0 and 15, lower case.
pub open spec fn hex_char(d: int) -> char
    recommends
        0 <= d <= 15,
{
    if d < 10 {
        crate::render::digit_char(d)
    } else if d == 10 {
        'a'
    } else if d == 11 {
        'b'
    } else if d == 12 {
        'c'
    } else if d == 13 {
        'd'
    } else if d == 14 {
        'e'
    } else {
        'f'
    }
}

/// How one character appears inside a JSON string literal.
pub open spec fn json_escaped_char(c: char) -> Seq<char> {
    if c == '"' {
        seq!['\\', '"']
    } else if c == '\\' {
        seq!['\\', '\\']
    } else if c == '\n' {
        seq!['\\', 'n']
    } else if c == '\r' {
        seq!['\\', 'r']
    } else if c == '\t' {
        seq!['\\', 't']
    } else if (c as u32) < 32 {
        seq!['\\', 'u', '0', '0', hex_char(c as int / 16), hex_char(c as int % 16)]
    } else {
        seq![c]
    }
}

/// The body of a JSON string literal.
pub open spec fn json_escaped(s: Seq<char>) -> Seq<char>
    decreases s.len(),
{
    if s.len() == 0 {
        Seq::empty()
    } else {
        json_escaped(s.drop_last()) + json_escaped_char(s.last())
    }
}

/// A JSON string literal: the escaped text between double quotes.
pub open spec fn json_string(s: Seq<char>) -> Seq<char> {
    seq!['"'] + json_escaped(s) + seq!['"']
}

/// The JSON object a single item is reported as.
pub open spec fn item_json(it: ItemView) -> Seq<char> {
    "{\"id\":"@ + dec_str(it.id as int) + ",\"name\":"@ + json_string(it.name) + "}"@
}

/// The comma-separated item objects of a list body, in list order.
pub open spec fn items_array_json(items: Seq<ItemView>) -> Seq<char>
    decreases items.len(),
{
    if items.len() == 0 {
        Seq::empty()
    } else if items.len() == 1 {
        item_json(items[0])
    } else {
        items_array_json(items.drop_last()) + ","@ + item_json(items.last())
    }
}

/// The JSON body listing all current items.
pub open spec fn list_json(items: Seq<ItemView>) -> Seq<char> {
    "{\"items\":["@ + items_array_json(items) + "]}"@
}

/// The JSON body reporting an error message.
pub open spec fn error_json(msg: Seq<char>) -> Seq<char> {
    "{\"error\":"@ + json_string(msg) + "}"@
}

fn hex_char_of(d: u32) -> (c: char)
    requires
        d <= 15,
    ensures
        c == hex_char(d as int),
{
    match d {
        0 => '0',
        1 => '1',
        2 => '2',
        3 => '3',
        4 => '4',
        5 => '5',
        6 => '6',
        7 => '7',
        8 => '8',
        9 => '9',
        10 => 'a',
        11 => 'b',
        12 => 'c',
        13 => 'd',
        14 => 'e',
        _ => 'f',
    }
}

proof fn lemma_json_escaped_take(s: Seq<char>, j: int)
    requires
        0 <= j < s.len(),
    ensures
        json_escaped(s.take(j + 1)) == json_escaped(s.take(j)) + json_escaped_char(s[j]),
{
    assert(s.take(j + 1).drop_last() =~= s.take(j));
    assert(s.take(j + 1).last() == s[j]);
}

#[verifier::loop_isolation(false)]
fn escape_json(s: &str) -> (r: String)
    ensures
        r@ == json_escaped(s@),
{
    let n = s.unicode_len();
    let mut r = "".to_owned();
    proof {
        reveal_strlit("");
        assert(r@ =~= json_escaped(s@.take(0)));
    }
    let mut i: usize = 0;
    while i < n
        invariant
            0 <= i <= n,
            r@ == json_escaped(s@.take(i as int)),
        decreases n - i,
    {
        let c = s.get_char(i);
        proof {
            lemma_json_escaped_take(s@, i as int);
        }
        if c == '"' {
            r.append("\\\"");
            proof {
                reveal_strlit("\\\"");
                assert(r@ =~= json_escaped(s@.take(i as int + 1)));
            }
        } else if c == '\\' {
            r.append("\\\\");
            proof {
                reveal_strlit("\\\\");
                assert(r@ =~= json_escaped(s@.take(i as int + 1)));
            }
        } else if c == '\n' {
            r.append("\\n");
            proof {
                reveal_strlit("\\n");
                assert(r@ =~= json_escaped(s@.take(i as int + 1)));
            }
        } else if c == '\r' {
            r.append("\\r");
            proof {
                reveal_strlit("\\r");
                assert(r@ =~= json_escaped(s@.take(i as int + 1)));
            }
        } else if c == '\t' {
            r.append("\\t");
            proof {
                reveal_strlit("\\t");
                assert(r@ =~= json_escaped(s@.take(i as int + 1)));
            }
        } else if (c as u32) < 32 {
            r.append("\\u00");
            r.push(hex_char_of(c as u32 / 16));
            r.push(hex_char_of(c as u32 % 16));
            proof {
                reveal_strlit("\\u00");
                assert(r@ =~= json_escaped(s@.take(i as int + 1)));
            }
        } else {
            r.push(c);
            proof {
                assert(json_escaped_char(c) =~= seq![c]);
                assert(r@ =~= json_escaped(s@.take(i as int + 1)));
            }
        }
        i = i + 1;
    }
    proof {
        assert(s@.take(n as int) =~= s@);
    }
    r
}

fn json_string_of(s: &str) -> (r: String)
    ensures
        r@ == json_string(s@),
{
    let mut r = "\"".to_owned();
    let escaped = escape_json(s);
    r.append(escaped.as_str());
    r.append("\"");
    proof {
        reveal_strlit("\"");
        assert(r@ =~= json_string(s@));
    }
    r
}

fn item_json_string(item: &ListItem) -> (r: String)
    ensures
        r@ == item_json(item@),
{
    let mut r = "{\"id\":".to_owned();
    let id_text = u64_to_string(item.id);
    r.append(id_text.as_str());
    r.append(",\"name\":");
    let name_text = json_string_of(item.name.as_str());
    r.append(name_text.as_str());
    r.append("}");
    proof {
        assert(r@ =~= item_json(item@));
    }
    r
}

proof fn lemma_items_array_take(items: Seq<ItemView>, j: int)
    requires
        1 <= j < items.len(),
    ensures
        items_array_json(items.take(j + 1)) == items_array_json(items.take(j)) + ","@ + item_json(
            items[j],
        ),
{
    assert(items.take(j + 1).drop_last() =~= items.take(j));
    assert(items.take(j + 1).last() == items[j]);
}

#[verifier::loop_isolation(false)]
fn list_json_string(items: &Vec<ListItem>) -> (r: String)
    ensures
        r@ == list_json(views_of(items@)),
{
    let ghost model = views_of(items@);
    let mut r = "{\"items\":[".to_owned();
    let mut i: usize = 0;
    proof {
        assert(model.take(0) =~= Seq::<ItemView>::empty());
    }
    while i < items.len()
        invariant
            0 <= i <= items@.len(),
            r@ == "{\"items\":["@ + items_array_json(model.take(i as int)),
        decreases items@.len() - i,
    {
        if i > 0 {
            r.append(",");
            proof {
                reveal_strlit(",");
            }
        }
        let entry = item_json_string(&items[i]);
        r.append(entry.as_str());
        proof {
            if i > 0 {
                lemma_items_array_take(model, i as int);
            } else {
                assert(model.take(1) =~= seq![model[0]]);
            }
            assert(r@ =~= "{\"items\":["@ + items_array_json(model.take(i as int + 1)));
        }
        i = i + 1;
    }
    r.append("]}");
    proof {
        assert(model.take(items@.len() as int) =~= model);
        assert(r@ =~= list_json(model));
    }
    r
}

fn error_json_string(msg: &str) -> (r: String)
    ensures
        r@ == error_json(msg@),
{
    let mut r = "{\"error\":".to_owned();
    let quoted = json_string_of(msg);
    r.append(quoted.as_str());
    r.append("}");
    proof {
        assert(r@ =~= error_json(msg@));
    }
    r
}

/// What a route answers: the HTTP status code and the response body (a JSON
/// object on every route but the index, empty on 204).
pub struct ApiReply {
    pub status: u16,
    pub body: String,
}

/// The message broadcast after an addition through the HTTP path.
pub open spec fn api_added_text(name: Seq<char>, items: Seq<ItemView>) -> Seq<char> {
    "✅ Added '"@ + name + "' to list (via API)"@ + snapshot_text(items)
}

/// The message broadcast after a removal through the HTTP path.
pub open spec fn api_removed_text(id: u64, items: Seq<ItemView>) -> Seq<char> {
    "✅ Removed item #"@ + dec_str(id as int) + " from list (via API)"@ + snapshot_text(items)
}

/// The message broadcast after the list is cleared through the HTTP path.
pub open spec fn api_cleared_text() -> Seq<char> {
    "🗑️ List cleared. (via API)"@
}

/// The plaintext usage documentation of the index route.
pub open spec fn docs_text() -> Seq<char> {
    "Shopping List API\n\nAuthentication: Bearer token in Authorization header (all endpoints except this one)\n\nEndpoints:\n  GET    /items      - List all items. Returns: {\"items\": [{\"id\": number, \"name\": string}]}\n  POST   /items      - Add item. Body: {\"name\": string} (max 100 chars). Returns: {\"id\": number, \"name\": string}\n  DELETE /items/{id}  - Remove item by ID. Returns: 204 No Content\n  DELETE /items      - Clear all items. Returns: 204 No Content\n\nError responses: {\"error\": string} with appropriate HTTP status code\n"@
}

/// The index route: plaintext usage documentation, no credential required.
pub fn docs() -> (r: ApiReply)
    ensures
        r.status == 200,
        r.body@ == docs_text(),
{
    ApiReply {
        status: 200,
        body: "Shopping List API\n\nAuthentication: Bearer token in Authorization header (all endpoints except this one)\n\nEndpoints:\n  GET    /items      - List all items. Returns: {\"items\": [{\"id\": number, \"name\": string}]}\n  POST   /items      - Add item. Body: {\"name\": string} (max 100 chars). Returns: {\"id\": number, \"name\": string}\n  DELETE /items/{id}  - Remove item by ID. Returns: 204 No Content\n  DELETE /items      - Clear all items. Returns: 204 No Content\n\nError responses: {\"error\": string} with appropriate HTTP status code\n".to_owned(),
    }
}

fn unauthorized_reply() -> (r: ApiReply)
    ensures
        r.status == 401,
        r.body@ == error_json("unauthorized"@),
{
    let body = error_json_string("unauthorized");
    ApiReply { status: 401, body }
}

/// Lists all current items, gated by the bearer credential. Without the
/// exact credential the store is not touched and the reply is 401.
pub fn list_items(store: &ListRepo, auth_header: Option<&str>, expected_token: &str) -> (r:
    ApiReply)
    requires
        store.wf(),
    ensures
        !presents_token(auth_header, expected_token@) ==> r.status == 401 && r.body@ == error_json(
            "unauthorized"@,
        ),
        presents_token(auth_header, expected_token@) ==> r.status == 200 && r.body@ == list_json(
            store@,
        ),
{
    if !check_auth(auth_header, expected_token) {
        return unauthorized_reply();
    }
    let items = store.list();
    proof {
        assert(views_of(items@) =~= store@);
    }
    let body = list_json_string(&items);
    ApiReply { status: 200, body }
}

/// Adds an item through the HTTP path: the credential is checked before the
/// store is touched; on success the created item is reported and a summary
/// with a fresh snapshot is handed back for broadcast; a validation failure
/// is a 400 with the store untouched and nothing broadcast.
pub fn add_item(store: &mut ListRepo, auth_header: Option<&str>, expected_token: &str, name: &str)
    -> (r: (ApiReply, Option<String>))
    requires
        old(store).wf(),
        old(store).next_id_spec() < u64::MAX,
    ensures
        final(store).wf(),
        !presents_token(auth_header, expected_token@) ==> r.0.status == 401 && r.0.body@
            == error_json("unauthorized"@) && *final(store) == *old(store) && r.1 is None,
        presents_token(auth_header, expected_token@) && valid_name(name@) ==> {
            let it = ItemView { id: old(store).next_id_spec(), name: name@ };
            &&& add_transition(*old(store), *final(store), it)
            &&& r.0.status == 201
            &&& r.0.body@ == item_json(it)
            &&& r.1 matches Some(m) && m@ == api_added_text(name@, final(store)@)
        },
        presents_token(auth_header, expected_token@) && !valid_name(name@) ==> *final(store)
            == *old(store) && r.0.status == 400 && r.0.body@ == error_json(
            error_text(
                if name@.len() == 0 {
                    StoreError::Validation(ValidationError::EmptyName)
                } else {
                    StoreError::Validation(ValidationError::NameTooLong)
                },
            ),
        ) && r.1 is None,
{
    if !check_auth(auth_header, expected_token) {
        return (unauthorized_reply(), None);
    }
    match store.add_item(name) {
        Ok(item) => {
            let body = item_json_string(&item);
            let mut message = "✅ Added '".to_owned();
            message.append(name);
            message.append("' to list (via API)");
            let snapshot = format_list(store);
            message.append(snapshot.as_str());
            proof {
                assert(message@ =~= api_added_text(name@, final(store)@));
            }
            (ApiReply { status: 201, body }, Some(message))
        },
        Err(e) => {
            let msg = e.message();
            let body = error_json_string(msg.as_str());
            (ApiReply { status: 400, body }, None)
        },
    }
}

/// Removes an item through the HTTP path: 204 and a broadcast summary on
/// success, 404 with the store untouched when the id names no current row,
/// 401 before the store is touched without the exact credential.
pub fn remove_item(store: &mut ListRepo, auth_header: Option<&str>, expected_token: &str, id: u64)
    -> (r: (ApiReply, Option<String>))
    requires
        old(store).wf(),
    ensures
        final(store).wf(),
        final(store).next_id_spec() == old(store).next_id_spec(),
        !presents_token(auth_header, expected_token@) ==> r.0.status == 401 && r.0.body@
            == error_json("unauthorized"@) && *final(store) == *old(store) && r.1 is None,
        presents_token(auth_header, expected_token@) && has_id(old(store)@, id) ==> {
            &&& r.0.status == 204
            &&& r.0.body@ == Seq::<char>::empty()
            &&& exists|i: int|
                0 <= i < old(store)@.len() && (#[trigger] old(store)@[i]).id == id
                    && final(store)@ == old(store)@.remove(i)
            &&& r.1 matches Some(m) && m@ == api_removed_text(id, final(store)@)
        },
        presents_token(auth_header, expected_token@) && !has_id(old(store)@, id) ==> *final(store)
            == *old(store) && r.0.status == 404 && r.0.body@ == error_json(
            error_text(StoreError::NotFound(id)),
        ) && r.1 is None,
{
    if !check_auth(auth_header, expected_token) {
        return (unauthorized_reply(), None);
    }
    match store.remove_item(id) {
        Ok(()) => {
            let mut message = "✅ Removed item #".to_owned();
            let id_text = u64_to_string(id);
            message.append(id_text.as_str());
            message.append(" from list (via API)");
            let snapshot = format_list(store);
            message.append(snapshot.as_str());
            proof {
                assert(message@ =~= api_removed_text(id, final(store)@));
                reveal_strlit("");
            }
            (ApiReply { status: 204, body: "".to_owned() }, Some(message))
        },
        Err(e) => {
            let msg = e.message();
            let body = error_json_string(msg.as_str());
            (ApiReply { status: 404, body }, None)
        },
    }
}

/// Clears the list through the HTTP path: 204 and a broadcast summary, or a
/// 401 before the store is touched without the exact credential.
pub fn clear_items(store: &mut ListRepo, auth_header: Option<&str>, expected_token: &str) -> (r: (
    ApiReply,
    Option<String>,
))
    requires
        old(store).wf(),
    ensures
        final(store).wf(),
        final(store).next_id_spec() == old(store).next_id_spec(),
        !presents_token(auth_header, expected_token@) ==> r.0.status == 401 && r.0.body@
            == error_json("unauthorized"@) && *final(store) == *old(store) && r.1 is None,
        presents_token(auth_header, expected_token@) ==> final(store)@ == Seq::<ItemView>::empty()
            && r.0.status == 204 && r.0.body@ == Seq::<char>::empty() && (r.1 matches Some(m)
            && m@ == api_cleared_text()),
{
    if !check_auth(auth_header, expected_token) {
        return (unauthorized_reply(), None);
    }
    store.clear();
    proof {
        reveal_strlit("");
    }
    (
        ApiReply { status: 204, body: "".to_owned() },
        Some("🗑️ List cleared. (via API)".to_owned()),
    )
}

/// The broadcast plan after a successful HTTP mutation: every configured
/// destination is paired with the same message, in configuration order, so a
/// failed delivery to one destination cannot starve another.
pub fn notify(message: &str, chat_ids: &Vec<i64>) -> (out: Vec<(i64, String)>)
    ensures
        out@.len() == chat_ids@.len(),
        forall|i: int|
            0 <= i < out@.len() ==> (#[trigger] out@[i]).0 == chat_ids@[i] && out@[i].1@
                == message@,
{
    let mut out: Vec<(i64, String)> = Vec::new();
    let mut i: usize = 0;
    while i < chat_ids.len()
        invariant
            0 <= i <= chat_ids@.len(),
            out@.len() == i,
            forall|k: int|
                0 <= k < i ==> (#[trigger] out@[k]).0 == chat_ids@[k] && out@[k].1@ == message@,
        decreases chat_ids@.len() - i,
    {
        out.push((chat_ids[i], message.to_owned()));
        i = i + 1;
    }
    out
}

} // verus!
