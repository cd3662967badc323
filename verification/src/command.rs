//! The chat front-end's logic: one command in, one reply out. The reply is
//! sent only to the issuing chat — the chat path never broadcasts, since its
//! normal reply channel already reaches that chat. Authorization here is
//! per-chat allow-listing, independent of the HTTP path's bearer credential.

use vstd::prelude::*;
use crate::config::Config;
use crate::render::{
    dec_str, error_text, format_list, show_list, show_text, snapshot_text, u64_to_string,
};
use crate::store::{
    ItemView, ListRepo, StoreError, ValidationError, add_transition, has_id, valid_name,
};

verus! {

/// One chat command, already parsed by the transport.
#[derive(Clone, Debug)]
pub enum Command {
    Help,
    Add(String),
    Remove(u64),
    Show,
    Clear,
}

/// The fixed reply an unauthorized chat receives; the store is not touched.
pub open spec fn refusal_text() -> Seq<char> {
    "⛔ This bot is not authorized for use in this chat."@
}

/// The command list the `help` command replies with.
pub open spec fn help_text() -> Seq<char> {
    "These commands are supported:\n/help — display this text.\n/add — add a shopping list item.\n/remove — remove a shopping list item by number.\n/show — show shopping list.\n/clear — clear shopping list."@
}

/// The reply to a successful `add`, with a fresh snapshot.
pub open spec fn added_text(name: Seq<char>, items: Seq<ItemView>) -> Seq<char> {
    "✅ Added '"@ + name + "' to list"@ + snapshot_text(items)
}

/// The reply to a successful `remove`, with a fresh snapshot.
pub open spec fn removed_text(id: u64, items: Seq<ItemView>) -> Seq<char> {
    "✅ Removed item #"@ + dec_str(id as int) + " from list"@ + snapshot_text(items)
}

/// The reply to a successful `clear`.
pub open spec fn cleared_text() -> Seq<char> {
    "🗑️ List cleared."@
}

/// How a store error is reported back to the issuing chat.
pub open spec fn error_reply(e: StoreError) -> Seq<char> {
    "❌ "@ + error_text(e)
}

/// Adapts chat commands to store calls and renders the reply for the issuing
/// chat.
pub struct CommandProcessor {
    config: Config,
}

impl CommandProcessor {
    /// The configured allow-list; empty means every chat is allowed.
    pub closed spec fn allowed_spec(&self) -> Seq<i64> {
        self.config.allowed_spec()
    }

    /// Whether a chat may issue commands.
    pub open spec fn chat_allowed(&self, chat_id: i64) -> bool {
        self.allowed_spec().len() == 0 || self.allowed_spec().contains(chat_id)
    }

    pub fn new(config: Config) -> (p: Self)
        ensures
            p.allowed_spec() == config.allowed_spec(),
    {
        CommandProcessor { config }
    }

    /// Handles one command from one chat: refuses unauthorized chats with a
    /// fixed message and no store access, otherwise performs the store call
    /// and renders the reply — a summary plus a fresh snapshot on success,
    /// the error message otherwise.
    pub fn answer(&self, store: &mut ListRepo, chat_id: i64, cmd: Command) -> (reply: String)
        requires
            old(store).wf(),
            old(store).next_id_spec() < u64::MAX,
        ensures
            final(store).wf(),
            !self.chat_allowed(chat_id) ==> reply@ == refusal_text()
                && *final(store) == *old(store),
            self.chat_allowed(chat_id) ==> match cmd {
                Command::Help => reply@ == help_text() && *final(store) == *old(store),
                Command::Add(name) => {
                    if valid_name(name@) {
                        let it = (ItemView { id: old(store).next_id_spec(), name: name@ });
                        &&& add_transition(*old(store), *final(store), it)
                        &&& reply@ == added_text(name@, final(store)@)
                    } else {
                        &&& *final(store) == *old(store)
                        &&& reply@ == error_reply(
                            if name@.len() == 0 {
                                StoreError::Validation(ValidationError::EmptyName)
                            } else {
                                StoreError::Validation(ValidationError::NameTooLong)
                            },
                        )
                    }
                },
                Command::Remove(id) => {
                    if has_id(old(store)@, id) {
                        &&& final(store).next_id_spec() == old(store).next_id_spec()
                        &&& exists|i: int|
                            0 <= i < old(store)@.len() && (#[trigger] old(store)@[i]).id == id
                                && final(store)@ == old(store)@.remove(i)
                        &&& reply@ == removed_text(id, final(store)@)
                    } else {
                        &&& *final(store) == *old(store)
                        &&& reply@ == error_reply(StoreError::NotFound(id))
                    }
                },
                Command::Show => reply@ == show_text(old(store)@) && *final(store) == *old(store),
                Command::Clear => final(store)@ == Seq::<ItemView>::empty()
                    && final(store).next_id_spec() == old(store).next_id_spec()
                    && reply@ == cleared_text(),
            },
    {
        if !self.config.is_chat_allowed(chat_id) {
            return "⛔ This bot is not authorized for use in this chat.".to_owned();
        }
        match cmd {
            Command::Help => {
                "These commands are supported:\n/help — display this text.\n/add — add a shopping list item.\n/remove — remove a shopping list item by number.\n/show — show shopping list.\n/clear — clear shopping list.".to_owned()
            },
            Command::Add(name) => {
                match store.add_item(name.as_str()) {
                    Ok(item) => {
                        let mut reply = "✅ Added '".to_owned();
                        reply.append(name.as_str());
                        reply.append("' to list");
                        let snapshot = format_list(store);
                        reply.append(snapshot.as_str());
                        proof {
                            assert(reply@ =~= added_text(name@, final(store)@));
                        }
                        reply
                    },
                    Err(e) => {
                        let mut reply = "❌ ".to_owned();
                        let msg = e.message();
                        reply.append(msg.as_str());
                        proof {
                            assert(reply@ =~= error_reply(e));
                        }
                        reply
                    },
                }
            },
            Command::Remove(id) => {
                match store.remove_item(id) {
                    Ok(()) => {
                        let mut reply = "✅ Removed item #".to_owned();
                        let id_text = u64_to_string(id);
                        reply.append(id_text.as_str());
                        reply.append(" from list");
                        let snapshot = format_list(store);
                        reply.append(snapshot.as_str());
                        proof {
                            assert(reply@ =~= removed_text(id, final(store)@));
                        }
                        reply
                    },
                    Err(e) => {
                        let mut reply = "❌ ".to_owned();
                        let msg = e.message();
                        reply.append(msg.as_str());
                        proof {
                            assert(reply@ =~= error_reply(e));
                        }
                        reply
                    },
                }
            },
            Command::Show => show_list(store),
            Command::Clear => {
                store.clear();
                "🗑️ List cleared.".to_owned()
            },
        }
    }
}

} // verus!
