//! Rendering of store values into the texts both front-ends send: decimal
//! identifiers, the per-item lines, the list snapshots appended to mutation
//! replies, and the store's error messages.

use vstd::prelude::*;
use crate::store::{ItemView, ListItem, ListRepo, StoreError, ValidationError};

verus! {

/// The decimal digit for a value between 0 and 9.
pub open spec fn digit_char(d: int) -> char
    recommends
        0 <= d <= 9,
{
    if d == 0 {
        '0'
    } else if d == 1 {
        '1'
    } else if d == 2 {
        '2'
    } else if d == 3 {
        '3'
    } else if d == 4 {
        '4'
    } else if d == 5 {
        '5'
    } else if d == 6 {
        '6'
    } else if d == 7 {
        '7'
    } else if d == 8 {
        '8'
    } else {
        '9'
    }
}

/// The usual decimal rendering of a non-negative integer: no sign, no
/// leading zeros (except for the value 0 itself).
pub open spec fn dec_str(n: int) -> Seq<char>
    recommends
        n >= 0,
    decreases n,
{
    if n <= 9 {
        seq![digit_char(n)]
    } else {
        dec_str(n / 10).push(digit_char(n % 10))
    }
}

fn digit_to_str(d: u64) -> (s: &'static str)
    requires
        d <= 9,
    ensures
        s@ == seq![digit_char(d as int)],
{
    let s: &'static str = match d {
        0 => "0",
        1 => "1",
        2 => "2",
        3 => "3",
        4 => "4",
        5 => "5",
        6 => "6",
        7 => "7",
        8 => "8",
        _ => "9",
    };
    proof {
        reveal_strlit("0");
        reveal_strlit("1");
        reveal_strlit("2");
        reveal_strlit("3");
        reveal_strlit("4");
        reveal_strlit("5");
        reveal_strlit("6");
        reveal_strlit("7");
        reveal_strlit("8");
        reveal_strlit("9");
        assert(s@ =~= seq![digit_char(d as int)]);
    }
    s
}

/// Renders `n` in decimal.
pub fn u64_to_string(n: u64) -> (s: String)
    ensures
        s@ == dec_str(n as int),
    decreases n,
{
    if n <= 9 {
        digit_to_str(n).to_owned()
    } else {
        let mut s = u64_to_string(n / 10);
        s.append(digit_to_str(n % 10));
        proof {
            assert(s@ =~= dec_str((n / 10) as int).push(digit_char((n % 10) as int)));
        }
        s
    }
}

/// The line a list snapshot devotes to one item.
pub open spec fn line_for(it: ItemView) -> Seq<char> {
    "  "@ + dec_str(it.id as int) + ". "@ + it.name + "\n"@
}

/// The item lines of a snapshot, in list order.
pub open spec fn lines_for(items: Seq<ItemView>) -> Seq<char>
    decreases items.len(),
{
    if items.len() == 0 {
        Seq::empty()
    } else {
        lines_for(items.drop_last()) + line_for(items.last())
    }
}

/// The snapshot appended to every successful mutation reply.
pub open spec fn snapshot_text(items: Seq<ItemView>) -> Seq<char> {
    if items.len() == 0 {
        "\n📋 List is now empty."@
    } else {
        "\n\n📋 Current shopping list:\n"@ + lines_for(items)
    }
}

/// The reply to the `show` command.
pub open spec fn show_text(items: Seq<ItemView>) -> Seq<char> {
    if items.len() == 0 {
        "📋 List is empty."@
    } else {
        "📋 Shopping list:\n"@ + lines_for(items)
    }
}

/// The values of a sequence of stored items.
pub open spec fn views_of(items: Seq<ListItem>) -> Seq<ItemView> {
    items.map(|i: int, it: ListItem| it@)
}

proof fn lemma_lines_take(items: Seq<ItemView>, j: int)
    requires
        0 <= j < items.len(),
    ensures
        lines_for(items.take(j + 1)) == lines_for(items.take(j)) + line_for(items[j]),
{
    assert(items.take(j + 1).drop_last() =~= items.take(j));
    assert(items.take(j + 1).last() == items[j]);
}

fn line_string(item: &ListItem) -> (s: String)
    ensures
        s@ == line_for(item@),
{
    let mut s = "  ".to_owned();
    let id_text = u64_to_string(item.id);
    s.append(id_text.as_str());
    s.append(". ");
    s.append(item.name.as_str());
    s.append("\n");
    proof {
        assert(s@ =~= line_for(item@));
    }
    s
}

fn lines_string(items: &Vec<ListItem>) -> (s: String)
    ensures
        s@ == lines_for(views_of(items@)),
{
    let mut s = "".to_owned();
    proof {
        reveal_strlit("");
        assert(s@ =~= lines_for(views_of(items@).take(0)));
    }
    let mut idx: usize = 0;
    while idx < items.len()
        invariant
            0 <= idx <= items@.len(),
            s@ == lines_for(views_of(items@).take(idx as int)),
        decreases items@.len() - idx,
    {
        let line = line_string(&items[idx]);
        s.append(line.as_str());
        proof {
            lemma_lines_take(views_of(items@), idx as int);
        }
        idx = idx + 1;
    }
    proof {
        assert(views_of(items@).take(items@.len() as int) =~= views_of(items@));
    }
    s
}

/// Renders the snapshot of the store's current rows that mutation replies
/// carry: either the empty-list notice or the header with one line per item.
pub fn format_list(store: &ListRepo) -> (s: String)
    requires
        store.wf(),
    ensures
        s@ == snapshot_text(store@),
{
    let items = store.list();
    proof {
        assert(views_of(items@) =~= store@);
    }
    if items.len() == 0 {
        "\n📋 List is now empty.".to_owned()
    } else {
        let mut s = "\n\n📋 Current shopping list:\n".to_owned();
        let lines = lines_string(&items);
        s.append(lines.as_str());
        s
    }
}

/// Renders the reply to the `show` command from the store's current rows.
pub fn show_list(store: &ListRepo) -> (s: String)
    requires
        store.wf(),
    ensures
        s@ == show_text(store@),
{
    let items = store.list();
    proof {
        assert(views_of(items@) =~= store@);
    }
    if items.len() == 0 {
        "📋 List is empty.".to_owned()
    } else {
        let mut s = "📋 Shopping list:\n".to_owned();
        let lines = lines_string(&items);
        s.append(lines.as_str());
        s
    }
}

/// The message each store error presents to callers.
pub open spec fn error_text(e: StoreError) -> Seq<char> {
    match e {
        StoreError::Validation(ValidationError::EmptyName) => "Name cannot be empty"@,
        StoreError::Validation(ValidationError::NameTooLong) => "Name is too long (max 100 characters)"@,
        StoreError::NotFound(id) => "Item with id "@ + dec_str(id as int) + " not found"@,
        StoreError::Unavailable => "Storage unavailable"@,
    }
}

impl StoreError {
    /// The human-readable message for this error.
    pub fn message(&self) -> (s: String)
        ensures
            s@ == error_text(*self),
    {
        match self {
            StoreError::Validation(ValidationError::EmptyName) => "Name cannot be empty".to_owned(),
            StoreError::Validation(ValidationError::NameTooLong) => "Name is too long (max 100 characters)".to_owned(),
            StoreError::NotFound(id) => {
                let mut s = "Item with id ".to_owned();
                let id_text = u64_to_string(*id);
                s.append(id_text.as_str());
                s.append(" not found");
                proof {
                    assert(s@ =~= error_text(*self));
                }
                s
            },
            StoreError::Unavailable => "Storage unavailable".to_owned(),
        }
    }
}

} // verus!
