use shopping_list::render::{format_list, show_list, u64_to_string};
use shopping_list::store::{ListRepo, StoreError, ValidationError};

#[test]
fn decimal_rendering_is_exact() {
    assert_eq!(u64_to_string(0), "0");
    assert_eq!(u64_to_string(7), "7");
    assert_eq!(u64_to_string(10), "10");
    assert_eq!(u64_to_string(105), "105");
    assert_eq!(u64_to_string(u64::MAX), "18446744073709551615");
}

#[test]
fn error_messages_are_exact() {
    assert_eq!(
        StoreError::Validation(ValidationError::EmptyName).message(),
        "Name cannot be empty"
    );
    assert_eq!(
        StoreError::Validation(ValidationError::NameTooLong).message(),
        "Name is too long (max 100 characters)"
    );
    assert_eq!(StoreError::NotFound(12).message(), "Item with id 12 not found");
}

#[test]
fn snapshot_and_show_render_each_item_on_its_own_line() {
    let mut store = ListRepo::new();
    assert_eq!(format_list(&store), "\n📋 List is now empty.");
    assert_eq!(show_list(&store), "📋 List is empty.");
    store.add_item("Bread").unwrap();
    store.add_item("Milk").unwrap();
    assert_eq!(
        format_list(&store),
        "\n\n📋 Current shopping list:\n  1. Bread\n  2. Milk\n"
    );
    assert_eq!(show_list(&store), "📋 Shopping list:\n  1. Bread\n  2. Milk\n");
}
