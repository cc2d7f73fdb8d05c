use record_store::User;

#[test]
fn test_user_creation() {
    let user = User::new(1, "Test", "test@test.com");
    assert_eq!(user.name, "Test");
}

#[test]
fn new_user_has_given_fields_and_no_roles() {
    let user = User::new(7, "Bob", "bob@x.com");
    assert_eq!(user.id, 7);
    assert_eq!(user.email, "bob@x.com");
    assert!(user.roles.is_empty());
    assert_eq!(user.metadata("anything"), None);
}

#[test]
fn roles_keep_insertion_order() {
    let mut user = User::new(1, "Alice", "a@x.com");
    user.add_role("admin").add_role("user");
    assert_eq!(user.roles, vec!["admin".to_string(), "user".to_string()]);
}

#[test]
fn duplicate_roles_are_kept() {
    let mut user = User::new(1, "Alice", "a@x.com");
    user.add_role("admin").add_role("admin");
    assert_eq!(user.roles, vec!["admin".to_string(), "admin".to_string()]);
}

#[test]
fn metadata_is_set_and_overwritten() {
    let user = User::new(1, "Alice", "a@x.com")
        .with_metadata("team", "core")
        .with_metadata("site", "north")
        .with_metadata("team", "infra");
    assert_eq!(user.metadata("team").map(|s| s.as_str()), Some("infra"));
    assert_eq!(user.metadata("site").map(|s| s.as_str()), Some("north"));
    assert_eq!(user.metadata("missing"), None);
}

#[test]
fn empty_metadata_value_is_distinct_from_absence() {
    let user = User::new(1, "Alice", "a@x.com").with_metadata("note", "");
    assert_eq!(user.metadata("note").map(|s| s.as_str()), Some(""));
}

#[test]
fn role_and_metadata_chain_in_one_expression() {
    let mut user = User::new(2, "Carol", "c@x.com").with_metadata("k", "v");
    user.add_role("ops");
    assert_eq!(user.roles, vec!["ops".to_string()]);
    assert_eq!(user.metadata("k").map(|s| s.as_str()), Some("v"));
}

#[test]
fn default_user_is_empty() {
    let user = User::default();
    assert_eq!(user.id, 0);
    assert_eq!(user.name, "");
    assert!(user.roles.is_empty());
}
