use user_service::requests::{CreateUserRequest, ListUsersQuery, UpdateUserRequest};

fn create_req(name: &str, email: &str, age: u32) -> CreateUserRequest {
    CreateUserRequest { name: name.to_string(), email: email.to_string(), age }
}

#[test]
fn create_validation_rules() {
    assert_eq!(create_req("Zed", "zed@x.com", 40).validate(), Ok(()));
    assert_eq!(
        create_req("", "zed@x.com", 40).validate(),
        Err("Name cannot be empty".to_string())
    );
    assert_eq!(
        create_req(" \t ", "zed@x.com", 40).validate(),
        Err("Name cannot be empty".to_string())
    );
    assert_eq!(
        create_req(&"x".repeat(101), "zed@x.com", 40).validate(),
        Err("Name cannot exceed 100 characters".to_string())
    );
    assert_eq!(
        create_req("Zed", "zed.x.com", 40).validate(),
        Err("Invalid email format".to_string())
    );
    assert_eq!(create_req("Zed", "z@xc", 40).validate(), Err("Invalid email format".to_string()));
    assert_eq!(
        create_req("Zed", &format!("z@{}", "x".repeat(254)), 40).validate(),
        Err("Email cannot exceed 255 characters".to_string())
    );
    assert_eq!(
        create_req("Zed", "zed@x.com", 151).validate(),
        Err("Age must be realistic".to_string())
    );
    // Fail-fast: the first failing rule's message wins.
    assert_eq!(create_req("", "bad", 200).validate(), Err("Name cannot be empty".to_string()));
}

#[test]
fn update_validation_rules() {
    let all_none = UpdateUserRequest { name: None, email: None, age: None };
    assert_eq!(all_none.validate(), Ok(()));
    assert!(!all_none.has_updates());
    let age_only = UpdateUserRequest { name: None, email: None, age: Some(150) };
    assert_eq!(age_only.validate(), Ok(()));
    assert!(age_only.has_updates());
    let bad_name = UpdateUserRequest { name: Some("  ".to_string()), email: None, age: None };
    assert_eq!(bad_name.validate(), Err("Name cannot be empty".to_string()));
    let long_name = UpdateUserRequest {
        name: Some("y".repeat(101)),
        email: None,
        age: None,
    };
    assert_eq!(long_name.validate(), Err("Name cannot exceed 100 characters".to_string()));
    let bad_email = UpdateUserRequest { name: None, email: Some("nope".to_string()), age: None };
    assert_eq!(bad_email.validate(), Err("Invalid email format".to_string()));
    let long_email = UpdateUserRequest {
        name: None,
        email: Some(format!("z@{}", "x".repeat(254))),
        age: None,
    };
    assert_eq!(long_email.validate(), Err("Email cannot exceed 255 characters".to_string()));
    let bad_age = UpdateUserRequest { name: None, email: None, age: Some(151) };
    assert_eq!(bad_age.validate(), Err("Age must be realistic".to_string()));
    // Fail-fast across fields: the name rule is judged before the age rule.
    let two_bad = UpdateUserRequest {
        name: Some("".to_string()),
        email: None,
        age: Some(200),
    };
    assert_eq!(two_bad.validate(), Err("Name cannot be empty".to_string()));
}

#[test]
fn list_query_rules_and_defaults() {
    assert_eq!(ListUsersQuery { limit: None, offset: None }.validate(), Ok(()));
    assert_eq!(ListUsersQuery { limit: Some(1), offset: None }.validate(), Ok(()));
    assert_eq!(ListUsersQuery { limit: Some(100), offset: None }.validate(), Ok(()));
    assert_eq!(
        ListUsersQuery { limit: Some(0), offset: None }.validate(),
        Err("Limit must be between 1 and 100".to_string())
    );
    assert_eq!(
        ListUsersQuery { limit: Some(101), offset: None }.validate(),
        Err("Limit must be between 1 and 100".to_string())
    );
    // Offsets are unbounded.
    assert_eq!(ListUsersQuery { limit: None, offset: Some(usize::MAX) }.validate(), Ok(()));

    let q = ListUsersQuery { limit: None, offset: None };
    assert_eq!(q.get_limit(), 10);
    assert_eq!(q.get_offset(), 0);
    // The effective limit is clamped even when validation was bypassed.
    let wild = ListUsersQuery { limit: Some(1000), offset: Some(7) };
    assert_eq!(wild.get_limit(), 100);
    assert_eq!(wild.get_offset(), 7);
    let q = ListUsersQuery::default();
    assert_eq!(q.limit, Some(10));
    assert_eq!(q.offset, Some(0));
}
