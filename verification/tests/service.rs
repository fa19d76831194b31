use user_service::entities::User;
use user_service::errors::AppError;
use user_service::repository::UserRepository;
use user_service::requests::{CreateUserRequest, ListUsersQuery, UpdateUserRequest};
use user_service::service::UserService;

fn svc() -> UserService {
    UserService::new(UserRepository::new())
}

fn create_req(name: &str, email: &str, age: u32) -> CreateUserRequest {
    CreateUserRequest { name: name.to_string(), email: email.to_string(), age }
}

fn no_updates() -> UpdateUserRequest {
    UpdateUserRequest { name: None, email: None, age: None }
}

fn default_query() -> ListUsersQuery {
    ListUsersQuery { limit: None, offset: None }
}

#[test]
fn create_returns_normalized_record() {
    let mut s = svc();
    let resp = s.create_user(create_req("  Zed  ", " ZED@X.COM ", 40)).unwrap();
    assert_eq!(resp.name, "Zed");
    assert_eq!(resp.email, "zed@x.com");
    assert_eq!(resp.age, 40);
}

#[test]
fn create_then_get_matches() {
    let mut s = svc();
    let created = s.create_user(create_req("Zed", "zed@x.com", 40)).unwrap();
    let fetched = s.get_user(created.id).unwrap();
    assert_eq!(fetched.id, created.id);
    assert_eq!(fetched.name, created.name);
    assert_eq!(fetched.email, created.email);
    assert_eq!(fetched.age, created.age);
}

#[test]
fn duplicate_normalized_email_rejected() {
    let mut s = svc();
    s.create_user(create_req("Alice", "alice@x.com", 30)).unwrap();
    let second = s.create_user(create_req("Other", "  ALICE@X.COM ", 25));
    assert_eq!(second, Err(AppError::UserAlreadyExists("alice@x.com".to_string())));
    let listed = s.list_users(default_query()).unwrap();
    assert_eq!(listed.total, 1);
}

#[test]
fn creates_grow_by_one_with_unique_ids() {
    let mut s = svc();
    let a = s.create_user(create_req("A", "a@x.com", 1)).unwrap();
    assert_eq!(s.list_users(default_query()).unwrap().total, 1);
    let b = s.create_user(create_req("B", "b@x.com", 2)).unwrap();
    assert_eq!(s.list_users(default_query()).unwrap().total, 2);
    let c = s.create_user(create_req("C", "c@x.com", 3)).unwrap();
    assert_eq!(s.list_users(default_query()).unwrap().total, 3);
    assert_ne!(a.id, b.id);
    assert_ne!(a.id, c.id);
    assert_ne!(b.id, c.id);
}

#[test]
fn invalid_create_messages() {
    let mut s = svc();
    let err = |r: Result<_, AppError>| match r {
        Err(AppError::InvalidInput(m)) => m,
        other => panic!("expected invalid input, got {:?}", other),
    };
    assert_eq!(err(s.create_user(create_req("   ", "a@b.com", 1))), "Name cannot be empty");
    let long_name = "n".repeat(101);
    assert_eq!(
        err(s.create_user(create_req(&long_name, "a@b.com", 1))),
        "Name cannot exceed 100 characters"
    );
    assert_eq!(err(s.create_user(create_req("N", "missing-at.com", 1))), "Invalid email format");
    assert_eq!(err(s.create_user(create_req("N", "a@b", 1))), "Invalid email format");
    let long_email = format!("a@{}.com", "b".repeat(252));
    assert_eq!(
        err(s.create_user(create_req("N", &long_email, 1))),
        "Email cannot exceed 255 characters"
    );
    assert_eq!(err(s.create_user(create_req("N", "a@b.com", 151))), "Age must be realistic");
    assert_eq!(s.list_users(default_query()).unwrap().total, 0);
}

#[test]
fn boundary_values_accepted() {
    let mut s = svc();
    let name100 = "n".repeat(100);
    assert!(s.create_user(create_req(&name100, "a@b.c", 150)).is_ok());
    let email255 = format!("a@{}.com", "b".repeat(249));
    assert_eq!(email255.len(), 255);
    assert!(s.create_user(create_req("N", &email255, 0)).is_ok());
}

#[test]
fn update_age_only_preserves_name_email_and_id() {
    let mut s = svc();
    let created = s.create_user(create_req("Zed", "zed@x.com", 40)).unwrap();
    let updated = s
        .update_user(created.id, UpdateUserRequest { name: None, email: None, age: Some(50) })
        .unwrap();
    assert_eq!(updated.id, created.id);
    assert_eq!(updated.name, "Zed");
    assert_eq!(updated.email, "zed@x.com");
    assert_eq!(updated.age, 50);
}

#[test]
fn empty_update_invalid_whether_target_exists_or_not() {
    let mut s = svc();
    let created = s.create_user(create_req("Zed", "zed@x.com", 40)).unwrap();
    let on_existing = s.update_user(created.id, no_updates());
    assert_eq!(on_existing, Err(AppError::InvalidInput("No updates provided".to_string())));
    let on_missing = s.update_user(created.id.wrapping_add(1), no_updates());
    assert_eq!(on_missing, Err(AppError::InvalidInput("No updates provided".to_string())));
}

#[test]
fn update_missing_user_not_found() {
    let mut s = svc();
    let req = UpdateUserRequest { name: Some("X".to_string()), email: None, age: None };
    let r = s.update_user(7, req);
    assert_eq!(r, Err(AppError::UserNotFound(7)));
}

#[test]
fn update_to_taken_email_conflicts() {
    let mut s = svc();
    s.create_user(create_req("Alice", "alice@x.com", 30)).unwrap();
    let bob = s.create_user(create_req("Bob", "bob@x.com", 32)).unwrap();
    let req = UpdateUserRequest { name: None, email: Some(" ALICE@X.COM ".to_string()), age: None };
    let r = s.update_user(bob.id, req);
    assert_eq!(r, Err(AppError::UserAlreadyExists("alice@x.com".to_string())));
    assert_eq!(s.get_user(bob.id).unwrap().email, "bob@x.com");
}

#[test]
fn update_keeping_own_email_is_allowed() {
    let mut s = svc();
    let bob = s.create_user(create_req("Bob", "bob@x.com", 32)).unwrap();
    let req = UpdateUserRequest {
        name: Some("  Robert  ".to_string()),
        email: Some("BOB@X.COM".to_string()),
        age: None,
    };
    let updated = s.update_user(bob.id, req).unwrap();
    assert_eq!(updated.name, "Robert");
    assert_eq!(updated.email, "bob@x.com");
    assert_eq!(updated.age, 32);
}

#[test]
fn invalid_update_messages() {
    let mut s = svc();
    let created = s.create_user(create_req("Zed", "zed@x.com", 40)).unwrap();
    let r = s.update_user(
        created.id,
        UpdateUserRequest { name: Some("   ".to_string()), email: None, age: None },
    );
    assert_eq!(r, Err(AppError::InvalidInput("Name cannot be empty".to_string())));
    let r = s.update_user(
        created.id,
        UpdateUserRequest { name: None, email: Some("nope".to_string()), age: None },
    );
    assert_eq!(r, Err(AppError::InvalidInput("Invalid email format".to_string())));
    let r = s.update_user(
        created.id,
        UpdateUserRequest { name: None, email: None, age: Some(200) },
    );
    assert_eq!(r, Err(AppError::InvalidInput("Age must be realistic".to_string())));
    assert_eq!(s.get_user(created.id).unwrap().age, 40);
}

#[test]
fn pagination_counts() {
    let mut s = svc();
    for i in 0..25 {
        let name = format!("User{:02}", i);
        let email = format!("user{:02}@x.com", i);
        s.create_user(create_req(&name, &email, 20)).unwrap();
    }
    let page = s
        .list_users(ListUsersQuery { limit: Some(10), offset: Some(20) })
        .unwrap();
    assert_eq!(page.users.len(), 5);
    assert_eq!(page.total, 25);
    assert_eq!(page.limit, 10);
    assert_eq!(page.offset, 20);
    let past_end = s
        .list_users(ListUsersQuery { limit: Some(10), offset: Some(25) })
        .unwrap();
    assert_eq!(past_end.users.len(), 0);
    assert_eq!(past_end.total, 25);
    let far_past_end = s
        .list_users(ListUsersQuery { limit: Some(10), offset: Some(1000) })
        .unwrap();
    assert_eq!(far_past_end.users.len(), 0);
    assert_eq!(far_past_end.total, 25);
}

#[test]
fn list_rejects_bad_limits() {
    let s = svc();
    let zero = s.list_users(ListUsersQuery { limit: Some(0), offset: None });
    assert_eq!(zero, Err(AppError::InvalidInput("Limit must be between 1 and 100".to_string())));
    let over = s.list_users(ListUsersQuery { limit: Some(101), offset: None });
    assert_eq!(over, Err(AppError::InvalidInput("Limit must be between 1 and 100".to_string())));
}

#[test]
fn list_sorted_alphabetically_by_name() {
    let mut s = svc();
    s.create_user(create_req("Zed", "zed@x.com", 40)).unwrap();
    s.create_user(create_req("Alice Johnson", "alice@example.com", 28)).unwrap();
    s.create_user(create_req("Bob Smith", "bob@example.com", 32)).unwrap();
    let listed = s.list_users(default_query()).unwrap();
    let names: Vec<&str> = listed.users.iter().map(|u| u.name.as_str()).collect();
    assert_eq!(names, vec!["Alice Johnson", "Bob Smith", "Zed"]);
    assert_eq!(listed.total, 3);
}

#[test]
fn delete_missing_not_found_and_cardinality_kept() {
    let mut s = svc();
    s.create_user(create_req("Zed", "zed@x.com", 40)).unwrap();
    let r = s.delete_user(12345);
    assert_eq!(r, Err(AppError::UserNotFound(12345)));
    assert_eq!(s.list_users(default_query()).unwrap().total, 1);
}

#[test]
fn delete_existing_then_gone() {
    let mut s = svc();
    let created = s.create_user(create_req("Zed", "zed@x.com", 40)).unwrap();
    assert_eq!(s.delete_user(created.id), Ok(()));
    assert_eq!(s.get_user(created.id), Err(AppError::UserNotFound(created.id)));
    assert_eq!(s.list_users(default_query()).unwrap().total, 0);
}

#[test]
fn same_email_racers_leave_one_winner() {
    let mut s = svc();
    let mut winners = 0;
    let mut conflicts = 0;
    for i in 0..5 {
        let name = format!("Racer{}", i);
        match s.create_user(create_req(&name, "shared@x.com", 30)) {
            Ok(_) => winners += 1,
            Err(AppError::UserAlreadyExists(e)) => {
                assert_eq!(e, "shared@x.com");
                conflicts += 1;
            }
            Err(other) => panic!("unexpected error {:?}", other),
        }
    }
    assert_eq!(winners, 1);
    assert_eq!(conflicts, 4);
    assert_eq!(s.list_users(default_query()).unwrap().total, 1);
}

#[test]
fn profile_derives_presentation_fields() {
    let mut s = svc();
    let minor = s.create_user(create_req("Kid", "kid@x.com", 16)).unwrap();
    let adult = s.create_user(create_req("Grown", "grown@x.com", 18)).unwrap();
    let kid_profile = s.get_user_profile(minor.id).unwrap();
    assert!(!kid_profile.is_adult);
    let grown_profile = s.get_user_profile(adult.id).unwrap();
    assert!(grown_profile.is_adult);
    let expected_url =
        format!("/api/v1/users/{}/profile", uuid::Uuid::from_u128(adult.id));
    assert_eq!(grown_profile.profile_url, expected_url);
    assert_eq!(grown_profile.created_at, "2024-01-01T00:00:00Z");
    assert_eq!(grown_profile.name, "Grown");
    assert_eq!(grown_profile.email, "grown@x.com");
    assert_eq!(grown_profile.age, 18);
    let missing = s.get_user_profile(999);
    assert_eq!(missing, Err(AppError::UserNotFound(999)));
}

#[test]
fn service_wraps_injected_repository() {
    let mut repo = UserRepository::new();
    repo.create(User::new("Seeded".to_string(), "seed@x.com".to_string(), 21)).unwrap();
    let s = UserService::new(repo);
    let listed = s.list_users(default_query()).unwrap();
    assert_eq!(listed.total, 1);
    assert_eq!(listed.users[0].name, "Seeded");
}
