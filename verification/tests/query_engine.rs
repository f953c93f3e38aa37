use i_tantana::dtos::{
    UserAddRequest, UserDeleteRequest, UserFindRequest, UserFindRequestError,
    UserFindRequestFilter, UserUpdateRequest,
};
use i_tantana::model::{EmailAddress, Name, User, UserError, UserId};
use i_tantana::repository::{FindOptionTrait, FindResultTrait, RepositoryTrait};
use i_tantana::service::UserService;
use i_tantana::store::InMemoryUserRepository;

fn user_with(firstname: &str, email: &str) -> User {
    let first = Name::new(firstname).unwrap();
    let last = Name::new("Doe").unwrap();
    let mail = EmailAddress::new(email).unwrap();
    User::new(UserId::new(0), &first, &last, &mail)
}

fn seed(repo: &mut InMemoryUserRepository, count: usize) -> Vec<User> {
    let mut saved = Vec::new();
    for i in 0..count {
        let email = format!("user{}@example.com", i);
        let stored = repo.save(&user_with("Jane", &email)).unwrap();
        saved.push(stored);
    }
    saved
}

#[test]
fn test_user_find_request_default_ok() {
    let user_find_request = UserFindRequest::default();
    assert_eq!(user_find_request.get_limit(), 25);
    assert_eq!(user_find_request.get_offset(), 1);
    assert_eq!(user_find_request.get_query(), UserFindRequestFilter::default());
}

#[test]
fn validate_per_page_ok() {
    let per_page = 5;
    let validated_per_page = UserFindRequest::validate_per_page(per_page).unwrap();
    assert_eq!(per_page, validated_per_page);
}

#[test]
fn validate_per_page_ko_too_low() {
    let per_page = 0;
    let error = UserFindRequestError::PerPageValueTooLow { per_page };
    let validated_per_page = UserFindRequest::validate_per_page(per_page).err().unwrap();
    assert_eq!(error.to_string(), validated_per_page.to_string());
}

#[test]
fn validate_per_page_ko_too_high() {
    let per_page = 1001;
    let error = UserFindRequestError::PerPageValueTooHigh { per_page };
    let validated_per_page = UserFindRequest::validate_per_page(per_page).err().unwrap();
    assert_eq!(error.to_string(), validated_per_page.to_string());
}

#[test]
fn validate_offset_ko_too_low() {
    let offset = 0;
    let error = UserFindRequestError::PerPageOffsetTooLow { offset };
    let validated_offset = UserFindRequest::validate_offset(offset).err().unwrap();
    assert_eq!(error.to_string(), validated_offset.to_string());
}

#[test]
fn test_user_find_request_new_ok() {
    let user_find_request_filter = UserFindRequestFilter {
        id: Some(UserId::new(uuid::Uuid::new_v4().as_u128())),
        ..Default::default()
    };
    let user_find_request = UserFindRequest::new(&user_find_request_filter, "", 10, 1);
    assert!(user_find_request.is_ok());
}

#[test]
fn test_user_find_request_set_filter_ok() {
    let user_find_request_filter = UserFindRequestFilter {
        id: Some(UserId::new(uuid::Uuid::new_v4().as_u128())),
        ..Default::default()
    };
    let mut user_find_request = UserFindRequest::default();
    user_find_request.set_filters(&user_find_request_filter);
    assert_eq!(user_find_request.get_query(), user_find_request_filter);
}

#[test]
fn test_user_find_request_set_offset_ok() {
    let mut user_find_request = UserFindRequest::default();
    user_find_request.set_offset(2);
    assert_eq!(user_find_request.get_offset(), 2);
}

#[test]
fn test_user_find_request_set_per_page_ok() {
    let mut user_find_request = UserFindRequest::default();
    user_find_request.set_per_page(2);
    assert_eq!(user_find_request.get_limit(), 2);
}

#[test]
fn find_request_boundary_values() {
    let filter = UserFindRequestFilter::default();
    assert!(UserFindRequest::new(&filter, "", 1, 1).is_ok());
    assert!(UserFindRequest::new(&filter, "", 1000, 1).is_ok());
    assert!(matches!(
        UserFindRequest::new(&filter, "", 0, 1),
        Err(UserFindRequestError::PerPageValueTooLow { per_page: 0 })
    ));
    assert!(matches!(
        UserFindRequest::new(&filter, "", 1001, 1),
        Err(UserFindRequestError::PerPageValueTooHigh { per_page: 1001 })
    ));
    assert!(matches!(
        UserFindRequest::new(&filter, "", 10, 0),
        Err(UserFindRequestError::PerPageOffsetTooLow { offset: 0 })
    ));
}

#[test]
fn per_page_error_message_exact() {
    let error = UserFindRequest::validate_per_page(0).err().unwrap();
    assert_eq!(
        error.to_string(),
        "per_page value 0 cannot be less than 1, please choose higher value"
    );
    let error = UserFindRequest::validate_per_page(1001).err().unwrap();
    assert_eq!(
        error.to_string(),
        "per_page value 1001 is too high, please choose lower value"
    );
}

#[test]
fn find_request_error_maps_to_user_error() {
    let e = UserFindRequestError::PerPageValueTooHigh { per_page: 1200 };
    assert!(matches!(
        UserError::from(e),
        UserError::PerPageValueTooHigh { per_page: 1200 }
    ));
    let e = UserFindRequestError::PerPageOffsetTooLow { offset: 0 };
    assert!(matches!(UserError::from(e), UserError::PerPageOffsetTooLow { offset: 0 }));
}

#[test]
fn save_assigns_fresh_ids_and_grows_store() {
    let mut repo = InMemoryUserRepository::new();
    let a = repo.save(&user_with("Ana", "ana@example.com")).unwrap();
    let b = repo.save(&user_with("Bob", "bob@example.com")).unwrap();
    assert_eq!(repo.len(), 2);
    assert_ne!(a.get_id(), b.get_id());
    assert_eq!(a.get_email().as_str(), "ana@example.com");
}

#[test]
fn update_with_email_of_other_fails() {
    let mut repo = InMemoryUserRepository::new();
    let saved = seed(&mut repo, 25);
    assert_eq!(repo.len(), 25);
    let victim = &saved[3];
    let other = &saved[17];
    let replacement = User::new(
        victim.get_id(),
        victim.get_firstname(),
        victim.get_lastname(),
        other.get_email(),
    );
    let r = repo.update(&victim.get_id(), &replacement);
    assert!(matches!(r, Err(UserError::EmailAlreadyUsedByOther { .. })));
    assert_eq!(repo.len(), 25);
    let untouched = repo.find_by_id(&victim.get_id()).unwrap();
    assert_eq!(untouched.get_email(), victim.get_email());
}

#[test]
fn update_keeping_own_email_succeeds() {
    let mut repo = InMemoryUserRepository::new();
    let saved = seed(&mut repo, 3);
    let target = &saved[1];
    let renamed = User::new(
        target.get_id(),
        &Name::new("Renamed").unwrap(),
        target.get_lastname(),
        target.get_email(),
    );
    let r = repo.update(&target.get_id(), &renamed).unwrap();
    assert_eq!(r.get_firstname().as_str(), "Renamed");
    let fetched = repo.find_by_id(&target.get_id()).unwrap();
    assert_eq!(fetched.get_firstname().as_str(), "Renamed");
    assert_eq!(repo.len(), 3);
}

#[test]
fn update_mismatched_id_fails() {
    let mut repo = InMemoryUserRepository::new();
    let saved = seed(&mut repo, 2);
    let entity = &saved[0];
    let r = repo.update(&saved[1].get_id(), entity);
    assert!(matches!(r, Err(UserError::MismatchUserId { .. })));
}

#[test]
fn update_absent_id_fails() {
    let mut repo = InMemoryUserRepository::new();
    seed(&mut repo, 2);
    let ghost_user = user_with("Zoe", "zoe@example.com");
    let r = repo.update(&ghost_user.get_id(), &ghost_user);
    assert!(matches!(r, Err(UserError::UserNotExists { .. })));
}

#[test]
fn delete_absent_id_leaves_store_unchanged() {
    let mut repo = InMemoryUserRepository::new();
    seed(&mut repo, 4);
    let r = repo.delete(&UserId::new(424242));
    assert!(matches!(r, Err(UserError::UserNotExists { .. })));
    assert_eq!(repo.len(), 4);
}

#[test]
fn delete_present_id_removes_it() {
    let mut repo = InMemoryUserRepository::new();
    let saved = seed(&mut repo, 4);
    assert!(repo.delete(&saved[2].get_id()).is_ok());
    assert_eq!(repo.len(), 3);
    assert!(matches!(
        repo.find_by_id(&saved[2].get_id()),
        Err(UserError::UserNotExists { .. })
    ));
}

#[test]
fn pagination_of_23_users_in_pages_of_10() {
    let mut repo = InMemoryUserRepository::new();
    seed(&mut repo, 23);
    let filter = UserFindRequestFilter::default();
    for offset in [1u64, 2, 3, 9] {
        let req = UserFindRequest::new(&filter, "", 10, offset).unwrap();
        let resp = repo.find_all(&req).unwrap();
        assert_eq!(resp.get_page_count(), 3);
        let expected = match offset {
            1 => 10,
            2 => 3,
            _ => 0,
        };
        assert_eq!(resp.get_result().len(), expected);
    }
}

#[test]
fn filter_by_firstname_exact_match_only() {
    let mut repo = InMemoryUserRepository::new();
    repo.save(&user_with("Ana", "a1@example.com")).unwrap();
    repo.save(&user_with("Bob", "b1@example.com")).unwrap();
    repo.save(&user_with("Ana", "a2@example.com")).unwrap();
    repo.save(&user_with("Anabel", "a3@example.com")).unwrap();
    let filter = UserFindRequestFilter {
        firstname: Some("Ana".to_string()),
        ..Default::default()
    };
    let req = UserFindRequest::new(&filter, "", 10, 0).unwrap_err();
    assert!(matches!(req, UserFindRequestError::PerPageOffsetTooLow { .. }));
    let req = UserFindRequest::new(&filter, "email", 10, 1).unwrap();
    let mut req = req;
    req.set_offset(0);
    let resp = repo.find_all(&req).unwrap();
    let users = resp.get_result();
    assert_eq!(users.len(), 2);
    for u in &users {
        assert_eq!(u.get_firstname().as_str(), "Ana");
    }
    let none = UserFindRequestFilter {
        firstname: Some("Nobody".to_string()),
        ..Default::default()
    };
    let mut req = UserFindRequest::new(&none, "", 10, 1).unwrap();
    req.set_offset(0);
    let resp = repo.find_all(&req).unwrap();
    assert_eq!(resp.get_result().len(), 0);
    assert_eq!(resp.get_page_count(), 0);
}

#[test]
fn order_by_email_sorts_lexicographically() {
    let mut repo = InMemoryUserRepository::new();
    repo.save(&user_with("Jane", "delta@example.com")).unwrap();
    repo.save(&user_with("Jane", "alpha@example.com")).unwrap();
    repo.save(&user_with("Jane", "charlie@example.com")).unwrap();
    repo.save(&user_with("Jane", "bravo@example.com")).unwrap();
    let filter = UserFindRequestFilter::default();
    let mut req = UserFindRequest::new(&filter, "email", 10, 1).unwrap();
    req.set_offset(0);
    let resp = repo.find_all(&req).unwrap();
    let emails: Vec<String> = resp.get_result().iter().map(|u| u.get_email().to_string()).collect();
    assert_eq!(emails, vec!["alpha@example.com", "bravo@example.com", "charlie@example.com",
        "delta@example.com"]);
}

#[test]
fn order_by_is_lowercased_before_matching() {
    let mut repo = InMemoryUserRepository::new();
    repo.save(&user_with("Jane", "bbb@example.com")).unwrap();
    repo.save(&user_with("Jane", "aaa@example.com")).unwrap();
    let filter = UserFindRequestFilter::default();
    let mut req = UserFindRequest::new(&filter, "EMAIL", 10, 1).unwrap();
    req.set_offset(0);
    let resp = repo.find_all(&req).unwrap();
    let emails: Vec<String> = resp.get_result().iter().map(|u| u.get_email().to_string()).collect();
    assert_eq!(emails, vec!["aaa@example.com", "bbb@example.com"]);
}

#[test]
fn unrecognized_order_by_falls_back_to_id_order() {
    let mut repo = InMemoryUserRepository::new();
    let saved = seed(&mut repo, 5);
    let mut ids: Vec<u128> = saved.iter().map(|u| u.get_id().value).collect();
    ids.sort();
    let filter = UserFindRequestFilter::default();
    let mut req = UserFindRequest::new(&filter, "banana", 10, 1).unwrap();
    req.set_offset(0);
    let resp = repo.find_all(&req).unwrap();
    let got: Vec<u128> = resp.get_result().iter().map(|u| u.get_id().value).collect();
    assert_eq!(got, ids);
}

#[test]
fn sort_is_stable_on_equal_keys() {
    let mut repo = InMemoryUserRepository::new();
    repo.save(&user_with("Ana", "first@example.com")).unwrap();
    repo.save(&user_with("Ana", "second@example.com")).unwrap();
    repo.save(&user_with("Ana", "third@example.com")).unwrap();
    let filter = UserFindRequestFilter::default();
    let mut req = UserFindRequest::new(&filter, "firstname", 10, 1).unwrap();
    req.set_offset(0);
    let resp = repo.find_all(&req).unwrap();
    let emails: Vec<String> = resp.get_result().iter().map(|u| u.get_email().to_string()).collect();
    assert_eq!(emails, vec!["first@example.com", "second@example.com", "third@example.com"]);
}

#[test]
fn second_claim_of_same_email_fails() {
    let mut repo = InMemoryUserRepository::new();
    let saved = seed(&mut repo, 3);
    let claimed = EmailAddress::new("claimed@example.com").unwrap();
    let first = User::new(
        saved[0].get_id(),
        saved[0].get_firstname(),
        saved[0].get_lastname(),
        &claimed,
    );
    assert!(repo.update(&saved[0].get_id(), &first).is_ok());
    let second = User::new(
        saved[1].get_id(),
        saved[1].get_firstname(),
        saved[1].get_lastname(),
        &claimed,
    );
    let r = repo.update(&saved[1].get_id(), &second);
    assert!(matches!(r, Err(UserError::EmailAlreadyUsedByOther { .. })));
    assert_eq!(
        repo.find_by_id(&saved[1].get_id()).unwrap().get_email(),
        saved[1].get_email()
    );
}

#[test]
fn service_forwards_each_operation_once() {
    let repo = InMemoryUserRepository::new();
    let mut service = UserService::new(repo);
    let add = UserAddRequest::new(
        &Name::new("John").unwrap(),
        &Name::new("Doe").unwrap(),
        &EmailAddress::new("john@example.com").unwrap(),
    );
    let created = service.create_user(&add).unwrap();
    assert_eq!(created.get_firstname().as_str(), "John");
    let update = UserUpdateRequest::new(
        created.get_id(),
        &Name::new("Johnny").unwrap(),
        &Name::new("Doe").unwrap(),
        &EmailAddress::new("john@example.com").unwrap(),
    );
    let updated = service.update_user(&created.get_id(), &update).unwrap();
    assert_eq!(updated.get_firstname().as_str(), "Johnny");
    let fetched = service.find_one_user(&created.get_id()).unwrap();
    assert_eq!(fetched.get_firstname().as_str(), "Johnny");
    let filter = UserFindRequestFilter::default();
    let req = UserFindRequest::new(&filter, "", 25, 1).unwrap();
    let resp = service.find_user(&req).unwrap();
    assert_eq!(resp.get_page_count(), 1);
    service.delete_user(&UserDeleteRequest::new(created.get_id())).unwrap();
    assert!(matches!(
        service.find_one_user(&created.get_id()),
        Err(UserError::UserNotExists { .. })
    ));
}
