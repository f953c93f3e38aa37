use i_tantana::model::{EmailAddress, Name, User, UserId};

#[test]
fn test_name_ok() {
    let name_str = "RANDRIANASOLO";
    let name_valid = Name::new(name_str);
    assert!(name_valid.is_ok())
}

#[test]
fn test_name_ko() {
    let name_str = "rakotobe";
    let name_valid = Name::new(name_str);
    assert!(name_valid.is_err())
}

#[test]
fn test_name_try_from_str() {
    let name_str = "RANDRIANASOLO";
    let name_1 = Name::new(name_str).unwrap();
    let name_2 = Name::try_from(name_str).unwrap();
    assert_eq!(name_1, name_2)
}

#[test]
fn test_name_deref() {
    let name = Name::new("RANDRIANASOLO").unwrap();
    assert_eq!(name.as_str(), "RANDRIANASOLO");
}

#[test]
fn test_name_display() {
    let name = Name::new("RANDRIANASOLO").unwrap();
    assert_eq!(&name.to_string(), "RANDRIANASOLO");
}

#[test]
fn test_name_trims_whitespace() {
    let name = Name::new("  Bob\t").unwrap();
    assert_eq!(name.as_str(), "Bob");
}

#[test]
fn test_name_empty_and_spaces_rejected() {
    assert!(Name::new("").is_err());
    assert!(Name::new("   ").is_err());
    assert!(Name::new("1Bob").is_err());
}

#[test]
fn test_name_error_carries_input_and_message() {
    let err = Name::new("  rakotobe ").unwrap_err();
    assert_eq!(err.invalid_name, "rakotobe");
    assert_eq!(
        err.to_string(),
        "rakotobe is not a valid name. Name should not be empty and must begin with capital."
    );
}

#[test]
fn test_email_ok() {
    let email_str = "test@example.com";
    let email_valid = EmailAddress::new(email_str);
    assert!(email_valid.is_ok())
}

#[test]
fn test_email_ko() {
    let email_str = "myemail@myemail";
    let email_valid = EmailAddress::new(email_str);
    assert!(email_valid.is_err())
}

#[test]
fn test_email_try_from_str() {
    let email_str = "test@example.com";
    let email_1 = EmailAddress::new(email_str).unwrap();
    let email_2 = EmailAddress::try_from(email_str).unwrap();
    assert_eq!(email_1, email_2)
}

#[test]
fn test_email_deref() {
    let email = EmailAddress::new("test@example.com").unwrap();
    assert_eq!(email.as_str(), "test@example.com");
}

#[test]
fn test_email_display() {
    let email = EmailAddress::new("test@example.com").unwrap();
    assert_eq!(&email.to_string(), "test@example.com");
}

#[test]
fn test_email_round_trips_trimmed() {
    let email = EmailAddress::new(" a_b.c+d-e@ex-1.co.uk ").unwrap();
    assert_eq!(email.as_str(), "a_b.c+d-e@ex-1.co.uk");
}

#[test]
fn test_email_grammar_rejections() {
    assert!(EmailAddress::new("@example.com").is_err());
    assert!(EmailAddress::new("a@.com").is_err());
    assert!(EmailAddress::new("a@example.").is_err());
    assert!(EmailAddress::new("a@exa mple.com").is_err());
    assert!(EmailAddress::new("a b@example.com").is_err());
    assert!(EmailAddress::new("a@b@example.com").is_err());
    assert!(EmailAddress::new("a@ex_ample.com").is_err());
    assert!(EmailAddress::new("example.com").is_err());
}

#[test]
fn test_email_error_carries_input_and_message() {
    let err = EmailAddress::new(" nope ").unwrap_err();
    assert_eq!(err.invalid_email, "nope");
    assert_eq!(err.to_string(), "nope is not a valid email address");
}

#[test]
fn test_user() {
    let user_id = UserId::new(uuid::Uuid::new_v4().as_u128());
    let firstname = Name::new("John").unwrap();
    let lastname = Name::new("Doe").unwrap();
    let email = EmailAddress::new("test@example.com").unwrap();
    let user = User::new(user_id, &firstname, &lastname, &email);
    assert_eq!(user.get_id(), user_id);
    assert_eq!(user.get_lastname(), &lastname);
    assert_eq!(user.get_firstname(), &firstname);
    assert_eq!(user.get_email(), &email);
}
