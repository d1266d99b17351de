use backend::Environment;

#[test]
fn development_names_are_accepted() {
    assert_eq!(Environment::try_from(String::from("development")), Ok(Environment::Development));
    assert_eq!(Environment::try_from(String::from("dev")), Ok(Environment::Development));
}

#[test]
fn production_names_are_accepted() {
    assert_eq!(Environment::try_from(String::from("production")), Ok(Environment::Production));
    assert_eq!(Environment::try_from(String::from("prod")), Ok(Environment::Production));
}

#[test]
fn names_are_read_without_regard_to_case() {
    assert_eq!(Environment::try_from(String::from("DEV")), Ok(Environment::Development));
    assert_eq!(Environment::try_from(String::from("Production")), Ok(Environment::Production));
    assert_eq!(Environment::try_from(String::from("PrOd")), Ok(Environment::Production));
}

#[test]
fn unknown_name_is_refused_in_lower_case() {
    assert_eq!(
        Environment::try_from(String::from("Local")),
        Err(String::from("local is not supported environment. Use either `local` or `production`"))
    );
    assert_eq!(
        Environment::try_from(String::from("")),
        Err(String::from(" is not supported environment. Use either `local` or `production`"))
    );
    assert!(Environment::try_from(String::from(" dev")).is_err());
}

#[test]
fn from_lowercase_does_not_fold_case() {
    assert_eq!(Environment::from_lowercase(String::from("prod")), Ok(Environment::Production));
    assert_eq!(
        Environment::from_lowercase(String::from("PROD")),
        Err(String::from("PROD is not supported environment. Use either `local` or `production`"))
    );
}
