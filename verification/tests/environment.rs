use chirp_feed::env::Env;

#[test]
fn in_test_env() {
    let env = Env::from_name("test").unwrap();

    assert!(env.is_test());
}

#[test]
fn only_the_test_environment_is_test() {
    assert!(Env::Test.is_test());
    assert!(!Env::Production.is_test());
    assert!(!Env::Development.is_test());
}

#[test]
fn environments_go_by_their_exact_names() {
    assert_eq!(Env::from_name("production"), Some(Env::Production));
    assert_eq!(Env::from_name("development"), Some(Env::Development));
    assert_eq!(Env::from_name("test"), Some(Env::Test));
    assert_eq!(Env::from_name("Test"), None);
    assert_eq!(Env::from_name("test "), None);
    assert_eq!(Env::from_name(""), None);
    assert_eq!(Env::from_name("staging"), None);
}
