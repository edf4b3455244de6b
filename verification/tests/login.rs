use matrix_frontend::login::{
    check_key_format, discovery_on_input, discovery_result, may_submit, status_of_error,
    validate_login, DiscoveryStatus, LoginError, LoginInputStatus,
};

const KEY: &str = "EsTa aBcD 1234 5678 abcd efgh ijkl mnop qrst uvwx yzAB CDEF";

#[test]
fn recovery_key_shape() {
    assert!(check_key_format(KEY));
    assert!(check_key_format("  EsTa aBcD 1234 5678 abcd efgh ijkl mnop qrst uvwx yzAB CDEF \n"));
    assert!(!check_key_format("EsTa aBcD"));
    assert!(!check_key_format("EsTa aBcD 1234 5678 abcd efgh ijkl mnop qrst uvwx yzAB CDEFG"));
    assert!(check_key_format("éé aBcD 1234 5678 abcd efgh ijkl mnop qrst uvwx yzAB CDEF"));
    assert!(!check_key_format(""));
}

#[test]
fn validation_order() {
    assert!(matches!(validate_login("", "", ""), LoginInputStatus::UsernameEmpty));
    assert!(matches!(validate_login("u", "", KEY), LoginInputStatus::PasswordEmpty));
    assert!(matches!(validate_login("u", "p", ""), LoginInputStatus::RecoveryKeyEmpty));
    assert!(matches!(validate_login("u", "p", "bad"), LoginInputStatus::RecoveryKeyInvalid));
    assert!(matches!(validate_login("u", "p", KEY), LoginInputStatus::Valid));
    assert!(may_submit("u", "p", "k"));
    assert!(!may_submit("u", "", "k"));
}

#[test]
fn status_texts() {
    let (t, bad) = validate_login("", "", "").text();
    assert_eq!(t, "Username cannot be empty");
    assert!(bad);
    let (t, bad) = LoginInputStatus::Valid.text();
    assert_eq!(t, "All inputs look good");
    assert!(!bad);
    let (t, _) = LoginInputStatus::RecoveryKeyInvalid.text();
    assert_eq!(t, "Recovery should be twelve groups of 4 characters seperated by spaces");
    let (t, bad) = status_of_error(&LoginError::InvalidCredentials).text();
    assert_eq!(t, "Invalid username, password, or recovery key");
    assert!(bad);
    let (t, _) = status_of_error(&LoginError::NetworkError).text();
    assert_eq!(t, "A network error occurred. Please check your connection and try again.");
    let (t, _) = status_of_error(&LoginError::BackendError).text();
    assert_eq!(t, "An unknown error occurred");
    assert_eq!(LoginInputStatus::Loading.text().0, "Logging in...");
}

#[test]
fn discovery_states() {
    assert!(matches!(discovery_on_input(""), DiscoveryStatus::Idle));
    assert!(matches!(discovery_on_input("x.org"), DiscoveryStatus::Checking));
    let current = "matrix.org".to_string();
    let (ok, st) = discovery_result(&Some("matrix.org".to_string()), &current);
    assert!(ok);
    assert_eq!(st.text(), "Server found");
    let (ok, st) = discovery_result(&Some("other.org".to_string()), &current);
    assert!(!ok);
    assert_eq!(st.text(), "Server not found");
    let (ok, _) = discovery_result(&None, &current);
    assert!(!ok);
    assert_eq!(DiscoveryStatus::Idle.text(), "Enter a homeserver URL");
    assert_eq!(DiscoveryStatus::Checking.text(), "Checking server...");
}
