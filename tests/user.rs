use axe::user::{decimal_string, render_user_profile, User};

#[test]
fn builds_user() {
    let user = User::new(1, "jill", "jill@example.com");
    assert_eq!(user.id(), 1);
    assert_eq!(user.username(), "jill");
    assert_eq!(user.email(), "jill@example.com");
}

#[test]
fn renders_profile() {
    let user = User::new(7, "rendered", "rendered@example.com");
    let rendered = render_user_profile(&user);

    assert!(rendered.contains("User #7"));
    assert!(rendered.contains("rendered@example.com"));
}

#[test]
fn renders_profile_exactly() {
    let user = User::new(1203, "ann", "ann@example.com");
    assert_eq!(
        render_user_profile(&user),
        "User #1203\nusername: ann\nemail: ann@example.com"
    );
}

#[test]
fn decimal_digits() {
    assert_eq!(decimal_string(0), "0");
    assert_eq!(decimal_string(10), "10");
    assert_eq!(decimal_string(u64::MAX), u64::MAX.to_string());
}
