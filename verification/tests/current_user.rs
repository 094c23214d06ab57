use bzd_messages::current_user::CurrentUser;
use uuid::Uuid;

#[test]
fn successfully_parse_token() {
    let user_id = Uuid::now_v7();

    let current_user = CurrentUser::new(&Some(user_id.to_string()));
    assert!(current_user.is_ok());

    let current_user = current_user.unwrap();
    assert_eq!(Some(user_id.as_u128()), current_user.map(|it| it.user_id));
}

#[test]
fn successfully_parse_anon_token() {
    let current_user = CurrentUser::new(&None);
    assert!(current_user.is_ok());

    let current_user = current_user.unwrap();
    assert!(current_user.is_none());
}

#[test]
fn failed_parse_token() {
    let user_id = "WRONG_UUID".to_string();

    let current_user = CurrentUser::new(&Some(user_id.clone()));
    assert!(current_user.is_err());
}

#[test]
fn check_access_grants_owner_only() {
    let user = CurrentUser { user_id: 7 };
    assert!(user.check_access(7).is_ok());
    assert!(matches!(
        user.check_access(8),
        Err(bzd_messages::AppError::Forbidden)
    ));
}
