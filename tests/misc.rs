use lib_auth::b64::b64u_encode;
use lib_auth::ctx::{Ctx, Error as CtxError};
use lib_auth::envs::{get_env_b64u_as_u8s, DefaultIfMissing, Error as EnvError, IfMissing};
use lib_auth::mac::constant_time_eq;
use lib_auth::model::{resolve_unique_violation, UserBmc};

#[test]
fn ctx_constructors() {
    assert_eq!(Ctx::root_ctx().user_id(), "root");
    assert_eq!(Ctx::cli_ctx().user_id(), "cli");
    assert_eq!(Ctx::new("demo1").unwrap().user_id(), "demo1");
    assert_eq!(Ctx::new("root").unwrap_err(), CtxError::CtxCannotNewRootCtx);
    assert_eq!(Ctx::new("rooted").unwrap().user_id(), "rooted");
}

#[test]
fn env_missing_values() {
    let missing: Result<u32, EnvError> = Err(EnvError::MissingEnv("X"));
    assert_eq!(missing.if_missing(5), Ok(5));
    let missing: Result<bool, EnvError> = Err(EnvError::MissingEnv("X"));
    assert_eq!(missing.default_if_missing(), Ok(false));
    let wrong: Result<u32, EnvError> = Err(EnvError::WrongFormat("X"));
    assert_eq!(wrong.if_missing(5), Err(EnvError::WrongFormat("X")));
    let present: Result<u32, EnvError> = Ok(3);
    assert_eq!(present.if_missing(5), Ok(3));
    let present: Result<u32, EnvError> = Ok(3);
    assert_eq!(present.default_if_missing(), Ok(3));
}

#[test]
fn env_b64u_bytes() {
    let v = get_env_b64u_as_u8s("KEY", Ok(b64u_encode(b"secret"))).unwrap();
    assert_eq!(v, b"secret".to_vec());
    assert_eq!(get_env_b64u_as_u8s("KEY", Ok("not base64!".to_string())), Err(EnvError::WrongFormat("KEY")));
    assert_eq!(get_env_b64u_as_u8s("KEY", Err(EnvError::MissingEnv("KEY"))), Err(EnvError::MissingEnv("KEY")));
}

#[test]
fn constant_time_comparison() {
    assert!(constant_time_eq(b"abc", b"abc"));
    assert!(constant_time_eq(b"", b""));
    assert!(!constant_time_eq(b"abc", b"abd"));
    assert!(!constant_time_eq(b"abc", b"ab"));
    assert!(!constant_time_eq(b"xbc", b"abc"));
}

#[test]
fn user_id_from_random_bytes() {
    let id = UserBmc::generate_user_id(&[7; 64]);
    assert_eq!(id.chars().count(), 10);
    assert_eq!(id, id.to_uppercase());
    assert_eq!(id, UserBmc::generate_user_id(&[7; 64]));
    assert_ne!(id, UserBmc::generate_user_id(&[8; 64]));
    let short = UserBmc::generate_user_id(&[0; 64]);
    assert_eq!(short, "1".repeat(64).chars().take(10).collect::<String>());
}

#[test]
fn unique_violation_from_database_error() {
    let v = resolve_unique_violation(Some("23505"), Some("users"), Some("users_email_key")).unwrap();
    assert_eq!(v.table, "users");
    assert_eq!(v.constraint, "users_email_key");
    assert!(resolve_unique_violation(Some("23503"), Some("users"), Some("fk")).is_none());
    assert!(resolve_unique_violation(Some("23505"), None, Some("users_email_key")).is_none());
    assert!(resolve_unique_violation(None, Some("users"), Some("users_email_key")).is_none());
}
