use crawlcore::models::{ApiResponse, Config, CreateUserRequest, UpdateUserRequest};

#[test]
fn success_response_carries_data_only() {
    let r: ApiResponse<u32> = ApiResponse::success(7);
    assert!(r.success);
    assert_eq!(r.data, Some(7));
    assert!(r.message.is_none());
}

#[test]
fn error_response_carries_message_only() {
    let r: ApiResponse<u32> = ApiResponse::error("boom");
    assert!(!r.success);
    assert!(r.data.is_none());
    assert_eq!(r.message.as_deref(), Some("boom"));
}

#[test]
fn request_shells_hold_their_fields() {
    let c = Config { database_url: String::from("postgres://db"), server_port: 3000 };
    assert_eq!(c.server_port, 3000);
    assert_eq!(c.database_url, "postgres://db");
    let mk = CreateUserRequest { name: String::from("a"), email: String::from("a@b.c") };
    assert_eq!(mk.name, "a");
    let up = UpdateUserRequest { name: None, email: Some(String::from("new@b.c")) };
    assert!(up.name.is_none());
    assert_eq!(up.email.as_deref(), Some("new@b.c"));
}
