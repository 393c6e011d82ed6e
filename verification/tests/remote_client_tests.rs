//! The requests of the remote log client.

use tolstoy::ids::Uuid;
use tolstoy::remote_client::RemoteClient;

#[test]
fn test_remote_client_bound_uri() {
    let user_uuid = Uuid::parse_str(&"316ea470-ce35-4adf-9c61-e0de6e289c59").expect("uuid");
    let server_uri = String::from("https://example.com/api/0.1");
    let remote_client = RemoteClient::new(server_uri, user_uuid);
    assert_eq!(
        "https://example.com/api/0.1/316ea470-ce35-4adf-9c61-e0de6e289c59",
        remote_client.bound_base_uri()
    );
}
