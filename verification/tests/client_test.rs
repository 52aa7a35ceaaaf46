use yggdrasil_authenticator::auth_agent::AuthAgent;
use yggdrasil_authenticator::client::{
    authenticate_response, no_payload_response, refresh_response, AuthClient, ClientError,
};

fn create_test_client(url: &str) -> AuthClient {
    AuthClient::new(url.to_string(), None)
}

fn json_value(text: &str) -> serde_json::Value {
    serde_json::from_str(text).unwrap()
}

#[test]
fn test_authenticate_success() {
    let client = create_test_client("http://auth.example");
    let agent = AuthAgent::new("Minecraft".to_string(), 1);

    let (url, body) = client.authenticate_request(agent, "testuser", "password", "client_token", false);
    assert_eq!(url, "http://auth.example/authenticate");
    assert_eq!(
        json_value(&body),
        json_value(
            "{\"agent\":{\"name\":\"Minecraft\",\"version\":1},\"username\":\"testuser\",\
             \"password\":\"password\",\"clientToken\":\"client_token\",\"requestUser\":false}"
        )
    );

    let response_body = "{\"accessToken\":\"test_access_token\",\"clientToken\":\"client_token\",\
                         \"availableProfiles\":[],\"selectedProfile\":null,\"user\":null}";
    let response = authenticate_response(200, response_body.as_bytes()).unwrap();

    assert_eq!(response.access_token, "test_access_token");
    assert_eq!(response.client_token, "client_token");
    assert!(response.available_profiles.is_empty());
    assert!(response.selected_profile.is_none());
    assert!(response.user.is_none());
}

#[test]
fn test_refresh_success() {
    let client = create_test_client("http://auth.example");

    let (url, body) = client.refresh_request("old_access_token", "client_token", false, None);
    assert_eq!(url, "http://auth.example/refresh");
    assert_eq!(
        json_value(&body),
        json_value(
            "{\"accessToken\":\"old_access_token\",\"clientToken\":\"client_token\",\
             \"requestUser\":false}"
        )
    );

    let response_body = "{\"accessToken\":\"new_access_token\",\"clientToken\":\"client_token\",\
                         \"selectedProfile\":null,\"user\":null}";
    let response = refresh_response(200, response_body.as_bytes()).unwrap();

    assert_eq!(response.access_token, "new_access_token");
}

#[test]
fn test_validate_success() {
    let client = create_test_client("http://auth.example");

    let (url, body) = client.validate_request("test_access_token");
    assert_eq!(url, "http://auth.example/validate");
    assert_eq!(json_value(&body), json_value("{\"accessToken\":\"test_access_token\"}"));

    let result = no_payload_response(204, b"");
    assert!(result.is_ok());
}

#[test]
fn test_invalidate_success() {
    let client = create_test_client("http://auth.example");

    let (url, body) = client.invalidate_request("test_access_token", "client_token");
    assert_eq!(url, "http://auth.example/invalidate");
    assert_eq!(
        json_value(&body),
        json_value("{\"accessToken\":\"test_access_token\",\"clientToken\":\"client_token\"}")
    );

    let result = no_payload_response(204, b"");
    assert!(result.is_ok());
}

#[test]
fn test_signout_success() {
    let client = create_test_client("http://auth.example");

    let (url, body) = client.signout_request("testuser", "password");
    assert_eq!(url, "http://auth.example/signout");
    assert_eq!(
        json_value(&body),
        json_value("{\"username\":\"testuser\",\"password\":\"password\"}")
    );

    let result = no_payload_response(204, b"");
    assert!(result.is_ok());
}

#[test]
fn test_auth_error_response() {
    let client = create_test_client("http://auth.example");
    let agent = AuthAgent::new("Minecraft".to_string(), 1);
    let (url, _body) =
        client.authenticate_request(agent, "invalid_user", "wrong_password", "client_token", true);
    assert_eq!(url, "http://auth.example/authenticate");

    let response_body = "{\"error\":\"ForbiddenOperationException\",\
                         \"errorMessage\":\"Invalid credentials. Invalid username or password.\",\
                         \"cause\":\"User credentials are invalid\"}";
    let result = authenticate_response(403, response_body.as_bytes());

    assert!(result.is_err());
    match result {
        Err(ClientError::Protocol(auth_error)) => {
            assert_eq!(auth_error.error, "ForbiddenOperationException");
            assert_eq!(auth_error.error_message, "Invalid credentials. Invalid username or password.");
            assert_eq!(auth_error.cause, "User credentials are invalid");
        }
        other => panic!("expected a protocol error, got {:?}", other),
    }
}
