use yggdrasil_authenticator::auth_agent::AuthAgent;
use yggdrasil_authenticator::auth_error::AuthError;
use yggdrasil_authenticator::auth_profile::AuthProfile;
use yggdrasil_authenticator::client::{
    authenticate_response, no_payload_response, refresh_response, AuthClient, ClientError,
};

fn create_test_client(url: &str) -> AuthClient {
    AuthClient::new(url.to_string(), None)
}

fn json_value(text: &str) -> serde_json::Value {
    serde_json::from_str(text).unwrap()
}

#[test]
fn test_refresh_without_profile_omits_selected_profile_key() {
    let client = create_test_client("http://auth.example");
    let (_url, body) = client.refresh_request("token", "client", true, None);

    assert!(!body.contains("selectedProfile"));
    let sent = json_value(&body);
    let members = sent.as_object().unwrap();
    assert_eq!(members.len(), 3);
    assert!(members.contains_key("accessToken"));
    assert!(members.contains_key("clientToken"));
    assert!(members.contains_key("requestUser"));
}

#[test]
fn test_refresh_with_profile_carries_selected_profile() {
    let client = create_test_client("http://auth.example");
    let profile = AuthProfile::new("Steve".to_string(), "p-1".to_string());
    let (_url, body) = client.refresh_request("token", "client", true, Some(profile));

    assert_eq!(
        json_value(&body),
        json_value(
            "{\"accessToken\":\"token\",\"clientToken\":\"client\",\"requestUser\":true,\
             \"selectedProfile\":{\"name\":\"Steve\",\"id\":\"p-1\"}}"
        )
    );
}

#[test]
fn test_bom_prefixed_body_parses_like_the_bare_body() {
    let bare = "{\"accessToken\":\"tok\",\"clientToken\":\"cli\",\
                \"availableProfiles\":[],\"selectedProfile\":null,\"user\":null}";
    let one_bom = format!("\u{feff}{}", bare);
    let three_boms = format!("\u{feff}\u{feff}\u{feff}{}", bare);

    let plain = authenticate_response(200, bare.as_bytes()).unwrap();
    let stripped_one = authenticate_response(200, one_bom.as_bytes()).unwrap();
    let stripped_three = authenticate_response(200, three_boms.as_bytes()).unwrap();

    assert_eq!(plain.access_token, "tok");
    assert_eq!(stripped_one.access_token, "tok");
    assert_eq!(stripped_three.access_token, "tok");
    assert_eq!(stripped_one.client_token, plain.client_token);
    assert_eq!(stripped_three.client_token, plain.client_token);
}

#[test]
fn test_non_json_failure_body_becomes_transport_error() {
    let result = no_payload_response(500, b"gateway fell over");
    match result {
        Err(ClientError::Transport(status, body)) => {
            assert_eq!(status, 500);
            assert_eq!(body, "gateway fell over");
        }
        other => panic!("expected a transport error, got {:?}", other),
    }

    let result = authenticate_response(502, b"<html>bad gateway</html>");
    match result {
        Err(ClientError::Transport(status, body)) => {
            assert_eq!(status, 502);
            assert_eq!(body, "<html>bad gateway</html>");
        }
        other => panic!("expected a transport error, got {:?}", other),
    }
}

#[test]
fn test_invalid_utf8_body_becomes_encoding_error() {
    let result = authenticate_response(200, &[0xff, 0xfe, 0x01]);
    match result {
        Err(ClientError::Encoding) => {}
        other => panic!("expected an encoding error, got {:?}", other),
    }
}

#[test]
fn test_no_payload_operations_fail_on_any_status_but_204() {
    assert!(no_payload_response(204, b"").is_ok());
    assert!(no_payload_response(204, b"ignored").is_ok());

    match no_payload_response(200, b"{}") {
        Err(ClientError::Deserialization) => {}
        other => panic!("expected a deserialization error, got {:?}", other),
    }
    match no_payload_response(
        403,
        b"{\"error\":\"ForbiddenOperationException\",\"errorMessage\":\"Invalid token\",\
           \"cause\":\"\"}",
    ) {
        Err(ClientError::Protocol(e)) => {
            assert_eq!(e.error, "ForbiddenOperationException");
            assert_eq!(e.error_message, "Invalid token");
        }
        other => panic!("expected a protocol error, got {:?}", other),
    }
    assert!(no_payload_response(500, b"kaput").is_err());
}

#[test]
fn test_authenticate_on_204_is_a_deserialization_failure() {
    match authenticate_response(204, b"") {
        Err(ClientError::Deserialization) => {}
        other => panic!("expected a deserialization error, got {:?}", other),
    }
}

#[test]
fn test_string_escapes_round_trip_through_the_wire_form() {
    let client = create_test_client("http://auth.example");
    let agent = AuthAgent::new("Mine\"craft\\v2\n".to_string(), -3);
    let (_url, body) =
        client.authenticate_request(agent, "tab\tuser", "pass\u{1}word", "client", true);

    let sent = json_value(&body);
    assert_eq!(sent["agent"]["name"], "Mine\"craft\\v2\n");
    assert_eq!(sent["agent"]["version"], json_value("-3"));
    assert_eq!(sent["username"], "tab\tuser");
    assert_eq!(sent["password"], "pass\u{1}word");
    assert_eq!(sent["requestUser"], json_value("true"));
}

#[test]
fn test_response_escapes_and_unicode_are_decoded() {
    let body = "{\"accessToken\":\"t\\u0041b\\n\\\"q\\\"\",\"clientToken\":\"grü😀n\",\
                \"availableProfiles\":[],\"selectedProfile\":null,\"user\":null}";
    let response = authenticate_response(200, body.as_bytes()).unwrap();
    assert_eq!(response.access_token, "tAb\n\"q\"");
    assert_eq!(response.client_token, "grü😀n");
}

#[test]
fn test_unknown_members_are_ignored_and_wrong_types_are_not() {
    let body = "{\"accessToken\":\"tok\",\"clientToken\":\"cli\",\"availableProfiles\":[],\
                \"selectedProfile\":null,\"user\":null,\"expiresIn\":3600,\"flags\":[true,-2]}";
    let response = authenticate_response(200, body.as_bytes()).unwrap();
    assert_eq!(response.access_token, "tok");

    let bad = "{\"accessToken\":17,\"clientToken\":\"cli\",\"availableProfiles\":[],\
               \"selectedProfile\":null,\"user\":null}";
    match authenticate_response(200, bad.as_bytes()) {
        Err(ClientError::Deserialization) => {}
        other => panic!("expected a deserialization error, got {:?}", other),
    }

    let missing = "{\"clientToken\":\"cli\",\"availableProfiles\":[],\
                   \"selectedProfile\":null,\"user\":null}";
    match authenticate_response(200, missing.as_bytes()) {
        Err(ClientError::Deserialization) => {}
        other => panic!("expected a deserialization error, got {:?}", other),
    }
}

#[test]
fn test_profiles_and_user_are_decoded_field_by_field() {
    let body = "{\"accessToken\":\"tok\",\"clientToken\":\"cli\",\
                \"availableProfiles\":[{\"name\":\"Steve\",\"id\":\"p-1\"},\
                {\"name\":\"Alex\",\"id\":\"p-2\"}],\
                \"selectedProfile\":{\"name\":\"Steve\",\"id\":\"p-1\"},\
                \"user\":{\"id\":\"u-9\",\"properties\":[\
                {\"name\":\"lang\",\"value\":\"de\"}]}}";
    let response = authenticate_response(200, body.as_bytes()).unwrap();

    assert_eq!(response.available_profiles.len(), 2);
    assert_eq!(response.available_profiles[0].name, "Steve");
    assert_eq!(response.available_profiles[0].id, "p-1");
    assert_eq!(response.available_profiles[1].name, "Alex");
    assert_eq!(response.available_profiles[1].id, "p-2");

    let selected = response.selected_profile.unwrap();
    assert_eq!(selected.name, "Steve");
    assert_eq!(selected.id, "p-1");

    let user = response.user.unwrap();
    assert_eq!(user.id, "u-9");
    assert_eq!(user.properties.len(), 1);
    assert_eq!(user.properties[0].name, "lang");
    assert_eq!(user.properties[0].value, "de");
}

#[test]
fn test_interleaved_operations_do_not_interfere() {
    let auth_client = create_test_client("http://auth-a.example");
    let refresh_client = create_test_client("http://auth-b.example");

    let agent = AuthAgent::new("Minecraft".to_string(), 1);
    let (auth_url, auth_body) =
        auth_client.authenticate_request(agent, "testuser", "password", "client_token", false);
    let (refresh_url, refresh_body) =
        refresh_client.refresh_request("old_token", "client_token", false, None);

    let auth_result = authenticate_response(
        200,
        "{\"accessToken\":\"a-tok\",\"clientToken\":\"client_token\",\"availableProfiles\":[],\
         \"selectedProfile\":null,\"user\":null}"
            .as_bytes(),
    )
    .unwrap();
    let refresh_result = refresh_response(
        200,
        "{\"accessToken\":\"r-tok\",\"clientToken\":\"client_token\",\"selectedProfile\":null,\
         \"user\":null}"
            .as_bytes(),
    )
    .unwrap();

    assert_eq!(auth_url, "http://auth-a.example/authenticate");
    assert_eq!(refresh_url, "http://auth-b.example/refresh");
    assert!(json_value(&auth_body).get("agent").is_some());
    assert!(json_value(&refresh_body).get("agent").is_none());
    assert_eq!(auth_result.access_token, "a-tok");
    assert_eq!(refresh_result.access_token, "r-tok");
}

#[test]
fn test_end_to_end_authenticate_scenario() {
    let client = create_test_client("http://auth.example");
    let agent = AuthAgent::new("Minecraft".to_string(), 1);
    let (url, body) =
        client.authenticate_request(agent, "testuser", "password", "client_token", false);
    assert_eq!(url, "http://auth.example/authenticate");
    assert_eq!(json_value(&body)["clientToken"], "client_token");

    let server_body = "{\"accessToken\":\"tok\",\"clientToken\":\"client_token\",\
                       \"availableProfiles\":[],\"selectedProfile\":null,\"user\":null}";
    let response = authenticate_response(200, server_body.as_bytes()).unwrap();
    assert_eq!(response.access_token, "tok");
}

#[test]
fn test_auth_error_display_form() {
    let e = AuthError::new(
        "ForbiddenOperationException".to_string(),
        "Invalid token".to_string(),
        "".to_string(),
    );
    assert_eq!(e.display_string(), "ForbiddenOperationException: Invalid token");
}

#[test]
fn test_client_keeps_its_proxy_configuration() {
    let with_proxy = AuthClient::new(
        "http://auth.example".to_string(),
        Some("http://proxy.example:8080".to_string()),
    );
    assert_eq!(with_proxy.get_proxy(), Some("http://proxy.example:8080"));

    let without_proxy = create_test_client("http://auth.example");
    assert_eq!(without_proxy.get_proxy(), None);
}

#[test]
fn test_member_order_and_whitespace_are_tolerated() {
    let body = " {\n  \"user\": null,\r\n  \"selectedProfile\": null,\n  \"clientToken\": \"cli\",\n  \"availableProfiles\": [ ],\n  \"accessToken\": \"tok\"\n}\t";
    let response = authenticate_response(200, body.as_bytes()).unwrap();
    assert_eq!(response.access_token, "tok");
    assert_eq!(response.client_token, "cli");
    assert!(response.available_profiles.is_empty());
}

#[test]
fn test_malformed_success_payload_is_a_deserialization_failure() {
    // a number with a superfluous leading zero is no JSON document
    let body = "{\"accessToken\":\"tok\",\"clientToken\":\"cli\",\"availableProfiles\":[],\
                \"selectedProfile\":null,\"user\":null,\"expiresIn\":007}";
    match authenticate_response(200, body.as_bytes()) {
        Err(ClientError::Deserialization) => {}
        other => panic!("expected a deserialization error, got {:?}", other),
    }
    // a bare word is no JSON document either
    match refresh_response(200, b"pending") {
        Err(ClientError::Deserialization) => {}
        other => panic!("expected a deserialization error, got {:?}", other),
    }
}
