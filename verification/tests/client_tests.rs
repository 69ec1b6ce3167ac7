use tinypng::handle_fetch_response;
use tinypng::handle_submit_response;
use tinypng::TinyPng;
use tinypng::TinyPngError;

#[test]
fn successful_submit_then_fetch_yields_sizes() {
    // A 201 with a readable location header hands back the result URL.
    let location = b"https://api.example/output/abc123".to_vec();
    let url = handle_submit_response(201, Some(location.clone()), String::new())
        .expect("submission should succeed");
    assert_eq!(url, location);

    // A 200 fetch of K bytes completes the job with output size K.
    let input_size: u64 = 4096;
    let fetched: u64 = 1234;
    let output_size = handle_fetch_response(200, fetched, String::new())
        .expect("fetch should succeed");
    assert_eq!((input_size, output_size), (4096, 1234));
}

#[test]
fn submit_status_403_is_a_service_error() {
    let r = handle_submit_response(403, None, String::from("Forbidden"));
    match r {
        Err(TinyPngError::Service { status, body }) => {
            assert_eq!(status, 403);
            assert_eq!(body, "Forbidden");
        }
        other => panic!("expected a service error, got {:?}", other),
    }
}

#[test]
fn submit_without_location_is_a_protocol_error() {
    let r = handle_submit_response(201, None, String::new());
    match r {
        Err(TinyPngError::Protocol(reason)) => {
            assert_eq!(reason, "location header not found");
        }
        other => panic!("expected a protocol error, got {:?}", other),
    }
}

#[test]
fn submit_with_unreadable_location_is_a_protocol_error() {
    let r = handle_submit_response(201, Some(vec![0xff, 0x00]), String::new());
    match r {
        Err(TinyPngError::Protocol(reason)) => {
            assert_eq!(reason, "location header not valid text");
        }
        other => panic!("expected a protocol error, got {:?}", other),
    }
}

#[test]
fn location_with_tab_is_readable() {
    let r = handle_submit_response(201, Some(b"a\tb".to_vec()), String::new());
    assert_eq!(r.expect("tab is readable header text"), b"a\tb".to_vec());
}

#[test]
fn fetch_status_other_than_200_is_a_service_error() {
    let r = handle_fetch_response(404, 0, String::from("gone"));
    match r {
        Err(TinyPngError::Service { status, body }) => {
            assert_eq!(status, 404);
            assert_eq!(body, "gone");
        }
        other => panic!("expected a service error, got {:?}", other),
    }
}

#[test]
fn client_keeps_its_key() {
    let client = TinyPng::new(String::from("0123456789abcdef0123456789abcdef"));
    assert_eq!(client.api_key(), "0123456789abcdef0123456789abcdef");
}

#[test]
fn key_length_check() {
    assert!(tinypng::client::valid_key_length(
        "0123456789abcdef0123456789abcdef"
    ));
    assert!(!tinypng::client::valid_key_length("short"));
    assert!(!tinypng::client::valid_key_length(""));
}
