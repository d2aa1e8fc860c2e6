use std::cell::RefCell;

use localtunnel_server::dispatch::{acquire, relay_mode, route, DispatchError, RelayMode, SWITCHING_PROTOCOLS};
use localtunnel_server::pool::Client;
use localtunnel_server::registry::ClientManager;

#[test]
fn status_codes() {
    assert_eq!(DispatchError::EndpointNotFound.status_code(), 404);
    assert_eq!(DispatchError::NoAvailableConnection.status_code(), 503);
    assert_eq!(DispatchError::MalformedRequest.status_code(), 400);
}

#[test]
fn route_without_host_is_malformed() {
    let manager: ClientManager<u8> = ClientManager::new();
    assert_eq!(route(&manager, None), Err(DispatchError::MalformedRequest));
}

#[test]
fn route_with_empty_label_is_not_found() {
    let manager: ClientManager<u8> = ClientManager::new();
    assert_eq!(route(&manager, Some(".example.com")), Err(DispatchError::EndpointNotFound));
    assert_eq!(route(&manager, Some("")), Err(DispatchError::EndpointNotFound));
    assert_eq!(route(&manager, Some("http://")), Err(DispatchError::EndpointNotFound));
}

#[test]
fn route_to_unknown_endpoint_is_not_found() {
    let mut manager = ClientManager::new();
    manager.put("demo".to_string(), 4000, 7u8);
    assert_eq!(route(&manager, Some("other.example.com")), Err(DispatchError::EndpointNotFound));
}

#[test]
fn route_finds_registered_endpoint() {
    let mut manager = ClientManager::new();
    manager.put("demo".to_string(), 4000, 7u8);
    assert_eq!(route(&manager, Some("https://demo.example.com:443")), Ok(&7u8));
}

#[test]
fn empty_pool_gives_no_available_connection() {
    let mut manager = ClientManager::new();
    manager.put("demo".to_string(), 4000, RefCell::new(Client::<u32>::new()));
    let pool = route(&manager, Some("demo.example.com")).unwrap();
    assert_eq!(acquire(&mut pool.borrow_mut()), Err(DispatchError::NoAvailableConnection));
    assert_eq!(pool.borrow().idle_count(), 0);
}

#[test]
fn request_reaches_newest_connection() {
    let mut manager = ClientManager::new();
    let port = manager.put("demo".to_string(), 4000, RefCell::new(Client::new()));
    assert_eq!(port, (4000, true));
    let pool = route(&manager, Some("demo.example.com")).unwrap();
    pool.borrow_mut().push("first");
    pool.borrow_mut().push("second");
    let pool = route(&manager, Some("demo.example.com")).unwrap();
    assert_eq!(acquire(&mut pool.borrow_mut()), Ok("second"));
    assert_eq!(pool.borrow().idle_count(), 1);
}

#[test]
fn mismatched_upgrade_is_relayed_as_response() {
    let asked = "websocket".to_string();
    let given = "h2c".to_string();
    assert_eq!(relay_mode(Some(&asked), SWITCHING_PROTOCOLS, Some(&given)), RelayMode::Respond);
}

#[test]
fn matching_upgrade_opens_bidirectional_relay() {
    let asked = "websocket".to_string();
    let given = "websocket".to_string();
    assert_eq!(relay_mode(Some(&asked), 101, Some(&given)), RelayMode::Bidirectional);
}

#[test]
fn upgrade_refused_or_absent_is_relayed_as_response() {
    let asked = "websocket".to_string();
    assert_eq!(relay_mode(Some(&asked), 200, Some(&asked)), RelayMode::Respond);
    assert_eq!(relay_mode(Some(&asked), 101, None), RelayMode::Respond);
    assert_eq!(relay_mode(None, 200, None), RelayMode::Respond);
}
