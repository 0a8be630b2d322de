use icp_hackathon_backend::websocket::{
    add_connection, broadcast_message, remove_connection, Connections, WebSocketConnection,
};

fn sorted(mut list: Vec<String>) -> Vec<String> {
    list.sort();
    list
}

#[test]
fn add_connection_records_an_active_connection() {
    let mut registry = Connections::new();
    assert_eq!(add_connection(&mut registry, "c1".to_string(), "alice".to_string()), Ok(()));
    assert_eq!(add_connection(&mut registry, "c2".to_string(), "bob".to_string()), Ok(()));
    assert_eq!(registry.connections.len(), 2);
    let connection = registry.connections.get("c1").unwrap();
    assert_eq!(connection.client_principal, "alice");
    assert!(connection.is_active);
    assert_eq!(add_connection(&mut registry, "c1".to_string(), "carol".to_string()), Ok(()));
    assert_eq!(registry.connections.len(), 2);
    assert_eq!(registry.connections.get("c1").unwrap().client_principal, "carol");
}

#[test]
fn remove_connection_forgets_the_client() {
    let mut registry = Connections::new();
    add_connection(&mut registry, "c1".to_string(), "alice".to_string()).unwrap();
    remove_connection(&mut registry, "c2");
    assert_eq!(registry.connections.len(), 1);
    remove_connection(&mut registry, "c1");
    assert_eq!(registry.connections.len(), 0);
    assert!(registry.connections.get("c1").is_none());
}

#[test]
fn broadcast_message_goes_to_active_clients_but_the_excluded() {
    let mut registry = Connections::new();
    assert!(broadcast_message(&registry, None).is_empty());
    for (client, principal) in [("c1", "alice"), ("c2", "bob"), ("c3", "carol")] {
        add_connection(&mut registry, client.to_string(), principal.to_string()).unwrap();
    }
    registry.connections.insert(
        "c4".to_string(),
        WebSocketConnection { client_principal: "dave".to_string(), is_active: false },
    );
    assert_eq!(sorted(broadcast_message(&registry, None)), ["c1", "c2", "c3"]);
    assert_eq!(sorted(broadcast_message(&registry, Some("c2"))), ["c1", "c3"]);
    assert_eq!(sorted(broadcast_message(&registry, Some("c4"))), ["c1", "c2", "c3"]);
    assert_eq!(sorted(broadcast_message(&registry, Some("nobody"))), ["c1", "c2", "c3"]);
    remove_connection(&mut registry, "c1");
    assert_eq!(sorted(broadcast_message(&registry, Some("c3"))), ["c2"]);
}
