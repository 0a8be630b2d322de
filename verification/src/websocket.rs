//! A registry of client connections by client identifier, and the choice of
//! the connections that a broadcast goes to.

use crate::string_map::StringMap;
use crate::text::{str_equal, texts};
use vstd::prelude::*;

verus! {

/// One connection of a client.
#[derive(Debug)]
pub struct WebSocketConnection {
    pub client_principal: String,
    pub is_active: bool,
}

/// What a `WebSocketConnection` stands for.
pub struct WebSocketConnectionView {
    pub client_principal: Seq<char>,
    pub is_active: bool,
}

impl View for WebSocketConnection {
    type V = WebSocketConnectionView;

    open spec fn view(&self) -> WebSocketConnectionView {
        WebSocketConnectionView {
            client_principal: self.client_principal@,
            is_active: self.is_active,
        }
    }
}

impl Clone for WebSocketConnection {
    fn clone(&self) -> (copy: Self)
        ensures
            copy == *self,
    {
        WebSocketConnection {
            client_principal: self.client_principal.clone(),
            is_active: self.is_active,
        }
    }
}

/// The connections, each under the identifier of its client.
#[derive(Debug)]
pub struct Connections {
    pub connections: StringMap<WebSocketConnection>,
}

impl View for Connections {
    type V = Map<Seq<char>, WebSocketConnectionView>;

    open spec fn view(&self) -> Map<Seq<char>, WebSocketConnectionView> {
        Map::new(
            |client: Seq<char>| self.connections@.contains_key(client),
            |client: Seq<char>| self.connections@[client]@,
        )
    }
}

/// Whether a broadcast that leaves out `excluded` goes to `client`: the
/// client has a connection, the connection is active, and the client is not
/// the one left out.
pub open spec fn is_broadcast_target(
    connections: Map<Seq<char>, WebSocketConnectionView>,
    excluded: Option<Seq<char>>,
    client: Seq<char>,
) -> bool {
    &&& connections.contains_key(client)
    &&& connections[client].is_active
    &&& excluded != Some(client)
}

impl Connections {
    /// No connection.
    pub fn new() -> (registry: Self)
        ensures
            registry@ == Map::<Seq<char>, WebSocketConnectionView>::empty(),
    {
        Connections { connections: StringMap::new() }
    }
}

/// Records an active connection of the client `client_id`, in the place of
/// any connection that the client had.
pub fn add_connection(registry: &mut Connections, client_id: String, principal: String) -> (result:
    Result<(), String>)
    ensures
        result is Ok,
        final(registry)@ == old(registry)@.insert(
            client_id@,
            WebSocketConnectionView { client_principal: principal@, is_active: true },
        ),
{
    registry.connections.insert(
        client_id,
        WebSocketConnection { client_principal: principal, is_active: true },
    );
    Ok(())
}

/// Forgets the connection of the client `client_id`.
pub fn remove_connection(registry: &mut Connections, client_id: &str)
    ensures
        final(registry)@ == old(registry)@.remove(client_id@),
{
    registry.connections.remove(client_id);
}

/// The clients that a broadcast goes to: each client with an active
/// connection, but for `exclude_client`, once.
pub fn broadcast_message(registry: &Connections, exclude_client: Option<&str>) -> (targets: Vec<
    String,
>)
    ensures
        texts(targets@).no_duplicates(),
        forall|client: Seq<char>|
            texts(targets@).contains(client) <==> is_broadcast_target(
                registry@,
                match exclude_client {
                    Some(excluded) => Some(excluded@),
                    None => None,
                },
                client,
            ),
{
    let ghost excluded: Option<Seq<char>> = match exclude_client {
        Some(excluded) => Some(excluded@),
        None => None,
    };
    let mut targets: Vec<String> = Vec::new();
    let n = registry.connections.len();
    let ghost order = registry.connections.key_order();
    let mut i: usize = 0;
    while i < n
        invariant
            i <= n,
            n == order.len(),
            order == registry.connections.key_order(),
            order.no_duplicates(),
            forall|k: Seq<char>| order.contains(k) <==> registry.connections@.contains_key(k),
            excluded == match exclude_client {
                Some(excluded) => Some(excluded@),
                None => None,
            },
            texts(targets@).no_duplicates(),
            forall|client: Seq<char>|
                texts(targets@).contains(client) <==> (order.take(i as int).contains(client)
                    && is_broadcast_target(registry@, excluded, client)),
        decreases n - i,
    {
        let client = registry.connections.key_at(i);
        let connection = registry.connections.value_at(i);
        let wanted = connection.is_active && match exclude_client {
            Some(excluded) => !str_equal(client.as_str(), excluded),
            None => true,
        };
        proof {
            let front = order.take(i as int);
            let next = order.take(i + 1);
            assert forall|k: Seq<char>| next.contains(k) <==> (front.contains(k) || k
                == order[i as int]) by {
                assert(next[i as int] == order[i as int]);
            }
            assert(wanted == is_broadcast_target(registry@, excluded, order[i as int]));
        }
        if wanted {
            let ghost before = texts(targets@);
            targets.push(client.clone());
            proof {
                let after = texts(targets@);
                assert(after =~= before.push(client@));
                assert forall|k: Seq<char>| after.contains(k) <==> (before.contains(k) || k
                    == client@) by {
                    if before.contains(k) {
                        let j = choose|j: int| 0 <= j < before.len() && before[j] == k;
                        assert(after[j] == k);
                    }
                    assert(after[before.len() as int] == client@);
                }
            }
        }
        i += 1;
    }
    assert(order.take(i as int) =~= order);
    targets
}

} // verus!
