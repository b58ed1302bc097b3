//! The server: its configuration and what it listens on.

use vstd::prelude::*;
use dashmap::DashMap;
use crate::ephemeral::{new_rooms, no_rooms, rooms_of, EphemeralRoom};
use crate::rows::views;
use crate::store::Store;

verus! {

/// How a server is set up.
#[derive(Debug)]
pub struct ServerConfig {
    pub socket_path: String,
    pub tcp_addr: Option<String>,
    pub http_addr: Option<String>,
    pub db_path: String,
    pub auth_key_path: String,
    pub no_auth: bool,
}

/// A way to reach the server.
#[derive(Debug)]
pub enum Listener {
    /// A socket in the file system.
    Unix(String),
    Tcp(String),
    /// HTTP with WebSockets.
    Http(String),
}

/// What a `Listener` stands for.
pub enum ListenerView {
    Unix(Seq<char>),
    Tcp(Seq<char>),
    Http(Seq<char>),
}

impl View for Listener {
    type V = ListenerView;

    open spec fn view(&self) -> ListenerView {
        match self {
            Listener::Unix(path) => ListenerView::Unix(path@),
            Listener::Tcp(addr) => ListenerView::Tcp(addr@),
            Listener::Http(addr) => ListenerView::Http(addr@),
        }
    }
}

/// What a server of a configuration listens on: always its socket, and the
/// addresses that it is given.
pub open spec fn listens_on(config: ServerConfig) -> Seq<ListenerView> {
    let socket = seq![ListenerView::Unix(config.socket_path@)];
    let tcp = match config.tcp_addr {
        Some(addr) => socket.push(ListenerView::Tcp(addr@)),
        None => socket,
    };
    match config.http_addr {
        Some(addr) => tcp.push(ListenerView::Http(addr@)),
        None => tcp,
    }
}

/// A server: its configuration, its tables, its ephemeral rooms and its key.
pub struct ClawdChatServer {
    pub config: ServerConfig,
    pub store: Store,
    pub ephemeral_rooms: DashMap<String, EphemeralRoom>,
    pub api_key: String,
}

impl ClawdChatServer {
    /// A server of open tables and a key, without ephemeral rooms.
    pub fn new(config: ServerConfig, store: Store, api_key: String) -> (r: ClawdChatServer)
        ensures
            r.config == config,
            r.store == store,
            r.api_key == api_key,
            rooms_of(r.ephemeral_rooms) == no_rooms(),
    {
        ClawdChatServer { config, store, ephemeral_rooms: new_rooms(), api_key }
    }

    /// What the server listens on, in the order of starting.
    pub fn listeners(&self) -> (r: Vec<Listener>)
        ensures
            views(r@) == listens_on(self.config),
    {
        let mut out: Vec<Listener> = Vec::new();
        out.push(Listener::Unix(self.config.socket_path.clone()));
        if let Some(addr) = &self.config.tcp_addr {
            out.push(Listener::Tcp(addr.clone()));
        }
        if let Some(addr) = &self.config.http_addr {
            out.push(Listener::Http(addr.clone()));
        }
        assert(views(out@) =~= listens_on(self.config));
        out
    }

    /// The key of the server.
    pub fn api_key(&self) -> (r: &str)
        ensures
            r@ == self.api_key@,
    {
        self.api_key.as_str()
    }

    /// The socket of the server.
    pub fn socket_path(&self) -> (r: &str)
        ensures
            r@ == self.config.socket_path@,
    {
        self.config.socket_path.as_str()
    }

    /// The tables of the server.
    pub fn store(&self) -> (r: &Store)
        ensures
            *r == self.store,
    {
        &self.store
    }
}

// --- What the calls do ---

/// A server listens on its socket, then on its TCP address, then on its HTTP address, each
/// where it is given one, and on nothing else.
pub proof fn a_server_listens_where_it_is_set_up(
    server: &ClawdChatServer,
    r: Vec<Listener>,
)
    requires
        call_ensures(ClawdChatServer::listeners, (server,), r),
    ensures
        r@.len() == 1 + (if server.config.tcp_addr is Some {
            1int
        } else {
            0
        }) + (if server.config.http_addr is Some {
            1int
        } else {
            0
        }),
        r@[0]@ == ListenerView::Unix(server.config.socket_path@),
        server.config.tcp_addr matches Some(a) ==> r@[1]@ == ListenerView::Tcp(a@),
        server.config.http_addr matches Some(a) ==> r@.last()@ == ListenerView::Http(a@),
{
    let all = views(r@);
    assert(all.len() == r@.len());
    assert(all[0] == r@[0]@);
    if all.len() > 1 {
        assert(all[1] == r@[1]@);
    }
    assert(all[all.len() - 1] == r@[r@.len() - 1]@);
}

/// A new server has what it was made of, and no ephemeral rooms; it shows its key, its
/// socket and its tables.
pub proof fn a_server_has_what_it_was_made_of(
    config: ServerConfig,
    store: Store,
    api_key: String,
    server: ClawdChatServer,
    key: &str,
    socket: &str,
    tables: &Store,
)
    requires
        call_ensures(ClawdChatServer::new, (config, store, api_key), server),
        call_ensures(ClawdChatServer::api_key, (&server,), key),
        call_ensures(ClawdChatServer::socket_path, (&server,), socket),
        call_ensures(ClawdChatServer::store, (&server,), tables),
    ensures
        server.config == config,
        tables@ == store@,
        key@ == api_key@,
        socket@ == config.socket_path@,
        forall|k: Seq<char>| !#[trigger] rooms_of(server.ephemeral_rooms).contains_key(k),
{
}

} // verus!
