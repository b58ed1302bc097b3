//! Where the client finds its files and keys.

use vstd::prelude::*;
use vstd::string::*;
use vstd::utf8::{decode_utf8, encode_utf8, valid_utf8};
use crate::text::{trim, trimmed};

verus! {

/// Calls `directories::BaseDirs::new` and `BaseDirs::home_dir`, and takes the
/// bytes of the path, which need not be text. Nothing is promised of the
/// directory: it depends on the machine.
#[verifier::external_body]
fn home_dir() -> (r: Option<Vec<u8>>)
{
    directories::BaseDirs::new()
        .map(|dirs| dirs.home_dir().as_os_str().as_encoded_bytes().to_vec())
}

/// The text of some bytes, with a replacement character for what is no text.
pub uninterp spec fn lossy_text(bytes: Seq<u8>) -> Seq<char>;

/// Whether a text is what some bytes are shown as: what they encode, where they
/// are UTF-8.
pub open spec fn reads_path(bytes: Seq<u8>, text: Seq<char>) -> bool {
    text == lossy_text(bytes) && (valid_utf8(bytes) ==> text == decode_utf8(bytes))
}

/// Calls `String::from_utf8_lossy`. Bytes that are UTF-8 become the text that
/// they encode; of others only a name is given.
#[verifier::external_body]
fn read_lossy(bytes: &Vec<u8>) -> (r: String)
    ensures
        r@ == lossy_text(bytes@),
        valid_utf8(bytes@) ==> r@ == decode_utf8(bytes@),
{
    String::from_utf8_lossy(bytes).into_owned()
}

/// The byte between a directory and what is below it.
pub const SLASH: u8 = 47;

/// A path below a directory, as bytes.
pub open spec fn joined(dir: Seq<u8>, name: Seq<char>) -> Seq<u8> {
    if dir.len() == 0 || dir.last() == SLASH {
        dir + encode_utf8(name)
    } else {
        dir.push(SLASH) + encode_utf8(name)
    }
}

/// Names a path below a directory.
pub fn join_path(dir: &Vec<u8>, name: &str) -> (r: Vec<u8>)
    ensures
        r@ == joined(dir@, name@),
{
    let mut out: Vec<u8> = Vec::new();
    out.extend_from_slice(dir.as_slice());
    if dir.len() > 0 && dir[dir.len() - 1] != SLASH {
        out.push(SLASH);
    }
    out.extend_from_slice(name.as_bytes());
    assert(out@ =~= joined(dir@, name@));
    out
}

/// The directory of the client below the home directory, or below the current
/// directory where there is no home.
pub open spec fn data_dir(home: Option<Seq<u8>>) -> Seq<u8> {
    match home {
        Some(dir) => joined(dir, ".clawchat"@),
        None => encode_utf8(".clawchat"@),
    }
}

/// Names the directory of the client, given the home directory.
pub fn data_dir_in(home: Option<Vec<u8>>) -> (r: Vec<u8>)
    ensures
        r@ == data_dir(
            match home {
                Some(dir) => Some(dir@),
                None => None,
            },
        ),
{
    match home {
        Some(dir) => join_path(&dir, ".clawchat"),
        None => ".clawchat".as_bytes_vec(),
    }
}

/// The directory of the client.
pub fn default_data_dir() -> (r: Vec<u8>)
    ensures
        exists|home: Option<Seq<u8>>| r@ == #[trigger] data_dir(home),
{
    data_dir_in(home_dir())
}

/// The path of the socket of the server, as text, given the directory of the
/// client.
pub fn socket_path_in(dir: &Vec<u8>) -> (r: String)
    ensures
        reads_path(joined(dir@, "clawchat.sock"@), r@),
{
    read_lossy(&join_path(dir, "clawchat.sock"))
}

/// The path of the socket of the server, as text.
pub fn default_socket_path() -> (r: String)
    ensures
        exists|home: Option<Seq<u8>>|
            reads_path(joined(#[trigger] data_dir(home), "clawchat.sock"@), r@),
{
    socket_path_in(&default_data_dir())
}

/// The path of the file that holds the API key.
pub fn default_key_path() -> (r: Vec<u8>)
    ensures
        exists|home: Option<Seq<u8>>| r@ == joined(#[trigger] data_dir(home), "auth.key"@),
{
    join_path(&default_data_dir(), "auth.key")
}

/// Chooses the API key: the given one, or what the key file holds, without the
/// whitespace around it.
pub fn load_key(key_arg: Option<&str>, key_file: Option<&str>) -> (r: Result<String, String>)
    ensures
        match (key_arg, key_file) {
            (Some(key), _) => r matches Ok(k) && k@ == key@,
            (None, Some(text)) => r matches Ok(k) && k@ == trimmed(text@),
            (None, None) => r matches Err(e) && e@
                == "No API key provided. Use --key or ensure ~/.clawchat/auth.key exists."@,
        },
{
    match (key_arg, key_file) {
        (Some(key), _) => Ok(key.to_owned()),
        (None, Some(text)) => Ok(trim(text)),
        (None, None) => Err(
            "No API key provided. Use --key or ensure ~/.clawchat/auth.key exists.".to_owned(),
        ),
    }
}

/// The secret of a room: the given one, or that of the environment where none is
/// given; an empty one is none.
pub open spec fn room_secret(
    given: Option<Seq<char>>,
    environment: Option<Seq<char>>,
) -> Option<Seq<char>> {
    let secret = if given is Some {
        given
    } else {
        environment
    };
    match secret {
        Some(s) => if s.len() == 0 {
            None
        } else {
            Some(s)
        },
        None => None,
    }
}

/// Chooses the secret of a room.
pub fn resolve_room_secret(given: Option<&str>, environment: Option<&str>) -> (r: Option<String>)
    ensures
        r.deep_view() == room_secret(given.deep_view(), environment.deep_view()),
{
    let secret = match given {
        Some(s) => Some(s),
        None => environment,
    };
    match secret {
        Some(s) => {
            proof {
                reveal_strlit("");
                assert(s@.len() == 0 ==> s@ =~= ""@);
            }
            if *s == *"" {
                None
            } else {
                Some(s.to_owned())
            }
        },
        None => None,
    }
}

/// How the client reaches the server.
#[derive(Debug)]
pub enum Route {
    WebSocket(String),
    Tcp(String),
    /// The path of a socket, as bytes.
    Unix(Vec<u8>),
}

/// Chooses how to reach the server: by WebSocket where a URL is given, then by
/// TCP, then by the socket.
pub fn choose_route(url: Option<&str>, tcp: Option<&str>, socket: Vec<u8>) -> (r: Route)
    ensures
        match (url, tcp) {
            (Some(u), _) => r matches Route::WebSocket(a) && a@ == u@,
            (None, Some(t)) => r matches Route::Tcp(a) && a@ == t@,
            (None, None) => r matches Route::Unix(a) && a@ == socket@,
        },
{
    match (url, tcp) {
        (Some(u), _) => Route::WebSocket(u.to_owned()),
        (None, Some(t)) => Route::Tcp(t.to_owned()),
        (None, None) => Route::Unix(socket),
    }
}

// --- What the calls do ---

/// A path below a directory is the directory, a slash unless it is empty or ends with one,
/// and the name.
pub proof fn a_path_below_a_directory(
    dir: &Vec<u8>,
    name: &str,
    r: Vec<u8>,
)
    requires
        call_ensures(join_path, (dir, name), r),
    ensures
        dir@.len() == 0 || dir@.last() == 47 ==> r@ == dir@ + encode_utf8(name@),
        dir@.len() > 0 && dir@.last() != 47 ==> r@ == dir@ + seq![47u8] + encode_utf8(name@),
        r@.take(dir@.len() as int) == dir@,
{
    assert(dir@.push(47u8) =~= dir@ + seq![47u8]);
    assert(r@.take(dir@.len() as int) =~= dir@);
}

/// The files of the client are in its directory below the home directory, or below the
/// current one where there is no home.
pub proof fn the_files_of_the_client_are_below_its_directory(
    home: Option<Vec<u8>>,
    dir: Vec<u8>,
    socket: String,
    below: Vec<u8>,
)
    requires
        call_ensures(data_dir_in, (home,), dir),
        call_ensures(socket_path_in, (&dir,), socket),
        call_ensures(join_path, (&dir, "clawchat.sock"), below),
    ensures
        home is None ==> dir@ == encode_utf8(".clawchat"@),
        home matches Some(h) ==> dir@ == (if h@.len() == 0 || h@.last() == 47 {
            h@ + encode_utf8(".clawchat"@)
        } else {
            h@ + seq![47u8] + encode_utf8(".clawchat"@)
        }),
        valid_utf8(below@) ==> socket@ == decode_utf8(below@),
{
    if let Some(h) = home {
        assert(h@.push(47u8) =~= h@ + seq![47u8]);
    }
}

/// The socket and the key are in the directory of the client.
pub proof fn socket_and_key_are_in_one_directory(
    socket: String,
    key: Vec<u8>,
    dir: Vec<u8>,
)
    requires
        call_ensures(default_socket_path, (), socket),
        call_ensures(default_key_path, (), key),
        call_ensures(default_data_dir, (), dir),
    ensures
        exists|home: Option<Seq<u8>>| #[trigger]
            data_dir(home) == dir@ && (home is None ==> dir@ == encode_utf8(".clawchat"@)),
        exists|home: Option<Seq<u8>>|
            key@ == (#[trigger] data_dir(home)) + seq![47u8] + encode_utf8("auth.key"@) ||
                key@ == data_dir(
                home,
            ) + encode_utf8("auth.key"@),
        exists|home: Option<Seq<u8>>|
            reads_path(joined(#[trigger] data_dir(home), "clawchat.sock"@), socket@),
{
    let home = choose|home: Option<Seq<u8>>| key@ == joined(#[trigger] data_dir(home), "auth.key"@);
    assert(data_dir(home).push(47u8) =~= data_dir(home) + seq![47u8]);
}

/// A key that is given is used as it is, before the one of the file, which is used without
/// the whitespace around it; without either there is none.
pub proof fn a_given_key_comes_first(
    key_arg: Option<&str>,
    key_file: Option<&str>,
    r: Result<String, String>,
)
    requires
        call_ensures(load_key, (key_arg, key_file), r),
    ensures
        key_arg matches Some(key) ==> (r matches Ok(k) && k@ == key@),
        key_arg is None ==> (key_file matches Some(text) ==> (r matches Ok(k) && k@ == trimmed(
            text@,
        ))),
        r is Err <==> key_arg is None && key_file is None,
        r matches Err(e) ==> e@
            == "No API key provided. Use --key or ensure ~/.clawchat/auth.key exists."@,
{
}

/// A secret that is given comes before the one of the environment; an empty one is none, and
/// an empty one that is given hides the other.
pub proof fn a_given_secret_comes_first(
    given: Option<&str>,
    environment: Option<&str>,
    r: Option<String>,
)
    requires
        call_ensures(resolve_room_secret, (given, environment), r),
    ensures
        given matches Some(s) ==> (s@.len() > 0 ==> r.deep_view() == Some(s@)),
        given matches Some(s) ==> (s@.len() == 0 ==> r is None),
        given is None
            ==> (environment matches Some(s) ==> (s@.len() > 0 ==> r.deep_view() == Some(s@))),
        given is None ==> (environment matches Some(s) ==> (s@.len() == 0 ==> r is None)),
        given is None && environment is None ==> r is None,
{
}

/// A URL comes before an address, and an address before the socket.
pub proof fn a_url_comes_before_an_address(
    url: Option<&str>,
    tcp: Option<&str>,
    socket: Vec<u8>,
    r: Route,
)
    requires
        call_ensures(choose_route, (url, tcp, socket), r),
    ensures
        url matches Some(u) ==> (r matches Route::WebSocket(a) && a@ == u@),
        url is None ==> (tcp matches Some(t) ==> (r matches Route::Tcp(a) && a@ == t@)),
        url is None && tcp is None ==> (r matches Route::Unix(a) && a@ == socket@),
{
}

} // verus!
