use vstd::prelude::*;
use vstd::string::*;

use url::Url;

use crate::library::TrackId;
use crate::paths::{file_name_of, path_file_name};
use crate::text::{append_decimal, decimal_text};

verus! {

/// Port of the server that hands out cached cover art.
pub const COVER_PORT: &'static str = "7878";

/// Port of the daemon's websocket server.
pub const DAEMON_PORT: &'static str = "7878";

/// The text `ip:port` of a socket address.
pub open spec fn address_with_port(ip: Seq<char>, port: Seq<char>) -> Seq<char> {
    ip + ":"@ + port
}

/// Whether `addr` is some host followed by `:port`.
pub open spec fn ends_with_port(addr: Seq<char>, port: Seq<char>) -> bool {
    exists|ip: Seq<char>| addr == #[trigger] address_with_port(ip, port)
}

#[verifier::external_type_specification]
#[verifier::external_body]
pub struct ExLocalIpError(local_ip_address::Error);

/// Calls `local_ip_address::local_ip` and writes the address it finds as
/// text. Which address comes back, or whether one does, depends on the
/// machine's network interfaces: nothing is claimed of it.
#[verifier::external_body]
fn local_ip_text() -> Result<String, local_ip_address::Error> {
    match local_ip_address::local_ip() {
        Ok(ip) => Ok(ip.to_string()),
        Err(e) => Err(e),
    }
}

/// The machine's local address could not be found.
#[derive(Debug, Clone, Copy, PartialEq, Eq)]
pub enum AddressError {
    LocalIpUnavailable,
}

/// The machine's local IP address, as text.
pub fn local_ip_addr() -> (r: Result<String, AddressError>)
    ensures
        r matches Err(e) ==> e == AddressError::LocalIpUnavailable,
{
    match local_ip_text() {
        Ok(ip) => Ok(ip),
        Err(_) => Err(AddressError::LocalIpUnavailable),
    }
}

/// The socket address `ip:port`.
pub fn with_port(ip: &str, port: &str) -> (r: String)
    ensures
        r@ == address_with_port(ip@, port@),
{
    let mut s = String::from_str(ip);
    s.append(":");
    s.append(port);
    proof {
        reveal_strlit(":");
    }
    s
}

/// The address clients fetch cover art from: the local IP with the cover port.
pub fn cover_addr() -> (r: Result<String, AddressError>)
    ensures
        r matches Ok(s) ==> ends_with_port(s@, COVER_PORT@),
{
    let ip = local_ip_addr()?;
    let s = with_port(ip.as_str(), COVER_PORT);
    assert(s@ == address_with_port(ip@, COVER_PORT@));
    Ok(s)
}

/// The address the daemon listens on when asked to listen on every
/// interface: the unspecified address with the daemon port.
pub fn daemon_addr_listen() -> (r: String)
    ensures
        r@ == address_with_port("0.0.0.0"@, DAEMON_PORT@),
{
    with_port("0.0.0.0", DAEMON_PORT)
}

/// The address the daemon listens on: the local IP with the daemon port.
pub fn daemon_addr() -> (r: Result<String, AddressError>)
    ensures
        r matches Ok(s) ==> ends_with_port(s@, DAEMON_PORT@),
{
    let ip = local_ip_addr()?;
    let s = with_port(ip.as_str(), DAEMON_PORT);
    assert(s@ == address_with_port(ip@, DAEMON_PORT@));
    Ok(s)
}

// ---------------------------------------------------------------------------
// MPRIS

/// The name the player's MPRIS service is known by.
pub const BUS_NAME: &'static str = "AmiMusic";

/// The bus name the MPRIS service is registered under: the MPRIS prefix
/// followed by `name`.
pub open spec fn bus_name_text(name: Seq<char>) -> Seq<char> {
    "org.mpris.MediaPlayer2."@ + name
}

/// The bus name the player registers its MPRIS service under.
pub fn mpris_bus_name() -> (r: String)
    ensures
        r@ == bus_name_text(BUS_NAME@),
{
    let mut s = String::from_str("org.mpris.MediaPlayer2.");
    s.append(BUS_NAME);
    s
}

/// The D-Bus object path that names the track with id `id` to MPRIS clients.
pub open spec fn track_object_path_text(bus: Seq<char>, id: u64) -> Seq<char> {
    "/org/mpris/MediaPlayer2/"@ + bus + "/track/"@ + decimal_text(id as nat)
}

/// The object path MPRIS clients know the track with id `id` by.
pub fn track_object_path(id: TrackId) -> (r: String)
    ensures
        r@ == track_object_path_text(BUS_NAME@, id@),
{
    let mut s = String::from_str("/org/mpris/MediaPlayer2/");
    s.append(BUS_NAME);
    s.append("/track/");
    append_decimal(&mut s, id.as_u64());
    s
}

/// The address under which the cover server hands out the file `name`.
pub open spec fn cover_url_text(host: Seq<char>, name: Seq<char>) -> Seq<char> {
    "http://"@ + host + "/"@ + name
}

#[verifier::external_type_specification]
#[verifier::external_body]
pub struct ExUrl(Url);

/// Whether `url::Url::parse` reads `text` as an absolute URL.
pub uninterp spec fn parses_as_url(text: Seq<char>) -> bool;

/// A URL together with the text it was parsed from.
#[derive(Debug, PartialEq, Eq)]
pub struct ParsedUrl {
    text: String,
    url: Url,
}

impl View for ParsedUrl {
    /// The text the URL was parsed from.
    type V = Seq<char>;

    closed spec fn view(&self) -> Seq<char> {
        self.text@
    }
}

impl ParsedUrl {
    /// The text the URL was parsed from.
    pub fn as_str(&self) -> (r: &str)
        ensures
            r@ == self@,
    {
        self.text.as_str()
    }

    /// The parsed URL.
    pub fn url(&self) -> &Url {
        &self.url
    }

    /// The parsed URL, taken out.
    pub fn into_url(self) -> Url {
        self.url
    }
}

/// Calls `url::Url::parse` on `text` and keeps the text beside the URL. The
/// contract claims that it succeeds exactly when `parses_as_url` holds of
/// the text, and that what comes back is parsed from that text.
#[verifier::external_body]
pub(crate) fn parse_url(text: String) -> (r: Option<ParsedUrl>)
    ensures
        r is Some <==> parses_as_url(text@),
        r matches Some(u) ==> u@ == text@,
{
    match Url::parse(&text) {
        Ok(url) => Some(ParsedUrl { text, url }),
        Err(_) => None,
    }
}

/// The address clients fetch the cover art at `cover_path` from, on the
/// cover server at `host`: the cover's file name under the server's root.
/// `None` when the path names no file, or when that address does not read
/// as a URL.
pub fn cover_art_url(host: &str, cover_path: &str) -> (r: Option<ParsedUrl>)
    ensures
        match path_file_name(cover_path@) {
            Some(name) => {
                &&& r is Some <==> parses_as_url(cover_url_text(host@, name))
                &&& r matches Some(u) ==> u@ == cover_url_text(host@, name)
            },
            None => r is None,
        },
{
    match file_name_of(cover_path) {
        Some(name) => {
            let mut s = String::from_str("http://");
            s.append(host);
            s.append("/");
            s.append(name.as_str());
            parse_url(s)
        },
        None => None,
    }
}

} // verus!
