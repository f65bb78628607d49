//! Saved MySQL connections: building one from a request, summarising it for
//! the client, and the settings its pool is opened with.

use vstd::prelude::*;
use crate::error::{ApiError, ErrorStatus};
use crate::order::Labelled;
use crate::text::{decimal, push_char, push_decimal, push_str, spec_trim, trim};

verus! {

/// The MySQL port used when a connection request names none.
pub fn default_mysql_port() -> (port: u16)
    ensures
        port == 3306,
{
    3306
}

/// The pool size used when a connection request names none.
pub fn default_max_connections() -> (n: u32)
    ensures
        n == 5,
{
    5
}

/// The least and greatest pool size a connection is opened with.
pub const MIN_POOL_SIZE: u32 = 1;
pub const MAX_POOL_SIZE: u32 = 20;

/// `x` brought into `[lo, hi]`, as `Ord::clamp` does.
pub open spec fn clamp(x: int, lo: int, hi: int) -> int {
    if x < lo {
        lo
    } else if x > hi {
        hi
    } else {
        x
    }
}

/// A clamped value lies within its bounds; so a saved connection's pool size
/// is always between `MIN_POOL_SIZE` and `MAX_POOL_SIZE`, and a query sends
/// back between 1 and 5000 rows at most.
pub proof fn lemma_clamp_within(x: int, lo: int, hi: int)
    requires
        lo <= hi,
    ensures
        lo <= clamp(x, lo, hi) <= hi,
        lo <= x <= hi ==> clamp(x, lo, hi) == x,
{
}

/// A pool size brought into `[MIN_POOL_SIZE, MAX_POOL_SIZE]`.
pub fn clamp_pool_size(n: u32) -> (r: u32)
    ensures
        r == clamp(n as int, MIN_POOL_SIZE as int, MAX_POOL_SIZE as int),
{
    if n < MIN_POOL_SIZE {
        MIN_POOL_SIZE
    } else if n > MAX_POOL_SIZE {
        MAX_POOL_SIZE
    } else {
        n
    }
}

/// What a client sends to save a connection; absent fields already hold
/// their defaults.
pub struct ConnectRequest {
    pub host: String,
    pub port: u16,
    pub username: String,
    pub password: String,
    pub database: Option<String>,
    pub label: Option<String>,
    pub max_connections: u32,
}

/// A connection as it is kept and written to the configuration file.
pub struct SavedConnection {
    pub connection_id: u128,
    pub label: String,
    pub host: String,
    pub port: u16,
    pub username: String,
    pub password: String,
    pub database: Option<String>,
    pub max_connections: u32,
    pub last_server_version: Option<String>,
}

/// A connection as the client sees it: everything but the password.
pub struct ConnectionSummary {
    pub connection_id: u128,
    pub label: String,
    pub host: String,
    pub port: u16,
    pub username: String,
    pub database: Option<String>,
    pub server_version: Option<String>,
    pub connected: bool,
}

/// The characters of an optional string.
pub open spec fn opt_view(o: Option<String>) -> Option<Seq<char>> {
    match o {
        Some(s) => Some(s@),
        None => None,
    }
}

/// An optional text, trimmed, and absent when it is absent or blank.
pub open spec fn trimmed_nonblank(o: Option<String>) -> Option<Seq<char>> {
    match o {
        Some(s) => if spec_trim(s@).len() > 0 {
            Some(spec_trim(s@))
        } else {
            None
        },
        None => None,
    }
}

/// The label given to a connection saved without one: `user@host:port`.
pub open spec fn default_label(username: Seq<char>, host: Seq<char>, port: u16) -> Seq<char> {
    username + seq!['@'] + host + seq![':'] + decimal(port as nat)
}

/// The label a request leads to: its own, trimmed, unless absent or blank.
pub open spec fn request_label(request: ConnectRequest) -> Seq<char> {
    match trimmed_nonblank(request.label) {
        Some(l) => l,
        None => default_label(spec_trim(request.username@), spec_trim(request.host@), request.port),
    }
}

/// The outcome of saving `request` under `connection_id`.
pub open spec fn saved_connection_spec(
    request: ConnectRequest,
    connection_id: u128,
    r: Result<SavedConnection, ApiError>,
) -> bool {
    if spec_trim(request.host@).len() == 0 {
        r matches Err(e) && e.status == ErrorStatus::BadRequest && e.message@
            == "host is required"@
    } else if spec_trim(request.username@).len() == 0 {
        r matches Err(e) && e.status == ErrorStatus::BadRequest && e.message@
            == "username is required"@
    } else {
        r matches Ok(saved) && {
            &&& saved.connection_id == connection_id
            &&& saved.label@ == request_label(request)
            &&& saved.host@ == spec_trim(request.host@)
            &&& saved.port == request.port
            &&& saved.username@ == spec_trim(request.username@)
            &&& saved.password == request.password
            &&& opt_view(saved.database) == trimmed_nonblank(request.database)
            &&& saved.max_connections == clamp(
                request.max_connections as int,
                MIN_POOL_SIZE as int,
                MAX_POOL_SIZE as int,
            )
            &&& saved.last_server_version is None
        }
    }
}

/// `o` trimmed, and `None` when it is absent or blank.
pub fn trim_nonblank(o: &Option<String>) -> (r: Option<String>)
    ensures
        opt_view(r) == trimmed_nonblank(*o),
{
    match o {
        Some(s) => {
            let t = trim(s.as_str());
            if !t.as_str().is_empty() {
                Some(t)
            } else {
                None
            }
        },
        None => None,
    }
}

/// Builds the connection that `request` asks to save, under `connection_id`.
/// Host and username are trimmed and must not be blank; a blank label is
/// replaced by `user@host:port`; the pool size is brought into `[1, 20]`.
pub fn saved_connection_with_id(request: ConnectRequest, connection_id: u128) -> (r: Result<
    SavedConnection,
    ApiError,
>)
    ensures
        saved_connection_spec(request, connection_id, r),
{
    let host = trim(request.host.as_str());
    let username = trim(request.username.as_str());
    let database = trim_nonblank(&request.database);
    if host.as_str().is_empty() {
        return Err(ApiError::bad_request("host is required".to_owned()));
    }
    if username.as_str().is_empty() {
        return Err(ApiError::bad_request("username is required".to_owned()));
    }
    let label = match trim_nonblank(&request.label) {
        Some(l) => l,
        None => {
            let mut l = String::new();
            push_str(&mut l, username.as_str());
            push_char(&mut l, '@');
            push_str(&mut l, host.as_str());
            push_char(&mut l, ':');
            push_decimal(&mut l, request.port as u64);
            assert(l@ =~= default_label(username@, host@, request.port));
            l
        },
    };
    let ghost req = request;
    let saved = SavedConnection {
        connection_id,
        label,
        host,
        port: request.port,
        username,
        password: request.password,
        database,
        max_connections: clamp_pool_size(request.max_connections),
        last_server_version: None,
    };
    proof {
        assert(saved.password == req.password);
        assert(saved.label@ == request_label(req));
        assert(opt_view(saved.database) == trimmed_nonblank(req.database));
    }
    Ok(saved)
}

/// Sixteen bytes from the operating system's random source, or nothing when
/// the source fails.
///
/// Calls `getrandom::fill`. The bytes are chance, so nothing is stated of
/// them; `fill` reports a failing source as an error, which comes back here
/// as `None`.
#[verifier::external_body]
fn random_bytes() -> (r: Option<[u8; 16]>) {
    let mut bytes = [0u8; 16];
    getrandom::fill(&mut bytes).ok().map(|_| bytes)
}

/// The big-endian value of sixteen bytes, with byte 6 and byte 8 marked as a
/// random (version 4) RFC 4122 UUID: the high nibble of byte 6 set to 4, the
/// two high bits of byte 8 set to `10`.
pub open spec fn v4_uuid_value(b: Seq<u8>) -> u128 {
    ((b[0] as u128) << 120u128) | ((b[1] as u128) << 112u128) | ((b[2] as u128) << 104u128)
        | ((b[3] as u128) << 96u128) | ((b[4] as u128) << 88u128) | ((b[5] as u128) << 80u128)
        | ((((b[6] & 0x0fu8) | 0x40u8) as u128) << 72u128) | ((b[7] as u128) << 64u128)
        | ((((b[8] & 0x3fu8) | 0x80u8) as u128) << 56u128) | ((b[9] as u128) << 48u128)
        | ((b[10] as u128) << 40u128) | ((b[11] as u128) << 32u128) | ((b[12] as u128) << 24u128)
        | ((b[13] as u128) << 16u128) | ((b[14] as u128) << 8u128) | (b[15] as u128)
}

/// The UUID that `uuid::Builder::from_random_bytes` makes of `bytes`, as the
/// integer `Uuid::as_u128` reads (big-endian).
///
/// `from_random_bytes` keeps the bytes but sets the version (byte 6) and the
/// variant (byte 8), as `v4_uuid_value` states.
#[verifier::external_body]
fn uuid_from_random_bytes(bytes: [u8; 16]) -> (id: u128)
    ensures
        id == v4_uuid_value(bytes@),
{
    uuid::Builder::from_random_bytes(bytes).into_uuid().as_u128()
}

/// `id` is a random (version 4) RFC 4122 UUID: its version nibble (bits
/// 76..80) is 4 and its variant bits (62..64) are `10`.
pub open spec fn is_v4_id(id: u128) -> bool {
    &&& (id >> 76u128) & 0xfu128 == 4
    &&& (id >> 62u128) & 0x3u128 == 2
}

proof fn lemma_v4_uuid_value_is_v4(b: Seq<u8>)
    requires
        b.len() == 16,
    ensures
        is_v4_id(v4_uuid_value(b)),
{
    let (b0, b1, b2, b3, b4, b5, b6, b7) = (b[0], b[1], b[2], b[3], b[4], b[5], b[6], b[7]);
    let (b8, b9, b10, b11, b12, b13, b14, b15) = (
        b[8],
        b[9],
        b[10],
        b[11],
        b[12],
        b[13],
        b[14],
        b[15],
    );
    let id = v4_uuid_value(b);
    assert(id == ((b0 as u128) << 120u128) | ((b1 as u128) << 112u128) | ((b2 as u128) << 104u128)
        | ((b3 as u128) << 96u128) | ((b4 as u128) << 88u128) | ((b5 as u128) << 80u128)
        | ((((b6 & 0x0fu8) | 0x40u8) as u128) << 72u128) | ((b7 as u128) << 64u128)
        | ((((b8 & 0x3fu8) | 0x80u8) as u128) << 56u128) | ((b9 as u128) << 48u128)
        | ((b10 as u128) << 40u128) | ((b11 as u128) << 32u128) | ((b12 as u128) << 24u128)
        | ((b13 as u128) << 16u128) | ((b14 as u128) << 8u128) | (b15 as u128));
    assert((id >> 76u128) & 0xfu128 == 4 && (id >> 62u128) & 0x3u128 == 2) by (bit_vector)
        requires
            id == ((b0 as u128) << 120u128) | ((b1 as u128) << 112u128) | ((b2 as u128)
                << 104u128) | ((b3 as u128) << 96u128) | ((b4 as u128) << 88u128) | ((b5 as u128)
                << 80u128) | ((((b6 & 0x0fu8) | 0x40u8) as u128) << 72u128) | ((b7 as u128)
                << 64u128) | ((((b8 & 0x3fu8) | 0x80u8) as u128) << 56u128) | ((b9 as u128)
                << 48u128) | ((b10 as u128) << 40u128) | ((b11 as u128) << 32u128) | ((b12 as u128)
                << 24u128) | ((b13 as u128) << 16u128) | ((b14 as u128) << 8u128) | (b15 as u128),
    ;
}

/// A fresh random (version 4) connection id, or nothing when the operating
/// system's random source fails.
pub fn new_connection_id() -> (r: Option<u128>)
    ensures
        r matches Some(id) ==> is_v4_id(id),
{
    match random_bytes() {
        Some(bytes) => {
            let id = uuid_from_random_bytes(bytes);
            proof {
                lemma_v4_uuid_value_is_v4(bytes@);
            }
            Some(id)
        },
        None => None,
    }
}

/// The request names a host and a username (once trimmed).
pub open spec fn request_is_valid(request: ConnectRequest) -> bool {
    spec_trim(request.host@).len() > 0 && spec_trim(request.username@).len() > 0
}

/// The outcome of saving `request` with `drawn` the id drawn for it (`None`
/// when the random source failed): an invalid request is refused as
/// `saved_connection_with_id` refuses it; a valid one is saved under the
/// drawn id, and refused as an internal error only when none was drawn.
pub open spec fn saved_connection_from_draw_spec(
    request: ConnectRequest,
    drawn: Option<u128>,
    r: Result<SavedConnection, ApiError>,
) -> bool {
    if !request_is_valid(request) {
        saved_connection_spec(request, 0, r)
    } else {
        match drawn {
            Some(id) => saved_connection_spec(request, id, r),
            None => r matches Err(e) && e.status == ErrorStatus::Internal && e.message@
                == "could not draw a random connection id"@,
        }
    }
}

/// Builds the connection that `request` asks to save, with `drawn` the id
/// drawn for it, or `None` when the random source failed.
pub fn saved_connection_from_draw(request: ConnectRequest, drawn: Option<u128>) -> (r: Result<
    SavedConnection,
    ApiError,
>)
    ensures
        saved_connection_from_draw_spec(request, drawn, r),
{
    match drawn {
        Some(id) => {
            let ghost req = request;
            let r = saved_connection_with_id(request, id);
            assert(saved_connection_spec(req, id, r));
            r
        },
        None => {
            let r = saved_connection_with_id(request, 0);
            match r {
                Err(e) => Err(e),
                Ok(_) => Err(
                    ApiError::internal("could not draw a random connection id".to_owned()),
                ),
            }
        },
    }
}

/// Builds the connection that `request` asks to save, under a fresh random
/// (version 4) id. An invalid request is refused as `saved_connection_with_id`
/// refuses it; a valid one is saved, unless no random id can be drawn, which
/// is an internal error.
pub fn saved_connection_from_request(request: ConnectRequest) -> (r: Result<
    SavedConnection,
    ApiError,
>)
    ensures
        !request_is_valid(request) ==> saved_connection_spec(request, 0, r),
        request_is_valid(request) ==> match r {
            Ok(saved) => saved_connection_spec(request, saved.connection_id, r) && is_v4_id(
                saved.connection_id,
            ),
            Err(e) => e.status == ErrorStatus::Internal && e.message@
                == "could not draw a random connection id"@,
        },
        exists|drawn: Option<u128>|
            (drawn matches Some(id) ==> is_v4_id(id)) && #[trigger] saved_connection_from_draw_spec(
                request,
                drawn,
                r,
            ),
{
    let drawn = new_connection_id();
    let ghost req = request;
    let r = saved_connection_from_draw(request, drawn);
    assert(saved_connection_from_draw_spec(req, drawn, r));
    r
}

/// A valid request (host and username not blank once trimmed) is saved, under
/// the id given, whatever database, label, port or pool size it names: with
/// its host and username trimmed, its port and password as given, no server
/// version yet, and a pool size within `[1, 20]`.
pub proof fn lemma_valid_request_is_saved(
    request: ConnectRequest,
    id: u128,
    r: Result<SavedConnection, ApiError>,
)
    requires
        saved_connection_spec(request, id, r),
        spec_trim(request.host@).len() > 0,
        spec_trim(request.username@).len() > 0,
    ensures
        r matches Ok(s) && {
            &&& s.connection_id == id
            &&& s.host@ == spec_trim(request.host@)
            &&& s.username@ == spec_trim(request.username@)
            &&& s.port == request.port
            &&& s.password == request.password
            &&& s.last_server_version is None
            &&& 1 <= s.max_connections <= 20
            &&& (1 <= request.max_connections <= 20 ==> s.max_connections == request.max_connections)
            &&& (request.database is None ==> s.database is None)
        },
{
}

/// Saving with a drawn id never fails for a valid request: the internal error
/// comes only when no id was drawn, and then the request was valid.
pub proof fn lemma_refused_only_without_id(
    request: ConnectRequest,
    drawn: Option<u128>,
    r: Result<SavedConnection, ApiError>,
)
    requires
        saved_connection_from_draw_spec(request, drawn, r),
    ensures
        spec_trim(request.host@).len() > 0 && spec_trim(request.username@).len() > 0 && drawn
            is Some ==> (r matches Ok(s) && s.connection_id == drawn->0),
        r matches Err(e) ==> (e.status == ErrorStatus::Internal <==> drawn is None && spec_trim(
            request.host@,
        ).len() > 0 && spec_trim(request.username@).len() > 0),
        r matches Err(e) ==> (e.status != ErrorStatus::Internal ==> e.status
            == ErrorStatus::BadRequest && (spec_trim(request.host@).len() == 0 || spec_trim(
            request.username@,
        ).len() == 0)),
{
}

/// A copy of an optional string.
pub fn copy_opt_string(o: &Option<String>) -> (r: Option<String>)
    ensures
        r == *o,
{
    match o {
        Some(s) => Some(s.clone()),
        None => None,
    }
}

/// The client's view of `c`: every field but the password, with the last
/// server version it reported.
pub open spec fn spec_summary(c: SavedConnection, connected: bool) -> ConnectionSummary {
    ConnectionSummary {
        connection_id: c.connection_id,
        label: c.label,
        host: c.host,
        port: c.port,
        username: c.username,
        database: c.database,
        server_version: c.last_server_version,
        connected,
    }
}

/// The client's view of `saved`: every field but the password, the last
/// server version it reported, and whether a pool is open for it.
pub fn summary_from_saved(saved: &SavedConnection, connected: bool) -> (s: ConnectionSummary)
    ensures
        s == spec_summary(*saved, connected),
{
    ConnectionSummary {
        connection_id: saved.connection_id,
        label: saved.label.clone(),
        host: saved.host.clone(),
        port: saved.port,
        username: saved.username.clone(),
        database: copy_opt_string(&saved.database),
        server_version: copy_opt_string(&saved.last_server_version),
        connected,
    }
}

/// What a pool for a saved connection is opened with.
pub struct PoolSettings {
    pub host: String,
    pub port: u16,
    pub username: String,
    pub password: String,
    pub database: Option<String>,
    pub max_connections: u32,
}

/// `p` is what a pool for `c` is opened with: its address and credentials,
/// its default database when one is named (trimmed), and its pool size
/// brought into `[1, 20]`.
pub open spec fn spec_pool_settings(c: SavedConnection, p: PoolSettings) -> bool {
    &&& p.host == c.host
    &&& p.port == c.port
    &&& p.username == c.username
    &&& p.password == c.password
    &&& opt_view(p.database) == trimmed_nonblank(c.database)
    &&& p.max_connections == clamp(
        c.max_connections as int,
        MIN_POOL_SIZE as int,
        MAX_POOL_SIZE as int,
    )
}

/// A pool is opened with the saved connection's own address and credentials
/// (its port whatever it is), its default database trimmed and only when one
/// is named, and its pool size itself when within `[1, 20]`, else the nearer
/// bound.
pub proof fn lemma_pool_settings_carry_connection(c: SavedConnection, p: PoolSettings)
    requires
        spec_pool_settings(c, p),
    ensures
        p.host == c.host,
        p.port == c.port,
        p.username == c.username,
        p.password == c.password,
        c.database is None ==> p.database is None,
        p.database matches Some(d) ==> c.database matches Some(e) && d@ == spec_trim(e@) && d@.len()
            > 0,
        c.database matches Some(e) && spec_trim(e@).len() > 0 ==> p.database is Some,
        1 <= p.max_connections <= 20,
        1 <= c.max_connections <= 20 ==> p.max_connections == c.max_connections,
        c.max_connections == 0 ==> p.max_connections == 1,
        c.max_connections > 20 ==> p.max_connections == 20,
{
}

/// The settings a pool for `saved` is opened with: its address and
/// credentials, its default database when one is named (trimmed), and its
/// pool size brought into `[1, 20]`.
pub fn pool_settings(saved: &SavedConnection) -> (p: PoolSettings)
    ensures
        spec_pool_settings(*saved, p),
{
    PoolSettings {
        host: saved.host.clone(),
        port: saved.port,
        username: saved.username.clone(),
        password: saved.password.clone(),
        database: trim_nonblank(&saved.database),
        max_connections: clamp_pool_size(saved.max_connections),
    }
}

impl SavedConnection {
    /// A copy of this connection.
    pub fn duplicate(&self) -> (r: SavedConnection)
        ensures
            r == *self,
    {
        SavedConnection {
            connection_id: self.connection_id,
            label: self.label.clone(),
            host: self.host.clone(),
            port: self.port,
            username: self.username.clone(),
            password: self.password.clone(),
            database: copy_opt_string(&self.database),
            max_connections: self.max_connections,
            last_server_version: copy_opt_string(&self.last_server_version),
        }
    }
}

impl Labelled for SavedConnection {
    open spec fn spec_label(&self) -> Seq<char> {
        self.label@
    }

    fn label_text(&self) -> (l: &str) {
        self.label.as_str()
    }
}

impl Labelled for ConnectionSummary {
    open spec fn spec_label(&self) -> Seq<char> {
        self.label@
    }

    fn label_text(&self) -> (l: &str) {
        self.label.as_str()
    }
}

} // verus!
