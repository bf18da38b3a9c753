//! CONNECT-time helpers: authentication against the user table, client
//! identifier resolution, and the negotiated session and connection values.

use vstd::prelude::*;

use crate::kvlist::lookup;
use crate::metadata_cache::MetadataCache;
use crate::packet::{Connect, ConnectProperties, Login};
use crate::store::sv;
use crate::types::{ClusterInfo, ConnectionInfo, MqttProtocol};

verus! {

/// Whether a CONNECT's credentials pass: an anonymous login passes only on
/// an open cluster; named credentials must match the registered user.
pub open spec fn auth_ok(cache: MetadataCache, login: Option<Login>) -> bool {
    match login {
        None => !cache.cluster_info.secure,
        Some(l) => match lookup(sv(cache.users@), l.username@) {
            Some(u) => u.password@ == l.password@,
            None => false,
        },
    }
}

/// Runs the CONNECT authentication against the cached user table.
pub fn authentication_login(cache: &MetadataCache, login: &Option<Login>) -> (r: bool)
    ensures
        r == auth_ok(*cache, *login),
{
    match login {
        None => !cache.cluster_info.secure,
        Some(l) => match cache.get_user(&l.username) {
            Some(u) => u.password == l.password,
            None => false,
        },
    }
}

/// The identifier the broker assigns when a CONNECT leaves it empty.
pub open spec fn auto_client_id(counter: u64) -> Seq<char> {
    "mqttbroker_auto_"@ + crate::decimal::spec_decimal(counter as nat)
}

/// The client identifier a CONNECT resolves to.
pub open spec fn resolved_client_id(given: Seq<char>, counter: u64) -> Seq<char> {
    if given.len() > 0 {
        given
    } else {
        auto_client_id(counter)
    }
}

/// A usable client identifier holds no null character and is non-empty.
pub open spec fn valid_client_id(s: Seq<char>) -> bool {
    s.len() > 0 && forall|i: int| 0 <= i < s.len() ==> #[trigger] s[i] != '\u{0}'
}

/// Resolves the client identifier: a non-empty one is kept, an empty one is
/// replaced by a broker-assigned identifier built from the counter.  The
/// second result says whether the identifier was assigned.
pub fn get_client_id(client_id: String, counter: u64) -> (r: (String, bool))
    ensures
        r.0@ == resolved_client_id(client_id@, counter),
        r.1 == (client_id@.len() == 0),
{
    if client_id.as_str().unicode_len() > 0 {
        (client_id, false)
    } else {
        let base = String::from_str("mqttbroker_auto_");
        let digits = crate::decimal::u64_to_string(counter);
        let assigned = base.concat(digits.as_str());
        (assigned, true)
    }
}

/// Checks a resolved client identifier.
pub fn client_id_validator(client_id: &String) -> (r: bool)
    ensures
        r == valid_client_id(client_id@),
{
    let s = client_id.as_str();
    let n = s.unicode_len();
    if n == 0 {
        return false;
    }
    let mut i: usize = 0;
    while i < n
        invariant
            n == s@.len(),
            s@ == client_id@,
            i <= n,
            forall|j: int| 0 <= j < i ==> #[trigger] s@[j] != '\u{0}',
        decreases n - i,
    {
        if s.get_char(i) == '\u{0}' {
            return false;
        }
        i = i + 1;
    }
    true
}

/// The session expiry a CONNECT negotiates: the requested interval, or the
/// cluster default when none is requested.
pub open spec fn negotiated_expiry(
    properties: Option<ConnectProperties>,
    cluster: ClusterInfo,
) -> u32 {
    match properties {
        Some(p) => match p.session_expiry_interval {
            Some(e) => e,
            None => cluster.default_session_expiry,
        },
        None => cluster.default_session_expiry,
    }
}

/// The packet-size limit a connection negotiates: the smaller of the
/// cluster's and the client's.
pub open spec fn negotiated_packet_size(
    properties: Option<ConnectProperties>,
    cluster: ClusterInfo,
) -> u32 {
    match properties {
        Some(p) => match p.max_packet_size {
            Some(m) => if m < cluster.max_packet_size {
                m
            } else {
                cluster.max_packet_size
            },
            None => cluster.max_packet_size,
        },
        None => cluster.max_packet_size,
    }
}

/// Computes the negotiated session expiry.
pub fn build_session_expiry(properties: &Option<ConnectProperties>, cluster: &ClusterInfo) -> (r:
    u32)
    ensures
        r == negotiated_expiry(*properties, *cluster),
{
    match properties {
        Some(p) => match p.session_expiry_interval {
            Some(e) => e,
            None => cluster.default_session_expiry,
        },
        None => cluster.default_session_expiry,
    }
}

/// Builds the connection record a successful CONNECT binds.
pub fn create_connection(
    connect_id: u64,
    client_id: &String,
    cluster: &ClusterInfo,
    connect: &Connect,
    properties: &Option<ConnectProperties>,
) -> (r: ConnectionInfo)
    ensures
        r.connect_id == connect_id,
        r.client_id@ == client_id@,
        r.keep_alive == connect.keep_alive,
        r.max_packet_size == negotiated_packet_size(*properties, *cluster),
        r.protocol == MqttProtocol::Mqtt5,
{
    let max_packet_size = match properties {
        Some(p) => match p.max_packet_size {
            Some(m) => if m < cluster.max_packet_size {
                m
            } else {
                cluster.max_packet_size
            },
            None => cluster.max_packet_size,
        },
        None => cluster.max_packet_size,
    };
    ConnectionInfo {
        connect_id,
        client_id: client_id.clone(),
        keep_alive: connect.keep_alive,
        max_packet_size,
        protocol: MqttProtocol::Mqtt5,
    }
}

} // verus!
