//! The decisions behind the HTTP routes: which announcements are accepted,
//! how the forwarding headers of the proxy in front of the master server
//! amend them, and what the read routes report.

use vstd::prelude::*;

use crate::ipv4::{ipv4_octets, parse_ipv4};
use crate::servers::structs::{Server, ServerView};
use crate::listing::{key_matches, lemma_total_players_prefix, total_players};
use crate::text::{byte_len, byte_length, str_eq};

verus! {

/// The answer to an announcement that is refused.
pub enum Rejection {
    /// The proxy header with the client's address is missing.
    MissingHeader,
    /// A field is longer than allowed; the message names it.
    TooLong(&'static str),
}

impl Rejection {
    /// The HTTP status of the answer.
    pub fn status(&self) -> (r: u16)
        ensures
            r == match self {
                Rejection::MissingHeader => 500u16,
                Rejection::TooLong(_) => 400u16,
            },
    {
        match self {
            Rejection::MissingHeader => 500,
            Rejection::TooLong(_) => 400,
        }
    }

    /// The body of the answer.
    pub fn body(&self) -> (r: &'static str)
        ensures
            match self {
                Rejection::MissingHeader => r@ == "Missing header!"@,
                Rejection::TooLong(m) => r@ == m@,
            },
    {
        match self {
            Rejection::MissingHeader => "Missing header!",
            Rejection::TooLong(m) => m,
        }
    }
}

/// The message for a field of `length` bytes, when that is longer than the
/// field may be.
pub open spec fn field_violation(name: Seq<char>, length: usize) -> Option<Seq<char>> {
    if name == "name"@ {
        if length > 25 { Some("Your `name` is too long!"@) } else { None }
    } else if name == "description"@ {
        if length > 390 { Some("Your `description` is too long!"@) } else { None }
    } else if name == "website"@ {
        if length > 50 { Some("Your `website` is too long!"@) } else { None }
    } else if name == "country"@ {
        if length > 3 { Some("Your `country` is too long!"@) } else { None }
    } else if name == "public_key_modulus"@ {
        if length > 344 { Some("Your `public_key_modulus` is too long!"@) } else { None }
    } else if name == "public_key_exponent"@ {
        if length > 16 { Some("Your `public_key_exponent` is too long!"@) } else { None }
    } else {
        None
    }
}

/// The first field of the announcement that is too long, in the order name,
/// description, website, country, public-key modulus, public-key exponent.
pub open spec fn submission_violation(s: ServerView) -> Option<Seq<char>> {
    if field_violation("name"@, byte_len(s.name)) is Some {
        field_violation("name"@, byte_len(s.name))
    } else if field_violation("description"@, byte_len(s.description)) is Some {
        field_violation("description"@, byte_len(s.description))
    } else if field_violation("website"@, byte_len(s.website)) is Some {
        field_violation("website"@, byte_len(s.website))
    } else if field_violation("country"@, byte_len(s.country)) is Some {
        field_violation("country"@, byte_len(s.country))
    } else if field_violation("public_key_modulus"@, byte_len(s.public_key_modulus)) is Some {
        field_violation("public_key_modulus"@, byte_len(s.public_key_modulus))
    } else {
        field_violation("public_key_exponent"@, byte_len(s.public_key_exponent))
    }
}

/// A text handed in by the caller, taken as its characters.
pub open spec fn opt_str(o: Option<&str>) -> Option<Seq<char>> {
    match o {
        Some(s) => Some(s@),
        None => None,
    }
}

/// The announcement as amended by the proxy headers: the client's address
/// replaces the announced one when it is a dotted-quad IPv4 address, and the
/// client's country, when the proxy sends one, replaces the announced one.
/// `None` when the address header is missing.
pub open spec fn forwarded(
    s: ServerView,
    connecting_ip: Option<Seq<char>>,
    ip_country: Option<Seq<char>>,
) -> Option<ServerView> {
    match connecting_ip {
        None => None,
        Some(ip) => {
            let with_ip = if ipv4_octets(ip) is Some {
                ServerView { address: ip, ..s }
            } else {
                s
            };
            match ip_country {
                Some(c) => Some(ServerView { country: c, ..with_ip }),
                None => Some(with_ip),
            }
        },
    }
}

/// An announcement is refused for length exactly when some field is longer
/// than its limit: name 25, description 390, website 50, country 3, key
/// modulus 344 and key exponent 16 bytes. The message names the first field
/// over its limit, in the order name, description, website, country, key
/// modulus, key exponent.
pub proof fn law_length_limits(s: ServerView)
    ensures
        submission_violation(s) is None <==> (byte_len(s.name) <= 25 && byte_len(s.description)
            <= 390 && byte_len(s.website) <= 50 && byte_len(s.country) <= 3 && byte_len(
            s.public_key_modulus,
        ) <= 344 && byte_len(s.public_key_exponent) <= 16),
        byte_len(s.name) > 25 ==> submission_violation(s) == Some("Your `name` is too long!"@),
        byte_len(s.name) <= 25 && byte_len(s.description) > 390 ==> submission_violation(s)
            == Some("Your `description` is too long!"@),
        byte_len(s.name) <= 25 && byte_len(s.description) <= 390 && byte_len(s.website) > 50
            ==> submission_violation(s) == Some("Your `website` is too long!"@),
        byte_len(s.name) <= 25 && byte_len(s.description) <= 390 && byte_len(s.website) <= 50
            && byte_len(s.country) > 3 ==> submission_violation(s) == Some(
            "Your `country` is too long!"@,
        ),
        byte_len(s.name) <= 25 && byte_len(s.description) <= 390 && byte_len(s.website) <= 50
            && byte_len(s.country) <= 3 && byte_len(s.public_key_modulus) > 344
            ==> submission_violation(s) == Some("Your `public_key_modulus` is too long!"@),
        byte_len(s.name) <= 25 && byte_len(s.description) <= 390 && byte_len(s.website) <= 50
            && byte_len(s.country) <= 3 && byte_len(s.public_key_modulus) <= 344 && byte_len(
            s.public_key_exponent,
        ) > 16 ==> submission_violation(s) == Some("Your `public_key_exponent` is too long!"@),
{
    reveal_strlit("name");
    reveal_strlit("description");
    reveal_strlit("website");
    reveal_strlit("country");
    reveal_strlit("public_key_modulus");
    reveal_strlit("public_key_exponent");
    assert("name"@.len() == 4);
    assert("description"@.len() == 11);
    assert("website"@.len() == 7 && "website"@[0] == 'w');
    assert("country"@.len() == 7 && "country"@[0] == 'c');
    assert("public_key_modulus"@.len() == 18);
    assert("public_key_exponent"@.len() == 19);
}

/// The proxy headers, when the address header is there, always replace the
/// country with the country header when one is sent, whatever the address
/// header holds; they replace the address only with a dotted-quad IPv4
/// address; nothing else of the announcement changes. Without the address
/// header the announcement is refused.
pub proof fn law_forwarded_headers(
    s: ServerView,
    connecting_ip: Option<Seq<char>>,
    ip_country: Option<Seq<char>>,
)
    ensures
        connecting_ip is None ==> forwarded(s, connecting_ip, ip_country) is None,
        connecting_ip matches Some(ip) ==> ({
            let r = forwarded(s, connecting_ip, ip_country)->0;
            &&& forwarded(s, connecting_ip, ip_country) is Some
            &&& r.country == match ip_country {
                Some(c) => c,
                None => s.country,
            }
            &&& r.address == if ipv4_octets(ip) is Some {
                ip
            } else {
                s.address
            }
            &&& r.port == s.port && r.name == s.name && r.version == s.version
            &&& r.players == s.players && r.max_players == s.max_players
            &&& r.description == s.description && r.website == s.website
            &&& r.game_mode == s.game_mode && r.language == s.language
            &&& r.use_p2p == s.use_p2p && r.use_zt == s.use_zt
            &&& r.zt_id == s.zt_id && r.zt_address == s.zt_address
            &&& r.public_key_modulus == s.public_key_modulus
            &&& r.public_key_exponent == s.public_key_exponent
            &&& r.last_update == s.last_update
        }),
{
}

/// The message for a field of `length` bytes that is longer than the field
/// named `name` may be, or `None`.
pub fn check_length(name: &str, length: usize) -> (r: Option<&'static str>)
    ensures
        match r {
            Some(m) => field_violation(name@, length) == Some(m@),
            None => field_violation(name@, length) is None,
        },
{
    if str_eq(name, "name") {
        if length > 25 { Some("Your `name` is too long!") } else { None }
    } else if str_eq(name, "description") {
        if length > 390 { Some("Your `description` is too long!") } else { None }
    } else if str_eq(name, "website") {
        if length > 50 { Some("Your `website` is too long!") } else { None }
    } else if str_eq(name, "country") {
        if length > 3 { Some("Your `country` is too long!") } else { None }
    } else if str_eq(name, "public_key_modulus") {
        if length > 344 { Some("Your `public_key_modulus` is too long!") } else { None }
    } else if str_eq(name, "public_key_exponent") {
        if length > 16 { Some("Your `public_key_exponent` is too long!") } else { None }
    } else {
        None
    }
}

/// The message for the first field of the announcement that is too long.
pub fn length_violation(info: &Server) -> (r: Option<&'static str>)
    ensures
        match r {
            Some(m) => submission_violation(info@) == Some(m@),
            None => submission_violation(info@) is None,
        },
{
    proof {
        reveal_strlit("name");
        reveal_strlit("description");
        reveal_strlit("website");
        reveal_strlit("country");
        reveal_strlit("public_key_modulus");
        reveal_strlit("public_key_exponent");
    }
    let m = check_length("name", byte_length(&info.name));
    if m.is_some() {
        return m;
    }
    let m = check_length("description", byte_length(&info.description));
    if m.is_some() {
        return m;
    }
    let m = check_length("website", byte_length(&info.website));
    if m.is_some() {
        return m;
    }
    let m = check_length("country", byte_length(&info.country));
    if m.is_some() {
        return m;
    }
    let m = check_length("public_key_modulus", byte_length(&info.public_key_modulus));
    if m.is_some() {
        return m;
    }
    check_length("public_key_exponent", byte_length(&info.public_key_exponent))
}

/// Amends the announcement with the proxy headers as [`forwarded`] says.
/// Returns `false`, and leaves `info` as it was, when the address header is
/// missing.
pub fn apply_forwarded_headers(
    info: &mut Server,
    connecting_ip: Option<&str>,
    ip_country: Option<&str>,
) -> (r: bool)
    ensures
        r == (connecting_ip is Some),
        r ==> Some(final(info)@) == forwarded(old(info)@, opt_str(connecting_ip), opt_str(ip_country)),
        !r ==> final(info)@ == old(info)@,
{
    match connecting_ip {
        None => false,
        Some(addr) => {
            if parse_ipv4(addr).is_some() {
                info.address = addr.to_owned();
            }
            match ip_country {
                Some(c) => {
                    info.country = c.to_owned();
                },
                None => {},
            }
            true
        },
    }
}

/// Decides on an announcement: amends it with the proxy headers, then refuses
/// it when the address header is missing or a field is too long.
pub fn review_submission(
    info: &mut Server,
    connecting_ip: Option<&str>,
    ip_country: Option<&str>,
) -> (r: Result<(), Rejection>)
    ensures
        match forwarded(old(info)@, opt_str(connecting_ip), opt_str(ip_country)) {
            None => r == Err::<(), Rejection>(Rejection::MissingHeader) && final(info)@ == old(info)@,
            Some(amended) => final(info)@ == amended && match submission_violation(amended) {
                None => r is Ok,
                Some(m) => r matches Err(Rejection::TooLong(msg)) && msg@ == m,
            },
        },
{
    if !apply_forwarded_headers(info, connecting_ip, ip_country) {
        return Err(Rejection::MissingHeader);
    }
    match length_violation(info) {
        Some(m) => Err(Rejection::TooLong(m)),
        None => Ok(()),
    }
}

/// The single message of the combined length check.
pub open spec fn combined_message() -> Seq<char> {
    "Your server name, description, website, country, public-key-modulus or public-key-exponent length is too long!"@
}

/// Some field of the announcement is longer than it may be.
pub open spec fn any_field_too_long(s: ServerView) -> bool {
    byte_len(s.name) > 25 || byte_len(s.description) > 390 || byte_len(s.website) > 50
        || byte_len(s.country) > 3 || byte_len(s.public_key_modulus) > 344 || byte_len(
        s.public_key_exponent,
    ) > 16
}

/// Decides on an announcement as [`review_submission`] does, but answers every
/// field that is too long with one combined message.
pub fn review_submission_combined(
    info: &mut Server,
    connecting_ip: Option<&str>,
    ip_country: Option<&str>,
) -> (r: Result<(), Rejection>)
    ensures
        match forwarded(old(info)@, opt_str(connecting_ip), opt_str(ip_country)) {
            None => r == Err::<(), Rejection>(Rejection::MissingHeader) && final(info)@ == old(info)@,
            Some(amended) => final(info)@ == amended && if any_field_too_long(amended) {
                r matches Err(Rejection::TooLong(msg)) && msg@ == combined_message()
            } else {
                r is Ok
            },
        },
{
    if !apply_forwarded_headers(info, connecting_ip, ip_country) {
        return Err(Rejection::MissingHeader);
    }
    if byte_length(&info.name) > 25 || byte_length(&info.description) > 390 || byte_length(
        &info.website,
    ) > 50 || byte_length(&info.country) > 3 || byte_length(&info.public_key_modulus) > 344
        || byte_length(&info.public_key_exponent) > 16 {
        return Err(
            Rejection::TooLong(
                "Your server name, description, website, country, public-key-modulus or public-key-exponent length is too long!",
            ),
        );
    }
    Ok(())
}

/// The index of the first server at `address` and `port`.
pub fn find_server(servers: &Vec<Server>, address: &str, port: u16) -> (r: Option<usize>)
    ensures
        match r {
            Some(i) => i < servers@.len() && key_matches(servers@[i as int]@, address@, port)
                && forall|j: int|
                0 <= j < i ==> !key_matches(#[trigger] servers@[j]@, address@, port),
            None => forall|j: int|
                0 <= j < servers@.len() ==> !key_matches(#[trigger] servers@[j]@, address@, port),
        },
{
    let n = servers.len();
    let mut i: usize = 0;
    while i < n
        invariant
            n == servers@.len(),
            0 <= i <= n,
            forall|j: int| 0 <= j < i ==> !key_matches(#[trigger] servers@[j]@, address@, port),
        decreases n - i,
    {
        if str_eq(servers[i].address.as_str(), address) && servers[i].port == port {
            return Some(i);
        }
        i = i + 1;
    }
    None
}

/// The sum of the player counts of `servers`.
pub fn _get_total_player_count(servers: &[Server]) -> (r: usize)
    requires
        total_players(servers@.map_values(|s: Server| s@)) <= usize::MAX,
    ensures
        r == total_players(servers@.map_values(|s: Server| s@)),
{
    let ghost all = servers@.map_values(|s: Server| s@);
    let n = servers.len();
    let mut result: usize = 0;
    let mut i: usize = 0;
    while i < n
        invariant
            n == servers@.len(),
            all == servers@.map_values(|s: Server| s@),
            total_players(all) <= usize::MAX,
            0 <= i <= n,
            result == total_players(all.take(i as int)),
        decreases n - i,
    {
        proof {
            assert(all.take(i + 1).drop_last() =~= all.take(i as int));
            lemma_total_players_prefix(all, i + 1);
        }
        result = result + servers[i].players as usize;
        i = i + 1;
    }
    assert(all.take(n as int) =~= all);
    result
}

} // verus!
