//! The list of announced servers that the routes read and write.
//!
//! A server is known by its address and port. An announcement from an unknown
//! server is added, with the profanity filter applied and the time of the
//! announcement recorded; an announcement from a known server refreshes its
//! player count and time. Servers not heard from for more than twelve seconds
//! are dropped by [`cleanup`].

use vstd::prelude::*;

use crate::clock::unix_time_now;
use crate::listing::{
    first_match, fresh_at, is_fresh, key_matches, keeps_key, law_cleanup_keeps_exactly_fresh,
    law_cleanup_keeps_keys_unique, law_stale_key_is_dropped, law_upsert_finds,
    law_upsert_keeps_keys_unique, law_upsert_leaves_others, law_upsert_length, lemma_first_match,
    lemma_first_match_at, lemma_no_match, not_after, unique_keys, upsert, Listed,
    STALE_AFTER_SECS,
};
use crate::servers::structs::{censored, filtered, Server, ServerView};

pub mod structs;

verus! {

/// The servers the master server knows, in the order they first announced
/// themselves.
pub struct ServerList {
    servers: Vec<Server>,
}

impl View for ServerList {
    type V = Seq<ServerView>;

    closed spec fn view(&self) -> Seq<ServerView> {
        self.servers@.map_values(|s: Server| s@)
    }
}

/// A newly announced server as it is stored: filtered, stamped with `now`.
pub open spec fn inserted(info: ServerView, now: u64) -> ServerView {
    ServerView { last_update: now, ..filtered(info) }
}

/// A known server after a new announcement with `players` at `now`.
pub open spec fn refreshed(s: ServerView, players: u16, now: u64) -> ServerView {
    ServerView { players: players, last_update: now, ..s }
}

/// [`refreshed`] as a function on servers.
pub open spec fn refresh_with(players: u16, now: u64) -> spec_fn(ServerView) -> ServerView {
    |e: ServerView| refreshed(e, players, now)
}

/// The list after the announcement `info` at `now`.
pub open spec fn after_update(s: Seq<ServerView>, info: ServerView, now: u64) -> Seq<ServerView> {
    upsert(s, info.address, info.port, inserted(info, now), refresh_with(info.players, now))
}

/// The announcement itself after it was handled: filtered and stamped when it
/// came from an unknown server, untouched otherwise.
pub open spec fn info_after(s: Seq<ServerView>, info: ServerView, now: u64) -> ServerView {
    if first_match(s, info.address, info.port) < 0 {
        inserted(info, now)
    } else {
        info
    }
}

proof fn lemma_refresh_keeps_key(players: u16, now: u64)
    ensures
        keeps_key(refresh_with(players, now)),
{
    assert forall|e: ServerView| #[trigger]
        refresh_with(players, now)(e).key_address() == e.key_address() && refresh_with(
            players,
            now,
        )(e).key_port() == e.key_port() by {}
}

/// After an announcement, looking up its address and port finds a server with
/// the announced player count, last heard from at the time of the
/// announcement.
pub proof fn law_announced_server_is_found(s: Seq<ServerView>, info: ServerView, now: u64)
    ensures
        ({
            let after = after_update(s, info, now);
            let i = first_match(after, info.address, info.port);
            &&& 0 <= i < after.len()
            &&& after[i].players == info.players
            &&& after[i].last_update == now
        }),
{
    lemma_refresh_keeps_key(info.players, now);
    law_upsert_finds(
        s,
        info.address,
        info.port,
        inserted(info, now),
        refresh_with(info.players, now),
    );
}

/// An announcement leaves every other server as it was: looking up any other
/// address and port finds the same position and the same server as before.
pub proof fn law_announcement_leaves_others(
    s: Seq<ServerView>,
    info: ServerView,
    now: u64,
    address: Seq<char>,
    port: u16,
)
    requires
        !(address == info.address && port == info.port),
    ensures
        first_match(after_update(s, info, now), address, port) == first_match(s, address, port),
        first_match(s, address, port) >= 0 ==> after_update(s, info, now)[first_match(
            s,
            address,
            port,
        )] == s[first_match(s, address, port)],
{
    lemma_refresh_keeps_key(info.players, now);
    law_upsert_leaves_others(
        s,
        info.address,
        info.port,
        inserted(info, now),
        refresh_with(info.players, now),
        address,
        port,
    );
}

/// An announcement adds a server exactly when its address and port were
/// unknown, and otherwise keeps the number of servers.
pub proof fn law_announcement_length(s: Seq<ServerView>, info: ServerView, now: u64)
    ensures
        after_update(s, info, now).len() == s.len() + if first_match(
            s,
            info.address,
            info.port,
        ) < 0 {
            1int
        } else {
            0int
        },
{
    law_upsert_length(
        s,
        info.address,
        info.port,
        inserted(info, now),
        refresh_with(info.players, now),
    );
}

/// Announcements never give two servers the same address and port.
pub proof fn law_announcement_keeps_keys_unique(s: Seq<ServerView>, info: ServerView, now: u64)
    requires
        unique_keys(s),
    ensures
        unique_keys(after_update(s, info, now)),
{
    lemma_refresh_keeps_key(info.players, now);
    law_upsert_keeps_keys_unique(
        s,
        info.address,
        info.port,
        inserted(info, now),
        refresh_with(info.players, now),
    );
}

/// A server that announced itself at `t0` stays listed, with the announced
/// player count, through every cleanup up to twelve seconds later.
pub proof fn law_announced_server_stays_listed(
    s: Seq<ServerView>,
    info: ServerView,
    t0: u64,
    t1: u64,
)
    requires
        t0 <= t1 <= t0 + STALE_AFTER_SECS,
    ensures
        ({
            let kept = after_update(s, info, t0).filter(fresh_at(t1));
            exists|i: int|
                0 <= i < kept.len() && key_matches(#[trigger] kept[i], info.address, info.port)
                    && kept[i].players == info.players
        }),
{
    law_announced_server_is_found(s, info, t0);
    let after = after_update(s, info, t0);
    let i = first_match(after, info.address, info.port);
    lemma_first_match(after, info.address, info.port);
    law_cleanup_keeps_exactly_fresh(after, t1);
    assert(is_fresh(after[i], t1));
    let kept = after.filter(fresh_at(t1));
    assert(kept.contains(after[i]));
    let m = choose|m: int| 0 <= m < kept.len() && kept[m] == after[i];
    assert(key_matches(kept[m], info.address, info.port));
}

/// An announcement from an unknown address and port appends exactly one
/// server: the announcement with the profanity filter's result as its name,
/// description and website, every other field as announced, last heard from
/// at the time of the announcement; the announcement itself becomes that
/// server.
pub proof fn law_new_server_is_filtered(s: Seq<ServerView>, info: ServerView, now: u64)
    requires
        first_match(s, info.address, info.port) < 0,
    ensures
        ({
            let after = after_update(s, info, now);
            let e = after[s.len() as int];
            &&& after.len() == s.len() + 1
            &&& after.take(s.len() as int) == s
            &&& e.name == censored(info.name)
            &&& e.description == censored(info.description)
            &&& e.website == censored(info.website)
            &&& e.address == info.address
            &&& e.port == info.port
            &&& e.version == info.version
            &&& e.players == info.players
            &&& e.max_players == info.max_players
            &&& e.country == info.country
            &&& e.game_mode == info.game_mode
            &&& e.language == info.language
            &&& e.use_p2p == info.use_p2p
            &&& e.use_zt == info.use_zt
            &&& e.zt_id == info.zt_id
            &&& e.zt_address == info.zt_address
            &&& e.public_key_modulus == info.public_key_modulus
            &&& e.public_key_exponent == info.public_key_exponent
            &&& e.last_update == now
            &&& info_after(s, info, now) == e
        }),
{
    let after = after_update(s, info, now);
    assert(after.take(s.len() as int) =~= s);
}

/// An announcement from a known address and port changes only that server's
/// player count, to the announced one, and its last update, to the time of
/// the announcement; every other field stays as it was, and the announcement
/// itself is left untouched.
pub proof fn law_known_server_is_refreshed(s: Seq<ServerView>, info: ServerView, now: u64)
    requires
        first_match(s, info.address, info.port) >= 0,
    ensures
        ({
            let k = first_match(s, info.address, info.port);
            let after = after_update(s, info, now);
            let e = after[k];
            let o = s[k];
            &&& after.len() == s.len()
            &&& forall|j: int| 0 <= j < s.len() && j != k ==> #[trigger] after[j] == s[j]
            &&& e.players == info.players
            &&& e.last_update == now
            &&& e.address == o.address && e.port == o.port && e.name == o.name
            &&& e.version == o.version && e.max_players == o.max_players
            &&& e.country == o.country && e.description == o.description
            &&& e.website == o.website && e.game_mode == o.game_mode
            &&& e.language == o.language && e.use_p2p == o.use_p2p && e.use_zt == o.use_zt
            &&& e.zt_id == o.zt_id && e.zt_address == o.zt_address
            &&& e.public_key_modulus == o.public_key_modulus
            &&& e.public_key_exponent == o.public_key_exponent
            &&& info_after(s, info, now) == info
        }),
{
    lemma_first_match(s, info.address, info.port);
}

/// A server that announced itself at `t0` and was not heard from again is gone
/// after a cleanup more than twelve seconds later.
pub proof fn law_silent_server_is_dropped(s: Seq<ServerView>, info: ServerView, t0: u64, t1: u64)
    requires
        unique_keys(s),
        t1 > t0 + STALE_AFTER_SECS,
    ensures
        ({
            let kept = after_update(s, info, t0).filter(fresh_at(t1));
            forall|i: int|
                0 <= i < kept.len() ==> !key_matches(#[trigger] kept[i], info.address, info.port)
        }),
{
    law_announced_server_is_found(s, info, t0);
    law_announcement_keeps_keys_unique(s, info, t0);
    let after = after_update(s, info, t0);
    let k = first_match(after, info.address, info.port);
    lemma_first_match(after, info.address, info.port);
    assert forall|i: int|
        0 <= i < after.len() && key_matches(#[trigger] after[i], info.address, info.port)
            implies !is_fresh(after[i], t1) by {
        if i != k {
            if i < k {
                assert(!key_matches(after[i], info.address, info.port));
            } else {
                assert(!key_matches(after[k], after[i].key_address(), after[i].key_port()));
            }
        }
    }
    law_stale_key_is_dropped(after, info.address, info.port, t1);
}

impl ServerList {
    /// An empty list.
    pub fn new() -> (r: ServerList)
        ensures
            r@ == Seq::<ServerView>::empty(),
            unique_keys(r@),
    {
        let r = ServerList { servers: Vec::new() };
        assert(r@ =~= Seq::<ServerView>::empty());
        r
    }

    /// The number of known servers.
    pub fn len(&self) -> (r: usize)
        ensures
            r == self@.len(),
    {
        self.servers.len()
    }

    /// The index of the first server at `address` and `port`.
    pub fn position(&self, address: &String, port: u16) -> (r: Option<usize>)
        ensures
            match r {
                Some(i) => i == first_match(self@, address@, port),
                None => first_match(self@, address@, port) < 0,
            },
    {
        let n = self.servers.len();
        let mut i: usize = 0;
        while i < n
            invariant
                n == self.servers@.len(),
                0 <= i <= n,
                forall|j: int| 0 <= j < i ==> !key_matches(#[trigger] self@[j], address@, port),
            decreases n - i,
        {
            let s = &self.servers[i];
            if s.address == *address && s.port == port {
                proof {
                    lemma_first_match_at(self@, address@, port, i as int);
                }
                return Some(i);
            }
            i = i + 1;
        }
        proof {
            lemma_no_match(self@, address@, port);
        }
        None
    }
}

/// A copy of every known server, in order.
pub fn get_list(list: &ServerList) -> (r: Vec<Server>)
    ensures
        r@.map_values(|s: Server| s@) == list@,
{
    let mut r: Vec<Server> = Vec::new();
    let n = list.servers.len();
    let mut i: usize = 0;
    while i < n
        invariant
            n == list.servers@.len(),
            0 <= i <= n,
            r@.len() == i,
            forall|j: int| 0 <= j < i ==> #[trigger] r@[j]@ == list.servers@[j]@,
        decreases n - i,
    {
        r.push(list.servers[i].duplicate());
        i = i + 1;
    }
    assert(r@.map_values(|s: Server| s@) =~= list@);
    r
}

/// Handles the announcement `info` received at `now`: a known server (same
/// address and port) gets the new player count and `now` as its last update;
/// an unknown one has the profanity filter applied to `info`, `info` stamped
/// with `now`, and a copy appended to the list.
pub fn update_or_insert_at(list: &mut ServerList, info: &mut Server, now: u64)
    requires
        unique_keys(old(list)@),
    ensures
        final(list)@ == after_update(old(list)@, old(info)@, now),
        final(info)@ == info_after(old(list)@, old(info)@, now),
        unique_keys(final(list)@),
{
    let index = list.position(&info.address, info.port);
    proof {
        lemma_first_match(old(list)@, old(info)@.address, old(info)@.port);
    }
    match index {
        None => {
            info.filter_bad_words();
            info.last_update = now;
            let copy = info.duplicate();
            list.servers.push(copy);
            assert(list@ =~= old(list)@.push(inserted(old(info)@, now)));
        },
        Some(i) => {
            let mut entry = list.servers[i].duplicate();
            entry.players = info.players;
            entry.last_update = now;
            list.servers.set(i, entry);
            assert(list@ =~= old(list)@.update(
                i as int,
                refreshed(old(list)@[i as int], old(info)@.players, now),
            ));
        },
    }
    proof {
        law_announcement_keeps_keys_unique(old(list)@, old(info)@, now);
    }
}

/// Handles the announcement `info` at the current time, as
/// [`update_or_insert_at`] does. Returns `false`, and changes nothing, when
/// the system clock reads earlier than the UNIX epoch.
pub fn update_or_insert(list: &mut ServerList, info: &mut Server) -> (r: bool)
    requires
        unique_keys(old(list)@),
    ensures
        r ==> exists|t: u64|
            final(list)@ == #[trigger] after_update(old(list)@, old(info)@, t) && final(info)@
                == info_after(old(list)@, old(info)@, t),
        !r ==> final(list)@ == old(list)@ && final(info)@ == old(info)@,
        unique_keys(final(list)@),
{
    match unix_time_now() {
        None => false,
        Some(now) => {
            update_or_insert_at(list, info, now);
            true
        },
    }
}

/// Whether every server was last heard from no later than `now`.
pub fn all_not_after(list: &ServerList, now: u64) -> (r: bool)
    ensures
        r == not_after(list@, now),
{
    let n = list.servers.len();
    let mut i: usize = 0;
    while i < n
        invariant
            n == list.servers@.len(),
            0 <= i <= n,
            forall|j: int| 0 <= j < i ==> #[trigger] list@[j].stamp() <= now,
        decreases n - i,
    {
        if list.servers[i].last_update > now {
            assert(list@[i as int].stamp() > now);
            return false;
        }
        i = i + 1;
    }
    true
}

/// Drops every server last heard from more than twelve seconds before `now`,
/// keeping the order of the others.
pub fn cleanup_at(list: &mut ServerList, now: u64)
    requires
        unique_keys(old(list)@),
        not_after(old(list)@, now),
    ensures
        final(list)@ == old(list)@.filter(fresh_at(now)),
        unique_keys(final(list)@),
{
    let ghost before = list@;
    let mut kept: Vec<Server> = Vec::new();
    let n = list.servers.len();
    let mut i: usize = 0;
    while i < n
        invariant
            n == list.servers@.len(),
            before == list@,
            not_after(before, now),
            0 <= i <= n,
            kept@.map_values(|s: Server| s@) == before.take(i as int).filter(fresh_at(now)),
        decreases n - i,
    {
        proof {
            reveal_with_fuel(Seq::<_>::filter, 1);
            assert(before.take(i + 1).drop_last() =~= before.take(i as int));
            assert(before.take(i + 1).last() == before[i as int]);
            assert(before[i as int].stamp() <= now);
        }
        if now - list.servers[i].last_update <= STALE_AFTER_SECS {
            kept.push(list.servers[i].duplicate());
            assert(kept@.map_values(|s: Server| s@) =~= before.take(i as int).filter(
                fresh_at(now),
            ).push(before[i as int]));
        }
        i = i + 1;
    }
    assert(before.take(n as int) =~= before);
    list.servers = kept;
    proof {
        law_cleanup_keeps_keys_unique(before, now);
    }
}

/// Drops the servers not heard from for more than twelve seconds, given what
/// the clock read: `true` after [`cleanup_at`] at that time when the clock
/// gave a time no earlier than the last update of every server; `false`, with
/// nothing changed, when it gave no time or an earlier one.
pub fn cleanup_with_clock(list: &mut ServerList, clock: Option<u64>) -> (r: bool)
    requires
        unique_keys(old(list)@),
    ensures
        r == match clock {
            Some(t) => not_after(old(list)@, t),
            None => false,
        },
        match clock {
            Some(t) => r ==> final(list)@ == old(list)@.filter(fresh_at(t)),
            None => true,
        },
        !r ==> final(list)@ == old(list)@,
        unique_keys(final(list)@),
{
    match clock {
        None => false,
        Some(now) => {
            if !all_not_after(list, now) {
                return false;
            }
            cleanup_at(list, now);
            true
        },
    }
}

/// Drops the servers not heard from for more than twelve seconds, as
/// [`cleanup_at`] does at the current time. Returns `false`, and changes
/// nothing, when the clock cannot be read or reads earlier than the last
/// update of some server.
pub fn cleanup(list: &mut ServerList) -> (r: bool)
    requires
        unique_keys(old(list)@),
    ensures
        r ==> exists|t: u64|
            not_after(old(list)@, t) && final(list)@ == #[trigger] old(list)@.filter(fresh_at(t)),
        !r ==> final(list)@ == old(list)@,
        unique_keys(final(list)@),
{
    cleanup_with_clock(list, unix_time_now())
}

} // verus!
