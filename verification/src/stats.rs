//! The server list that also keeps, for every server, a short history of its
//! player counts: six samples, one per ten-minute window, the newest last.
//! Within a window the newest sample keeps the highest count announced.

use vstd::prelude::*;

use crate::clock::unix_time_now;
use crate::listing::{
    first_match, fresh_at, fresh_positions, is_fresh, key_matches, keeps_key,
    law_cleanup_keeps_exactly_fresh, law_cleanup_keeps_keys_unique, law_cleanup_keeps_positions,
    law_stale_key_is_dropped, law_upsert_finds, law_upsert_keeps_keys_unique,
    law_upsert_leaves_others, law_upsert_length, lemma_first_match, lemma_first_match_at,
    lemma_no_match, lemma_total_players_prefix, not_after, stamps_of, total_players, unique_keys,
    upsert, Listed, STALE_AFTER_SECS,
};
use crate::servers::structs::censor_text;
use crate::servers::structs::censored;
use crate::servers::structs::ServerView as PlainServerView;

verus! {

/// The number of player-count samples kept for each server.
pub const PLAYER_HISTORY_LEN: usize = 6;

/// The length in seconds of the window a player-count sample covers.
pub const SAMPLE_WINDOW_SECS: u64 = 600;

/// The player-count history of a server.
#[derive(Clone, Debug, Default)]
pub struct PlayerStats {
    pub players: Vec<u16>,
    pub last_update: u64,
}

/// A [`PlayerStats`] with its samples as a sequence.
pub struct PlayerStatsView {
    pub players: Seq<u16>,
    pub last_update: u64,
}

impl View for PlayerStats {
    type V = PlayerStatsView;

    open spec fn view(&self) -> PlayerStatsView {
        PlayerStatsView { players: self.players@, last_update: self.last_update }
    }
}

/// A game server as announced to the master server, with the history the
/// master server keeps for it.
#[derive(Clone, Debug)]
pub struct Server {
    pub address: String,
    pub port: u16,
    pub name: String,
    pub version: String,
    pub players: u16,
    pub max_players: u16,
    pub country: Option<String>,
    pub description: Option<String>,
    pub website: Option<String>,
    pub game_mode: Option<String>,
    pub language: Option<String>,
    pub use_p2p: bool,
    pub use_zt: bool,
    pub zt_id: Option<String>,
    pub zt_address: Option<String>,
    pub public_key_modulus: String,
    pub public_key_exponent: String,
    pub player_stats: PlayerStats,
    pub last_update: u64,
}

/// An optional text taken as its characters.
pub open spec fn opt_text(o: Option<String>) -> Option<Seq<char>> {
    match o {
        Some(s) => Some(s@),
        None => None,
    }
}

/// A [`Server`] with each text field taken as its characters.
pub struct ServerView {
    pub address: Seq<char>,
    pub port: u16,
    pub name: Seq<char>,
    pub version: Seq<char>,
    pub players: u16,
    pub max_players: u16,
    pub country: Option<Seq<char>>,
    pub description: Option<Seq<char>>,
    pub website: Option<Seq<char>>,
    pub game_mode: Option<Seq<char>>,
    pub language: Option<Seq<char>>,
    pub use_p2p: bool,
    pub use_zt: bool,
    pub zt_id: Option<Seq<char>>,
    pub zt_address: Option<Seq<char>>,
    pub public_key_modulus: Seq<char>,
    pub public_key_exponent: Seq<char>,
    pub player_stats: PlayerStatsView,
    pub last_update: u64,
}

impl View for Server {
    type V = ServerView;

    open spec fn view(&self) -> ServerView {
        ServerView {
            address: self.address@,
            port: self.port,
            name: self.name@,
            version: self.version@,
            players: self.players,
            max_players: self.max_players,
            country: opt_text(self.country),
            description: opt_text(self.description),
            website: opt_text(self.website),
            game_mode: opt_text(self.game_mode),
            language: opt_text(self.language),
            use_p2p: self.use_p2p,
            use_zt: self.use_zt,
            zt_id: opt_text(self.zt_id),
            zt_address: opt_text(self.zt_address),
            public_key_modulus: self.public_key_modulus@,
            public_key_exponent: self.public_key_exponent@,
            player_stats: self.player_stats@,
            last_update: self.last_update,
        }
    }
}

impl Listed for ServerView {
    open spec fn key_address(&self) -> Seq<char> {
        self.address
    }

    open spec fn key_port(&self) -> u16 {
        self.port
    }

    open spec fn stamp(&self) -> u64 {
        self.last_update
    }

    open spec fn player_count(&self) -> u16 {
        self.players
    }
}

fn copy_text(o: &Option<String>) -> (r: Option<String>)
    ensures
        opt_text(r) == opt_text(*o),
{
    match o {
        Some(s) => Some(s.clone()),
        None => None,
    }
}

fn copy_samples(v: &Vec<u16>) -> (r: Vec<u16>)
    ensures
        r@ == v@,
{
    let mut r: Vec<u16> = Vec::new();
    let n = v.len();
    let mut i: usize = 0;
    while i < n
        invariant
            n == v@.len(),
            0 <= i <= n,
            r@ == v@.take(i as int),
        decreases n - i,
    {
        r.push(v[i]);
        assert(r@ =~= v@.take(i + 1));
        i = i + 1;
    }
    assert(v@.take(n as int) =~= v@);
    r
}

impl Server {
    /// Whether the name or the description holds a bad word: a word the
    /// profanity filter (the `censor` word sets `Standard` and `Sex`) would
    /// replace.
    pub fn contains_bad_words(&self) -> (r: bool)
        ensures
            r == (censored(self.name@) != self.name@ || match self.description {
                Some(d) => censored(d@) != d@,
                None => false,
            }),
    {
        if censor_text(self.name.as_str()) != self.name {
            return true;
        }
        match &self.description {
            Some(d) => censor_text(d.as_str()) != *d,
            None => false,
        }
    }

    /// A field-by-field copy.
    pub fn duplicate(&self) -> (r: Server)
        ensures
            r@ == self@,
    {
        Server {
            address: self.address.clone(),
            port: self.port,
            name: self.name.clone(),
            version: self.version.clone(),
            players: self.players,
            max_players: self.max_players,
            country: copy_text(&self.country),
            description: copy_text(&self.description),
            website: copy_text(&self.website),
            game_mode: copy_text(&self.game_mode),
            language: copy_text(&self.language),
            use_p2p: self.use_p2p,
            use_zt: self.use_zt,
            zt_id: copy_text(&self.zt_id),
            zt_address: copy_text(&self.zt_address),
            public_key_modulus: self.public_key_modulus.clone(),
            public_key_exponent: self.public_key_exponent.clone(),
            player_stats: PlayerStats {
                players: copy_samples(&self.player_stats.players),
                last_update: self.player_stats.last_update,
            },
            last_update: self.last_update,
        }
    }
}

/// The servers the master server knows, in the order they first announced
/// themselves.
pub struct ServerList {
    servers: Vec<Server>,
}

impl View for ServerList {
    type V = Seq<ServerView>;

    closed spec fn view(&self) -> Seq<ServerView> {
        self.servers@.map_values(|s: Server| s@)
    }
}

/// What every list of the master server satisfies: no two servers share an
/// address and a port, and every server keeps exactly six samples.
pub open spec fn wf(s: Seq<ServerView>) -> bool {
    &&& unique_keys(s)
    &&& forall|i: int|
        0 <= i < s.len() ==> #[trigger] s[i].player_stats.players.len() == PLAYER_HISTORY_LEN
}

/// A newly announced server as it is stored: six empty samples, and `now` as
/// the time of its last update and of its newest sample.
pub open spec fn inserted(info: ServerView, now: u64) -> ServerView {
    ServerView {
        player_stats: PlayerStatsView { players: seq![0u16, 0u16, 0u16, 0u16, 0u16, 0u16], last_update: now },
        last_update: now,
        ..info
    }
}

/// The samples of a server after an announcement of `players` at `now`: a
/// new sample after more than ten minutes, the oldest dropped; otherwise the
/// newest sample raised to `players` if that is higher.
pub open spec fn sampled(stats: PlayerStatsView, players: u16, now: u64) -> PlayerStatsView {
    if now - stats.last_update > SAMPLE_WINDOW_SECS {
        PlayerStatsView { players: stats.players.drop_first().push(players), last_update: now }
    } else if players > stats.players.last() {
        PlayerStatsView { players: stats.players.update(5, players), ..stats }
    } else {
        stats
    }
}

/// A known server after a new announcement with `players` at `now`.
pub open spec fn refreshed(s: ServerView, players: u16, now: u64) -> ServerView {
    ServerView {
        players: players,
        player_stats: sampled(s.player_stats, players, now),
        last_update: now,
        ..s
    }
}

/// [`refreshed`] as a function on servers.
pub open spec fn refresh_with(players: u16, now: u64) -> spec_fn(ServerView) -> ServerView {
    |e: ServerView| refreshed(e, players, now)
}

/// The list after the announcement `info` at `now`.
pub open spec fn after_update(s: Seq<ServerView>, info: ServerView, now: u64) -> Seq<ServerView> {
    upsert(s, info.address, info.port, inserted(info, now), refresh_with(info.players, now))
}

/// The announcement itself after it was handled: given fresh samples and
/// stamped when it came from an unknown server, untouched otherwise.
pub open spec fn info_after(s: Seq<ServerView>, info: ServerView, now: u64) -> ServerView {
    if first_match(s, info.address, info.port) < 0 {
        inserted(info, now)
    } else {
        info
    }
}

/// The samples of the server that `info` would refresh were taken no later
/// than `now`.
pub open spec fn sample_not_after(s: Seq<ServerView>, info: ServerView, now: u64) -> bool {
    let i = first_match(s, info.address, info.port);
    i >= 0 ==> s[i].player_stats.last_update <= now
}

impl ServerList {
    /// An empty list.
    pub fn new() -> (r: ServerList)
        ensures
            r@ == Seq::<ServerView>::empty(),
            wf(r@),
    {
        let r = ServerList { servers: Vec::new() };
        assert(r@ =~= Seq::<ServerView>::empty());
        r
    }

    /// The number of known servers.
    pub fn len(&self) -> (r: usize)
        ensures
            r == self@.len(),
    {
        self.servers.len()
    }

    /// The index of the first server at `address` and `port`.
    pub fn position(&self, address: &String, port: u16) -> (r: Option<usize>)
        ensures
            match r {
                Some(i) => i == first_match(self@, address@, port),
                None => first_match(self@, address@, port) < 0,
            },
    {
        let n = self.servers.len();
        let mut i: usize = 0;
        while i < n
            invariant
                n == self.servers@.len(),
                0 <= i <= n,
                forall|j: int| 0 <= j < i ==> !key_matches(#[trigger] self@[j], address@, port),
            decreases n - i,
        {
            let s = &self.servers[i];
            if s.address == *address && s.port == port {
                proof {
                    lemma_first_match_at(self@, address@, port, i as int);
                }
                return Some(i);
            }
            i = i + 1;
        }
        proof {
            lemma_no_match(self@, address@, port);
        }
        None
    }
}

/// A copy of every known server, in order.
pub fn get_all(list: &ServerList) -> (r: Vec<Server>)
    ensures
        r@.map_values(|s: Server| s@) == list@,
{
    let mut r: Vec<Server> = Vec::new();
    let n = list.servers.len();
    let mut i: usize = 0;
    while i < n
        invariant
            n == list.servers@.len(),
            0 <= i <= n,
            r@.len() == i,
            forall|j: int| 0 <= j < i ==> #[trigger] r@[j]@ == list.servers@[j]@,
        decreases n - i,
    {
        r.push(list.servers[i].duplicate());
        i = i + 1;
    }
    assert(r@.map_values(|s: Server| s@) =~= list@);
    r
}

/// The number of known servers and the sum of their player counts.
pub fn get_count(list: &ServerList) -> (r: (usize, usize))
    requires
        total_players(list@) <= usize::MAX,
    ensures
        r.0 == list@.len(),
        r.1 == total_players(list@),
{
    let n = list.servers.len();
    let mut total: usize = 0;
    let mut i: usize = 0;
    while i < n
        invariant
            n == list.servers@.len(),
            0 <= i <= n,
            total_players(list@) <= usize::MAX,
            total == total_players(list@.take(i as int)),
        decreases n - i,
    {
        proof {
            assert(list@.take(i + 1).drop_last() =~= list@.take(i as int));
            lemma_total_players_prefix(list@, i + 1);
        }
        total = total + list.servers[i].players as usize;
        i = i + 1;
    }
    assert(list@.take(n as int) =~= list@);
    (n, total)
}

/// Handles the announcement `info` received at `now`. A known server (same
/// address and port) gets the new player count, `now` as its last update, and
/// its samples advanced as [`sampled`] says; for an unknown one `info` gets
/// six empty samples and `now` as its time, and a copy is appended.
pub fn update_or_insert_at(list: &mut ServerList, info: &mut Server, now: u64)
    requires
        wf(old(list)@),
        sample_not_after(old(list)@, old(info)@, now),
    ensures
        final(list)@ == after_update(old(list)@, old(info)@, now),
        final(info)@ == info_after(old(list)@, old(info)@, now),
        wf(final(list)@),
{
    let index = list.position(&info.address, info.port);
    proof {
        lemma_first_match(old(list)@, old(info)@.address, old(info)@.port);
    }
    match index {
        None => {
            info.player_stats = PlayerStats { players: vec![0u16, 0u16, 0u16, 0u16, 0u16, 0u16], last_update: now };
            info.last_update = now;
            assert(info.player_stats.players@ =~= seq![0u16, 0u16, 0u16, 0u16, 0u16, 0u16]);
            let copy = info.duplicate();
            list.servers.push(copy);
            assert(list@ =~= old(list)@.push(inserted(old(info)@, now)));
        },
        Some(i) => {
            let mut entry = list.servers[i].duplicate();
            assert(entry.player_stats.players@.len() == PLAYER_HISTORY_LEN);
            entry.players = info.players;
            if now - entry.player_stats.last_update > SAMPLE_WINDOW_SECS {
                let mut samples = copy_samples(&entry.player_stats.players);
                samples.remove(0);
                samples.push(entry.players);
                entry.player_stats = PlayerStats { players: samples, last_update: now };
            } else if entry.players > entry.player_stats.players[entry.player_stats.players.len() - 1] {
                let mut samples = copy_samples(&entry.player_stats.players);
                samples.set(5, entry.players);
                entry.player_stats = PlayerStats { players: samples, last_update: entry.player_stats.last_update };
            }
            entry.last_update = now;
            assert(entry@ == refreshed(old(list)@[i as int], old(info)@.players, now));
            list.servers.set(i, entry);
            assert(list@ =~= old(list)@.update(
                i as int,
                refreshed(old(list)@[i as int], old(info)@.players, now),
            ));
        },
    }
    proof {
        law_announcement_keeps_wf(old(list)@, old(info)@, now);
    }
}

/// Handles the announcement `info` given what the clock read: when the clock
/// gave a time no earlier than the newest sample of the server to refresh,
/// does what [`update_or_insert_at`] does at that time and returns `true`;
/// otherwise returns `false` and changes nothing.
pub fn update_or_insert_with_clock(
    list: &mut ServerList,
    info: &mut Server,
    clock: Option<u64>,
) -> (r: bool)
    requires
        wf(old(list)@),
    ensures
        r == match clock {
            Some(t) => sample_not_after(old(list)@, old(info)@, t),
            None => false,
        },
        match clock {
            Some(t) => r ==> final(list)@ == after_update(old(list)@, old(info)@, t)
                && final(info)@ == info_after(old(list)@, old(info)@, t),
            None => true,
        },
        !r ==> final(list)@ == old(list)@ && final(info)@ == old(info)@,
        wf(final(list)@),
{
    let index = list.position(&info.address, info.port);
    proof {
        lemma_first_match(list@, info@.address, info@.port);
    }
    let now = match clock {
        None => {
            return false;
        },
        Some(now) => now,
    };
    match index {
        Some(i) => {
            assert(list.servers@[i as int]@ == list@[i as int]);
            if list.servers[i].player_stats.last_update > now {
                return false;
            }
        },
        None => {},
    }
    update_or_insert_at(list, info, now);
    true
}

/// Handles the announcement `info` at the current time, as
/// [`update_or_insert_at`] does, and returns `true`. Returns `false`, and
/// changes nothing, when the system clock reads earlier than the UNIX epoch or
/// earlier than the newest sample of the server to refresh.
pub fn update_or_insert(list: &mut ServerList, info: &mut Server) -> (r: bool)
    requires
        wf(old(list)@),
    ensures
        r ==> exists|t: u64|
            sample_not_after(old(list)@, old(info)@, t) && final(list)@ == #[trigger] after_update(
                old(list)@,
                old(info)@,
                t,
            ) && final(info)@ == info_after(old(list)@, old(info)@, t),
        !r ==> final(list)@ == old(list)@ && final(info)@ == old(info)@,
        wf(final(list)@),
{
    update_or_insert_with_clock(list, info, unix_time_now())
}

/// Whether every server was last heard from no later than `now`.
pub fn all_not_after(list: &ServerList, now: u64) -> (r: bool)
    ensures
        r == not_after(list@, now),
{
    let n = list.servers.len();
    let mut i: usize = 0;
    while i < n
        invariant
            n == list.servers@.len(),
            0 <= i <= n,
            forall|j: int| 0 <= j < i ==> #[trigger] list@[j].stamp() <= now,
        decreases n - i,
    {
        if list.servers[i].last_update > now {
            assert(list@[i as int].stamp() > now);
            return false;
        }
        i = i + 1;
    }
    true
}

/// Drops every server last heard from more than twelve seconds before `now`,
/// keeping the order of the others.
pub fn cleanup_at(list: &mut ServerList, now: u64)
    requires
        wf(old(list)@),
        not_after(old(list)@, now),
    ensures
        final(list)@ == old(list)@.filter(fresh_at(now)),
        wf(final(list)@),
{
    let ghost before = list@;
    let mut kept: Vec<Server> = Vec::new();
    let n = list.servers.len();
    let mut i: usize = 0;
    while i < n
        invariant
            n == list.servers@.len(),
            before == list@,
            not_after(before, now),
            0 <= i <= n,
            kept@.map_values(|s: Server| s@) == before.take(i as int).filter(fresh_at(now)),
        decreases n - i,
    {
        proof {
            reveal_with_fuel(Seq::<_>::filter, 1);
            assert(before.take(i + 1).drop_last() =~= before.take(i as int));
            assert(before.take(i + 1).last() == before[i as int]);
            assert(before[i as int].stamp() <= now);
        }
        if now - list.servers[i].last_update <= STALE_AFTER_SECS {
            kept.push(list.servers[i].duplicate());
            assert(kept@.map_values(|s: Server| s@) =~= before.take(i as int).filter(
                fresh_at(now),
            ).push(before[i as int]));
        }
        i = i + 1;
    }
    assert(before.take(n as int) =~= before);
    list.servers = kept;
    proof {
        law_cleanup_keeps_wf(before, now);
    }
}

/// Drops the servers not heard from for more than twelve seconds, given what
/// the clock read: `true` after [`cleanup_at`] at that time when the clock
/// gave a time no earlier than the last update of every server; `false`, with
/// nothing changed, when it gave no time or an earlier one.
pub fn cleanup_with_clock(list: &mut ServerList, clock: Option<u64>) -> (r: bool)
    requires
        wf(old(list)@),
    ensures
        r == match clock {
            Some(t) => not_after(old(list)@, t),
            None => false,
        },
        match clock {
            Some(t) => r ==> final(list)@ == old(list)@.filter(fresh_at(t)),
            None => true,
        },
        !r ==> final(list)@ == old(list)@,
        wf(final(list)@),
{
    match clock {
        None => false,
        Some(now) => {
            if !all_not_after(list, now) {
                return false;
            }
            cleanup_at(list, now);
            true
        },
    }
}

/// Drops the servers not heard from for more than twelve seconds, as
/// [`cleanup_at`] does at the current time, and returns `true`. Returns
/// `false`, and changes nothing, when the system clock reads earlier than the
/// UNIX epoch or earlier than the last update of some server.
pub fn cleanup(list: &mut ServerList) -> (r: bool)
    requires
        wf(old(list)@),
    ensures
        r ==> exists|t: u64|
            not_after(old(list)@, t) && final(list)@ == #[trigger] old(list)@.filter(fresh_at(t)),
        !r ==> final(list)@ == old(list)@,
        wf(final(list)@),
{
    cleanup_with_clock(list, unix_time_now())
}

proof fn lemma_refresh_keeps_key(players: u16, now: u64)
    ensures
        keeps_key(refresh_with(players, now)),
{
    assert forall|e: ServerView| #[trigger]
        refresh_with(players, now)(e).key_address() == e.key_address() && refresh_with(
            players,
            now,
        )(e).key_port() == e.key_port() by {}
}

/// Every announcement keeps the list well formed: addresses and ports stay
/// unique and every server keeps six samples.
pub proof fn law_announcement_keeps_wf(s: Seq<ServerView>, info: ServerView, now: u64)
    requires
        wf(s),
        sample_not_after(s, info, now),
    ensures
        wf(after_update(s, info, now)),
{
    lemma_refresh_keeps_key(info.players, now);
    law_upsert_keeps_keys_unique(
        s,
        info.address,
        info.port,
        inserted(info, now),
        refresh_with(info.players, now),
    );
    lemma_first_match(s, info.address, info.port);
    let after = after_update(s, info, now);
    assert forall|i: int| 0 <= i < after.len() implies #[trigger] after[i].player_stats.players.len()
        == PLAYER_HISTORY_LEN by {
        if i < s.len() {
            assert(s[i].player_stats.players.len() == PLAYER_HISTORY_LEN);
        }
    }
}

/// Cleaning up keeps the list well formed.
pub proof fn law_cleanup_keeps_wf(s: Seq<ServerView>, now: u64)
    requires
        wf(s),
    ensures
        wf(s.filter(fresh_at(now))),
{
    law_cleanup_keeps_keys_unique(s, now);
    law_cleanup_keeps_exactly_fresh(s, now);
    let out = s.filter(fresh_at(now));
    assert forall|i: int| 0 <= i < out.len() implies #[trigger] out[i].player_stats.players.len()
        == PLAYER_HISTORY_LEN by {
        assert(s.contains(out[i]));
        let m = choose|m: int| 0 <= m < s.len() && s[m] == out[i];
        assert(s[m].player_stats.players.len() == PLAYER_HISTORY_LEN);
    }
}

/// After an announcement, looking up its address and port finds a server with
/// the announced player count, last heard from at the time of the
/// announcement.
pub proof fn law_announced_server_is_found(s: Seq<ServerView>, info: ServerView, now: u64)
    ensures
        ({
            let after = after_update(s, info, now);
            let i = first_match(after, info.address, info.port);
            &&& 0 <= i < after.len()
            &&& after[i].players == info.players
            &&& after[i].last_update == now
        }),
{
    lemma_refresh_keeps_key(info.players, now);
    law_upsert_finds(
        s,
        info.address,
        info.port,
        inserted(info, now),
        refresh_with(info.players, now),
    );
}

/// An announcement leaves every other server as it was: looking up any other
/// address and port finds the same position and the same server as before.
pub proof fn law_announcement_leaves_others(
    s: Seq<ServerView>,
    info: ServerView,
    now: u64,
    address: Seq<char>,
    port: u16,
)
    requires
        !(address == info.address && port == info.port),
    ensures
        first_match(after_update(s, info, now), address, port) == first_match(s, address, port),
        first_match(s, address, port) >= 0 ==> after_update(s, info, now)[first_match(
            s,
            address,
            port,
        )] == s[first_match(s, address, port)],
{
    lemma_refresh_keeps_key(info.players, now);
    law_upsert_leaves_others(
        s,
        info.address,
        info.port,
        inserted(info, now),
        refresh_with(info.players, now),
        address,
        port,
    );
}

/// An announcement adds a server exactly when its address and port were
/// unknown, and otherwise keeps the number of servers.
pub proof fn law_announcement_length(s: Seq<ServerView>, info: ServerView, now: u64)
    ensures
        after_update(s, info, now).len() == s.len() + if first_match(
            s,
            info.address,
            info.port,
        ) < 0 {
            1int
        } else {
            0int
        },
{
    law_upsert_length(
        s,
        info.address,
        info.port,
        inserted(info, now),
        refresh_with(info.players, now),
    );
}

/// A server that announced itself at `t0` stays listed, with the announced
/// player count, through every cleanup up to twelve seconds later.
pub proof fn law_announced_server_stays_listed(
    s: Seq<ServerView>,
    info: ServerView,
    t0: u64,
    t1: u64,
)
    requires
        t0 <= t1 <= t0 + STALE_AFTER_SECS,
    ensures
        ({
            let kept = after_update(s, info, t0).filter(fresh_at(t1));
            exists|i: int|
                0 <= i < kept.len() && key_matches(#[trigger] kept[i], info.address, info.port)
                    && kept[i].players == info.players
        }),
{
    law_announced_server_is_found(s, info, t0);
    let after = after_update(s, info, t0);
    let i = first_match(after, info.address, info.port);
    lemma_first_match(after, info.address, info.port);
    law_cleanup_keeps_exactly_fresh(after, t1);
    assert(is_fresh(after[i], t1));
    let kept = after.filter(fresh_at(t1));
    assert(kept.contains(after[i]));
    let m = choose|m: int| 0 <= m < kept.len() && kept[m] == after[i];
    assert(key_matches(kept[m], info.address, info.port));
}

/// How an announcement from a known server moves its samples. More than ten
/// minutes after its newest sample the oldest sample is dropped, the others
/// move one place towards the front, the announced count becomes the newest
/// sample and the announcement's time the time of the samples. Otherwise the
/// first five samples and their time stay, and the newest sample becomes the
/// larger of itself and the announced count. Either way the server takes the
/// announced count and the announcement's time, and nothing else of it
/// changes.
pub proof fn law_samples_advance(s: Seq<ServerView>, info: ServerView, now: u64)
    requires
        wf(s),
        first_match(s, info.address, info.port) >= 0,
        sample_not_after(s, info, now),
    ensures
        ({
            let k = first_match(s, info.address, info.port);
            let o = s[k];
            let e = after_update(s, info, now)[k];
            let before = o.player_stats;
            let samples = e.player_stats;
            &&& after_update(s, info, now).len() == s.len()
            &&& samples.players.len() == PLAYER_HISTORY_LEN
            &&& now - before.last_update > SAMPLE_WINDOW_SECS ==> {
                &&& forall|j: int| 0 <= j < 5 ==> #[trigger] samples.players[j] == before.players[j + 1]
                &&& samples.players[5] == info.players
                &&& samples.last_update == now
            }
            &&& now - before.last_update <= SAMPLE_WINDOW_SECS ==> {
                &&& forall|j: int| 0 <= j < 5 ==> #[trigger] samples.players[j] == before.players[j]
                &&& samples.players[5] == if info.players > before.players[5] {
                    info.players
                } else {
                    before.players[5]
                }
                &&& samples.last_update == before.last_update
            }
            &&& e.players == info.players
            &&& e.last_update == now
            &&& e.address == o.address && e.port == o.port && e.name == o.name
            &&& e.version == o.version && e.max_players == o.max_players
            &&& e.country == o.country && e.description == o.description
            &&& e.website == o.website && e.game_mode == o.game_mode
            &&& e.language == o.language && e.use_p2p == o.use_p2p && e.use_zt == o.use_zt
            &&& e.zt_id == o.zt_id && e.zt_address == o.zt_address
            &&& e.public_key_modulus == o.public_key_modulus
            &&& e.public_key_exponent == o.public_key_exponent
        }),
{
    lemma_first_match(s, info.address, info.port);
    let k = first_match(s, info.address, info.port);
    assert(s[k].player_stats.players.len() == PLAYER_HISTORY_LEN);
}

/// An announcement from an unknown address and port appends exactly one
/// server: the announcement as it came, with six empty samples taken at the
/// time of the announcement and that time as its last update.
pub proof fn law_new_server_gets_empty_samples(s: Seq<ServerView>, info: ServerView, now: u64)
    requires
        first_match(s, info.address, info.port) < 0,
    ensures
        ({
            let after = after_update(s, info, now);
            let e = after[s.len() as int];
            &&& after.len() == s.len() + 1
            &&& after.take(s.len() as int) == s
            &&& e.player_stats.players.len() == PLAYER_HISTORY_LEN
            &&& forall|j: int| 0 <= j < 6 ==> #[trigger] e.player_stats.players[j] == 0
            &&& e.player_stats.last_update == now
            &&& e.last_update == now
            &&& e.address == info.address && e.port == info.port && e.name == info.name
            &&& e.players == info.players && e.version == info.version
            &&& e.max_players == info.max_players && e.country == info.country
            &&& e.description == info.description && e.website == info.website
            &&& e.game_mode == info.game_mode && e.language == info.language
            &&& e.use_p2p == info.use_p2p && e.use_zt == info.use_zt
            &&& e.zt_id == info.zt_id && e.zt_address == info.zt_address
            &&& e.public_key_modulus == info.public_key_modulus
            &&& e.public_key_exponent == info.public_key_exponent
            &&& info_after(s, info, now) == e
        }),
{
    let after = after_update(s, info, now);
    assert(after.take(s.len() as int) =~= s);
}

/// A server that announced itself at `t0` and was not heard from again is gone
/// after a cleanup more than twelve seconds later.
pub proof fn law_silent_server_is_dropped(s: Seq<ServerView>, info: ServerView, t0: u64, t1: u64)
    requires
        unique_keys(s),
        t1 > t0 + STALE_AFTER_SECS,
    ensures
        ({
            let kept = after_update(s, info, t0).filter(fresh_at(t1));
            forall|i: int|
                0 <= i < kept.len() ==> !key_matches(#[trigger] kept[i], info.address, info.port)
        }),
{
    law_announced_server_is_found(s, info, t0);
    lemma_refresh_keeps_key(info.players, t0);
    law_upsert_keeps_keys_unique(
        s,
        info.address,
        info.port,
        inserted(info, t0),
        refresh_with(info.players, t0),
    );
    let after = after_update(s, info, t0);
    let k = first_match(after, info.address, info.port);
    lemma_first_match(after, info.address, info.port);
    assert forall|i: int|
        0 <= i < after.len() && key_matches(#[trigger] after[i], info.address, info.port)
            implies !is_fresh(after[i], t1) by {
        if i != k {
            if i < k {
                assert(!key_matches(after[i], info.address, info.port));
            } else {
                assert(!key_matches(after[k], after[i].key_address(), after[i].key_port()));
            }
        }
    }
    law_stale_key_is_dropped(after, info.address, info.port, t1);
}

/// After an announcement from a known server its newest sample is at least
/// the announced player count, and exactly that count when the previous
/// sample was more than ten minutes old; a newly listed server starts with six
/// empty samples.
pub proof fn law_newest_sample_covers_announcement(s: Seq<ServerView>, info: ServerView, now: u64)
    requires
        wf(s),
        sample_not_after(s, info, now),
    ensures
        ({
            let after = after_update(s, info, now);
            let i = first_match(after, info.address, info.port);
            let k = first_match(s, info.address, info.port);
            &&& after[i].player_stats.players.len() == PLAYER_HISTORY_LEN
            &&& k >= 0 ==> after[i].player_stats.players.last() >= info.players
            &&& k >= 0 && now - s[k].player_stats.last_update > SAMPLE_WINDOW_SECS
                ==> after[i].player_stats.players.last() == info.players
            &&& k < 0 ==> after[i].player_stats.players == seq![0u16, 0u16, 0u16, 0u16, 0u16, 0u16]
        }),
{
    law_announced_server_is_found(s, info, now);
    law_announcement_keeps_wf(s, info, now);
    lemma_refresh_keeps_key(info.players, now);
    law_upsert_finds(
        s,
        info.address,
        info.port,
        inserted(info, now),
        refresh_with(info.players, now),
    );
    lemma_first_match(s, info.address, info.port);
    let k = first_match(s, info.address, info.port);
    if k >= 0 {
        assert(s[k].player_stats.players.len() == PLAYER_HISTORY_LEN);
        let old_samples = s[k].player_stats.players;
        if now - s[k].player_stats.last_update <= SAMPLE_WINDOW_SECS {
            assert(old_samples.update(5, info.players).last() == info.players);
        }
    }
}

/// The plain list and the list with player statistics, when their servers were
/// last heard from at the same times, keep the servers at the same positions in
/// a cleanup at the same time, in the same order.
pub proof fn law_cleanups_keep_same_positions(
    plain: Seq<PlainServerView>,
    with_stats: Seq<ServerView>,
    now: u64,
)
    requires
        stamps_of(plain) == stamps_of(with_stats),
    ensures
        ({
            let kept = fresh_positions(stamps_of(plain), now);
            &&& plain.filter(fresh_at(now)) == kept.map_values(|i: int| plain[i])
            &&& with_stats.filter(fresh_at(now)) == kept.map_values(|i: int| with_stats[i])
        }),
{
    law_cleanup_keeps_positions(plain, now);
    law_cleanup_keeps_positions(with_stats, now);
}

} // verus!
