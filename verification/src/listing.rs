//! What every server list of the master server shares: servers are known by
//! their address and port, an announcement refreshes the first server with
//! its key or appends a new one, and a cleanup keeps, in order, the servers
//! heard from within the last twelve seconds.

use vstd::prelude::*;

verus! {

/// The number of seconds a server stays listed without a new announcement.
pub const STALE_AFTER_SECS: u64 = 12;

/// A listed server as the list rules see it.
pub trait Listed {
    /// The announced address.
    spec fn key_address(&self) -> Seq<char>;

    /// The announced port.
    spec fn key_port(&self) -> u16;

    /// When the server was last heard from, in seconds since the UNIX epoch.
    spec fn stamp(&self) -> u64;

    /// The announced player count.
    spec fn player_count(&self) -> u16;
}

/// `e` is the server at `address` and `port`.
pub open spec fn key_matches<T: Listed>(e: T, address: Seq<char>, port: u16) -> bool {
    e.key_address() == address && e.key_port() == port
}

/// The index of the first server at `address` and `port`, or -1.
pub open spec fn first_match<T: Listed>(s: Seq<T>, address: Seq<char>, port: u16) -> int
    decreases s.len(),
{
    if s.len() == 0 {
        -1
    } else {
        let f = first_match(s.drop_last(), address, port);
        if f >= 0 {
            f
        } else if key_matches(s.last(), address, port) {
            s.len() - 1
        } else {
            -1
        }
    }
}

/// No two servers share an address and a port.
pub open spec fn unique_keys<T: Listed>(s: Seq<T>) -> bool {
    forall|i: int, j: int|
        0 <= i < j < s.len() ==> !key_matches(
            #[trigger] s[i],
            #[trigger] s[j].key_address(),
            s[j].key_port(),
        )
}

/// The list after an announcement for `address` and `port`: the first server
/// with that key becomes `refresh` of itself, or `added` is appended when
/// there is none.
pub open spec fn upsert<T: Listed>(
    s: Seq<T>,
    address: Seq<char>,
    port: u16,
    added: T,
    refresh: spec_fn(T) -> T,
) -> Seq<T> {
    let i = first_match(s, address, port);
    if i < 0 {
        s.push(added)
    } else {
        s.update(i, refresh(s[i]))
    }
}

/// `refresh` keeps the address and port of every server.
pub open spec fn keeps_key<T: Listed>(refresh: spec_fn(T) -> T) -> bool {
    forall|e: T|
        #[trigger] refresh(e).key_address() == e.key_address() && refresh(e).key_port()
            == e.key_port()
}

/// The sum of the player counts of all servers.
pub open spec fn total_players<T: Listed>(s: Seq<T>) -> int
    decreases s.len(),
{
    if s.len() == 0 {
        0
    } else {
        total_players(s.drop_last()) + s.last().player_count()
    }
}

/// A server last heard from at most twelve seconds before `now`.
pub open spec fn is_fresh<T: Listed>(e: T, now: u64) -> bool {
    now - e.stamp() <= STALE_AFTER_SECS
}

/// [`is_fresh`] as a predicate on servers.
pub open spec fn fresh_at<T: Listed>(now: u64) -> spec_fn(T) -> bool {
    |e: T| is_fresh(e, now)
}

/// No server was last heard from after `now`.
pub open spec fn not_after<T: Listed>(s: Seq<T>, now: u64) -> bool {
    forall|i: int| 0 <= i < s.len() ==> #[trigger] s[i].stamp() <= now
}

/// The times the servers were last heard from, in list order.
pub open spec fn stamps_of<T: Listed>(s: Seq<T>) -> Seq<u64> {
    s.map_values(|e: T| e.stamp())
}

/// The positions, in increasing order, of the times that are at most twelve
/// seconds before `now`.
pub open spec fn fresh_positions(stamps: Seq<u64>, now: u64) -> Seq<int>
    decreases stamps.len(),
{
    if stamps.len() == 0 {
        Seq::<int>::empty()
    } else {
        let f = fresh_positions(stamps.drop_last(), now);
        if now - stamps.last() <= STALE_AFTER_SECS {
            f.push(stamps.len() - 1)
        } else {
            f
        }
    }
}

pub proof fn lemma_first_match<T: Listed>(s: Seq<T>, address: Seq<char>, port: u16)
    ensures
        -1 <= first_match(s, address, port) < s.len(),
        first_match(s, address, port) >= 0 ==> key_matches(
            s[first_match(s, address, port)],
            address,
            port,
        ),
        forall|j: int|
            0 <= j < s.len() && (first_match(s, address, port) < 0 || j < first_match(
                s,
                address,
                port,
            )) ==> !key_matches(#[trigger] s[j], address, port),
    decreases s.len(),
{
    if s.len() > 0 {
        lemma_first_match(s.drop_last(), address, port);
        assert forall|j: int|
            0 <= j < s.len() - 1 implies #[trigger] s[j] == s.drop_last()[j] by {}
    }
}

/// The first match is the entry that matches with none matching before it.
pub proof fn lemma_first_match_at<T: Listed>(s: Seq<T>, address: Seq<char>, port: u16, i: int)
    requires
        0 <= i < s.len(),
        key_matches(s[i], address, port),
        forall|j: int| 0 <= j < i ==> !key_matches(#[trigger] s[j], address, port),
    ensures
        first_match(s, address, port) == i,
{
    lemma_first_match(s, address, port);
    let f = first_match(s, address, port);
    if f < 0 {
        assert(!key_matches(s[i], address, port));
    } else if f < i {
        assert(!key_matches(s[f], address, port));
    } else if f > i {
        assert(!key_matches(s[i], address, port));
    }
}

pub proof fn lemma_no_match<T: Listed>(s: Seq<T>, address: Seq<char>, port: u16)
    requires
        forall|j: int| 0 <= j < s.len() ==> !key_matches(#[trigger] s[j], address, port),
    ensures
        first_match(s, address, port) == -1,
{
    lemma_first_match(s, address, port);
    let f = first_match(s, address, port);
    if f >= 0 {
        assert(!key_matches(s[f], address, port));
    }
}

pub proof fn lemma_total_players_prefix<T: Listed>(s: Seq<T>, i: int)
    requires
        0 <= i <= s.len(),
    ensures
        0 <= total_players(s.take(i)) <= total_players(s),
    decreases s.len(),
{
    if i == s.len() {
        assert(s.take(i) =~= s);
        lemma_total_players_nonneg(s);
    } else {
        assert(s.drop_last().take(i) =~= s.take(i));
        lemma_total_players_prefix(s.drop_last(), i);
    }
}

proof fn lemma_total_players_nonneg<T: Listed>(s: Seq<T>)
    ensures
        total_players(s) >= 0,
    decreases s.len(),
{
    if s.len() > 0 {
        lemma_total_players_nonneg(s.drop_last());
    }
}

/// After an announcement, looking up its address and port finds the
/// refreshed server, or the appended one when the key was unknown.
pub proof fn law_upsert_finds<T: Listed>(
    s: Seq<T>,
    address: Seq<char>,
    port: u16,
    added: T,
    refresh: spec_fn(T) -> T,
)
    requires
        key_matches(added, address, port),
        keeps_key(refresh),
    ensures
        ({
            let r = upsert(s, address, port, added, refresh);
            let k = first_match(s, address, port);
            let i = first_match(r, address, port);
            &&& 0 <= i < r.len()
            &&& k < 0 ==> i == s.len() && r[i] == added
            &&& k >= 0 ==> i == k && r[i] == refresh(s[k])
        }),
{
    lemma_first_match(s, address, port);
    let r = upsert(s, address, port, added, refresh);
    let k = first_match(s, address, port);
    if k < 0 {
        assert forall|j: int| 0 <= j < s.len() implies !key_matches(
            #[trigger] r[j],
            address,
            port,
        ) by {
            assert(r[j] == s[j]);
        }
        lemma_first_match_at(r, address, port, s.len() as int);
    } else {
        assert(refresh(s[k]).key_address() == s[k].key_address());
        assert forall|j: int| 0 <= j < k implies !key_matches(#[trigger] r[j], address, port) by {
            assert(r[j] == s[j]);
        }
        lemma_first_match_at(r, address, port, k);
    }
}

/// An announcement leaves every other key where it was, with the same server.
pub proof fn law_upsert_leaves_others<T: Listed>(
    s: Seq<T>,
    address: Seq<char>,
    port: u16,
    added: T,
    refresh: spec_fn(T) -> T,
    other_address: Seq<char>,
    other_port: u16,
)
    requires
        key_matches(added, address, port),
        keeps_key(refresh),
        !(other_address == address && other_port == port),
    ensures
        ({
            let r = upsert(s, address, port, added, refresh);
            let f = first_match(s, other_address, other_port);
            &&& first_match(r, other_address, other_port) == f
            &&& f >= 0 ==> r[f] == s[f]
        }),
{
    lemma_first_match(s, address, port);
    lemma_first_match(s, other_address, other_port);
    let r = upsert(s, address, port, added, refresh);
    let k = first_match(s, address, port);
    let f = first_match(s, other_address, other_port);
    if k >= 0 {
        assert(refresh(s[k]).key_address() == s[k].key_address());
    }
    assert forall|j: int| 0 <= j < s.len() implies (key_matches(
        #[trigger] r[j],
        other_address,
        other_port,
    ) <==> key_matches(s[j], other_address, other_port)) by {
        if j == k {
            assert(key_matches(s[j], address, port));
        }
    }
    if k < 0 {
        assert(!key_matches(r[s.len() as int], other_address, other_port));
    }
    if f >= 0 {
        assert forall|j: int| 0 <= j < f implies !key_matches(
            #[trigger] r[j],
            other_address,
            other_port,
        ) by {
            assert(!key_matches(s[j], other_address, other_port));
        }
        lemma_first_match_at(r, other_address, other_port, f);
        assert(f != k);
    } else {
        assert forall|j: int| 0 <= j < r.len() implies !key_matches(
            #[trigger] r[j],
            other_address,
            other_port,
        ) by {
            if j < s.len() {
                assert(!key_matches(s[j], other_address, other_port));
            }
        }
        lemma_no_match(r, other_address, other_port);
    }
}

/// An announcement adds a server exactly when its key was unknown.
pub proof fn law_upsert_length<T: Listed>(
    s: Seq<T>,
    address: Seq<char>,
    port: u16,
    added: T,
    refresh: spec_fn(T) -> T,
)
    ensures
        upsert(s, address, port, added, refresh).len() == s.len() + if first_match(
            s,
            address,
            port,
        ) < 0 {
            1int
        } else {
            0int
        },
{
    lemma_first_match(s, address, port);
}

/// Announcements never give two servers the same address and port.
pub proof fn law_upsert_keeps_keys_unique<T: Listed>(
    s: Seq<T>,
    address: Seq<char>,
    port: u16,
    added: T,
    refresh: spec_fn(T) -> T,
)
    requires
        unique_keys(s),
        key_matches(added, address, port),
        keeps_key(refresh),
    ensures
        unique_keys(upsert(s, address, port, added, refresh)),
{
    lemma_first_match(s, address, port);
    let r = upsert(s, address, port, added, refresh);
    let k = first_match(s, address, port);
    if k >= 0 {
        assert(refresh(s[k]).key_address() == s[k].key_address());
    }
    assert forall|i: int, j: int| 0 <= i < j < r.len() implies !key_matches(
        #[trigger] r[i],
        #[trigger] r[j].key_address(),
        r[j].key_port(),
    ) by {
        if k < 0 && j == s.len() {
            assert(!key_matches(s[i], address, port));
        } else {
            assert(r[i].key_address() == s[i].key_address() && r[i].key_port() == s[i].key_port());
            assert(r[j].key_address() == s[j].key_address() && r[j].key_port() == s[j].key_port());
            assert(!key_matches(s[i], s[j].key_address(), s[j].key_port()));
        }
    }
}

/// Cleaning up never gives two servers the same address and port.
pub proof fn law_cleanup_keeps_keys_unique<T: Listed>(s: Seq<T>, now: u64)
    requires
        unique_keys(s),
    ensures
        unique_keys(s.filter(fresh_at(now))),
    decreases s.len(),
{
    reveal(Seq::filter);
    if s.len() > 0 {
        let d = s.drop_last();
        assert forall|i: int, j: int| 0 <= i < j < d.len() implies !key_matches(
            #[trigger] d[i],
            #[trigger] d[j].key_address(),
            d[j].key_port(),
        ) by {
            assert(d[i] == s[i] && d[j] == s[j]);
        }
        law_cleanup_keeps_keys_unique(d, now);
        let sub = d.filter(fresh_at(now));
        let out = s.filter(fresh_at(now));
        if fresh_at::<T>(now)(s.last()) {
            assert forall|i: int, j: int| 0 <= i < j < out.len() implies !key_matches(
                #[trigger] out[i],
                #[trigger] out[j].key_address(),
                out[j].key_port(),
            ) by {
                if j == sub.len() {
                    assert(sub.contains(sub[i]));
                    d.lemma_filter_contains_rev(fresh_at(now), sub[i]);
                    let m = choose|m: int| 0 <= m < d.len() && d[m] == sub[i];
                    assert(s[m] == d[m]);
                    assert(!key_matches(
                        s[m],
                        s[s.len() - 1].key_address(),
                        s[s.len() - 1].key_port(),
                    ));
                } else {
                    assert(out[i] == sub[i] && out[j] == sub[j]);
                }
            }
        }
    }
}

/// Cleaning up keeps exactly the servers heard from within the last twelve
/// seconds.
pub proof fn law_cleanup_keeps_exactly_fresh<T: Listed>(s: Seq<T>, now: u64)
    ensures
        forall|i: int|
            0 <= i < s.filter(fresh_at(now)).len() ==> is_fresh(
                #[trigger] s.filter(fresh_at(now))[i],
                now,
            ) && s.contains(s.filter(fresh_at(now))[i]),
        forall|i: int|
            0 <= i < s.len() && is_fresh(s[i], now) ==> #[trigger] s.filter(
                fresh_at(now),
            ).contains(s[i]),
{
    assert forall|i: int| 0 <= i < s.filter(fresh_at(now)).len() implies is_fresh(
        #[trigger] s.filter(fresh_at(now))[i],
        now,
    ) && s.contains(s.filter(fresh_at(now))[i]) by {
        s.lemma_filter_pred(fresh_at(now), i);
        assert(s.filter(fresh_at(now)).contains(s.filter(fresh_at(now))[i]));
        s.lemma_filter_contains_rev(fresh_at(now), s.filter(fresh_at(now))[i]);
    }
    assert forall|i: int| 0 <= i < s.len() && is_fresh(s[i], now) implies #[trigger] s.filter(
        fresh_at(now),
    ).contains(s[i]) by {
        s.lemma_filter_contains(fresh_at(now), i);
    }
}

/// A key all of whose servers were last heard from more than twelve seconds
/// before `now` is gone after a cleanup at `now`.
pub proof fn law_stale_key_is_dropped<T: Listed>(
    s: Seq<T>,
    address: Seq<char>,
    port: u16,
    now: u64,
)
    requires
        forall|i: int| 0 <= i < s.len() && key_matches(#[trigger] s[i], address, port) ==> !is_fresh(
            s[i],
            now,
        ),
    ensures
        forall|i: int|
            0 <= i < s.filter(fresh_at(now)).len() ==> !key_matches(
                #[trigger] s.filter(fresh_at(now))[i],
                address,
                port,
            ),
{
    law_cleanup_keeps_exactly_fresh(s, now);
    assert forall|i: int| 0 <= i < s.filter(fresh_at(now)).len() implies !key_matches(
        #[trigger] s.filter(fresh_at(now))[i],
        address,
        port,
    ) by {
        let e = s.filter(fresh_at(now))[i];
        assert(is_fresh(e, now) && s.contains(e));
        let m = choose|m: int| 0 <= m < s.len() && s[m] == e;
        if key_matches(e, address, port) {
            assert(!is_fresh(s[m], now));
        }
    }
}

/// The positions of fresh times lie within the list, in increasing order.
pub proof fn lemma_fresh_positions(stamps: Seq<u64>, now: u64)
    ensures
        forall|k: int|
            0 <= k < fresh_positions(stamps, now).len() ==> 0 <= #[trigger] fresh_positions(
                stamps,
                now,
            )[k] < stamps.len(),
    decreases stamps.len(),
{
    if stamps.len() > 0 {
        let d = stamps.drop_last();
        lemma_fresh_positions(d, now);
        let f = fresh_positions(d, now);
        let p = fresh_positions(stamps, now);
        assert forall|k: int| 0 <= k < p.len() implies 0 <= #[trigger] p[k] < stamps.len() by {
            if k < f.len() {
                assert(p[k] == f[k]);
            }
        }
    }
}

/// A cleanup keeps the servers at the positions whose times are fresh, and
/// nothing else: the kept list is the list read at [`fresh_positions`].
pub proof fn law_cleanup_keeps_positions<T: Listed>(s: Seq<T>, now: u64)
    ensures
        s.filter(fresh_at(now)) == fresh_positions(stamps_of(s), now).map_values(|i: int| s[i]),
    decreases s.len(),
{
    reveal(Seq::filter);
    if s.len() > 0 {
        let d = s.drop_last();
        law_cleanup_keeps_positions(d, now);
        assert(stamps_of(s).drop_last() =~= stamps_of(d));
        let pd = fresh_positions(stamps_of(d), now);
        lemma_fresh_positions(stamps_of(d), now);
        assert forall|k: int| 0 <= k < pd.len() implies #[trigger] s[pd[k]] == d[pd[k]] by {
            assert(0 <= pd[k] < d.len());
        }
        assert(pd.map_values(|i: int| s[i]) =~= pd.map_values(|i: int| d[i]));
        let ps = fresh_positions(stamps_of(s), now);
        assert(stamps_of(s).last() == s.last().stamp());
        if is_fresh(s.last(), now) {
            assert(ps.map_values(|i: int| s[i]) =~= pd.map_values(|i: int| s[i]).push(s.last()));
        } else {
            assert(ps.map_values(|i: int| s[i]) =~= pd.map_values(|i: int| s[i]));
        }
    }
}

} // verus!
