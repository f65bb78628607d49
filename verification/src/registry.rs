//! The saved connections, keyed by connection id.

use std::collections::HashMap;
use vstd::std_specs::iter::IteratorSpec;
use vstd::prelude::*;
use crate::connection::{
    pool_settings, spec_pool_settings, spec_summary, summary_from_saved, ConnectionSummary,
    PoolSettings, SavedConnection,
};
use crate::error::{ApiError, ErrorStatus};
use crate::order::{lemma_reordering, sort_by_label, sorted_by_label};

verus! {

/// No two records share a connection id.
pub open spec fn ids_distinct(s: Seq<SavedConnection>) -> bool {
    forall|i: int, j: int|
        0 <= i < j < s.len() ==> (#[trigger] s[i]).connection_id != (#[trigger] s[j]).connection_id
}

/// Some record has connection id `id`.
pub open spec fn has_id(s: Seq<SavedConnection>, id: u128) -> bool {
    exists|i: int| 0 <= i < s.len() && (#[trigger] s[i]).connection_id == id
}

/// The records of `s` keyed by their connection id.
pub open spec fn entries_map(s: Seq<SavedConnection>) -> Map<u128, SavedConnection> {
    Map::new(
        |id: u128| has_id(s, id),
        |id: u128| s[choose|i: int| 0 <= i < s.len() && (#[trigger] s[i]).connection_id == id],
    )
}

/// The map that inserting the records of `s` one after the other, each
/// under its id, leaves: of two records with one id, the later wins.
pub open spec fn map_from_list(s: Seq<SavedConnection>) -> Map<u128, SavedConnection>
    decreases s.len(),
{
    if s.len() == 0 {
        Map::empty()
    } else {
        map_from_list(s.drop_last()).insert(s.last().connection_id, s.last())
    }
}

/// `c` with `version` as the server version it last reported.
pub open spec fn with_server_version(c: SavedConnection, version: String) -> SavedConnection {
    SavedConnection {
        connection_id: c.connection_id,
        label: c.label,
        host: c.host,
        port: c.port,
        username: c.username,
        password: c.password,
        database: c.database,
        max_connections: c.max_connections,
        last_server_version: Some(version),
    }
}

proof fn lemma_entries_map_at(s: Seq<SavedConnection>, i: int)
    requires
        ids_distinct(s),
        0 <= i < s.len(),
    ensures
        entries_map(s).contains_key(s[i].connection_id),
        entries_map(s)[s[i].connection_id] == s[i],
{
    let id = s[i].connection_id;
    assert(has_id(s, id));
    let j = choose|j: int| 0 <= j < s.len() && (#[trigger] s[j]).connection_id == id;
    if j < i {
        assert(s[j].connection_id != s[i].connection_id);
    } else if i < j {
        assert(s[i].connection_id != s[j].connection_id);
    }
}

proof fn lemma_entries_map_push(s: Seq<SavedConnection>, x: SavedConnection)
    requires
        ids_distinct(s),
        !has_id(s, x.connection_id),
    ensures
        ids_distinct(s.push(x)),
        entries_map(s.push(x)) == entries_map(s).insert(x.connection_id, x),
{
    let n = s.push(x);
    assert forall|i: int, j: int|
        0 <= i < j < n.len() implies (#[trigger] n[i]).connection_id != (#[trigger] n[j]).connection_id by {
        if j == s.len() {
            assert(n[i] == s[i]);
        } else {
            assert(n[i] == s[i] && n[j] == s[j]);
        }
    }
    let m = entries_map(s).insert(x.connection_id, x);
    assert forall|id: u128| #[trigger] entries_map(n).contains_key(id) == m.contains_key(id) by {
        if has_id(n, id) {
            let i = choose|i: int| 0 <= i < n.len() && (#[trigger] n[i]).connection_id == id;
            if i < s.len() {
                assert(n[i] == s[i]);
                assert(has_id(s, id));
            }
        }
        if has_id(s, id) {
            let i = choose|i: int| 0 <= i < s.len() && (#[trigger] s[i]).connection_id == id;
            assert(n[i] == s[i]);
            assert(has_id(n, id));
        }
        if id == x.connection_id {
            assert(n[s.len() as int] == x);
            assert(has_id(n, id));
        }
    }
    assert forall|id: u128| #[trigger] m.contains_key(id) implies entries_map(n)[id] == m[id] by {
        if id == x.connection_id {
            lemma_entries_map_at(n, s.len() as int);
        } else {
            let i = choose|i: int| 0 <= i < s.len() && (#[trigger] s[i]).connection_id == id;
            lemma_entries_map_at(s, i);
            assert(n[i] == s[i]);
            lemma_entries_map_at(n, i);
        }
    }
    assert(entries_map(n) =~= m);
}

/// `out` lists the connections of `m`, each once and as saved.
pub open spec fn lists_exactly(out: Seq<SavedConnection>, m: Map<u128, SavedConnection>) -> bool {
    &&& forall|i: int|
        0 <= i < out.len() ==> m.contains_key((#[trigger] out[i]).connection_id) && out[i]
            == m[out[i].connection_id]
    &&& forall|id: u128|
        m.contains_key(id) ==> exists|i: int| 0 <= i < out.len() && (#[trigger] out[i]).connection_id == id
    &&& forall|i: int, j: int|
        0 <= i < j < out.len() ==> (#[trigger] out[i]).connection_id != (#[trigger] out[j]).connection_id
}

proof fn lemma_map_from_list_distinct(s: Seq<SavedConnection>)
    requires
        ids_distinct(s),
    ensures
        map_from_list(s) == entries_map(s),
    decreases s.len(),
{
    if s.len() == 0 {
        assert(entries_map(s) =~= Map::<u128, SavedConnection>::empty());
    } else {
        let d = s.drop_last();
        assert forall|i: int, j: int|
            0 <= i < j < d.len() implies (#[trigger] d[i]).connection_id != (#[trigger] d[j]).connection_id by {
            assert(d[i] == s[i] && d[j] == s[j]);
        }
        lemma_map_from_list_distinct(d);
        assert(!has_id(d, s.last().connection_id)) by {
            if has_id(d, s.last().connection_id) {
                let i = choose|i: int| 0 <= i < d.len() && (#[trigger] d[i]).connection_id == s.last().connection_id;
                assert(d[i] == s[i]);
                assert(s[i].connection_id != s[s.len() - 1].connection_id);
            }
        }
        lemma_entries_map_push(d, s.last());
        assert(d.push(s.last()) =~= s);
    }
}

/// Reading back a listing of the saved connections, as `from_list` does when
/// the configuration file is loaded, gives back the same connections.
pub proof fn lemma_reload_restores(out: Seq<SavedConnection>, m: Map<u128, SavedConnection>)
    requires
        lists_exactly(out, m),
    ensures
        map_from_list(out) == m,
{
    assert(ids_distinct(out));
    lemma_map_from_list_distinct(out);
    assert forall|id: u128| #[trigger] entries_map(out).contains_key(id) == m.contains_key(id) by {
        if has_id(out, id) {
            let i = choose|i: int| 0 <= i < out.len() && (#[trigger] out[i]).connection_id == id;
            assert(m.contains_key(out[i].connection_id));
        }
        if m.contains_key(id) {
            let i = choose|i: int| 0 <= i < out.len() && (#[trigger] out[i]).connection_id == id;
            assert(has_id(out, id));
        }
    }
    assert forall|id: u128| #[trigger] m.contains_key(id) implies entries_map(out)[id] == m[id] by {
        let i = choose|i: int| 0 <= i < out.len() && (#[trigger] out[i]).connection_id == id;
        lemma_entries_map_at(out, i);
    }
    assert(entries_map(out) =~= m);
}

/// Looking a connection up right after saving it gives back that connection.
pub proof fn lemma_lookup_after_insert(m: Map<u128, SavedConnection>, saved: SavedConnection)
    ensures
        m.insert(saved.connection_id, saved).contains_key(saved.connection_id),
        m.insert(saved.connection_id, saved)[saved.connection_id] == saved,
{
}

/// Saving a connection leaves every other connection as it was.
pub proof fn lemma_insert_keeps_others(
    m: Map<u128, SavedConnection>,
    saved: SavedConnection,
    id: u128,
)
    requires
        id != saved.connection_id,
    ensures
        m.insert(saved.connection_id, saved).contains_key(id) == m.contains_key(id),
        m.contains_key(id) ==> m.insert(saved.connection_id, saved)[id] == m[id],
{
}

/// Once a connection is deleted it is no longer found, and deleting it again
/// is refused.
pub proof fn lemma_deleted_not_found(m: Map<u128, SavedConnection>, id: u128)
    ensures
        !m.remove(id).contains_key(id),
        m.remove(id).remove(id) == m.remove(id),
{
    assert(m.remove(id).remove(id) =~= m.remove(id));
}

/// A database pool that is open, with the server version it reported.
pub struct LivePool {
    pub connection_id: u128,
    pub server_version: String,
}

/// The server version that the first open pool for `id` in `live` reported.
pub open spec fn live_version(live: Seq<LivePool>, id: u128) -> Option<String>
    decreases live.len(),
{
    if live.len() == 0 {
        None
    } else if live[0].connection_id == id {
        Some(live[0].server_version)
    } else {
        live_version(live.drop_first(), id)
    }
}

/// How `c` is listed when `live` are the open pools: connected when a pool is
/// open for it, with that pool's server version, else with the last one saved.
pub open spec fn summary_of(c: SavedConnection, live: Seq<LivePool>) -> ConnectionSummary {
    ConnectionSummary {
        connection_id: c.connection_id,
        label: c.label,
        host: c.host,
        port: c.port,
        username: c.username,
        database: c.database,
        server_version: match live_version(live, c.connection_id) {
            Some(v) => Some(v),
            None => c.last_server_version,
        },
        connected: live_version(live, c.connection_id) is Some,
    }
}

/// The server version that the first open pool for `id` in `live` reported.
pub fn find_live_version(live: &Vec<LivePool>, id: u128) -> (r: Option<String>)
    ensures
        r == live_version(live@, id),
{
    let mut i: usize = 0;
    assert(live@.skip(0) =~= live@);
    while i < live.len()
        invariant
            0 <= i <= live.len(),
            live_version(live@, id) == live_version(live@.skip(i as int), id),
        decreases live.len() - i,
    {
        assert(live@.skip(i as int).drop_first() =~= live@.skip(i + 1));
        if live[i].connection_id == id {
            return Some(live[i].server_version.clone());
        }
        i = i + 1;
    }
    None
}

/// The saved connections, each under its own id.
pub struct ConnectionRegistry {
    entries: HashMap<u128, SavedConnection>,
}

impl View for ConnectionRegistry {
    type V = Map<u128, SavedConnection>;

    closed spec fn view(&self) -> Map<u128, SavedConnection> {
        self.entries@
    }
}

/// Facts about the pairs that walking `m` yields: each key once, with its
/// value; each value a connection saved under its own id.
proof fn lemma_walk_facts(pairs: Seq<(&u128, &SavedConnection)>, m: Map<u128, SavedConnection>)
    requires
        pairs.no_duplicates(),
        forall|i: int|
            0 <= i < pairs.len() ==> m.contains_key(*(#[trigger] pairs[i]).0) && m[*pairs[i].0]
                == *pairs[i].1,
        forall|id: u128| m.contains_key(id) ==> m[id].connection_id == id,
    ensures
        forall|i: int| 0 <= i < pairs.len() ==> (*(#[trigger] pairs[i]).1).connection_id == *pairs[i].0,
        forall|a: int, b: int| 0 <= a < b < pairs.len() ==> *(#[trigger] pairs[a]).0 != *(#[trigger] pairs[b]).0,
{
    assert forall|a: int, b: int| 0 <= a < b < pairs.len() implies *(#[trigger] pairs[a]).0 != *(
    #[trigger] pairs[b]).0 by {
        if *pairs[a].0 == *pairs[b].0 {
            assert(pairs[a] == pairs[b]);
        }
    }
}

impl ConnectionRegistry {
    /// The registry's own invariant: each connection is kept under its own id.
    #[verifier::type_invariant]
    spec fn wf(self) -> bool {
        forall|id: u128| #[trigger] self.entries@.contains_key(id) ==> self.entries@[id].connection_id == id
    }

    /// An empty registry.
    pub fn new() -> (r: ConnectionRegistry)
        ensures
            r@ == Map::<u128, SavedConnection>::empty(),
    {
        ConnectionRegistry { entries: HashMap::new() }
    }

    /// The connection saved under `id`, if any.
    pub fn get(&self, id: u128) -> (r: Option<&SavedConnection>)
        ensures
            match r {
                Some(c) => self@.contains_key(id) && *c == self@[id] && c.connection_id == id,
                None => !self@.contains_key(id),
            },
    {
        broadcast use vstd::std_specs::hash::group_hash_axioms;

        proof {
            use_type_invariant(self);
        }
        self.entries.get(&id)
    }

    /// The connection saved under `id`, or "connection not found".
    pub fn lookup(&self, id: u128) -> (r: Result<&SavedConnection, ApiError>)
        ensures
            match r {
                Ok(c) => self@.contains_key(id) && *c == self@[id],
                Err(e) => !self@.contains_key(id) && e.status == ErrorStatus::NotFound
                    && e.message@ == "connection not found"@,
            },
    {
        match self.get(id) {
            Some(c) => Ok(c),
            None => Err(ApiError::not_found("connection not found".to_owned())),
        }
    }

    /// Saves `saved` under its id, replacing (and returning) the connection
    /// saved there before.
    pub fn insert(&mut self, saved: SavedConnection) -> (prev: Option<SavedConnection>)
        ensures
            final(self)@ == old(self)@.insert(saved.connection_id, saved),
            match prev {
                Some(p) => old(self)@.contains_key(saved.connection_id) && p == old(
                    self,
                )@[saved.connection_id],
                None => !old(self)@.contains_key(saved.connection_id),
            },
    {
        broadcast use vstd::std_specs::hash::group_hash_axioms;

        proof {
            use_type_invariant(&*self);
        }
        let id = saved.connection_id;
        let mut entries = HashMap::new();
        std::mem::swap(&mut entries, &mut self.entries);
        let prev = entries.insert(id, saved);
        self.entries = entries;
        prev
    }

    /// Removes (and returns) the connection saved under `id`, if any.
    pub fn remove(&mut self, id: u128) -> (prev: Option<SavedConnection>)
        ensures
            final(self)@ == old(self)@.remove(id),
            match prev {
                Some(p) => old(self)@.contains_key(id) && p == old(self)@[id],
                None => !old(self)@.contains_key(id),
            },
    {
        broadcast use vstd::std_specs::hash::group_hash_axioms;

        proof {
            use_type_invariant(&*self);
        }
        let mut entries = HashMap::new();
        std::mem::swap(&mut entries, &mut self.entries);
        let prev = entries.remove(&id);
        self.entries = entries;
        prev
    }

    /// Deletes the connection saved under `id`; "connection not found" when
    /// there is none, and then nothing changes.
    pub fn delete(&mut self, id: u128) -> (r: Result<SavedConnection, ApiError>)
        ensures
            final(self)@ == old(self)@.remove(id),
            match r {
                Ok(p) => old(self)@.contains_key(id) && p == old(self)@[id],
                Err(e) => !old(self)@.contains_key(id) && e.status == ErrorStatus::NotFound
                    && e.message@ == "connection not found"@,
            },
    {
        match self.remove(id) {
            Some(p) => Ok(p),
            None => Err(ApiError::not_found("connection not found".to_owned())),
        }
    }

    /// Records `version` as the server version last reported for the
    /// connection saved under `id`; nothing changes when there is none.
    pub fn record_server_version(&mut self, id: u128, version: String)
        ensures
            old(self)@.contains_key(id) ==> final(self)@ == old(self)@.insert(
                id,
                with_server_version(old(self)@[id], version),
            ),
            !old(self)@.contains_key(id) ==> final(self)@ == old(self)@,
    {
        broadcast use vstd::std_specs::hash::group_hash_axioms;

        proof {
            use_type_invariant(&*self);
        }
        let mut entries = HashMap::new();
        std::mem::swap(&mut entries, &mut self.entries);
        match entries.remove(&id) {
            Some(c) => {
                let mut c = c;
                c.last_server_version = Some(version);
                entries.insert(id, c);
                self.entries = entries;
                proof {
                    assert(self@ =~= old(self)@.insert(id, with_server_version(old(self)@[id], version)));
                }
            },
            None => {
                self.entries = entries;
                assert(self@ =~= old(self)@);
            },
        }
    }

    /// Saves `saved`, for which a pool was just opened and whose server
    /// reported `server_version`, and returns how the client now sees it.
    pub fn add_connected(&mut self, saved: SavedConnection, server_version: String) -> (s:
        ConnectionSummary)
        ensures
            final(self)@ == old(self)@.insert(
                saved.connection_id,
                with_server_version(saved, server_version),
            ),
            s == spec_summary(with_server_version(saved, server_version), true),
    {
        let mut saved = saved;
        saved.last_server_version = Some(server_version);
        let summary = summary_from_saved(&saved, true);
        self.insert(saved);
        summary
    }

    /// A registry holding the connections of `list`, each under its id; of
    /// two with one id, the later is kept.
    pub fn from_list(list: &Vec<SavedConnection>) -> (r: ConnectionRegistry)
        ensures
            r@ == map_from_list(list@),
    {
        let mut r = ConnectionRegistry::new();
        let mut i: usize = 0;
        while i < list.len()
            invariant
                0 <= i <= list@.len(),
                    r@ == map_from_list(list@.take(i as int)),
            decreases list.len() - i,
        {
            assert(list@.take(i + 1).drop_last() =~= list@.take(i as int));
            let c = list[i].duplicate();
            r.insert(c);
            i = i + 1;
        }
        assert(list@.take(list@.len() as int) =~= list@);
        r
    }

    /// The saved connections as the client lists them (see `summary_of`),
    /// each once, ordered by label.
    pub fn summaries(&self, live: &Vec<LivePool>) -> (out: Vec<ConnectionSummary>)
        ensures
            sorted_by_label(out@),
            forall|i: int|
                0 <= i < out@.len() ==> self@.contains_key((#[trigger] out@[i]).connection_id)
                    && out@[i] == summary_of(self@[out@[i].connection_id], live@),
            forall|id: u128|
                self@.contains_key(id) ==> exists|i: int|
                    0 <= i < out@.len() && (#[trigger] out@[i]).connection_id == id,
            forall|i: int, j: int|
                0 <= i < j < out@.len() ==> (#[trigger] out@[i]).connection_id != (
                #[trigger] out@[j]).connection_id,
    {
        broadcast use vstd::std_specs::hash::group_hash_axioms;

        let ghost m = self.entries@;
        let walk = self.entries.iter();
        let ghost pairs = walk.remaining();
        let mut v: Vec<ConnectionSummary> = Vec::new();
        for entry in it: walk
            invariant
                it.seq() == pairs,
                v@.len() == it.index(),
                forall|j: int| 0 <= j < v@.len() ==> #[trigger] v@[j] == summary_of(*pairs[j].1, live@),
        {
            let c = entry.1;
            let version = find_live_version(live, c.connection_id);
            let mut summary = summary_from_saved(c, version.is_some());
            match version {
                Some(ver) => {
                    summary.server_version = Some(ver);
                },
                None => {},
            }
            v.push(summary);
        }
        let ghost src = Seq::new(pairs.len(), |j: int| summary_of(*pairs[j].1, live@));
        assert(v@ =~= src);
        proof {
            use_type_invariant(self);
            lemma_walk_facts(pairs, m);
        }
        let out = sort_by_label(v);
        proof {
            let key = |x: ConnectionSummary| x.connection_id;
            assert forall|a: int, b: int| 0 <= a < b < src.len() implies key(src[a]) != key(
                src[b],
            ) by {
                assert(*pairs[a].0 != *pairs[b].0);
            }
            lemma_reordering(out@, src, key);
            assert forall|i: int| 0 <= i < out@.len() implies self@.contains_key(
                (#[trigger] out@[i]).connection_id,
            ) && out@[i] == summary_of(self@[out@[i].connection_id], live@) by {
                assert(src.contains(out@[i]));
                let k = choose|k: int| 0 <= k < src.len() && src[k] == out@[i];
                assert(m.contains_key(*pairs[k].0));
            }
            assert forall|id: u128| self@.contains_key(id) implies exists|i: int|
                0 <= i < out@.len() && (#[trigger] out@[i]).connection_id == id by {
                assert(pairs.contains((&id, &m[id])));
                let k = choose|k: int| 0 <= k < pairs.len() && pairs[k] == (&id, &m[id]);
                assert(out@.contains(src[k]));
            }
            assert forall|i: int, j: int| 0 <= i < j < out@.len() implies (
            #[trigger] out@[i]).connection_id != (#[trigger] out@[j]).connection_id by {
                assert(key(out@[i]) != key(out@[j]));
            }
        }
        out
    }

    /// The saved connections as they are written to the configuration file:
    /// each once, ordered by label.
    pub fn persisted(&self) -> (out: Vec<SavedConnection>)
        ensures
            sorted_by_label(out@),
            lists_exactly(out@, self@),
    {
        broadcast use vstd::std_specs::hash::group_hash_axioms;

        let ghost m = self.entries@;
        let walk = self.entries.iter();
        let ghost pairs = walk.remaining();
        let mut v: Vec<SavedConnection> = Vec::new();
        for entry in it: walk
            invariant
                it.seq() == pairs,
                v@.len() == it.index(),
                forall|j: int| 0 <= j < v@.len() ==> #[trigger] v@[j] == *pairs[j].1,
        {
            v.push(entry.1.duplicate());
        }
        let ghost src = Seq::new(pairs.len(), |j: int| *pairs[j].1);
        assert(v@ =~= src);
        proof {
            use_type_invariant(self);
            lemma_walk_facts(pairs, m);
        }
        let out = sort_by_label(v);
        proof {
            let key = |x: SavedConnection| x.connection_id;
            assert forall|a: int, b: int| 0 <= a < b < src.len() implies key(src[a]) != key(
                src[b],
            ) by {
                assert(*pairs[a].0 != *pairs[b].0);
            }
            lemma_reordering(out@, src, key);
            assert forall|i: int| 0 <= i < out@.len() implies self@.contains_key(
                (#[trigger] out@[i]).connection_id,
            ) && out@[i] == self@[out@[i].connection_id] by {
                assert(src.contains(out@[i]));
                let k = choose|k: int| 0 <= k < src.len() && src[k] == out@[i];
                assert(m.contains_key(*pairs[k].0));
            }
            assert forall|id: u128| self@.contains_key(id) implies exists|i: int|
                0 <= i < out@.len() && (#[trigger] out@[i]).connection_id == id by {
                assert(pairs.contains((&id, &m[id])));
                let k = choose|k: int| 0 <= k < pairs.len() && pairs[k] == (&id, &m[id]);
                assert(out@.contains(src[k]));
            }
            assert forall|i: int, j: int| 0 <= i < j < out@.len() implies (
            #[trigger] out@[i]).connection_id != (#[trigger] out@[j]).connection_id by {
                assert(key(out@[i]) != key(out@[j]));
            }
        }
        out
    }
}

/// The database pools that are open, with the server version each reported.
pub struct OpenPools {
    versions: HashMap<u128, String>,
}

impl View for OpenPools {
    type V = Map<u128, String>;

    closed spec fn view(&self) -> Map<u128, String> {
        self.versions@
    }
}

proof fn lemma_live_version_at(s: Seq<LivePool>, i: int, id: u128)
    requires
        0 <= i < s.len(),
        s[i].connection_id == id,
        forall|k: int| 0 <= k < i ==> (#[trigger] s[k]).connection_id != id,
    ensures
        live_version(s, id) == Some(s[i].server_version),
    decreases i,
{
    if i > 0 {
        assert(s[0].connection_id != id);
        assert forall|k: int| 0 <= k < i - 1 implies (#[trigger] s.drop_first()[k]).connection_id
            != id by {
            assert(s.drop_first()[k] == s[k + 1]);
        }
        lemma_live_version_at(s.drop_first(), i - 1, id);
    }
}

proof fn lemma_live_version_none(s: Seq<LivePool>, id: u128)
    requires
        forall|k: int| 0 <= k < s.len() ==> (#[trigger] s[k]).connection_id != id,
    ensures
        live_version(s, id) is None,
    decreases s.len(),
{
    if s.len() > 0 {
        assert(s[0].connection_id != id);
        assert forall|k: int| 0 <= k < s.len() - 1 implies (
        #[trigger] s.drop_first()[k]).connection_id != id by {
            assert(s.drop_first()[k] == s[k + 1]);
        }
        lemma_live_version_none(s.drop_first(), id);
    }
}

impl OpenPools {
    /// No pool open.
    pub fn new() -> (r: OpenPools)
        ensures
            r@ == Map::<u128, String>::empty(),
    {
        OpenPools { versions: HashMap::new() }
    }

    /// Whether a pool is open for `id`.
    pub fn is_open(&self, id: u128) -> (b: bool)
        ensures
            b == self@.contains_key(id),
    {
        broadcast use vstd::std_specs::hash::group_hash_axioms;

        self.versions.contains_key(&id)
    }

    /// Records that a pool is open for `id`, whose server reported `version`.
    pub fn record_open(&mut self, id: u128, version: String)
        ensures
            final(self)@ == old(self)@.insert(id, version),
    {
        broadcast use vstd::std_specs::hash::group_hash_axioms;

        self.versions.insert(id, version);
    }

    /// Records that the pool for `id` is closed; whether one was open.
    pub fn close(&mut self, id: u128) -> (was_open: bool)
        ensures
            final(self)@ == old(self)@.remove(id),
            was_open == old(self)@.contains_key(id),
    {
        broadcast use vstd::std_specs::hash::group_hash_axioms;

        self.versions.remove(&id).is_some()
    }

    /// The open pools as `summaries` takes them: for each id, the server
    /// version of its open pool, if any.
    pub fn live(&self) -> (out: Vec<LivePool>)
        ensures
            forall|id: u128|
                #[trigger] live_version(out@, id) == if self@.contains_key(id) {
                    Some(self@[id])
                } else {
                    None
                },
    {
        broadcast use vstd::std_specs::hash::group_hash_axioms;

        let ghost m = self.versions@;
        let walk = self.versions.iter();
        let ghost pairs = walk.remaining();
        let mut out: Vec<LivePool> = Vec::new();
        for entry in it: walk
            invariant
                it.seq() == pairs,
                out@.len() == it.index(),
                forall|j: int|
                    0 <= j < out@.len() ==> (#[trigger] out@[j]).connection_id == *pairs[j].0
                        && out@[j].server_version == *pairs[j].1,
        {
            out.push(LivePool { connection_id: *entry.0, server_version: entry.1.clone() });
        }
        proof {
            assert forall|a: int, b: int| 0 <= a < b < pairs.len() implies *(
            #[trigger] pairs[a]).0 != *(#[trigger] pairs[b]).0 by {
                assert(m.contains_key(*pairs[a].0) && m[*pairs[a].0] == *pairs[a].1);
                assert(m.contains_key(*pairs[b].0) && m[*pairs[b].0] == *pairs[b].1);
                if *pairs[a].0 == *pairs[b].0 {
                    assert(pairs[a] == pairs[b]);
                }
            }
            assert forall|id: u128|
                #[trigger] live_version(out@, id) == if m.contains_key(id) {
                    Some(m[id])
                } else {
                    None
                } by {
                if m.contains_key(id) {
                    assert(pairs.contains((&id, &m[id])));
                    let k = choose|k: int| 0 <= k < pairs.len() && pairs[k] == (&id, &m[id]);
                    assert forall|j: int| 0 <= j < k implies (#[trigger] out@[j]).connection_id
                        != id by {
                        assert(*pairs[j].0 != *pairs[k].0);
                    }
                    lemma_live_version_at(out@, k, id);
                } else {
                    assert forall|j: int| 0 <= j < out@.len() implies (
                    #[trigger] out@[j]).connection_id != id by {
                        assert(m.contains_key(*pairs[j].0));
                    }
                    lemma_live_version_none(out@, id);
                }
            }
        }
        out
    }
}

/// How a request gets a pool for a connection.
pub enum PoolStep {
    /// A pool is open for it: use that one.
    UseOpen,
    /// None is open: open one with these settings.
    Open(PoolSettings),
}

/// The step for a request on connection `id`, with `m` the saved connections
/// and `open` the open pools: an open pool is used; otherwise a saved
/// connection gets a pool opened with its settings; otherwise the request is
/// answered "connection not found".
pub open spec fn spec_pool_step(
    m: Map<u128, SavedConnection>,
    open: Map<u128, String>,
    id: u128,
    r: Result<PoolStep, ApiError>,
) -> bool {
    if open.contains_key(id) {
        r matches Ok(PoolStep::UseOpen)
    } else if m.contains_key(id) {
        r matches Ok(PoolStep::Open(p)) && spec_pool_settings(m[id], p)
    } else {
        r matches Err(e) && e.status == ErrorStatus::NotFound && e.message@
            == "connection not found"@
    }
}

impl ConnectionRegistry {
    /// How a request on connection `id` gets its pool.
    pub fn pool_step(&self, open: &OpenPools, id: u128) -> (r: Result<PoolStep, ApiError>)
        ensures
            spec_pool_step(self@, open@, id, r),
    {
        if open.is_open(id) {
            return Ok(PoolStep::UseOpen);
        }
        match self.lookup(id) {
            Ok(c) => Ok(PoolStep::Open(pool_settings(c))),
            Err(e) => Err(e),
        }
    }
}

/// Once a connection is deleted and its pool closed, a request on it gets no
/// pool, neither the old one nor a new one: it is answered "connection not
/// found".
pub proof fn lemma_deleted_connection_unusable(
    m: Map<u128, SavedConnection>,
    open: Map<u128, String>,
    id: u128,
    r: Result<PoolStep, ApiError>,
)
    requires
        spec_pool_step(m.remove(id), open.remove(id), id, r),
    ensures
        r matches Err(e) && e.status == ErrorStatus::NotFound && e.message@
            == "connection not found"@,
{
}

proof fn lemma_live_version_some(s: Seq<LivePool>, id: u128)
    requires
        exists|j: int| 0 <= j < s.len() && (#[trigger] s[j]).connection_id == id,
    ensures
        live_version(s, id) is Some,
    decreases s.len(),
{
    if s[0].connection_id != id {
        let j = choose|j: int| 0 <= j < s.len() && (#[trigger] s[j]).connection_id == id;
        assert(s.drop_first()[j - 1] == s[j]);
        lemma_live_version_some(s.drop_first(), id);
    }
}

/// How a saved connection is listed: connected exactly when some open pool is
/// for its id; then with the server version of the first such pool,
/// otherwise with the server version it last saved; every other field as
/// saved.
pub proof fn lemma_listing_reflects_open_pools(c: SavedConnection, live: Seq<LivePool>)
    ensures
        summary_of(c, live).connected <==> exists|j: int|
            0 <= j < live.len() && (#[trigger] live[j]).connection_id == c.connection_id,
        (forall|j: int| 0 <= j < live.len() ==> (#[trigger] live[j]).connection_id != c.connection_id)
            ==> summary_of(c, live).server_version == c.last_server_version,
        forall|j: int|
            0 <= j < live.len() && (#[trigger] live[j]).connection_id == c.connection_id && (forall|
                k: int,
            | 0 <= k < j ==> (#[trigger] live[k]).connection_id != c.connection_id)
                ==> summary_of(c, live).server_version == Some(live[j].server_version),
        summary_of(c, live).connection_id == c.connection_id,
        summary_of(c, live).label == c.label,
        summary_of(c, live).host == c.host,
        summary_of(c, live).port == c.port,
        summary_of(c, live).username == c.username,
        summary_of(c, live).database == c.database,
{
    let id = c.connection_id;
    if exists|j: int| 0 <= j < live.len() && (#[trigger] live[j]).connection_id == id {
        lemma_live_version_some(live, id);
    } else {
        lemma_live_version_none(live, id);
    }
    assert forall|j: int|
        0 <= j < live.len() && (#[trigger] live[j]).connection_id == id && (forall|k: int|
            0 <= k < j ==> (#[trigger] live[k]).connection_id != id) implies summary_of(
        c,
        live,
    ).server_version == Some(live[j].server_version) by {
        lemma_live_version_at(live, j, id);
    }
}

} // verus!
