use vstd::prelude::*;
use crate::config::{same_config, ConnectionConfig};
use crate::error::{DbError, ErrorKind};
use crate::text::{concat, text_eq};

verus! {

/// An entry of the registry: key, configuration, live client if any.
pub type Entry<C> = (String, ConnectionConfig, Option<C>);

/// The registry's contents: for each connection id, its configuration and
/// its live client, if any.
pub type RegistryMap<C> = Map<Seq<char>, (ConnectionConfig, Option<C>)>;

pub open spec fn entries_map<C>(s: Seq<Entry<C>>) -> RegistryMap<C>
    decreases s.len(),
{
    if s.len() == 0 {
        Map::empty()
    } else {
        entries_map(s.drop_last()).insert(s.last().0@, (s.last().1, s.last().2))
    }
}

pub open spec fn unique_keys<C>(s: Seq<Entry<C>>) -> bool {
    forall|i: int, j: int| 0 <= i < s.len() && 0 <= j < s.len() && i != j ==> #[trigger] s[i].0@ != #[trigger] s[j].0@
}

/// What `connect` asks of its caller.
pub enum ConnectStep {
    /// A live client exists: nothing is dialled
    AlreadyConnected,
    /// No live client: build one from this configuration, connect it, and
    /// hand it to `attach`
    NeedsClient(ConnectionConfig),
}

/// Named connection configurations, each with at most one live client.
/// `C` is the live client type of the surrounding application.
pub struct ConnectionManager<C> {
    entries: Vec<Entry<C>>,
}

/// The registry after `attach(id, c)`: the client is stored only for a known
/// id that has no live client yet.
pub open spec fn attach_spec<C>(m: RegistryMap<C>, id: Seq<char>, c: C) -> RegistryMap<C> {
    if m.contains_key(id) && m[id].1 is None {
        m.insert(id, (m[id].0, Some(c)))
    } else {
        m
    }
}

/// The registry after `disconnect(id)`.
pub open spec fn disconnect_spec<C>(m: RegistryMap<C>, id: Seq<char>) -> RegistryMap<C> {
    if m.contains_key(id) && m[id].1 is Some {
        m.insert(id, (m[id].0, None))
    } else {
        m
    }
}

/// Whether `connect(id)` reports a live client (so dials nothing).
pub open spec fn connect_finds_live<C>(m: RegistryMap<C>, id: Seq<char>) -> bool {
    m.contains_key(id) && m[id].1 is Some
}

/// `c` is the live client of some id.
pub open spec fn was_live<C>(m: RegistryMap<C>, c: C) -> bool {
    exists|k: Seq<char>| #[trigger] m.contains_key(k) && m[k].1 == Some(c)
}

/// `c` is a copy of the configuration stored under some id.
pub open spec fn is_listed<C>(m: RegistryMap<C>, c: ConnectionConfig) -> bool {
    exists|k: Seq<char>| #[trigger] m.contains_key(k) && same_config(c, m[k].0)
}

pub open spec fn not_found_message(id: Seq<char>) -> Seq<char> {
    "Connection not found: "@ + id
}

pub open spec fn not_connected_message(id: Seq<char>) -> Seq<char> {
    "Not connected to database: "@ + id
}

proof fn lemma_dom<C>(s: Seq<Entry<C>>, k: Seq<char>)
    ensures
        entries_map(s).contains_key(k) <==> exists|j: int| 0 <= j < s.len() && #[trigger] s[j].0@ == k,
    decreases s.len(),
{
    if s.len() > 0 {
        lemma_dom(s.drop_last(), k);
        if entries_map(s.drop_last()).contains_key(k) {
            let j = choose|j: int| 0 <= j < s.drop_last().len() && #[trigger] s.drop_last()[j].0@ == k;
            assert(s[j].0@ == k);
        }
        if exists|j: int| 0 <= j < s.len() && #[trigger] s[j].0@ == k {
            let j = choose|j: int| 0 <= j < s.len() && #[trigger] s[j].0@ == k;
            if j < s.len() - 1 {
                assert(s.drop_last()[j].0@ == k);
            }
        }
    }
}

proof fn lemma_at<C>(s: Seq<Entry<C>>, i: int)
    requires
        unique_keys(s),
        0 <= i < s.len(),
    ensures
        entries_map(s).contains_key(s[i].0@),
        entries_map(s)[s[i].0@] == (s[i].1, s[i].2),
    decreases s.len(),
{
    if i < s.len() - 1 {
        assert(unique_keys(s.drop_last()));
        lemma_at(s.drop_last(), i);
        assert(s[i].0@ != s[s.len() - 1].0@);
        assert(s.drop_last()[i] == s[i]);
    }
}

proof fn lemma_update<C>(s: Seq<Entry<C>>, i: int, e: Entry<C>)
    requires
        unique_keys(s),
        0 <= i < s.len(),
        e.0@ == s[i].0@,
    ensures
        unique_keys(s.update(i, e)),
        entries_map(s.update(i, e)) == entries_map(s).insert(e.0@, (e.1, e.2)),
{
    let t = s.update(i, e);
    assert(unique_keys(t)) by {
        assert forall|a: int, b: int| 0 <= a < t.len() && 0 <= b < t.len() && a != b implies #[trigger] t[a].0@
            != #[trigger] t[b].0@ by {
            assert(t[a].0@ == s[a].0@);
            assert(t[b].0@ == s[b].0@);
        };
    };
    let m = entries_map(s).insert(e.0@, (e.1, e.2));
    assert forall|k: Seq<char>| #[trigger] entries_map(t).contains_key(k) == m.contains_key(k) by {
        lemma_dom(t, k);
        lemma_dom(s, k);
        if exists|j: int| 0 <= j < t.len() && #[trigger] t[j].0@ == k {
            let j = choose|j: int| 0 <= j < t.len() && #[trigger] t[j].0@ == k;
            assert(s[j].0@ == k);
        }
        if exists|j: int| 0 <= j < s.len() && #[trigger] s[j].0@ == k {
            let j = choose|j: int| 0 <= j < s.len() && #[trigger] s[j].0@ == k;
            assert(t[j].0@ == k);
        }
    };
    assert forall|k: Seq<char>| #[trigger] entries_map(t).contains_key(k) implies entries_map(t)[k] == m[k] by {
        lemma_dom(t, k);
        let j = choose|j: int| 0 <= j < t.len() && #[trigger] t[j].0@ == k;
        lemma_at(t, j);
        if j != i {
            lemma_at(s, j);
        }
    };
    assert(entries_map(t) =~= m);
}

proof fn lemma_remove<C>(s: Seq<Entry<C>>, i: int)
    requires
        unique_keys(s),
        0 <= i < s.len(),
    ensures
        unique_keys(s.remove(i)),
        entries_map(s.remove(i)) == entries_map(s).remove(s[i].0@),
{
    let t = s.remove(i);
    assert(forall|j: int| 0 <= j < t.len() ==> #[trigger] t[j] == if j < i { s[j] } else { s[j + 1] });
    assert(unique_keys(t)) by {
        assert forall|a: int, b: int| 0 <= a < t.len() && 0 <= b < t.len() && a != b implies #[trigger] t[a].0@
            != #[trigger] t[b].0@ by {
            let sa = if a < i { a } else { a + 1 };
            let sb = if b < i { b } else { b + 1 };
            assert(t[a] == s[sa]);
            assert(t[b] == s[sb]);
        };
    };
    let m = entries_map(s).remove(s[i].0@);
    assert forall|k: Seq<char>| #[trigger] entries_map(t).contains_key(k) == m.contains_key(k) by {
        lemma_dom(t, k);
        lemma_dom(s, k);
        if exists|j: int| 0 <= j < t.len() && #[trigger] t[j].0@ == k {
            let j = choose|j: int| 0 <= j < t.len() && #[trigger] t[j].0@ == k;
            let sj = if j < i { j } else { j + 1 };
            assert(s[sj].0@ == k);
            assert(k != s[i].0@);
        }
        if exists|j: int| 0 <= j < s.len() && #[trigger] s[j].0@ == k && j != i {
            let j = choose|j: int| 0 <= j < s.len() && #[trigger] s[j].0@ == k && j != i;
            let tj = if j < i { j } else { j - 1 };
            assert(t[tj].0@ == k);
        }
        if m.contains_key(k) {
            let j = choose|j: int| 0 <= j < s.len() && #[trigger] s[j].0@ == k;
            assert(j != i);
        }
    };
    assert forall|k: Seq<char>| #[trigger] entries_map(t).contains_key(k) implies entries_map(t)[k] == m[k] by {
        lemma_dom(t, k);
        let j = choose|j: int| 0 <= j < t.len() && #[trigger] t[j].0@ == k;
        lemma_at(t, j);
        let sj = if j < i { j } else { j + 1 };
        lemma_at(s, sj);
    };
    assert(entries_map(t) =~= m);
}

impl<C> ConnectionManager<C> {
    pub closed spec fn view(&self) -> RegistryMap<C> {
        entries_map(self.entries@)
    }

    pub closed spec fn wf(&self) -> bool {
        unique_keys(self.entries@)
    }

    /// An empty registry.
    pub fn new() -> (r: Self)
        ensures
            r.wf(),
            r.view() == Map::<Seq<char>, (ConnectionConfig, Option<C>)>::empty(),
    {
        ConnectionManager { entries: Vec::new() }
    }

    fn position(&self, id: &str) -> (r: Option<usize>)
        requires
            self.wf(),
        ensures
            match r {
                Some(i) => i < self.entries@.len() && self.entries@[i as int].0@ == id@
                    && self.view().contains_key(id@) && self.view()[id@] == (
                    self.entries@[i as int].1,
                    self.entries@[i as int].2,
                ),
                None => !self.view().contains_key(id@),
            },
    {
        let mut i: usize = 0;
        while i < self.entries.len()
            invariant
                self.wf(),
                i <= self.entries@.len(),
                forall|j: int| 0 <= j < i ==> #[trigger] self.entries@[j].0@ != id@,
            decreases self.entries@.len() - i,
        {
            if text_eq(self.entries[i].0.as_str(), id) {
                proof {
                    lemma_at(self.entries@, i as int);
                }
                return Some(i);
            }
            i = i + 1;
        }
        proof {
            lemma_dom(self.entries@, id@);
        }
        None
    }

    /// Stores a configuration under its id with no live client and returns
    /// the id. An entry already under that id is replaced. Does not connect.
    pub fn add_connection(&mut self, connection: ConnectionConfig) -> (r: String)
        requires
            old(self).wf(),
        ensures
            final(self).wf(),
            r@ == connection.id@,
            final(self).view() == old(self).view().insert(connection.id@, (connection, None)),
    {
        let id = connection.id.clone();
        let key = connection.id.clone();
        match self.position(id.as_str()) {
            Some(i) => {
                proof {
                    lemma_update(self.entries@, i as int, (key, connection, None));
                }
                self.entries.set(i, (key, connection, None));
            },
            None => {
                let ghost before = self.entries@;
                proof {
                    lemma_dom(before, id@);
                }
                self.entries.push((key, connection, None));
                assert(self.entries@.drop_last() =~= before);
                assert(unique_keys(self.entries@)) by {
                    assert forall|a: int, b: int| 0 <= a < self.entries@.len() && 0 <= b < self.entries@.len()
                        && a != b implies #[trigger] self.entries@[a].0@ != #[trigger] self.entries@[b].0@ by {
                        if a < before.len() && b < before.len() {
                            assert(self.entries@[a] == before[a]);
                            assert(self.entries@[b] == before[b]);
                        } else if a < before.len() {
                            assert(self.entries@[a] == before[a]);
                        } else {
                            assert(self.entries@[b] == before[b]);
                        }
                    };
                };
            },
        }
        id
    }

    /// A copy of the configuration stored under `id`.
    pub fn get_connection(&self, id: &str) -> (r: Result<ConnectionConfig, DbError>)
        requires
            self.wf(),
        ensures
            self.view().contains_key(id@) ==> r is Ok && same_config(r->Ok_0, self.view()[id@].0),
            !self.view().contains_key(id@) ==> r is Err && r->Err_0@ == (
                ErrorKind::NotFound,
                not_found_message(id@),
            ),
    {
        match self.position(id) {
            Some(i) => Ok(self.entries[i].1.duplicate()),
            None => Err(DbError::NotFound(concat("Connection not found: ", id))),
        }
    }

    /// Replaces the configuration under `id`. Any live client is detached
    /// first and handed back, so that the caller tears it down.
    pub fn update_connection(&mut self, id: &str, connection: ConnectionConfig) -> (r: Result<Option<C>, DbError>)
        requires
            old(self).wf(),
        ensures
            final(self).wf(),
            old(self).view().contains_key(id@) ==> r is Ok && r->Ok_0 == old(self).view()[id@].1
                && final(self).view() == old(self).view().insert(id@, (connection, None)),
            !old(self).view().contains_key(id@) ==> r is Err && r->Err_0@ == (
                ErrorKind::NotFound,
                not_found_message(id@),
            ) && final(self).view() == old(self).view(),
    {
        match self.position(id) {
            Some(i) => {
                let ghost before = self.entries@;
                let client = self.entries[i].2.take();
                let key = self.entries[i].0.clone();
                proof {
                    lemma_update(before, i as int, (key, connection, None));
                }
                self.entries.set(i, (key, connection, None));
                assert(self.entries@ =~= before.update(i as int, (key, connection, None)));
                Ok(client)
            },
            None => Err(DbError::NotFound(concat("Connection not found: ", id))),
        }
    }

    /// Removes the entry under `id`. Its live client, if any, is handed back
    /// so that the caller tears it down.
    pub fn remove_connection(&mut self, id: &str) -> (r: Result<Option<C>, DbError>)
        requires
            old(self).wf(),
        ensures
            final(self).wf(),
            old(self).view().contains_key(id@) ==> r is Ok && r->Ok_0 == old(self).view()[id@].1
                && final(self).view() == old(self).view().remove(id@),
            !old(self).view().contains_key(id@) ==> r is Err && r->Err_0@ == (
                ErrorKind::NotFound,
                not_found_message(id@),
            ) && final(self).view() == old(self).view(),
    {
        match self.position(id) {
            Some(i) => {
                proof {
                    lemma_remove(self.entries@, i as int);
                }
                let e = self.entries.remove(i);
                Ok(e.2)
            },
            None => Err(DbError::NotFound(concat("Connection not found: ", id))),
        }
    }

    /// The first half of connecting: nothing to do when a live client
    /// exists; otherwise the configuration to build and connect a client
    /// from, which the caller then hands to `attach` while holding the
    /// registry, so that no second client is made for the id.
    pub fn connect(&self, id: &str) -> (r: Result<ConnectStep, DbError>)
        requires
            self.wf(),
        ensures
            !self.view().contains_key(id@) ==> r is Err && r->Err_0@ == (
                ErrorKind::NotFound,
                not_found_message(id@),
            ),
            connect_finds_live(self.view(), id@) ==> r is Ok && r->Ok_0 is AlreadyConnected,
            self.view().contains_key(id@) && self.view()[id@].1 is None ==> r is Ok && r->Ok_0 is NeedsClient
                && same_config(r->Ok_0->NeedsClient_0, self.view()[id@].0),
    {
        match self.position(id) {
            Some(i) => {
                if self.entries[i].2.is_some() {
                    Ok(ConnectStep::AlreadyConnected)
                } else {
                    Ok(ConnectStep::NeedsClient(self.entries[i].1.duplicate()))
                }
            },
            None => Err(DbError::NotFound(concat("Connection not found: ", id))),
        }
    }

    /// The second half of connecting: stores a connected client under `id`.
    /// A client is refused, and handed back, when the id is unknown or
    /// already has a live client.
    pub fn attach(&mut self, id: &str, client: C) -> (r: Result<(), C>)
        requires
            old(self).wf(),
        ensures
            final(self).wf(),
            final(self).view() == attach_spec(old(self).view(), id@, client),
            (r is Ok) == (old(self).view().contains_key(id@) && old(self).view()[id@].1 is None),
            r is Err ==> r->Err_0 == client,
    {
        match self.position(id) {
            Some(i) => {
                if self.entries[i].2.is_some() {
                    return Err(client);
                }
                let ghost before = self.entries@;
                self.entries[i].2 = Some(client);
                assert(self.entries@ =~= before.update(i as int, (before[i as int].0, before[i as int].1, Some(client))));
                proof {
                    lemma_update(before, i as int, (before[i as int].0, before[i as int].1, Some(client)));
                }
                Ok(())
            },
            None => Err(client),
        }
    }

    /// Detaches the live client under `id` and hands it back for teardown.
    /// Other entries are untouched.
    pub fn disconnect(&mut self, id: &str) -> (r: Result<C, DbError>)
        requires
            old(self).wf(),
        ensures
            final(self).wf(),
            final(self).view() == disconnect_spec(old(self).view(), id@),
            !old(self).view().contains_key(id@) ==> r is Err && r->Err_0@ == (
                ErrorKind::NotFound,
                not_found_message(id@),
            ),
            old(self).view().contains_key(id@) && old(self).view()[id@].1 is None ==> r is Err
                && r->Err_0@ == (ErrorKind::NotFound, not_connected_message(id@)),
            connect_finds_live(old(self).view(), id@) ==> r is Ok && Some(r->Ok_0) == old(
                self,
            ).view()[id@].1,
    {
        match self.position(id) {
            Some(i) => {
                let ghost before = self.entries@;
                if self.entries[i].2.is_none() {
                    return Err(DbError::NotFound(concat("Not connected to database: ", id)));
                }
                let client = self.entries[i].2.take();
                proof {
                    lemma_update(before, i as int, (before[i as int].0, before[i as int].1, None));
                }
                assert(self.entries@ =~= before.update(i as int, (before[i as int].0, before[i as int].1, None)));
                match client {
                    Some(c) => Ok(c),
                    None => Err(DbError::NotFound(concat("Not connected to database: ", id))),
                }
            },
            None => Err(DbError::NotFound(concat("Connection not found: ", id))),
        }
    }

    /// Whether `id` has a live client.
    pub fn is_connected(&self, id: &str) -> (r: bool)
        requires
            self.wf(),
        ensures
            r == connect_finds_live(self.view(), id@),
    {
        match self.position(id) {
            Some(i) => self.entries[i].2.is_some(),
            None => false,
        }
    }

    /// The live client under `id`, for running statements on it.
    pub fn get_client(&self, id: &str) -> (r: Result<&C, DbError>)
        requires
            self.wf(),
        ensures
            !self.view().contains_key(id@) ==> r is Err && r->Err_0@ == (
                ErrorKind::NotFound,
                not_found_message(id@),
            ),
            self.view().contains_key(id@) && self.view()[id@].1 is None ==> r is Err && r->Err_0@ == (
                ErrorKind::NotFound,
                not_connected_message(id@),
            ),
            connect_finds_live(self.view(), id@) ==> r is Ok && Some(*r->Ok_0) == self.view()[id@].1,
    {
        match self.position(id) {
            Some(i) => match &self.entries[i].2 {
                Some(c) => Ok(c),
                None => Err(DbError::NotFound(concat("Not connected to database: ", id))),
            },
            None => Err(DbError::NotFound(concat("Connection not found: ", id))),
        }
    }

    /// Copies of all stored configurations, whether connected or not.
    pub fn list_connections(&self) -> (r: Vec<ConnectionConfig>)
        requires
            self.wf(),
        ensures
            r@.len() == self.view().len(),
            forall|i: int| 0 <= i < r@.len() ==> #[trigger] is_listed(self.view(), r@[i]),
            forall|k: Seq<char>| #[trigger] self.view().contains_key(k) ==> exists|i: int| 0 <= i < r@.len()
                && same_config(#[trigger] r@[i], self.view()[k].0),
    {
        let mut r: Vec<ConnectionConfig> = Vec::new();
        let mut i: usize = 0;
        while i < self.entries.len()
            invariant
                self.wf(),
                i <= self.entries@.len(),
                r@.len() == i,
                forall|j: int| 0 <= j < i ==> same_config(#[trigger] r@[j], self.entries@[j].1),
            decreases self.entries@.len() - i,
        {
            r.push(self.entries[i].1.duplicate());
            i = i + 1;
        }
        proof {
            assert forall|j: int| 0 <= j < r@.len() implies #[trigger] is_listed(self.view(), r@[j]) by {
                lemma_at(self.entries@, j);
                let k = self.entries@[j].0@;
                assert(self.view().contains_key(k) && same_config(r@[j], self.view()[k].0));
            };
            lemma_len(self.entries@);
            assert forall|k: Seq<char>| #[trigger] self.view().contains_key(k) implies exists|i: int| 0 <= i < r@.len()
                && same_config(#[trigger] r@[i], self.view()[k].0) by {
                lemma_dom(self.entries@, k);
                let j = choose|j: int| 0 <= j < self.entries@.len() && #[trigger] self.entries@[j].0@ == k;
                lemma_at(self.entries@, j);
                assert(same_config(r@[j], self.view()[k].0));
            };
        }
        r
    }

    /// Detaches every live client and hands them back for teardown; the
    /// configurations stay.
    pub fn close_all_connections(&mut self) -> (r: Vec<C>)
        requires
            old(self).wf(),
        ensures
            final(self).wf(),
            final(self).view().dom() == old(self).view().dom(),
            forall|k: Seq<char>| #[trigger] final(self).view().contains_key(k) ==> final(self).view()[k] == (
                old(self).view()[k].0,
                None::<C>,
            ),
            forall|k: Seq<char>| #[trigger] old(self).view().contains_key(k) && old(self).view()[k].1 is Some
                ==> r@.contains(old(self).view()[k].1->Some_0),
            forall|i: int| 0 <= i < r@.len() ==> #[trigger] was_live(old(self).view(), r@[i]),
    {
        let mut out: Vec<C> = Vec::new();
        let mut i: usize = 0;
        while i < self.entries.len()
            invariant
                self.wf(),
                i <= self.entries@.len(),
                self.entries@.len() == old(self).entries@.len(),
                forall|j: int| 0 <= j < self.entries@.len() ==> (#[trigger] self.entries@[j]).0 == old(self).entries@[j].0
                    && self.entries@[j].1 == old(self).entries@[j].1,
                forall|j: int| 0 <= j < i ==> (#[trigger] self.entries@[j]).2 is None,
                forall|j: int| i <= j < self.entries@.len() ==> (#[trigger] self.entries@[j]).2 == old(self).entries@[j].2,
                forall|j: int| 0 <= j < i && (#[trigger] old(self).entries@[j]).2 is Some ==> out@.contains(
                    old(self).entries@[j].2->Some_0,
                ),
                forall|q: int| 0 <= q < out@.len() ==> exists|j: int| 0 <= j < i && (#[trigger] old(self).entries@[j]).2
                    == Some(#[trigger] out@[q]),
            decreases self.entries@.len() - i,
        {
            let ghost before = self.entries@;
            let c = self.entries[i].2.take();
            assert(unique_keys(self.entries@)) by {
                assert forall|a: int, b: int| 0 <= a < self.entries@.len() && 0 <= b < self.entries@.len()
                    && a != b implies #[trigger] self.entries@[a].0@ != #[trigger] self.entries@[b].0@ by {
                    assert(self.entries@[a].0 == before[a].0);
                    assert(self.entries@[b].0 == before[b].0);
                };
            };
            let ghost before_out = out@;
            if let Some(c) = c {
                out.push(c);
                proof {
                    assert(out@[before_out.len() as int] == c);
                    assert forall|q: int| 0 <= q < out@.len() implies exists|j: int| 0 <= j < i + 1 && (#[trigger] old(
                        self,
                    ).entries@[j]).2 == Some(#[trigger] out@[q]) by {
                        if q < before_out.len() {
                            assert(out@[q] == before_out[q]);
                            let j = choose|j: int| 0 <= j < i && (#[trigger] old(self).entries@[j]).2 == Some(before_out[q]);
                            assert(old(self).entries@[j].2 == Some(out@[q]));
                        } else {
                            assert(old(self).entries@[i as int].2 == Some(out@[q]));
                        }
                    };
                    assert forall|j: int| 0 <= j < i + 1 && (#[trigger] old(self).entries@[j]).2 is Some implies out@.contains(
                        old(self).entries@[j].2->Some_0,
                    ) by {
                        if j < i {
                            let x = old(self).entries@[j].2->Some_0;
                            let w = choose|w: int| 0 <= w < before_out.len() && before_out[w] == x;
                            assert(out@[w] == x);
                        } else {
                            assert(out@[before_out.len() as int] == old(self).entries@[j].2->Some_0);
                        }
                    };
                }
            } else {
                proof {
                    assert forall|q: int| 0 <= q < out@.len() implies exists|j: int| 0 <= j < i + 1 && (#[trigger] old(
                        self,
                    ).entries@[j]).2 == Some(#[trigger] out@[q]) by {
                        let j = choose|j: int| 0 <= j < i && (#[trigger] old(self).entries@[j]).2 == Some(out@[q]);
                        assert(old(self).entries@[j].2 == Some(out@[q]));
                    };
                }
            }
            i = i + 1;
        }
        proof {
            assert forall|k: Seq<char>| #[trigger] entries_map(self.entries@).contains_key(k) == entries_map(
                old(self).entries@,
            ).contains_key(k) by {
                lemma_dom(self.entries@, k);
                lemma_dom(old(self).entries@, k);
                if exists|j: int| 0 <= j < self.entries@.len() && #[trigger] self.entries@[j].0@ == k {
                    let j = choose|j: int| 0 <= j < self.entries@.len() && #[trigger] self.entries@[j].0@ == k;
                    assert(old(self).entries@[j].0@ == k);
                }
                if exists|j: int| 0 <= j < old(self).entries@.len() && #[trigger] old(self).entries@[j].0@ == k {
                    let j = choose|j: int| 0 <= j < old(self).entries@.len() && #[trigger] old(self).entries@[j].0@ == k;
                    assert(self.entries@[j].0@ == k);
                }
            };
            assert(final(self).view().dom() =~= old(self).view().dom());
            assert forall|k: Seq<char>| #[trigger] old(self).view().contains_key(k) && old(self).view()[k].1 is Some
                implies out@.contains(old(self).view()[k].1->Some_0) by {
                lemma_dom(old(self).entries@, k);
                let j = choose|j: int| 0 <= j < old(self).entries@.len() && #[trigger] old(self).entries@[j].0@ == k;
                lemma_at(old(self).entries@, j);
                assert(old(self).entries@[j].2 is Some);
            };
            assert forall|q: int| 0 <= q < out@.len() implies #[trigger] was_live(old(self).view(), out@[q]) by {
                let j = choose|j: int| 0 <= j < old(self).entries@.len() && (#[trigger] old(self).entries@[j]).2 == Some(out@[q]);
                lemma_at(old(self).entries@, j);
                let k = old(self).entries@[j].0@;
                assert(old(self).view().contains_key(k) && old(self).view()[k].1 == Some(out@[q]));
            };
            assert forall|k: Seq<char>| #[trigger] entries_map(self.entries@).contains_key(k) implies entries_map(
                self.entries@,
            )[k] == (entries_map(old(self).entries@)[k].0, None::<C>) by {
                lemma_dom(self.entries@, k);
                let j = choose|j: int| 0 <= j < self.entries@.len() && #[trigger] self.entries@[j].0@ == k;
                lemma_at(self.entries@, j);
                lemma_at(old(self).entries@, j);
            };
        }
        out
    }
}

proof fn lemma_len<C>(s: Seq<Entry<C>>)
    requires
        unique_keys(s),
    ensures
        entries_map(s).len() == s.len(),
    decreases s.len(),
{
    if s.len() > 0 {
        let t = s.drop_last();
        assert(unique_keys(t));
        lemma_len(t);
        lemma_dom(t, s.last().0@);
        if entries_map(t).contains_key(s.last().0@) {
            let j = choose|j: int| 0 <= j < t.len() && #[trigger] t[j].0@ == s.last().0@;
            assert(s[j].0@ == s[s.len() - 1].0@);
        }
        lemma_finite(t);
    }
}

proof fn lemma_finite<C>(s: Seq<Entry<C>>)
    ensures
        entries_map(s).dom().finite(),
    decreases s.len(),
{
    if s.len() > 0 {
        lemma_finite(s.drop_last());
    }
}

/// Connecting twice: once a client is attached under a known id, a second
/// `connect` finds it live, so nothing is dialled, and a second `attach`
/// leaves the registry as it is, so the id keeps exactly one live client.
pub proof fn lemma_connect_idempotent<C>(m: RegistryMap<C>, id: Seq<char>, first: C, second: C)
    requires
        m.contains_key(id),
    ensures
        connect_finds_live(attach_spec(m, id, first), id),
        attach_spec(attach_spec(m, id, first), id, second) == attach_spec(m, id, first),
{
}

/// Disconnecting one id leaves every other id's entry, and so its live
/// client, as it was.
pub proof fn lemma_disconnect_isolated<C>(m: RegistryMap<C>, id: Seq<char>, other: Seq<char>)
    requires
        other != id,
    ensures
        disconnect_spec(m, id).contains_key(other) == m.contains_key(other),
        m.contains_key(other) ==> disconnect_spec(m, id)[other] == m[other],
{
}

} // verus!
