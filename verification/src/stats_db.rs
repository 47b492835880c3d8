//! The aggregator's in-memory statistics table: the latest counter
//! snapshot of every `(interface, port)` that reported, driven by a small
//! command set.

use vstd::prelude::*;

use crate::monitor::Stats;

verus! {

/// One stored snapshot with the key it is filed under.
pub struct DbEntry {
    pub interface: String,
    pub port: String,
    pub stats: Stats,
}

impl Clone for DbEntry {
    fn clone(&self) -> (r: Self)
        ensures
            r == *self,
    {
        DbEntry {
            interface: self.interface.clone(),
            port: self.port.clone(),
            stats: self.stats.clone(),
        }
    }
}

/// A command the table accepts.
pub enum DbCommand {
    Insert(Stats),
    List,
    Get { address: String, port: Option<String> },
}

/// What the table answers to one command.
pub enum DbReply {
    Inserted,
    List(Vec<Stats>),
    Got(Option<Stats>),
}

/// The table as a map from `(interface, port)` to the latest snapshot.
pub open spec fn spec_db_map(entries: Seq<DbEntry>) -> Map<(Seq<char>, Seq<char>), Stats>
    decreases entries.len(),
{
    if entries.len() == 0 {
        Map::empty()
    } else {
        spec_db_map(entries.drop_last()).insert(
            (entries.last().interface@, entries.last().port@),
            entries.last().stats,
        )
    }
}

proof fn lemma_db_map_dom(entries: Seq<DbEntry>, k: (Seq<char>, Seq<char>))
    ensures
        spec_db_map(entries).dom().contains(k) <==> exists|j: int|
            0 <= j < entries.len() && (entries[j].interface@, entries[j].port@) == k,
    decreases entries.len(),
{
    if entries.len() > 0 {
        lemma_db_map_dom(entries.drop_last(), k);
        if (entries.last().interface@, entries.last().port@) == k {
            assert((entries[entries.len() - 1].interface@, entries[entries.len() - 1].port@) == k);
        } else if spec_db_map(entries).dom().contains(k) {
            let j = choose|j: int|
                0 <= j < entries.drop_last().len() && (
                entries.drop_last()[j].interface@,
                entries.drop_last()[j].port@,
                ) == k;
            assert((entries[j].interface@, entries[j].port@) == k);
        } else if exists|j: int|
            0 <= j < entries.len() && (entries[j].interface@, entries[j].port@) == k {
            let j = choose|j: int|
                0 <= j < entries.len() && (entries[j].interface@, entries[j].port@) == k;
            assert((entries.drop_last()[j].interface@, entries.drop_last()[j].port@) == k);
        }
    }
}

proof fn lemma_db_map_at(entries: Seq<DbEntry>, j: int)
    requires
        forall|a: int, b: int|
            0 <= a < b < entries.len() ==> (#[trigger] entries[a].interface@, entries[a].port@)
                != (#[trigger] entries[b].interface@, entries[b].port@),
        0 <= j < entries.len(),
    ensures
        spec_db_map(entries).dom().contains((entries[j].interface@, entries[j].port@)),
        spec_db_map(entries)[(entries[j].interface@, entries[j].port@)] == entries[j].stats,
    decreases entries.len(),
{
    if j == entries.len() - 1 {
    } else {
        lemma_db_map_at(entries.drop_last(), j);
        assert((entries[entries.len() - 1].interface@, entries[entries.len() - 1].port@) != (
        entries[j].interface@,
        entries[j].port@,
        ));
    }
}

proof fn lemma_db_update_is_insert(entries: Seq<DbEntry>, j: int, entry: DbEntry)
    requires
        forall|a: int, b: int|
            0 <= a < b < entries.len() ==> (#[trigger] entries[a].interface@, entries[a].port@)
                != (#[trigger] entries[b].interface@, entries[b].port@),
        0 <= j < entries.len(),
        entry.interface@ == entries[j].interface@,
        entry.port@ == entries[j].port@,
    ensures
        spec_db_map(entries.update(j, entry)) == spec_db_map(entries).insert(
            (entry.interface@, entry.port@),
            entry.stats,
        ),
    decreases entries.len(),
{
    let upd = entries.update(j, entry);
    if j == entries.len() - 1 {
        assert(upd.drop_last() =~= entries.drop_last());
        assert(spec_db_map(upd) =~= spec_db_map(entries).insert(
            (entry.interface@, entry.port@),
            entry.stats,
        ));
    } else {
        lemma_db_update_is_insert(entries.drop_last(), j, entry);
        assert(upd.drop_last() =~= entries.drop_last().update(j, entry));
        assert(upd.last() == entries.last());
        assert((entries[entries.len() - 1].interface@, entries[entries.len() - 1].port@) != (
        entries[j].interface@,
        entries[j].port@,
        ));
        assert(spec_db_map(upd) =~= spec_db_map(entries).insert(
            (entry.interface@, entry.port@),
            entry.stats,
        ));
    }
}

/// The aggregator's statistics table, the state its actor loop owns.
pub struct StatsDb {
    pub entries: Vec<DbEntry>,
}

impl StatsDb {
    /// Keys are unique.
    pub open spec fn wf(self) -> bool {
        forall|a: int, b: int|
            0 <= a < b < self.entries@.len() ==> (
            #[trigger] self.entries@[a].interface@,
            self.entries@[a].port@,
            ) != (#[trigger] self.entries@[b].interface@, self.entries@[b].port@)
    }

    /// The table as a map from `(interface, port)` to snapshot.
    pub open spec fn spec_map(self) -> Map<(Seq<char>, Seq<char>), Stats> {
        spec_db_map(self.entries@)
    }

    /// An empty table.
    pub fn new() -> (r: StatsDb)
        ensures
            r.wf(),
            r.spec_map() == Map::<(Seq<char>, Seq<char>), Stats>::empty(),
    {
        StatsDb { entries: Vec::new() }
    }

    fn find(&self, interface: &str, port: &str) -> (r: Option<usize>)
        requires
            self.wf(),
        ensures
            match r {
                Some(j) => j < self.entries@.len() && self.entries@[j as int].interface@
                    == interface@ && self.entries@[j as int].port@ == port@,
                None => forall|a: int|
                    0 <= a < self.entries@.len() ==> (
                    #[trigger] self.entries@[a].interface@,
                    self.entries@[a].port@,
                    ) != (interface@, port@),
            },
    {
        let n = self.entries.len();
        let mut j: usize = 0;
        while j < n
            invariant
                n == self.entries@.len(),
                j <= n,
                forall|a: int|
                    0 <= a < j ==> (#[trigger] self.entries@[a].interface@, self.entries@[a].port@)
                        != (interface@, port@),
            decreases n - j,
        {
            if crate::text::str_eq(self.entries[j].interface.as_str(), interface)
                && crate::text::str_eq(self.entries[j].port.as_str(), port) {
                return Some(j);
            }
            j = j + 1;
        }
        None
    }

    /// Files a snapshot under the interface and port its own meta names;
    /// the previous snapshot of that pair, if any, is replaced.
    pub fn insert(&mut self, stats: Stats)
        requires
            old(self).wf(),
        ensures
            final(self).wf(),
            final(self).spec_map() == old(self).spec_map().insert(
                (stats.meta.interface@, stats.meta.port@),
                stats,
            ),
    {
        let interface = stats.meta.interface.clone();
        let port = stats.meta.port.clone();
        let found = self.find(interface.as_str(), port.as_str());
        match found {
            Some(j) => {
                let ghost old_entries = self.entries@;
                self.entries.set(j, DbEntry { interface, port, stats });
                proof {
                    lemma_db_update_is_insert(old_entries, j as int, self.entries@[j as int]);
                    assert forall|a: int, b: int|
                        0 <= a < b < self.entries@.len() implies (
                    #[trigger] self.entries@[a].interface@,
                    self.entries@[a].port@,
                    ) != (#[trigger] self.entries@[b].interface@, self.entries@[b].port@) by {
                        assert((old_entries[a].interface@, old_entries[a].port@) != (
                        old_entries[b].interface@,
                        old_entries[b].port@,
                        ));
                    }
                }
            },
            None => {
                let ghost old_entries = self.entries@;
                self.entries.push(DbEntry { interface, port, stats });
                proof {
                    assert(self.entries@.drop_last() =~= old_entries);
                    assert forall|a: int, b: int|
                        0 <= a < b < self.entries@.len() implies (
                    #[trigger] self.entries@[a].interface@,
                    self.entries@[a].port@,
                    ) != (#[trigger] self.entries@[b].interface@, self.entries@[b].port@) by {
                        if b == self.entries@.len() - 1 {
                            assert((old_entries[a].interface@, old_entries[a].port@) != (
                            stats.meta.interface@,
                            stats.meta.port@,
                            ));
                        } else {
                            assert((old_entries[a].interface@, old_entries[a].port@) != (
                            old_entries[b].interface@,
                            old_entries[b].port@,
                            ));
                        }
                    }
                }
            },
        }
    }

    /// Every stored snapshot, in storage order.
    pub fn list(&self) -> (r: Vec<Stats>)
        ensures
            r@.len() == self.entries@.len(),
            forall|j: int| 0 <= j < r@.len() ==> r@[j] == self.entries@[j].stats,
    {
        let n = self.entries.len();
        let mut out: Vec<Stats> = Vec::new();
        let mut j: usize = 0;
        while j < n
            invariant
                n == self.entries@.len(),
                j <= n,
                out@.len() == j,
                forall|a: int| 0 <= a < j ==> out@[a] == self.entries@[a].stats,
            decreases n - j,
        {
            out.push(self.entries[j].stats.clone());
            j = j + 1;
        }
        out
    }

    /// The snapshot filed under an interface and port, if any; asking
    /// without a port yields nothing.
    pub fn get(&self, address: &str, port: Option<&String>) -> (r: Option<Stats>)
        requires
            self.wf(),
        ensures
            match port {
                None => r is None,
                Some(p) => match r {
                    Some(st) => self.spec_map().dom().contains((address@, p@)) && st
                        == self.spec_map()[(address@, p@)],
                    None => !self.spec_map().dom().contains((address@, p@)),
                },
            },
    {
        let p = match port {
            Some(p) => p,
            None => {
                return None;
            },
        };
        let found = self.find(address, p.as_str());
        match found {
            Some(j) => {
                proof {
                    lemma_db_map_at(self.entries@, j as int);
                }
                Some(self.entries[j].stats.clone())
            },
            None => {
                proof {
                    lemma_db_map_dom(self.entries@, (address@, p@));
                }
                None
            },
        }
    }

    /// Applies one table command and answers it.
    pub fn apply(&mut self, cmd: DbCommand) -> (r: DbReply)
        requires
            old(self).wf(),
        ensures
            final(self).wf(),
            match cmd {
                DbCommand::Insert(stats) => final(self).spec_map() == old(self).spec_map().insert(
                    (stats.meta.interface@, stats.meta.port@),
                    stats,
                ) && (r matches DbReply::Inserted),
                DbCommand::List => final(self).spec_map() == old(self).spec_map() && (
                r matches DbReply::List(..)),
                DbCommand::Get { .. } => final(self).spec_map() == old(self).spec_map() && (
                r matches DbReply::Got(..)),
            },
    {
        match cmd {
            DbCommand::Insert(stats) => {
                self.insert(stats);
                DbReply::Inserted
            },
            DbCommand::List => DbReply::List(self.list()),
            DbCommand::Get { address, port } => {
                let p = match &port {
                    Some(p) => Some(p),
                    None => None,
                };
                DbReply::Got(self.get(address.as_str(), p))
            },
        }
    }
}

} // verus!
