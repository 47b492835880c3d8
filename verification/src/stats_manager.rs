//! The report store: an in-memory table of benchmark reports keyed by
//! `(session identifier, role suffix)`, driven by a small command set.

use vstd::prelude::*;

use crate::connection_manager::Report;

verus! {

/// One stored entry: the key parts and the report filed under them.
pub struct ReportEntry {
    pub uuid: String,
    pub suffix: String,
    pub report: Report,
}

impl Clone for ReportEntry {
    fn clone(&self) -> (r: Self)
        ensures
            r == *self,
    {
        ReportEntry {
            uuid: self.uuid.clone(),
            suffix: self.suffix.clone(),
            report: self.report.clone(),
        }
    }
}

/// A command the report store accepts.  `Add` carries the report already
/// read and parsed from the child's file; the file handling itself is not
/// the store's concern.
pub enum Command {
    Add { uuid: String, suffix: String, report: Report },
    Get { uuid: String, suffix: String },
    List,
    Remove { uuid: String, suffix: String },
}

/// What the store answers to one command.
pub enum CommandReply {
    Added,
    Report(Option<Report>),
    List(Vec<ReportEntry>),
    Removed,
}

/// The table as a map from `(uuid, suffix)` to report; a later `Add` under
/// the same key wins.
pub open spec fn spec_report_map(entries: Seq<ReportEntry>) -> Map<(Seq<char>, Seq<char>), Report>
    decreases entries.len(),
{
    if entries.len() == 0 {
        Map::empty()
    } else {
        spec_report_map(entries.drop_last()).insert(
            (entries.last().uuid@, entries.last().suffix@),
            entries.last().report,
        )
    }
}

/// A table key is exactly a stored entry's key.
proof fn lemma_report_map_dom(entries: Seq<ReportEntry>, k: (Seq<char>, Seq<char>))
    ensures
        spec_report_map(entries).dom().contains(k) <==> exists|j: int|
            0 <= j < entries.len() && (entries[j].uuid@, entries[j].suffix@) == k,
    decreases entries.len(),
{
    if entries.len() > 0 {
        lemma_report_map_dom(entries.drop_last(), k);
        if (entries.last().uuid@, entries.last().suffix@) == k {
            assert((entries[entries.len() - 1].uuid@, entries[entries.len() - 1].suffix@) == k);
        } else if spec_report_map(entries).dom().contains(k) {
            let j = choose|j: int|
                0 <= j < entries.drop_last().len() && (
                entries.drop_last()[j].uuid@,
                entries.drop_last()[j].suffix@,
                ) == k;
            assert((entries[j].uuid@, entries[j].suffix@) == k);
        } else if exists|j: int|
            0 <= j < entries.len() && (entries[j].uuid@, entries[j].suffix@) == k {
            let j = choose|j: int|
                0 <= j < entries.len() && (entries[j].uuid@, entries[j].suffix@) == k;
            assert((entries.drop_last()[j].uuid@, entries.drop_last()[j].suffix@) == k);
        }
    }
}

/// With keys unique, the table maps each key to the report stored beside
/// it.
proof fn lemma_report_map_at(entries: Seq<ReportEntry>, j: int)
    requires
        forall|a: int, b: int|
            0 <= a < b < entries.len() ==> (#[trigger] entries[a].uuid@, entries[a].suffix@) != (
            #[trigger] entries[b].uuid@,
            entries[b].suffix@,
            ),
        0 <= j < entries.len(),
    ensures
        spec_report_map(entries).dom().contains((entries[j].uuid@, entries[j].suffix@)),
        spec_report_map(entries)[(entries[j].uuid@, entries[j].suffix@)] == entries[j].report,
    decreases entries.len(),
{
    if j == entries.len() - 1 {
    } else {
        lemma_report_map_at(entries.drop_last(), j);
        assert((entries[entries.len() - 1].uuid@, entries[entries.len() - 1].suffix@) != (
        entries[j].uuid@,
        entries[j].suffix@,
        ));
    }
}

/// Replacing the entry that already carries a key updates the table as an
/// insert does.
proof fn lemma_report_update_is_insert(entries: Seq<ReportEntry>, j: int, entry: ReportEntry)
    requires
        forall|a: int, b: int|
            0 <= a < b < entries.len() ==> (#[trigger] entries[a].uuid@, entries[a].suffix@) != (
            #[trigger] entries[b].uuid@,
            entries[b].suffix@,
            ),
        0 <= j < entries.len(),
        entry.uuid@ == entries[j].uuid@,
        entry.suffix@ == entries[j].suffix@,
    ensures
        spec_report_map(entries.update(j, entry)) == spec_report_map(entries).insert(
            (entry.uuid@, entry.suffix@),
            entry.report,
        ),
    decreases entries.len(),
{
    let upd = entries.update(j, entry);
    if j == entries.len() - 1 {
        assert(upd.drop_last() =~= entries.drop_last());
        assert(spec_report_map(upd) =~= spec_report_map(entries).insert(
            (entry.uuid@, entry.suffix@),
            entry.report,
        ));
    } else {
        lemma_report_update_is_insert(entries.drop_last(), j, entry);
        assert(upd.drop_last() =~= entries.drop_last().update(j, entry));
        assert(upd.last() == entries.last());
        assert((entries[entries.len() - 1].uuid@, entries[entries.len() - 1].suffix@) != (
        entries[j].uuid@,
        entries[j].suffix@,
        ));
        assert(spec_report_map(upd) =~= spec_report_map(entries).insert(
            (entry.uuid@, entry.suffix@),
            entry.report,
        ));
    }
}

/// Removing the entry that carries a key updates the table as a remove
/// does.
proof fn lemma_report_remove_is_remove(entries: Seq<ReportEntry>, j: int)
    requires
        forall|a: int, b: int|
            0 <= a < b < entries.len() ==> (#[trigger] entries[a].uuid@, entries[a].suffix@) != (
            #[trigger] entries[b].uuid@,
            entries[b].suffix@,
            ),
        0 <= j < entries.len(),
    ensures
        spec_report_map(entries.remove(j)) == spec_report_map(entries).remove(
            (entries[j].uuid@, entries[j].suffix@),
        ),
    decreases entries.len(),
{
    let rem = entries.remove(j);
    if j == entries.len() - 1 {
        assert(rem =~= entries.drop_last());
        lemma_report_map_dom(entries.drop_last(), (entries[j].uuid@, entries[j].suffix@));
        assert(!spec_report_map(entries.drop_last()).dom().contains(
            (entries[j].uuid@, entries[j].suffix@),
        ));
        assert(spec_report_map(rem) =~= spec_report_map(entries).remove(
            (entries[j].uuid@, entries[j].suffix@),
        ));
    } else {
        lemma_report_remove_is_remove(entries.drop_last(), j);
        assert(rem.drop_last() =~= entries.drop_last().remove(j));
        assert(rem.last() == entries.last());
        assert((entries[entries.len() - 1].uuid@, entries[entries.len() - 1].suffix@) != (
        entries[j].uuid@,
        entries[j].suffix@,
        ));
        assert(spec_report_map(rem) =~= spec_report_map(entries).remove(
            (entries[j].uuid@, entries[j].suffix@),
        ));
    }
}

/// The report store.  Reports live only in memory: nothing survives a
/// restart.
pub struct StatsManager {
    pub reports: Vec<ReportEntry>,
}

impl StatsManager {
    /// Keys are unique and every stored report is well formed.
    pub open spec fn wf(self) -> bool {
        &&& forall|a: int, b: int|
            0 <= a < b < self.reports@.len() ==> (
            #[trigger] self.reports@[a].uuid@,
            self.reports@[a].suffix@,
            ) != (#[trigger] self.reports@[b].uuid@, self.reports@[b].suffix@)
        &&& forall|a: int| 0 <= a < self.reports@.len() ==> (#[trigger] self.reports@[a].report).wf()
    }

    /// The store as a map from `(uuid, suffix)` to report.
    pub open spec fn spec_map(self) -> Map<(Seq<char>, Seq<char>), Report> {
        spec_report_map(self.reports@)
    }

    /// An empty store.
    pub fn new() -> (r: StatsManager)
        ensures
            r.wf(),
            r.spec_map() == Map::<(Seq<char>, Seq<char>), Report>::empty(),
    {
        StatsManager { reports: Vec::new() }
    }

    fn find(&self, uuid: &str, suffix: &str) -> (r: Option<usize>)
        requires
            self.wf(),
        ensures
            match r {
                Some(j) => j < self.reports@.len() && self.reports@[j as int].uuid@ == uuid@
                    && self.reports@[j as int].suffix@ == suffix@,
                None => forall|a: int|
                    0 <= a < self.reports@.len() ==> (
                    #[trigger] self.reports@[a].uuid@,
                    self.reports@[a].suffix@,
                    ) != (uuid@, suffix@),
            },
    {
        let n = self.reports.len();
        let mut j: usize = 0;
        while j < n
            invariant
                n == self.reports@.len(),
                j <= n,
                forall|a: int|
                    0 <= a < j ==> (#[trigger] self.reports@[a].uuid@, self.reports@[a].suffix@)
                        != (uuid@, suffix@),
            decreases n - j,
        {
            if crate::text::str_eq(self.reports[j].uuid.as_str(), uuid) && crate::text::str_eq(
                self.reports[j].suffix.as_str(),
                suffix,
            ) {
                return Some(j);
            }
            j = j + 1;
        }
        None
    }

    /// Files a report under `(uuid, suffix)`; a report already filed under
    /// the same key is replaced, so the store never holds two reports for
    /// one key.
    pub fn add(&mut self, uuid: String, suffix: String, report: Report)
        requires
            old(self).wf(),
            report.wf(),
        ensures
            final(self).wf(),
            final(self).spec_map() == old(self).spec_map().insert(
                (uuid@, suffix@),
                report,
            ),
    {
        let found = self.find(uuid.as_str(), suffix.as_str());
        match found {
            Some(j) => {
                let ghost old_entries = self.reports@;
                let entry = ReportEntry { uuid, suffix, report };
                self.reports.set(j, entry);
                proof {
                    lemma_report_update_is_insert(old_entries, j as int, self.reports@[j as int]);
                    assert forall|a: int, b: int|
                        0 <= a < b < self.reports@.len() implies (
                    #[trigger] self.reports@[a].uuid@,
                    self.reports@[a].suffix@,
                    ) != (#[trigger] self.reports@[b].uuid@, self.reports@[b].suffix@) by {
                        assert((old_entries[a].uuid@, old_entries[a].suffix@) != (
                        old_entries[b].uuid@,
                        old_entries[b].suffix@,
                        ));
                    }
                }
            },
            None => {
                let ghost old_entries = self.reports@;
                let entry = ReportEntry { uuid, suffix, report };
                self.reports.push(entry);
                proof {
                    assert(self.reports@.drop_last() =~= old_entries);
                    assert forall|a: int, b: int|
                        0 <= a < b < self.reports@.len() implies (
                    #[trigger] self.reports@[a].uuid@,
                    self.reports@[a].suffix@,
                    ) != (#[trigger] self.reports@[b].uuid@, self.reports@[b].suffix@) by {
                        if b == self.reports@.len() - 1 {
                            assert((old_entries[a].uuid@, old_entries[a].suffix@) != (
                            uuid@,
                            suffix@,
                            ));
                        } else {
                            assert((old_entries[a].uuid@, old_entries[a].suffix@) != (
                            old_entries[b].uuid@,
                            old_entries[b].suffix@,
                            ));
                        }
                    }
                }
            },
        }
    }

    /// Looks up the report filed under `(uuid, suffix)`, if any.
    pub fn get(&self, uuid: &str, suffix: &str) -> (r: Option<Report>)
        requires
            self.wf(),
        ensures
            match r {
                Some(rep) => self.spec_map().dom().contains((uuid@, suffix@)) && rep
                    == self.spec_map()[(uuid@, suffix@)],
                None => !self.spec_map().dom().contains((uuid@, suffix@)),
            },
    {
        let found = self.find(uuid, suffix);
        match found {
            Some(j) => {
                proof {
                    lemma_report_map_at(self.reports@, j as int);
                }
                Some(self.reports[j].report.clone())
            },
            None => {
                proof {
                    lemma_report_map_dom(self.reports@, (uuid@, suffix@));
                }
                None
            },
        }
    }

    /// Every stored entry, in storage order.
    pub fn list(&self) -> (r: Vec<ReportEntry>)
        ensures
            r@.len() == self.reports@.len(),
            forall|j: int| 0 <= j < r@.len() ==> r@[j] == self.reports@[j],
    {
        let n = self.reports.len();
        let mut out: Vec<ReportEntry> = Vec::new();
        let mut j: usize = 0;
        while j < n
            invariant
                n == self.reports@.len(),
                j <= n,
                out@.len() == j,
                forall|a: int| 0 <= a < j ==> out@[a] == self.reports@[a],
            decreases n - j,
        {
            out.push(self.reports[j].clone());
            j = j + 1;
        }
        out
    }

    /// Drops the report filed under `(uuid, suffix)`.  Removing a key that
    /// is not filed succeeds and changes nothing, so a second remove of
    /// the same key succeeds as the first did.
    pub fn remove(&mut self, uuid: &str, suffix: &str)
        requires
            old(self).wf(),
        ensures
            final(self).wf(),
            final(self).spec_map() == old(self).spec_map().remove((uuid@, suffix@)),
    {
        let found = self.find(uuid, suffix);
        match found {
            Some(j) => {
                let ghost old_entries = self.reports@;
                self.reports.remove(j);
                proof {
                    lemma_report_remove_is_remove(old_entries, j as int);
                    assert(self.reports@ =~= old_entries.remove(j as int));
                    assert forall|a: int, b: int|
                        0 <= a < b < self.reports@.len() implies (
                    #[trigger] self.reports@[a].uuid@,
                    self.reports@[a].suffix@,
                    ) != (#[trigger] self.reports@[b].uuid@, self.reports@[b].suffix@) by {
                        let sa = if a < j { a } else { a + 1 };
                        let sb = if b < j { b } else { b + 1 };
                        assert((old_entries[sa].uuid@, old_entries[sa].suffix@) != (
                        old_entries[sb].uuid@,
                        old_entries[sb].suffix@,
                        ));
                    }
                }
            },
            None => {
                proof {
                    lemma_report_map_dom(self.reports@, (uuid@, suffix@));
                    assert(!self.spec_map().dom().contains((uuid@, suffix@)));
                    assert(self.spec_map() =~= self.spec_map().remove((uuid@, suffix@)));
                }
            },
        }
    }

    /// Applies one store command and answers it.
    pub fn apply(&mut self, cmd: Command) -> (r: CommandReply)
        requires
            old(self).wf(),
            cmd matches Command::Add { report, .. } ==> report.wf(),
        ensures
            final(self).wf(),
            match cmd {
                Command::Add { uuid, suffix, report } => final(self).spec_map() == old(
                    self,
                ).spec_map().insert((uuid@, suffix@), report) && (r matches CommandReply::Added),
                Command::Get { uuid, suffix } => final(self).spec_map() == old(self).spec_map()
                    && (r matches CommandReply::Report(rep) ==> (match rep {
                    Some(found) => old(self).spec_map().dom().contains((uuid@, suffix@)) && found
                        == old(self).spec_map()[(uuid@, suffix@)],
                    None => !old(self).spec_map().dom().contains((uuid@, suffix@)),
                })) && (r matches CommandReply::Report(..)),
                Command::List => final(self).spec_map() == old(self).spec_map() && (
                r matches CommandReply::List(..)),
                Command::Remove { uuid, suffix } => final(self).spec_map() == old(
                    self,
                ).spec_map().remove((uuid@, suffix@)) && (r matches CommandReply::Removed),
            },
    {
        match cmd {
            Command::Add { uuid, suffix, report } => {
                self.add(uuid, suffix, report);
                CommandReply::Added
            },
            Command::Get { uuid, suffix } => {
                CommandReply::Report(self.get(uuid.as_str(), suffix.as_str()))
            },
            Command::List => CommandReply::List(self.list()),
            Command::Remove { uuid, suffix } => {
                self.remove(uuid.as_str(), suffix.as_str());
                CommandReply::Removed
            },
        }
    }
}

/// A report filed under a key is what a later lookup of that key returns,
/// as long as no later command touched that key: an `Add` or `Remove` of
/// any other key leaves it untouched.
pub proof fn lemma_add_then_get(
    m: Map<(Seq<char>, Seq<char>), Report>,
    k: (Seq<char>, Seq<char>),
    rep: Report,
    other: (Seq<char>, Seq<char>),
    other_rep: Report,
)
    requires
        other != k,
    ensures
        m.insert(k, rep).dom().contains(k),
        m.insert(k, rep)[k] == rep,
        m.insert(k, rep).insert(other, other_rep)[k] == rep,
        m.insert(k, rep).insert(other, other_rep).dom().contains(k),
        m.insert(k, rep).remove(other)[k] == rep,
        m.insert(k, rep).remove(other).dom().contains(k),
{
}

/// For every key, the store holds at most one report: two entries that
/// share a `(uuid, suffix)` are the same entry.
pub proof fn lemma_at_most_one_report(s: StatsManager, a: int, b: int)
    requires
        s.wf(),
        0 <= a < s.reports@.len(),
        0 <= b < s.reports@.len(),
        s.reports@[a].uuid@ == s.reports@[b].uuid@,
        s.reports@[a].suffix@ == s.reports@[b].suffix@,
    ensures
        a == b,
{
    if a < b {
        assert((s.reports@[a].uuid@, s.reports@[a].suffix@) != (
        s.reports@[b].uuid@,
        s.reports@[b].suffix@,
        ));
    } else if b < a {
        assert((s.reports@[b].uuid@, s.reports@[b].suffix@) != (
        s.reports@[a].uuid@,
        s.reports@[a].suffix@,
        ));
    }
}

/// Removing a key twice leaves the store exactly as removing it once
/// does: `Remove` is idempotent.
pub proof fn lemma_remove_idempotent(
    m: Map<(Seq<char>, Seq<char>), Report>,
    k: (Seq<char>, Seq<char>),
)
    ensures
        m.remove(k).remove(k) == m.remove(k),
{
    assert(m.remove(k).remove(k) =~= m.remove(k));
}

} // verus!
