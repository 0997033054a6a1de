//! The audit trail of file operations: what it records, how it is searched, and which entries
//! are kept when it is written back with a cap on its length.

use vstd::prelude::*;
use crate::models::{copy_opt, opt_chars};
use crate::recency::{lemma_newest_first_ordered, lemma_newest_first_permutes, newest_first, sort_newest_first};
use crate::text::same_text;

verus! {

/// One audited operation. The operation's kind and status are held by their names.
#[derive(Debug)]
pub struct AuditLogEntry {
    pub operation_id: String,
    pub operation_type: String,
    pub source_id: String,
    pub source_path: String,
    pub destination_path: Option<String>,
    pub file_size: Option<u64>,
    pub status: String,
    pub error: Option<String>,
    pub user_id: Option<String>,
    pub organization_id: Option<String>,
    /// Seconds since the Unix epoch.
    pub created_at: Option<i64>,
    /// Seconds since the Unix epoch.
    pub completed_at: Option<i64>,
}

/// Whether two entries record the same.
pub open spec fn same_entry(a: AuditLogEntry, b: AuditLogEntry) -> bool {
    &&& a.operation_id@ == b.operation_id@
    &&& a.operation_type@ == b.operation_type@
    &&& a.source_id@ == b.source_id@
    &&& a.source_path@ == b.source_path@
    &&& opt_chars(a.destination_path) == opt_chars(b.destination_path)
    &&& a.file_size == b.file_size
    &&& a.status@ == b.status@
    &&& opt_chars(a.error) == opt_chars(b.error)
    &&& opt_chars(a.user_id) == opt_chars(b.user_id)
    &&& opt_chars(a.organization_id) == opt_chars(b.organization_id)
    &&& a.created_at == b.created_at
    &&& a.completed_at == b.completed_at
}

impl AuditLogEntry {
    /// A copy of the entry.
    pub fn duplicate(&self) -> (r: Self)
        ensures
            same_entry(r, *self),
    {
        AuditLogEntry {
            operation_id: self.operation_id.clone(),
            operation_type: self.operation_type.clone(),
            source_id: self.source_id.clone(),
            source_path: self.source_path.clone(),
            destination_path: copy_opt(&self.destination_path),
            file_size: self.file_size,
            status: self.status.clone(),
            error: copy_opt(&self.error),
            user_id: copy_opt(&self.user_id),
            organization_id: copy_opt(&self.organization_id),
            created_at: self.created_at,
            completed_at: self.completed_at,
        }
    }
}

/// The time an entry is ordered by: when the operation was created, else when it completed;
/// an entry with neither is older than any with one.
pub open spec fn audit_time(e: AuditLogEntry) -> i128 {
    match e.created_at {
        Some(t) => t as i128,
        None => match e.completed_at {
            Some(t) => t as i128,
            None => (i64::MIN as int - 1) as i128,
        },
    }
}

fn entry_time(e: &AuditLogEntry) -> (r: i128)
    ensures
        r == audit_time(*e),
{
    match e.created_at {
        Some(t) => t as i128,
        None => match e.completed_at {
            Some(t) => t as i128,
            None => i64::MIN as i128 - 1,
        },
    }
}

/// Each entry's time with its position.
pub open spec fn timed_positions(s: Seq<AuditLogEntry>) -> Seq<(i128, usize)> {
    Seq::new(s.len(), |i: int| (audit_time(s[i]), i as usize))
}

/// The entries written back with a cap of `max` (none when `max` is 0): all of them when they
/// fit, else the `max` newest, newest first, entries with the same time in the order they were
/// logged.
pub open spec fn entries_saved(s: Seq<AuditLogEntry>, max: usize) -> Seq<AuditLogEntry> {
    if max > 0 && s.len() > max {
        newest_first(timed_positions(s)).take(max as int).map_values(
            |p: (i128, usize)| s[p.1 as int],
        )
    } else {
        s
    }
}

/// Which field a search looks at.
#[derive(Clone, Copy, PartialEq, Eq, Debug, Structural)]
pub enum AuditField {
    User,
    Organization,
    OperationType,
    Status,
}

/// Whether the entry's `field` holds `value` (an entry without a user or organization matches
/// no user or organization).
pub open spec fn field_matches(e: AuditLogEntry, field: AuditField, value: Seq<char>) -> bool {
    match field {
        AuditField::User => e.user_id matches Some(u) && u@ == value,
        AuditField::Organization => e.organization_id matches Some(o) && o@ == value,
        AuditField::OperationType => e.operation_type@ == value,
        AuditField::Status => e.status@ == value,
    }
}

/// The entries whose `field` holds `value`, in the order they were logged.
pub open spec fn entries_where(s: Seq<AuditLogEntry>, field: AuditField, value: Seq<char>) -> Seq<
    AuditLogEntry,
>
    decreases s.len(),
{
    if s.len() == 0 {
        Seq::empty()
    } else if field_matches(s.last(), field, value) {
        entries_where(s.drop_last(), field, value).push(s.last())
    } else {
        entries_where(s.drop_last(), field, value)
    }
}

/// The audit trail kept in memory, with the cap it is written back with (0: no cap).
pub struct AuditLog {
    entries: Vec<AuditLogEntry>,
    max_entries: usize,
}

impl AuditLog {
    /// The entries, in the order they were logged.
    pub closed spec fn logged(&self) -> Seq<AuditLogEntry> {
        self.entries@
    }

    /// The cap on the entries written back (0: no cap).
    pub closed spec fn cap(&self) -> usize {
        self.max_entries
    }

    /// A trail holding `entries` (as read back from disk), written back with the cap
    /// `max_entries`.
    pub fn new(entries: Vec<AuditLogEntry>, max_entries: usize) -> (r: Self)
        ensures
            r.logged() == entries@,
            r.cap() == max_entries,
    {
        AuditLog { entries, max_entries }
    }

    /// Records an operation at the end of the trail.
    pub fn log_operation(&mut self, entry: AuditLogEntry)
        ensures
            final(self).logged() == old(self).logged().push(entry),
            final(self).cap() == old(self).cap(),
    {
        self.entries.push(entry);
    }

    /// Forgets every entry.
    pub fn clear(&mut self)
        ensures
            final(self).logged().len() == 0,
            final(self).cap() == old(self).cap(),
    {
        self.entries.clear();
    }

    /// Copies of all entries, in the order they were logged.
    pub fn get_all_entries(&self) -> (r: Vec<AuditLogEntry>)
        ensures
            r@.len() == self.logged().len(),
            forall|k: int| 0 <= k < r@.len() ==> same_entry(#[trigger] r@[k], self.logged()[k]),
    {
        let mut out: Vec<AuditLogEntry> = Vec::new();
        let mut i: usize = 0;
        while i < self.entries.len()
            invariant
                i <= self.entries@.len(),
                out@.len() == i,
                forall|k: int| 0 <= k < i ==> same_entry(#[trigger] out@[k], self.entries@[k]),
            decreases self.entries.len() - i,
        {
            out.push(self.entries[i].duplicate());
            i = i + 1;
        }
        out
    }

    fn entries_matching(&self, field: AuditField, value: &str) -> (r: Vec<AuditLogEntry>)
        ensures
            r@.len() == entries_where(self.logged(), field, value@).len(),
            forall|k: int|
                0 <= k < r@.len() ==> same_entry(
                    #[trigger] r@[k],
                    entries_where(self.logged(), field, value@)[k],
                ),
    {
        let ghost s = self.entries@;
        let mut out: Vec<AuditLogEntry> = Vec::new();
        let mut i: usize = 0;
        while i < self.entries.len()
            invariant
                s == self.entries@,
                i <= s.len(),
                out@.len() == entries_where(s.subrange(0, i as int), field, value@).len(),
                forall|k: int|
                    0 <= k < out@.len() ==> same_entry(
                        #[trigger] out@[k],
                        entries_where(s.subrange(0, i as int), field, value@)[k],
                    ),
            decreases s.len() - i,
        {
            proof {
                assert(s.subrange(0, i + 1).drop_last() =~= s.subrange(0, i as int));
                assert(s.subrange(0, i + 1).last() == s[i as int]);
            }
            let e = &self.entries[i];
            let hit = match field {
                AuditField::User => match &e.user_id {
                    Some(u) => same_text(u.as_str(), value),
                    None => false,
                },
                AuditField::Organization => match &e.organization_id {
                    Some(o) => same_text(o.as_str(), value),
                    None => false,
                },
                AuditField::OperationType => same_text(e.operation_type.as_str(), value),
                AuditField::Status => same_text(e.status.as_str(), value),
            };
            if hit {
                out.push(e.duplicate());
            }
            i = i + 1;
        }
        proof {
            assert(s.subrange(0, s.len() as int) =~= s);
        }
        out
    }

    /// Copies of the entries of the user `user_id`, in the order they were logged.
    pub fn get_entries_by_user(&self, user_id: &str) -> (r: Vec<AuditLogEntry>)
        ensures
            r@.len() == entries_where(self.logged(), AuditField::User, user_id@).len(),
            forall|k: int|
                0 <= k < r@.len() ==> same_entry(
                    #[trigger] r@[k],
                    entries_where(self.logged(), AuditField::User, user_id@)[k],
                ),
    {
        self.entries_matching(AuditField::User, user_id)
    }

    /// Copies of the entries of the organization `organization_id`, in the order they were
    /// logged.
    pub fn get_entries_by_organization(&self, organization_id: &str) -> (r: Vec<AuditLogEntry>)
        ensures
            r@.len() == entries_where(
                self.logged(),
                AuditField::Organization,
                organization_id@,
            ).len(),
            forall|k: int|
                0 <= k < r@.len() ==> same_entry(
                    #[trigger] r@[k],
                    entries_where(self.logged(), AuditField::Organization, organization_id@)[k],
                ),
    {
        self.entries_matching(AuditField::Organization, organization_id)
    }

    /// Copies of the entries of operations of the kind named `operation_type`.
    pub fn get_entries_by_type(&self, operation_type: &str) -> (r: Vec<AuditLogEntry>)
        ensures
            r@.len() == entries_where(
                self.logged(),
                AuditField::OperationType,
                operation_type@,
            ).len(),
            forall|k: int|
                0 <= k < r@.len() ==> same_entry(
                    #[trigger] r@[k],
                    entries_where(self.logged(), AuditField::OperationType, operation_type@)[k],
                ),
    {
        self.entries_matching(AuditField::OperationType, operation_type)
    }

    /// Copies of the entries of operations whose status is named `status`.
    pub fn get_entries_by_status(&self, status: &str) -> (r: Vec<AuditLogEntry>)
        ensures
            r@.len() == entries_where(self.logged(), AuditField::Status, status@).len(),
            forall|k: int|
                0 <= k < r@.len() ==> same_entry(
                    #[trigger] r@[k],
                    entries_where(self.logged(), AuditField::Status, status@)[k],
                ),
    {
        self.entries_matching(AuditField::Status, status)
    }

    /// Copies of the entries to write back (see `entries_saved`).
    pub fn entries_to_save(&self) -> (r: Vec<AuditLogEntry>)
        ensures
            r@.len() == entries_saved(self.logged(), self.cap()).len(),
            forall|k: int|
                0 <= k < r@.len() ==> same_entry(
                    #[trigger] r@[k],
                    entries_saved(self.logged(), self.cap())[k],
                ),
    {
        if !(self.max_entries > 0 && self.entries.len() > self.max_entries) {
            return self.get_all_entries();
        }
        let ghost s = self.entries@;
        let n = self.entries.len();
        let mut keyed: Vec<(i128, usize)> = Vec::new();
        let mut i: usize = 0;
        while i < n
            invariant
                s == self.entries@,
                n == s.len(),
                i <= n,
                keyed@ == timed_positions(s).subrange(0, i as int),
            decreases n - i,
        {
            let t = entry_time(&self.entries[i]);
            keyed.push((t, i));
            proof {
                assert(keyed@ =~= timed_positions(s).subrange(0, i + 1));
            }
            i = i + 1;
        }
        proof {
            assert(keyed@ =~= timed_positions(s));
        }
        let mut sorted = sort_newest_first(keyed);
        sorted.truncate(self.max_entries);
        let ghost order = sorted@;
        proof {
            broadcast use vstd::seq_lib::group_to_multiset_ensures;

            lemma_newest_first_permutes(timed_positions(s));
            lemma_newest_first_ordered(timed_positions(s));
            assert forall|k: int| 0 <= k < order.len() implies (#[trigger] order[k]).1 < n by {
                let all = newest_first(timed_positions(s));
                assert(order[k] == all[k]);
                assert(all.contains(all[k]));
                assert(all.to_multiset().count(all[k]) > 0);
                assert(timed_positions(s).contains(all[k]));
            }
        }
        let mut out: Vec<AuditLogEntry> = Vec::new();
        let mut j: usize = 0;
        while j < sorted.len()
            invariant
                s == self.entries@,
                n == s.len(),
                order == sorted@,
                forall|k: int| 0 <= k < order.len() ==> (#[trigger] order[k]).1 < n,
                j <= order.len(),
                out@.len() == j,
                forall|k: int| 0 <= k < j ==> same_entry(#[trigger] out@[k], s[order[k].1 as int]),
            decreases order.len() - j,
        {
            let idx = sorted[j].1;
            out.push(self.entries[idx].duplicate());
            j = j + 1;
        }
        proof {
            let saved = entries_saved(s, self.max_entries);
            assert(order =~= newest_first(timed_positions(s)).take(self.max_entries as int));
            assert forall|k: int| 0 <= k < out@.len() implies same_entry(
                #[trigger] out@[k],
                saved[k],
            ) by {
                assert(saved[k] == s[order[k].1 as int]);
            }
        }
        out
    }
}

/// What is written back holds no more entries than the cap, is ordered newest first when
/// the cap cut it, and holds only logged entries.
pub proof fn lemma_entries_saved_sound(s: Seq<AuditLogEntry>, max: usize)
    requires
        s.len() <= usize::MAX,
    ensures
        max > 0 ==> entries_saved(s, max).len() <= max,
        max > 0 && s.len() > max ==> forall|i: int, j: int|
            0 <= i < j < entries_saved(s, max).len() ==> audit_time(
                #[trigger] entries_saved(s, max)[i],
            ) >= audit_time(#[trigger] entries_saved(s, max)[j]),
        forall|k: int| 0 <= k < entries_saved(s, max).len() ==> s.contains(
            #[trigger] entries_saved(s, max)[k],
        ),
{
    broadcast use vstd::seq_lib::group_to_multiset_ensures;

    if max > 0 && s.len() > max {
        let tp = timed_positions(s);
        let all = newest_first(tp);
        lemma_newest_first_permutes(tp);
        lemma_newest_first_ordered(tp);
        let saved = entries_saved(s, max);
        assert forall|k: int| 0 <= k < all.len() implies (#[trigger] all[k]).1 < s.len() && all[k].0
            == audit_time(s[all[k].1 as int]) by {
            assert(all.contains(all[k]));
            assert(all.to_multiset().count(all[k]) > 0);
            assert(tp.contains(all[k]));
            let m = choose|m: int| 0 <= m < tp.len() && tp[m] == all[k];
            assert(tp[m].1 == m as usize);
        }
        assert forall|i: int, j: int| 0 <= i < j < saved.len() implies audit_time(
            #[trigger] saved[i],
        ) >= audit_time(#[trigger] saved[j]) by {
            assert(saved[i] == s[all[i].1 as int]);
            assert(saved[j] == s[all[j].1 as int]);
        }
        assert forall|k: int| 0 <= k < saved.len() implies s.contains(#[trigger] saved[k]) by {
            assert(saved[k] == s[all[k].1 as int]);
        }
    } else {
        assert forall|k: int| 0 <= k < s.len() implies s.contains(#[trigger] s[k]) by {}
    }
}

} // verus!
