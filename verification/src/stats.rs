//! Per-widget statistics and the table that holds them, keyed by widget name.
use vstd::prelude::*;

use crate::time::Duration;

verus! {

/// Statistics collected for a single widget across its lifetime.
#[derive(Debug)]
pub struct PerWidgetStats {
    /// Widget name (the label passed to `begin_widget`).
    pub name: String,
    /// Total render time accumulated across all frames, in microseconds.
    pub total_time_us: u64,
    /// Number of times this widget has been rendered.
    pub render_count: u64,
    /// Cells written in the most recent render.
    pub last_cells: usize,
    /// Peak render time for a single call, in microseconds.
    pub peak_time_us: u64,
    /// Cells written on the previous render.
    pub prev_cells: usize,
    /// Whether the last render was a full redraw (the cell count changed by
    /// more than half).
    pub last_was_full_redraw: bool,
    /// Whether this widget may do full redraws without triggering the
    /// full-redraw heuristic (e.g. full-screen widgets).
    pub full_redraw_allowed: bool,
}

impl Clone for PerWidgetStats {
    fn clone(&self) -> (r: Self)
        ensures
            r == *self,
    {
        PerWidgetStats {
            name: self.name.clone(),
            total_time_us: self.total_time_us,
            render_count: self.render_count,
            last_cells: self.last_cells,
            peak_time_us: self.peak_time_us,
            prev_cells: self.prev_cells,
            last_was_full_redraw: self.last_was_full_redraw,
            full_redraw_allowed: self.full_redraw_allowed,
        }
    }
}

impl PerWidgetStats {
    /// Fresh statistics for a widget that has not rendered yet.
    pub open spec fn fresh(name: String) -> PerWidgetStats {
        PerWidgetStats {
            name,
            total_time_us: 0,
            render_count: 0,
            last_cells: 0,
            peak_time_us: 0,
            prev_cells: 0,
            last_was_full_redraw: false,
            full_redraw_allowed: false,
        }
    }

    /// Fresh statistics for the widget `name`.
    pub fn new(name: &str) -> (s: Self)
        ensures
            s.name@ == name@,
            s == Self::fresh(s.name),
    {
        PerWidgetStats {
            name: name.to_owned(),
            total_time_us: 0,
            render_count: 0,
            last_cells: 0,
            peak_time_us: 0,
            prev_cells: 0,
            last_was_full_redraw: false,
            full_redraw_allowed: false,
        }
    }

    /// Average render time per call, in whole microseconds (0 before the
    /// first render).
    pub open spec fn avg_time_us(self) -> nat {
        if self.render_count == 0 {
            0
        } else {
            (self.total_time_us / self.render_count) as nat
        }
    }

    /// Average render time per call.
    pub fn avg_time(&self) -> (d: Duration)
        ensures
            d@ == self.avg_time_us() * 1000,
    {
        if self.render_count == 0 {
            Duration::zero()
        } else {
            Duration::from_micros(self.total_time_us / self.render_count)
        }
    }

    /// Total time as a duration.
    pub fn total_time(&self) -> (d: Duration)
        ensures
            d@ == self.total_time_us * 1000,
    {
        Duration::from_micros(self.total_time_us)
    }

    /// Peak time as a duration.
    pub fn peak_time(&self) -> (d: Duration)
        ensures
            d@ == self.peak_time_us * 1000,
    {
        Duration::from_micros(self.peak_time_us)
    }
}

/// The statistics of each widget, keyed by widget name. Entries keep the
/// order in which their keys were first inserted.
pub struct WidgetStatsMap {
    entries: Vec<(String, PerWidgetStats)>,
}

/// Whether no two entries share a key.
pub open spec fn distinct_keys(entries: Seq<(String, PerWidgetStats)>) -> bool {
    forall|i: int, j: int|
        0 <= i < entries.len() && 0 <= j < entries.len() && i != j ==> entries[i].0@
            != entries[j].0@
}

/// The position of the entry of `key` in `entries`.
pub open spec fn stats_index(entries: Seq<(String, PerWidgetStats)>, key: Seq<char>) -> int {
    choose|i: int| 0 <= i < entries.len() && entries[i].0@ == key
}

/// The statistics stored under `key` in `entries`.
pub open spec fn stats_lookup(entries: Seq<(String, PerWidgetStats)>, key: Seq<char>) -> Option<
    PerWidgetStats,
> {
    if exists|i: int| 0 <= i < entries.len() && entries[i].0@ == key {
        Some(entries[stats_index(entries, key)].1)
    } else {
        None
    }
}

impl View for WidgetStatsMap {
    type V = Seq<(String, PerWidgetStats)>;

    closed spec fn view(&self) -> Seq<(String, PerWidgetStats)> {
        self.entries@
    }
}

impl WidgetStatsMap {
    #[verifier::type_invariant]
    closed spec fn keys_distinct(self) -> bool {
        distinct_keys(self.entries@)
    }

    /// Whether `key` has an entry.
    pub open spec fn has_key(self, key: Seq<char>) -> bool {
        exists|i: int| 0 <= i < self@.len() && self@[i].0@ == key
    }

    /// The position of the entry of `key`.
    pub open spec fn key_index(self, key: Seq<char>) -> int {
        choose|i: int| 0 <= i < self@.len() && self@[i].0@ == key
    }

    /// The statistics stored under `key`.
    pub open spec fn lookup(self, key: Seq<char>) -> Option<PerWidgetStats> {
        stats_lookup(self@, key)
    }

    /// The entries after inserting `value` under `key`: an entry with the
    /// same key text keeps its place and takes the new key and value; a new
    /// key is appended.
    pub open spec fn inserted(
        entries: Seq<(String, PerWidgetStats)>,
        key: String,
        value: PerWidgetStats,
    ) -> Seq<(String, PerWidgetStats)> {
        if exists|i: int| 0 <= i < entries.len() && entries[i].0@ == key@ {
            let i = choose|i: int| 0 <= i < entries.len() && entries[i].0@ == key@;
            entries.update(i, (key, value))
        } else {
            entries.push((key, value))
        }
    }

    /// An empty map.
    pub fn new() -> (m: Self)
        ensures
            m@ == Seq::<(String, PerWidgetStats)>::empty(),
            distinct_keys(m@),
    {
        WidgetStatsMap { entries: Vec::new() }
    }

    /// Number of widgets.
    pub fn len(&self) -> (n: usize)
        ensures
            n == self@.len(),
            distinct_keys(self@),
    {
        proof {
            use_type_invariant(self);
        }
        self.entries.len()
    }

    /// Whether there are no widgets.
    pub fn is_empty(&self) -> (b: bool)
        ensures
            b == (self@.len() == 0),
    {
        self.entries.len() == 0
    }

    /// The entries, in insertion order.
    pub fn as_slice(&self) -> (s: &[(String, PerWidgetStats)])
        ensures
            s@ == self@,
            distinct_keys(self@),
    {
        proof {
            use_type_invariant(self);
        }
        self.entries.as_slice()
    }

    /// The position of the entry of `name`, if there is one.
    pub fn position(&self, name: &str) -> (r: Option<usize>)
        ensures
            r.is_some() == self.has_key(name@),
            r matches Some(i) ==> i < self@.len() && self@[i as int].0@ == name@ && i
                == self.key_index(name@),
    {
        proof {
            use_type_invariant(self);
        }
        let key = name.to_owned();
        let mut i: usize = 0;
        while i < self.entries.len()
            invariant
                key@ == name@,
                distinct_keys(self.entries@),
                i <= self.entries@.len(),
                forall|k: int| 0 <= k < i ==> self.entries@[k].0@ != name@,
            decreases self.entries.len() - i,
        {
            if self.entries[i].0 == key {
                let ghost j = self.key_index(name@);
                assert(self@[i as int].0@ == name@);
                assert(j == i) by {
                    if j != i {
                        assert(self@[j].0@ == name@);
                    }
                }
                return Some(i);
            }
            i = i + 1;
        }
        None
    }

    /// Whether `name` has an entry.
    pub fn contains_key(&self, name: &str) -> (b: bool)
        ensures
            b == self.has_key(name@),
    {
        self.position(name).is_some()
    }

    /// The statistics of `name`, if it has an entry.
    pub fn get(&self, name: &str) -> (r: Option<&PerWidgetStats>)
        ensures
            r.is_some() == self.has_key(name@),
            r matches Some(s) ==> self.lookup(name@) == Some(*s),
    {
        match self.position(name) {
            Some(i) => Some(&self.entries[i].1),
            None => None,
        }
    }

    /// Stores `value` under `key`, replacing an existing entry with the same
    /// key text in place.
    pub fn insert(&mut self, key: String, value: PerWidgetStats)
        ensures
            final(self)@ == Self::inserted(old(self)@, key, value),
            distinct_keys(final(self)@),
            final(self).lookup(key@) == Some(value),
            forall|k: Seq<char>| k != key@ ==> #[trigger] final(self).lookup(k) == old(self).lookup(k),
    {
        proof {
            use_type_invariant(&*self);
            assert forall|k: Seq<char>| true implies {
                &&& stats_lookup(Self::inserted(old(self)@, key, value), key@) == Some(value)
                &&& k != key@ ==> stats_lookup(Self::inserted(old(self)@, key, value), k)
                    == stats_lookup(old(self)@, k)
            } by {
                lemma_lookup_inserted(old(self)@, key, value, k);
            }
            lemma_lookup_inserted(old(self)@, key, value, key@);
        }
        match self.position(key.as_str()) {
            Some(i) => {
                let mut entries = Vec::new();
                std::mem::swap(&mut entries, &mut self.entries);
                entries.set(i, (key, value));
                proof {
                    assert(entries@ =~= Self::inserted(old(self)@, key, value));
                }
                self.entries = entries;
                proof {
                    use_type_invariant(&*self);
                }
            },
            None => {
                let mut entries = Vec::new();
                std::mem::swap(&mut entries, &mut self.entries);
                entries.push((key, value));
                proof {
                    assert(entries@ =~= Self::inserted(old(self)@, key, value));
                }
                self.entries = entries;
                proof {
                    use_type_invariant(&*self);
                }
            },
        }
    }

    /// Replaces the value of the entry at position `i`, keeping its key.
    pub fn set_value_at(&mut self, i: usize, value: PerWidgetStats)
        requires
            i < old(self)@.len(),
        ensures
            final(self)@ == old(self)@.update(i as int, (old(self)@[i as int].0, value)),
            distinct_keys(final(self)@),
            final(self).lookup(old(self)@[i as int].0@) == Some(value),
            forall|k: Seq<char>|
                k != old(self)@[i as int].0@ ==> #[trigger] final(self).lookup(k) == old(
                    self,
                ).lookup(k),
    {
        proof {
            use_type_invariant(&*self);
            let key = old(self)@[i as int].0;
            lemma_lookup_at(old(self)@, i as int);
            assert(Self::inserted(old(self)@, key, value) == old(self)@.update(
                i as int,
                (key, value),
            ));
            assert forall|k: Seq<char>| k != key@ implies stats_lookup(
                Self::inserted(old(self)@, key, value),
                k,
            ) == stats_lookup(old(self)@, k) by {
                lemma_lookup_inserted(old(self)@, key, value, k);
            }
            lemma_lookup_inserted(old(self)@, key, value, key@);
        }
        let k = self.entries[i].0.clone();
        let mut entries = Vec::new();
        std::mem::swap(&mut entries, &mut self.entries);
        entries.set(i, (k, value));
        self.entries = entries;
        proof {
            use_type_invariant(&*self);
        }
    }

    /// The statistics at position `i`.
    pub fn value_at(&self, i: usize) -> (s: &PerWidgetStats)
        requires
            i < self@.len(),
        ensures
            *s == self@[i as int].1,
    {
        &self.entries[i].1
    }

    /// Removes every entry.
    pub fn clear(&mut self)
        ensures
            final(self)@ == Seq::<(String, PerWidgetStats)>::empty(),
            distinct_keys(final(self)@),
    {
        self.entries = Vec::new();
    }
}

/// In a table with distinct keys, the entry at position `i` is what its key
/// looks up.
pub proof fn lemma_lookup_at(entries: Seq<(String, PerWidgetStats)>, i: int)
    requires
        distinct_keys(entries),
        0 <= i < entries.len(),
    ensures
        stats_index(entries, entries[i].0@) == i,
        stats_lookup(entries, entries[i].0@) == Some(entries[i].1),
{
    let k = entries[i].0@;
    assert(0 <= i < entries.len() && entries[i].0@ == k);
    let j = stats_index(entries, k);
    if j != i {
        assert(entries[j].0@ == k);
    }
}

/// Reading a key back after inserting it gives the inserted value; every
/// other key reads as before; and the keys stay distinct.
pub proof fn lemma_lookup_inserted(
    entries: Seq<(String, PerWidgetStats)>,
    key: String,
    value: PerWidgetStats,
    other: Seq<char>,
)
    requires
        distinct_keys(entries),
    ensures
        distinct_keys(WidgetStatsMap::inserted(entries, key, value)),
        stats_lookup(WidgetStatsMap::inserted(entries, key, value), key@) == Some(value),
        other != key@ ==> stats_lookup(WidgetStatsMap::inserted(entries, key, value), other)
            == stats_lookup(entries, other),
{
    let after = WidgetStatsMap::inserted(entries, key, value);
    if exists|i: int| 0 <= i < entries.len() && entries[i].0@ == key@ {
        let i = choose|i: int| 0 <= i < entries.len() && entries[i].0@ == key@;
        assert(after == entries.update(i, (key, value)));
        assert(distinct_keys(after));
        lemma_lookup_at(after, i);
        if other != key@ {
            if exists|j: int| 0 <= j < entries.len() && entries[j].0@ == other {
                let j = choose|j: int| 0 <= j < entries.len() && entries[j].0@ == other;
                lemma_lookup_at(entries, j);
                assert(after[j] == entries[j]);
                lemma_lookup_at(after, j);
            } else {
                assert(!(exists|j: int| 0 <= j < after.len() && after[j].0@ == other)) by {
                    if exists|j: int| 0 <= j < after.len() && after[j].0@ == other {
                        let j = choose|j: int| 0 <= j < after.len() && after[j].0@ == other;
                        assert(entries[j].0@ == other);
                    }
                }
            }
        }
    } else {
        assert(after == entries.push((key, value)));
        assert(distinct_keys(after));
        lemma_lookup_at(after, entries.len() as int);
        if other != key@ {
            if exists|j: int| 0 <= j < entries.len() && entries[j].0@ == other {
                let j = choose|j: int| 0 <= j < entries.len() && entries[j].0@ == other;
                lemma_lookup_at(entries, j);
                assert(after[j] == entries[j]);
                lemma_lookup_at(after, j);
            } else {
                assert(!(exists|j: int| 0 <= j < after.len() && after[j].0@ == other)) by {
                    if exists|j: int| 0 <= j < after.len() && after[j].0@ == other {
                        let j = choose|j: int| 0 <= j < after.len() && after[j].0@ == other;
                        if j < entries.len() {
                            assert(entries[j].0@ == other);
                        }
                    }
                }
            }
        }
    }
}

} // verus!
