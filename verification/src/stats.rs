//! Tick timing: a rolling FPS accumulator and named timing sectors, all in
//! integral microseconds.

use vstd::prelude::*;
use crate::storage::{assoc, lemma_assoc_at, lemma_assoc_none, lemma_assoc_push,
    lemma_assoc_update};

verus! {

/// Relies on `std::time::SystemTime::elapsed` (against the Unix epoch): the
/// current wall clock in microseconds. Nothing is promised of the value.
#[verifier::external_body]
fn now_micros() -> u64 {
    match std::time::UNIX_EPOCH.elapsed() {
        Ok(d) => d.as_micros() as u64,
        Err(_) => 0,
    }
}

pub struct Stats {
    /// When the previous tick started.
    pub last_update: u64,
    /// How long the previous tick gap was.
    pub tick_micros: u64,
    /// Running total and count of tick gaps, for the average.
    pub acc_total: u64,
    pub acc_count: u64,
    /// Named timing sectors.
    pub sectors: Vec<(String, u64)>,
}

impl Stats {
    /// Sector names are unique.
    pub open spec fn wf(&self) -> bool {
        forall|i: int, j: int|
            0 <= i < j < self.sectors@.len() ==> self.sectors@[i].0@ != self.sectors@[j].0@
    }

    pub fn new() -> (s: Stats)
        ensures
            s.wf(),
            s.sectors@.len() == 0,
            s.tick_micros == 0,
            s.acc_total == 0,
            s.acc_count == 0,
    {
        Stats {
            last_update: now_micros(),
            tick_micros: 0,
            acc_total: 0,
            acc_count: 0,
            sectors: Vec::new(),
        }
    }

    /// Open a new tick: record the gap since the previous one and fold it
    /// into the running average.
    pub fn new_tick(&mut self)
        requires
            old(self).wf(),
        ensures
            final(self).wf(),
            final(self).sectors@ == old(self).sectors@,
    {
        let now: u64 = now_micros();
        let diff: u64 = if now >= self.last_update {
            now - self.last_update
        } else {
            0
        };
        self.tick_micros = diff;
        self.acc_total = if self.acc_total <= u64::MAX - diff {
            self.acc_total + diff
        } else {
            u64::MAX
        };
        self.acc_count = if self.acc_count < u64::MAX {
            self.acc_count + 1
        } else {
            self.acc_count
        };
        self.last_update = now;
    }

    /// Frames per second of the previous tick gap.
    pub fn get_fps(&self) -> (r: u64)
        ensures
            r == (if self.tick_micros > 0 {
                1000000 as int / self.tick_micros as int
            } else {
                0
            }),
    {
        if self.tick_micros > 0 {
            1000000 / self.tick_micros
        } else {
            0
        }
    }

    /// Frames per second of the average tick gap.
    pub fn get_average_fps(&self) -> (r: u64)
        ensures
            r == (if self.acc_count > 0 && self.acc_total as int / self.acc_count as int > 0 {
                1000000 as int / (self.acc_total as int / self.acc_count as int)
            } else {
                0
            }),
    {
        if self.acc_count == 0 {
            return 0;
        }
        let avg: u64 = self.acc_total / self.acc_count;
        if avg > 0 {
            1000000 / avg
        } else {
            0
        }
    }

    /// Record (or overwrite) a named timing sector.
    #[verifier::loop_isolation(false)]
    pub fn update_sector(&mut self, label: &str, micros: u64)
        requires
            old(self).wf(),
        ensures
            final(self).wf(),
            assoc(final(self).sectors@, label@) == Some(micros),
            forall|key: Seq<char>|
                key != label@ ==> assoc(final(self).sectors@, key) == assoc(
                    old(self).sectors@,
                    key,
                ),
    {
        let key: String = label.to_owned();
        let n: usize = self.sectors.len();
        let mut i: usize = 0;
        while i < n
            invariant
                i <= n,
                n == self.sectors@.len(),
                key@ == label@,
                self.wf(),
                *self == *old(self),
                forall|ii: int| 0 <= ii < i ==> self.sectors@[ii].0@ != label@,
            decreases n - i,
        {
            if self.sectors[i].0 == key {
                let ghost s0 = self.sectors@;
                self.sectors.set(i, (key, micros));
                proof {
                    lemma_assoc_update(s0, i as int, self.sectors@[i as int], label@);
                    assert forall|key2: Seq<char>|
                        key2 != label@ implies assoc(self.sectors@, key2) == assoc(s0, key2) by {
                        lemma_assoc_update(s0, i as int, self.sectors@[i as int], key2);
                    }
                    assert forall|a: int, b: int|
                        0 <= a < b < self.sectors@.len() implies self.sectors@[a].0@
                        != self.sectors@[b].0@ by {
                        assert(self.sectors@[a].0@ == s0[a].0@ && self.sectors@[b].0@
                            == s0[b].0@);
                    }
                }
                return ;
            }
            i = i + 1;
        }
        let ghost s0 = self.sectors@;
        self.sectors.push((key, micros));
        proof {
            lemma_assoc_none(s0, label@);
            lemma_assoc_push(s0, self.sectors@[s0.len() as int], label@);
            assert forall|key2: Seq<char>|
                key2 != label@ implies assoc(self.sectors@, key2) == assoc(s0, key2) by {
                lemma_assoc_push(s0, self.sectors@[s0.len() as int], key2);
            }
            assert forall|a: int, b: int|
                0 <= a < b < self.sectors@.len() implies self.sectors@[a].0@
                != self.sectors@[b].0@ by {
                if b == self.sectors@.len() - 1 {
                    assert(self.sectors@[a] == s0[a]);
                }
            }
        }
    }

    /// Read a named timing sector.
    #[verifier::loop_isolation(false)]
    pub fn get_sector(&self, label: &str) -> (r: Option<u64>)
        ensures
            r == assoc(self.sectors@, label@),
    {
        let key: String = label.to_owned();
        let n: usize = self.sectors.len();
        let mut i: usize = 0;
        while i < n
            invariant
                i <= n,
                n == self.sectors@.len(),
                key@ == label@,
                forall|ii: int| 0 <= ii < i ==> self.sectors@[ii].0@ != label@,
            decreases n - i,
        {
            if self.sectors[i].0 == key {
                proof {
                    lemma_assoc_at(self.sectors@, label@, i as int);
                }
                return Some(self.sectors[i].1);
            }
            i = i + 1;
        }
        proof {
            lemma_assoc_none(self.sectors@, label@);
        }
        None
    }
}

/// The wall clock in microseconds, for the orchestrator's timing sectors.
pub(crate) fn clock_micros() -> u64 {
    now_micros()
}

} // verus!
