//! Counters of changed lines, and the table that holds one set of them for
//! each language.

use crate::language::{languages_by_name, lemma_rank_inverse, rank, Language, LANGUAGE_COUNT};
use std::collections::HashMap;
use vstd::prelude::*;

verus! {

/// Four counts of changed lines: added and removed, outside tests and in
/// them. This is what a [`Stats`] stands for.
pub struct Counts {
    pub added: nat,
    pub removed: nat,
    pub test_added: nat,
    pub test_removed: nat,
}

impl Counts {
    /// No line counted.
    pub open spec fn zero() -> Counts {
        Counts { added: 0, removed: 0, test_added: 0, test_removed: 0 }
    }

    /// Changed lines outside tests.
    pub open spec fn total(self) -> nat {
        self.added + self.removed
    }

    /// Changed lines in tests.
    pub open spec fn test_total(self) -> nat {
        self.test_added + self.test_removed
    }

    /// All changed lines.
    pub open spec fn sum(self) -> nat {
        self.total() + self.test_total()
    }

    /// The counter that a line falls under.
    pub open spec fn counter(self, is_test: bool, is_added: bool) -> nat {
        if is_test {
            if is_added {
                self.test_added
            } else {
                self.test_removed
            }
        } else {
            if is_added {
                self.added
            } else {
                self.removed
            }
        }
    }

    /// These counts after one more line: the counter that the line falls
    /// under grows by one, the other three stay.
    pub open spec fn bump(self, is_test: bool, is_added: bool) -> Counts {
        if is_test {
            if is_added {
                Counts { test_added: self.test_added + 1, ..self }
            } else {
                Counts { test_removed: self.test_removed + 1, ..self }
            }
        } else {
            if is_added {
                Counts { added: self.added + 1, ..self }
            } else {
                Counts { removed: self.removed + 1, ..self }
            }
        }
    }

    /// Every counter can be held in a `usize`.
    pub open spec fn fits(self) -> bool {
        &&& self.added <= usize::MAX
        &&& self.removed <= usize::MAX
        &&& self.test_added <= usize::MAX
        &&& self.test_removed <= usize::MAX
    }

    /// No counter is smaller in `later` than in `self`.
    pub open spec fn at_most(self, later: Counts) -> bool {
        &&& self.added <= later.added
        &&& self.removed <= later.removed
        &&& self.test_added <= later.test_added
        &&& self.test_removed <= later.test_removed
    }
}

/// Counters of changed lines.
#[derive(Debug, Clone, Copy, PartialEq, Eq, Structural)]
pub struct Stats {
    pub added: usize,
    pub removed: usize,
    pub test_added: usize,
    pub test_removed: usize,
}

impl View for Stats {
    type V = Counts;

    open spec fn view(&self) -> Counts {
        Counts {
            added: self.added as nat,
            removed: self.removed as nat,
            test_added: self.test_added as nat,
            test_removed: self.test_removed as nat,
        }
    }
}

impl Default for Stats {
    fn default() -> (stats: Stats)
        ensures
            stats@ == Counts::zero(),
    {
        Stats::new()
    }
}

impl Stats {
    /// Counters that stand at zero.
    pub fn new() -> (stats: Stats)
        ensures
            stats@ == Counts::zero(),
    {
        Stats { added: 0, removed: 0, test_added: 0, test_removed: 0 }
    }

    /// Changed lines outside tests: added and removed together.
    pub fn total(&self) -> (total: u128)
        ensures
            total == self@.total(),
    {
        self.added as u128 + self.removed as u128
    }

    /// Changed lines in tests: added and removed together.
    pub fn test_total(&self) -> (total: u128)
        ensures
            total == self@.test_total(),
    {
        self.test_added as u128 + self.test_removed as u128
    }

    /// Whether no line was counted.
    pub fn is_zero(&self) -> (zero: bool)
        ensures
            zero == (self@.sum() == 0),
    {
        self.added == 0 && self.removed == 0 && self.test_added == 0 && self.test_removed == 0
    }

    /// Counts one more line.
    pub fn record(&mut self, is_test: bool, is_added: bool)
        requires
            old(self)@.counter(is_test, is_added) < usize::MAX,
        ensures
            final(self)@ == old(self)@.bump(is_test, is_added),
    {
        if is_test {
            if is_added {
                self.test_added += 1;
            } else {
                self.test_removed += 1;
            }
        } else {
            if is_added {
                self.added += 1;
            } else {
                self.removed += 1;
            }
        }
    }
}

/// The counts that a table holds for a language: those of its entry, or zero
/// where it has none.
pub open spec fn entry_or_zero(code: Map<Language, Counts>, language: Language) -> Counts {
    if code.contains_key(language) {
        code[language]
    } else {
        Counts::zero()
    }
}

/// The lines that a table holds for the first `n` languages.
pub open spec fn sum_upto(code: Map<Language, Counts>, n: int) -> nat
    decreases n,
{
    if n <= 0 {
        0
    } else {
        sum_upto(code, n - 1) + entry_or_zero(code, languages_by_name()[n - 1]).sum()
    }
}

/// All lines that a table holds.
pub open spec fn code_sum(code: Map<Language, Counts>) -> nat {
    sum_upto(code, LANGUAGE_COUNT as int)
}

/// A table without entries holds no lines.
pub proof fn lemma_sum_upto_empty(n: int)
    ensures
        sum_upto(Map::empty(), n) == 0,
    decreases n,
{
    if n > 0 {
        lemma_sum_upto_empty(n - 1);
    }
}

/// Counting a line under one language adds one to the lines held for the
/// languages up to it, and leaves the lines held for those before it.
pub proof fn lemma_sum_upto_insert(
    code: Map<Language, Counts>,
    language: Language,
    is_test: bool,
    is_added: bool,
    n: int,
)
    requires
        0 <= n <= LANGUAGE_COUNT,
    ensures
        sum_upto(
            code.insert(language, entry_or_zero(code, language).bump(is_test, is_added)),
            n,
        ) == sum_upto(code, n) + if rank(language) < n {
            1nat
        } else {
            0nat
        },
    decreases n,
{
    lemma_rank_inverse();
    if n > 0 {
        lemma_sum_upto_insert(code, language, is_test, is_added, n - 1);
    }
}

/// The lines held for one language are among all lines held.
pub proof fn lemma_entry_within_sum(code: Map<Language, Counts>, language: Language, n: int)
    requires
        rank(language) < n <= LANGUAGE_COUNT,
    ensures
        entry_or_zero(code, language).sum() <= sum_upto(code, n),
    decreases n,
{
    lemma_rank_inverse();
    if rank(language) < n - 1 {
        lemma_entry_within_sum(code, language, n - 1);
    }
}

/// Counters of changed lines of code, one set for each language. A language
/// has an entry from the first line that is counted under it. The entries
/// are kept in a hash map, under the rank of their language.
#[derive(Debug)]
pub struct CodeStats {
    entries: HashMap<usize, Stats>,
}

impl View for CodeStats {
    type V = Map<Language, Counts>;

    closed spec fn view(&self) -> Map<Language, Counts> {
        Map::new(
            |language: Language| self.entries@.contains_key(rank(language) as usize),
            |language: Language| self.entries@[rank(language) as usize]@,
        )
    }
}

impl CodeStats {
    /// A table without entries.
    pub fn new() -> (code: CodeStats)
        ensures
            code@ == Map::<Language, Counts>::empty(),
    {
        CodeStats { entries: HashMap::new() }
    }

    /// The counters of a language, if a line was counted under it.
    pub fn get(&self, language: Language) -> (entry: Option<Stats>)
        ensures
            match entry {
                Some(stats) => self@.contains_key(language) && self@[language] == stats@,
                None => !self@.contains_key(language),
            },
    {
        match self.entries.get(&language.rank()) {
            Some(stats) => Some(*stats),
            None => None,
        }
    }

    /// Counts one more line of code under a language, making its entry where
    /// there is none yet.
    pub fn record(&mut self, language: Language, is_test: bool, is_added: bool)
        requires
            entry_or_zero(old(self)@, language).counter(is_test, is_added) < usize::MAX,
        ensures
            final(self)@ == old(self)@.insert(
                language,
                entry_or_zero(old(self)@, language).bump(is_test, is_added),
            ),
    {
        let place = language.rank();
        let mut stats = match self.entries.get(&place) {
            Some(found) => *found,
            None => Stats::new(),
        };
        stats.record(is_test, is_added);
        self.entries.insert(place, stats);
        proof {
            lemma_rank_inverse();
        }
    }
}

} // verus!
