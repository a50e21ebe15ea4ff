//! Immutable snapshots of toggle thresholds, and their construction from the
//! entries of a configuration file.
use vstd::prelude::*;

verus! {

/// Names that occur at most once in a sequence of (name, threshold) pairs.
pub open spec fn names_unique(s: Seq<(String, u32)>) -> bool {
    forall|i: int, j: int|
        0 <= i < j < s.len() ==> #[trigger] s[i].0@ != #[trigger] s[j].0@
}

pub open spec fn has_name(s: Seq<(String, u32)>, n: Seq<char>) -> bool {
    exists|i: int| 0 <= i < s.len() && #[trigger] s[i].0@ == n
}

/// The mapping that a sequence of (name, threshold) pairs describes, where a
/// later pair for a name overrides an earlier one.
pub open spec fn pairs_map(s: Seq<(Seq<char>, u32)>) -> Map<Seq<char>, u32>
    decreases s.len(),
{
    if s.len() == 0 {
        Map::empty()
    } else {
        pairs_map(s.drop_last()).insert(s.last().0, s.last().1)
    }
}

/// One toggle as a configuration file states it.
pub struct ToggleEntry {
    pub name: String,
    /// Bit pattern of the `f32` threshold.
    pub threshold: u32,
    /// Human-readable note, used for reporting only.
    pub description: Option<String>,
}

/// Text that stands for a missing description.
pub open spec fn no_description() -> Seq<char> {
    "NO_DESCRIPTION"@
}

impl ToggleEntry {
    pub open spec fn pair(&self) -> (Seq<char>, u32) {
        (self.name@, self.threshold)
    }

    /// The description to report for this entry.
    pub fn description_or_default(&self) -> (r: String)
        ensures
            r@ == match self.description {
                Some(d) => d@,
                None => no_description(),
            },
    {
        match &self.description {
            Some(d) => d.clone(),
            None => {
                proof {
                    reveal_strlit("NO_DESCRIPTION");
                }
                "NO_DESCRIPTION".to_string()
            },
        }
    }
}

pub open spec fn entries_pairs(s: Seq<ToggleEntry>) -> Seq<(Seq<char>, u32)> {
    s.map_values(|e: ToggleEntry| e.pair())
}

/// A complete mapping from toggle name to threshold bits.
pub struct ToggleSet {
    entries: Vec<(String, u32)>,
}

impl View for ToggleSet {
    type V = Map<Seq<char>, u32>;

    closed spec fn view(&self) -> Map<Seq<char>, u32> {
        Map::new(
            |n: Seq<char>| has_name(self.entries@, n),
            |n: Seq<char>|
                self.entries@[choose|i: int|
                    0 <= i < self.entries@.len() && #[trigger] self.entries@[i].0@ == n].1,
        )
    }
}

impl ToggleSet {
    /// Each name appears once.
    pub closed spec fn wf(&self) -> bool {
        names_unique(self.entries@)
    }

    proof fn lemma_view_at(&self, i: int)
        requires
            self.wf(),
            0 <= i < self.entries@.len(),
        ensures
            self@.contains_key(self.entries@[i].0@),
            self@[self.entries@[i].0@] == self.entries@[i].1,
    {
        let n = self.entries@[i].0@;
        assert(has_name(self.entries@, n));
        let j = choose|j: int| 0 <= j < self.entries@.len() && #[trigger] self.entries@[j].0@ == n;
        if j < i {
            assert(self.entries@[j].0@ != self.entries@[i].0@);
        } else if i < j {
            assert(self.entries@[i].0@ != self.entries@[j].0@);
        }
    }

    /// The set with no toggles.
    pub fn new() -> (r: ToggleSet)
        ensures
            r.wf(),
            r@ == Map::<Seq<char>, u32>::empty(),
    {
        let r = ToggleSet { entries: Vec::new() };
        assert(r@ =~= Map::<Seq<char>, u32>::empty());
        r
    }

    /// Number of toggles.
    pub fn len(&self) -> (r: usize)
        requires
            self.wf(),
        ensures
            r == self@.len(),
    {
        proof {
            self.lemma_len();
        }
        self.entries.len()
    }

    proof fn lemma_len(&self)
        requires
            self.wf(),
        ensures
            self@.len() == self.entries@.len(),
        decreases self.entries@.len(),
    {
        let s = self.entries@;
        let keys = s.map_values(|p: (String, u32)| p.0@);
        assert forall|n: Seq<char>| self@.contains_key(n) <==> keys.contains(n) by {
            if self@.contains_key(n) {
                let i = choose|i: int| 0 <= i < s.len() && #[trigger] s[i].0@ == n;
                assert(keys[i] == n);
            }
            if keys.contains(n) {
                let i = choose|i: int| 0 <= i < keys.len() && keys[i] == n;
                assert(s[i].0@ == n);
            }
        }
        assert(keys.no_duplicates()) by {
            assert forall|i: int, j: int| 0 <= i < keys.len() && 0 <= j < keys.len() && i != j
                implies keys[i] != keys[j] by {
                if i < j {
                    assert(s[i].0@ != s[j].0@);
                } else {
                    assert(s[j].0@ != s[i].0@);
                }
            }
        }
        keys.unique_seq_to_set();
        assert(self@.dom() =~= keys.to_set());
    }

    /// Position of `name`, if it is present.
    fn find(&self, name: &String) -> (r: Option<usize>)
        requires
            self.wf(),
        ensures
            match r {
                Some(i) => i < self.entries@.len() && self.entries@[i as int].0@ == name@,
                None => !self@.contains_key(name@),
            },
    {
        let mut i: usize = 0;
        while i < self.entries.len()
            invariant
                i <= self.entries@.len(),
                forall|j: int| 0 <= j < i ==> #[trigger] self.entries@[j].0@ != name@,
            decreases self.entries@.len() - i,
        {
            if self.entries[i].0 == *name {
                return Some(i);
            }
            i = i + 1;
        }
        None
    }

    /// The threshold of `name`, or `None` where the set has no such toggle.
    pub fn lookup(&self, name: &str) -> (r: Option<u32>)
        requires
            self.wf(),
        ensures
            r == (if self@.contains_key(name@) {
                Some(self@[name@])
            } else {
                None::<u32>
            }),
    {
        let key = name.to_string();
        match self.find(&key) {
            Some(i) => {
                proof {
                    self.lemma_view_at(i as int);
                }
                Some(self.entries[i].1)
            },
            None => None,
        }
    }

    /// Binds `name` to `threshold`, replacing an earlier binding of it.
    pub fn insert(&mut self, name: String, threshold: u32)
        requires
            old(self).wf(),
        ensures
            final(self).wf(),
            final(self)@ == old(self)@.insert(name@, threshold),
    {
        let ghost n = name@;
        let ghost before = *self;
        match self.find(&name) {
            Some(i) => {
                self.entries.set(i, (name, threshold));
                proof {
                    let s = self.entries@;
                    assert forall|a: int, b: int| 0 <= a < b < s.len() implies
                        #[trigger] s[a].0@ != #[trigger] s[b].0@ by {
                        assert(before.entries@[a].0@ != before.entries@[b].0@);
                    }
                    self.lemma_view_at(i as int);
                    assert forall|m: Seq<char>| #[trigger] self@.contains_key(m) == before@.insert(n, threshold).contains_key(m) by {
                        if m != n {
                            if has_name(s, m) {
                                let j = choose|j: int| 0 <= j < s.len() && #[trigger] s[j].0@ == m;
                                assert(before.entries@[j].0@ == m);
                            }
                            if has_name(before.entries@, m) {
                                let j = choose|j: int| 0 <= j < s.len() && #[trigger] before.entries@[j].0@ == m;
                                assert(s[j].0@ == m);
                            }
                        }
                    }
                    assert forall|m: Seq<char>| #[trigger] self@.contains_key(m) && m != n implies
                        self@[m] == before@[m] by {
                        let j = choose|j: int| 0 <= j < s.len() && #[trigger] s[j].0@ == m;
                        self.lemma_view_at(j);
                        before.lemma_view_at(j);
                    }
                    assert(self@ =~= before@.insert(n, threshold));
                }
            },
            None => {
                self.entries.push((name, threshold));
                proof {
                    let s = self.entries@;
                    let k = s.len() - 1;
                    assert forall|a: int, b: int| 0 <= a < b < s.len() implies
                        #[trigger] s[a].0@ != #[trigger] s[b].0@ by {
                        if b == k {
                            if s[a].0@ == n {
                                assert(before.entries@[a].0@ == n);
                                assert(has_name(before.entries@, n));
                            }
                        } else {
                            assert(before.entries@[a].0@ != before.entries@[b].0@);
                        }
                    }
                    self.lemma_view_at(k);
                    assert forall|m: Seq<char>| #[trigger] self@.contains_key(m) == before@.insert(n, threshold).contains_key(m) by {
                        if m != n {
                            if has_name(s, m) {
                                let j = choose|j: int| 0 <= j < s.len() && #[trigger] s[j].0@ == m;
                                assert(before.entries@[j].0@ == m);
                            }
                            if has_name(before.entries@, m) {
                                let j = choose|j: int| 0 <= j < before.entries@.len() && #[trigger] before.entries@[j].0@ == m;
                                assert(s[j].0@ == m);
                            }
                        }
                    }
                    assert forall|m: Seq<char>| #[trigger] self@.contains_key(m) && m != n implies
                        self@[m] == before@[m] by {
                        let j = choose|j: int| 0 <= j < s.len() && #[trigger] s[j].0@ == m;
                        self.lemma_view_at(j);
                        before.lemma_view_at(j);
                    }
                    assert(self@ =~= before@.insert(n, threshold));
                }
            },
        }
    }

    /// The set that a configuration file's entries describe: each name with
    /// its threshold, a later entry for a name overriding an earlier one.
    pub fn from_entries(entries: &Vec<ToggleEntry>) -> (r: ToggleSet)
        ensures
            r.wf(),
            r@ == pairs_map(entries_pairs(entries@)),
    {
        let ghost pairs = entries_pairs(entries@);
        let mut r = ToggleSet::new();
        let mut i: usize = 0;
        proof {
            assert(pairs.take(0) =~= Seq::<(Seq<char>, u32)>::empty());
        }
        while i < entries.len()
            invariant
                r.wf(),
                i <= entries@.len(),
                pairs == entries_pairs(entries@),
                r@ == pairs_map(pairs.take(i as int)),
            decreases entries@.len() - i,
        {
            let e = &entries[i];
            r.insert(e.name.clone(), e.threshold);
            proof {
                assert(pairs.take(i + 1).drop_last() =~= pairs.take(i as int));
                assert(pairs[i as int] == e.pair());
            }
            i = i + 1;
        }
        proof {
            assert(pairs.take(i as int) =~= pairs);
        }
        r
    }
}

} // verus!
