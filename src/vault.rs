//! The vault: a map from unique labels to sealed entries.
use vstd::prelude::*;

verus! {

/// One stored secret: the nonce it was sealed with and the AES-GCM
/// ciphertext (with its tag).
#[derive(Debug)]
pub struct EncryptedPassword {
    pub nonce: Vec<u8>,
    pub cipher: Vec<u8>,
}

impl View for EncryptedPassword {
    type V = (Seq<u8>, Seq<u8>);

    open spec fn view(&self) -> (Seq<u8>, Seq<u8>) {
        (self.nonce@, self.cipher@)
    }
}

impl EncryptedPassword {
    /// A copy of this entry.
    pub fn copy(&self) -> (r: EncryptedPassword)
        ensures
            r@ == self@,
    {
        EncryptedPassword {
            nonce: vstd::slice::slice_to_vec(self.nonce.as_slice()),
            cipher: vstd::slice::slice_to_vec(self.cipher.as_slice()),
        }
    }
}

/// The view of a list of (label, entry) rows.
pub open spec fn rows_view(rows: Seq<(String, EncryptedPassword)>) -> Seq<
    (Seq<char>, (Seq<u8>, Seq<u8>)),
> {
    rows.map_values(|p: (String, EncryptedPassword)| (p.0@, p.1@))
}

/// The map that a list of rows describes; a later row wins over an earlier
/// one with the same label.
pub open spec fn rows_map(rows: Seq<(Seq<char>, (Seq<u8>, Seq<u8>))>) -> Map<
    Seq<char>,
    (Seq<u8>, Seq<u8>),
>
    decreases rows.len(),
{
    if rows.len() == 0 {
        Map::empty()
    } else {
        rows_map(rows.drop_last()).insert(rows.last().0, rows.last().1)
    }
}

/// No label occurs twice among the rows.
pub open spec fn labels_distinct(rows: Seq<(Seq<char>, (Seq<u8>, Seq<u8>))>) -> bool {
    forall|i: int, j: int| 0 <= i < j < rows.len() ==> rows[i].0 != rows[j].0
}

/// A map from labels to sealed entries. Labels are unique; the map is the
/// whole state of the vault.
pub struct Vault {
    labels: Vec<String>,
    entries: Vec<EncryptedPassword>,
    contents: Ghost<Map<Seq<char>, (Seq<u8>, Seq<u8>)>>,
}

impl View for Vault {
    type V = Map<Seq<char>, (Seq<u8>, Seq<u8>)>;

    closed spec fn view(&self) -> Map<Seq<char>, (Seq<u8>, Seq<u8>)> {
        self.contents@
    }
}

impl Vault {
    /// The two vectors run in parallel, no label occurs twice, and the map
    /// holds exactly their pairs.
    pub closed spec fn wf(&self) -> bool {
        &&& self.labels@.len() == self.entries@.len()
        &&& forall|i: int, j: int|
            0 <= i < j < self.labels@.len() ==> self.labels@[i]@ != self.labels@[j]@
        &&& forall|i: int|
            0 <= i < self.labels@.len() ==> #[trigger] self.contents@.contains_key(
                self.labels@[i]@,
            ) && self.contents@[self.labels@[i]@] == self.entries@[i]@
        &&& forall|l: Seq<char>|
            #[trigger] self.contents@.contains_key(l) ==> exists|i: int|
                0 <= i < self.labels@.len() && self.labels@[i]@ == l
    }

    /// Number of entries held.
    pub closed spec fn spec_len(&self) -> nat {
        self.labels@.len()
    }

    /// The label stored at position `i`.
    pub closed spec fn spec_label_at(&self, i: int) -> Seq<char> {
        self.labels@[i]@
    }

    /// An empty vault.
    pub fn new() -> (r: Vault)
        ensures
            r.wf(),
            r@ == Map::<Seq<char>, (Seq<u8>, Seq<u8>)>::empty(),
    {
        Vault { labels: Vec::new(), entries: Vec::new(), contents: Ghost(Map::empty()) }
    }

    /// Number of entries; each label sits at one position below it.
    pub fn len(&self) -> (r: usize)
        requires
            self.wf(),
        ensures
            r == self.spec_len(),
            forall|l: Seq<char>|
                self@.contains_key(l) <==> exists|i: int| 0 <= i < r && self.spec_label_at(i) == l,
    {
        proof {
            assert forall|l: Seq<char>|
                self@.contains_key(l) <==> exists|i: int|
                    0 <= i < self.labels@.len() && self.spec_label_at(i) == l by {
                if exists|i: int| 0 <= i < self.labels@.len() && self.spec_label_at(i) == l {
                    let i = choose|i: int|
                        0 <= i < self.labels@.len() && self.spec_label_at(i) == l;
                    assert(self.contents@.contains_key(self.labels@[i]@));
                }
                if self.contents@.contains_key(l) {
                    let i = choose|i: int| 0 <= i < self.labels@.len() && self.labels@[i]@ == l;
                    assert(self.spec_label_at(i) == l);
                }
            }
        }
        self.labels.len()
    }

    /// The label at position `i`, and its entry.
    pub fn entry_at(&self, i: usize) -> (r: (&String, &EncryptedPassword))
        requires
            self.wf(),
            i < self.spec_len(),
        ensures
            r.0@ == self.spec_label_at(i as int),
            self@.contains_key(r.0@),
            self@[r.0@] == r.1@,
    {
        (&self.labels[i], &self.entries[i])
    }

    /// Position of `label`, if the vault holds it.
    fn find(&self, label: &String) -> (r: Option<usize>)
        requires
            self.wf(),
        ensures
            match r {
                Some(i) => i < self.labels@.len() && self.labels@[i as int]@ == label@,
                None => !self@.contains_key(label@),
            },
    {
        let mut i: usize = 0;
        while i < self.labels.len()
            invariant
                self.wf(),
                i <= self.labels@.len(),
                forall|j: int| 0 <= j < i ==> self.labels@[j]@ != label@,
            decreases self.labels@.len() - i,
        {
            if self.labels[i] == *label {
                return Some(i);
            }
            i = i + 1;
        }
        None
    }

    /// Whether `label` is stored.
    pub fn contains_key(&self, label: &str) -> (r: bool)
        requires
            self.wf(),
        ensures
            r == self@.contains_key(label@),
    {
        let key = label.to_owned();
        self.find(&key).is_some()
    }

    /// The entry stored under `label`, if any.
    pub fn get(&self, label: &str) -> (r: Option<&EncryptedPassword>)
        requires
            self.wf(),
        ensures
            match r {
                Some(e) => self@.contains_key(label@) && self@[label@] == e@,
                None => !self@.contains_key(label@),
            },
    {
        let key = label.to_owned();
        match self.find(&key) {
            Some(i) => {
                assert(self.contents@.contains_key(self.labels@[i as int]@));
                Some(&self.entries[i])
            },
            None => None,
        }
    }

    /// Stores `entry` under `label`, replacing what was there.
    pub fn insert(&mut self, label: String, entry: EncryptedPassword)
        requires
            old(self).wf(),
        ensures
            final(self).wf(),
            final(self)@ == old(self)@.insert(label@, entry@),
    {
        let ghost l = label@;
        let ghost e = entry@;
        match self.find(&label) {
            Some(i) => {
                self.entries.set(i, entry);
                self.contents = Ghost(self.contents@.insert(l, e));
                assert forall|j: int| 0 <= j < self.labels@.len() implies #[trigger]
                    self.contents@.contains_key(self.labels@[j]@) && self.contents@[self.labels@[j]@]
                    == self.entries@[j]@ by {
                    if j != i {
                        assert(old(self).contents@.contains_key(old(self).labels@[j]@));
                        assert(self.labels@[j]@ != self.labels@[i as int]@);
                    }
                }
                assert forall|l2: Seq<char>| #[trigger]
                    self.contents@.contains_key(l2) implies exists|j: int|
                    0 <= j < self.labels@.len() && self.labels@[j]@ == l2 by {
                    if l2 == l {
                        assert(self.labels@[i as int]@ == l2);
                    } else {
                        assert(old(self).contents@.contains_key(l2));
                    }
                }
            },
            None => {
                let ghost n = self.labels@.len();
                assert forall|j: int| 0 <= j < n implies #[trigger] old(self).labels@[j]@ != l by {
                    assert(old(self).contents@.contains_key(old(self).labels@[j]@));
                }
                self.labels.push(label);
                self.entries.push(entry);
                self.contents = Ghost(self.contents@.insert(l, e));
                assert(self.labels@[n as int]@ == l);
                assert forall|j: int| 0 <= j < self.labels@.len() implies #[trigger]
                    self.contents@.contains_key(self.labels@[j]@) && self.contents@[self.labels@[j]@]
                    == self.entries@[j]@ by {
                    if j < n {
                        assert(self.labels@[j] == old(self).labels@[j]);
                        assert(old(self).contents@.contains_key(old(self).labels@[j]@));
                    }
                }
                assert forall|l2: Seq<char>| #[trigger]
                    self.contents@.contains_key(l2) implies exists|j: int|
                    0 <= j < self.labels@.len() && self.labels@[j]@ == l2 by {
                    if l2 == l {
                        assert(self.labels@[n as int]@ == l2);
                    } else {
                        assert(old(self).contents@.contains_key(l2));
                        let j = choose|j: int|
                            0 <= j < old(self).labels@.len() && old(self).labels@[j]@ == l2;
                        assert(self.labels@[j]@ == l2);
                    }
                }
            },
        }
    }

    /// Deletes the entry under `label`, which must be stored.
    pub fn remove(&mut self, label: &str)
        requires
            old(self).wf(),
            old(self)@.contains_key(label@),
        ensures
            final(self).wf(),
            final(self)@ == old(self)@.remove(label@),
    {
        let key = label.to_owned();
        let i = self.find(&key).unwrap();
        let ghost l = label@;
        self.labels.remove(i);
        self.entries.remove(i);
        self.contents = Ghost(self.contents@.remove(l));
        assert forall|a: int, b: int| 0 <= a < b < self.labels@.len() implies self.labels@[a]@
            != self.labels@[b]@ by {
            let oa = if a < i { a } else { a + 1 };
            let ob = if b < i { b } else { b + 1 };
            assert(self.labels@[a] == old(self).labels@[oa]);
            assert(self.labels@[b] == old(self).labels@[ob]);
        }
        assert forall|j: int| 0 <= j < self.labels@.len() implies #[trigger]
            self.contents@.contains_key(self.labels@[j]@) && self.contents@[self.labels@[j]@]
            == self.entries@[j]@ by {
            if j < i {
                assert(self.labels@[j] == old(self).labels@[j]);
                assert(old(self).contents@.contains_key(old(self).labels@[j]@));
                assert(old(self).labels@[j]@ != old(self).labels@[i as int]@);
            } else {
                assert(self.labels@[j] == old(self).labels@[j + 1]);
                assert(self.entries@[j] == old(self).entries@[j + 1]);
                assert(old(self).contents@.contains_key(old(self).labels@[j + 1]@));
                assert(old(self).labels@[j + 1]@ != old(self).labels@[i as int]@);
            }
        }
        assert forall|l2: Seq<char>| #[trigger]
            self.contents@.contains_key(l2) implies exists|j: int|
            0 <= j < self.labels@.len() && self.labels@[j]@ == l2 by {
            let j = choose|j: int|
                0 <= j < old(self).labels@.len() && old(self).labels@[j]@ == l2;
            if j < i {
                assert(self.labels@[j]@ == l2);
            } else {
                assert(j != i);
                assert(self.labels@[j - 1]@ == l2);
            }
        }
    }

    /// The vault holding the given rows; a later row replaces an earlier one
    /// with the same label.
    pub fn from_rows(rows: Vec<(String, EncryptedPassword)>) -> (r: Vault)
        ensures
            r.wf(),
            r@ == rows_map(rows_view(rows@)),
    {
        let mut vault = Vault::new();
        let mut rows = rows;
        let ghost all = rows_view(rows@);
        let n = rows.len();
        let mut taken: Vec<(String, EncryptedPassword)> = Vec::new();
        let mut i: usize = 0;
        // Move the rows out back to front, then insert them front to back.
        while i < n
            invariant
                i <= n,
                n == all.len(),
                rows@.len() == n - i,
                taken@.len() == i,
                forall|j: int| 0 <= j < n - i ==> (#[trigger] rows@[j]).0@ == all[j].0 && rows@[j].1@
                    == all[j].1,
                forall|j: int|
                    0 <= j < i ==> (#[trigger] taken@[j]).0@ == all[n - 1 - j].0 && taken@[j].1@
                        == all[n - 1 - j].1,
            decreases n - i,
        {
            let row = rows.pop().unwrap();
            taken.push(row);
            i = i + 1;
        }
        let mut k: usize = 0;
        while k < n
            invariant
                k <= n,
                n == all.len(),
                taken@.len() == n - k,
                vault.wf(),
                vault@ == rows_map(all.subrange(0, k as int)),
                forall|j: int|
                    0 <= j < n - k ==> (#[trigger] taken@[j]).0@ == all[n - 1 - j].0 && taken@[j].1@
                        == all[n - 1 - j].1,
            decreases n - k,
        {
            let (label, entry) = taken.pop().unwrap();
            proof {
                assert(all.subrange(0, k + 1).drop_last() =~= all.subrange(0, k as int));
            }
            vault.insert(label, entry);
            k = k + 1;
        }
        assert(all.subrange(0, n as int) =~= all);
        vault
    }

    /// The vault's rows, one per label, in storage order.
    pub fn to_rows(&self) -> (r: Vec<(String, EncryptedPassword)>)
        requires
            self.wf(),
        ensures
            labels_distinct(rows_view(r@)),
            rows_map(rows_view(r@)) == self@,
    {
        let mut out: Vec<(String, EncryptedPassword)> = Vec::new();
        let mut i: usize = 0;
        while i < self.labels.len()
            invariant
                self.wf(),
                i <= self.labels@.len(),
                out@.len() == i,
                forall|j: int|
                    0 <= j < i ==> (#[trigger] out@[j]).0@ == self.labels@[j]@ && out@[j].1@
                        == self.entries@[j]@,
            decreases self.labels@.len() - i,
        {
            out.push((self.labels[i].clone(), self.entries[i].copy()));
            i = i + 1;
        }
        proof {
            let rv = rows_view(out@);
            assert forall|a: int, b: int| 0 <= a < b < rv.len() implies rv[a].0 != rv[b].0 by {
                assert(out@[a].0@ == self.labels@[a]@);
                assert(out@[b].0@ == self.labels@[b]@);
            }
            lemma_rows_map(rv);
            assert forall|l: Seq<char>| #[trigger]
                self.contents@.contains_key(l) implies rows_map(rv).contains_key(l)
                && rows_map(rv)[l] == self.contents@[l] by {
                let j = choose|j: int| 0 <= j < self.labels@.len() && self.labels@[j]@ == l;
                assert(rv[j] == (out@[j].0@, out@[j].1@));
                assert(self.contents@.contains_key(self.labels@[j]@));
                assert(rows_map(rv).contains_key(rv[j].0));
            }
            assert forall|l: Seq<char>| #[trigger]
                rows_map(rv).contains_key(l) implies self.contents@.contains_key(l) by {
                let k = choose|k: int| 0 <= k < rv.len() && rv[k].0 == l;
                assert(rv[k] == (out@[k].0@, out@[k].1@));
                assert(self.contents@.contains_key(self.labels@[k]@));
            }
            assert(rows_map(rv) =~= self.contents@);
        }
        out
    }
}

/// With distinct labels, the map of the rows holds exactly their labels,
/// each with its own entry.
proof fn lemma_rows_map(rows: Seq<(Seq<char>, (Seq<u8>, Seq<u8>))>)
    requires
        labels_distinct(rows),
    ensures
        forall|k: int|
            0 <= k < rows.len() ==> #[trigger] rows_map(rows).contains_key(rows[k].0) && rows_map(
                rows,
            )[rows[k].0] == rows[k].1,
        forall|l: Seq<char>| #[trigger]
            rows_map(rows).contains_key(l) ==> exists|k: int| 0 <= k < rows.len() && rows[k].0 == l,
    decreases rows.len(),
{
    if rows.len() > 0 {
        let init = rows.drop_last();
        assert forall|a: int, b: int| 0 <= a < b < init.len() implies init[a].0 != init[b].0 by {
            assert(init[a] == rows[a]);
            assert(init[b] == rows[b]);
        }
        lemma_rows_map(init);
        assert(rows_map(rows) == rows_map(init).insert(rows.last().0, rows.last().1));
        assert forall|k: int| 0 <= k < rows.len() implies #[trigger] rows_map(rows).contains_key(
            rows[k].0,
        ) && rows_map(rows)[rows[k].0] == rows[k].1 by {
            if k < rows.len() - 1 {
                assert(init[k] == rows[k]);
                assert(rows[k].0 != rows[rows.len() - 1].0);
                assert(rows_map(init).contains_key(init[k].0));
            }
        }
        assert forall|l: Seq<char>| #[trigger]
            rows_map(rows).contains_key(l) implies exists|k: int|
                0 <= k < rows.len() && rows[k].0 == l by {
            if l != rows.last().0 {
                let k = choose|k: int| 0 <= k < init.len() && init[k].0 == l;
                assert(rows[k] == init[k]);
            } else {
                assert(rows[rows.len() - 1].0 == l);
            }
        }
    }
}

/// Saving a vault as rows and loading those rows back, in whatever order
/// they come, gives the same labels with the same entries.
pub proof fn lemma_rows_round_trip(
    saved: Seq<(Seq<char>, (Seq<u8>, Seq<u8>))>,
    loaded: Seq<(Seq<char>, (Seq<u8>, Seq<u8>))>,
)
    requires
        labels_distinct(saved),
        labels_distinct(loaded),
        forall|r: (Seq<char>, (Seq<u8>, Seq<u8>))| saved.contains(r) <==> loaded.contains(r),
    ensures
        rows_map(loaded) == rows_map(saved),
{
    lemma_rows_map(saved);
    lemma_rows_map(loaded);
    assert forall|l: Seq<char>| #[trigger]
        rows_map(loaded).contains_key(l) implies rows_map(saved).contains_key(l)
        && rows_map(saved)[l] == rows_map(loaded)[l] by {
        let k = choose|k: int| 0 <= k < loaded.len() && loaded[k].0 == l;
        assert(rows_map(loaded).contains_key(loaded[k].0));
        assert(loaded.contains(loaded[k]));
        let j = choose|j: int| 0 <= j < saved.len() && saved[j] == loaded[k];
        assert(rows_map(saved).contains_key(saved[j].0));
    }
    assert forall|l: Seq<char>| #[trigger]
        rows_map(saved).contains_key(l) implies rows_map(loaded).contains_key(l) by {
        let k = choose|k: int| 0 <= k < saved.len() && saved[k].0 == l;
        assert(saved.contains(saved[k]));
        let j = choose|j: int| 0 <= j < loaded.len() && loaded[j] == saved[k];
        assert(rows_map(loaded).contains_key(loaded[j].0));
    }
    assert(rows_map(loaded) =~= rows_map(saved));
}

} // verus!
