use vstd::prelude::*;

verus! {

/// The keys of the entries in `s` are pairwise distinct.
pub open spec fn distinct_keys(s: Seq<(String, String)>) -> bool {
    forall|i: int, j: int| 0 <= i < j < s.len() ==> s[i].0@ != s[j].0@
}

/// The finite map described by an entry sequence; later entries win.
pub open spec fn map_of(s: Seq<(String, String)>) -> Map<Seq<char>, Seq<char>>
    decreases s.len(),
{
    if s.len() == 0 {
        Map::empty()
    } else {
        map_of(s.drop_last()).insert(s.last().0@, s.last().1@)
    }
}

pub proof fn lemma_map_of_contains(s: Seq<(String, String)>, k: Seq<char>)
    ensures
        map_of(s).contains_key(k) <==> (exists|i: int| 0 <= i < s.len() && s[i].0@ == k),
    decreases s.len(),
{
    if s.len() > 0 {
        lemma_map_of_contains(s.drop_last(), k);
        if map_of(s).contains_key(k) && s.last().0@ != k {
            let i = choose|i: int| 0 <= i < s.drop_last().len() && s.drop_last()[i].0@ == k;
            assert(s[i].0@ == k);
        }
        if exists|i: int| 0 <= i < s.len() && s[i].0@ == k {
            let i = choose|i: int| 0 <= i < s.len() && s[i].0@ == k;
            if i < s.len() - 1 {
                assert(s.drop_last()[i].0@ == k);
            }
        }
    }
}

pub proof fn lemma_map_of_index(s: Seq<(String, String)>, i: int)
    requires
        distinct_keys(s),
        0 <= i < s.len(),
    ensures
        map_of(s).contains_key(s[i].0@),
        map_of(s)[s[i].0@] == s[i].1@,
    decreases s.len(),
{
    if i < s.len() - 1 {
        assert(s.drop_last()[i] == s[i]);
        lemma_map_of_index(s.drop_last(), i);
        assert(s[i].0@ != s.last().0@);
    }
}

pub proof fn lemma_map_of_remove(s: Seq<(String, String)>, i: int)
    requires
        distinct_keys(s),
        0 <= i < s.len(),
    ensures
        map_of(s.remove(i)) =~= map_of(s).remove(s[i].0@),
    decreases s.len(),
{
    let k = s[i].0@;
    if i == s.len() - 1 {
        assert(s.remove(i) =~= s.drop_last());
        lemma_map_of_contains(s.drop_last(), k);
        assert(map_of(s.drop_last()).remove(k) =~= map_of(s.drop_last()));
    } else {
        assert(s.remove(i).drop_last() =~= s.drop_last().remove(i));
        assert(s.remove(i).last() == s.last());
        assert(s.drop_last()[i] == s[i]);
        lemma_map_of_remove(s.drop_last(), i);
        assert(s.last().0@ != k);
    }
}

proof fn lemma_distinct_remove(s: Seq<(String, String)>, i: int)
    requires
        distinct_keys(s),
        0 <= i < s.len(),
    ensures
        distinct_keys(s.remove(i)),
        forall|j: int| 0 <= j < s.remove(i).len() ==> s.remove(i)[j].0@ != s[i].0@,
{
    let t = s.remove(i);
    assert forall|j: int| 0 <= j < t.len() implies t[j].0@ != s[i].0@ by {
        if j < i {
            assert(t[j] == s[j]);
        } else {
            assert(t[j] == s[j + 1]);
        }
    }
    assert forall|p: int, q: int| 0 <= p < q < t.len() implies t[p].0@ != t[q].0@ by {
        let sp = if p < i { p } else { p + 1 };
        let sq = if q < i { q } else { q + 1 };
        assert(t[p] == s[sp]);
        assert(t[q] == s[sq]);
    }
}

/// A finite map from strings to strings, held as an entry list with
/// pairwise-distinct keys. Entry order is observable through `seq`,
/// so contracts that depend on traversal order can be exact.
#[derive(Debug)]
pub struct EnvMap {
    entries: Vec<(String, String)>,
}

impl View for EnvMap {
    type V = Map<Seq<char>, Seq<char>>;

    closed spec fn view(&self) -> Map<Seq<char>, Seq<char>> {
        map_of(self.entries@)
    }
}

impl EnvMap {
    /// The underlying entry sequence, in traversal order.
    pub closed spec fn seq(&self) -> Seq<(String, String)> {
        self.entries@
    }

    /// Well-formed: no key occurs twice.
    pub closed spec fn wf(&self) -> bool {
        distinct_keys(self.entries@)
    }

    /// The map is the one the entry sequence describes.
    pub proof fn lemma_view(&self)
        ensures
            self@ == map_of(self.seq()),
    {
    }

    pub fn new() -> (r: EnvMap)
        ensures
            r@ =~= Map::<Seq<char>, Seq<char>>::empty(),
            r.seq() =~= Seq::<(String, String)>::empty(),
            r.wf(),
    {
        EnvMap { entries: Vec::new() }
    }

    pub fn len(&self) -> (r: usize)
        ensures
            r == self.seq().len(),
    {
        self.entries.len()
    }

    pub fn key_at(&self, i: usize) -> (r: &String)
        requires
            i < self.seq().len(),
        ensures
            r@ == self.seq()[i as int].0@,
    {
        &self.entries[i].0
    }

    pub fn val_at(&self, i: usize) -> (r: &String)
        requires
            i < self.seq().len(),
        ensures
            r@ == self.seq()[i as int].1@,
    {
        &self.entries[i].1
    }

    /// The position of `k` among the entries, if present.
    fn find(&self, k: &String) -> (r: Option<usize>)
        ensures
            match r {
                Some(i) => i < self.seq().len() && self.seq()[i as int].0@ == k@,
                None => forall|i: int| 0 <= i < self.seq().len() ==> self.seq()[i].0@ != k@,
            },
    {
        let n = self.entries.len();
        let mut i: usize = 0;
        while i < n
            invariant
                i <= n,
                n == self.seq().len(),
                forall|j: int| 0 <= j < i ==> self.seq()[j].0@ != k@,
            decreases n - i,
        {
            if self.entries[i].0.eq(k) {
                return Some(i);
            }
            i = i + 1;
        }
        None
    }

    pub fn contains_key(&self, k: &String) -> (r: bool)
        ensures
            r == self@.contains_key(k@),
    {
        proof {
            lemma_map_of_contains(self.seq(), k@);
        }
        self.find(k).is_some()
    }

    pub fn get(&self, k: &String) -> (r: Option<&String>)
        requires
            self.wf(),
        ensures
            match r {
                Some(v) => self@.contains_key(k@) && v@ == self@[k@],
                None => !self@.contains_key(k@),
            },
    {
        proof {
            lemma_map_of_contains(self.seq(), k@);
        }
        match self.find(k) {
            Some(i) => {
                proof {
                    lemma_map_of_index(self.seq(), i as int);
                }
                Some(&self.entries[i].1)
            }
            None => None,
        }
    }

    /// Inserts or replaces the value for `k`.
    pub fn insert(&mut self, k: String, v: String)
        requires
            old(self).wf(),
        ensures
            final(self)@ =~= old(self)@.insert(k@, v@),
            final(self).wf(),
    {
        let ghost s0 = self.seq();
        match self.find(&k) {
            Some(i) => {
                proof {
                    lemma_map_of_remove(s0, i as int);
                    lemma_distinct_remove(s0, i as int);
                }
                let _ = self.entries.remove(i);
                let ghost s1 = self.seq();
                self.entries.push((k, v));
                proof {
                    assert(self.seq().drop_last() =~= s1);
                    assert(map_of(self.seq()) =~= map_of(s0).insert(s0[i as int].0@, v@));
                }
            }
            None => {
                self.entries.push((k, v));
                proof {
                    assert(self.seq().drop_last() =~= s0);
                }
            }
        }
    }

    /// Removes `k` if present.
    pub fn remove(&mut self, k: &String)
        requires
            old(self).wf(),
        ensures
            final(self)@ =~= old(self)@.remove(k@),
            final(self).wf(),
    {
        let ghost s0 = self.seq();
        match self.find(k) {
            Some(i) => {
                proof {
                    lemma_map_of_remove(s0, i as int);
                    lemma_distinct_remove(s0, i as int);
                }
                let _ = self.entries.remove(i);
            }
            None => {
                proof {
                    lemma_map_of_contains(s0, k@);
                    assert(map_of(s0).remove(k@) =~= map_of(s0));
                }
            }
        }
    }

    /// A copy with the same entries.
    pub fn duplicate(&self) -> (r: EnvMap)
        ensures
            r.seq() =~= self.seq(),
            r@ == self@,
            r.wf() == self.wf(),
    {
        let n = self.entries.len();
        let mut entries: Vec<(String, String)> = Vec::new();
        let mut i: usize = 0;
        while i < n
            invariant
                i <= n,
                n == self.seq().len(),
                entries@ =~= self.seq().take(i as int),
            decreases n - i,
        {
            let k = self.entries[i].0.clone();
            let v = self.entries[i].1.clone();
            entries.push((k, v));
            proof {
                assert(entries@ =~= self.seq().take(i as int + 1));
            }
            i = i + 1;
        }
        proof {
            assert(self.seq().take(n as int) =~= self.seq());
        }
        EnvMap { entries }
    }
}

} // verus!
