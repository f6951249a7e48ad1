//! The path counter: a mapping from full nesting paths (sequences of
//! element names, root first) to occurrence counts. Insertion order is
//! irrelevant to the mapping it stands for.

use vstd::prelude::*;

verus! {

/// Compares two nesting paths name by name.
pub fn path_eq(a: &Vec<String>, b: &Vec<String>) -> (r: bool)
    ensures
        r == (a.deep_view() == b.deep_view()),
{
    if a.len() != b.len() {
        proof {
            assert(a.deep_view().len() == a@.len());
            assert(b.deep_view().len() == b@.len());
        }
        return false;
    }
    let n: usize = a.len();
    let mut i: usize = 0;
    while i < n
        invariant
            n == a@.len() == b@.len(),
            i <= n,
            forall|j: int| 0 <= j < i ==> a@[j]@ == b@[j]@,
        decreases n - i,
    {
        if !(a[i] == b[i]) {
            proof {
                assert(a.deep_view()[i as int] != b.deep_view()[i as int]);
            }
            return false;
        }
        i = i + 1;
    }
    proof {
        assert(a.deep_view() =~= b.deep_view());
    }
    true
}

/// An owned copy of a nesting path.
pub fn clone_path(p: &Vec<String>) -> (r: Vec<String>)
    ensures
        r.deep_view() == p.deep_view(),
{
    let n: usize = p.len();
    let mut out: Vec<String> = Vec::new();
    let mut i: usize = 0;
    while i < n
        invariant
            n == p@.len(),
            out@.len() == i <= n,
            forall|j: int| 0 <= j < i ==> out@[j]@ == p@[j]@,
        decreases n - i,
    {
        out.push(p[i].clone());
        i = i + 1;
    }
    proof {
        assert(out.deep_view() =~= p.deep_view());
    }
    out
}

/// The mapping an entry list stands for.
pub open spec fn entries_map(s: Seq<(Vec<String>, u64)>) -> Map<Seq<Seq<char>>, nat>
    decreases s.len(),
{
    if s.len() == 0 {
        Map::<Seq<Seq<char>>, nat>::empty()
    } else {
        entries_map(s.drop_last()).insert(s.last().0.deep_view(), s.last().1 as nat)
    }
}

/// One more occurrence of `k` in `m`.
pub open spec fn bump_spec(m: Map<Seq<Seq<char>>, nat>, k: Seq<Seq<char>>) -> Map<
    Seq<Seq<char>>,
    nat,
> {
    if m.contains_key(k) {
        m.insert(k, m[k] + 1)
    } else {
        m.insert(k, 1)
    }
}

/// A counter of occurrences per nesting path.
#[derive(Debug)]
pub struct PathCounter {
    entries: Vec<(Vec<String>, u64)>,
}

impl View for PathCounter {
    type V = Map<Seq<Seq<char>>, nat>;

    closed spec fn view(&self) -> Map<Seq<Seq<char>>, nat> {
        entries_map(self.entries@)
    }
}

/// No two entries carry the same path.
pub open spec fn distinct_keys(s: Seq<(Vec<String>, u64)>) -> bool {
    forall|i: int, j: int|
        0 <= i < j < s.len() ==> (#[trigger] s[i]).0.deep_view() != (#[trigger] s[j]).0.deep_view()
}

proof fn lemma_entries_map_get(s: Seq<(Vec<String>, u64)>, i: int)
    requires
        distinct_keys(s),
        0 <= i < s.len(),
    ensures
        entries_map(s).contains_key(s[i].0.deep_view()),
        entries_map(s)[s[i].0.deep_view()] == s[i].1 as nat,
    decreases s.len(),
{
    if i < s.len() - 1 {
        assert(distinct_keys(s.drop_last()));
        lemma_entries_map_get(s.drop_last(), i);
    }
}

proof fn lemma_entries_map_absent(s: Seq<(Vec<String>, u64)>, k: Seq<Seq<char>>)
    requires
        forall|i: int| 0 <= i < s.len() ==> (#[trigger] s[i]).0.deep_view() != k,
    ensures
        !entries_map(s).contains_key(k),
    decreases s.len(),
{
    if s.len() > 0 {
        lemma_entries_map_absent(s.drop_last(), k);
    }
}

proof fn lemma_entries_map_dom(s: Seq<(Vec<String>, u64)>)
    requires
        distinct_keys(s),
    ensures
        entries_map(s).dom().finite(),
        entries_map(s).dom().len() == s.len(),
    decreases s.len(),
{
    broadcast use vstd::set::axiom_set_insert_len;

    if s.len() > 0 {
        assert(distinct_keys(s.drop_last()));
        lemma_entries_map_dom(s.drop_last());
        lemma_entries_map_absent(s.drop_last(), s.last().0.deep_view());
    }
}

/// Appending a fresh key adds a fresh mapping.
proof fn lemma_entries_map_push(s: Seq<(Vec<String>, u64)>, e: (Vec<String>, u64))
    ensures
        entries_map(s.push(e)) == entries_map(s).insert(e.0.deep_view(), e.1 as nat),
{
    assert(s.push(e).drop_last() =~= s);
    assert(s.push(e).last() == e);
}

impl PathCounter {
    /// The entry list never holds one path twice.
    pub closed spec fn wf(self) -> bool {
        distinct_keys(self.entries@)
    }

    /// A fresh, empty counter.
    pub fn new() -> (c: PathCounter)
        ensures
            c.wf(),
            c@ == Map::<Seq<Seq<char>>, nat>::empty(),
    {
        PathCounter { entries: Vec::new() }
    }

    /// The count recorded for a path, or nothing when the path was
    /// never counted.
    pub fn get(&self, path: &Vec<String>) -> (r: Option<u64>)
        requires
            self.wf(),
        ensures
            match r {
                Some(v) => self@.contains_key(path.deep_view()) && self@[path.deep_view()]
                    == v as nat,
                None => !self@.contains_key(path.deep_view()),
            },
    {
        let n: usize = self.entries.len();
        let mut i: usize = 0;
        while i < n
            invariant
                self.wf(),
                n == self.entries@.len(),
                i <= n,
                forall|j: int| 0 <= j < i ==> (#[trigger] self.entries@[j]).0.deep_view()
                    != path.deep_view(),
            decreases n - i,
        {
            if path_eq(&self.entries[i].0, path) {
                proof {
                    lemma_entries_map_get(self.entries@, i as int);
                }
                return Some(self.entries[i].1);
            }
            i = i + 1;
        }
        proof {
            lemma_entries_map_absent(self.entries@, path.deep_view());
        }
        None
    }

    /// How many distinct paths have been counted.
    pub fn len(&self) -> (n: usize)
        requires
            self.wf(),
        ensures
            n == self@.dom().len(),
    {
        proof {
            lemma_entries_map_dom(self.entries@);
        }
        self.entries.len()
    }

    /// The recorded path-and-count pairs: one pair per path of the
    /// mapping, each carrying that path's count.
    pub fn into_entries(self) -> (r: Vec<(Vec<String>, u64)>)
        requires
            self.wf(),
        ensures
            r@.len() == self@.dom().len(),
            forall|i: int|
                0 <= i < r@.len() ==> self@.contains_key((#[trigger] r@[i]).0.deep_view())
                    && self@[r@[i].0.deep_view()] == r@[i].1 as nat,
    {
        proof {
            lemma_entries_map_dom(self.entries@);
            assert forall|i: int| 0 <= i < self.entries@.len() implies self@.contains_key(
                (#[trigger] self.entries@[i]).0.deep_view(),
            ) && self@[self.entries@[i].0.deep_view()] == self.entries@[i].1 as nat by {
                lemma_entries_map_get(self.entries@, i);
            }
        }
        self.entries
    }

    /// Records one more occurrence of the given path.
    pub fn bump(&mut self, path: &Vec<String>)
        requires
            old(self).wf(),
            old(self)@.contains_key(path.deep_view()) ==> old(self)@[path.deep_view()]
                < u64::MAX as nat,
        ensures
            final(self).wf(),
            final(self)@ == bump_spec(old(self)@, path.deep_view()),
    {
        let n: usize = self.entries.len();
        let mut i: usize = 0;
        while i < n
            invariant
                self.entries@ == old(self).entries@,
                self.wf(),
                old(self)@.contains_key(path.deep_view()) ==> old(self)@[path.deep_view()]
                    < u64::MAX as nat,
                n == self.entries@.len(),
                i <= n,
                forall|j: int| 0 <= j < i ==> (#[trigger] self.entries@[j]).0.deep_view()
                    != path.deep_view(),
            decreases n - i,
        {
            if path_eq(&self.entries[i].0, path) {
                proof {
                    lemma_entries_map_get(self.entries@, i as int);
                }
                let v: u64 = self.entries[i].1;
                self.entries[i].1 = v + 1;
                proof {
                    lemma_entries_map_update(old(self).entries@, i as int, (v + 1) as u64);
                }
                return;
            }
            i = i + 1;
        }
        proof {
            lemma_entries_map_absent(self.entries@, path.deep_view());
        }
        let key = clone_path(path);
        self.entries.push((key, 1));
        proof {
            lemma_entries_map_push(old(self).entries@, (key, 1u64));
            assert(self.entries@.drop_last() =~= old(self).entries@);
        }
    }
}

/// Updating one entry's count updates its mapping alone.
proof fn lemma_entries_map_update(s: Seq<(Vec<String>, u64)>, i: int, v: u64)
    requires
        distinct_keys(s),
        0 <= i < s.len(),
    ensures
        distinct_keys(s.update(i, (s[i].0, v))),
        entries_map(s.update(i, (s[i].0, v))) == entries_map(s).insert(s[i].0.deep_view(), v as nat),
    decreases s.len(),
{
    let t = s.update(i, (s[i].0, v));
    assert forall|a: int, b: int| 0 <= a < b < t.len() implies (#[trigger] t[a]).0.deep_view() != (
    #[trigger] t[b]).0.deep_view() by {
        assert(t[a].0 == s[a].0 && t[b].0 == s[b].0);
    }
    if i == s.len() - 1 {
        assert(t.drop_last() =~= s.drop_last());
        assert(t.last() == (s[i].0, v));
        assert(entries_map(s) == entries_map(s.drop_last()).insert(
            s[i].0.deep_view(),
            s[i].1 as nat,
        ));
        assert(entries_map(s).insert(s[i].0.deep_view(), v as nat) =~= entries_map(
            s.drop_last(),
        ).insert(s[i].0.deep_view(), v as nat));
    } else {
        assert(distinct_keys(s.drop_last()));
        lemma_entries_map_update(s.drop_last(), i, v);
        assert(t.drop_last() =~= s.drop_last().update(i, (s[i].0, v)));
        assert(t.last() == s.last());
        lemma_entries_map_get(s, i);
        assert(s[i].0.deep_view() != s.last().0.deep_view());
        assert(entries_map(t) == entries_map(s.drop_last()).insert(
            s[i].0.deep_view(),
            v as nat,
        ).insert(s.last().0.deep_view(), s.last().1 as nat));
        assert(entries_map(s.drop_last()).insert(s[i].0.deep_view(), v as nat).insert(
            s.last().0.deep_view(),
            s.last().1 as nat,
        ) =~= entries_map(s.drop_last()).insert(s.last().0.deep_view(), s.last().1 as nat).insert(
            s[i].0.deep_view(),
            v as nat,
        ));
    }
}

} // verus!
