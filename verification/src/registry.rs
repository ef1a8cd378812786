//! The callback registry: the shared mapping from method name to host
//! callable. The host callable itself lives outside this library; here it is
//! represented by an opaque handle the embedder hands in at registration and
//! gets back at dispatch. Rebinding under the same name replaces the handle;
//! insertion order is kept only so the bootstrap script can enumerate the
//! registered names.

use vstd::prelude::*;

verus! {

/// Opaque handle the embedder uses to identify one host callable.
pub type CallableId = u64;

pub open spec fn wf_entries(s: Seq<(String, CallableId)>) -> bool {
    forall|i: int, j: int| 0 <= i < j < s.len() ==> #[trigger] s[i].0@ != #[trigger] s[j].0@
}

pub open spec fn has_key(s: Seq<(String, CallableId)>, k: Seq<char>) -> bool {
    exists|i: int| 0 <= i < s.len() && #[trigger] s[i].0@ == k
}

pub open spec fn entries_map(s: Seq<(String, CallableId)>) -> Map<Seq<char>, CallableId>
    decreases s.len(),
{
    if s.len() == 0 {
        Map::empty()
    } else {
        entries_map(s.drop_last()).insert(s.last().0@, s.last().1)
    }
}

proof fn lemma_map_dom(s: Seq<(String, CallableId)>)
    ensures
        forall|k: Seq<char>| #[trigger] entries_map(s).contains_key(k) <==> has_key(s, k),
    decreases s.len(),
{
    if s.len() > 0 {
        let d = s.drop_last();
        lemma_map_dom(d);
        assert forall|k: Seq<char>| #[trigger] entries_map(s).contains_key(k) implies has_key(
            s,
            k,
        ) by {
            if k == s.last().0@ {
                assert(s[s.len() - 1].0@ == k);
            } else {
                assert(entries_map(d).contains_key(k));
                assert(has_key(d, k));
                let i = choose|i: int| 0 <= i < d.len() && #[trigger] d[i].0@ == k;
                assert(s[i].0@ == k);
            }
        }
        assert forall|k: Seq<char>| has_key(s, k) implies #[trigger] entries_map(
            s,
        ).contains_key(k) by {
            let i = choose|i: int| 0 <= i < s.len() && #[trigger] s[i].0@ == k;
            if i < s.len() - 1 {
                assert(d[i].0@ == k);
                assert(has_key(d, k));
            }
        }
    }
}

proof fn lemma_map_val(s: Seq<(String, CallableId)>, i: int)
    requires
        wf_entries(s),
        0 <= i < s.len(),
    ensures
        entries_map(s).contains_key(s[i].0@),
        entries_map(s)[s[i].0@] == s[i].1,
    decreases s.len(),
{
    if i < s.len() - 1 {
        let d = s.drop_last();
        assert(wf_entries(d)) by {
            assert(forall|a: int, b: int|
                0 <= a < b < d.len() ==> #[trigger] d[a].0@ != #[trigger] d[b].0@) by {
                assert(forall|a: int| 0 <= a < d.len() ==> #[trigger] d[a] == s[a]);
            }
        }
        assert(d[i] == s[i]);
        lemma_map_val(d, i);
        assert(s.last().0@ != s[i].0@);
    }
}

proof fn lemma_map_push(s: Seq<(String, CallableId)>, p: (String, CallableId))
    ensures
        entries_map(s.push(p)) == entries_map(s).insert(p.0@, p.1),
{
    assert(s.push(p).drop_last() =~= s);
    assert(s.push(p).last() == p);
}

proof fn lemma_map_update(s: Seq<(String, CallableId)>, i: int, p: (String, CallableId))
    requires
        wf_entries(s),
        0 <= i < s.len(),
        p.0@ == s[i].0@,
    ensures
        entries_map(s.update(i, p)) == entries_map(s).insert(p.0@, p.1),
    decreases s.len(),
{
    let s1 = s.update(i, p);
    if i == s.len() - 1 {
        assert(s1.drop_last() =~= s.drop_last());
        assert(s1.last() == p);
        assert(entries_map(s1) =~= entries_map(s).insert(p.0@, p.1));
    } else {
        let d = s.drop_last();
        assert(wf_entries(d)) by {
            assert(forall|a: int| 0 <= a < d.len() ==> #[trigger] d[a] == s[a]);
        }
        assert(d[i] == s[i]);
        lemma_map_update(d, i, p);
        assert(s1.drop_last() =~= d.update(i, p));
        assert(s1.last() == s.last());
        assert(s.last().0@ != p.0@);
        assert(entries_map(s1) =~= entries_map(s).insert(p.0@, p.1));
    }
}

/// The shared method-name-to-callable mapping. Its abstract value is the map
/// from registered names (as character sequences) to callable handles.
pub struct CallbackRegistry {
    entries: Vec<(String, CallableId)>,
}

impl View for CallbackRegistry {
    type V = Map<Seq<char>, CallableId>;

    closed spec fn view(&self) -> Map<Seq<char>, CallableId> {
        entries_map(self.entries@)
    }
}

impl CallbackRegistry {
    pub closed spec fn wf(&self) -> bool {
        wf_entries(self.entries@)
    }

    /// The registered names in registration order, oldest first.
    pub closed spec fn names(&self) -> Seq<Seq<char>> {
        self.entries@.map_values(|p: (String, CallableId)| p.0@)
    }

    /// A name is registered exactly when it is in the abstract map's domain.
    pub proof fn lemma_names_dom(&self)
        requires
            self.wf(),
        ensures
            forall|k: Seq<char>| #[trigger] self@.contains_key(k) <==> self.names().contains(k),
    {
        lemma_map_dom(self.entries@);
        assert forall|k: Seq<char>| #[trigger] self@.contains_key(k) <==> self.names().contains(
            k,
        ) by {
            if has_key(self.entries@, k) {
                let i = choose|i: int|
                    0 <= i < self.entries@.len() && #[trigger] self.entries@[i].0@ == k;
                assert(self.names()[i] == k);
            }
            if self.names().contains(k) {
                let i = choose|i: int|
                    0 <= i < self.names().len() && #[trigger] self.names()[i] == k;
                assert(self.entries@[i].0@ == k);
            }
        }
    }

    pub fn new() -> (r: CallbackRegistry)
        ensures
            r.wf(),
            r@ == Map::<Seq<char>, CallableId>::empty(),
            r.names() == Seq::<Seq<char>>::empty(),
    {
        let r = CallbackRegistry { entries: Vec::new() };
        proof {
            assert(r.names() =~= Seq::<Seq<char>>::empty());
        }
        r
    }

    /// Registers a callable under a method name, synchronously visible to
    /// every subsequent lookup; rebinding an existing name replaces the
    /// callable and keeps the name's place in the enumeration.
    pub fn bind(&mut self, name: &str, callable: CallableId)
        requires
            old(self).wf(),
        ensures
            final(self).wf(),
            final(self)@ == old(self)@.insert(name@, callable),
            old(self)@.contains_key(name@) ==> final(self).names() == old(self).names(),
            !old(self)@.contains_key(name@) ==> final(self).names() == old(self).names().push(
                name@,
            ),
    {
        let key: String = name.to_owned();
        let ghost s0 = self.entries@;
        let n = self.entries.len();
        let mut i: usize = 0;
        while i < n
            invariant
                n == self.entries.len(),
                i <= n,
                self.entries@ == s0,
                s0 == old(self).entries@,
                wf_entries(s0),
                key@ == name@,
                forall|j: int| 0 <= j < i ==> #[trigger] s0[j].0@ != name@,
            decreases n - i,
        {
            if self.entries[i].0 == key {
                self.entries[i].1 = callable;
                proof {
                    let p = (s0[i as int].0, callable);
                    let s1 = self.entries@;
                    assert(s1 =~= s0.update(i as int, p));
                    lemma_map_update(s0, i as int, p);
                    lemma_map_val(s0, i as int);
                    assert(s0[i as int].0@ == name@);
                    assert(self@ == old(self)@.insert(name@, callable));
                    assert(self.wf()) by {
                        assert forall|a: int, b: int| 0 <= a < b < s1.len() implies #[trigger] s1[a].0@
                            != #[trigger] s1[b].0@ by {
                            assert(s1[a].0@ == s0[a].0@);
                            assert(s1[b].0@ == s0[b].0@);
                        }
                    }
                    assert(self.names() =~= old(self).names()) by {
                        let f = |q: (String, CallableId)| q.0@;
                        assert forall|j: int| 0 <= j < s1.len() implies s1.map_values(f)[j]
                            == s0.map_values(f)[j] by {
                            assert(s1[j].0@ == s0[j].0@);
                        }
                    }
                }
                return ;
            }
            i = i + 1;
        }
        proof {
            lemma_map_dom(s0);
            assert(!has_key(s0, name@));
        }
        let ghost pr = (key, callable);
        self.entries.push((key, callable));
        proof {
            assert(self.entries@ == s0.push(pr));
            lemma_map_push(s0, pr);
            assert(self.wf()) by {
                let s1 = self.entries@;
                assert forall|a: int, b: int| 0 <= a < b < s1.len() implies #[trigger] s1[a].0@
                    != #[trigger] s1[b].0@ by {
                    if b == s1.len() - 1 {
                        assert(s1[a].0@ == s0[a].0@);
                        assert(!(s0[a].0@ == name@));
                    } else {
                        assert(s1[a].0@ == s0[a].0@);
                        assert(s1[b].0@ == s0[b].0@);
                    }
                }
            }
            assert(self.names() =~= old(self).names().push(name@));
        }
    }

    /// Copies out the callable bound to a name, or nothing when the name is
    /// unregistered.
    pub fn lookup(&self, name: &str) -> (r: Option<CallableId>)
        requires
            self.wf(),
        ensures
            r == if self@.contains_key(name@) {
                Some(self@[name@])
            } else {
                None::<CallableId>
            },
    {
        let key: String = name.to_owned();
        let n = self.entries.len();
        let mut i: usize = 0;
        while i < n
            invariant
                n == self.entries.len(),
                i <= n,
                self.wf(),
                key@ == name@,
                forall|j: int| 0 <= j < i ==> #[trigger] self.entries@[j].0@ != name@,
            decreases n - i,
        {
            if self.entries[i].0 == key {
                proof {
                    lemma_map_val(self.entries@, i as int);
                }
                return Some(self.entries[i].1);
            }
            i = i + 1;
        }
        proof {
            lemma_map_dom(self.entries@);
            assert(!has_key(self.entries@, name@));
        }
        None
    }

    /// Copies out the registered names, in registration order.
    pub fn names_vec(&self) -> (r: Vec<String>)
        ensures
            r@.map_values(|s: String| s@) == self.names(),
    {
        let mut r: Vec<String> = Vec::new();
        let n = self.entries.len();
        let mut i: usize = 0;
        while i < n
            invariant
                n == self.entries.len(),
                i <= n,
                r@.len() == i,
                forall|j: int| 0 <= j < i ==> #[trigger] r@[j]@ == self.entries@[j].0@,
            decreases n - i,
        {
            let ghost r0 = r@;
            let c: String = self.entries[i].0.clone();
            let ghost cv = c;
            r.push(c);
            proof {
                assert(r@ == r0.push(cv));
                assert(cv@ == self.entries@[i as int].0@);
            }
            i = i + 1;
        }
        proof {
            let m = r@.map_values(|s: String| s@);
            assert forall|j: int| 0 <= j < m.len() implies m[j] == self.names()[j] by {
                assert(m[j] == r@[j]@);
                assert(self.names()[j] == self.entries@[j].0@);
            }
            assert(m =~= self.names());
        }
        r
    }
}

} // verus!
