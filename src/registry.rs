//! The set of views materialised in the engine session.

use vstd::prelude::*;
use vstd::string::*;
use crate::text::{texts, str_texts, owned};

verus! {

/// The names among `names` that still need registering, in order, each
/// once: walking `names`, a name is listed when it is not yet registered,
/// and counts as registered from then on.
pub open spec fn pending(reg: Set<Seq<char>>, names: Seq<Seq<char>>) -> Seq<Seq<char>>
    decreases names.len(),
{
    if names.len() == 0 {
        Seq::empty()
    } else if reg.contains(names[0]) {
        pending(reg, names.drop_first())
    } else {
        seq![names[0]] + pending(reg.insert(names[0]), names.drop_first())
    }
}

/// The registered view names; each name is held once.
pub struct ViewRegistry {
    names: Vec<String>,
}

impl View for ViewRegistry {
    type V = Set<Seq<char>>;

    closed spec fn view(&self) -> Set<Seq<char>> {
        texts(self.names@).to_set()
    }
}

impl ViewRegistry {
    /// No name is held twice.
    pub closed spec fn wf(&self) -> bool {
        texts(self.names@).no_duplicates()
    }

    /// An empty registry.
    pub fn new() -> (r: ViewRegistry)
        ensures
            r.wf(),
            r@ == Set::<Seq<char>>::empty(),
    {
        let r = ViewRegistry { names: Vec::new() };
        assert(texts(r.names@) =~= Seq::<Seq<char>>::empty());
        assert(r@ =~= Set::<Seq<char>>::empty());
        r
    }

    /// Whether `name` is registered.
    pub fn has_view(&self, name: &str) -> (r: bool)
        ensures
            r == self@.contains(name@),
    {
        let mut i: usize = 0;
        while i < self.names.len()
            invariant
                i <= self.names.len(),
                forall|k: int| 0 <= k < i ==> texts(self.names@)[k] != name@,
            decreases self.names.len() - i,
        {
            if self.names[i] == owned(name) {
                assert(texts(self.names@)[i as int] == name@);
                assert(texts(self.names@).contains(name@));
                return true;
            }
            i += 1;
        }
        assert(!texts(self.names@).contains(name@));
        false
    }

    /// The registered names, each once.
    pub fn views(&self) -> (r: Vec<String>)
        requires
            self.wf(),
        ensures
            texts(r@).to_set() == self@,
            texts(r@).no_duplicates(),
    {
        let mut r: Vec<String> = Vec::new();
        let mut i: usize = 0;
        while i < self.names.len()
            invariant
                i <= self.names.len(),
                texts(r@) =~= texts(self.names@).take(i as int),
            decreases self.names.len() - i,
        {
            let ghost before = r@;
            r.push(self.names[i].clone());
            assert(texts(r@) =~= texts(before).push(texts(self.names@)[i as int]));
            i += 1;
        }
        assert(texts(self.names@).take(self.names.len() as int) =~= texts(self.names@));
        r
    }

    /// Records `name` as registered; a name already there stays once.
    pub fn register(&mut self, name: &str)
        requires
            old(self).wf(),
        ensures
            final(self).wf(),
            final(self)@ == old(self)@.insert(name@),
    {
        if !self.has_view(name) {
            let ghost before = texts(self.names@);
            self.names.push(owned(name));
            assert(texts(self.names@) =~= before.push(name@));
            assert(texts(self.names@).to_set() =~= before.to_set().insert(name@)) by {
                assert forall|x: Seq<char>| texts(self.names@).contains(x) <==> before.contains(x) || x == name@ by {
                    if texts(self.names@).contains(x) {
                        let k = choose|k: int| 0 <= k < texts(self.names@).len() && texts(self.names@)[k] == x;
                        if k < before.len() {
                            assert(before[k] == x);
                        }
                    }
                    if before.contains(x) {
                        let k = choose|k: int| 0 <= k < before.len() && before[k] == x;
                        assert(texts(self.names@)[k] == x);
                    }
                    if x == name@ {
                        assert(texts(self.names@)[before.len() as int] == x);
                    }
                }
            }
        } else {
            assert(self@.insert(name@) =~= self@);
        }
    }

    /// Forgets every registered name.
    pub fn reset_views(&mut self)
        ensures
            final(self).wf(),
            final(self)@ == Set::<Seq<char>>::empty(),
    {
        self.names = Vec::new();
        assert(texts(self.names@) =~= Seq::<Seq<char>>::empty());
        assert(self@ =~= Set::<Seq<char>>::empty());
    }

    /// The names among `names` that still need registering, in order and
    /// each once.
    pub fn pending_views(&self, names: &[&str]) -> (r: Vec<String>)
        ensures
            texts(r@) == pending(self@, str_texts(names@)),
    {
        let ghost all = str_texts(names@);
        let mut out: Vec<String> = Vec::new();
        let ghost seen: Set<Seq<char>> = self@;
        let mut i: usize = 0;
        assert(all.skip(0) =~= all);
        while i < names.len()
            invariant
                i <= names.len(),
                all == str_texts(names@),
                seen == self@.union(texts(out@).to_set()),
                texts(out@) + pending(seen, all.skip(i as int)) == pending(self@, all),
            decreases names.len() - i,
        {
            let name = names[i];
            assert(all.skip(i as int)[0] == name@);
            assert(all.skip(i as int).drop_first() =~= all.skip(i + 1));
            let known = self.has_view(name) || contains_string(&out, name);
            assert(known == seen.contains(name@));
            if !known {
                let ghost before = texts(out@);
                out.push(owned(name));
                proof {
                    assert(texts(out@) =~= before.push(name@));
                    assert(texts(out@).to_set() =~= before.to_set().insert(name@)) by {
                        assert forall|x: Seq<char>| texts(out@).contains(x) <==> before.contains(x) || x == name@ by {
                            if texts(out@).contains(x) {
                                let k = choose|k: int| 0 <= k < texts(out@).len() && texts(out@)[k] == x;
                                if k < before.len() {
                                    assert(before[k] == x);
                                }
                            }
                            if before.contains(x) {
                                let k = choose|k: int| 0 <= k < before.len() && before[k] == x;
                                assert(texts(out@)[k] == x);
                            }
                            if x == name@ {
                                assert(texts(out@)[before.len() as int] == x);
                            }
                        }
                    }
                    assert(seen.insert(name@) =~= self@.union(texts(out@).to_set()));
                    assert(texts(out@) + pending(seen.insert(name@), all.skip(i + 1))
                        =~= before + (seq![name@] + pending(seen.insert(name@), all.skip(i + 1))));
                    seen = seen.insert(name@);
                }
            }
            i += 1;
        }
        assert(pending(seen, all.skip(names.len() as int)) =~= Seq::<Seq<char>>::empty());
        assert(texts(out@) =~= texts(out@) + Seq::<Seq<char>>::empty());
        out
    }
}

/// Whether `v` holds `s`.
fn contains_string(v: &Vec<String>, s: &str) -> (r: bool)
    ensures
        r == texts(v@).contains(s@),
{
    let mut i: usize = 0;
    while i < v.len()
        invariant
            i <= v.len(),
            forall|k: int| 0 <= k < i ==> texts(v@)[k] != s@,
        decreases v.len() - i,
    {
        if v[i] == owned(s) {
            assert(texts(v@)[i as int] == s@);
            return true;
        }
        i += 1;
    }
    false
}

/// Once every name is registered, nothing is pending for it.
proof fn lemma_nothing_pending(reg: Set<Seq<char>>, names: Seq<Seq<char>>)
    requires
        forall|i: int| 0 <= i < names.len() ==> reg.contains(names[i]),
    ensures
        pending(reg, names) == Seq::<Seq<char>>::empty(),
    decreases names.len(),
{
    if names.len() > 0 {
        assert(reg.contains(names[0]));
        lemma_nothing_pending(reg, names.drop_first());
    }
}

/// Ensuring the same views twice: after the first pass registers what was
/// pending, a second pass over the same names has nothing left to register
/// (so nothing to download), and the registered set is what the first pass
/// left.
pub proof fn lemma_ensure_views_idempotent(reg: Set<Seq<char>>, names: Seq<Seq<char>>)
    ensures
        reg.union(pending(reg, names).to_set()) == reg.union(names.to_set()),
        pending(reg.union(names.to_set()), names) == Seq::<Seq<char>>::empty(),
{
    lemma_pending_covers(reg, names);
    assert forall|i: int| 0 <= i < names.len() implies reg.union(names.to_set()).contains(names[i]) by {
        assert(names.to_set().contains(names[i]));
    }
    lemma_nothing_pending(reg.union(names.to_set()), names);
}

/// What a pass registers, added to what was there, is every name asked for.
proof fn lemma_pending_covers(reg: Set<Seq<char>>, names: Seq<Seq<char>>)
    ensures
        reg.union(pending(reg, names).to_set()) == reg.union(names.to_set()),
    decreases names.len(),
{
    if names.len() == 0 {
        assert(pending(reg, names).to_set() =~= Set::<Seq<char>>::empty());
        assert(names.to_set() =~= Set::<Seq<char>>::empty());
        assert(reg.union(Set::<Seq<char>>::empty()) =~= reg);
    } else {
        let rest = names.drop_first();
        assert(names =~= seq![names[0]] + rest);
        assert(names.to_set() =~= rest.to_set().insert(names[0])) by {
            assert forall|x: Seq<char>| names.to_set().contains(x) <==> rest.to_set().contains(x) || x == names[0] by {
                if names.contains(x) {
                    let k = choose|k: int| 0 <= k < names.len() && names[k] == x;
                    if k > 0 {
                        assert(rest[k - 1] == x);
                    }
                }
                if rest.contains(x) {
                    let k = choose|k: int| 0 <= k < rest.len() && rest[k] == x;
                    assert(names[k + 1] == x);
                }
                if x == names[0] {
                    assert(names.contains(x));
                }
            }
        }
        if reg.contains(names[0]) {
            lemma_pending_covers(reg, rest);
            assert(reg.union(names.to_set()) =~= reg.union(rest.to_set()));
        } else {
            let reg2 = reg.insert(names[0]);
            lemma_pending_covers(reg2, rest);
            let p = pending(reg2, rest);
            assert(pending(reg, names) == seq![names[0]] + p);
            assert((seq![names[0]] + p).to_set() =~= p.to_set().insert(names[0])) by {
                let q = seq![names[0]] + p;
                assert forall|x: Seq<char>| q.contains(x) <==> p.contains(x) || x == names[0] by {
                    if q.contains(x) {
                        let k = choose|k: int| 0 <= k < q.len() && q[k] == x;
                        if k > 0 {
                            assert(p[k - 1] == x);
                        }
                    }
                    if p.contains(x) {
                        let k = choose|k: int| 0 <= k < p.len() && p[k] == x;
                        assert(q[k + 1] == x);
                    }
                    if x == names[0] {
                        assert(q[0] == x);
                    }
                }
            }
            assert(reg.union(pending(reg, names).to_set()) =~= reg2.union(p.to_set()));
            assert(reg.union(names.to_set()) =~= reg2.union(rest.to_set()));
        }
    }
}

} // verus!
