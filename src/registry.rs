use vstd::prelude::*;

use crate::vertex::Vertex;

verus! {

/// Entries whose chunk coordinate is still in play.
pub open spec fn kept_of<H>(entries: Seq<(Vertex, Vec<H>)>, in_play: Seq<Vertex>) -> Seq<(Vertex, Vec<H>)> {
    entries.filter(|e: (Vertex, Vec<H>)| in_play.contains(e.0))
}

/// Entries whose chunk coordinate has left play.
pub open spec fn stale_of<H>(entries: Seq<(Vertex, Vec<H>)>, in_play: Seq<Vertex>) -> Seq<(Vertex, Vec<H>)> {
    entries.filter(|e: (Vertex, Vec<H>)| !in_play.contains(e.0))
}

/// Coordinates in play that have no entry among `keys`, in the order of `in_play`.
pub open spec fn missing_of(keys: Set<Vertex>, in_play: Seq<Vertex>) -> Seq<Vertex> {
    in_play.filter(|v: Vertex| !keys.contains(v))
}

/// The coordinates that `entries` holds.
pub open spec fn keys_of<H>(entries: Seq<(Vertex, Vec<H>)>) -> Set<Vertex> {
    Set::new(|k: Vertex| exists|i: int| 0 <= i < entries.len() && #[trigger] entries[i].0 == k)
}

pub open spec fn unique_keys<H>(entries: Seq<(Vertex, Vec<H>)>) -> bool {
    forall|i: int, j: int|
        0 <= i < entries.len() && 0 <= j < entries.len() && i != j ==> #[trigger] entries[i].0
            != #[trigger] entries[j].0
}

/// The ledger of spawned chunks: for each chunk coordinate, the handles of what
/// was spawned for it.
#[derive(Debug)]
pub struct GridChunks<H> {
    chunk_entities: Vec<(Vertex, Vec<H>)>,
}

fn contains_vertex(v: &Vec<Vertex>, x: Vertex) -> (r: bool)
    ensures
        r == v@.contains(x),
{
    let mut i: usize = 0;
    while i < v.len()
        invariant
            i <= v@.len(),
            forall|j: int| 0 <= j < i ==> v@[j] != x,
        decreases v@.len() - i,
    {
        if v[i] == x {
            return true;
        }
        i = i + 1;
    }
    false
}

impl<H> GridChunks<H> {
    pub closed spec fn entries(self) -> Seq<(Vertex, Vec<H>)> {
        self.chunk_entities@
    }

    pub open spec fn key_set(self) -> Set<Vertex> {
        keys_of(self.entries())
    }

    pub open spec fn wf(self) -> bool {
        unique_keys(self.entries())
    }

    pub fn new() -> (r: GridChunks<H>)
        ensures
            r.wf(),
            r.entries().len() == 0,
    {
        GridChunks { chunk_entities: Vec::new() }
    }

    pub fn len(&self) -> (r: usize)
        ensures
            r == self.entries().len(),
    {
        self.chunk_entities.len()
    }

    pub fn contains_key(&self, v: Vertex) -> (r: bool)
        ensures
            r == self.key_set().contains(v),
    {
        let mut i: usize = 0;
        while i < self.chunk_entities.len()
            invariant
                i <= self.chunk_entities@.len(),
                forall|j: int| 0 <= j < i ==> self.chunk_entities@[j].0 != v,
            decreases self.chunk_entities@.len() - i,
        {
            if self.chunk_entities[i].0 == v {
                return true;
            }
            i = i + 1;
        }
        proof {
            assert(!self.key_set().contains(v));
        }
        false
    }

    /// The handles registered for `v`, if any.
    pub fn get(&self, v: Vertex) -> (r: Option<&Vec<H>>)
        ensures
            r is None <==> !self.key_set().contains(v),
            forall|h: &Vec<H>| r == Some(h) ==> self.entries().contains((v, *h)),
    {
        let mut i: usize = 0;
        while i < self.chunk_entities.len()
            invariant
                i <= self.chunk_entities@.len(),
                forall|j: int| 0 <= j < i ==> self.chunk_entities@[j].0 != v,
            decreases self.chunk_entities@.len() - i,
        {
            if self.chunk_entities[i].0 == v {
                proof {
                    assert(self.entries()[i as int] == (v, self.chunk_entities@[i as int].1));
                }
                return Some(&self.chunk_entities[i].1);
            }
            i = i + 1;
        }
        None
    }

    /// Removes every entry whose coordinate is not in `in_play` and hands them
    /// back, each exactly once, so that what was spawned for them can be torn down.
    pub fn evict_stale(&mut self, in_play: &Vec<Vertex>) -> (removed: Vec<(Vertex, Vec<H>)>)
        requires
            old(self).wf(),
        ensures
            final(self).wf(),
            final(self).entries() == kept_of(old(self).entries(), in_play@),
            removed@ == stale_of(old(self).entries(), in_play@),
            final(self).key_set() == old(self).key_set().intersect(in_play@.to_set()),
            keys_of(removed@) == old(self).key_set().difference(in_play@.to_set()),
    {
        broadcast use vstd::seq_lib::group_filter_ensures;

        let mut rest: Vec<(Vertex, Vec<H>)> = Vec::new();
        std::mem::swap(&mut self.chunk_entities, &mut rest);
        let ghost orig = rest@;
        let mut removed: Vec<(Vertex, Vec<H>)> = Vec::new();
        let ghost mut done: int = 0;
        while rest.len() > 0
            invariant
                orig == old(self).entries(),
                unique_keys(orig),
                0 <= done <= orig.len(),
                rest@ == orig.subrange(done, orig.len() as int),
                self.chunk_entities@ == kept_of(orig.subrange(0, done), in_play@),
                removed@ == stale_of(orig.subrange(0, done), in_play@),
            decreases rest@.len(),
        {
            let e = rest.remove(0);
            let ghost prefix = orig.subrange(0, done);
            let ghost next = orig.subrange(0, done + 1);
            proof {
                assert(e == orig[done]);
                assert(next.drop_last() =~= prefix);
                assert(next.last() == e);
                reveal(Seq::filter);
            }
            if contains_vertex(in_play, e.0) {
                self.chunk_entities.push(e);
            } else {
                removed.push(e);
            }
            proof {
                done = done + 1;
                assert(rest@ =~= orig.subrange(done, orig.len() as int));
            }
        }
        proof {
            assert(orig.subrange(0, done) =~= orig);
            let kept = self.chunk_entities@;
            let keep = |e: (Vertex, Vec<H>)| in_play@.contains(e.0);
            let drop = |e: (Vertex, Vec<H>)| !in_play@.contains(e.0);
            assert forall|i: int, j: int|
                0 <= i < kept.len() && 0 <= j < kept.len() && i != j implies #[trigger] kept[i].0
                != #[trigger] kept[j].0 by {
                lemma_filter_unique_keys(orig, keep, i, j);
            }
            assert(keys_of(kept) =~= keys_of(orig).intersect(in_play@.to_set())) by {
                lemma_filter_keys(orig, keep);
            }
            assert(keys_of(removed@) =~= keys_of(orig).difference(in_play@.to_set())) by {
                lemma_filter_keys(orig, drop);
            }
        }
        removed
    }

    /// The coordinates in play that have no entry yet, in the order of `in_play`:
    /// the chunks to build and register.
    pub fn missing(&self, in_play: &Vec<Vertex>) -> (r: Vec<Vertex>)
        ensures
            r@ == missing_of(self.key_set(), in_play@),
    {
        let mut out: Vec<Vertex> = Vec::new();
        let mut i: usize = 0;
        while i < in_play.len()
            invariant
                i <= in_play@.len(),
                out@ == missing_of(self.key_set(), in_play@.subrange(0, i as int)),
            decreases in_play@.len() - i,
        {
            let v = in_play[i];
            proof {
                assert(in_play@.subrange(0, i + 1).drop_last() =~= in_play@.subrange(0, i as int));
                reveal(Seq::filter);
            }
            if !self.contains_key(v) {
                out.push(v);
            }
            i = i + 1;
        }
        proof {
            assert(in_play@.subrange(0, i as int) =~= in_play@);
        }
        out
    }

    /// Records what was spawned for `v`, which has no entry yet.
    pub fn register(&mut self, v: Vertex, handles: Vec<H>)
        requires
            old(self).wf(),
            !old(self).key_set().contains(v),
        ensures
            final(self).wf(),
            final(self).entries() == old(self).entries().push((v, handles)),
            final(self).key_set() == old(self).key_set().insert(v),
    {
        self.chunk_entities.push((v, handles));
        proof {
            let s = self.chunk_entities@;
            assert(s.last().0 == v);
            assert(keys_of(s) =~= keys_of(old(self).entries()).insert(v)) by {
                assert forall|k: Vertex| keys_of(old(self).entries()).contains(k) implies keys_of(
                    s,
                ).contains(k) by {
                    let i = choose|i: int| 0 <= i < old(self).entries().len() && #[trigger] old(self).entries()[i].0 == k;
                    assert(s[i].0 == k);
                }
                assert(s[s.len() - 1].0 == v);
            }
        }
    }
}

/// One reconciliation pass leaves exactly the chunks in play registered:
/// after `evict_stale` keeps the registered coordinates that are in play, and
/// each coordinate that `missing` then reports is registered, the registered
/// coordinates are the coordinates in play.
pub proof fn lemma_reconcile_complete(registered: Set<Vertex>, in_play: Seq<Vertex>)
    ensures
        ({
            let kept = registered.intersect(in_play.to_set());
            kept.union(missing_of(kept, in_play).to_set()) == in_play.to_set()
        }),
{
    broadcast use vstd::seq_lib::group_filter_ensures;

    let kept = registered.intersect(in_play.to_set());
    let miss = missing_of(kept, in_play);
    let p = |v: Vertex| !kept.contains(v);
    assert forall|v: Vertex| #[trigger] in_play.to_set().contains(v) implies kept.union(miss.to_set()).contains(v) by {
        if !kept.contains(v) {
            let i = choose|i: int| 0 <= i < in_play.len() && in_play[i] == v;
            in_play.lemma_filter_contains(p, i);
        }
    }
    assert forall|v: Vertex| #[trigger] kept.union(miss.to_set()).contains(v) implies in_play.to_set().contains(v) by {
        if miss.to_set().contains(v) {
            in_play.lemma_filter_contains_rev(p, v);
        }
    }
    assert(kept.union(miss.to_set()) =~= in_play.to_set());
}

/// A second pass without a new window is a no-op: once the registered
/// coordinates are the coordinates in play, nothing is stale and nothing is missing.
pub proof fn lemma_reconcile_idempotent<H>(entries: Seq<(Vertex, Vec<H>)>, in_play: Seq<Vertex>)
    requires
        keys_of(entries) == in_play.to_set(),
    ensures
        stale_of(entries, in_play).len() == 0,
        kept_of(entries, in_play) == entries,
        missing_of(keys_of(entries), in_play).len() == 0,
{
    broadcast use vstd::seq_lib::group_filter_ensures;

    let keep = |e: (Vertex, Vec<H>)| in_play.contains(e.0);
    let drop = |e: (Vertex, Vec<H>)| !in_play.contains(e.0);
    assert forall|i: int| 0 <= i < entries.len() implies #[trigger] keep(entries[i]) by {
        assert(keys_of(entries).contains(entries[i].0));
    }
    lemma_filter_all(entries, keep);
    lemma_filter_none(entries, drop);
    let p = |v: Vertex| !keys_of(entries).contains(v);
    lemma_filter_none(in_play, p);
}

/// A filter whose predicate holds everywhere keeps the whole sequence.
proof fn lemma_filter_all<A>(s: Seq<A>, p: spec_fn(A) -> bool)
    requires
        forall|i: int| 0 <= i < s.len() ==> #[trigger] p(s[i]),
    ensures
        s.filter(p) == s,
    decreases s.len(),
{
    reveal(Seq::filter);
    if s.len() > 0 {
        lemma_filter_all(s.drop_last(), p);
        assert(s.drop_last().push(s.last()) =~= s);
    }
}

/// A filter whose predicate holds nowhere keeps nothing.
proof fn lemma_filter_none<A>(s: Seq<A>, p: spec_fn(A) -> bool)
    requires
        forall|i: int| 0 <= i < s.len() ==> !#[trigger] p(s[i]),
    ensures
        s.filter(p).len() == 0,
    decreases s.len(),
{
    reveal(Seq::filter);
    if s.len() > 0 {
        lemma_filter_none(s.drop_last(), p);
    }
}

/// An entry of `s.filter(p)` is an entry of `s` for which `p` holds.
proof fn lemma_filter_member<A>(s: Seq<A>, p: spec_fn(A) -> bool, i: int)
    requires
        0 <= i < s.filter(p).len(),
    ensures
        s.contains(s.filter(p)[i]),
        p(s.filter(p)[i]),
{
    broadcast use vstd::seq_lib::group_filter_ensures;

    s.lemma_filter_contains_rev(p, s.filter(p)[i]);
}

/// Filtering keeps the keys for which the predicate holds.
proof fn lemma_filter_keys<H>(s: Seq<(Vertex, Vec<H>)>, p: spec_fn((Vertex, Vec<H>)) -> bool)
    ensures
        forall|k: Vertex|
            #[trigger] keys_of(s.filter(p)).contains(k) <==> exists|i: int|
                0 <= i < s.len() && s[i].0 == k && p(s[i]),
{
    broadcast use vstd::seq_lib::group_filter_ensures;

    assert forall|k: Vertex| #[trigger] keys_of(s.filter(p)).contains(k) implies exists|i: int|
        0 <= i < s.len() && s[i].0 == k && p(s[i]) by {
        let j = choose|j: int| 0 <= j < s.filter(p).len() && #[trigger] s.filter(p)[j].0 == k;
        lemma_filter_member(s, p, j);
        let i = choose|i: int| 0 <= i < s.len() && s[i] == s.filter(p)[j];
        assert(s[i].0 == k && p(s[i]));
    }
    assert forall|k: Vertex| (exists|i: int| 0 <= i < s.len() && s[i].0 == k && p(s[i])) implies #[trigger] keys_of(
        s.filter(p),
    ).contains(k) by {
        let i = choose|i: int| 0 <= i < s.len() && s[i].0 == k && p(s[i]);
        s.lemma_filter_contains(p, i);
        let j = choose|j: int| 0 <= j < s.filter(p).len() && s.filter(p)[j] == s[i];
        assert(s.filter(p)[j].0 == k);
    }
}

/// Filtering a sequence of entries with distinct keys leaves them distinct.
proof fn lemma_filter_unique_keys<H>(s: Seq<(Vertex, Vec<H>)>, p: spec_fn((Vertex, Vec<H>)) -> bool, i: int, j: int)
    requires
        unique_keys(s),
        0 <= i < s.filter(p).len(),
        0 <= j < s.filter(p).len(),
        i != j,
    ensures
        s.filter(p)[i].0 != s.filter(p)[j].0,
    decreases s.len(),
{
    reveal(Seq::filter);
    broadcast use vstd::seq_lib::group_filter_ensures;

    let f = s.filter(p);
    let rest = s.drop_last();
    let fr = rest.filter(p);
    assert(unique_keys(rest)) by {
        assert forall|a: int, b: int|
            0 <= a < rest.len() && 0 <= b < rest.len() && a != b implies #[trigger] rest[a].0
            != #[trigger] rest[b].0 by {
            assert(rest[a] == s[a] && rest[b] == s[b]);
        }
    }
    if p(s.last()) {
        assert(f == fr.push(s.last()));
        if i < fr.len() && j < fr.len() {
            lemma_filter_unique_keys(rest, p, i, j);
        } else {
            let a = if i < fr.len() { i } else { j };
            lemma_filter_member(rest, p, a);
            let m = choose|m: int| 0 <= m < rest.len() && rest[m] == fr[a];
            assert(s[m] == fr[a]);
            assert(s[m].0 != s[s.len() - 1].0);
        }
    } else {
        assert(f == fr);
        lemma_filter_unique_keys(rest, p, i, j);
    }
}

} // verus!
