//! Lexical scopes, held as an arena of scope records addressed by index.
//!
//! Each record stores its parent's index (or none) and a binding table.
//! Lookup walks innermost to outermost, first hit wins; `set` always
//! writes the current record, never searching upward; `extend` creates a
//! child that shares its parent through a live link; `close` creates an
//! independent snapshot of the reachable bindings with no parent link.
//! The copy-on-close versus share-on-extend distinction is stated and
//! proved as [`lemma_closed_scope_isolated`] and
//! [`lemma_extended_scope_shares`].

use vstd::prelude::*;

use crate::ast::clone_string;
use crate::text::str_eq;
use crate::value::{lemma_rt_valid_mono, rt_valid, rv_view, ReamValue, ReamValueV};

verus! {

/// One scope record: an optional parent link and a binding table.
///
/// The table is append-only; the latest entry for a key is its binding.
#[derive(Debug)]
pub struct Scope {
    /// The index of the parent scope, absent for a root or a closed
    /// snapshot.
    pub parent: Option<usize>,
    /// The bindings, oldest first.
    pub symbols: Vec<(String, ReamValue)>,
}

/// The mathematical shape of a [`Scope`].
pub struct ScopeV {
    /// The index of the parent scope.
    pub parent: Option<int>,
    /// The bindings, oldest first.
    pub symbols: Seq<(Seq<char>, ReamValueV)>,
}

/// The shape of a binding table.
pub open spec fn symbols_view(s: Seq<(String, ReamValue)>) -> Seq<(Seq<char>, ReamValueV)> {
    s.map_values(|kv: (String, ReamValue)| (kv.0@, rv_view(kv.1)))
}

impl View for Scope {
    type V = ScopeV;

    open spec fn view(&self) -> ScopeV {
        ScopeV {
            parent: match self.parent {
                Option::Some(p) => Option::Some(p as int),
                Option::None => Option::None,
            },
            symbols: symbols_view(self.symbols@),
        }
    }
}

/// The binding a table holds for a key: the latest entry with that key.
pub open spec fn assoc_lookup(s: Seq<(Seq<char>, ReamValueV)>, key: Seq<char>) -> Option<
    ReamValueV,
>
    decreases s.len(),
{
    if s.len() == 0 {
        Option::None
    } else if s.last().0 == key {
        Option::Some(s.last().1)
    } else {
        assoc_lookup(s.drop_last(), key)
    }
}

/// A later table is consulted before an earlier one.
pub proof fn lemma_assoc_lookup_append(
    a: Seq<(Seq<char>, ReamValueV)>,
    b: Seq<(Seq<char>, ReamValueV)>,
    key: Seq<char>,
)
    ensures
        assoc_lookup(a + b, key) == match assoc_lookup(b, key) {
            Option::Some(v) => Option::Some(v),
            Option::None => assoc_lookup(a, key),
        },
    decreases b.len(),
{
    if b.len() == 0 {
        assert(a + b =~= a);
    } else {
        assert((a + b).drop_last() =~= a + b.drop_last());
        assert((a + b).last() == b.last());
        lemma_assoc_lookup_append(a, b.drop_last(), key);
    }
}

/// Every value stored anywhere in the records is valid against the
/// arena's size: stored closures capture existing records.
pub open spec fn scopes_valid(recs: Seq<ScopeV>) -> bool {
    forall|i: int, j: int|
        0 <= i < recs.len() && 0 <= j < recs[i].symbols.len() ==> #[trigger] rt_valid(
            recs[i].symbols[j].1.t,
            recs.len() as int,
        )
}

/// A table's answer for a key is one of its entries.
pub proof fn lemma_assoc_member(s: Seq<(Seq<char>, ReamValueV)>, key: Seq<char>)
    ensures
        match assoc_lookup(s, key) {
            Option::Some(v) => exists|j: int| 0 <= j < s.len() && #[trigger] s[j] == (key, v),
            Option::None => true,
        },
    decreases s.len(),
{
    if s.len() > 0 && s.last().0 != key {
        lemma_assoc_member(s.drop_last(), key);
        if assoc_lookup(s.drop_last(), key) is Some {
            let v = assoc_lookup(s.drop_last(), key)->Some_0;
            let j = choose|j: int| 0 <= j < s.drop_last().len() && #[trigger] s.drop_last()[j]
                == (key, v);
            assert(s[j] == (key, v));
        }
    }
}

/// What lookup finds is valid against the arena's size.
pub proof fn lemma_lookup_valid(recs: Seq<ScopeV>, idx: int, key: Seq<char>)
    requires
        scopes_wf(recs),
        scopes_valid(recs),
        0 <= idx < recs.len(),
    ensures
        match lookup(recs, idx, key) {
            Option::Some(v) => rt_valid(v.t, recs.len() as int),
            Option::None => true,
        },
    decreases idx,
{
    lemma_assoc_member(recs[idx].symbols, key);
    match assoc_lookup(recs[idx].symbols, key) {
        Option::Some(v) => {
            let j = choose|j: int|
                0 <= j < recs[idx].symbols.len() && #[trigger] recs[idx].symbols[j] == (key, v);
            assert(rt_valid(recs[idx].symbols[j].1.t, recs.len() as int));
        },
        Option::None => {
            match recs[idx].parent {
                Option::Some(p) => {
                    lemma_lookup_valid(recs, p, key);
                },
                Option::None => {},
            }
        },
    }
}

/// Every entry of a flattened chain is an entry of some record.
pub proof fn lemma_chain_flat_valid(recs: Seq<ScopeV>, idx: int)
    requires
        scopes_wf(recs),
        scopes_valid(recs),
        0 <= idx < recs.len(),
    ensures
        forall|j: int|
            0 <= j < chain_flat(recs, idx).len() ==> #[trigger] rt_valid(
                chain_flat(recs, idx)[j].1.t,
                recs.len() as int,
            ),
    decreases idx,
{
    match recs[idx].parent {
        Option::Some(p) => {
            lemma_chain_flat_valid(recs, p);
        },
        Option::None => {},
    }
}

/// Every parent link points at an earlier record.
pub open spec fn scopes_wf(recs: Seq<ScopeV>) -> bool {
    forall|i: int|
        0 <= i < recs.len() ==> match #[trigger] recs[i].parent {
            Option::Some(p) => 0 <= p < i,
            Option::None => true,
        }
}

/// The binding a key has, looking from scope `idx` innermost to outermost;
/// the first hit wins.
pub open spec fn lookup(recs: Seq<ScopeV>, idx: int, key: Seq<char>) -> Option<ReamValueV>
    decreases idx when 0 <= idx < recs.len() && scopes_wf(recs)
{
    if 0 <= idx < recs.len() {
        match assoc_lookup(recs[idx].symbols, key) {
            Option::Some(v) => Option::Some(v),
            Option::None => match recs[idx].parent {
                Option::Some(p) => if 0 <= p < idx {
                    lookup(recs, p, key)
                } else {
                    Option::None
                },
                Option::None => Option::None,
            },
        }
    } else {
        Option::None
    }
}

/// What `set` does to the records: the bindings of record `j` gain one
/// entry; everything else is untouched.
pub open spec fn spec_set(recs: Seq<ScopeV>, j: int, key: Seq<char>, v: ReamValueV) -> Seq<
    ScopeV,
> {
    recs.update(j, ScopeV { parent: recs[j].parent, symbols: recs[j].symbols.push((key, v)) })
}

/// What `extend` does to the records: a fresh empty child of `p` appears
/// at the end.
pub open spec fn spec_extend(recs: Seq<ScopeV>, p: int) -> Seq<ScopeV> {
    recs.push(ScopeV { parent: Option::Some(p), symbols: Seq::empty() })
}

/// The reachable bindings of a chain, flattened outermost first, so the
/// latest (innermost) entry for a key wins.
pub open spec fn chain_flat(recs: Seq<ScopeV>, idx: int) -> Seq<(Seq<char>, ReamValueV)>
    decreases idx when 0 <= idx < recs.len() && scopes_wf(recs)
{
    if 0 <= idx < recs.len() {
        (match recs[idx].parent {
            Option::Some(p) => if 0 <= p < idx {
                chain_flat(recs, p)
            } else {
                Seq::empty()
            },
            Option::None => Seq::empty(),
        }) + recs[idx].symbols
    } else {
        Seq::empty()
    }
}

/// What `close` does to the records: an independent parentless snapshot of
/// the chain reachable from `idx` appears at the end.
pub open spec fn spec_close(recs: Seq<ScopeV>, idx: int) -> Seq<ScopeV> {
    recs.push(ScopeV { parent: Option::None, symbols: chain_flat(recs, idx) })
}

/// The flattened chain holds exactly what lookup finds.
pub proof fn lemma_chain_flat_lookup(recs: Seq<ScopeV>, idx: int, key: Seq<char>)
    requires
        scopes_wf(recs),
        0 <= idx < recs.len(),
    ensures
        assoc_lookup(chain_flat(recs, idx), key) == lookup(recs, idx, key),
    decreases idx,
{
    match recs[idx].parent {
        Option::Some(p) => {
            lemma_chain_flat_lookup(recs, p, key);
            lemma_assoc_lookup_append(chain_flat(recs, p), recs[idx].symbols, key);
        },
        Option::None => {
            lemma_assoc_lookup_append(Seq::empty(), recs[idx].symbols, key);
            assert(Seq::<(Seq<char>, ReamValueV)>::empty() + recs[idx].symbols =~= recs[
                idx
            ].symbols);
        },
    }
}

/// Lookup reads only the records of its chain, which all sit at or below
/// its index: records above, or unchanged ones, do not matter.
pub proof fn lemma_lookup_frame(recs1: Seq<ScopeV>, recs2: Seq<ScopeV>, idx: int, key: Seq<char>)
    requires
        scopes_wf(recs1),
        scopes_wf(recs2),
        0 <= idx < recs1.len(),
        idx < recs2.len(),
        forall|j: int| 0 <= j <= idx ==> recs1[j] == recs2[j],
    ensures
        lookup(recs1, idx, key) == lookup(recs2, idx, key),
    decreases idx,
{
    match recs1[idx].parent {
        Option::Some(p) => {
            if assoc_lookup(recs1[idx].symbols, key) is None {
                lemma_lookup_frame(recs1, recs2, p, key);
            }
        },
        Option::None => {},
    }
}

/// Closure isolation, the copy-on-close law: after `close` takes its
/// snapshot, writing any binding into any other scope leaves every lookup
/// through the snapshot exactly what the closed-over chain answered at
/// capture time.
pub proof fn lemma_closed_scope_isolated(
    recs: Seq<ScopeV>,
    idx: int,
    j: int,
    key2: Seq<char>,
    v: ReamValueV,
    key: Seq<char>,
)
    requires
        scopes_wf(recs),
        0 <= idx < recs.len(),
        0 <= j < recs.len() + 1,
        j != recs.len(),
    ensures
        lookup(
            spec_set(spec_close(recs, idx), j, key2, v),
            recs.len() as int,
            key,
        ) == lookup(recs, idx, key),
{
    let closed = spec_close(recs, idx);
    let after = spec_set(closed, j, key2, v);
    let new_idx = recs.len() as int;
    assert(scopes_wf(closed));
    assert(scopes_wf(after));
    assert(after[new_idx] == closed[new_idx]);
    assert(after[new_idx].symbols == chain_flat(recs, idx));
    assert(after[new_idx].parent is None);
    lemma_chain_flat_lookup(recs, idx, key);
}

/// Sibling sharing, the share-on-extend law: a child made by `extend`
/// holds a live link to its parent, so a binding written into the parent
/// afterwards is visible through the child.
pub proof fn lemma_extended_scope_shares(
    recs: Seq<ScopeV>,
    p: int,
    key2: Seq<char>,
    v: ReamValueV,
    key: Seq<char>,
)
    requires
        scopes_wf(recs),
        0 <= p < recs.len(),
    ensures
        lookup(
            spec_set(spec_extend(recs, p), p, key2, v),
            recs.len() as int,
            key,
        ) == if key == key2 {
            Option::Some(v)
        } else {
            lookup(recs, p, key)
        },
{
    let extended = spec_extend(recs, p);
    let after = spec_set(extended, p, key2, v);
    let child = recs.len() as int;
    assert(scopes_wf(extended));
    assert(scopes_wf(after));
    assert(after[child].symbols =~= Seq::<(Seq<char>, ReamValueV)>::empty());
    assert(after[child].parent == Option::Some(p));
    assert(after[p].symbols == recs[p].symbols.push((key2, v)));
    assert(assoc_lookup(after[child].symbols, key) is None);
    assert(lookup(after, child, key) == lookup(after, p, key));
    if key == key2 {
        assert(assoc_lookup(after[p].symbols, key) == Option::Some(v));
        assert(lookup(after, p, key) == Option::Some(v));
    } else {
        assert(after[p].symbols.last() == (key2, v));
        assert(after[p].symbols.drop_last() =~= recs[p].symbols);
        assert(assoc_lookup(after[p].symbols, key) == assoc_lookup(recs[p].symbols, key));
        if assoc_lookup(recs[p].symbols, key) is None {
            match recs[p].parent {
                Option::Some(gp) => {
                    assert(after[p].parent == Option::Some(gp));
                    assert(forall|j: int| 0 <= j <= gp ==> recs[j] == after[j]);
                    lemma_lookup_frame(recs, after, gp, key);
                },
                Option::None => {},
            }
        }
    }
}

/// The arena of scope records.
#[derive(Debug)]
pub struct Scopes {
    /// The records, in creation order.
    pub records: Vec<Scope>,
}

impl View for Scopes {
    type V = Seq<ScopeV>;

    open spec fn view(&self) -> Seq<ScopeV> {
        self.records@.map_values(|s: Scope| s@)
    }
}

impl Scopes {
    /// Every parent link points at an earlier record, and every stored
    /// value is valid against the arena's size.
    pub open spec fn wf(self) -> bool {
        scopes_wf(self@) && scopes_valid(self@)
    }

    /// Create an arena holding one empty root scope.
    pub fn new() -> (s: Scopes)
        ensures
            s.wf(),
            s@.len() == 1,
            s@[0].parent is None,
            s@[0].symbols == Seq::<(Seq<char>, ReamValueV)>::empty(),
    {
        let mut records: Vec<Scope> = Vec::new();
        records.push(Scope { parent: Option::None, symbols: Vec::new() });
        let s = Scopes { records };
        proof {
            assert(s@[0].symbols =~= Seq::<(Seq<char>, ReamValueV)>::empty());
        }
        s
    }

    /// Get the value bound to `key`, walking from scope `idx` innermost to
    /// outermost; the returned value is an independent copy.
    #[verifier::loop_isolation(false)]
    pub fn get(&self, idx: usize, key: &str) -> (r: Option<ReamValue>)
        requires
            self.wf(),
            idx < self@.len(),
        ensures
            match r {
                Option::Some(v) => lookup(self@, idx as int, key@) == Option::Some(v@)
                    && rt_valid(v@.t, self@.len() as int),
                Option::None => lookup(self@, idx as int, key@) is None,
            },
    {
        proof {
            lemma_lookup_valid(self@, idx as int, key@);
        }
        let mut cur: usize = idx;
        loop
            invariant
                self.wf(),
                cur <= idx < self@.len(),
                lookup(self@, idx as int, key@) == lookup(self@, cur as int, key@),
            decreases cur,
        {
            let rec = &self.records[cur];
            let mut i: usize = rec.symbols.len();
            proof {
                assert(self@[cur as int].symbols =~= symbols_view(rec.symbols@).subrange(
                    0,
                    i as int,
                ));
            }
            while i > 0
                invariant
                    cur < self@.len(),
                    rec == &self.records@[cur as int],
                    i <= rec.symbols@.len(),
                    assoc_lookup(self@[cur as int].symbols, key@) == assoc_lookup(
                        symbols_view(rec.symbols@).subrange(0, i as int),
                        key@,
                    ),
                decreases i,
            {
                i = i - 1;
                let ghost table = symbols_view(rec.symbols@);
                proof {
                    assert(table.subrange(0, i + 1).drop_last() =~= table.subrange(0, i as int));
                    assert(table.subrange(0, i + 1).last() == table[i as int]);
                    assert(table[i as int].0 == rec.symbols@[i as int].0@);
                }
                if str_eq(rec.symbols[i].0.as_str(), key) {
                    let v = rec.symbols[i].1.duplicate();
                    proof {
                        assert(table[i as int].1 == rv_view(rec.symbols@[i as int].1));
                        assert(assoc_lookup(self@[cur as int].symbols, key@) == Option::Some(
                            v@,
                        ));
                        assert(lookup(self@, cur as int, key@) == Option::Some(v@));
                    }
                    return Option::Some(v);
                }
            }
            proof {
                assert(symbols_view(rec.symbols@).subrange(0, 0) =~= Seq::<(
                    Seq<char>,
                    ReamValueV,
                )>::empty());
            }
            match rec.parent {
                Option::Some(p) => {
                    cur = p;
                },
                Option::None => {
                    return Option::None;
                },
            }
        }
    }

    /// Bind `key` to `value` in scope `idx` itself, shadowing allowed and
    /// no upward search: the current table alone is written.
    pub fn set(&mut self, idx: usize, key: String, value: ReamValue)
        requires
            old(self).wf(),
            idx < old(self)@.len(),
            rt_valid(value@.t, old(self)@.len() as int),
        ensures
            final(self).wf(),
            final(self)@ == spec_set(old(self)@, idx as int, key@, value@),
    {
        let ghost before = self@;
        let ghost kv = (key@, rv_view(value));
        let rec = &mut self.records[idx];
        rec.symbols.push((key, value));
        proof {
            assert(self@[idx as int].symbols =~= before[idx as int].symbols.push(kv));
            assert(self@ =~= spec_set(before, idx as int, kv.0, kv.1));
            assert forall|i: int, j: int|
                0 <= i < self@.len() && 0 <= j < self@[i].symbols.len() implies #[trigger]
                rt_valid(self@[i].symbols[j].1.t, self@.len() as int) by {
                if i == idx && j == self@[i].symbols.len() - 1 {
                    assert(self@[i].symbols[j] == kv);
                } else {
                    assert(self@[i].symbols[j] == before[i].symbols[j]);
                    assert(rt_valid(before[i].symbols[j].1.t, before.len() as int));
                }
            }
        }
    }

    /// Create a child scope that shares `parent` through a live link:
    /// later writes to the parent are visible through the child.
    pub fn extend(&mut self, parent: usize) -> (idx: usize)
        requires
            old(self).wf(),
            parent < old(self)@.len(),
        ensures
            final(self).wf(),
            final(self)@ == spec_extend(old(self)@, parent as int),
            idx == old(self)@.len(),
    {
        let ghost before = self@;
        let idx = self.records.len();
        self.records.push(Scope { parent: Option::Some(parent), symbols: Vec::new() });
        proof {
            assert(self@[idx as int].symbols =~= Seq::<(Seq<char>, ReamValueV)>::empty());
            assert(self@ =~= spec_extend(before, parent as int));
            assert forall|i: int, j: int|
                0 <= i < self@.len() && 0 <= j < self@[i].symbols.len() implies #[trigger]
                rt_valid(self@[i].symbols[j].1.t, self@.len() as int) by {
                assert(i < before.len());
                assert(self@[i].symbols[j] == before[i].symbols[j]);
                assert(rt_valid(before[i].symbols[j].1.t, before.len() as int));
                lemma_rt_valid_mono(before[i].symbols[j].1.t, before.len() as int, self@.len() as int);
            }
        }
        idx
    }

    /// Close over scope `idx`: take an independent, parentless snapshot of
    /// the bindings reachable from it, outermost first so the innermost
    /// binding of a key wins.
    pub fn close(&mut self, idx: usize) -> (new_idx: usize)
        requires
            old(self).wf(),
            idx < old(self)@.len(),
        ensures
            final(self).wf(),
            final(self)@ == spec_close(old(self)@, idx as int),
            new_idx == old(self)@.len(),
    {
        let ghost before = self@;
        let flat = self.collect_chain(idx);
        let new_idx = self.records.len();
        self.records.push(Scope { parent: Option::None, symbols: flat });
        proof {
            assert(self@ =~= spec_close(before, idx as int));
            lemma_chain_flat_valid(before, idx as int);
            assert forall|i: int, j: int|
                0 <= i < self@.len() && 0 <= j < self@[i].symbols.len() implies #[trigger]
                rt_valid(self@[i].symbols[j].1.t, self@.len() as int) by {
                if i == new_idx {
                    assert(self@[i].symbols[j] == chain_flat(before, idx as int)[j]);
                    assert(rt_valid(chain_flat(before, idx as int)[j].1.t, before.len() as int));
                    lemma_rt_valid_mono(
                        chain_flat(before, idx as int)[j].1.t,
                        before.len() as int,
                        self@.len() as int,
                    );
                } else {
                    assert(self@[i].symbols[j] == before[i].symbols[j]);
                    assert(rt_valid(before[i].symbols[j].1.t, before.len() as int));
                    lemma_rt_valid_mono(before[i].symbols[j].1.t, before.len() as int, self@.len() as int);
                }
            }
        }
        new_idx
    }

    /// The bindings reachable from `idx`, flattened outermost first, as
    /// independent copies.
    fn collect_chain(&self, idx: usize) -> (r: Vec<(String, ReamValue)>)
        requires
            self.wf(),
            idx < self@.len(),
        ensures
            symbols_view(r@) == chain_flat(self@, idx as int),
        decreases idx,
    {
        let rec = &self.records[idx];
        let parent_link = rec.parent;
        let mut base: Vec<(String, ReamValue)> = match parent_link {
            Option::Some(p) => {
                proof {
                    assert(self@[idx as int].parent == Option::Some(p as int));
                }
                self.collect_chain(p)
            },
            Option::None => Vec::new(),
        };
        proof {
            if parent_link is None {
                assert(symbols_view(base@) =~= Seq::<(Seq<char>, ReamValueV)>::empty());
            }
        }
        let ghost base0 = symbols_view(base@);
        let mut i: usize = 0;
        while i < rec.symbols.len()
            invariant
                rec == &self.records@[idx as int],
                i <= rec.symbols@.len(),
                symbols_view(base@) =~= base0 + symbols_view(rec.symbols@).subrange(0, i as int),
            decreases rec.symbols@.len() - i,
        {
            let entry = &rec.symbols[i];
            let ghost prev = symbols_view(base@);
            base.push((clone_string(&entry.0), entry.1.duplicate()));
            proof {
                assert(symbols_view(base@) =~= prev.push(
                    (entry.0@, rv_view(entry.1)),
                ));
                assert(symbols_view(rec.symbols@).subrange(0, i + 1) =~= symbols_view(
                    rec.symbols@,
                ).subrange(0, i as int).push((entry.0@, rv_view(entry.1))));
            }
            i = i + 1;
        }
        proof {
            assert(symbols_view(rec.symbols@).subrange(
                0,
                rec.symbols@.len() as int,
            ) =~= symbols_view(rec.symbols@));
            assert(self@[idx as int].symbols == symbols_view(rec.symbols@));
            assert(symbols_view(base@) =~= base0 + symbols_view(rec.symbols@));
        }
        base
    }
}

} // verus!
