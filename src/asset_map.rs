use vstd::prelude::*;

use crate::errors::{Error, RuntimeErrorType};
use crate::types::{AssetIdentifier, PrincipalData};

verus! {

/// A ledger key: the principal and the asset's `(contract_name, asset_name)`.
pub type AssetKey = (PrincipalData, (Seq<char>, Seq<char>));

pub open spec fn in_i128(x: int) -> bool {
    i128::MIN <= x <= i128::MAX
}

/// The amount recorded for `k`, zero where nothing is recorded.
pub open spec fn amount_of(m: Map<AssetKey, int>, k: AssetKey) -> int {
    if m.contains_key(k) {
        m[k]
    } else {
        0
    }
}

/// The ledger after one transfer of `amount` on `k`.
pub open spec fn with_transfer(m: Map<AssetKey, int>, k: AssetKey, amount: int) -> Map<AssetKey, int> {
    m.insert(k, amount_of(m, k) + amount)
}

/// Folding `child` into `parent`: every key of either, amounts added.
pub open spec fn merged(parent: Map<AssetKey, int>, child: Map<AssetKey, int>) -> Map<AssetKey, int> {
    Map::new(
        |k: AssetKey| parent.contains_key(k) || child.contains_key(k),
        |k: AssetKey| amount_of(parent, k) + amount_of(child, k),
    )
}

/// Whether every merged amount fits in an `i128`.
pub open spec fn merge_fits(parent: Map<AssetKey, int>, child: Map<AssetKey, int>) -> bool {
    forall|k: AssetKey| #[trigger] child.contains_key(k) ==> in_i128(amount_of(parent, k) + child[k])
}

/// The map that a list of keys and amounts stands for.
pub open spec fn pairs_map(ks: Seq<AssetKey>, vs: Seq<i128>) -> Map<AssetKey, int>
    decreases ks.len(),
{
    if ks.len() == 0 {
        Map::empty()
    } else {
        pairs_map(ks.drop_last(), vs).insert(ks.last(), vs[ks.len() - 1] as int)
    }
}

pub open spec fn keys_unique(ks: Seq<AssetKey>) -> bool {
    forall|i: int, j: int| 0 <= i < j < ks.len() ==> ks[i] != ks[j]
}

/// The ledger after a list of transfers, applied in order, in exact arithmetic.
pub open spec fn replay(m: Map<AssetKey, int>, ts: Seq<(AssetKey, int)>) -> Map<AssetKey, int>
    decreases ts.len(),
{
    if ts.len() == 0 {
        m
    } else {
        with_transfer(replay(m, ts.drop_last()), ts.last().0, ts.last().1)
    }
}

/// Transfers recorded in a fresh child ledger and then folded into a parent
/// leave the parent as the same transfers made on the parent directly would.
pub proof fn lemma_commit_matches_direct(parent: Map<AssetKey, int>, ts: Seq<(AssetKey, int)>)
    ensures
        merged(parent, replay(Map::empty(), ts)) == replay(parent, ts),
    decreases ts.len(),
{
    if ts.len() == 0 {
        assert(merged(parent, Map::empty()) =~= parent);
    } else {
        lemma_commit_matches_direct(parent, ts.drop_last());
        let r = replay(Map::<AssetKey, int>::empty(), ts.drop_last());
        let (k, a) = ts.last();
        assert(merged(parent, with_transfer(r, k, a)) =~= with_transfer(merged(parent, r), k, a));
    }
}

proof fn lemma_merged_step(base: Map<AssetKey, int>, ks: Seq<AssetKey>, vs: Seq<i128>, i: int)
    requires
        keys_unique(ks),
        0 <= i < ks.len(),
    ensures
        merged(base, pairs_map(ks.take(i + 1), vs)) == merged(base, pairs_map(ks.take(i), vs)).insert(
            ks[i],
            amount_of(base, ks[i]) + vs[i],
        ),
{
    assert(ks.take(i + 1).drop_last() =~= ks.take(i));
    let prev = pairs_map(ks.take(i), vs);
    lemma_pairs_map_contains(ks.take(i), vs, ks[i]);
    assert(!prev.contains_key(ks[i]));
    assert(merged(base, pairs_map(ks.take(i + 1), vs)) =~= merged(base, prev).insert(
        ks[i],
        amount_of(base, ks[i]) + vs[i],
    ));
}

/// A table of transfers grouped by principal.
pub type AssetTable = Vec<(PrincipalData, Vec<(AssetIdentifier, i128)>)>;

/// `t` lists each principal once, with a non-empty list of its assets, each
/// asset once; every entry is what `m` records, and every key of `m` is
/// listed under its principal.
pub open spec fn is_table_of(t: Seq<(PrincipalData, Vec<(AssetIdentifier, i128)>)>, m: Map<AssetKey, int>) -> bool {
    &&& forall|i: int, j: int| 0 <= i < j < t.len() ==> t[i].0 != t[j].0
    &&& forall|i: int| 0 <= i < t.len() ==> (#[trigger] t[i]).1@.len() > 0
    &&& forall|i: int, j: int, l: int|
        0 <= i < t.len() && 0 <= j < l < t[i].1@.len() ==> (#[trigger] t[i].1@[j]).0@ != (#[trigger] t[i].1@[l]).0@
    &&& forall|i: int, j: int|
        #![trigger t[i].1@[j]]
        0 <= i < t.len() && 0 <= j < t[i].1@.len() ==> {
            let k = (t[i].0, t[i].1@[j].0@);
            m.contains_key(k) && m[k] == t[i].1@[j].1 as int
        }
    &&& forall|k: AssetKey| #[trigger] m.contains_key(k) ==> exists|i: int, j: int|
        0 <= i < t.len() && 0 <= j < t[i].1@.len() && t[i].0 == k.0 && #[trigger] t[i].1@[j].0@ == k.1
}

/// Accumulated transfer amounts per principal and asset within one scope.
///
/// The entries are kept in parallel `Vec`s with each key once, rather than in
/// a `HashMap`: the contracts speak of the map's contents, and a `HashMap`
/// keyed by a struct with `String` fields gives them nothing to build on.
#[derive(Debug)]
pub struct AssetMap {
    keys: Vec<(PrincipalData, AssetIdentifier)>,
    amounts: Vec<i128>,
}

proof fn lemma_pairs_map_contains(ks: Seq<AssetKey>, vs: Seq<i128>, k: AssetKey)
    ensures
        pairs_map(ks, vs).contains_key(k) <==> exists|i: int| 0 <= i < ks.len() && ks[i] == k,
    decreases ks.len(),
{
    if ks.len() > 0 {
        lemma_pairs_map_contains(ks.drop_last(), vs, k);
        if pairs_map(ks.drop_last(), vs).contains_key(k) {
            let i = choose|i: int| 0 <= i < ks.drop_last().len() && ks.drop_last()[i] == k;
            assert(ks[i] == k);
        }
        if exists|i: int| 0 <= i < ks.len() && ks[i] == k {
            let i = choose|i: int| 0 <= i < ks.len() && ks[i] == k;
            if i < ks.len() - 1 {
                assert(ks.drop_last()[i] == k);
            }
        }
    }
}

proof fn lemma_pairs_map_value(ks: Seq<AssetKey>, vs: Seq<i128>, i: int)
    requires
        keys_unique(ks),
        0 <= i < ks.len(),
    ensures
        pairs_map(ks, vs).contains_key(ks[i]),
        pairs_map(ks, vs)[ks[i]] == vs[i] as int,
    decreases ks.len(),
{
    if i < ks.len() - 1 {
        lemma_pairs_map_value(ks.drop_last(), vs, i);
        assert(ks.drop_last()[i] == ks[i]);
    }
}

proof fn lemma_pairs_map_update(ks: Seq<AssetKey>, vs: Seq<i128>, i: int, v: i128)
    requires
        keys_unique(ks),
        0 <= i < ks.len(),
        ks.len() <= vs.len(),
    ensures
        pairs_map(ks, vs.update(i, v)) == pairs_map(ks, vs).insert(ks[i], v as int),
    decreases ks.len(),
{
    let n = ks.len() - 1;
    if i < n {
        lemma_pairs_map_update(ks.drop_last(), vs, i, v);
        assert(ks.drop_last()[i] == ks[i]);
        assert(ks[n] != ks[i]);
        assert(pairs_map(ks, vs.update(i, v)) =~= pairs_map(ks, vs).insert(ks[i], v as int));
    } else {
        lemma_pairs_map_frame(ks.drop_last(), vs, vs.update(i, v));
        assert(pairs_map(ks, vs.update(i, v)) =~= pairs_map(ks, vs).insert(ks[i], v as int));
    }
}

proof fn lemma_pairs_map_frame(ks: Seq<AssetKey>, vs: Seq<i128>, ws: Seq<i128>)
    requires
        ks.len() <= vs.len(),
        ks.len() <= ws.len(),
        forall|j: int| 0 <= j < ks.len() ==> vs[j] == ws[j],
    ensures
        pairs_map(ks, vs) == pairs_map(ks, ws),
    decreases ks.len(),
{
    if ks.len() > 0 {
        lemma_pairs_map_frame(ks.drop_last(), vs, ws);
    }
}

impl View for AssetMap {
    type V = Map<AssetKey, int>;

    closed spec fn view(&self) -> Map<AssetKey, int> {
        pairs_map(self.key_seq(), self.amounts@)
    }
}

impl AssetMap {
    spec fn key_seq(&self) -> Seq<AssetKey> {
        self.keys@.map_values(|e: (PrincipalData, AssetIdentifier)| (e.0, e.1@))
    }

    /// The internal lists are parallel and hold each key once.
    pub closed spec fn wf(&self) -> bool {
        &&& self.keys@.len() == self.amounts@.len()
        &&& keys_unique(self.key_seq())
    }

    pub fn new() -> (r: AssetMap)
        ensures
            r.wf(),
            r@ == Map::<AssetKey, int>::empty(),
    {
        let r = AssetMap { keys: Vec::new(), amounts: Vec::new() };
        assert(r.key_seq().len() == 0);
        r
    }

    /// Where `(principal, asset)` stands in the internal lists, if it does.
    fn find(&self, principal: &PrincipalData, asset: &AssetIdentifier) -> (r: Option<usize>)
        requires
            self.wf(),
        ensures
            match r {
                Some(i) => i < self.keys@.len() && self.key_seq()[i as int] == (*principal, asset@),
                None => !self@.contains_key((*principal, asset@)),
            },
    {
        let ghost k: AssetKey = (*principal, asset@);
        let mut i: usize = 0;
        while i < self.keys.len()
            invariant
                self.wf(),
                k == (*principal, asset@),
                i <= self.keys@.len(),
                forall|j: int| 0 <= j < i ==> self.key_seq()[j] != k,
            decreases self.keys@.len() - i,
        {
            let entry = &self.keys[i];
            assert(self.key_seq()[i as int] == (entry.0, entry.1@));
            let same_principal = entry.0.id == principal.id;
            let same_asset = entry.1.same_as(asset);
            if same_principal && same_asset {
                return Some(i);
            }
            i = i + 1;
        }
        proof {
            lemma_pairs_map_contains(self.key_seq(), self.amounts@, k);
        }
        None
    }

    /// The amount recorded for `(principal, asset)`, zero where none is.
    pub fn get_amount(&self, principal: &PrincipalData, asset: &AssetIdentifier) -> (r: i128)
        requires
            self.wf(),
        ensures
            r as int == amount_of(self@, (*principal, asset@)),
    {
        match self.find(principal, asset) {
            Some(i) => {
                proof {
                    lemma_pairs_map_value(self.key_seq(), self.amounts@, i as int);
                }
                self.amounts[i]
            },
            None => 0,
        }
    }

    /// The amount that one more transfer of `amount` on `(principal, asset)` gives.
    fn get_next_amount(&self, principal: &PrincipalData, asset: &AssetIdentifier, amount: i128) -> (r: Result<i128, Error>)
        requires
            self.wf(),
        ensures
            match r {
                Ok(v) => v == amount_of(self@, (*principal, asset@)) + amount,
                Err(e) => !in_i128(amount_of(self@, (*principal, asset@)) + amount) && e.is_overflow(),
            },
    {
        let current = self.get_amount(principal, asset);
        match current.checked_add(amount) {
            Some(v) => Ok(v),
            None => Err(Error::Runtime(RuntimeErrorType::ArithmeticOverflow)),
        }
    }

    /// Records `amount` on `(principal, asset)`, replacing what was there.
    fn put(&mut self, principal: &PrincipalData, asset: &AssetIdentifier, amount: i128)
        requires
            old(self).wf(),
        ensures
            final(self).wf(),
            final(self)@ == old(self)@.insert((*principal, asset@), amount as int),
    {
        match self.find(principal, asset) {
            Some(i) => {
                proof {
                    lemma_pairs_map_update(self.key_seq(), self.amounts@, i as int, amount);
                }
                self.amounts.set(i, amount);
            },
            None => {
                let ghost ks = self.key_seq();
                proof {
                    lemma_pairs_map_contains(ks, self.amounts@, (*principal, asset@));
                }
                self.keys.push((*principal, asset.clone()));
                self.amounts.push(amount);
                assert(self.key_seq() =~= ks.push((*principal, asset@)));
                assert(self.key_seq().drop_last() =~= ks);
                proof {
                    lemma_pairs_map_frame(ks, old(self).amounts@, self.amounts@);
                }
            },
        }
    }

    /// Folds every amount of `other` into `self`. Either all of them fit and
    /// all are applied, or the call fails with an overflow and `self` is left
    /// exactly as it was.
    pub fn commit_other(&mut self, other: AssetMap) -> (r: Result<(), Error>)
        requires
            old(self).wf(),
            other.wf(),
        ensures
            final(self).wf(),
            merge_fits(old(self)@, other@) <==> r is Ok,
            r is Ok ==> final(self)@ == merged(old(self)@, other@),
            r matches Err(e) ==> e.is_overflow() && final(self)@ == old(self)@,
    {
        let ghost ks = other.key_seq();
        let mut next_amounts: Vec<i128> = Vec::new();
        let mut i: usize = 0;
        while i < other.keys.len()
            invariant
                self.wf(),
                other.wf(),
                ks == other.key_seq(),
                i <= other.keys@.len(),
                next_amounts@.len() == i,
                forall|j: int|
                    0 <= j < i ==> next_amounts@[j] == amount_of(self@, ks[j]) + other.amounts@[j],
            decreases other.keys@.len() - i,
        {
            assert(ks[i as int] == (other.keys@[i as int].0, other.keys@[i as int].1@));
            match self.get_next_amount(&other.keys[i].0, &other.keys[i].1, other.amounts[i]) {
                Ok(v) => next_amounts.push(v),
                Err(e) => {
                    proof {
                        lemma_pairs_map_value(ks, other.amounts@, i as int);
                        assert(other@.contains_key(ks[i as int]));
                    }
                    return Err(e);
                },
            }
            i = i + 1;
        }
        proof {
            assert forall|k: AssetKey| #[trigger] other@.contains_key(k) implies in_i128(
                amount_of(self@, k) + other@[k],
            ) by {
                lemma_pairs_map_contains(ks, other.amounts@, k);
                let j = choose|j: int| 0 <= j < ks.len() && ks[j] == k;
                lemma_pairs_map_value(ks, other.amounts@, j);
                assert(next_amounts@[j] == amount_of(self@, ks[j]) + other.amounts@[j]);
            }
        }
        let ghost base = self@;
        let mut i: usize = 0;
        assert(pairs_map(ks.take(0), other.amounts@) =~= Map::empty());
        assert(merged(base, Map::empty()) =~= base);
        while i < next_amounts.len()
            invariant
                self.wf(),
                other.wf(),
                ks == other.key_seq(),
                i <= next_amounts@.len(),
                next_amounts@.len() == other.keys@.len(),
                forall|j: int|
                    0 <= j < next_amounts@.len() ==> next_amounts@[j] == amount_of(base, ks[j])
                        + other.amounts@[j],
                self@ == merged(base, pairs_map(ks.take(i as int), other.amounts@)),
            decreases next_amounts@.len() - i,
        {
            assert(ks[i as int] == (other.keys@[i as int].0, other.keys@[i as int].1@));
            self.put(&other.keys[i].0, &other.keys[i].1, next_amounts[i]);
            proof {
                lemma_merged_step(base, ks, other.amounts@, i as int);
            }
            i = i + 1;
        }
        assert(ks.take(ks.len() as int) =~= ks);
        Ok(())
    }

    /// The transfers of `principal`, each asset once.
    fn entries_of(&self, principal: PrincipalData) -> (r: Vec<(AssetIdentifier, i128)>)
        requires
            self.wf(),
        ensures
            forall|j: int| 0 <= j < r@.len() ==> {
                let k = (principal, (#[trigger] r@[j]).0@);
                self@.contains_key(k) && self@[k] == r@[j].1 as int
            },
            forall|m: int| 0 <= m < self.keys@.len() && #[trigger] self.key_seq()[m].0 == principal
                ==> exists|j: int| 0 <= j < r@.len() && #[trigger] r@[j].0@ == self.key_seq()[m].1,
            forall|j: int, l: int| 0 <= j < l < r@.len() ==> (#[trigger] r@[j]).0@ != (#[trigger] r@[l]).0@,
    {
        let mut out: Vec<(AssetIdentifier, i128)> = Vec::new();
        let mut t: usize = 0;
        while t < self.keys.len()
            invariant
                self.wf(),
                t <= self.keys@.len(),
                forall|j: int| 0 <= j < out@.len() ==> {
                    let k = (principal, (#[trigger] out@[j]).0@);
                    self@.contains_key(k) && self@[k] == out@[j].1 as int
                },
                forall|m: int| 0 <= m < t && #[trigger] self.key_seq()[m].0 == principal
                    ==> exists|j: int| 0 <= j < out@.len() && #[trigger] out@[j].0@ == self.key_seq()[m].1,
                forall|j: int| 0 <= j < out@.len() ==> exists|m: int|
                    0 <= m < t && #[trigger] self.key_seq()[m] == (principal, (#[trigger] out@[j]).0@),
                forall|j: int, l: int| 0 <= j < l < out@.len() ==> (#[trigger] out@[j]).0@ != (#[trigger] out@[l]).0@,
            decreases self.keys@.len() - t,
        {
            assert(self.key_seq()[t as int] == (self.keys@[t as int].0, self.keys@[t as int].1@));
            if self.keys[t].0.id == principal.id {
                let ghost before = out@;
                out.push((self.keys[t].1.clone(), self.amounts[t]));
                proof {
                    lemma_pairs_map_value(self.key_seq(), self.amounts@, t as int);
                    assert forall|m: int| 0 <= m < t + 1 && #[trigger] self.key_seq()[m].0 == principal
                        implies exists|j: int| 0 <= j < out@.len() && #[trigger] out@[j].0@ == self.key_seq()[m].1 by {
                        if m < t {
                            let j = choose|j: int| 0 <= j < before.len() && #[trigger] before[j].0@ == self.key_seq()[m].1;
                            assert(out@[j] == before[j]);
                        } else {
                            assert(out@[before.len() as int].0@ == self.key_seq()[m].1);
                        }
                    }
                    let n = before.len() as int;
                    assert(out@[n].0@ == self.key_seq()[t as int].1);
                    assert forall|j: int| 0 <= j < out@.len() implies exists|m: int|
                        0 <= m < t + 1 && #[trigger] self.key_seq()[m] == (principal, (#[trigger] out@[j]).0@) by {
                        if j < n {
                            assert(out@[j] == before[j]);
                            let m = choose|m: int| 0 <= m < t && #[trigger] self.key_seq()[m] == (principal, before[j].0@);
                            assert(self.key_seq()[m] == (principal, out@[j].0@));
                        } else {
                            assert(self.key_seq()[t as int] == (principal, out@[j].0@));
                        }
                    }
                    assert forall|j: int, l: int| 0 <= j < l < out@.len() implies (#[trigger] out@[j]).0@ != (#[trigger] out@[l]).0@ by {
                        if l == n {
                            assert(out@[j] == before[j]);
                            let m = choose|m: int| 0 <= m < t && #[trigger] self.key_seq()[m] == (principal, before[j].0@);
                            assert(self.key_seq()[m] != self.key_seq()[t as int]);
                        } else {
                            assert(out@[j] == before[j]);
                            assert(out@[l] == before[l]);
                        }
                    }
                }
            }
            t = t + 1;
        }
        out
    }

    /// The transfers grouped by principal, in no particular order.
    pub fn to_table(self) -> (r: AssetTable)
        requires
            self.wf(),
        ensures
            is_table_of(r@, self@),
    {
        let mut table: AssetTable = Vec::new();
        let mut i: usize = 0;
        while i < self.keys.len()
            invariant
                self.wf(),
                i <= self.keys@.len(),
                forall|a: int, b: int| 0 <= a < b < table@.len() ==> table@[a].0 != table@[b].0,
                forall|a: int| 0 <= a < table@.len() ==> (#[trigger] table@[a]).1@.len() > 0,
                forall|a: int, j: int, l: int|
                    0 <= a < table@.len() && 0 <= j < l < table@[a].1@.len() ==> (#[trigger] table@[a].1@[j]).0@ != (#[trigger] table@[a].1@[l]).0@,
                forall|a: int, j: int|
                    #![trigger table@[a].1@[j]]
                    0 <= a < table@.len() && 0 <= j < table@[a].1@.len() ==> {
                        let k = (table@[a].0, table@[a].1@[j].0@);
                        self@.contains_key(k) && self@[k] == table@[a].1@[j].1 as int
                    },
                forall|m: int| #![trigger self.key_seq()[m]] 0 <= m < i ==> exists|a: int| 0 <= a < table@.len() && #[trigger] table@[a].0 == self.key_seq()[m].0,
                forall|a: int, m: int| 0 <= a < table@.len() && 0 <= m < self.keys@.len() && #[trigger] self.key_seq()[m].0 == #[trigger] table@[a].0
                    ==> exists|j: int| 0 <= j < table@[a].1@.len() && #[trigger] table@[a].1@[j].0@ == self.key_seq()[m].1,
            decreases self.keys@.len() - i,
        {
            let principal = self.keys[i].0;
            assert(self.key_seq()[i as int].0 == principal);
            let mut seen = false;
            let mut g: usize = 0;
            while g < table.len()
                invariant
                    g <= table@.len(),
                    seen ==> exists|a: int| 0 <= a < table@.len() && #[trigger] table@[a].0 == principal,
                    !seen ==> forall|a: int| 0 <= a < g ==> table@[a].0 != principal,
                decreases table@.len() - g,
            {
                if table[g].0.id == principal.id {
                    seen = true;
                }
                g = g + 1;
            }
            if !seen {
                let entries = self.entries_of(principal);
                assert(entries@.len() > 0);
                let ghost before = table@;
                table.push((principal, entries));
                proof {
                    let n = before.len() as int;
                    assert(table@[n].0 == principal);
                    assert forall|a: int| 0 <= a < table@.len() implies (#[trigger] table@[a]).1@.len() > 0 by {
                        if a < n {
                            assert(table@[a] == before[a]);
                        }
                    }
                    assert forall|a: int, j: int, l: int|
                        0 <= a < table@.len() && 0 <= j < l < table@[a].1@.len() implies (#[trigger] table@[a].1@[j]).0@ != (#[trigger] table@[a].1@[l]).0@ by {
                        if a < n {
                            assert(table@[a] == before[a]);
                        } else {
                            assert(table@[a].1@[j] == entries@[j]);
                            assert(table@[a].1@[l] == entries@[l]);
                        }
                    }
                    assert forall|m: int| #![trigger self.key_seq()[m]] 0 <= m < i + 1 implies exists|a: int| 0 <= a < table@.len() && #[trigger] table@[a].0 == self.key_seq()[m].0 by {
                        if m < i {
                            let a = choose|a: int| 0 <= a < before.len() && #[trigger] before[a].0 == self.key_seq()[m].0;
                            assert(table@[a] == before[a]);
                        } else {
                            assert(table@[n].0 == self.key_seq()[m].0);
                        }
                    }
                    assert forall|a: int, j: int|
                        #![trigger table@[a].1@[j]]
                        0 <= a < table@.len() && 0 <= j < table@[a].1@.len() implies {
                            let k = (table@[a].0, table@[a].1@[j].0@);
                            self@.contains_key(k) && self@[k] == table@[a].1@[j].1 as int
                        } by {
                        if a < n {
                            assert(table@[a] == before[a]);
                        } else {
                            assert(table@[a].1@[j] == entries@[j]);
                        }
                    }
                    assert forall|a: int, m: int| 0 <= a < table@.len() && 0 <= m < self.keys@.len() && #[trigger] self.key_seq()[m].0 == #[trigger] table@[a].0
                        implies exists|j: int| 0 <= j < table@[a].1@.len() && #[trigger] table@[a].1@[j].0@ == self.key_seq()[m].1 by {
                        if a < n {
                            assert(table@[a] == before[a]);
                        } else {
                            let j = choose|j: int| 0 <= j < entries@.len() && #[trigger] entries@[j].0@ == self.key_seq()[m].1;
                            assert(table@[a].1@[j] == entries@[j]);
                        }
                    }
                }
            }
            i = i + 1;
        }
        proof {
            assert forall|k: AssetKey| #[trigger] self@.contains_key(k) implies exists|a: int, j: int|
                0 <= a < table@.len() && 0 <= j < table@[a].1@.len() && table@[a].0 == k.0 && #[trigger] table@[a].1@[j].0@ == k.1 by {
                lemma_pairs_map_contains(self.key_seq(), self.amounts@, k);
                let m = choose|m: int| 0 <= m < self.key_seq().len() && self.key_seq()[m] == k;
                let a = choose|a: int| 0 <= a < table@.len() && #[trigger] table@[a].0 == self.key_seq()[m].0;
                let j = choose|j: int| 0 <= j < table@[a].1@.len() && #[trigger] table@[a].1@[j].0@ == self.key_seq()[m].1;
                assert(table@[a].1@[j].0@ == k.1);
            }
        }
        table
    }

    /// Adds `amount` (which may be negative) to what `principal` has moved of
    /// `asset`. On overflow nothing changes.
    pub fn add_transfer(&mut self, principal: &PrincipalData, asset: AssetIdentifier, amount: i128) -> (r: Result<(), Error>)
        requires
            old(self).wf(),
        ensures
            final(self).wf(),
            in_i128(amount_of(old(self)@, (*principal, asset@)) + amount) <==> r is Ok,
            r is Ok ==> final(self)@ == with_transfer(old(self)@, (*principal, asset@), amount as int),
            r matches Err(e) ==> e.is_overflow() && final(self)@ == old(self)@,
    {
        let next = self.get_next_amount(principal, &asset, amount);
        match next {
            Ok(v) => {
                self.put(principal, &asset, v);
                Ok(())
            },
            Err(e) => Err(e),
        }
    }
}

} // verus!
