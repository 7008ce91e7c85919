use vstd::prelude::*;

use crate::bindings::Bindings;
use crate::contract_context::Contract;
use crate::errors::{Error, UncheckedError};

verus! {

/// What a contract database holds: the log of contracts written, oldest
/// first, and for each open save point the length of the log when it opened.
pub type DatabaseView = (Seq<(Seq<char>, Contract)>, Seq<nat>);

pub open spec fn db_wf(v: DatabaseView) -> bool {
    &&& forall|i: int| 0 <= i < v.1.len() ==> #[trigger] v.1[i] <= v.0.len()
    &&& forall|i: int, j: int| 0 <= i < j < v.1.len() ==> #[trigger] v.1[i] <= #[trigger] v.1[j]
}

pub open spec fn db_begin(v: DatabaseView) -> DatabaseView {
    (v.0, v.1.push(v.0.len()))
}

pub open spec fn db_insert(v: DatabaseView, name: Seq<char>, contract: Contract) -> DatabaseView {
    (v.0.push((name, contract)), v.1)
}

pub open spec fn db_roll_back(v: DatabaseView) -> DatabaseView {
    (v.0.take(v.1.last() as int), v.1.drop_last())
}

pub open spec fn db_commit(v: DatabaseView) -> DatabaseView {
    (v.0, v.1.drop_last())
}

/// `w` is a state that a save point opened on `v` can reach before it is
/// resolved: save points opened inside it are resolved, and writes only add.
pub open spec fn inside_save_point(v: DatabaseView, w: DatabaseView) -> bool {
    &&& w.1 == db_begin(v).1
    &&& v.0.len() <= w.0.len()
    &&& w.0.take(v.0.len() as int) == v.0
}

/// Writes, and save points opened and resolved inside a save point, keep the
/// database inside it.
pub proof fn lemma_inside_save_point_steps(v: DatabaseView, w: DatabaseView, x: DatabaseView, name: Seq<char>, contract: Contract)
    requires
        inside_save_point(v, w),
        inside_save_point(w, x),
    ensures
        inside_save_point(v, db_insert(w, name, contract)),
        inside_save_point(v, db_commit(x)),
        inside_save_point(v, db_roll_back(x)),
{
    assert(w.0.push((name, contract)).take(v.0.len() as int) =~= w.0.take(v.0.len() as int));
    assert(x.1.drop_last() =~= w.1);
    assert(x.0.take(v.0.len() as int) =~= w.0.take(w.0.len() as int).take(v.0.len() as int));
    assert(w.0.take(w.0.len() as int) =~= w.0);
    assert(x.0.take(w.0.len() as int).take(v.0.len() as int) =~= x.0.take(v.0.len() as int));
    assert(x.1.last() == w.0.len());
}

/// Whatever is written inside a save point, rolling it back restores the
/// database exactly as it was before the save point opened.
pub proof fn lemma_roll_back_restores(v: DatabaseView, w: DatabaseView)
    requires
        inside_save_point(v, w),
    ensures
        db_roll_back(w) == v,
{
    assert(w.1.drop_last() =~= v.1);
}

/// A transaction whose own save point is rolled back, inside a root save
/// point that is then committed, leaves the database exactly as it found it.
pub proof fn lemma_aborted_transaction_restores(v: DatabaseView, w: DatabaseView)
    requires
        inside_save_point(db_begin(v), w),
    ensures
        db_commit(db_roll_back(w)) == v,
{
    lemma_roll_back_restores(db_begin(v), w);
    assert(db_begin(v).1.drop_last() =~= v.1);
}

#[derive(Clone, Copy, Debug)]
pub struct BlockHeaderHash(pub [u8; 32]);

#[derive(Clone, Copy, Debug)]
pub struct BurnchainHeaderHash(pub [u8; 32]);

#[derive(Clone, Copy, Debug)]
pub struct VRFSeed(pub [u8; 32]);

/// A block of the simulated chain that contracts can query.
#[derive(Clone, Copy, Debug)]
pub struct SimmedBlock {
    pub time: u64,
    pub header_hash: BlockHeaderHash,
    pub burnchain_header_hash: BurnchainHeaderHash,
    pub vrf_seed: VRFSeed,
}

/// Contracts by name, with nested save points that commit or roll back, and
/// the simulated chain the contracts run on.
#[derive(Debug)]
pub struct ContractDatabase {
    contracts: Bindings<Contract>,
    save_points: Vec<usize>,
    blocks: Vec<SimmedBlock>,
}

impl View for ContractDatabase {
    type V = DatabaseView;

    closed spec fn view(&self) -> DatabaseView {
        (self.contracts.entry_seq(), self.save_points@.map_values(|m: usize| m as nat))
    }
}

impl ContractDatabase {
    pub closed spec fn wf(&self) -> bool {
        db_wf(self@)
    }

    /// The contracts visible now, by name.
    pub closed spec fn contracts(&self) -> Map<Seq<char>, Contract> {
        self.contracts@
    }

    /// Two databases with the same history hold the same contracts.
    pub proof fn lemma_contracts_of_view(a: &ContractDatabase, b: &ContractDatabase)
        requires
            a@ == b@,
        ensures
            a.contracts() == b.contracts(),
    {
        Bindings::lemma_view_of_history(&a.contracts, &b.contracts);
    }

    /// The blocks of the simulated chain, oldest first.
    pub closed spec fn sim_blocks(&self) -> Seq<SimmedBlock> {
        self.blocks@
    }

    pub fn new() -> (r: ContractDatabase)
        ensures
            r.wf(),
            r.sim_blocks() == Seq::<SimmedBlock>::empty(),
            r@.0 == Seq::<(Seq<char>, Contract)>::empty(),
            r@.1 == Seq::<nat>::empty(),
            r.contracts() == Map::<Seq<char>, Contract>::empty(),
    {
        let r = ContractDatabase { contracts: Bindings::new(), save_points: Vec::new(), blocks: Vec::new() };
        assert(r@.0 =~= Seq::<(Seq<char>, Contract)>::empty());
        assert(r@.1 =~= Seq::<nat>::empty());
        r
    }

    /// The number of save points open.
    pub fn save_point_depth(&self) -> (r: usize)
        ensures
            r == self@.1.len(),
    {
        self.save_points.len()
    }

    pub fn begin_save_point(&mut self)
        requires
            old(self).wf(),
        ensures
            final(self).wf(),
            final(self)@ == db_begin(old(self)@),
            final(self).contracts() == old(self).contracts(),
    {
        self.save_points.push(self.contracts.len());
        assert(self@.1 =~= old(self)@.1.push(old(self)@.0.len()));
    }

    /// Keeps what was written since the innermost save point opened.
    pub fn commit(&mut self)
        requires
            old(self).wf(),
            old(self)@.1.len() > 0,
        ensures
            final(self).wf(),
            final(self)@ == db_commit(old(self)@),
            final(self).contracts() == old(self).contracts(),
    {
        self.save_points.pop();
        assert(self@.1 =~= old(self)@.1.drop_last());
    }

    /// Discards what was written since the innermost save point opened.
    pub fn roll_back(&mut self)
        requires
            old(self).wf(),
            old(self)@.1.len() > 0,
        ensures
            final(self).wf(),
            final(self)@ == db_roll_back(old(self)@),
    {
        let mark = self.save_points.pop().unwrap();
        assert(self@.1 =~= old(self)@.1.drop_last());
        assert(old(self)@.1[old(self)@.1.len() - 1] == mark as nat);
        self.contracts.truncate(mark);
    }

    pub fn insert_contract(&mut self, name: &str, contract: Contract)
        requires
            old(self).wf(),
        ensures
            final(self).wf(),
            final(self)@ == db_insert(old(self)@, name@, contract),
            final(self).contracts() == old(self).contracts().insert(name@, contract),
    {
        let ghost c = contract;
        self.contracts.insert(name.to_owned(), contract);
        assert(self@.0 == old(self)@.0.push((name@, c)));
        assert(self@.1 == old(self)@.1);
        assert forall|i: int| 0 <= i < self@.1.len() implies #[trigger] self@.1[i] <= self@.0.len() by {
            assert(old(self)@.1[i] <= old(self)@.0.len());
        }
    }

    /// Appends `block` to the simulated chain.
    pub fn sim_mine_block(&mut self, block: SimmedBlock)
        ensures
            final(self)@ == old(self)@,
            final(self).contracts() == old(self).contracts(),
            final(self).wf() == old(self).wf(),
            final(self).sim_blocks() == old(self).sim_blocks().push(block),
    {
        self.blocks.push(block);
    }

    /// The height of the simulated chain: the number of its blocks.
    pub fn get_simmed_block_height(&self) -> (r: u64)
        requires
            self.sim_blocks().len() <= u64::MAX,
        ensures
            r == self.sim_blocks().len(),
    {
        self.blocks.len() as u64
    }

    /// The block at `height` of the simulated chain, if there is one.
    pub fn get_simmed_block(&self, height: u64) -> (r: Option<SimmedBlock>)
        ensures
            height < self.sim_blocks().len() <==> r is Some,
            r matches Some(b) ==> b == self.sim_blocks()[height as int],
    {
        if height < self.blocks.len() as u64 {
            Some(self.blocks[height as usize])
        } else {
            None
        }
    }

    /// The contract stored under `name`.
    pub fn get_contract(&self, name: &str) -> (r: Result<&Contract, Error>)
        ensures
            self.contracts().contains_key(name@) <==> r is Ok,
            r matches Ok(c) ==> *c == self.contracts()[name@],
            r matches Err(e) ==> e matches Error::Unchecked(UncheckedError::UndefinedContract(n)) && n@ == name@,
    {
        match self.contracts.get(name) {
            Some(contract) => Ok(contract),
            None => Err(Error::Unchecked(UncheckedError::UndefinedContract(name.to_owned()))),
        }
    }
}

} // verus!
