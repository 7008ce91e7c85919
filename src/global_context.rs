use vstd::prelude::*;

use crate::asset_map::{merge_fits, merged, with_transfer, amount_of, in_i128, AssetKey, AssetMap};
use crate::contract_context::Contract;
use crate::database::{
    db_begin, db_commit, db_insert, db_roll_back, BlockHeaderHash, BurnchainHeaderHash, ContractDatabase, DatabaseView, VRFSeed,
};
use crate::errors::{Error, RuntimeErrorType, UncheckedError};
use crate::types::{AssetIdentifier, PrincipalData, Value};

verus! {

/// What a global context holds: its database, and for each open scope,
/// innermost last, the transfers it logged and whether it is read only.
pub type ScopesView = (DatabaseView, Seq<Map<AssetKey, int>>, Seq<bool>);

pub open spec fn after_nest(v: ScopesView, read_only: bool) -> ScopesView {
    (db_begin(v.0), v.1.push(Map::empty()), v.2.push(read_only || v.2.last()))
}

/// Whether committing the innermost scope succeeds: the root always does, a
/// nested scope when its amounts fit into its parent's.
pub open spec fn commit_fits(v: ScopesView) -> bool {
    v.1.len() <= 1 || merge_fits(v.1[v.1.len() - 2], v.1.last())
}

pub open spec fn after_commit(v: ScopesView) -> ScopesView {
    let n = v.1.len();
    if n <= 1 {
        (db_commit(v.0), v.1.drop_last(), v.2.drop_last())
    } else {
        (db_commit(v.0), v.1.drop_last().update(n - 2, merged(v.1[n - 2], v.1[n - 1])), v.2.drop_last())
    }
}

pub open spec fn after_roll_back(v: ScopesView) -> ScopesView {
    (db_roll_back(v.0), v.1.drop_last(), v.2.drop_last())
}

pub open spec fn is_response(v: Value, committed: bool) -> bool {
    v matches Value::Response(d) && d.committed == committed
}

/// How a call's save point is resolved by what the call returned: the value
/// handed on, and the context afterwards. A read-only call is always rolled
/// back. Otherwise a committed response commits, an aborted response or an
/// error rolls back, and any other value is refused and rolls back.
pub open spec fn settled(v: ScopesView, read_only: bool, result: Result<Value, Error>) -> (Result<Value, Error>, ScopesView) {
    if read_only {
        (result, after_roll_back(v))
    } else {
        match result {
            Ok(value) => if is_response(value, true) {
                if commit_fits(v) {
                    (Ok(value), after_commit(v))
                } else {
                    (Err(Error::Runtime(RuntimeErrorType::ArithmeticOverflow)), after_roll_back(v))
                }
            } else if is_response(value, false) {
                (Ok(value), after_roll_back(v))
            } else {
                (Err(Error::Unchecked(UncheckedError::ContractMustReturnBoolean)), after_roll_back(v))
            },
            Err(e) => (Err(e), after_roll_back(v)),
        }
    }
}

struct Scope {
    asset_map: AssetMap,
    read_only: bool,
}

/// The stack of transactional scopes of one transaction. Each scope owns a
/// save point of the database and the asset transfers logged in it; the
/// innermost scope is the one in use.
pub struct GlobalContext {
    database: ContractDatabase,
    scopes: Vec<Scope>,
    base: Ghost<nat>,
}

impl View for GlobalContext {
    type V = ScopesView;

    closed spec fn view(&self) -> ScopesView {
        (
            self.database@,
            self.scopes@.map_values(|s: Scope| s.asset_map@),
            self.scopes@.map_values(|s: Scope| s.read_only),
        )
    }
}

impl GlobalContext {
    /// Every scope has its own save point, on top of those open before the
    /// context began; a scope inside a read-only scope is read only.
    pub closed spec fn wf(&self) -> bool {
        &&& self.database.wf()
        &&& self.database@.1.len() == self.base@ + self.scopes@.len()
        &&& forall|i: int| 0 <= i < self.scopes@.len() ==> (#[trigger] self.scopes@[i]).asset_map.wf()
        &&& forall|i: int, j: int|
            0 <= i < j < self.scopes@.len() ==> #[trigger] self.scopes@[i].read_only ==> #[trigger] self.scopes@[j].read_only
    }

    pub closed spec fn spec_database(&self) -> ContractDatabase {
        self.database
    }

    /// A context whose root scope is the innermost save point of `database`.
    pub fn new(database: ContractDatabase) -> (r: GlobalContext)
        requires
            database.wf(),
            database@.1.len() > 0,
        ensures
            r.wf(),
            r@ == (database@, seq![Map::<AssetKey, int>::empty()], seq![false]),
            r.spec_database() == database,
    {
        let ghost d = database@;
        let mut scopes: Vec<Scope> = Vec::new();
        scopes.push(Scope { asset_map: AssetMap::new(), read_only: false });
        let r = GlobalContext { database, scopes, base: Ghost((d.1.len() - 1) as nat) };
        assert(r@.1 =~= seq![Map::<AssetKey, int>::empty()]);
        assert(r@.2 =~= seq![false]);
        r
    }

    /// Opens a save point on `database` and makes it the root scope.
    pub fn begin_from(database: ContractDatabase) -> (r: GlobalContext)
        requires
            database.wf(),
        ensures
            r.wf(),
            r@ == (db_begin(database@), seq![Map::<AssetKey, int>::empty()], seq![false]),
            r.spec_database().contracts() == database.contracts(),
    {
        let mut database = database;
        database.begin_save_point();
        GlobalContext::new(database)
    }

    pub fn database(&self) -> (r: &ContractDatabase)
        ensures
            *r == self.spec_database(),
            r@ == self@.0,
    {
        &self.database
    }

    /// Gives the database back once every scope is resolved.
    pub fn into_database(self) -> (r: ContractDatabase)
        requires
            self.wf(),
        ensures
            r == self.spec_database(),
            r.wf(),
    {
        self.database
    }

    /// The height of the chain that contracts see.
    pub fn get_block_height(&self) -> (r: u64)
        requires
            self.spec_database().sim_blocks().len() <= u64::MAX,
        ensures
            r == self.spec_database().sim_blocks().len(),
    {
        self.database.get_simmed_block_height()
    }

    /// The time of the block at `block_height`.
    pub fn get_block_time(&self, block_height: u64) -> (r: u64)
        requires
            block_height < self.spec_database().sim_blocks().len(),
        ensures
            r == self.spec_database().sim_blocks()[block_height as int].time,
    {
        self.database.get_simmed_block(block_height).unwrap().time
    }

    /// The header hash of the block at `block_height`.
    pub fn get_block_header_hash(&self, block_height: u64) -> (r: BlockHeaderHash)
        requires
            block_height < self.spec_database().sim_blocks().len(),
        ensures
            r == self.spec_database().sim_blocks()[block_height as int].header_hash,
    {
        self.database.get_simmed_block(block_height).unwrap().header_hash
    }

    /// The burnchain header hash of the block at `block_height`.
    pub fn get_burnchain_block_header_hash(&self, block_height: u64) -> (r: BurnchainHeaderHash)
        requires
            block_height < self.spec_database().sim_blocks().len(),
        ensures
            r == self.spec_database().sim_blocks()[block_height as int].burnchain_header_hash,
    {
        self.database.get_simmed_block(block_height).unwrap().burnchain_header_hash
    }

    /// The VRF seed of the block at `block_height`.
    pub fn get_block_vrf_seed(&self, block_height: u64) -> (r: VRFSeed)
        requires
            block_height < self.spec_database().sim_blocks().len(),
        ensures
            r == self.spec_database().sim_blocks()[block_height as int].vrf_seed,
    {
        self.database.get_simmed_block(block_height).unwrap().vrf_seed
    }

    /// The number of open scopes.
    pub fn depth(&self) -> (r: usize)
        ensures
            r == self@.1.len(),
    {
        self.scopes.len()
    }

    /// Whether the innermost scope is read only.
    pub fn is_read_only(&self) -> (r: bool)
        requires
            self@.1.len() > 0,
        ensures
            r == self@.2.last(),
    {
        self.scopes[self.scopes.len() - 1].read_only
    }

    fn open_scope(&mut self, read_only: bool)
        requires
            old(self).wf(),
            old(self)@.1.len() > 0,
        ensures
            final(self).wf(),
            final(self)@ == after_nest(old(self)@, read_only),
            final(self).spec_database().contracts() == old(self).spec_database().contracts(),
    {
        let inherited = self.scopes[self.scopes.len() - 1].read_only;
        self.database.begin_save_point();
        self.scopes.push(Scope { asset_map: AssetMap::new(), read_only: read_only || inherited });
        assert(self@.1 =~= old(self)@.1.push(Map::empty()));
        assert(self@.2 =~= old(self)@.2.push(read_only || old(self)@.2.last()));
        assert forall|i: int, j: int|
            0 <= i < j < self.scopes@.len() && #[trigger] self.scopes@[i].read_only implies #[trigger] self.scopes@[j].read_only by {
            if j == self.scopes@.len() - 1 && i < j - 1 {
                assert(old(self).scopes@[i].read_only ==> old(self).scopes@[j - 1].read_only);
            }
        }
    }

    /// Opens a nested scope that is read only where this one is.
    pub fn nest(&mut self)
        requires
            old(self).wf(),
            old(self)@.1.len() > 0,
        ensures
            final(self).wf(),
            final(self)@ == after_nest(old(self)@, false),
            final(self).spec_database().contracts() == old(self).spec_database().contracts(),
    {
        self.open_scope(false)
    }

    /// Opens a nested read-only scope.
    pub fn nest_read_only(&mut self)
        requires
            old(self).wf(),
            old(self)@.1.len() > 0,
        ensures
            final(self).wf(),
            final(self)@ == after_nest(old(self)@, true),
            final(self).spec_database().contracts() == old(self).spec_database().contracts(),
    {
        self.open_scope(true)
    }

    /// Logs that `sender` moved `transfered` of the asset `asset_name` of
    /// `contract_name`, in the innermost scope.
    pub fn log_asset_transfer(&mut self, sender: &PrincipalData, contract_name: &str, asset_name: &str, transfered: i128) -> (r: Result<(), Error>)
        requires
            old(self).wf(),
            old(self)@.1.len() > 0,
        ensures
            final(self).wf(),
            ({
                let n = old(self)@.1.len();
                let k = (*sender, (contract_name@, asset_name@));
                &&& in_i128(amount_of(old(self)@.1[n - 1], k) + transfered) <==> r is Ok
                &&& r is Ok ==> final(self)@ == (old(self)@.0, old(self)@.1.update(n - 1, with_transfer(old(self)@.1[n - 1], k, transfered as int)), old(self)@.2)
                &&& r matches Err(e) ==> e.is_overflow() && final(self)@ == old(self)@
            }),
            final(self).spec_database() == old(self).spec_database(),
    {
        let asset = AssetIdentifier { contract_name: contract_name.to_owned(), asset_name: asset_name.to_owned() };
        let mut top = self.scopes.pop().unwrap();
        assert(old(self).scopes@[old(self).scopes@.len() - 1] == top);
        let r = top.asset_map.add_transfer(sender, asset, transfered);
        self.scopes.push(top);
        assert(self@.1 =~= old(self)@.1.update(old(self)@.1.len() - 1, top.asset_map@));
        assert(self@.2 =~= old(self)@.2);
        assert forall|i: int, j: int|
            0 <= i < j < self.scopes@.len() && #[trigger] self.scopes@[i].read_only implies #[trigger] self.scopes@[j].read_only by {
            assert(old(self).scopes@[i].read_only ==> old(self).scopes@[j].read_only);
        }
        r
    }

    /// Stores `contract` under `name`, inside the innermost save point.
    pub fn insert_contract(&mut self, name: &str, contract: Contract)
        requires
            old(self).wf(),
        ensures
            final(self).wf(),
            final(self)@ == (db_insert(old(self)@.0, name@, contract), old(self)@.1, old(self)@.2),
            final(self).spec_database().contracts() == old(self).spec_database().contracts().insert(name@, contract),
    {
        self.database.insert_contract(name, contract);
    }

    /// Discards the innermost scope: its save point and its transfers.
    pub fn roll_back(&mut self)
        requires
            old(self).wf(),
            old(self)@.1.len() > 0,
        ensures
            final(self).wf(),
            final(self)@ == after_roll_back(old(self)@),
    {
        self.scopes.pop();
        self.database.roll_back();
        assert(self@.1 =~= old(self)@.1.drop_last());
        assert(self@.2 =~= old(self)@.2.drop_last());
        assert forall|i: int| 0 <= i < self.scopes@.len() implies (#[trigger] self.scopes@[i]).asset_map.wf() by {
            assert(old(self).scopes@[i].asset_map.wf());
        }
        assert forall|i: int, j: int|
            0 <= i < j < self.scopes@.len() && #[trigger] self.scopes@[i].read_only implies #[trigger] self.scopes@[j].read_only by {
            assert(old(self).scopes@[i].read_only ==> old(self).scopes@[j].read_only);
        }
    }

    proof fn lemma_preserved_after_pop(&self, old_ctx: &GlobalContext)
        requires
            old_ctx.wf(),
            self.scopes@.len() + 1 == old_ctx.scopes@.len(),
            forall|i: int| 0 <= i < self.scopes@.len() ==> {
                &&& self.scopes@[i].asset_map@ == old_ctx.scopes@[i].asset_map@
                &&& self.scopes@[i].asset_map.wf()
                &&& self.scopes@[i].read_only == old_ctx.scopes@[i].read_only
            },
            self.database.wf(),
            self.database@.1.len() + 1 == old_ctx.database@.1.len(),
            self.base == old_ctx.base,
        ensures
            self.wf(),
            self@.1 == old_ctx@.1.drop_last(),
            self@.2 == old_ctx@.2.drop_last(),
    {
        assert(self@.1 =~= old_ctx@.1.drop_last());
        assert(self@.2 =~= old_ctx@.2.drop_last());
        assert forall|i: int, j: int|
            0 <= i < j < self.scopes@.len() && #[trigger] self.scopes@[i].read_only implies #[trigger] self.scopes@[j].read_only by {
            assert(old_ctx.scopes@[i].read_only ==> old_ctx.scopes@[j].read_only);
        }
    }

    /// Resolves the innermost scope by committing it. A nested scope folds its
    /// transfers into its parent's and keeps its writes; if the amounts do not
    /// fit, it is rolled back instead and the parent's transfers stay as they
    /// were. The root scope commits and hands its transfers back.
    pub fn commit(&mut self) -> (r: Result<Option<AssetMap>, Error>)
        requires
            old(self).wf(),
            old(self)@.1.len() > 0,
        ensures
            final(self).wf(),
            commit_fits(old(self)@) <==> r is Ok,
            r is Ok ==> final(self)@ == after_commit(old(self)@),
            r is Ok ==> final(self).spec_database().contracts() == old(self).spec_database().contracts(),
            r matches Ok(m) ==> (m is Some <==> old(self)@.1.len() == 1),
            r matches Ok(Some(m)) ==> m.wf() && m@ == old(self)@.1.last(),
            r matches Err(e) ==> e.is_overflow() && final(self)@ == after_roll_back(old(self)@),
    {
        let ghost before = *self;
        let top = self.scopes.pop().unwrap();
        assert(before.scopes@[before.scopes@.len() - 1] == top);
        assert(top.asset_map.wf());
        if self.scopes.len() == 0 {
            self.database.commit();
            proof {
                self.lemma_preserved_after_pop(&before);
            }
            return Ok(Some(top.asset_map));
        }
        let mut parent = self.scopes.pop().unwrap();
        let n = self.scopes.len();
        assert(parent == before.scopes@[n as int]);
        assert(parent.asset_map.wf());
        let folded = parent.asset_map.commit_other(top.asset_map);
        self.scopes.push(parent);
        match folded {
            Ok(()) => {
                self.database.commit();
                proof {
                    assert(self@.1 =~= before@.1.drop_last().update(n as int, merged(before@.1[n as int], before@.1[n + 1])));
                    assert(self@.2 =~= before@.2.drop_last());
                    assert forall|i: int| 0 <= i < self.scopes@.len() implies (#[trigger] self.scopes@[i]).asset_map.wf() by {
                        assert(before.scopes@[i].asset_map.wf());
                    }
                    assert forall|i: int, j: int|
                        0 <= i < j < self.scopes@.len() && #[trigger] self.scopes@[i].read_only implies #[trigger] self.scopes@[j].read_only by {
                        assert(before.scopes@[i].read_only ==> before.scopes@[j].read_only);
                    }
                }
                Ok(None)
            },
            Err(e) => {
                self.database.roll_back();
                proof {
                    self.lemma_preserved_after_pop(&before);
                }
                Err(e)
            },
        }
    }

    /// Resolves the innermost scope by what its call returned: a committed
    /// response commits it, an aborted response or an error rolls it back,
    /// and any other value is refused and rolls it back.
    pub fn handle_tx_result(&mut self, result: Result<Value, Error>) -> (r: Result<Value, Error>)
        requires
            old(self).wf(),
            old(self)@.1.len() > 0,
        ensures
            final(self).wf(),
            (r, final(self)@) == settled(old(self)@, false, result),
    {
        match result {
            Ok(value) => {
                let committed = match &value {
                    Value::Response(data) => Some(data.committed),
                    _ => None,
                };
                match committed {
                    Some(true) => match self.commit() {
                        Ok(_) => Ok(value),
                        Err(e) => Err(e),
                    },
                    Some(false) => {
                        self.roll_back();
                        Ok(value)
                    },
                    None => {
                        self.roll_back();
                        Err(Error::Unchecked(UncheckedError::ContractMustReturnBoolean))
                    },
                }
            },
            Err(e) => {
                self.roll_back();
                Err(e)
            },
        }
    }
}

} // verus!
