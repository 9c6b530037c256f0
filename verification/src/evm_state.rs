//! The backend execution-context surface the harness drives: storage,
//! nonce and class tables keyed by account handle, with the read-back
//! operations that reconstruct EVM-level values from the backend layout.
//!
//! A context is created per case, provisioned once (`Uninitialized` to
//! `Ready`), then used for setup, execution and read-back, and dropped.
//! Executing a transaction is the backend's own work and is outside this
//! model: submitting one yields an outcome value and leaves the tables
//! unchanged, and the harness logs the outcome and goes on to
//! verification, since a fixture may expect a failed or no-op transaction.

use vstd::prelude::*;

use crate::codec::{uint256_addresses_of, Felt, SlotAddress, SlotView};
use crate::error::{Messages, RunnerError};
use crate::setup::{
    half_felt, pow256, slot0, slot1, spec_handle, ChainConfig, FundingPlan, SetupPlan,
    lemma_pow256_le, lemma_pow256_pos, lemma_pow256_16,
};
use crate::state::{AccountState, EvmAddress};
use crate::word::U256;

verus! {

/// What came of submitting one transaction to the backend.
pub enum ExecutionOutcome {
    /// The backend accepted and executed the transaction.
    Executed,
    /// The backend did not execute it; the harness records the reason and
    /// continues to post-state verification.
    NotExecuted(String),
}

/// The value of the last entry with the key, the zero word when absent.
pub open spec fn last_word(s: Seq<((Felt, SlotView), Felt)>, key: (Felt, SlotView)) -> Felt
    decreases s.len(),
{
    if s.len() == 0 {
        Felt { lo: 0, hi: 0 }
    } else if s.last().0 == key {
        s.last().1
    } else {
        last_word(s.drop_last(), key)
    }
}

/// The value of the last entry with the key, if any.
pub open spec fn last_entry(s: Seq<(Felt, Felt)>, key: Felt) -> Option<Felt>
    decreases s.len(),
{
    if s.len() == 0 {
        None
    } else if s.last().0 == key {
        Some(s.last().1)
    } else {
        last_entry(s.drop_last(), key)
    }
}

/// The block environment a case executes under.
#[derive(Clone, Copy, PartialEq, Eq, Structural, Debug)]
pub struct BlockEnv {
    pub number: u64,
    pub timestamp: u64,
    pub coinbase: EvmAddress,
}

/// One backend execution context: the storage, nonce and class tables of
/// the test chain, owned by a single case.
pub struct SequencerState {
    /// The chain's identities.
    pub cfg: ChainConfig,
    /// The block environment the context was created with; consumed by
    /// the backend's execution, which is outside this model.
    pub env: BlockEnv,
    pub ready: bool,
    pub storage: Vec<((Felt, SlotAddress), Felt)>,
    pub nonces: Vec<(Felt, Felt)>,
    pub classes: Vec<(Felt, Felt)>,
}

impl SequencerState {
    /// Storage entries, in write order, at the mathematical level.
    pub open spec fn store(self) -> Seq<((Felt, SlotView), Felt)> {
        self.storage@.map_values(|e: ((Felt, SlotAddress), Felt)| ((e.0.0, e.0.1@), e.1))
    }

    pub open spec fn nonce_table(self) -> Seq<(Felt, Felt)> {
        self.nonces@
    }

    pub open spec fn class_table(self) -> Seq<(Felt, Felt)> {
        self.classes@
    }

    /// The word a slot of an account's storage space holds; a slot never
    /// written holds zero.
    pub open spec fn slot_word(self, target: Felt, slot: SlotView) -> Felt {
        last_word(self.store(), (target, slot))
    }

    /// An account is resolvable once a class was set for it.
    pub open spec fn resolved(self, target: Felt) -> bool {
        last_entry(self.class_table(), target) is Some
    }

    /// The context has been provisioned and accepts operations.
    pub open spec fn is_ready(self) -> bool {
        self.ready
    }

    /// A fresh, unprovisioned context for one case's block environment.
    pub fn new(cfg: ChainConfig, env: BlockEnv) -> (r: SequencerState)
        ensures
            r.cfg == cfg,
            r.env == env,
            !r.is_ready(),
            r.store() =~= Seq::<((Felt, SlotView), Felt)>::empty(),
            r.nonce_table() =~= Seq::<(Felt, Felt)>::empty(),
            r.class_table() =~= Seq::<(Felt, Felt)>::empty(),
    {
        SequencerState {
            cfg,
            env,
            ready: false,
            storage: Vec::new(),
            nonces: Vec::new(),
            classes: Vec::new(),
        }
    }

    /// Provisions the context: `Uninitialized` becomes `Ready`.
    pub fn setup_state(&mut self)
        ensures
            final(self).is_ready(),
            final(self).cfg == old(self).cfg,
            final(self).env == old(self).env,
            final(self).store() == old(self).store(),
            final(self).nonce_table() == old(self).nonce_table(),
            final(self).class_table() == old(self).class_table(),
    {
        self.ready = true;
    }

    /// Writes one word to a slot of an account's storage space.
    pub fn set_storage_at(&mut self, target: Felt, slot: SlotAddress, value: Felt)
        requires
            old(self).is_ready(),
        ensures
            final(self).store() == old(self).store().push(((target, slot@), value)),
            final(self).cfg == old(self).cfg,
            final(self).env == old(self).env,
            final(self).is_ready(),
            final(self).nonce_table() == old(self).nonce_table(),
            final(self).class_table() == old(self).class_table(),
    {
        let ghost slot_view = slot@;
        self.storage.push(((target, slot), value));
        proof {
            assert(self.store() =~= old(self).store().push(((target, slot_view), value)));
        }
    }

    /// Sets an account's native nonce.
    pub fn set_nonce(&mut self, target: Felt, nonce: Felt)
        requires
            old(self).is_ready(),
        ensures
            final(self).nonce_table() == old(self).nonce_table().push((target, nonce)),
            final(self).cfg == old(self).cfg,
            final(self).env == old(self).env,
            final(self).is_ready(),
            final(self).store() == old(self).store(),
            final(self).class_table() == old(self).class_table(),
    {
        self.nonces.push((target, nonce));
    }

    /// Registers an account under a class.
    pub fn set_class_hash_at(&mut self, target: Felt, class_hash: Felt)
        requires
            old(self).is_ready(),
        ensures
            final(self).class_table() == old(self).class_table().push((target, class_hash)),
            final(self).cfg == old(self).cfg,
            final(self).env == old(self).env,
            final(self).is_ready(),
            final(self).store() == old(self).store(),
            final(self).nonce_table() == old(self).nonce_table(),
    {
        self.classes.push((target, class_hash));
    }

    /// Reads one slot of an account's storage space.
    pub fn read_slot(&self, target: Felt, slot: &SlotAddress) -> (r: Felt)
        ensures
            r == self.slot_word(target, slot@),
    {
        let mut i: usize = self.storage.len();
        proof {
            assert(self.store().take(i as int) =~= self.store());
        }
        while i > 0
            invariant
                0 <= i <= self.storage@.len(),
                self.store().len() == self.storage@.len(),
                self.slot_word(target, slot@) == last_word(
                    self.store().take(i as int),
                    (target, slot@),
                ),
            decreases i,
        {
            i = i - 1;
            let entry = &self.storage[i];
            proof {
                assert(self.store()[i as int] == ((entry.0.0, entry.0.1@), entry.1));
                assert(self.store().take(i as int + 1).last() == self.store()[i as int]);
                assert(self.store().take(i as int + 1).drop_last() =~= self.store().take(
                    i as int,
                ));
            }
            if entry.0.0.eq_felt(&target) && entry.0.1.eq_slot(slot) {
                return entry.1;
            }
        }
        Felt::zero()
    }

    /// Looks a handle up in a handle-keyed table, latest entry first.
    fn read_table(table: &Vec<(Felt, Felt)>, target: Felt) -> (r: Option<Felt>)
        ensures
            r == last_entry(table@, target),
    {
        let mut i: usize = table.len();
        proof {
            assert(table@.take(i as int) =~= table@);
        }
        while i > 0
            invariant
                0 <= i <= table@.len(),
                last_entry(table@, target) == last_entry(table@.take(i as int), target),
            decreases i,
        {
            i = i - 1;
            let entry = &table[i];
            proof {
                assert(table@.take(i as int + 1).last() == table@[i as int]);
                assert(table@.take(i as int + 1).drop_last() =~= table@.take(i as int));
            }
            if entry.0.eq_felt(&target) {
                return Some(entry.1);
            }
        }
        None
    }

    /// Applies a setup plan: every storage write in order, the registry
    /// entry into the system contract's space, the native nonce of a plain
    /// account, and the account's class.
    pub fn apply_setup(&mut self, plan: &SetupPlan)
        requires
            old(self).is_ready(),
        ensures
            final(self).is_ready(),
            final(self).cfg == old(self).cfg,
            final(self).env == old(self).env,
            final(self).store() == old(self).store() + plan_store_entries(old(self).cfg, plan),
            final(self).nonce_table() == (match plan.native_nonce {
                Some(n) => old(self).nonce_table().push((plan.target, n)),
                None => old(self).nonce_table(),
            }),
            final(self).class_table() == old(self).class_table().push(
                (plan.target, plan.class_hash),
            ),
    {
        let ghost base = self.store();
        let mut i: usize = 0;
        while i < plan.writes.len()
            invariant
                self.is_ready(),
                self.cfg == old(self).cfg,
                self.env == old(self).env,
                0 <= i <= plan.writes@.len(),
                self.store() == base + plan.writes@.map_values(
                    |w: (SlotAddress, Felt)| ((plan.target, w.0@), w.1),
                ).take(i as int),
                self.nonce_table() == old(self).nonce_table(),
                self.class_table() == old(self).class_table(),
            decreases plan.writes@.len() - i,
        {
            let w = &plan.writes[i];
            self.set_storage_at(plan.target, w.0.duplicate(), w.1);
            proof {
                let m = plan.writes@.map_values(
                    |w: (SlotAddress, Felt)| ((plan.target, w.0@), w.1),
                );
                assert(m[i as int] == ((plan.target, plan.writes@[i as int].0@), plan.writes@[i as int].1));
                assert(self.store() =~= base + m.take(i as int + 1));
            }
            i = i + 1;
        }
        let sys = self.cfg.system_address;
        self.set_storage_at(sys, plan.registry_write.0.duplicate(), plan.registry_write.1);
        match plan.native_nonce {
            Some(n) => {
                self.set_nonce(plan.target, n);
            },
            None => {},
        }
        self.set_class_hash_at(plan.target, plan.class_hash);
        proof {
            let m = plan.writes@.map_values(
                |w: (SlotAddress, Felt)| ((plan.target, w.0@), w.1),
            );
            assert(m.take(plan.writes@.len() as int) =~= m);
            assert(self.store() =~= base + plan_store_entries(old(self).cfg, plan));
        }
    }

    /// Applies a funding plan: its writes, in order.
    pub fn apply_funding(&mut self, plan: &FundingPlan)
        requires
            old(self).is_ready(),
        ensures
            final(self).is_ready(),
            final(self).cfg == old(self).cfg,
            final(self).env == old(self).env,
            final(self).store() == old(self).store() + plan.writes@.map_values(
                |w: (SlotAddress, Felt)| ((plan.target, w.0@), w.1),
            ),
            final(self).nonce_table() == old(self).nonce_table(),
            final(self).class_table() == old(self).class_table(),
    {
        let ghost base = self.store();
        let mut i: usize = 0;
        while i < plan.writes.len()
            invariant
                self.is_ready(),
                self.cfg == old(self).cfg,
                self.env == old(self).env,
                0 <= i <= plan.writes@.len(),
                self.store() == base + plan.writes@.map_values(
                    |w: (SlotAddress, Felt)| ((plan.target, w.0@), w.1),
                ).take(i as int),
                self.nonce_table() == old(self).nonce_table(),
                self.class_table() == old(self).class_table(),
            decreases plan.writes@.len() - i,
        {
            let w = &plan.writes[i];
            self.set_storage_at(plan.target, w.0.duplicate(), w.1);
            proof {
                let m = plan.writes@.map_values(
                    |w: (SlotAddress, Felt)| ((plan.target, w.0@), w.1),
                );
                assert(m[i as int] == ((plan.target, plan.writes@[i as int].0@), plan.writes@[i as int].1));
                assert(self.store() =~= base + m.take(i as int + 1));
            }
            i = i + 1;
        }
        proof {
            let m = plan.writes@.map_values(
                |w: (SlotAddress, Felt)| ((plan.target, w.0@), w.1),
            );
            assert(m.take(plan.writes@.len() as int) =~= m);
        }
    }

    /// Materializes and writes one account, as the pre-state loader asks:
    /// every storage write of the account, its registration entry, the
    /// native nonce of a plain account, and its proxy class. Fails exactly
    /// when the nonce does not fit the backend's native width, leaving the
    /// state untouched.
    pub fn setup_account(
        &mut self,
        evm_address: &EvmAddress,
        bytecode: &Vec<u8>,
        nonce: U256,
        evm_storage: &Vec<(U256, U256)>,
    ) -> (r: Result<(), RunnerError>)
        requires
            old(self).is_ready(),
            bytecode@.len() <= 0xffff_ffff,
            bytecode@.len() + 15 <= usize::MAX,
            2 * evm_storage@.len() <= usize::MAX,
        ensures
            final(self).is_ready(),
            final(self).cfg == old(self).cfg,
            final(self).env == old(self).env,
            (r is Ok) <==> nonce.hi == 0,
            r matches Err(e) ==> (e is SequencerError && *final(self) == *old(self)),
            (r is Ok) ==> {
                &&& final(self).store() == old(self).store() + spec_account_entries(
                    old(self).cfg,
                    *evm_address,
                    bytecode@,
                    nonce,
                    evm_storage@,
                )
                &&& final(self).nonce_table() == (if bytecode@.len() == 0 && evm_storage@.len()
                    == 0 {
                    old(self).nonce_table().push(
                        (spec_handle(*evm_address), half_felt(nonce.lo)),
                    )
                } else {
                    old(self).nonce_table()
                })
                &&& final(self).class_table() == old(self).class_table().push(
                    (spec_handle(*evm_address), old(self).cfg.proxy_class_hash),
                )
                &&& (bytecode@.len() == 0 && evm_storage@.len() == 0 && nonce.hi == 0)
                    ==> final(self).spec_nonce_read(*evm_address) == nonce.lo
            },
    {
        let cfg = self.cfg;
        let plan = match crate::setup::materialize(&cfg, evm_address, bytecode, nonce, evm_storage) {
            Ok(p) => p,
            Err(_) => {
                return Err(out_of_range_error());
            },
        };
        self.apply_setup(&plan);
        proof {
            let ws = crate::setup::spec_account_writes(
                cfg,
                *evm_address,
                bytecode@,
                nonce,
                evm_storage@,
            );
            let m = plan.writes@.map_values(
                |w: (SlotAddress, Felt)| ((plan.target, w.0@), w.1),
            );
            assert forall|k: int| 0 <= k < m.len() implies #[trigger] m[k] == ((spec_handle(
                *evm_address,
            ), ws[k].0), ws[k].1) by {
                assert(m[k] == ((plan.target, plan.writes@[k].0@), plan.writes@[k].1));
            }
            assert(plan_store_entries(cfg, &plan) =~= spec_account_entries(
                cfg,
                *evm_address,
                bytecode@,
                nonce,
                evm_storage@,
            ));
            if bytecode@.len() == 0 && evm_storage@.len() == 0 {
                assert(bytecode@ =~= Seq::<u8>::empty());
                assert(evm_storage@ =~= Seq::<(U256, U256)>::empty());
                lemma_plain_setup_nonce_reads_back(*old(self), *self, *evm_address, nonce);
            }
        }
        Ok(())
    }

    /// Funds one account: writes its two-slot balance and the sponsor's
    /// unlimited allowance. Afterwards the account's balance reads back as
    /// exactly the funded balance.
    pub fn fund(&mut self, evm_address: &EvmAddress, balance: U256)
        requires
            old(self).is_ready(),
        ensures
            final(self).is_ready(),
            final(self).cfg == old(self).cfg,
            final(self).env == old(self).env,
            final(self).store() == old(self).store() + spec_funding_entries(
                old(self).cfg,
                *evm_address,
                balance,
            ),
            final(self).nonce_table() == old(self).nonce_table(),
            final(self).class_table() == old(self).class_table(),
            final(self).spec_balance_read(*evm_address) == balance.val(),
    {
        let cfg = self.cfg;
        let plan = crate::setup::fund(&cfg, evm_address, balance);
        self.apply_funding(&plan);
        proof {
            let ws = crate::setup::spec_funding_writes(cfg, *evm_address, balance);
            let m = plan.writes@.map_values(
                |w: (SlotAddress, Felt)| ((plan.target, w.0@), w.1),
            );
            assert forall|k: int| 0 <= k < m.len() implies #[trigger] m[k] == ((spec_handle(
                *evm_address,
            ), ws[k].0), ws[k].1) by {
                assert(m[k] == ((plan.target, plan.writes@[k].0@), plan.writes@[k].1));
            }
            assert(m =~= spec_funding_entries(cfg, *evm_address, balance));
            lemma_funding_reads_back(*old(self), *self, *evm_address, balance);
        }
    }

    /// Submits one transaction. Execution belongs to the backend, which
    /// this surface does not model: the outcome says so and the tables are
    /// left untouched.
    pub fn execute_transaction(&mut self, _transaction: &crate::case::SignedTransaction) -> (r:
        ExecutionOutcome)
        requires
            old(self).is_ready(),
        ensures
            *final(self) == *old(self),
            r is NotExecuted,
    {
        ExecutionOutcome::NotExecuted(
            String::from_str("transaction execution is performed by the backend, not this surface"),
        )
    }
    /// Reads back one EVM storage word of an account: the two half-word
    /// slots its key maps to, re-assembled.
    pub fn get_storage_at(&self, evm_address: &EvmAddress, key: U256) -> (r: Result<
        U256,
        RunnerError,
    >)
        ensures
            (r is Ok) <==> self.resolved(spec_handle(*evm_address)),
            r matches Err(e) ==> (e is SequencerError),
            r matches Ok(v) ==> v.val() == self.spec_storage_read(*evm_address, key),
    {
        proof {
            reveal_strlit("storage_");
        }
        let handle = Felt::from_address(evm_address);
        if Self::read_table(&self.classes, handle).is_none() {
            return Err(unresolved_error());
        }
        let mut lo_keys: Vec<Felt> = Vec::new();
        lo_keys.push(Felt::from_u128(key.lo));
        proof {
            assert(lo_keys@ =~= seq![half_felt(key.lo)]);
        }
        let lo = self.read_slot(handle, &crate::setup::make_slot("storage_", lo_keys));
        let mut hi_keys: Vec<Felt> = Vec::new();
        hi_keys.push(Felt::from_u128(key.hi));
        proof {
            assert(hi_keys@ =~= seq![half_felt(key.hi)]);
        }
        let hi = self.read_slot(handle, &crate::setup::make_slot("storage_", hi_keys));
        Ok(U256::from_halves(lo.lo, hi.lo))
    }

    /// The EVM storage word an account's key reads back as: the low words
    /// of the two half slots, joined.
    pub open spec fn spec_storage_read(self, addr: EvmAddress, key: U256) -> int {
        self.slot_word(spec_handle(addr), slot1("storage_"@, half_felt(key.lo))).lo
            + self.slot_word(spec_handle(addr), slot1("storage_"@, half_felt(key.hi))).lo
            * crate::word::pow2_128()
    }

    /// The nonce an account reads back as: the native nonce for a plain
    /// account, the `nonce` storage variable for a contract account. The
    /// kind is told by the `_implementation` storage variable, as the
    /// materializer wrote it.
    pub open spec fn spec_nonce_read(self, addr: EvmAddress) -> int {
        if self.slot_word(spec_handle(addr), slot0("_implementation"@))
            == self.cfg.eoa_class_hash {
            match last_entry(self.nonce_table(), spec_handle(addr)) {
                Some(n) => n.val(),
                None => 0,
            }
        } else {
            self.slot_word(spec_handle(addr), slot0("nonce"@)).val()
        }
    }

    /// Reads back an account's nonce. The configuration must tell the two
    /// account kinds apart, since the read dispatches on the
    /// `_implementation` variable.
    pub fn get_nonce_at(&self, evm_address: &EvmAddress) -> (r: Result<U256, RunnerError>)
        requires
            self.cfg.wf(),
        ensures
            (r is Ok) <==> self.resolved(spec_handle(*evm_address)),
            r matches Err(e) ==> (e is SequencerError),
            r matches Ok(v) ==> v.val() == self.spec_nonce_read(*evm_address),
    {
        proof {
            reveal_strlit("nonce");
            reveal_strlit("_implementation");
        }
        let handle = Felt::from_address(evm_address);
        if Self::read_table(&self.classes, handle).is_none() {
            return Err(unresolved_error());
        }
        let implementation = self.read_slot(
            handle,
            &crate::setup::make_slot("_implementation", Vec::new()),
        );
        if implementation.eq_felt(&self.cfg.eoa_class_hash) {
            let n = match Self::read_table(&self.nonces, handle) {
                Some(n) => n,
                None => Felt::zero(),
            };
            Ok(U256::from_halves(n.lo, n.hi))
        } else {
            let n = self.read_slot(handle, &crate::setup::make_slot("nonce", Vec::new()));
            Ok(U256::from_halves(n.lo, n.hi))
        }
    }

    /// The balance an account reads back as: the two fee-token balance
    /// slots, joined.
    pub open spec fn spec_balance_read(self, addr: EvmAddress) -> int {
        self.slot_word(
            spec_handle(addr),
            SlotView { name: "ERC20_balances"@, keys: seq![self.cfg.fee_token_address], offset: 0 },
        ).lo + self.slot_word(
            spec_handle(addr),
            SlotView { name: "ERC20_balances"@, keys: seq![self.cfg.fee_token_address], offset: 1 },
        ).lo * crate::word::pow2_128()
    }

    /// Reads back an account's fee-token balance.
    pub fn get_balance_at(&self, evm_address: &EvmAddress) -> (r: Result<U256, RunnerError>)
        ensures
            (r is Ok) <==> self.resolved(spec_handle(*evm_address)),
            r matches Err(e) ==> (e is SequencerError),
            r matches Ok(v) ==> v.val() == self.spec_balance_read(*evm_address),
    {
        proof {
            reveal_strlit("ERC20_balances");
        }
        let handle = Felt::from_address(evm_address);
        if Self::read_table(&self.classes, handle).is_none() {
            return Err(unresolved_error());
        }
        let mut keys: Vec<Felt> = Vec::new();
        keys.push(self.cfg.fee_token_address);
        proof {
            assert(keys@ =~= seq![self.cfg.fee_token_address]);
        }
        let (slot_lo, slot_hi) = match uint256_addresses_of("ERC20_balances", keys) {
            Ok(p) => p,
            Err(_) => vstd::pervasive::unreached(),
        };
        let lo = self.read_slot(handle, &slot_lo);
        let hi = self.read_slot(handle, &slot_hi);
        Ok(U256::from_halves(lo.lo, hi.lo))
    }

    /// The recorded bytecode length of an account.
    pub open spec fn spec_code_len(self, addr: EvmAddress) -> Felt {
        self.slot_word(spec_handle(addr), slot0("bytecode_len_"@))
    }

    /// The byte at position `i` of the account's read-back bytecode: taken
    /// from the big-endian packed word of its 16-byte chunk.
    pub open spec fn spec_code_byte(self, addr: EvmAddress, i: int) -> u8 {
        (((self.slot_word(
            spec_handle(addr),
            slot1("bytecode_"@, half_felt((i / 16) as u128)),
        ).lo as int) / pow256((15 - (i % 16)) as nat)) % 256) as u8
    }

    /// The bytecode an account reads back as.
    pub open spec fn spec_code_read(self, addr: EvmAddress) -> Seq<u8> {
        Seq::new(self.spec_code_len(addr).lo as nat, |i: int| self.spec_code_byte(addr, i))
    }

    /// Reads back an account's bytecode: the recorded length, then that
    /// many bytes out of the packed chunk words.
    pub fn get_code_at(&self, evm_address: &EvmAddress) -> (r: Result<Vec<u8>, RunnerError>)
        ensures
            (r is Ok) <==> (self.resolved(spec_handle(*evm_address)) && self.spec_code_len(
                *evm_address,
            ).hi == 0 && self.spec_code_len(*evm_address).lo <= 0xffff_ffff),
            r matches Err(e) ==> (e is SequencerError),
            r matches Ok(c) ==> c@ == self.spec_code_read(*evm_address),
    {
        proof {
            reveal_strlit("bytecode_len_");
            reveal_strlit("bytecode_");
        }
        let handle = Felt::from_address(evm_address);
        if Self::read_table(&self.classes, handle).is_none() {
            return Err(unresolved_error());
        }
        let len_felt = self.read_slot(
            handle,
            &crate::setup::make_slot("bytecode_len_", Vec::new()),
        );
        if len_felt.hi != 0 || len_felt.lo > 0xffff_ffff {
            return Err(out_of_range_error());
        }
        let len: usize = len_felt.lo as usize;
        proof {
            assert(len == len_felt.lo);
        }
        let mut out: Vec<u8> = Vec::new();
        let mut i: usize = 0;
        while i < len
            invariant
                0 <= i <= len,
                len == self.spec_code_len(*evm_address).lo,
                handle == spec_handle(*evm_address),
                vstd::string::is_ascii("bytecode_"),
                out@ == self.spec_code_read(*evm_address).take(i as int),
            decreases len - i,
        {
            let mut chunk_keys: Vec<Felt> = Vec::new();
            chunk_keys.push(Felt::from_u128((i / 16) as u128));
            proof {
                assert(chunk_keys@ =~= seq![half_felt(((i as int) / 16) as u128)]);
            }
            let chunk = self.read_slot(
                handle,
                &crate::setup::make_slot("bytecode_", chunk_keys),
            );
            let p = pow256_exec(15 - (i % 16));
            let byte: u8 = ((chunk.lo / p) % 256) as u8;
            out.push(byte);
            proof {
                assert(byte == self.spec_code_byte(*evm_address, i as int));
                assert(out@ =~= self.spec_code_read(*evm_address).take(i as int + 1));
            }
            i = i + 1;
        }
        proof {
            assert(self.spec_code_read(*evm_address).take(len as int) =~= self.spec_code_read(
                *evm_address,
            ));
        }
        Ok(out)
    }

}

/// The storage entries a setup plan adds, in write order: the account's
/// own writes, then the registry entry in the system contract's space.
pub open spec fn plan_store_entries(cfg: ChainConfig, plan: &SetupPlan) -> Seq<
    ((Felt, SlotView), Felt),
> {
    plan.writes@.map_values(|w: (SlotAddress, Felt)| ((plan.target, w.0@), w.1)).push(
        ((cfg.system_address, plan.registry_write.0@), plan.registry_write.1),
    )
}

} // verus!

verus! {

/// The error a read on an unresolvable account raises.
fn unresolved_error() -> (r: RunnerError)
    ensures
        r is SequencerError,
{
    let mut lines: Vec<String> = Vec::new();
    lines.push(String::from_str("account not resolvable in backend state"));
    RunnerError::SequencerError(Messages(lines))
}

/// The error an out-of-range stored quantity raises.
fn out_of_range_error() -> (r: RunnerError)
    ensures
        r is SequencerError,
{
    let mut lines: Vec<String> = Vec::new();
    lines.push(String::from_str("stored value out of range"));
    RunnerError::SequencerError(Messages(lines))
}

/// 256^k, executably.
fn pow256_exec(k: usize) -> (r: u128)
    requires
        k <= 15,
    ensures
        r as int == pow256(k as nat),
        r >= 1,
{
    let mut p: u128 = 1;
    let mut j: usize = 0;
    while j < k
        invariant
            0 <= j <= k <= 15,
            p as int == pow256(j as nat),
        decreases k - j,
    {
        proof {
            lemma_pow256_pos(j as nat);
            lemma_pow256_le(j as nat, 14);
            lemma_pow256_16();
            assert(pow256(16) == 256 * pow256(15));
            assert(pow256(15) == 256 * pow256(14));
        }
        p = p * 256;
        j = j + 1;
    }
    proof {
        lemma_pow256_pos(k as nat);
    }
    p
}

} // verus!

verus! {

/// The store entries that instantiate one account, in write order: the
/// account's own writes, then its registration entry in the system
/// contract's space.
pub open spec fn spec_account_entries(
    cfg: ChainConfig,
    addr: EvmAddress,
    code: Seq<u8>,
    nonce: U256,
    storage: Seq<(U256, U256)>,
) -> Seq<((Felt, SlotView), Felt)> {
    crate::setup::spec_account_writes(cfg, addr, code, nonce, storage).map_values(
        |w: (SlotView, Felt)| ((spec_handle(addr), w.0), w.1),
    ).push(
        (
            (cfg.system_address, slot1("evm_to_native_address"@, spec_handle(addr))),
            spec_handle(addr),
        ),
    )
}

/// The store contents a pre-state load appends, account by account: each
/// account's setup entries followed by its funding entries, in
/// declaration order.
pub open spec fn spec_setup_store(cfg: ChainConfig, pre: Seq<(EvmAddress, AccountState)>) -> Seq<
    ((Felt, SlotView), Felt),
>
    decreases pre.len(),
{
    if pre.len() == 0 {
        Seq::empty()
    } else {
        spec_setup_store(cfg, pre.drop_last()) + spec_account_entries(
            cfg,
            pre.last().0,
            pre.last().1.code@,
            pre.last().1.nonce,
            pre.last().1.storage@,
        ) + spec_funding_entries(cfg, pre.last().0, pre.last().1.balance)
    }
}

/// The native nonces a pre-state load sets: one per plain account, in
/// declaration order.
pub open spec fn spec_setup_nonces(cfg: ChainConfig, pre: Seq<(EvmAddress, AccountState)>) -> Seq<
    (Felt, Felt),
>
    decreases pre.len(),
{
    if pre.len() == 0 {
        Seq::empty()
    } else {
        let prev = spec_setup_nonces(cfg, pre.drop_last());
        if pre.last().1.code@.len() == 0 && pre.last().1.storage@.len() == 0 {
            prev.push((spec_handle(pre.last().0), half_felt(pre.last().1.nonce.lo)))
        } else {
            prev
        }
    }
}

/// The classes a pre-state load registers: every account under the proxy
/// class, in declaration order.
pub open spec fn spec_setup_classes(cfg: ChainConfig, pre: Seq<(EvmAddress, AccountState)>) -> Seq<
    (Felt, Felt),
>
    decreases pre.len(),
{
    if pre.len() == 0 {
        Seq::empty()
    } else {
        spec_setup_classes(cfg, pre.drop_last()).push(
            (spec_handle(pre.last().0), cfg.proxy_class_hash),
        )
    }
}

/// The store entries a funding plan adds for an account, in write order.
pub open spec fn spec_funding_entries(cfg: ChainConfig, addr: EvmAddress, balance: U256) -> Seq<
    ((Felt, SlotView), Felt),
> {
    crate::setup::spec_funding_writes(cfg, addr, balance).map_values(
        |w: (SlotView, Felt)| ((spec_handle(addr), w.0), w.1),
    )
}

/// Write/read symmetry of the two-slot balance layout: after the funding
/// writes land, the account's balance reads back exactly as the balance
/// that was funded, for every starting store.
pub proof fn lemma_funding_reads_back(
    s0: SequencerState,
    s1: SequencerState,
    addr: EvmAddress,
    balance: U256,
)
    requires
        s1.cfg == s0.cfg,
        s1.store() == s0.store() + spec_funding_entries(s0.cfg, addr, balance),
    ensures
        s1.spec_balance_read(addr) == balance.val(),
{
    let cfg = s0.cfg;
    let ents = spec_funding_entries(cfg, addr, balance);
    let ws = crate::setup::spec_funding_writes(cfg, addr, balance);
    let handle = spec_handle(addr);
    let lo_slot = SlotView {
        name: "ERC20_balances"@,
        keys: seq![cfg.fee_token_address],
        offset: 0,
    };
    let hi_slot = SlotView {
        name: "ERC20_balances"@,
        keys: seq![cfg.fee_token_address],
        offset: 1,
    };
    reveal_strlit("ERC20_balances");
    reveal_strlit("ERC20_allowances");
    assert("ERC20_balances"@.len() != "ERC20_allowances"@.len());
    assert(ents.len() == 4);
    assert(ents[0] == ((handle, ws[0].0), ws[0].1));
    assert(ents[1] == ((handle, ws[1].0), ws[1].1));
    assert(ents[2] == ((handle, ws[2].0), ws[2].1));
    assert(ents[3] == ((handle, ws[3].0), ws[3].1));
    let all = s0.store() + ents;
    assert(all.drop_last() =~= s0.store() + ents.take(3));
    assert(all.drop_last().drop_last() =~= s0.store() + ents.take(2));
    assert(all.drop_last().drop_last().drop_last() =~= s0.store() + ents.take(1));
    assert(all.drop_last().last() == ents[2]);
    assert(all.drop_last().drop_last().last() == ents[1]);
    assert(all.drop_last().drop_last().drop_last().last() == ents[0]);
    // The allowance entries target a different variable, so neither read
    // stops at them; the two balance entries differ only in offset.
    assert(ents[3].0 != (handle, lo_slot) && ents[3].0 != (handle, hi_slot));
    assert(ents[2].0 != (handle, lo_slot) && ents[2].0 != (handle, hi_slot));
    assert(ents[1].0 == (handle, hi_slot) && ents[1].0 != (handle, lo_slot));
    assert(ents[0].0 == (handle, lo_slot));
    assert(ents[1].1 == crate::setup::half_felt(balance.hi));
    assert(ents[0].1 == crate::setup::half_felt(balance.lo));
    let a3 = all.drop_last();
    let a2 = a3.drop_last();
    let a1 = a2.drop_last();
    assert(all.last() == ents[3]);
    assert(a3.last() == ents[2]);
    assert(a2.last() == ents[1]);
    assert(a1.last() == ents[0]);
    // The high half: the read passes the allowance entries and stops at
    // the offset-one balance entry.
    assert(last_word(all, (handle, hi_slot)) == last_word(a3, (handle, hi_slot)));
    assert(last_word(a3, (handle, hi_slot)) == last_word(a2, (handle, hi_slot)));
    assert(last_word(a2, (handle, hi_slot)) == ents[1].1);
    // The low half: one step further, to the offset-zero balance entry.
    assert(last_word(all, (handle, lo_slot)) == last_word(a3, (handle, lo_slot)));
    assert(last_word(a3, (handle, lo_slot)) == last_word(a2, (handle, lo_slot)));
    assert(last_word(a2, (handle, lo_slot)) == last_word(a1, (handle, lo_slot)));
    assert(last_word(a1, (handle, lo_slot)) == ents[0].1);
    assert(s1.spec_balance_read(addr) == balance.lo + balance.hi * crate::word::pow2_128());
}

} // verus!

verus! {

/// Write/read symmetry for a plain account's nonce: after its setup
/// writes land and its native nonce is set, the account's nonce reads
/// back exactly as the nonce it was materialized with, for every starting
/// store.
pub proof fn lemma_plain_setup_nonce_reads_back(
    s0: SequencerState,
    s1: SequencerState,
    addr: EvmAddress,
    nonce: U256,
)
    requires
        s1.cfg == s0.cfg,
        nonce.hi == 0,
        s1.store() == s0.store() + spec_account_entries(
            s0.cfg,
            addr,
            Seq::<u8>::empty(),
            nonce,
            Seq::<(U256, U256)>::empty(),
        ),
        s1.nonce_table() == s0.nonce_table().push(
            (spec_handle(addr), half_felt(nonce.lo)),
        ),
    ensures
        s1.spec_nonce_read(addr) == nonce.lo,
{
    let cfg = s0.cfg;
    let handle = spec_handle(addr);
    let impl_slot = slot0("_implementation"@);
    reveal_strlit("evm_address");
    reveal_strlit("is_initialized_");
    reveal_strlit("Ownable_owner");
    reveal_strlit("bytecode_len_");
    reveal_strlit("system_address");
    reveal_strlit("_implementation");
    reveal_strlit("evm_to_native_address");
    let ws = crate::setup::spec_account_writes(
        cfg,
        addr,
        Seq::<u8>::empty(),
        nonce,
        Seq::<(U256, U256)>::empty(),
    );
    let ents = spec_account_entries(
        cfg,
        addr,
        Seq::<u8>::empty(),
        nonce,
        Seq::<(U256, U256)>::empty(),
    );
    // A plain account has no bytecode chunks and no storage entries, so
    // its write list is the five identity writes, the implementation
    // class, and the registration entry.
    assert(crate::setup::spec_bytecode_writes(Seq::<u8>::empty()) =~= Seq::<(
        SlotView,
        Felt,
    )>::empty());
    assert(crate::setup::spec_storage_writes(Seq::<(U256, U256)>::empty()) =~= Seq::<(
        SlotView,
        Felt,
    )>::empty());
    assert(ws.len() == 6);
    assert(ws[5] == (impl_slot, cfg.eoa_class_hash));
    assert(ents.len() == 7);
    assert(ents[5] == ((handle, impl_slot), cfg.eoa_class_hash));
    assert(ents[6].0.1.name == "evm_to_native_address"@);
    assert(("evm_to_native_address"@).len() != ("_implementation"@).len());
    assert(ents[6].0 != (handle, impl_slot));
    let all = s0.store() + ents;
    assert(all.last() == ents[6]);
    assert(all.drop_last() =~= s0.store() + ents.take(6));
    assert(all.drop_last().last() == ents[5]);
    assert(last_word(all, (handle, impl_slot)) == last_word(
        all.drop_last(),
        (handle, impl_slot),
    ));
    assert(last_word(all.drop_last(), (handle, impl_slot)) == cfg.eoa_class_hash);
    assert(s1.slot_word(handle, impl_slot) == cfg.eoa_class_hash);
    assert(s1.nonce_table().last() == (handle, half_felt(nonce.lo)));
    assert(last_entry(s1.nonce_table(), handle) == Some(half_felt(nonce.lo)));
}

} // verus!
