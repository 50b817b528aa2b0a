use vstd::prelude::*;

use crate::model::lookup;
use crate::primitives::{
    BlockHashOrNumber, ClassHash, ContractAddress, Felt, Nonce, StorageKey, StorageSlot,
    StorageValue,
};
use crate::table::Table;

verus! {

/// The state root of a block, for stores that keep one.
pub trait StateRootProvider {
    /// The state root of the block that `block_id` names.
    fn state_root(&self, block_id: BlockHashOrNumber) -> Option<Felt>;
}

/// Point queries on contract state.
pub trait StateProvider {
    /// Whether the provider is in a state where it can answer.
    spec fn ready(&self) -> bool;

    /// The nonce of each contract that has one.
    spec fn nonces(&self) -> Map<ContractAddress, Nonce>;

    /// The value of each storage slot that has been written.
    spec fn storage_values(&self) -> Map<StorageSlot, StorageValue>;

    /// The class hash of each contract that has one.
    spec fn contract_classes(&self) -> Map<ContractAddress, ClassHash>;

    /// The nonce of a contract.
    fn nonce(&self, address: ContractAddress) -> (r: Option<Nonce>)
        requires
            self.ready(),
        ensures
            r == lookup(self.nonces(), address),
    ;

    /// The value of a contract storage slot.
    fn storage(&self, address: ContractAddress, storage_key: StorageKey) -> (r: Option<
        StorageValue,
    >)
        requires
            self.ready(),
        ensures
            r == lookup(self.storage_values(), StorageSlot { address, key: storage_key }),
    ;

    /// The class hash of a contract.
    fn class_hash_of_contract(&self, address: ContractAddress) -> (r: Option<ClassHash>)
        requires
            self.ready(),
        ensures
            r == lookup(self.contract_classes(), address),
    ;
}

/// Direct writes of contract state: each an unconditional upsert that leaves
/// the rest of the state as it was.
pub trait StateWriter: StateProvider {
    /// Sets the nonce of a contract.
    fn set_nonce(&mut self, address: ContractAddress, nonce: Nonce)
        requires
            old(self).ready(),
        ensures
            final(self).ready(),
            final(self).nonces() == old(self).nonces().insert(address, nonce),
            final(self).storage_values() == old(self).storage_values(),
            final(self).contract_classes() == old(self).contract_classes(),
    ;

    /// Sets the value of a contract storage slot.
    fn set_storage(
        &mut self,
        address: ContractAddress,
        storage_key: StorageKey,
        storage_value: StorageValue,
    )
        requires
            old(self).ready(),
        ensures
            final(self).ready(),
            final(self).nonces() == old(self).nonces(),
            final(self).storage_values() == old(self).storage_values().insert(
                StorageSlot { address, key: storage_key },
                storage_value,
            ),
            final(self).contract_classes() == old(self).contract_classes(),
    ;

    /// Sets the class hash of a contract.
    fn set_class_hash_of_contract(&mut self, address: ContractAddress, class_hash: ClassHash)
        requires
            old(self).ready(),
        ensures
            final(self).ready(),
            final(self).nonces() == old(self).nonces(),
            final(self).storage_values() == old(self).storage_values(),
            final(self).contract_classes() == old(self).contract_classes().insert(
                address,
                class_hash,
            ),
    ;
}

/// Makes state providers that the caller owns.
pub trait StateFactoryProvider: StateProvider {
    /// A provider of the current contract state, which later writes to `self`
    /// do not change.
    fn latest(&self) -> (r: LatestStateProvider)
        requires
            self.ready(),
        ensures
            r.ready(),
            r.nonces() == self.nonces(),
            r.storage_values() == self.storage_values(),
            r.contract_classes() == self.contract_classes(),
    ;
}

/// Contract state as it stood when the provider was made.
pub struct LatestStateProvider {
    nonces: Table<ContractAddress, Nonce>,
    storage: Table<StorageSlot, StorageValue>,
    class_hashes: Table<ContractAddress, ClassHash>,
}

impl LatestStateProvider {
    pub(crate) fn from_tables(
        nonces: Table<ContractAddress, Nonce>,
        storage: Table<StorageSlot, StorageValue>,
        class_hashes: Table<ContractAddress, ClassHash>,
    ) -> (r: LatestStateProvider)
        requires
            nonces.wf(),
            storage.wf(),
            class_hashes.wf(),
        ensures
            r.ready(),
            r.nonces() == nonces@,
            r.storage_values() == storage@,
            r.contract_classes() == class_hashes@,
    {
        LatestStateProvider { nonces, storage, class_hashes }
    }
}

impl StateProvider for LatestStateProvider {
    closed spec fn ready(&self) -> bool {
        &&& self.nonces.wf()
        &&& self.storage.wf()
        &&& self.class_hashes.wf()
    }

    closed spec fn nonces(&self) -> Map<ContractAddress, Nonce> {
        self.nonces@
    }

    closed spec fn storage_values(&self) -> Map<StorageSlot, StorageValue> {
        self.storage@
    }

    closed spec fn contract_classes(&self) -> Map<ContractAddress, ClassHash> {
        self.class_hashes@
    }

    fn nonce(&self, address: ContractAddress) -> (r: Option<Nonce>) {
        self.nonces.get(&address)
    }

    fn storage(&self, address: ContractAddress, storage_key: StorageKey) -> (r: Option<
        StorageValue,
    >) {
        self.storage.get(&StorageSlot { address, key: storage_key })
    }

    fn class_hash_of_contract(&self, address: ContractAddress) -> (r: Option<ClassHash>) {
        self.class_hashes.get(&address)
    }
}

} // verus!
