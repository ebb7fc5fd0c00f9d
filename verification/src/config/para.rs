//! The parachain configuration marker and the record that describes an asset.

pub use primitive_types::{H256, U256};
use parity_scale_codec::Compact;
use vstd::prelude::*;

verus! {

/// Declares parity-scale-codec's `Compact<T>`, a wrapper that marks a value
/// for compact encoding; Verus treats it as opaque and nothing is claimed of it.
#[verifier::external_type_specification]
#[verifier::external_body]
#[verifier::reject_recursive_types(T)]
pub struct ExCompact<T>(Compact<T>);

/// Default set of commonly used types by InfraBlockspace nodes: a type-level
/// marker. Its one field is private and nothing constructs it, so outside this
/// module no value of it can be made.
pub struct ParaConfig {
    _marker: (),
}

/// The description of an asset: its id, owner, whether it is sufficient, its
/// minimum balance, name, symbol, decimals and whether it is frozen.
#[verifier::reject_recursive_types(AssetId)]
#[verifier::reject_recursive_types(Balance)]
pub struct AssetInfo<AssetId, AccountId, Balance> {
    asset_id: Compact<AssetId>,
    owner: AccountId,
    is_sufficient: bool,
    min_balance: Compact<Balance>,
    name: Vec<u8>,
    symbol: Vec<u8>,
    decimals: u8,
    is_frozen: bool,
}

impl<AssetId, AccountId, Balance> AssetInfo<AssetId, AccountId, Balance> {
    pub closed spec fn spec_asset_id(self) -> Compact<AssetId> {
        self.asset_id
    }

    pub closed spec fn spec_owner(self) -> AccountId {
        self.owner
    }

    pub closed spec fn spec_is_sufficient(self) -> bool {
        self.is_sufficient
    }

    pub closed spec fn spec_min_balance(self) -> Compact<Balance> {
        self.min_balance
    }

    pub closed spec fn spec_name(self) -> Seq<u8> {
        self.name@
    }

    pub closed spec fn spec_symbol(self) -> Seq<u8> {
        self.symbol@
    }

    pub closed spec fn spec_decimals(self) -> u8 {
        self.decimals
    }

    pub closed spec fn spec_is_frozen(self) -> bool {
        self.is_frozen
    }

    /// Each accessor reads the field of its own name: the name is the `name`
    /// field, the symbol the `symbol` field, and so on, so that what `new`
    /// states of the accessors it states of the fields.
    proof fn lemma_accessors_read_own_fields(self)
        ensures
            self.spec_asset_id() == self.asset_id,
            self.spec_owner() == self.owner,
            self.spec_is_sufficient() == self.is_sufficient,
            self.spec_min_balance() == self.min_balance,
            self.spec_name() == self.name@,
            self.spec_symbol() == self.symbol@,
            self.spec_decimals() == self.decimals,
            self.spec_is_frozen() == self.is_frozen,
    {
    }

    pub fn new(
        asset_id: Compact<AssetId>,
        owner: AccountId,
        is_sufficient: bool,
        min_balance: Compact<Balance>,
        name: Vec<u8>,
        symbol: Vec<u8>,
        decimals: u8,
        is_frozen: bool,
    ) -> (r: Self)
        ensures
            r.spec_asset_id() == asset_id,
            r.spec_owner() == owner,
            r.spec_is_sufficient() == is_sufficient,
            r.spec_min_balance() == min_balance,
            r.spec_name() == name@,
            r.spec_symbol() == symbol@,
            r.spec_decimals() == decimals,
            r.spec_is_frozen() == is_frozen,
    {
        let ghost name_bytes = name@;
        let ghost symbol_bytes = symbol@;
        let r = Self { asset_id, owner, is_sufficient, min_balance, name, symbol, decimals, is_frozen };
        proof {
            r.lemma_accessors_read_own_fields();
            assert(r.name@ == name_bytes && r.symbol@ == symbol_bytes);
        }
        r
    }
}

} // verus!
