//! Configuration types for InfraBlockspace parachains: the `ChargeSystemToken`
//! signed extension, the `SystemTokenId` it names, and the asset description
//! record, together with their SCALE encodings.

pub mod compact;
pub mod config;

pub use config::common::{
    AccountId32, AssetId, ChargeSystemToken, PalletId, ParaId, StringLimit, SystemTokenId,
    VoteAccountId,
};
pub use config::para::{AssetInfo, ParaConfig, H256, U256};
