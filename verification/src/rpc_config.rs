//! Request configuration objects exchanged with a node at the network boundary.
//!
//! Encodings, data slices and commitment levels are values of the Solana crates
//! and are carried through unchanged; only the transaction-detail level is
//! inspected, because the rewards-only configurations name one of its variants.

use solana_account_decoder::{UiAccountEncoding, UiDataSliceConfig};
use solana_sdk::clock::{Epoch, Slot};
use solana_sdk::commitment_config::{CommitmentConfig, CommitmentLevel};
use solana_transaction_status::{TransactionDetails, UiTransactionEncoding};
use vstd::prelude::*;
use vstd::std_specs::convert::FromSpecImpl;

verus! {

/// `solana_transaction_status::UiTransactionEncoding`, carried as an opaque value.
#[verifier::external_type_specification]
#[verifier::external_body]
pub struct ExUiTransactionEncoding(UiTransactionEncoding);

/// `solana_transaction_status::TransactionDetails`: a field-less enum whose three
/// variants (`Full`, `Signatures`, `None`) are read from the crate itself.
#[verifier::external_type_specification]
pub struct ExTransactionDetails(TransactionDetails);

/// `solana_account_decoder::UiAccountEncoding`, carried as an opaque value.
#[verifier::external_type_specification]
#[verifier::external_body]
pub struct ExUiAccountEncoding(UiAccountEncoding);

/// `solana_account_decoder::UiDataSliceConfig`, carried as an opaque value.
#[verifier::external_type_specification]
#[verifier::external_body]
pub struct ExUiDataSliceConfig(UiDataSliceConfig);

/// `solana_sdk::commitment_config::CommitmentConfig`, carried as an opaque value.
#[verifier::external_type_specification]
#[verifier::external_body]
pub struct ExCommitmentConfig(CommitmentConfig);

/// `solana_sdk::commitment_config::CommitmentLevel`, carried as an opaque value.
#[verifier::external_type_specification]
#[verifier::external_body]
pub struct ExCommitmentLevel(CommitmentLevel);

/// Options of a signature-status query.
#[derive(Debug, Clone, PartialEq)]
pub struct RpcSignatureStatusConfig {
    pub search_transaction_history: bool,
}

/// Options of a send-transaction request.
#[derive(Debug, Clone, Copy, PartialEq)]
pub struct RpcSendTransactionConfig {
    pub skip_preflight: bool,
    pub preflight_commitment: Option<CommitmentLevel>,
    pub encoding: Option<UiTransactionEncoding>,
}

impl Default for RpcSendTransactionConfig {
    fn default() -> (r: Self)
        ensures
            !r.skip_preflight,
            r.preflight_commitment is None,
            r.encoding is None,
    {
        Self { skip_preflight: false, preflight_commitment: None, encoding: None }
    }
}

/// Options of a simulate-transaction request.
#[derive(Debug, Clone, PartialEq)]
pub struct RpcSimulateTransactionConfig {
    pub sig_verify: bool,
    pub commitment: Option<CommitmentConfig>,
    pub encoding: Option<UiTransactionEncoding>,
}

impl Default for RpcSimulateTransactionConfig {
    fn default() -> (r: Self)
        ensures
            !r.sig_verify,
            r.commitment is None,
            r.encoding is None,
    {
        Self { sig_verify: false, commitment: None, encoding: None }
    }
}

/// Which accounts a largest-accounts query ranks.
#[derive(Debug, Clone, PartialEq, Eq, Hash)]
pub enum RpcLargestAccountsFilter {
    Circulating,
    NonCirculating,
}

/// Options of a largest-accounts query.
#[derive(Debug, Clone, PartialEq)]
pub struct RpcLargestAccountsConfig {
    pub commitment: Option<CommitmentConfig>,
    pub filter: Option<RpcLargestAccountsFilter>,
}

impl Default for RpcLargestAccountsConfig {
    fn default() -> (r: Self)
        ensures
            r.commitment is None,
            r.filter is None,
    {
        Self { commitment: None, filter: None }
    }
}

/// Options of an epoch query.
#[derive(Debug, Clone, PartialEq)]
pub struct RpcEpochConfig {
    pub epoch: Option<Epoch>,
    pub commitment: Option<CommitmentConfig>,
}

impl Default for RpcEpochConfig {
    fn default() -> (r: Self)
        ensures
            r.epoch is None,
            r.commitment is None,
    {
        Self { epoch: None, commitment: None }
    }
}

/// Options of an account-info query.
#[derive(Debug, Clone, PartialEq)]
pub struct RpcAccountInfoConfig {
    pub encoding: Option<UiAccountEncoding>,
    pub data_slice: Option<UiDataSliceConfig>,
    pub commitment: Option<CommitmentConfig>,
}

impl Default for RpcAccountInfoConfig {
    fn default() -> (r: Self)
        ensures
            r.encoding is None,
            r.data_slice is None,
            r.commitment is None,
    {
        Self { encoding: None, data_slice: None, commitment: None }
    }
}

/// A predicate that a program-accounts query applies to each account's data.
#[derive(Debug, Clone, PartialEq)]
pub enum RpcFilterType {
    /// The data has exactly this many bytes.
    DataSize(u64),
    /// The data holds `bytes` at `offset`.
    Memcmp { offset: usize, bytes: Vec<u8> },
}

/// Options of a program-accounts query.
#[derive(Debug, Clone, PartialEq)]
pub struct RpcProgramAccountsConfig {
    pub filters: Option<Vec<RpcFilterType>>,
    pub account_config: RpcAccountInfoConfig,
}

impl Default for RpcProgramAccountsConfig {
    fn default() -> (r: Self)
        ensures
            r.filters is None,
            r.account_config.encoding is None,
            r.account_config.data_slice is None,
            r.account_config.commitment is None,
    {
        Self { filters: None, account_config: RpcAccountInfoConfig::default() }
    }
}

/// Which transactions a log subscription reports.
#[derive(Debug, Clone, PartialEq)]
pub enum RpcTransactionLogsFilter {
    All,
    AllWithVotes,
    /// Base58 addresses that a reported transaction must mention.
    Mentions(Vec<String>),
}

/// Options of a log subscription.
#[derive(Debug, Clone, PartialEq)]
pub struct RpcTransactionLogsConfig {
    pub commitment: Option<CommitmentConfig>,
}

/// Which token accounts a token-accounts query selects; the address is base58.
#[derive(Debug, Clone, PartialEq)]
pub enum RpcTokenAccountsFilter {
    Mint(String),
    ProgramId(String),
}

/// Options of a signature subscription.
#[derive(Debug, Clone, PartialEq)]
pub struct RpcSignatureSubscribeConfig {
    pub commitment: Option<CommitmentConfig>,
    pub enable_received_notification: Option<bool>,
}

impl Default for RpcSignatureSubscribeConfig {
    fn default() -> (r: Self)
        ensures
            r.commitment is None,
            r.enable_received_notification is None,
    {
        Self { commitment: None, enable_received_notification: None }
    }
}

/// Options of a signatures-for-address query; `before` and `until` are base58
/// signatures.
#[derive(Debug, Clone, PartialEq)]
pub struct RpcGetConfirmedSignaturesForAddress2Config {
    pub before: Option<String>,
    pub until: Option<String>,
    pub limit: Option<usize>,
    pub commitment: Option<CommitmentConfig>,
}

impl Default for RpcGetConfirmedSignaturesForAddress2Config {
    fn default() -> (r: Self)
        ensures
            r.before is None,
            r.until is None,
            r.limit is None,
            r.commitment is None,
    {
        Self { before: None, until: None, limit: None, commitment: None }
    }
}

/// A configuration that can be made from a bare encoding argument.
pub trait EncodingConfig: Sized {
    /// The configuration that a bare encoding argument stands for.
    spec fn with_encoding(encoding: Option<UiTransactionEncoding>) -> Self;

    /// Makes the configuration that a bare encoding argument stands for.
    fn new_with_encoding(encoding: &Option<UiTransactionEncoding>) -> (r: Self)
        ensures
            r == Self::with_encoding(*encoding),
    ;
}

/// An argument that older callers send as a bare encoding and newer callers as a
/// structured configuration.
#[derive(Debug, Clone, PartialEq)]
pub enum RpcEncodingConfigWrapper<T> {
    Deprecated(Option<UiTransactionEncoding>),
    Current(Option<T>),
}

impl<T: EncodingConfig + Default + Copy> RpcEncodingConfigWrapper<T> {
    /// The current configuration that either form of the argument stands for: a
    /// bare encoding becomes the configuration made from it, a present
    /// configuration is itself, and an absent one is the default.
    pub fn convert_to_current(&self) -> (r: T)
        ensures
            self matches RpcEncodingConfigWrapper::Deprecated(encoding) ==> r
                == T::with_encoding(*encoding),
            self matches RpcEncodingConfigWrapper::Current(Some(config)) ==> r == *config,
            self matches RpcEncodingConfigWrapper::Current(None) ==> T::default.ensures((), r),
    {
        match self {
            RpcEncodingConfigWrapper::Deprecated(encoding) => T::new_with_encoding(encoding),
            RpcEncodingConfigWrapper::Current(config) => config.unwrap_or_default(),
        }
    }
}

/// Options of a confirmed-block query.
#[derive(Debug, Clone, Copy, PartialEq)]
pub struct RpcConfirmedBlockConfig {
    pub encoding: Option<UiTransactionEncoding>,
    pub transaction_details: Option<TransactionDetails>,
    pub rewards: Option<bool>,
    pub commitment: Option<CommitmentConfig>,
}

impl RpcConfirmedBlockConfig {
    /// The configuration in which nothing is chosen.
    pub open spec fn unset() -> Self {
        RpcConfirmedBlockConfig {
            encoding: None,
            transaction_details: None,
            rewards: None,
            commitment: None,
        }
    }

    /// A configuration that asks for a block's rewards without its transactions.
    pub fn rewards_only() -> (r: Self)
        ensures
            r == (RpcConfirmedBlockConfig {
                transaction_details: Some(TransactionDetails::None),
                ..Self::unset()
            }),
    {
        Self {
            encoding: None,
            transaction_details: Some(TransactionDetails::None),
            rewards: None,
            commitment: None,
        }
    }

    /// As `rewards_only`, at the given commitment.
    pub fn rewards_with_commitment(commitment: Option<CommitmentConfig>) -> (r: Self)
        ensures
            r == (RpcConfirmedBlockConfig {
                transaction_details: Some(TransactionDetails::None),
                commitment,
                ..Self::unset()
            }),
    {
        Self {
            encoding: None,
            transaction_details: Some(TransactionDetails::None),
            rewards: None,
            commitment,
        }
    }
}

impl Default for RpcConfirmedBlockConfig {
    fn default() -> (r: Self)
        ensures
            r == Self::unset(),
    {
        Self { encoding: None, transaction_details: None, rewards: None, commitment: None }
    }
}

impl EncodingConfig for RpcConfirmedBlockConfig {
    open spec fn with_encoding(encoding: Option<UiTransactionEncoding>) -> Self {
        RpcConfirmedBlockConfig { encoding, ..Self::unset() }
    }

    fn new_with_encoding(encoding: &Option<UiTransactionEncoding>) -> (r: Self) {
        Self { encoding: *encoding, transaction_details: None, rewards: None, commitment: None }
    }
}

impl From<RpcConfirmedBlockConfig> for RpcEncodingConfigWrapper<RpcConfirmedBlockConfig> {
    fn from(config: RpcConfirmedBlockConfig) -> (r: Self) {
        RpcEncodingConfigWrapper::Current(Some(config))
    }
}

impl FromSpecImpl<RpcConfirmedBlockConfig> for RpcEncodingConfigWrapper<RpcConfirmedBlockConfig> {
    open spec fn obeys_from_spec() -> bool {
        true
    }

    open spec fn from_spec(config: RpcConfirmedBlockConfig) -> Self {
        RpcEncodingConfigWrapper::Current(Some(config))
    }
}

/// Options of a confirmed-transaction query.
#[derive(Debug, Clone, Copy, PartialEq)]
pub struct RpcConfirmedTransactionConfig {
    pub encoding: Option<UiTransactionEncoding>,
    pub commitment: Option<CommitmentConfig>,
}

impl RpcConfirmedTransactionConfig {
    /// The configuration in which nothing is chosen.
    pub open spec fn unset() -> Self {
        RpcConfirmedTransactionConfig { encoding: None, commitment: None }
    }
}

impl Default for RpcConfirmedTransactionConfig {
    fn default() -> (r: Self)
        ensures
            r == Self::unset(),
    {
        Self { encoding: None, commitment: None }
    }
}

impl EncodingConfig for RpcConfirmedTransactionConfig {
    open spec fn with_encoding(encoding: Option<UiTransactionEncoding>) -> Self {
        RpcConfirmedTransactionConfig { encoding, ..Self::unset() }
    }

    fn new_with_encoding(encoding: &Option<UiTransactionEncoding>) -> (r: Self) {
        Self { encoding: *encoding, commitment: None }
    }
}

/// The second argument of a confirmed-blocks query: older callers send an end
/// slot there, newer ones a commitment.
#[derive(Debug, Clone, PartialEq)]
pub enum RpcConfirmedBlocksConfigWrapper {
    EndSlotOnly(Option<Slot>),
    CommitmentOnly(Option<CommitmentConfig>),
}

impl RpcConfirmedBlocksConfigWrapper {
    /// The end slot and the commitment that the argument carries; the one that
    /// this form of the argument cannot carry is absent.
    pub fn unzip(&self) -> (r: (Option<Slot>, Option<CommitmentConfig>))
        ensures
            self matches RpcConfirmedBlocksConfigWrapper::EndSlotOnly(end_slot) ==> r == (
                *end_slot,
                None::<CommitmentConfig>,
            ),
            self matches RpcConfirmedBlocksConfigWrapper::CommitmentOnly(commitment) ==> r == (
                None::<Slot>,
                *commitment,
            ),
    {
        match self {
            RpcConfirmedBlocksConfigWrapper::EndSlotOnly(end_slot) => (*end_slot, None),
            RpcConfirmedBlocksConfigWrapper::CommitmentOnly(commitment) => (None, *commitment),
        }
    }
}

} // verus!
