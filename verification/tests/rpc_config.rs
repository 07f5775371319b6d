use signing_core::rpc_config::{
    EncodingConfig, RpcAccountInfoConfig, RpcConfirmedBlockConfig, RpcConfirmedBlocksConfigWrapper,
    RpcConfirmedTransactionConfig, RpcEncodingConfigWrapper, RpcEpochConfig, RpcFilterType,
    RpcGetConfirmedSignaturesForAddress2Config, RpcLargestAccountsConfig,
    RpcLargestAccountsFilter, RpcProgramAccountsConfig, RpcSendTransactionConfig,
    RpcSignatureStatusConfig, RpcSignatureSubscribeConfig, RpcSimulateTransactionConfig,
    RpcTokenAccountsFilter, RpcTransactionLogsConfig, RpcTransactionLogsFilter,
};
use solana_account_decoder::{UiAccountEncoding, UiDataSliceConfig};
use solana_sdk::commitment_config::{CommitmentConfig, CommitmentLevel};
use solana_transaction_status::{TransactionDetails, UiTransactionEncoding};

#[test]
fn rewards_only_drops_transactions() {
    let config = RpcConfirmedBlockConfig::rewards_only();
    assert_eq!(config.transaction_details, Some(TransactionDetails::None));
    assert_eq!(config.encoding, None);
    assert_eq!(config.rewards, None);
    assert_eq!(config.commitment, None);
}

#[test]
fn rewards_with_commitment_keeps_the_commitment() {
    let config = RpcConfirmedBlockConfig::rewards_with_commitment(Some(
        CommitmentConfig::confirmed(),
    ));
    assert_eq!(config.transaction_details, Some(TransactionDetails::None));
    assert_eq!(config.commitment, Some(CommitmentConfig::confirmed()));
    assert_eq!(config.encoding, None);
    assert_eq!(config.rewards, None);
    let bare = RpcConfirmedBlockConfig::rewards_with_commitment(None);
    assert_eq!(bare, RpcConfirmedBlockConfig::rewards_only());
}

#[test]
fn block_config_from_a_bare_encoding() {
    let config = RpcConfirmedBlockConfig::new_with_encoding(&Some(UiTransactionEncoding::Base64));
    assert_eq!(config.encoding, Some(UiTransactionEncoding::Base64));
    assert_eq!(config.transaction_details, None);
    assert_eq!(config.rewards, None);
    assert_eq!(config.commitment, None);
    assert_eq!(
        RpcConfirmedBlockConfig::new_with_encoding(&None),
        RpcConfirmedBlockConfig::default()
    );
}

#[test]
fn transaction_config_from_a_bare_encoding() {
    let config =
        RpcConfirmedTransactionConfig::new_with_encoding(&Some(UiTransactionEncoding::JsonParsed));
    assert_eq!(config.encoding, Some(UiTransactionEncoding::JsonParsed));
    assert_eq!(config.commitment, None);
}

#[test]
fn deprecated_argument_becomes_the_current_config() {
    let wrapper: RpcEncodingConfigWrapper<RpcConfirmedBlockConfig> =
        RpcEncodingConfigWrapper::Deprecated(Some(UiTransactionEncoding::Json));
    let config = wrapper.convert_to_current();
    assert_eq!(
        config,
        RpcConfirmedBlockConfig {
            encoding: Some(UiTransactionEncoding::Json),
            transaction_details: None,
            rewards: None,
            commitment: None,
        }
    );
    let bare: RpcEncodingConfigWrapper<RpcConfirmedTransactionConfig> =
        RpcEncodingConfigWrapper::Deprecated(None);
    assert_eq!(bare.convert_to_current(), RpcConfirmedTransactionConfig::default());
}

#[test]
fn current_argument_is_itself_or_the_default() {
    let given = RpcConfirmedBlockConfig {
        encoding: Some(UiTransactionEncoding::Base58),
        transaction_details: Some(TransactionDetails::Signatures),
        rewards: Some(false),
        commitment: Some(CommitmentConfig::finalized()),
    };
    let wrapper = RpcEncodingConfigWrapper::Current(Some(given));
    assert_eq!(wrapper.convert_to_current(), given);
    let absent: RpcEncodingConfigWrapper<RpcConfirmedBlockConfig> =
        RpcEncodingConfigWrapper::Current(None);
    assert_eq!(absent.convert_to_current(), RpcConfirmedBlockConfig::default());
}

#[test]
fn block_config_wraps_as_current() {
    let given = RpcConfirmedBlockConfig::rewards_only();
    let wrapper: RpcEncodingConfigWrapper<RpcConfirmedBlockConfig> = given.into();
    assert_eq!(wrapper, RpcEncodingConfigWrapper::Current(Some(given)));
    assert_eq!(wrapper.convert_to_current(), given);
}

#[test]
fn blocks_wrapper_unzips_to_one_side() {
    let end = RpcConfirmedBlocksConfigWrapper::EndSlotOnly(Some(42));
    assert_eq!(end.unzip(), (Some(42), None));
    let none = RpcConfirmedBlocksConfigWrapper::EndSlotOnly(None);
    assert_eq!(none.unzip(), (None, None));
    let commitment =
        RpcConfirmedBlocksConfigWrapper::CommitmentOnly(Some(CommitmentConfig::processed()));
    assert_eq!(commitment.unzip(), (None, Some(CommitmentConfig::processed())));
}

#[test]
fn defaults_choose_nothing() {
    let send = RpcSendTransactionConfig::default();
    assert!(!send.skip_preflight);
    assert_eq!(send.preflight_commitment, None);
    assert_eq!(send.encoding, None);
    let simulate = RpcSimulateTransactionConfig::default();
    assert!(!simulate.sig_verify);
    assert_eq!(simulate.commitment, None);
    assert_eq!(simulate.encoding, None);
    assert_eq!(
        RpcLargestAccountsConfig::default(),
        RpcLargestAccountsConfig { commitment: None, filter: None }
    );
    assert_eq!(RpcEpochConfig::default(), RpcEpochConfig { epoch: None, commitment: None });
    assert_eq!(
        RpcAccountInfoConfig::default(),
        RpcAccountInfoConfig { encoding: None, data_slice: None, commitment: None }
    );
    assert_eq!(
        RpcProgramAccountsConfig::default(),
        RpcProgramAccountsConfig { filters: None, account_config: RpcAccountInfoConfig::default() }
    );
    assert_eq!(
        RpcSignatureSubscribeConfig::default(),
        RpcSignatureSubscribeConfig { commitment: None, enable_received_notification: None }
    );
    assert_eq!(
        RpcGetConfirmedSignaturesForAddress2Config::default(),
        RpcGetConfirmedSignaturesForAddress2Config {
            before: None,
            until: None,
            limit: None,
            commitment: None
        }
    );
}

#[test]
fn configs_carry_what_they_are_given() {
    let status = RpcSignatureStatusConfig { search_transaction_history: true };
    assert!(status.search_transaction_history);
    let send = RpcSendTransactionConfig {
        skip_preflight: true,
        preflight_commitment: Some(CommitmentLevel::Processed),
        encoding: Some(UiTransactionEncoding::Base64),
    };
    assert_eq!(send.preflight_commitment, Some(CommitmentLevel::Processed));
    let accounts = RpcProgramAccountsConfig {
        filters: Some(vec![
            RpcFilterType::DataSize(80),
            RpcFilterType::Memcmp { offset: 4, bytes: vec![1, 2, 3] },
        ]),
        account_config: RpcAccountInfoConfig {
            encoding: Some(UiAccountEncoding::Base64),
            data_slice: Some(UiDataSliceConfig { offset: 0, length: 32 }),
            commitment: Some(CommitmentConfig::confirmed()),
        },
    };
    assert_eq!(accounts.filters.as_ref().map(|f| f.len()), Some(2));
    assert_eq!(accounts.account_config.data_slice, Some(UiDataSliceConfig { offset: 0, length: 32 }));
    let largest = RpcLargestAccountsConfig {
        commitment: None,
        filter: Some(RpcLargestAccountsFilter::NonCirculating),
    };
    assert_ne!(largest.filter, Some(RpcLargestAccountsFilter::Circulating));
    let logs = RpcTransactionLogsFilter::Mentions(vec![String::from("11111111111111111111111111111111")]);
    assert_ne!(logs, RpcTransactionLogsFilter::All);
    assert_ne!(RpcTransactionLogsFilter::AllWithVotes, RpcTransactionLogsFilter::All);
    let logs_config = RpcTransactionLogsConfig { commitment: Some(CommitmentConfig::finalized()) };
    assert_eq!(logs_config.commitment, Some(CommitmentConfig::finalized()));
    assert_ne!(
        RpcTokenAccountsFilter::Mint(String::from("a")),
        RpcTokenAccountsFilter::ProgramId(String::from("a"))
    );
}
