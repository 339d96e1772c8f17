use onchain_programs::account::AccountInput;
use onchain_programs::ata::create_idempotent::{
    self, collect_extensions, try_process_instruction, CreateOutcome,
};
use onchain_programs::ata::recover::{self, RecoverPlan};
use onchain_programs::ata::token::AccountExtension;
use onchain_programs::error::{error_from_code, ProgramError};

const PROGRAM_ID: [u8; 32] = [1u8; 32];
const SYSTEM_PROGRAM: [u8; 32] = [0u8; 32];

fn spl_token() -> [u8; 32] {
    pinocchio_token::ID.to_bytes()
}

fn token_2022() -> [u8; 32] {
    pinocchio_token_2022::ID.to_bytes()
}

fn derive(wallet: &[u8; 32], mint: &[u8; 32], token_program: &[u8; 32]) -> ([u8; 32], u8) {
    let (a, b) = solana_address::Address::derive_program_address(
        &[wallet.as_ref(), mint.as_ref(), token_program.as_ref()],
        &solana_address::Address::new_from_array(PROGRAM_ID),
    )
    .unwrap();
    (a.to_bytes(), b)
}

fn derive_ata(wallet: &[u8; 32], mint: &[u8; 32], token_program: &[u8; 32]) -> [u8; 32] {
    derive(wallet, mint, token_program).0
}

fn unique(n: u8) -> [u8; 32] {
    let mut k = [0u8; 32];
    k[0] = 200;
    k[31] = n;
    k
}

fn account(key: [u8; 32], is_signer: bool, owner: [u8; 32], data: Vec<u8>) -> AccountInput {
    AccountInput { key, is_signer, owner, lamports: 2_039_280, data }
}

/// An initialized 82-byte mint with 9 decimals.
fn mint_data() -> Vec<u8> {
    let mut d = vec![0u8; 82];
    d[36..44].copy_from_slice(&1_000_000u64.to_le_bytes());
    d[44] = 9;
    d[45] = 1;
    d
}

/// An initialized 165-byte token account.
fn token_account_data(mint: [u8; 32], owner: [u8; 32], amount: u64) -> Vec<u8> {
    let mut d = vec![0u8; 165];
    d[0..32].copy_from_slice(&mint);
    d[32..64].copy_from_slice(&owner);
    d[64..72].copy_from_slice(&amount.to_le_bytes());
    d[108] = 1;
    d
}

fn create_accounts(
    ata: AccountInput,
    wallet: [u8; 32],
    mint: AccountInput,
    token_program: [u8; 32],
) -> Vec<AccountInput> {
    vec![
        account(unique(1), true, SYSTEM_PROGRAM, vec![]),
        ata,
        account(wallet, false, SYSTEM_PROGRAM, vec![]),
        mint,
        account(SYSTEM_PROGRAM, false, SYSTEM_PROGRAM, vec![]),
        account(token_program, false, SYSTEM_PROGRAM, vec![]),
    ]
}

fn run_create(accounts: &[AccountInput]) -> Result<CreateOutcome, ProgramError> {
    create_idempotent::process_instruction(&PROGRAM_ID, accounts, &[])
}

#[test]
fn test_create_new_ata_spl_token() {
    let token_program = spl_token();
    let wallet = unique(2);
    let mint = unique(3);
    let (ata, bump) = derive(&wallet, &mint, &token_program);
    let accounts = create_accounts(
        account(ata, false, SYSTEM_PROGRAM, vec![]),
        wallet,
        account(mint, false, token_program, mint_data()),
        token_program,
    );
    let r = run_create(&accounts);
    assert_eq!(r, Ok(CreateOutcome::Create { bump, account_len: 165, is_spl_token: true }));
}

#[test]
fn test_create_new_ata_token2022() {
    let token_program = token_2022();
    let wallet = unique(2);
    let mint = unique(3);
    let (ata, bump) = derive(&wallet, &mint, &token_program);
    let accounts = create_accounts(
        account(ata, false, SYSTEM_PROGRAM, vec![]),
        wallet,
        account(mint, false, token_program, mint_data()),
        token_program,
    );
    let r = run_create(&accounts);
    assert_eq!(r, Ok(CreateOutcome::Create { bump, account_len: 170, is_spl_token: false }));
    if let Ok(CreateOutcome::Create { account_len, .. }) = r {
        assert!(account_len > 165);
    }
}

#[test]
fn test_idempotent_existing_ata() {
    let token_program = spl_token();
    let wallet = unique(2);
    let mint = unique(3);
    let ata = derive_ata(&wallet, &mint, &token_program);
    let accounts = create_accounts(
        account(ata, false, token_program, token_account_data(mint, wallet, 0)),
        wallet,
        account(mint, false, token_program, mint_data()),
        token_program,
    );
    assert_eq!(run_create(&accounts), Ok(CreateOutcome::AlreadyExists));
}

#[test]
fn test_idempotent_existing_ata_token2022() {
    let token_program = token_2022();
    let wallet = unique(2);
    let mint = unique(3);
    let ata = derive_ata(&wallet, &mint, &token_program);
    let mut data = vec![0u8; 170];
    data[..165].copy_from_slice(&token_account_data(mint, wallet, 0));
    data[165] = 2;
    data[166] = 7;
    data[167] = 0;
    data[168] = 0;
    data[169] = 0;
    let accounts = create_accounts(
        account(ata, false, token_program, data),
        wallet,
        account(mint, false, token_program, mint_data()),
        token_program,
    );
    assert_eq!(run_create(&accounts), Ok(CreateOutcome::AlreadyExists));
}

#[test]
fn test_wrong_ata_address_fails() {
    let token_program = spl_token();
    let wallet = unique(2);
    let mint = unique(3);
    let accounts = create_accounts(
        account(unique(9), false, SYSTEM_PROGRAM, vec![]),
        wallet,
        account(mint, false, token_program, mint_data()),
        token_program,
    );
    assert_eq!(run_create(&accounts), Err(ProgramError::InvalidSeeds));
}

#[test]
fn test_existing_ata_wrong_owner_fails() {
    let token_program = spl_token();
    let wallet = unique(2);
    let mint = unique(3);
    let ata = derive_ata(&wallet, &mint, &token_program);
    let accounts = create_accounts(
        account(ata, false, token_program, token_account_data(mint, unique(8), 0)),
        wallet,
        account(mint, false, token_program, mint_data()),
        token_program,
    );
    assert_eq!(run_create(&accounts), Err(ProgramError::IllegalOwner));
}

#[test]
fn test_existing_ata_wrong_mint_fails() {
    let token_program = spl_token();
    let wallet = unique(2);
    let mint = unique(3);
    let ata = derive_ata(&wallet, &mint, &token_program);
    let accounts = create_accounts(
        account(ata, false, token_program, token_account_data(unique(7), wallet, 0)),
        wallet,
        account(mint, false, token_program, mint_data()),
        token_program,
    );
    assert_eq!(run_create(&accounts), Err(ProgramError::InvalidAccountData));
}

/// Mint data whose TLV entries (of the given types and value lengths)
/// start right after the 82 base bytes and one type byte, where the
/// program reads them.
fn extended_mint(entries: &[(u16, u16)]) -> Vec<u8> {
    let mut d = mint_data();
    d.push(1);
    for (t, l) in entries {
        d.extend_from_slice(&t.to_le_bytes());
        d.extend_from_slice(&l.to_le_bytes());
        d.extend(std::iter::repeat(0u8).take(*l as usize));
    }
    d
}

#[test]
fn test_collect_extensions_from_mint_entries() {
    let d = extended_mint(&[(1, 108), (3, 34), (14, 64), (9, 0)]);
    let exts = collect_extensions(&d);
    assert_eq!(
        exts,
        vec![
            AccountExtension::ImmutableOwner,
            AccountExtension::TransferFeeAmount,
            AccountExtension::TransferHookAccount,
            AccountExtension::NonTransferableAccount,
        ]
    );
    let stop = extended_mint(&[(26, 0), (0, 0), (1, 108)]);
    assert_eq!(
        collect_extensions(&stop),
        vec![AccountExtension::ImmutableOwner, AccountExtension::PausableAccount]
    );
    let high = extended_mint(&[(29, 0), (1, 108)]);
    assert_eq!(collect_extensions(&high), vec![AccountExtension::ImmutableOwner]);
}

#[test]
fn test_padded_mint_has_no_entries_where_read() {
    let mut d = mint_data();
    d.resize(165, 0);
    d.push(1);
    d.extend_from_slice(&1u16.to_le_bytes());
    d.extend_from_slice(&108u16.to_le_bytes());
    d.extend(std::iter::repeat(0u8).take(108));
    assert_eq!(collect_extensions(&d), vec![AccountExtension::ImmutableOwner]);
}

#[test]
fn test_create_token2022_with_mint_extensions() {
    let token_program = token_2022();
    let wallet = unique(2);
    let mint = unique(3);
    let (ata, bump) = derive(&wallet, &mint, &token_program);
    let mut accounts = create_accounts(
        account(ata, false, SYSTEM_PROGRAM, vec![]),
        wallet,
        account(mint, false, token_program, extended_mint(&[(1, 108), (14, 64)])),
        token_program,
    );
    // 165 + 1 + (4 + 0) immutable owner + (4 + 8) fee amount + (4 + 1) hook account
    assert_eq!(
        run_create(&accounts),
        Ok(CreateOutcome::Create { bump, account_len: 187, is_spl_token: false })
    );
    accounts[3].data = extended_mint(&[(1, 108), (1, 108)]);
    assert_eq!(run_create(&accounts), Err(ProgramError::InvalidInstructionData));
    accounts[3].data = extended_mint(&[(3, 34)]);
    assert_eq!(
        run_create(&accounts),
        Ok(CreateOutcome::Create { bump, account_len: 170, is_spl_token: false })
    );
}

#[test]
fn test_create_other_errors() {
    let token_program = spl_token();
    let wallet = unique(2);
    let mint = unique(3);
    let ata = derive_ata(&wallet, &mint, &token_program);
    let mut accounts = create_accounts(
        account(ata, false, unique(6), vec![]),
        wallet,
        account(mint, false, token_program, mint_data()),
        token_program,
    );
    assert_eq!(run_create(&accounts), Err(ProgramError::IllegalOwner));
    accounts[1].owner = token_program;
    accounts[1].data = vec![0u8; 100];
    assert_eq!(run_create(&accounts), Err(ProgramError::IllegalOwner));
    accounts.truncate(5);
    assert_eq!(run_create(&accounts), Err(ProgramError::NotEnoughAccountKeys));
}

#[test]
fn test_try_process_instruction_bounds_extensions() {
    let token_program = token_2022();
    let wallet = unique(2);
    let mint = unique(3);
    let (ata, bump) = derive(&wallet, &mint, &token_program);
    let many: Vec<(u16, u16)> = (0..8).map(|_| (9u16, 0u16)).collect();
    let mut accounts = create_accounts(
        account(ata, false, SYSTEM_PROGRAM, vec![]),
        wallet,
        account(mint, false, token_program, extended_mint(&many)),
        token_program,
    );
    assert_eq!(try_process_instruction(&PROGRAM_ID, &accounts, &[]), None);
    let seven: Vec<(u16, u16)> = (0..7).map(|_| (9u16, 0u16)).collect();
    accounts[3].data = extended_mint(&seven);
    assert_eq!(
        try_process_instruction(&PROGRAM_ID, &accounts, &[]),
        Some(Err(ProgramError::InvalidInstructionData))
    );
    accounts[3].data = mint_data();
    assert_eq!(
        try_process_instruction(&PROGRAM_ID, &accounts, &[]),
        Some(Ok(CreateOutcome::Create { bump, account_len: 170, is_spl_token: false }))
    );
    // An account that already exists is answered without the mint's entries.
    accounts[1].owner = token_program;
    accounts[1].data = token_account_data(mint, wallet, 5);
    accounts[3].data = extended_mint(&many);
    assert_eq!(
        try_process_instruction(&PROGRAM_ID, &accounts, &[]),
        Some(Ok(CreateOutcome::AlreadyExists))
    );
}

struct RecoverSetup {
    accounts: Vec<AccountInput>,
    bump: u8,
}

fn setup_recover(owner_tp: [u8; 32], nested_tp: [u8; 32]) -> RecoverSetup {
    let wallet = unique(20);
    let owner_mint = unique(21);
    let nested_mint = unique(22);
    let (owner_ata, bump) = derive(&wallet, &owner_mint, &owner_tp);
    let nested_ata = derive_ata(&owner_ata, &nested_mint, &nested_tp);
    let destination = derive_ata(&wallet, &nested_mint, &nested_tp);
    let mut accounts = vec![
        account(nested_ata, false, nested_tp, token_account_data(nested_mint, owner_ata, 100)),
        account(nested_mint, false, nested_tp, mint_data()),
        account(destination, false, nested_tp, token_account_data(nested_mint, wallet, 0)),
        account(owner_ata, false, owner_tp, token_account_data(owner_mint, wallet, 0)),
        account(owner_mint, false, owner_tp, mint_data()),
        account(wallet, true, SYSTEM_PROGRAM, vec![]),
        account(owner_tp, false, SYSTEM_PROGRAM, vec![]),
    ];
    if nested_tp != owner_tp {
        accounts.push(account(nested_tp, false, SYSTEM_PROGRAM, vec![]));
    }
    RecoverSetup { accounts, bump }
}

fn run_recover(accounts: &[AccountInput]) -> Result<RecoverPlan, ProgramError> {
    recover::process_instruction(&PROGRAM_ID, accounts, &[])
}

fn expect_recovered(owner_tp: [u8; 32], nested_tp: [u8; 32]) {
    let s = setup_recover(owner_tp, nested_tp);
    let nested_program = if owner_tp == nested_tp { 6 } else { 7 };
    assert_eq!(
        run_recover(&s.accounts),
        Ok(RecoverPlan {
            amount: 100,
            decimals: 9,
            bump: s.bump,
            nested_token_program: nested_program,
        })
    );
}

#[test]
fn test_success_spl_token_both() {
    expect_recovered(spl_token(), spl_token());
}

#[test]
fn test_success_token2022_both() {
    expect_recovered(token_2022(), token_2022());
}

#[test]
fn test_success_owner_spl_nested_t22() {
    expect_recovered(spl_token(), token_2022());
}

#[test]
fn test_success_owner_t22_nested_spl() {
    expect_recovered(token_2022(), spl_token());
}

#[test]
fn test_fail_wallet_not_signer() {
    let mut s = setup_recover(spl_token(), spl_token());
    s.accounts[5].is_signer = false;
    assert_eq!(run_recover(&s.accounts), Err(ProgramError::MissingRequiredSignature));
}

#[test]
fn test_fail_wrong_nested_ata_address() {
    let mut s = setup_recover(spl_token(), spl_token());
    s.accounts[0].key = unique(30);
    assert_eq!(run_recover(&s.accounts), Err(ProgramError::InvalidSeeds));
}

#[test]
fn test_fail_wrong_destination_ata_address() {
    let mut s = setup_recover(spl_token(), spl_token());
    s.accounts[2].key = unique(31);
    assert_eq!(run_recover(&s.accounts), Err(ProgramError::InvalidSeeds));
}

#[test]
fn test_fail_wrong_owner_ata_address() {
    let mut s = setup_recover(spl_token(), spl_token());
    s.accounts[3].key = unique(32);
    assert_eq!(run_recover(&s.accounts), Err(ProgramError::InvalidSeeds));
}

#[test]
fn test_fail_nested_ata_wrong_owner() {
    let mut s = setup_recover(spl_token(), spl_token());
    let nested_mint = s.accounts[1].key;
    s.accounts[0].data = token_account_data(nested_mint, unique(33), 100);
    assert_eq!(run_recover(&s.accounts), Err(ProgramError::IllegalOwner));
}

#[test]
fn test_fail_owner_ata_wrong_owner() {
    let mut s = setup_recover(spl_token(), spl_token());
    let owner_mint = s.accounts[4].key;
    s.accounts[3].data = token_account_data(owner_mint, unique(34), 0);
    assert_eq!(run_recover(&s.accounts), Err(ProgramError::IllegalOwner));
}

#[test]
fn test_fail_missing_nested_token_program() {
    let mut s = setup_recover(spl_token(), token_2022());
    s.accounts.truncate(7);
    assert_eq!(run_recover(&s.accounts), Err(ProgramError::InvalidSeeds));
}

#[test]
fn test_recover_account_checks() {
    let s = setup_recover(spl_token(), spl_token());
    let mut a = s.accounts.clone_accounts();
    a.truncate(6);
    assert_eq!(run_recover(&a), Err(ProgramError::NotEnoughAccountKeys));

    let mut a = s.accounts.clone_accounts();
    a[4].owner = token_2022();
    assert_eq!(run_recover(&a), Err(ProgramError::IllegalOwner));

    let mut a = s.accounts.clone_accounts();
    a[3].owner = token_2022();
    assert_eq!(run_recover(&a), Err(ProgramError::IllegalOwner));

    let mut a = s.accounts.clone_accounts();
    a[3].data = vec![0u8; 100];
    assert_eq!(run_recover(&a), Err(ProgramError::InvalidAccountData));

    let mut a = s.accounts.clone_accounts();
    a[0].owner = token_2022();
    assert_eq!(run_recover(&a), Err(ProgramError::IllegalOwner));

    let mut a = s.accounts.clone_accounts();
    a[0].data.push(0);
    assert_eq!(run_recover(&a), Err(ProgramError::InvalidAccountData));

    let mut a = s.accounts.clone_accounts();
    a[1].owner = token_2022();
    assert_eq!(run_recover(&a), Err(ProgramError::IllegalOwner));

    let mut a = s.accounts.clone_accounts();
    a[1].data = vec![0u8; 90];
    assert_eq!(run_recover(&a), Err(ProgramError::InvalidAccountData));

    // A token-2022 account with extensions is read the same way.
    let mut a = s.accounts.clone_accounts();
    let mut extended = a[0].data.clone();
    extended.resize(170, 0);
    extended[165] = 2;
    extended[166] = 7;
    a[0].data = extended;
    assert_eq!(run_recover(&a).map(|p| p.amount), Ok(100));
}

trait CloneAccounts {
    fn clone_accounts(&self) -> Vec<AccountInput>;
}

impl CloneAccounts for Vec<AccountInput> {
    fn clone_accounts(&self) -> Vec<AccountInput> {
        self.iter()
            .map(|a| AccountInput {
                key: a.key,
                is_signer: a.is_signer,
                owner: a.owner,
                lamports: a.lamports,
                data: a.data.clone(),
            })
            .collect()
    }
}

#[test]
fn test_create_then_again_already_exists() {
    for token_program in [spl_token(), token_2022()] {
        let wallet = unique(2);
        let mint = unique(3);
        let ata = derive_ata(&wallet, &mint, &token_program);
        let mut accounts = create_accounts(
            account(ata, false, SYSTEM_PROGRAM, vec![]),
            wallet,
            account(mint, false, token_program, mint_data()),
            token_program,
        );
        let len = match run_create(&accounts) {
            Ok(CreateOutcome::Create { account_len, .. }) => account_len as usize,
            other => panic!("expected a creation, got {:?}", other),
        };
        let mut data = vec![0u8; len];
        data[..165].copy_from_slice(&token_account_data(mint, wallet, 0));
        if len > 165 {
            data[165] = 2;
            data[166] = 7;
        }
        accounts[1].owner = token_program;
        accounts[1].data = data;
        assert_eq!(run_create(&accounts), Ok(CreateOutcome::AlreadyExists));
    }
}

#[test]
fn test_error_codes_round_trip() {
    assert_eq!(error_from_code(0x3_0000_0000), ProgramError::InvalidInstructionData);
    assert_eq!(error_from_code(0x4_0000_0000), ProgramError::InvalidAccountData);
    assert_eq!(error_from_code(0x1_0000_0000), ProgramError::Custom(0));
    assert_eq!(error_from_code(7001), ProgramError::Custom(7001));
    assert_eq!(error_from_code(0x99_0000_0005), ProgramError::Custom(5));
}
