use onchain_programs::account::AccountInput;
use onchain_programs::error::ProgramError;
use onchain_programs::escrow::circuit_breaker::{
    process_init, process_pause, process_update, try_process_init, verify_auth, read_u64_cb,
    write_u64_cb, write_i64_cb, write_initial_breaker, CbInitPlan,
};
use onchain_programs::escrow::entry::{decode_instruction, EscrowInstruction};
use onchain_programs::escrow::make::{self, write_escrow, MakePlan};
use onchain_programs::escrow::refund::{self, RefundPlan};
use onchain_programs::escrow::state::{CircuitBreaker, CircuitBreakerConfig, Escrow, WindowState};
use onchain_programs::escrow::take::{
    self, check_and_update_window, read_i64_escrow, read_u64_escrow,
};

const PROGRAM_ID: [u8; 32] = [9u8; 32];

fn pda(seeds: &[&[u8]]) -> ([u8; 32], u8) {
    let (a, b) = solana_address::Address::find_program_address(
        seeds,
        &solana_address::Address::new_from_array(PROGRAM_ID),
    );
    (a.to_bytes(), b)
}

fn acct(key: [u8; 32], is_signer: bool, data: Vec<u8>) -> AccountInput {
    AccountInput { key, is_signer, owner: PROGRAM_ID, lamports: 1_000_000, data }
}

fn le(v: u64) -> [u8; 8] {
    v.to_le_bytes()
}

fn u64_at(d: &[u8], off: usize) -> u64 {
    let mut b = [0u8; 8];
    b.copy_from_slice(&d[off..off + 8]);
    u64::from_le_bytes(b)
}

fn i64_at(d: &[u8], off: usize) -> i64 {
    let mut b = [0u8; 8];
    b.copy_from_slice(&d[off..off + 8]);
    i64::from_le_bytes(b)
}

fn init_data(window: u64, ttype: u8, threshold: u64) -> Vec<u8> {
    let mut d = vec![3u8];
    d.extend_from_slice(&le(window));
    d.push(ttype);
    d.extend_from_slice(&le(threshold));
    d
}

/// Runs the init instruction for `authority` and returns the breaker data.
fn init_cb(authority: [u8; 32], window: u64, ttype: u8, threshold: u64) -> Vec<u8> {
    let (cb_key, _) = pda(&[b"circuit-breaker", &authority]);
    let accounts = vec![
        acct(authority, true, vec![]),
        acct(cb_key, false, vec![]),
        acct([0u8; 32], false, vec![]),
    ];
    let plan = process_init(&PROGRAM_ID, &accounts, &init_data(window, ttype, threshold)).unwrap();
    let mut data = vec![0u8; plan.space as usize];
    write_initial_breaker(&mut data, &authority, &plan);
    data
}

fn escrow_data(maker: [u8; 32], mint_a: [u8; 32], mint_b: [u8; 32], amount: u64, expiry: i64, bump: u8) -> Vec<u8> {
    let mut d = Vec::new();
    d.extend_from_slice(&maker);
    d.extend_from_slice(&mint_a);
    d.extend_from_slice(&mint_b);
    d.extend_from_slice(&amount.to_le_bytes());
    d.extend_from_slice(&expiry.to_le_bytes());
    d.push(bump);
    d
}

fn make_accounts(maker: [u8; 32], cb_data: Vec<u8>) -> Vec<AccountInput> {
    let (escrow_key, _) = pda(&[b"escrow", &maker]);
    let (cb_key, _) = pda(&[b"circuit-breaker", &maker]);
    vec![
        acct(maker, true, vec![]),
        acct([11u8; 32], false, vec![]),
        acct([12u8; 32], false, vec![]),
        acct([13u8; 32], false, vec![0u8; 165]),
        acct([14u8; 32], false, vec![0u8; 165]),
        acct(escrow_key, false, vec![]),
        acct(cb_key, false, cb_data),
        acct([0u8; 32], false, vec![]),
        acct([15u8; 32], false, vec![]),
    ]
}

fn make_ix(amount: u64) -> Vec<u8> {
    let mut d = vec![0u8];
    d.extend_from_slice(&le(amount));
    d.extend_from_slice(&i64::MAX.to_le_bytes());
    d
}

fn take_accounts(maker: [u8; 32], escrow: Vec<u8>, cb_data: Vec<u8>) -> Vec<AccountInput> {
    let (escrow_key, _) = pda(&[b"escrow", &maker]);
    let (cb_key, _) = pda(&[b"circuit-breaker", &maker]);
    vec![
        acct([20u8; 32], true, vec![]),
        acct(maker, false, vec![]),
        acct([11u8; 32], false, vec![]),
        acct([12u8; 32], false, vec![]),
        acct([16u8; 32], false, vec![]),
        acct([17u8; 32], false, vec![]),
        acct([18u8; 32], false, vec![]),
        acct([14u8; 32], false, vec![]),
        acct(escrow_key, false, escrow),
        acct(cb_key, false, cb_data),
        acct([15u8; 32], false, vec![]),
    ]
}

#[test]
fn test_escrow_layout() {
    assert_eq!(Escrow::LEN, 113);
    assert_eq!(Escrow::OFFSET_MAKER, 0);
    assert_eq!(Escrow::OFFSET_MINT_A, 32);
    assert_eq!(Escrow::OFFSET_MINT_B, 64);
    assert_eq!(Escrow::OFFSET_AMOUNT, 96);
    assert_eq!(Escrow::OFFSET_EXPIRY, 104);
    assert_eq!(Escrow::OFFSET_BUMP, 112);
}

#[test]
fn test_cb_layout() {
    assert_eq!(CircuitBreaker::LEN, 67);
    assert_eq!(CircuitBreaker::OFFSET_AUTHORITY, 0);
    assert_eq!(CircuitBreaker::OFFSET_PAUSED, 32);
    assert_eq!(CircuitBreaker::OFFSET_WINDOW_SEC, 33);
    assert_eq!(CircuitBreaker::OFFSET_THRESHOLD_TYPE, 41);
    assert_eq!(CircuitBreaker::OFFSET_THRESHOLD, 42);
    assert_eq!(CircuitBreaker::OFFSET_LAST_VALUE, 50);
    assert_eq!(CircuitBreaker::OFFSET_LAST_TS, 58);
    assert_eq!(CircuitBreaker::OFFSET_BUMP, 66);
}

#[test]
fn test_init_circuit_breaker() {
    let authority = [1u8; 32];
    let (cb_key, bump) = pda(&[b"circuit-breaker", &authority]);
    let accounts = vec![
        acct(authority, true, vec![]),
        acct(cb_key, false, vec![]),
        acct([0u8; 32], false, vec![]),
    ];
    let plan = process_init(&PROGRAM_ID, &accounts, &init_data(60, 1, 1_000_000)).unwrap();
    assert!(plan == CbInitPlan { window_sec: 60, threshold_type: 1, threshold: 1_000_000, bump, lamports: 1_000_000, space: 67 });
    let mut cb_data = vec![0u8; 67];
    write_initial_breaker(&mut cb_data, &authority, &plan);
    assert_eq!(cb_data[32], 0, "Should start unpaused");
    assert_eq!(&cb_data[0..32], &authority);
    assert_eq!(u64_at(&cb_data, 33), 60);
    assert_eq!(cb_data[41], 1);
    assert_eq!(u64_at(&cb_data, 42), 1_000_000);
    assert_eq!(u64_at(&cb_data, 50), 0);
    assert_eq!(i64_at(&cb_data, 58), 0);
    assert_eq!(cb_data[66], bump);
}

#[test]
fn test_init_defaults_and_errors() {
    let authority = [1u8; 32];
    let (cb_key, _) = pda(&[b"circuit-breaker", &authority]);
    let accounts = vec![
        acct(authority, true, vec![]),
        acct(cb_key, false, vec![]),
        acct([0u8; 32], false, vec![]),
    ];
    let plan = process_init(&PROGRAM_ID, &accounts, &[3u8]).unwrap();
    assert_eq!((plan.window_sec, plan.threshold_type, plan.threshold), (60, 1, 1_000_000));
    let plan = process_init(&PROGRAM_ID, &accounts, &[3u8, 5, 0, 0, 0, 0, 0, 0, 0, 0]).unwrap();
    assert_eq!((plan.window_sec, plan.threshold_type, plan.threshold), (5, 0, 1_000_000));
    assert!(process_init(&PROGRAM_ID, &accounts[..2], &[3u8]) == Err(ProgramError::NotEnoughAccountKeys));
    let unsigned = vec![acct(authority, false, vec![]), acct(cb_key, false, vec![]), acct([0u8; 32], false, vec![])];
    assert!(process_init(&PROGRAM_ID, &unsigned, &[3u8]) == Err(ProgramError::MissingRequiredSignature));
    let wrong = vec![acct(authority, true, vec![]), acct([5u8; 32], false, vec![]), acct([0u8; 32], false, vec![])];
    assert!(process_init(&PROGRAM_ID, &wrong, &[3u8]) == Err(ProgramError::Custom(6003)));
    assert!(try_process_init(&PROGRAM_ID, &wrong, &[3u8]) == Some(Err(ProgramError::Custom(6003))));
    let (_, bump) = pda(&[b"circuit-breaker", &authority]);
    assert!(
        try_process_init(&PROGRAM_ID, &accounts, &[3u8])
            == Some(Ok(CbInitPlan { window_sec: 60, threshold_type: 1, threshold: 1_000_000, bump, lamports: 1_000_000, space: 67 }))
    );
}

#[test]
fn test_pause_and_unpause() {
    let authority = [1u8; 32];
    let cb = init_cb(authority, 60, 1, 1_000_000);
    let accounts = vec![acct(authority, true, vec![]), acct([2u8; 32], false, cb)];
    let paused = process_pause(&accounts, &[5u8, 1u8]).unwrap();
    assert_eq!(paused[32], 1, "Should be paused");
    let accounts = vec![acct(authority, true, vec![]), acct([2u8; 32], false, paused)];
    let unpaused = process_pause(&accounts, &[5u8, 0u8]).unwrap();
    assert_eq!(unpaused[32], 0, "Should be unpaused");
    let accounts = vec![acct(authority, true, vec![]), acct([2u8; 32], false, unpaused)];
    assert_eq!(process_pause(&accounts, &[5u8]).unwrap()[32], 1);
}

#[test]
fn test_update_cb_params() {
    let authority = [1u8; 32];
    let cb = init_cb(authority, 60, 1, 1_000_000);
    let mut update = vec![4u8];
    update.extend_from_slice(&le(120));
    update.push(1u8);
    update.extend_from_slice(&le(5_000_000));
    let accounts = vec![acct(authority, true, vec![]), acct([2u8; 32], false, cb.clone())];
    let updated = process_update(&accounts, &update).unwrap();
    assert_eq!(u64_at(&updated, 33), 120);
    assert_eq!(u64_at(&updated, 42), 5_000_000);
    assert_eq!(&updated[..33], &cb[..33]);
    assert_eq!(&updated[50..], &cb[50..]);
}

#[test]
fn test_update_partial_and_unauthorized() {
    let authority = [1u8; 32];
    let cb = init_cb(authority, 60, 1, 1_000_000);
    let accounts = vec![acct(authority, true, vec![]), acct([2u8; 32], false, cb.clone())];
    let mut update = vec![4u8];
    update.extend_from_slice(&le(7));
    update.push(0u8);
    let updated = process_update(&accounts, &update).unwrap();
    assert_eq!(u64_at(&updated, 33), 7);
    assert_eq!(updated[41], 0);
    assert_eq!(u64_at(&updated, 42), 1_000_000);
    let attacker = vec![acct([3u8; 32], true, vec![]), acct([2u8; 32], false, cb.clone())];
    assert!(process_update(&attacker, &update).err() == Some(ProgramError::Custom(6000)));
    assert!(process_pause(&attacker, &[5u8, 1]).err() == Some(ProgramError::Custom(6000)));
    let unsigned = vec![acct(authority, false, vec![]), acct([2u8; 32], false, cb)];
    assert!(process_pause(&unsigned, &[5u8, 1]).err() == Some(ProgramError::MissingRequiredSignature));
}

#[test]
fn test_make_escrow_success() {
    let maker = [1u8; 32];
    let cb = init_cb(maker, 60, 1, u64::MAX);
    let accounts = make_accounts(maker, cb);
    let (_, bump) = pda(&[b"escrow", &maker]);
    let amount: u64 = 1_000_000_000;
    let plan = make::process(&PROGRAM_ID, &accounts, &make_ix(amount)).unwrap();
    assert!(plan == MakePlan { amount, expiry: i64::MAX, bump, lamports: 1_000_000, space: 113 });
    let mut escrow = vec![0u8; plan.space as usize];
    write_escrow(&mut escrow, &maker, &[11u8; 32], &[12u8; 32], &plan);
    assert_eq!(escrow.len(), 113);
    assert_eq!(escrow, escrow_data(maker, [11u8; 32], [12u8; 32], amount, i64::MAX, bump));
    assert_eq!(read_u64_escrow(&escrow), amount);
    assert_eq!(read_i64_escrow(&escrow), i64::MAX);
}

#[test]
fn test_make_errors() {
    let maker = [1u8; 32];
    let cb = init_cb(maker, 60, 1, u64::MAX);
    let accounts = make_accounts(maker, cb.clone());
    assert!(make::process(&PROGRAM_ID, &accounts, &[0u8, 1, 2]) == Err(ProgramError::InvalidInstructionData));
    let plan = make::process(&PROGRAM_ID, &accounts, &make_ix(5)[..9]).unwrap();
    assert_eq!(plan.expiry, i64::MAX);
    let mut wrong_escrow = make_accounts(maker, cb.clone());
    wrong_escrow[5].key = [99u8; 32];
    assert!(make::process(&PROGRAM_ID, &wrong_escrow, &make_ix(5)) == Err(ProgramError::Custom(6003)));
    let mut wrong_cb = make_accounts(maker, cb);
    wrong_cb[6].key = [99u8; 32];
    assert!(make::process(&PROGRAM_ID, &wrong_cb, &make_ix(5)) == Err(ProgramError::Custom(6003)));
    // A breaker account too short to hold a breaker is not checked.
    let short = make_accounts(maker, vec![1u8; 40]);
    assert!(make::process(&PROGRAM_ID, &short, &make_ix(5)).is_ok());
    assert!(make::process(&PROGRAM_ID, &short[..8], &make_ix(5)) == Err(ProgramError::NotEnoughAccountKeys));
    assert!(make::try_process(&PROGRAM_ID, &wrong_escrow_again(maker), &make_ix(5)) == Some(Err(ProgramError::Custom(6003))));
    let (_, bump) = pda(&[b"escrow", &maker]);
    assert!(
        make::try_process(&PROGRAM_ID, &short, &make_ix(5))
            == Some(Ok(MakePlan { amount: 5, expiry: i64::MAX, bump, lamports: 1_000_000, space: 113 }))
    );
}

fn wrong_escrow_again(maker: [u8; 32]) -> Vec<AccountInput> {
    let mut accounts = make_accounts(maker, vec![]);
    accounts[5].key = [98u8; 32];
    accounts
}

#[test]
fn test_make_blocked_when_paused() {
    let maker = [1u8; 32];
    let cb = init_cb(maker, 60, 1, u64::MAX);
    let paused = process_pause(&[acct(maker, true, vec![]), acct([2u8; 32], false, cb)], &[5u8, 1u8]).unwrap();
    let accounts = make_accounts(maker, paused);
    assert!(make::process(&PROGRAM_ID, &accounts, &make_ix(1_000_000_000)) == Err(ProgramError::Custom(6001)));
}

#[test]
fn test_take_escrow_full_flow() {
    let maker = [1u8; 32];
    let cb = init_cb(maker, 60, 1, u64::MAX);
    let amount: u64 = 1_000_000_000;
    let escrow = escrow_data(maker, [11u8; 32], [12u8; 32], amount, i64::MAX, 254);
    let accounts = take_accounts(maker, escrow, cb.clone());
    let plan = take::process(&accounts, &[1u8]).unwrap();
    assert_eq!(plan.amount, amount);
    assert_eq!(plan.bump, 254);
    let new_cb = plan.cb_data.unwrap();
    assert_eq!(u64_at(&new_cb, 50), amount);
    assert_eq!(i64_at(&new_cb, 58), 0);
    assert_eq!(&new_cb[..50], &cb[..50]);
}

#[test]
fn test_take_errors() {
    let maker = [1u8; 32];
    let cb = init_cb(maker, 60, 1, u64::MAX);
    let escrow = escrow_data(maker, [11u8; 32], [12u8; 32], 10, i64::MAX, 254);
    let mut accounts = take_accounts(maker, escrow.clone(), cb.clone());
    accounts[2].key = [77u8; 32];
    assert!(take::process(&accounts, &[1u8]).err() == Some(ProgramError::Custom(6003)));
    let expired = escrow_data(maker, [11u8; 32], [12u8; 32], 10, -1, 254);
    let accounts = take_accounts(maker, expired, cb.clone());
    assert!(take::process(&accounts, &[1u8]).err() == Some(ProgramError::Custom(6004)));
    let accounts = take_accounts([3u8; 32], escrow.clone(), cb);
    assert!(take::process(&accounts, &[1u8]).err() == Some(ProgramError::Custom(6003)));
    // Without a whole breaker nothing is recorded.
    let accounts = take_accounts(maker, escrow, vec![0u8; 10]);
    let plan = take::process(&accounts, &[1u8]).unwrap();
    assert!(plan.cb_data.is_none());
}

#[test]
fn test_take_blocked_when_paused() {
    let maker = [1u8; 32];
    let cb = init_cb(maker, 60, 1, u64::MAX);
    let paused = process_pause(&[acct(maker, true, vec![]), acct([2u8; 32], false, cb)], &[5u8, 1u8]).unwrap();
    let escrow = escrow_data(maker, [11u8; 32], [12u8; 32], 1_000_000_000, i64::MAX, 254);
    let accounts = take_accounts(maker, escrow, paused);
    assert!(take::process(&accounts, &[1u8]).err() == Some(ProgramError::Custom(6001)));
}

#[test]
fn test_take_blocked_by_threshold() {
    let maker = [1u8; 32];
    let cb = init_cb(maker, 60, 1, 100);
    let escrow = escrow_data(maker, [11u8; 32], [12u8; 32], 1_000_000_000, i64::MAX, 254);
    let accounts = take_accounts(maker, escrow, cb);
    assert!(take::process(&accounts, &[1u8]).err() == Some(ProgramError::Custom(6002)));
}

#[test]
fn test_refund_escrow() {
    let maker = [1u8; 32];
    let escrow = escrow_data(maker, [11u8; 32], [12u8; 32], 1_000_000_000, i64::MAX, 251);
    let accounts = vec![
        acct(maker, true, vec![]),
        acct([13u8; 32], false, vec![]),
        acct([14u8; 32], false, vec![]),
        acct([8u8; 32], false, escrow.clone()),
        acct([15u8; 32], false, vec![]),
    ];
    assert!(refund::process(&accounts, &[2u8]) == Ok(RefundPlan { amount: 1_000_000_000, bump: 251 }));
    let mut other = accounts;
    other[0].key = [4u8; 32];
    assert!(refund::process(&other, &[2u8]) == Err(ProgramError::Custom(6000)));
    assert!(refund::process(&other[..4], &[2u8]) == Err(ProgramError::NotEnoughAccountKeys));
}

#[test]
fn test_window_check_decays() {
    // window 100 s, absolute threshold 1000, last value 800 recorded at t = 0.
    let mut cb = init_cb([1u8; 32], 100, 1, 1000);
    write_u64_cb(&mut cb, 50, 800);
    // At t = 50 half of 800 remains: 400 + 600 = 1000 passes and is recorded.
    let mut d = cb.clone();
    assert_eq!(check_and_update_window(&mut d, 600, 50, 0), Ok(true));
    assert_eq!(u64_at(&d, 50), 1000);
    assert_eq!(i64_at(&d, 58), 50);
    // At t = 50, 601 would exceed the limit and nothing changes.
    let mut d = cb.clone();
    assert_eq!(check_and_update_window(&mut d, 601, 50, 0), Ok(false));
    assert_eq!(d, cb);
    // After a whole window nothing remains.
    let mut d = cb.clone();
    assert_eq!(check_and_update_window(&mut d, 1000, 100, 0), Ok(true));
    assert_eq!(u64_at(&d, 50), 1000);
    // A time before the last record counts as a huge elapsed time.
    let mut d = cb.clone();
    write_i64_cb(&mut d, 58, 10);
    assert_eq!(check_and_update_window(&mut d, 1000, 5, 0), Ok(true));
}

#[test]
fn test_window_check_share_of_balance() {
    // Threshold type 0: the limit is balance * threshold / u64::MAX.
    let cb = init_cb([1u8; 32], 60, 0, u64::MAX / 2);
    let mut d = cb.clone();
    // limit = 1000 * (u64::MAX / 2) / u64::MAX = 499
    assert_eq!(check_and_update_window(&mut d, 499, 0, 1000), Ok(true));
    let mut d = cb.clone();
    assert_eq!(check_and_update_window(&mut d, 500, 0, 1000), Ok(false));
}

#[test]
fn test_readers_and_auth() {
    let data = [1u8, 2, 3, 4, 5, 6, 7, 8, 9, 10];
    assert_eq!(read_u64_cb(&data, 1), Ok(u64::from_le_bytes([2, 3, 4, 5, 6, 7, 8, 9])));
    assert_eq!(read_u64_cb(&data, 3), Err(ProgramError::InvalidInstructionData));
    let mut stored = vec![7u8; 40];
    assert!(verify_auth(&[7u8; 32], &stored));
    stored[31] = 6;
    assert!(!verify_auth(&[7u8; 32], &stored));
    let mut buf = vec![0u8; 16];
    write_u64_cb(&mut buf, 4, 0x0102_0304_0506_0708);
    assert_eq!(buf, vec![0, 0, 0, 0, 8, 7, 6, 5, 4, 3, 2, 1, 0, 0, 0, 0]);
    write_i64_cb(&mut buf, 0, -2);
    assert_eq!(&buf[..8], &(-2i64).to_le_bytes());
}

#[test]
fn test_decode_instruction() {
    assert_eq!(decode_instruction(&[]), Err(ProgramError::InvalidInstructionData));
    assert_eq!(decode_instruction(&[0]), Ok(EscrowInstruction::Make));
    assert_eq!(decode_instruction(&[1, 9]), Ok(EscrowInstruction::Take));
    assert_eq!(decode_instruction(&[2]), Ok(EscrowInstruction::Refund));
    assert_eq!(decode_instruction(&[3]), Ok(EscrowInstruction::InitBreaker));
    assert_eq!(decode_instruction(&[4]), Ok(EscrowInstruction::UpdateBreaker));
    assert_eq!(decode_instruction(&[5]), Ok(EscrowInstruction::PauseBreaker));
    assert_eq!(decode_instruction(&[6]), Err(ProgramError::InvalidInstructionData));
}

#[test]
fn test_breaker_is_paused() {
    let mut cb = CircuitBreaker {
        authority: [1u8; 32],
        paused: 0,
        config: CircuitBreakerConfig { window_seconds: 60, threshold_type: 1, threshold: 1_000_000 },
        window: WindowState { last_value: 0, last_timestamp: 0 },
        bump: 255,
    };
    assert!(!cb.is_paused());
    cb.paused = 1;
    assert!(cb.is_paused());
    cb.paused = 7;
    assert!(cb.is_paused());
}
