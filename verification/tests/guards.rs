//! The admin, the maintenance flag, the limits of the machine types and
//! the packed form of symbols.

use trust_logic::{Auth, Error, Symbol, TrustContract};

fn funded(c: &mut TrustContract, who: u64, vouches: u32) {
    for _ in 0..vouches {
        c.vouch(&Auth::signed_by(who), who, 9_000).unwrap();
    }
}

#[test]
fn ledger_is_initialised_once() {
    let mut c = TrustContract::new();
    assert_eq!(c.get_admin(), None);
    assert_eq!(c.init(1), Ok(()));
    assert_eq!(c.init(2), Err(Error::Unauthorized));
    assert_eq!(c.init(1), Err(Error::Unauthorized));
    assert_eq!(c.get_admin(), Some(1));
    assert_eq!(c.transfer_admin(&Auth::signed_by(2), 2), Err(Error::Unauthorized));
    assert_eq!(c.transfer_admin(&Auth::signed_by(1), 2), Ok(()));
    assert_eq!(c.set_maintenance(&Auth::signed_by(1), true), Err(Error::Unauthorized));
    assert_eq!(c.is_maintenance(), false);
}

#[test]
fn nobody_is_admin_before_init() {
    let mut c = TrustContract::new();
    assert_eq!(c.set_maintenance(&Auth::signed_by(1), true), Err(Error::Unauthorized));
    assert_eq!(c.transfer_admin(&Auth::signed_by(1), 1), Err(Error::Unauthorized));
    assert_eq!(c.decay(&Auth::signed_by(1), 1), Err(Error::Unauthorized));
    assert_eq!(c.resolve_dispute(&Auth::signed_by(1), 1), Err(Error::Unauthorized));
}

#[test]
fn maintenance_stops_the_economy_before_anything_else() {
    let mut c = TrustContract::new();
    let admin = 10;
    c.init(admin).unwrap();
    funded(&mut c, 1, 40);
    let escrow = c.create_escrow(&Auth::signed_by(1), 1, 2, 5).unwrap();
    let wallet = c.create_wallet(&Auth::signed_by(1), 1, vec![1, 2], 2).unwrap();
    let tx = c.propose_tx(&Auth::signed_by(1), 1, wallet, 3, 0).unwrap();
    c.stake(&Auth::signed_by(1), 1, None, 0).unwrap();
    c.raise_dispute(&Auth::signed_by(1), 1, 2).unwrap();
    c.set_maintenance(&Auth::signed_by(admin), true).unwrap();
    assert_eq!(c.is_maintenance(), true);

    let nobody = Auth::none();
    let stopped = Err(Error::MaintenanceActive);
    assert_eq!(c.add_trust(&nobody, 1), Err(Error::MaintenanceActive));
    assert_eq!(c.vouch(&nobody, 1, 2), stopped);
    assert_eq!(c.decay(&nobody, 1), stopped);
    assert_eq!(c.transfer_bzr(&nobody, 1, 2, 1_000), stopped);
    assert_eq!(c.stake(&nobody, 1, None, 0), stopped);
    assert_eq!(c.buy_badge(&nobody, 1, Symbol::short("b").unwrap()), stopped);
    assert_eq!(c.deposit_crowdfund(&nobody, 1, 1_000), stopped);
    assert_eq!(c.vote(&nobody, 1, 1, true), stopped);
    assert_eq!(c.create_proposal(&nobody, 1), Err(Error::MaintenanceActive));
    assert_eq!(c.raise_dispute(&nobody, 1, 2), stopped);
    assert_eq!(c.set_nickname(&nobody, 1, Symbol::short("n").unwrap()), stopped);
    assert_eq!(c.send_message(&nobody, 1, 2, String::from("m")), stopped);
    assert_eq!(c.create_escrow(&nobody, 1, 2, 1_000), Err(Error::MaintenanceActive));
    assert_eq!(c.approve_escrow(&nobody, escrow, 1), stopped);
    assert_eq!(c.approve_escrow(&nobody, escrow + 1, 1), stopped);
    assert_eq!(c.subscribe(&nobody, 1, 0), stopped);
    assert_eq!(c.create_wallet(&nobody, 1, vec![], 0), Err(Error::MaintenanceActive));
    assert_eq!(c.deposit_wallet(&nobody, 1, wallet, 1_000), stopped);
    assert_eq!(c.propose_tx(&nobody, 1, wallet, 3, 0), Err(Error::MaintenanceActive));
    assert_eq!(c.approve_tx(&nobody, 2, tx), stopped);
    assert_eq!(c.buy_ticket(&nobody, 1), stopped);
    assert_eq!(c.run_lottery(&nobody, 0), stopped);

    assert_eq!(c.get_balance(1), 195);
    assert_eq!(c.get_trust(1), 10);

    assert_eq!(c.withdraw(&Auth::signed_by(1), 1, 30 * 86_400), Ok(()));
    assert_eq!(c.resolve_dispute(&Auth::signed_by(admin), 2), Ok(()));
    assert_eq!(c.is_disputed(2), false);
    assert_eq!(c.force_unbond(&Auth::signed_by(admin), 1), Ok(()));

    assert_eq!(c.set_maintenance(&Auth::signed_by(admin), false), Ok(()));
    assert_eq!(c.stake(&Auth::signed_by(1), 1, None, 5), Ok(()));
    assert_eq!(c.get_trust(1), 10);
}

#[test]
fn every_call_needs_its_signer() {
    let mut c = TrustContract::new();
    c.init(10).unwrap();
    funded(&mut c, 1, 40);
    let other = Auth::signed_by(2);
    assert_eq!(c.add_trust(&other, 1), Err(Error::Unauthorized));
    assert_eq!(c.vouch(&other, 1, 2), Err(Error::Unauthorized));
    assert_eq!(c.stake(&other, 1, None, 0), Err(Error::Unauthorized));
    assert_eq!(c.withdraw(&other, 1, 0), Err(Error::Unauthorized));
    assert_eq!(c.buy_badge(&other, 1, Symbol::short("b").unwrap()), Err(Error::Unauthorized));
    assert_eq!(c.deposit_crowdfund(&other, 1, 1), Err(Error::Unauthorized));
    assert_eq!(c.vote(&other, 1, 1, true), Err(Error::Unauthorized));
    assert_eq!(c.create_proposal(&other, 1), Err(Error::Unauthorized));
    assert_eq!(c.raise_dispute(&other, 1, 2), Err(Error::Unauthorized));
    assert_eq!(c.set_nickname(&other, 1, Symbol::short("n").unwrap()), Err(Error::Unauthorized));
    assert_eq!(c.create_escrow(&other, 1, 2, 1), Err(Error::Unauthorized));
    assert_eq!(c.subscribe(&other, 1, 0), Err(Error::Unauthorized));
    assert_eq!(c.create_wallet(&other, 1, vec![1], 1), Err(Error::Unauthorized));
    assert_eq!(c.deposit_wallet(&other, 1, 1, 1), Err(Error::Unauthorized));
    assert_eq!(c.propose_tx(&other, 1, 1, 2, 1), Err(Error::Unauthorized));
    assert_eq!(c.approve_tx(&other, 1, 1), Err(Error::Unauthorized));
    assert_eq!(c.buy_ticket(&other, 1), Err(Error::Unauthorized));
    assert_eq!(c.get_balance(1), 200);
}

#[test]
fn prices_are_exact() {
    let mut c = TrustContract::new();
    funded(&mut c, 1, 42);
    assert_eq!(c.get_balance(1), 210);
    c.buy_badge(&Auth::signed_by(1), 1, Symbol::short("b").unwrap()).unwrap();
    assert_eq!(c.get_balance(1), 160);
    c.create_proposal(&Auth::signed_by(1), 1).unwrap();
    assert_eq!(c.get_balance(1), 60);
    c.subscribe(&Auth::signed_by(1), 1, 0).unwrap();
    assert_eq!(c.get_balance(1), 10);
    c.buy_ticket(&Auth::signed_by(1), 1).unwrap();
    assert_eq!(c.get_balance(1), 0);
    assert_eq!(c.subscribe(&Auth::signed_by(1), 1, 0), Err(Error::InsufficientBalance));
    assert_eq!(c.buy_ticket(&Auth::signed_by(1), 1), Err(Error::InsufficientBalance));
    assert_eq!(c.deposit_crowdfund(&Auth::signed_by(1), 1, 1), Err(Error::InsufficientBalance));
    assert_eq!(c.create_escrow(&Auth::signed_by(1), 1, 2, 1), Err(Error::InsufficientBalance));
}

#[test]
fn clock_overflow_is_refused() {
    let mut c = TrustContract::new();
    funded(&mut c, 1, 20);
    assert_eq!(c.subscribe(&Auth::signed_by(1), 1, u64::MAX), Err(Error::Overflow));
    assert_eq!(c.subscribe(&Auth::signed_by(1), 1, u64::MAX - 2_592_000 + 1), Err(Error::Overflow));
    assert_eq!(c.get_balance(1), 100);
    assert_eq!(c.subscribe(&Auth::signed_by(1), 1, u64::MAX - 2_592_000), Ok(()));
    assert_eq!(c.is_subscribed(1, u64::MAX - 1), true);
    assert_eq!(c.subscribe(&Auth::signed_by(1), 1, 0), Err(Error::Overflow));
    assert_eq!(c.get_balance(1), 50);

    c.stake(&Auth::signed_by(2), 2, None, u64::MAX).unwrap();
    assert_eq!(c.withdraw(&Auth::signed_by(2), 2, u64::MAX), Err(Error::BondLocked));
}

#[test]
fn refusals_have_words() {
    assert_eq!(Error::MaintenanceActive.message(), "Maintenance mode active");
    assert_eq!(Error::BondLocked.message(), "Bond is still locked (30 days)");
    assert_eq!(Error::AlreadyVoted.message(), "Already voted");
    assert_eq!(Error::AlreadyExecuted.message(), "Already executed");
    assert_eq!(Error::NoParticipants.message(), "No participants");
    assert_eq!(Error::NoWeight.message(), "No BZR to vote");
    assert_eq!(Error::InsufficientBalance.message(), "Insufficient BZR");
    assert_eq!(Error::Unauthorized.message(), "Not authorized");
    assert_eq!(Error::NotFound.message(), "Not found");
    assert_eq!(Error::InvalidArgument.message(), "Invalid argument");
    assert_eq!(Error::Overflow.message(), "Arithmetic overflow");
}

#[test]
fn short_symbols_are_packed_as_the_host_packs_them() {
    assert_eq!(Symbol::short("").unwrap().code, 14);
    assert_eq!(Symbol::short("_").unwrap().code, (1 << 8) | 14);
    assert_eq!(Symbol::short("a").unwrap().code, (38 << 8) | 14);
    assert_eq!(Symbol::short("ab").unwrap().code, (((38 << 6) | 39) << 8) | 14);
    assert_eq!(Symbol::short("0Z").unwrap().code, (((2 << 6) | 37) << 8) | 14);
    assert_ne!(Symbol::short("User").unwrap(), Symbol::short("user").unwrap());
    assert_eq!(Symbol::short("verified"), Symbol::short("verified"));
    assert_eq!(Symbol { code: 14 }, Symbol::short("").unwrap());
}

#[test]
#[allow(deprecated)]
fn short_symbols_agree_with_the_host_library() {
    for name in ["User", "verified", "BazaarMer", "MerchantX", "a_1", "123456789"] {
        let host = soroban_sdk::Symbol::short(name).to_val().get_payload();
        assert_eq!(Symbol::short(name).unwrap().code, host);
    }
}

#[test]
fn names_that_do_not_pack_are_refused() {
    assert_eq!(Symbol::short("1234567890"), None);
    assert_eq!(Symbol::short("no space"), None);
    assert_eq!(Symbol::short("dash-ed"), None);
    assert_eq!(Symbol::short("caf\u{e9}"), None);
    assert_eq!(Symbol::short("Hello!"), None);
    assert!(Symbol::short("azAZ09_").is_some());
    assert!(Symbol::short("123456789").is_some());
}

#[test]
fn signers_are_a_set() {
    let nobody = Auth::none();
    assert_eq!(nobody.authorizes(1), false);
    let one = Auth::signed_by(1);
    assert_eq!(one.authorizes(1), true);
    assert_eq!(one.authorizes(2), false);
    let both = Auth::signed_by(1).with(2).with(1);
    assert_eq!(both.authorizes(1), true);
    assert_eq!(both.authorizes(2), true);
    assert_eq!(both.authorizes(3), false);
}
