//! The everyday flows of the ledger, one test each.

use trust_logic::{Auth, Error, Symbol, TrustContract};

/// Fails the test in the words of the refusal.
fn accept<T>(r: Result<T, Error>) -> T {
    match r {
        Ok(v) => v,
        Err(e) => panic!("{}", e.message()),
    }
}

#[test]
#[should_panic]
fn vouch_from_non_existent_profile_panics() {
    let mut c = TrustContract::new();
    let voucher = 1;
    let target = 2;

    let r = c.vouch(&Auth::none(), voucher, target);
    assert_eq!(r, Err(Error::Unauthorized));
    assert_eq!(c.get_balance(voucher), 0);
    accept(r);
}

#[test]
fn test_stake_increases_score() {
    let mut c = TrustContract::new();
    let user = 1;

    assert_eq!(c.get_trust(user), 0);
    assert_eq!(c.is_bonded(user), false);

    accept(c.stake(&Auth::signed_by(user), user, None, 0));

    assert_eq!(c.get_trust(user), 10);
    assert_eq!(c.is_bonded(user), true);
}

#[test]
fn test_decay() {
    let mut c = TrustContract::new();
    let user = 1;
    let admin = 2;

    accept(c.init(admin));

    accept(c.add_trust(&Auth::signed_by(user), user)); // Score = 1
    accept(c.decay(&Auth::signed_by(admin), user)); // Score = 0
    assert_eq!(c.get_trust(user), 0);
}

#[test]
#[should_panic(expected = "Bond is still locked")]
fn test_withdraw_too_early_panics() {
    let mut c = TrustContract::new();
    let now = 1000;
    let user = 1;

    accept(c.stake(&Auth::signed_by(user), user, None, now));

    // Try to withdraw immediately (should fail)
    let r = c.withdraw(&Auth::signed_by(user), user, now);
    assert_eq!(r, Err(Error::BondLocked));
    accept(r);
}

#[test]
fn test_transfer_admin() {
    let mut c = TrustContract::new();
    let admin = 1;
    let new_admin = 2;

    accept(c.init(admin));
    assert_eq!(c.get_admin(), Some(admin));

    accept(c.transfer_admin(&Auth::signed_by(admin), new_admin));
    assert_eq!(c.get_admin(), Some(new_admin));
}

#[test]
fn test_force_unbond() {
    let mut c = TrustContract::new();
    let admin = 1;
    let user = 2;

    accept(c.init(admin));
    accept(c.stake(&Auth::signed_by(user), user, None, 0));
    assert_eq!(c.is_bonded(user), true);

    // Admin forces unbond
    accept(c.force_unbond(&Auth::signed_by(admin), user));
    assert_eq!(c.is_bonded(user), false);
    assert_eq!(c.get_trust(user), 0); // Score drops back
}

#[test]
fn test_vouch_rewards_bzr() {
    let mut c = TrustContract::new();
    let voucher = 1;
    let target = 2;

    accept(c.vouch(&Auth::signed_by(voucher), voucher, target));
    assert_eq!(c.get_balance(voucher), 5);
}

#[test]
fn test_transfer_bzr() {
    let mut c = TrustContract::new();
    let user1 = 1;
    let user2 = 2;
    let target = 3;

    accept(c.vouch(&Auth::signed_by(user1), user1, target)); // user1 gets 5
    accept(c.vouch(&Auth::signed_by(user1), user1, target)); // user1 gets 5 (total 10)

    accept(c.transfer_bzr(&Auth::signed_by(user1), user1, user2, 3));

    assert_eq!(c.get_balance(user1), 7);
    assert_eq!(c.get_balance(user2), 3);
}

#[test]
fn test_shop_buy_badge() {
    let mut c = TrustContract::new();
    let user = 1;
    let target = 2;

    for _ in 0..10 {
        accept(c.vouch(&Auth::signed_by(user), user, target));
    } // Earn 50 BZR

    let badge = Symbol::short("verified").unwrap();
    accept(c.buy_badge(&Auth::signed_by(user), user, badge));

    assert_eq!(c.has_badge(user, badge), true);
    assert_eq!(c.get_balance(user), 0);
}

#[test]
fn test_crowdfund() {
    let mut c = TrustContract::new();
    let user = 1;
    let target = 2;

    // Earn BZR
    for _ in 0..4 {
        accept(c.vouch(&Auth::signed_by(user), user, target));
    } // 20 BZR

    accept(c.deposit_crowdfund(&Auth::signed_by(user), user, 15));

    assert_eq!(c.get_balance(user), 5);
    assert_eq!(c.get_crowdfund_balance(), 15);
}

#[test]
fn test_referral() {
    let mut c = TrustContract::new();
    let user = 1;
    let referrer = 2;

    accept(c.stake(&Auth::signed_by(user), user, Some(referrer), 0));

    assert_eq!(c.get_balance(referrer), 10);
}

#[test]
fn test_voting() {
    let mut c = TrustContract::new();
    let user = 1;
    let target = 2;

    // Earn 10 BZR
    accept(c.vouch(&Auth::signed_by(user), user, target));
    accept(c.vouch(&Auth::signed_by(user), user, target));

    accept(c.vote(&Auth::signed_by(user), user, 1, true)); // Vote Yes on Prop 1
    assert_eq!(c.get_proposal_stats(1), (10, 0));
}

#[test]
fn test_create_proposal() {
    let mut c = TrustContract::new();
    let user = 1;
    let target = 2;

    // Earn BZR (Need 100)
    for _ in 0..20 {
        accept(c.vouch(&Auth::signed_by(user), user, target));
    }

    let id = accept(c.create_proposal(&Auth::signed_by(user), user));
    assert_eq!(id, 1);
    assert_eq!(c.get_balance(user), 0);
}

#[test]
fn test_dispute() {
    let mut c = TrustContract::new();
    let accuser = 1;
    let target = 2;

    assert_eq!(c.is_disputed(target), false);
    accept(c.raise_dispute(&Auth::signed_by(accuser), accuser, target));
    assert_eq!(c.is_disputed(target), true);
}

#[test]
fn test_resolve_dispute() {
    let mut c = TrustContract::new();
    let admin = 1;
    let accuser = 2;
    let target = 3;

    accept(c.init(admin));
    accept(c.raise_dispute(&Auth::signed_by(accuser), accuser, target));
    assert_eq!(c.is_disputed(target), true);

    accept(c.resolve_dispute(&Auth::signed_by(admin), target));
    assert_eq!(c.is_disputed(target), false);
}

#[test]
fn test_nickname() {
    let mut c = TrustContract::new();
    let user = 1;

    assert_eq!(c.get_nickname(user), Symbol::short("User").unwrap());

    accept(c.set_nickname(&Auth::signed_by(user), user, Symbol::short("BazaarMer").unwrap()));
    assert_eq!(c.get_nickname(user), Symbol::short("BazaarMer").unwrap());
}

#[test]
fn test_nickname_search() {
    let mut c = TrustContract::new();
    let user = 1;
    let nick = Symbol::short("MerchantX").unwrap();

    accept(c.set_nickname(&Auth::signed_by(user), user, nick));
    assert_eq!(c.get_address_by_nickname(nick), Some(user));
}

#[test]
#[should_panic(expected = "Maintenance mode active")]
fn test_maintenance_mode() {
    let mut c = TrustContract::new();
    let admin = 1;
    let user = 2;
    let target = 3;

    accept(c.init(admin));
    accept(c.set_maintenance(&Auth::signed_by(admin), true));

    let r = c.vouch(&Auth::signed_by(user), user, target); // Should panic
    assert_eq!(r, Err(Error::MaintenanceActive));
    accept(r);
}

#[test]
fn test_chat() {
    let mut c = TrustContract::new();
    let user1 = 1;
    let user2 = 2;

    accept(c.send_message(&Auth::signed_by(user1), user1, user2, String::from("Hello!")));
    let msgs = c.get_messages(user2);
    assert_eq!(msgs.len(), 1);
    assert_eq!(msgs.get(0).unwrap().text, String::from("Hello!"));
}

#[test]
fn test_escrow_flow() {
    let mut c = TrustContract::new();
    let buyer = 1;
    let seller = 2;
    let target = 3;

    for _ in 0..20 {
        accept(c.vouch(&Auth::signed_by(buyer), buyer, target));
    } // Fund buyer with 100 BZR

    let id = accept(c.create_escrow(&Auth::signed_by(buyer), buyer, seller, 50));
    accept(c.approve_escrow(&Auth::signed_by(buyer), id, buyer)); // Buyer approves
    accept(c.approve_escrow(&Auth::signed_by(seller), id, seller)); // Seller approves -> Release

    assert_eq!(c.get_balance(seller), 50);
}

#[test]
fn test_subscription() {
    let mut c = TrustContract::new();
    let user = 1;
    let target = 2;
    let now = 0;

    for _ in 0..10 {
        accept(c.vouch(&Auth::signed_by(user), user, target));
    } // 50 BZR

    assert_eq!(c.is_subscribed(user, now), false);
    accept(c.subscribe(&Auth::signed_by(user), user, now));
    assert_eq!(c.is_subscribed(user, now), true);
    assert_eq!(c.get_balance(user), 0);
}

#[test]
fn test_multisig() {
    let mut c = TrustContract::new();
    let user1 = 1;
    let user2 = 2;
    let target = 3;

    for _ in 0..20 {
        accept(c.vouch(&Auth::signed_by(user1), user1, target));
    } // 100 BZR

    let owners = vec![user1, user2];
    let wid = accept(c.create_wallet(&Auth::signed_by(user1), user1, owners, 2));

    accept(c.deposit_wallet(&Auth::signed_by(user1), user1, wid, 100));
    let tx_id = accept(c.propose_tx(&Auth::signed_by(user1), user1, wid, target, 50));

    // User1 approved implicitly or explicitly. Need User2.
    accept(c.approve_tx(&Auth::signed_by(user2), user2, tx_id));

    assert_eq!(c.get_balance(target), 50);
}

#[test]
fn test_lottery() {
    for draw in 0..2 {
        let mut c = TrustContract::new();
        let admin = 1;
        let user1 = 2;
        let user2 = 3;
        let target = 4;

        accept(c.init(admin));

        // Fund users
        for _ in 0..4 {
            accept(c.vouch(&Auth::signed_by(user1), user1, target));
        } // 20 BZR
        for _ in 0..4 {
            accept(c.vouch(&Auth::signed_by(user2), user2, target));
        } // 20 BZR

        accept(c.buy_ticket(&Auth::signed_by(user1), user1));
        accept(c.buy_ticket(&Auth::signed_by(user2), user2));

        assert_eq!(c.get_lottery_info(), 2);
        assert_eq!(c.get_balance(user1), 10);

        accept(c.run_lottery(&Auth::signed_by(admin), draw));

        // One should have 10 (loser) + 0, one should have 10 (winner) + 20 = 30
        let bal1 = c.get_balance(user1);
        let bal2 = c.get_balance(user2);

        assert!((bal1 == 30 && bal2 == 10) || (bal1 == 10 && bal2 == 30));
        assert_eq!(bal1 == 30, draw == 0);
        assert_eq!(c.get_lottery_info(), 0);
    }
}
