//! Worked examples of the engines, with every number checked.

use trust_logic::{Auth, Error, Escrow, Event, Symbol, TrustContract};

fn funded(c: &mut TrustContract, who: u64, vouches: u32) {
    let sink = 9_000;
    for _ in 0..vouches {
        c.vouch(&Auth::signed_by(who), who, sink).unwrap();
    }
}

#[test]
fn vouch_moves_two_points_and_pays_five() {
    let mut c = TrustContract::new();
    let voucher = 1;
    let target = 2;
    for _ in 0..5 {
        c.stake(&Auth::signed_by(voucher), voucher, None, 0).unwrap();
    }
    c.add_trust(&Auth::signed_by(voucher), voucher).unwrap();
    c.add_trust(&Auth::signed_by(voucher), voucher).unwrap();
    c.add_trust(&Auth::signed_by(target), target).unwrap();
    assert_eq!(c.get_trust(voucher), 52);
    assert_eq!(c.get_trust(target), 1);
    let voucher_balance = c.get_balance(voucher);
    let target_balance = c.get_balance(target);

    assert_eq!(c.vouch(&Auth::signed_by(voucher), voucher, target), Ok(()));

    assert_eq!(c.get_trust(voucher), 50);
    assert_eq!(c.get_trust(target), 3);
    assert_eq!(c.get_balance(voucher), voucher_balance + 5);
    assert_eq!(c.get_balance(target), target_balance);
}

#[test]
fn vouch_stops_at_the_ceiling_and_at_zero() {
    let mut c = TrustContract::new();
    let voucher = 1;
    let target = 2;
    for _ in 0..99 {
        c.add_trust(&Auth::signed_by(target), target).unwrap();
    }
    c.add_trust(&Auth::signed_by(voucher), voucher).unwrap();
    assert_eq!(c.get_trust(target), 99);
    assert_eq!(c.get_trust(voucher), 1);

    c.vouch(&Auth::signed_by(voucher), voucher, target).unwrap();
    assert_eq!(c.get_trust(target), 100);
    assert_eq!(c.get_trust(voucher), 0);

    c.vouch(&Auth::signed_by(voucher), voucher, target).unwrap();
    assert_eq!(c.get_trust(target), 100);
    assert_eq!(c.get_trust(voucher), 0);
    assert_eq!(c.get_balance(voucher), 10);
}

#[test]
fn vouch_leaves_a_score_above_the_ceiling() {
    let mut c = TrustContract::new();
    let voucher = 1;
    let target = 2;
    for _ in 0..11 {
        c.stake(&Auth::signed_by(target), target, None, 0).unwrap();
    }
    assert_eq!(c.get_trust(target), 110);
    c.vouch(&Auth::signed_by(voucher), voucher, target).unwrap();
    assert_eq!(c.get_trust(target), 110);
}

#[test]
fn vouching_for_oneself_changes_nothing() {
    let mut c = TrustContract::new();
    let who = 1;
    c.add_trust(&Auth::signed_by(who), who).unwrap();
    c.take_events();

    assert_eq!(c.vouch(&Auth::signed_by(who), who, who), Ok(()));

    assert_eq!(c.get_trust(who), 1);
    assert_eq!(c.get_balance(who), 0);
    assert_eq!(c.take_events(), vec![]);
}

#[test]
fn vouch_raises_its_events_in_order() {
    let mut c = TrustContract::new();
    c.vouch(&Auth::signed_by(1), 1, 2).unwrap();
    assert_eq!(
        c.take_events(),
        vec![Event::Vouch { voucher: 1, target: 2 }, Event::Mint { to: 1, amount: 5 }]
    );
    assert_eq!(c.take_events(), vec![]);
}

#[test]
fn escrow_pays_the_seller_once_both_agree() {
    let mut c = TrustContract::new();
    let buyer = 1;
    let seller = 2;
    funded(&mut c, buyer, 20);
    assert_eq!(c.get_balance(buyer), 100);

    let id = c.create_escrow(&Auth::signed_by(buyer), buyer, seller, 50).unwrap();
    assert_eq!(id, 1);
    assert_eq!(c.get_balance(buyer), 50);
    assert_eq!(
        c.get_escrow(id),
        Some(Escrow { buyer, seller, amount: 50, buyer_ok: false, seller_ok: false })
    );

    assert_eq!(c.approve_escrow(&Auth::signed_by(buyer), id, buyer), Ok(()));
    assert_eq!(
        c.get_escrow(id),
        Some(Escrow { buyer, seller, amount: 50, buyer_ok: true, seller_ok: false })
    );
    assert_eq!(c.get_balance(seller), 0);

    assert_eq!(c.approve_escrow(&Auth::signed_by(seller), id, seller), Ok(()));
    assert_eq!(c.get_balance(seller), 50);
    assert_eq!(c.get_balance(buyer), 50);
    assert_eq!(c.get_escrow(id), None);
}

#[test]
fn settled_escrow_is_not_found_again() {
    let mut c = TrustContract::new();
    let buyer = 1;
    let seller = 2;
    funded(&mut c, buyer, 20);
    let id = c.create_escrow(&Auth::signed_by(buyer), buyer, seller, 50).unwrap();
    c.approve_escrow(&Auth::signed_by(seller), id, seller).unwrap();
    c.approve_escrow(&Auth::signed_by(buyer), id, buyer).unwrap();

    assert_eq!(c.approve_escrow(&Auth::signed_by(buyer), id, buyer), Err(Error::NotFound));
    assert_eq!(c.approve_escrow(&Auth::signed_by(seller), id, seller), Err(Error::NotFound));
    assert_eq!(c.get_balance(seller), 50);

    let next = c.create_escrow(&Auth::signed_by(buyer), buyer, seller, 10).unwrap();
    assert_eq!(next, 2);
    assert_eq!(c.get_escrow(id), None);
    assert_eq!(c.approve_escrow(&Auth::signed_by(seller), id, seller), Err(Error::NotFound));
}

#[test]
fn escrow_approval_twice_by_one_party_is_one_approval() {
    let mut c = TrustContract::new();
    let buyer = 1;
    let seller = 2;
    funded(&mut c, buyer, 4);
    let id = c.create_escrow(&Auth::signed_by(buyer), buyer, seller, 20).unwrap();
    c.approve_escrow(&Auth::signed_by(buyer), id, buyer).unwrap();
    let once = c.get_escrow(id);
    c.approve_escrow(&Auth::signed_by(buyer), id, buyer).unwrap();
    assert_eq!(c.get_escrow(id), once);
    assert_eq!(c.get_balance(buyer), 0);
    assert_eq!(c.get_balance(seller), 0);
}

#[test]
fn escrow_refuses_a_stranger() {
    let mut c = TrustContract::new();
    funded(&mut c, 1, 4);
    let id = c.create_escrow(&Auth::signed_by(1), 1, 2, 20).unwrap();
    assert_eq!(c.approve_escrow(&Auth::signed_by(3), id, 3), Err(Error::Unauthorized));
    assert_eq!(c.approve_escrow(&Auth::signed_by(3), id, 1), Err(Error::Unauthorized));
    assert_eq!(c.approve_escrow(&Auth::signed_by(1), 7, 1), Err(Error::NotFound));
}

#[test]
fn two_of_two_wallet_pays_on_the_second_approval() {
    let mut c = TrustContract::new();
    let a = 1;
    let b = 2;
    let recipient = 3;
    funded(&mut c, a, 20);
    let wid = c.create_wallet(&Auth::signed_by(a), a, vec![a, b], 2).unwrap();
    assert_eq!(wid, 1);
    c.deposit_wallet(&Auth::signed_by(a), a, wid, 100).unwrap();
    assert_eq!(c.get_balance(a), 0);
    assert_eq!(c.get_wallet(wid).unwrap().balance, 100);

    let tx = c.propose_tx(&Auth::signed_by(a), a, wid, recipient, 50).unwrap();
    assert_eq!(tx, 1);
    let filed = c.get_tx(tx).unwrap();
    assert_eq!(filed.approvals, vec![a]);
    assert_eq!(filed.executed, false);
    assert_eq!(c.get_balance(recipient), 0);

    assert_eq!(c.approve_tx(&Auth::signed_by(b), b, tx), Ok(()));
    assert_eq!(c.get_balance(recipient), 50);
    assert_eq!(c.get_wallet(wid).unwrap().balance, 50);
    let done = c.get_tx(tx).unwrap();
    assert_eq!(done.executed, true);
    assert_eq!(done.approvals, vec![a, b]);

    assert_eq!(c.approve_tx(&Auth::signed_by(a), a, tx), Err(Error::AlreadyExecuted));
    assert_eq!(c.approve_tx(&Auth::signed_by(b), b, tx), Err(Error::AlreadyExecuted));
    assert_eq!(c.get_balance(recipient), 50);
    assert_eq!(c.get_wallet(wid).unwrap().balance, 50);
}

#[test]
fn wallet_approval_twice_by_one_owner_counts_once() {
    let mut c = TrustContract::new();
    funded(&mut c, 1, 20);
    let wid = c.create_wallet(&Auth::signed_by(1), 1, vec![1, 2, 3], 3).unwrap();
    c.deposit_wallet(&Auth::signed_by(1), 1, wid, 100).unwrap();
    let tx = c.propose_tx(&Auth::signed_by(1), 1, wid, 4, 30).unwrap();

    c.approve_tx(&Auth::signed_by(2), 2, tx).unwrap();
    let once = c.get_tx(tx).unwrap();
    c.approve_tx(&Auth::signed_by(2), 2, tx).unwrap();
    c.approve_tx(&Auth::signed_by(1), 1, tx).unwrap();
    assert_eq!(c.get_tx(tx).unwrap(), once);
    assert_eq!(once.approvals, vec![1, 2]);
    assert_eq!(once.executed, false);
    assert_eq!(c.get_balance(4), 0);

    c.approve_tx(&Auth::signed_by(3), 3, tx).unwrap();
    assert_eq!(c.get_tx(tx).unwrap().executed, true);
    assert_eq!(c.get_balance(4), 30);
    assert_eq!(c.get_wallet(wid).unwrap().balance, 70);
}

#[test]
fn wallet_with_threshold_one_pays_on_the_proposal() {
    let mut c = TrustContract::new();
    funded(&mut c, 1, 4);
    let wid = c.create_wallet(&Auth::signed_by(1), 1, vec![1, 2], 1).unwrap();
    c.deposit_wallet(&Auth::signed_by(1), 1, wid, 20).unwrap();

    let tx = c.propose_tx(&Auth::signed_by(2), 2, wid, 5, 15).unwrap();
    assert_eq!(c.get_balance(5), 15);
    assert_eq!(c.get_wallet(wid).unwrap().balance, 5);
    assert_eq!(c.get_tx(tx).unwrap().executed, true);

    assert_eq!(
        c.propose_tx(&Auth::signed_by(2), 2, wid, 5, 6),
        Err(Error::InsufficientBalance)
    );
    assert_eq!(c.get_tx(tx + 1), None);
    assert_eq!(c.propose_tx(&Auth::signed_by(2), 2, wid, 5, 5), Ok(tx + 1));
    assert_eq!(c.get_wallet(wid).unwrap().balance, 0);
}

#[test]
fn wallet_approval_waits_for_the_funds() {
    let mut c = TrustContract::new();
    funded(&mut c, 1, 4);
    let wid = c.create_wallet(&Auth::signed_by(1), 1, vec![1, 2], 2).unwrap();
    c.deposit_wallet(&Auth::signed_by(1), 1, wid, 10).unwrap();
    let tx = c.propose_tx(&Auth::signed_by(1), 1, wid, 5, 15).unwrap();

    assert_eq!(c.approve_tx(&Auth::signed_by(2), 2, tx), Err(Error::InsufficientBalance));
    assert_eq!(c.get_tx(tx).unwrap().approvals, vec![1]);

    c.deposit_wallet(&Auth::signed_by(1), 1, wid, 5).unwrap();
    assert_eq!(c.approve_tx(&Auth::signed_by(2), 2, tx), Ok(()));
    assert_eq!(c.get_balance(5), 15);
    assert_eq!(c.get_wallet(wid).unwrap().balance, 0);
}

#[test]
fn wallet_owners_are_a_set() {
    let mut c = TrustContract::new();
    assert_eq!(
        c.create_wallet(&Auth::signed_by(1), 1, vec![1, 1], 2),
        Err(Error::InvalidArgument)
    );
    assert_eq!(c.create_wallet(&Auth::signed_by(1), 1, vec![1, 2], 0), Err(Error::InvalidArgument));
    assert_eq!(c.create_wallet(&Auth::signed_by(1), 1, vec![1, 2], 3), Err(Error::InvalidArgument));
    assert_eq!(c.create_wallet(&Auth::signed_by(1), 1, vec![], 1), Err(Error::InvalidArgument));
    assert_eq!(c.get_wallet(1), None);

    let wid = c.create_wallet(&Auth::signed_by(9), 9, vec![2, 1, 2, 3, 1], 3).unwrap();
    let w = c.get_wallet(wid).unwrap();
    assert_eq!(w.owners, vec![2, 1, 3]);
    assert_eq!(w.threshold, 3);
    assert_eq!(w.balance, 0);
}

#[test]
fn wallet_refuses_who_is_no_owner() {
    let mut c = TrustContract::new();
    funded(&mut c, 1, 4);
    let wid = c.create_wallet(&Auth::signed_by(1), 1, vec![1, 2], 2).unwrap();
    assert_eq!(c.propose_tx(&Auth::signed_by(3), 3, wid, 3, 1), Err(Error::Unauthorized));
    assert_eq!(c.propose_tx(&Auth::signed_by(1), 1, wid + 1, 3, 1), Err(Error::NotFound));
    let tx = c.propose_tx(&Auth::signed_by(1), 1, wid, 3, 1).unwrap();
    assert_eq!(c.approve_tx(&Auth::signed_by(3), 3, tx), Err(Error::Unauthorized));
    assert_eq!(c.approve_tx(&Auth::signed_by(2), 2, tx + 1), Err(Error::NotFound));
    assert_eq!(c.deposit_wallet(&Auth::signed_by(1), 1, wid + 1, 1), Err(Error::NotFound));
    assert_eq!(c.deposit_wallet(&Auth::signed_by(1), 1, wid, 21), Err(Error::InsufficientBalance));
}

fn pool_of_three(c: &mut TrustContract) -> (u64, u64, u64) {
    let admin = 10;
    let a = 1;
    let b = 2;
    c.init(admin).unwrap();
    funded(c, a, 4);
    funded(c, b, 2);
    c.buy_ticket(&Auth::signed_by(a), a).unwrap();
    c.buy_ticket(&Auth::signed_by(a), a).unwrap();
    c.buy_ticket(&Auth::signed_by(b), b).unwrap();
    assert_eq!(c.get_lottery_info(), 3);
    assert_eq!(c.get_balance(a), 0);
    assert_eq!(c.get_balance(b), 0);
    (admin, a, b)
}

#[test]
fn lottery_draw_zero_pays_the_first_ticket() {
    let mut c = TrustContract::new();
    let (admin, a, b) = pool_of_three(&mut c);
    assert_eq!(c.run_lottery(&Auth::signed_by(admin), 0), Ok(()));
    assert_eq!(c.get_balance(a), 30);
    assert_eq!(c.get_balance(b), 0);
    assert_eq!(c.get_lottery_info(), 0);
}

#[test]
fn lottery_draw_one_pays_the_second_ticket() {
    let mut c = TrustContract::new();
    let (admin, a, b) = pool_of_three(&mut c);
    assert_eq!(c.run_lottery(&Auth::signed_by(admin), 1), Ok(()));
    assert_eq!(c.get_balance(a), 30);
    assert_eq!(c.get_balance(b), 0);
    assert_eq!(c.get_lottery_info(), 0);
}

#[test]
fn lottery_draw_two_pays_the_third_ticket() {
    let mut c = TrustContract::new();
    let (admin, a, b) = pool_of_three(&mut c);
    assert_eq!(c.run_lottery(&Auth::signed_by(admin), 2), Ok(()));
    assert_eq!(c.get_balance(a), 0);
    assert_eq!(c.get_balance(b), 30);
    assert_eq!(c.get_lottery_info(), 0);
}

#[test]
fn lottery_refusals() {
    let mut c = TrustContract::new();
    assert_eq!(c.run_lottery(&Auth::signed_by(10), 0), Err(Error::Unauthorized));
    c.init(10).unwrap();
    assert_eq!(c.run_lottery(&Auth::signed_by(10), 0), Err(Error::NoParticipants));
    assert_eq!(c.buy_ticket(&Auth::signed_by(1), 1), Err(Error::InsufficientBalance));
    funded(&mut c, 1, 2);
    c.buy_ticket(&Auth::signed_by(1), 1).unwrap();
    assert_eq!(c.run_lottery(&Auth::signed_by(1), 0), Err(Error::Unauthorized));
    assert_eq!(c.run_lottery(&Auth::signed_by(10), 1), Err(Error::InvalidArgument));
    assert_eq!(c.get_lottery_info(), 1);
    assert_eq!(c.run_lottery(&Auth::signed_by(10), 0), Ok(()));
    assert_eq!(c.get_balance(1), 10);
    assert_eq!(c.run_lottery(&Auth::signed_by(10), 0), Err(Error::NoParticipants));
}

#[test]
fn second_vote_is_refused_and_tallies_stay() {
    let mut c = TrustContract::new();
    funded(&mut c, 1, 2);
    funded(&mut c, 2, 1);
    c.vote(&Auth::signed_by(1), 1, 7, true).unwrap();
    c.vote(&Auth::signed_by(2), 2, 7, false).unwrap();
    assert_eq!(c.get_proposal_stats(7), (10, 5));

    funded(&mut c, 1, 3);
    assert_eq!(c.vote(&Auth::signed_by(1), 1, 7, true), Err(Error::AlreadyVoted));
    assert_eq!(c.vote(&Auth::signed_by(1), 1, 7, false), Err(Error::AlreadyVoted));
    assert_eq!(c.get_proposal_stats(7), (10, 5));

    assert_eq!(c.vote(&Auth::signed_by(1), 1, 8, false), Ok(()));
    assert_eq!(c.get_proposal_stats(8), (0, 25));
    assert_eq!(c.get_proposal_stats(7), (10, 5));
}

#[test]
fn vote_needs_weight() {
    let mut c = TrustContract::new();
    assert_eq!(c.vote(&Auth::signed_by(1), 1, 1, true), Err(Error::NoWeight));
    assert_eq!(c.get_proposal_stats(1), (0, 0));
    funded(&mut c, 1, 1);
    assert_eq!(c.vote(&Auth::signed_by(1), 1, 1, true), Ok(()));
    assert_eq!(c.vote(&Auth::signed_by(1), 1, 1, true), Err(Error::AlreadyVoted));
}

#[test]
fn proposals_are_numbered_and_paid() {
    let mut c = TrustContract::new();
    funded(&mut c, 1, 41);
    assert_eq!(c.create_proposal(&Auth::signed_by(1), 1), Ok(1));
    assert_eq!(c.create_proposal(&Auth::signed_by(1), 1), Ok(2));
    assert_eq!(c.get_balance(1), 5);
    assert_eq!(c.create_proposal(&Auth::signed_by(1), 1), Err(Error::InsufficientBalance));
    assert_eq!(c.get_balance(1), 5);
}

#[test]
fn renewal_before_expiry_extends_from_the_expiry() {
    let mut c = TrustContract::new();
    funded(&mut c, 1, 20);
    c.subscribe(&Auth::signed_by(1), 1, 1_000).unwrap();
    assert_eq!(c.is_subscribed(1, 1_000 + 2_592_000 - 1), true);
    assert_eq!(c.is_subscribed(1, 1_000 + 2_592_000), false);

    c.subscribe(&Auth::signed_by(1), 1, 5_000).unwrap();
    assert_eq!(c.is_subscribed(1, 1_000 + 2 * 2_592_000 - 1), true);
    assert_eq!(c.is_subscribed(1, 1_000 + 2 * 2_592_000), false);
    assert_eq!(c.get_balance(1), 0);
    assert_eq!(
        c.take_events().last(),
        Some(&Event::Subscribed { user: 1, expiry: 1_000 + 2 * 2_592_000 })
    );
}

#[test]
fn renewal_after_expiry_starts_from_now() {
    let mut c = TrustContract::new();
    funded(&mut c, 1, 20);
    c.subscribe(&Auth::signed_by(1), 1, 1_000).unwrap();
    let later = 1_000 + 2_592_000 + 77;
    assert_eq!(c.is_subscribed(1, later), false);

    c.subscribe(&Auth::signed_by(1), 1, later).unwrap();
    assert_eq!(c.is_subscribed(1, later + 2_592_000 - 1), true);
    assert_eq!(c.is_subscribed(1, later + 2_592_000), false);
}

#[test]
fn renewal_at_the_instant_of_expiry_starts_from_now() {
    let mut c = TrustContract::new();
    funded(&mut c, 1, 20);
    c.subscribe(&Auth::signed_by(1), 1, 0).unwrap();
    c.subscribe(&Auth::signed_by(1), 1, 2_592_000).unwrap();
    assert_eq!(c.is_subscribed(1, 2 * 2_592_000 - 1), true);
    assert_eq!(c.is_subscribed(1, 2 * 2_592_000), false);
}

#[test]
fn bond_opens_after_thirty_days() {
    let mut c = TrustContract::new();
    c.stake(&Auth::signed_by(1), 1, None, 1_000).unwrap();
    assert_eq!(c.get_bond_time(1), 1_000);
    assert_eq!(c.get_bond_time(2), 0);
    assert_eq!(c.withdraw(&Auth::signed_by(1), 1, 1_000 + 30 * 86_400 - 1), Err(Error::BondLocked));
    assert_eq!(c.withdraw(&Auth::signed_by(1), 1, 999), Err(Error::BondLocked));
    assert_eq!(c.is_bonded(1), true);
    assert_eq!(c.withdraw(&Auth::signed_by(1), 1, 1_000 + 30 * 86_400), Ok(()));
    assert_eq!(c.is_bonded(1), false);
    assert_eq!(c.get_trust(1), 0);
    assert_eq!(c.withdraw(&Auth::signed_by(1), 1, 1_000 + 30 * 86_400), Err(Error::NotFound));
}

#[test]
fn unbonding_takes_at_most_what_is_there() {
    let mut c = TrustContract::new();
    c.init(10).unwrap();
    c.stake(&Auth::signed_by(1), 1, None, 0).unwrap();
    for _ in 0..4 {
        c.decay(&Auth::signed_by(10), 1).unwrap();
    }
    assert_eq!(c.get_trust(1), 6);
    c.force_unbond(&Auth::signed_by(10), 1).unwrap();
    assert_eq!(c.get_trust(1), 0);
    assert_eq!(c.force_unbond(&Auth::signed_by(10), 1), Ok(()));
    assert_eq!(c.force_unbond(&Auth::signed_by(1), 1), Err(Error::Unauthorized));
}

#[test]
fn decay_stops_at_zero() {
    let mut c = TrustContract::new();
    c.init(10).unwrap();
    assert_eq!(c.decay(&Auth::signed_by(10), 1), Ok(()));
    assert_eq!(c.get_trust(1), 0);
    assert_eq!(c.take_events(), vec![]);
    assert_eq!(c.add_trust(&Auth::signed_by(1), 1), Ok(1));
    assert_eq!(c.add_trust(&Auth::signed_by(1), 1), Ok(2));
    c.decay(&Auth::signed_by(10), 1).unwrap();
    assert_eq!(c.get_trust(1), 1);
    assert_eq!(c.take_events(), vec![Event::Decayed { user: 1, score: 1 }]);
    assert_eq!(c.decay(&Auth::signed_by(1), 1), Err(Error::Unauthorized));
}

#[test]
fn transfer_refusals_and_self_transfer() {
    let mut c = TrustContract::new();
    funded(&mut c, 1, 2);
    assert_eq!(c.transfer_bzr(&Auth::signed_by(1), 1, 2, 11), Err(Error::InsufficientBalance));
    assert_eq!(c.transfer_bzr(&Auth::signed_by(2), 1, 2, 1), Err(Error::Unauthorized));
    assert_eq!(c.transfer_bzr(&Auth::none(), 1, 2, 1), Err(Error::Unauthorized));
    assert_eq!(c.get_balance(1), 10);
    assert_eq!(c.transfer_bzr(&Auth::signed_by(1), 1, 1, 10), Ok(()));
    assert_eq!(c.get_balance(1), 10);
    assert_eq!(c.transfer_bzr(&Auth::signed_by(1), 1, 2, 0), Ok(()));
    assert_eq!(c.transfer_bzr(&Auth::signed_by(1).with(3), 1, 2, 10), Ok(()));
    assert_eq!(c.get_balance(1), 0);
    assert_eq!(c.get_balance(2), 10);
}

#[test]
fn badge_and_directory() {
    let mut c = TrustContract::new();
    let gold = Symbol::short("gold").unwrap();
    let silver = Symbol::short("silver").unwrap();
    assert_eq!(c.buy_badge(&Auth::signed_by(1), 1, gold), Err(Error::InsufficientBalance));
    funded(&mut c, 1, 10);
    c.buy_badge(&Auth::signed_by(1), 1, gold).unwrap();
    assert_eq!(c.has_badge(1, gold), true);
    assert_eq!(c.has_badge(1, silver), false);
    assert_eq!(c.has_badge(2, gold), false);

    let name = Symbol::short("Ana").unwrap();
    assert_eq!(c.get_address_by_nickname(name), None);
    c.set_nickname(&Auth::signed_by(1), 1, name).unwrap();
    c.set_nickname(&Auth::signed_by(2), 2, name).unwrap();
    assert_eq!(c.get_address_by_nickname(name), Some(2));
    assert_eq!(c.get_nickname(1), name);
    assert_eq!(c.get_nickname(3), Symbol::short("User").unwrap());
}

#[test]
fn inbox_keeps_the_order() {
    let mut c = TrustContract::new();
    c.send_message(&Auth::signed_by(1), 1, 3, String::from("first")).unwrap();
    c.send_message(&Auth::signed_by(2), 2, 3, String::from("second")).unwrap();
    let got = c.get_messages(3);
    assert_eq!(got.len(), 2);
    assert_eq!(got[0].sender, 1);
    assert_eq!(got[0].text, "first");
    assert_eq!(got[1].sender, 2);
    assert_eq!(got[1].text, "second");
    assert_eq!(c.get_messages(1).len(), 0);
    assert_eq!(c.send_message(&Auth::none(), 1, 3, String::from("x")), Err(Error::Unauthorized));
}
