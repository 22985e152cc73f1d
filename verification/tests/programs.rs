use swaptrade::bounty::{BountyProgram, ReportStatus};
use swaptrade::credit_waitlist::{CreditWaitlist, Status};
use swaptrade::nft_errors::NFTError;
use swaptrade::nft_market::NftMarketplace;
use swaptrade::nft_types::NFTStandard;
use swaptrade::referral::ReferralProgram;
use swaptrade::waitlist::WaitlistContract;

#[test]
fn waitlist_join_and_approve() {
    let mut w = WaitlistContract::new();
    w.initialize(9, 100);
    assert_eq!(w.admin, Some(9));
    assert!(!w.has_joined(1));
    w.join_waitlist(1);
    assert!(w.has_joined(1));
    assert!(!w.is_approved(1));
    w.approve_user(9, 1);
    assert!(w.is_approved(1));
    assert_eq!(w.approved_count, 1);
    assert!(!w.is_approved(2));
}

#[test]
fn credit_waitlist_releases_in_queue_order() {
    let mut w = CreditWaitlist::new();
    w.initialize(9, 2);
    for u in [10u64, 11, 12] {
        w.join(u);
    }
    assert_eq!(w.get_status(10), Status::Waiting);
    w.release(9);
    assert_eq!(w.get_status(10), Status::Invited);
    assert_eq!(w.get_status(11), Status::Invited);
    assert_eq!(w.get_status(12), Status::Waiting);
    assert_eq!(w.queue_start, 2);
    w.release(9);
    assert_eq!(w.get_status(12), Status::Invited);
    w.release(9);
    assert_eq!(w.queue_start, 3);
    w.onboard(10);
    assert_eq!(w.status_of(10), Some(Status::Onboarded));
    assert_eq!(w.status_of(99), None);
}

#[test]
fn referral_commission_and_withdraw() {
    let mut p = ReferralProgram::new(10);
    p.register_referral(1, 2);
    assert_eq!(p.referrer_of(1), Some(2));
    p.record_volume(1, 1_000);
    p.record_volume(1, 55);
    assert_eq!(p.volume_of(1), 1_055);
    // 10% of 1000 = 100, 10% of 55 = 5 (rounded toward zero)
    assert_eq!(p.commission_of(2), 105);
    p.record_volume(3, 500);
    assert_eq!(p.commission_of(3), 0);
    assert_eq!(p.withdraw(2), 105);
    assert_eq!(p.commission_of(2), 0);
    p.record_volume(1, -15);
    assert_eq!(p.commission_of(2), -1);
}

#[test]
fn bounty_submit_review_claim() {
    let mut b = BountyProgram::new(9);
    let r0 = b.submit(1, b"hash0".to_vec());
    let r1 = b.submit(2, b"hash1".to_vec());
    assert_eq!((r0, r1), (0, 1));
    assert_eq!(b.status_of(r0), Some(ReportStatus::Submitted));
    b.review(9, r0, true, 5_000);
    b.review(9, r1, false, 0);
    assert_eq!(b.status_of(r0), Some(ReportStatus::Approved));
    assert_eq!(b.status_of(r1), Some(ReportStatus::Rejected));
    assert_eq!(b.claim(1, r0), 5_000);
    assert_eq!(b.status_of(r0), Some(ReportStatus::Paid));
    assert_eq!(b.status_of(7), None);
}

#[test]
fn batch_mint_all_or_none() {
    let mut m = NftMarketplace::new(1000);
    let cid = m.create_collection(1, b"Apes".to_vec(), b"APE".to_vec(), vec![], vec![], 3, 0, 1, 5).unwrap();
    let uris = vec![b"a".to_vec(), b"b".to_vec()];
    assert_eq!(m.batch_mint(1, cid, &uris, NFTStandard::ERC721, 7), Ok(vec![1, 2]));
    assert_eq!(m.get_nft(cid, 2).unwrap().metadata_uri, b"b".to_vec());
    assert_eq!(m.get_collection(cid).unwrap().total_supply, 2);
    assert_eq!(m.get_portfolio(1).owned_tokens, vec![1, 2]);
    // two more would pass the cap of 3: nothing is minted
    assert_eq!(m.batch_mint(1, cid, &uris, NFTStandard::ERC721, 8), Err(NFTError::MaxSupplyReached));
    assert_eq!(m.get_total_nfts(), 2);
    assert_eq!(m.batch_mint(2, cid, &uris, NFTStandard::ERC721, 8), Err(NFTError::NotCreator));
    assert_eq!(m.batch_mint(1, 9, &uris, NFTStandard::ERC721, 8), Err(NFTError::CollectionNotFound));
    assert_eq!(m.batch_mint(2, 9, &vec![], NFTStandard::ERC721, 8), Ok(vec![]));
    assert_eq!(m.batch_mint(1, cid, &vec![b"c".to_vec()], NFTStandard::ERC1155, 9), Ok(vec![3]));
    assert_eq!(m.get_collection(cid).unwrap().total_supply, 3);
}

#[test]
fn royalty_and_floor_laws_on_values() {
    let mut m = NftMarketplace::new(1000);
    let cid = m.create_collection(1, b"Apes".to_vec(), vec![], vec![], vec![], 0, 1000, 1, 5).unwrap();
    let mut c = m.get_collection(cid).unwrap();
    assert_eq!(c.calculate_royalty(12_345), 1_234);
    assert!(c.calculate_royalty(12_345) <= 12_345);
    c.update_floor_price(500);
    assert_eq!(c.floor_price, 500);
    c.update_floor_price(800);
    assert_eq!(c.floor_price, 500);
    c.update_floor_price(300);
    assert_eq!(c.floor_price, 300);
}
