//! Tests of the marketplace ledger: minting, listing, buying,
//! cancelling, and the read-side projections.
//!
//! Prices are fixed-point amounts in thousandths of the native
//! token: `1500` stands for 1.5.

use genenft::models::{MarketError, XMLUploadRequest, NFT};
use genenft::state::AppState;

const W1: &str = "0x1234567890123456789012345678901234567890";
const W2: &str = "0x0987654321098765432109876543210987654321";

fn upload(name: &str, xml: &[u8], wallet: &str) -> XMLUploadRequest {
    XMLUploadRequest {
        name: name.to_string(),
        description: "a test upload".to_string(),
        external_url: "https://example.com/item".to_string(),
        license: "MIT".to_string(),
        xml_file: xml.to_vec(),
        wallet_address: wallet.to_string(),
    }
}

#[test]
fn seed_state_holds_two_unlisted_records() {
    let state = AppState::new();
    let all = state.get_all_nfts();
    assert_eq!(all.len(), 2);
    assert!(all.iter().all(|n| !n.is_listed && n.price.is_none()));
    assert_eq!(state.get_nft_by_id("1").unwrap().owner, W1);
    assert_eq!(state.get_nft_by_id("2").unwrap().owner, W2);
    assert!(state.get_nft_by_id("missing").is_none());
    assert_eq!(state.get_active_listings().len(), 0);
}

#[test]
fn upload_mints_a_collectible() {
    let mut state = AppState::new();
    let nft = state.mint_nft(upload("First", b"<a/>", W1)).unwrap();
    assert_eq!(nft.owner, W1);
    assert!(!nft.is_listed);
    assert!(nft.price.is_none());
    assert!(nft.listing_date.is_none());
    assert_eq!(nft.xml_hash.len(), 64);
    assert!(nft.xml_hash.chars().all(|c| c.is_ascii_hexdigit()));
    assert_eq!(nft.token_id, "GENE-00000003");
    assert_eq!(nft.id.len(), 36);
    assert_eq!(nft.xml_content, "<a/>");
    assert!(nft.metadata.image.starts_with("data:image/svg+xml;base64,"));
    // the tier is consistent with the fingerprint's letter count
    let letters = nft.xml_hash.chars().filter(|c| ('a'..='f').contains(c)).count();
    let expected = match letters {
        0..=2 => "Common",
        3..=4 => "Rare",
        5..=6 => "Epic",
        _ => "Legendary",
    };
    assert_eq!(nft.rarity, expected);
    // the attribute list carries fingerprint, tier and size
    let attrs = &nft.metadata.attributes;
    assert_eq!(attrs.len(), 3);
    assert_eq!(attrs[0].trait_type, "XML Hash");
    assert_eq!(attrs[0].value, nft.xml_hash);
    assert_eq!(attrs[1].trait_type, "Rarity");
    assert_eq!(attrs[1].value, nft.rarity);
    assert_eq!(attrs[2].trait_type, "File Size");
    assert_eq!(attrs[2].value, "4 bytes");
    // the record is registered
    let fetched = state.get_nft_by_id(&nft.id).unwrap();
    assert_eq!(fetched.owner, W1);
    assert_eq!(state.get_all_nfts().len(), 3);
}

#[test]
fn upload_rejects_empty_required_fields() {
    let mut state = AppState::new();
    assert!(matches!(state.mint_nft(upload("", b"<a/>", W1)), Err(MarketError::Validation)));
    assert!(matches!(state.mint_nft(upload("x", b"", W1)), Err(MarketError::Validation)));
    assert!(matches!(state.mint_nft(upload("x", b"<a/>", "")), Err(MarketError::Validation)));
    let mut req = upload("x", b"<a/>", W1);
    req.description = String::new();
    assert!(matches!(state.mint_nft(req), Err(MarketError::Validation)));
    assert_eq!(state.get_all_nfts().len(), 2);
}

#[test]
fn add_nft_requires_a_fresh_unlisted_record() {
    let mut state = AppState::new();
    let mut copy: NFT = state.get_nft_by_id("1").unwrap();
    // the id already exists
    assert!(matches!(state.add_nft(copy.clone()), Err(MarketError::Validation)));
    // a fresh id, but marked listed without a listing
    copy.id = "fresh".to_string();
    copy.is_listed = true;
    assert!(matches!(state.add_nft(copy.clone()), Err(MarketError::Validation)));
    copy.is_listed = false;
    copy.price = None;
    copy.listing_date = None;
    assert!(matches!(state.add_nft(copy), Ok(())));
    assert!(state.get_nft_by_id("fresh").is_some());
}

#[test]
fn listing_success_and_double_listing() {
    let mut state = AppState::new();
    let listing = state.list_nft("1", 1500, W1).unwrap();
    assert_eq!(listing.nft_id, "1");
    assert_eq!(listing.price, 1500);
    assert_eq!(listing.seller, W1);
    let n = state.get_nft_by_id("1").unwrap();
    assert!(n.is_listed);
    assert_eq!(n.price, Some(1500));
    assert!(n.listing_date.is_some());
    // a second open on the still-active listing fails
    assert!(matches!(state.list_nft("1", 2000, W1), Err(MarketError::AlreadyListed)));
    // and the first listing stands unchanged
    let active = state.get_active_listings();
    assert_eq!(active.len(), 1);
    assert_eq!(active[0].price, 1500);
}

#[test]
fn listing_failure_signals() {
    let mut state = AppState::new();
    assert!(matches!(state.list_nft("missing", 1000, W1), Err(MarketError::NotFound)));
    assert!(matches!(state.list_nft("1", 1000, W2), Err(MarketError::NotOwner)));
    assert!(matches!(state.list_nft("1", 0, W1), Err(MarketError::InvalidPrice)));
    assert_eq!(state.get_active_listings().len(), 0);
    assert!(!state.get_nft_by_id("1").unwrap().is_listed);
}

#[test]
fn buy_transfers_ownership_and_logs_the_sale() {
    let mut state = AppState::new();
    let volume_before = state.get_marketplace_stats().total_volume;
    state.list_nft("1", 1000, W1).unwrap();
    let tx = state.buy_nft("1", W2, 1000).unwrap();
    assert_eq!(tx.nft_id, "1");
    assert_eq!(tx.seller, W1);
    assert_eq!(tx.buyer, W2);
    assert_eq!(tx.price, 1000);
    assert!(tx.transaction_hash.starts_with("0x"));
    assert_eq!(tx.transaction_hash.len(), 34);
    // ownership moved, listing closed, flags cleared
    let n = state.get_nft_by_id("1").unwrap();
    assert_eq!(n.owner, W2);
    assert!(!n.is_listed);
    assert!(n.price.is_none());
    assert!(n.listing_date.is_none());
    assert!(state.get_active_listings().is_empty());
    // the volume grew by exactly the sale price
    let stats = state.get_marketplace_stats();
    assert_eq!(stats.total_volume, volume_before + 1000);
    assert_eq!(stats.recent_transactions.len(), 1);
    assert_eq!(stats.recent_transactions[0].id, tx.id);
}

#[test]
fn buy_enforces_the_asking_price() {
    let mut state = AppState::new();
    state.list_nft("1", 1000, W1).unwrap();
    // a mismatch, even by the smallest fraction, is rejected
    assert!(matches!(state.buy_nft("1", W2, 999), Err(MarketError::PriceMismatch)));
    assert!(matches!(state.buy_nft("1", W2, 1001), Err(MarketError::PriceMismatch)));
    // the listing and the record are untouched
    assert_eq!(state.get_active_listings().len(), 1);
    assert_eq!(state.get_nft_by_id("1").unwrap().owner, W1);
    // the exact price settles
    assert!(state.buy_nft("1", W2, 1000).is_ok());
}

#[test]
fn buy_requires_an_active_listing() {
    let mut state = AppState::new();
    assert!(matches!(state.buy_nft("1", W2, 1000), Err(MarketError::NotListed)));
    assert!(matches!(state.buy_nft("missing", W2, 1000), Err(MarketError::NotListed)));
}

#[test]
fn cancel_requires_the_seller() {
    let mut state = AppState::new();
    state.list_nft("1", 1500, W1).unwrap();
    // a stranger cannot cancel; the listing stays active
    assert!(matches!(state.cancel_listing("1", W2), Err(MarketError::NotOwner)));
    assert_eq!(state.get_active_listings().len(), 1);
    assert!(state.get_nft_by_id("1").unwrap().is_listed);
    // the seller can
    assert!(matches!(state.cancel_listing("1", W1), Ok(())));
    assert!(state.get_active_listings().is_empty());
    let n = state.get_nft_by_id("1").unwrap();
    assert!(!n.is_listed);
    assert!(n.price.is_none());
}

#[test]
fn cancel_requires_an_active_listing() {
    let mut state = AppState::new();
    assert!(matches!(state.cancel_listing("1", W1), Err(MarketError::NotFound)));
    state.list_nft("1", 1500, W1).unwrap();
    state.cancel_listing("1", W1).unwrap();
    // terminal: a cancelled listing cannot be cancelled again
    assert!(matches!(state.cancel_listing("1", W1), Err(MarketError::NotFound)));
}

#[test]
fn at_most_one_active_listing_through_any_sequence() {
    let mut state = AppState::new();
    let check = |state: &AppState| {
        let active = state.get_active_listings();
        let for_one = active.iter().filter(|l| l.nft_id == "1").count();
        assert!(for_one <= 1);
        let listed = state.get_nft_by_id("1").unwrap().is_listed;
        assert_eq!(listed, for_one == 1);
    };
    check(&state);
    state.list_nft("1", 1000, W1).unwrap();
    check(&state);
    state.cancel_listing("1", W1).unwrap();
    check(&state);
    // the collectible may re-enter under a new listing
    state.list_nft("1", 2000, W1).unwrap();
    check(&state);
    state.buy_nft("1", W2, 2000).unwrap();
    check(&state);
    // and again under its new owner
    state.list_nft("1", 3000, W2).unwrap();
    check(&state);
}

#[test]
fn stats_track_floor_and_counts() {
    let mut state = AppState::new();
    let stats = state.get_marketplace_stats();
    assert_eq!(stats.total_listings, 0);
    assert_eq!(stats.floor_price, None);
    assert_eq!(stats.total_volume, 0);
    state.list_nft("1", 2000, W1).unwrap();
    state.list_nft("2", 1500, W2).unwrap();
    let stats = state.get_marketplace_stats();
    assert_eq!(stats.total_listings, 2);
    assert_eq!(stats.floor_price, Some(1500));
}

#[test]
fn recent_sales_come_latest_first() {
    let mut state = AppState::new();
    state.list_nft("1", 1000, W1).unwrap();
    state.buy_nft("1", W2, 1000).unwrap();
    state.list_nft("2", 500, W2).unwrap();
    state.buy_nft("2", W1, 500).unwrap();
    let stats = state.get_marketplace_stats();
    assert_eq!(stats.recent_transactions.len(), 2);
    let a = &stats.recent_transactions[0];
    let b = &stats.recent_transactions[1];
    assert!(a.timestamp >= b.timestamp);
    if a.timestamp == b.timestamp {
        // a tie keeps log order
        assert_eq!(a.nft_id, "1");
        assert_eq!(b.nft_id, "2");
    }
}

#[test]
fn user_collection_follows_ownership() {
    let mut state = AppState::new();
    state.list_nft("1", 1000, W1).unwrap();
    state.buy_nft("1", W2, 1000).unwrap();
    let c2 = state.get_user_collection(W2);
    assert_eq!(c2.wallet_address, W2);
    let owned_ids: Vec<&str> = c2.owned_nfts.iter().map(|n| n.id.as_str()).collect();
    assert!(owned_ids.contains(&"1"));
    assert!(owned_ids.contains(&"2"));
    assert_eq!(c2.transaction_history.len(), 1);
    assert_eq!(c2.transaction_history[0].buyer, W2);
    let c1 = state.get_user_collection(W1);
    assert!(c1.owned_nfts.is_empty());
    assert_eq!(c1.transaction_history.len(), 1);
    assert_eq!(c1.transaction_history[0].seller, W1);
    // the listed subset is owned and flagged
    state.list_nft("2", 700, W2).unwrap();
    let c2 = state.get_user_collection(W2);
    assert_eq!(c2.listed_nfts.len(), 1);
    assert_eq!(c2.listed_nfts[0].id, "2");
}

#[test]
fn error_messages_are_human_readable() {
    assert_eq!(MarketError::NotFound.message(), "NFT not found");
    assert_eq!(MarketError::NotOwner.message(), "You don't own this NFT");
    assert_eq!(MarketError::AlreadyListed.message(), "NFT is already listed");
    assert_eq!(MarketError::InvalidPrice.message(), "Price must be positive");
    assert_eq!(MarketError::NotListed.message(), "NFT not listed for sale");
    assert_eq!(MarketError::PriceMismatch.message(), "Price mismatch");
    assert_eq!(MarketError::Validation.message(), "Missing required field");
}
