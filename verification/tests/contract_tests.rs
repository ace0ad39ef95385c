use bookie::Address;
use bookie::BookieContract;
use bookie::types::Error;

fn addr(key: &str) -> Address {
    Address::new(key.to_string())
}

fn list(
    c: &mut BookieContract,
    seller: &Address,
    id: &str,
    title: &str,
    description: &str,
    data_type: &str,
    price: i128,
    ipfs_cid: &str,
    encryption_key: &str,
    size: &str,
) -> Result<(), Error> {
    c.list_data_asset(
        seller,
        1_700_000_000,
        seller.clone(),
        id.to_string(),
        title.to_string(),
        description.to_string(),
        data_type.to_string(),
        price,
        ipfs_cid.to_string(),
        encryption_key.to_string(),
        size.to_string(),
    )
}

#[test]
fn test_contract_initialization() {
    let mut contract = BookieContract::new();
    let admin = addr("admin");

    contract.initialize(admin);

    let stats = contract.get_stats();
    assert_eq!(stats.assets, 0);
}

#[test]
fn test_list_data_asset() {
    let mut contract = BookieContract::new();
    let admin = addr("admin");
    let seller = addr("seller");

    contract.initialize(admin);

    let result = list(
        &mut contract,
        &seller,
        "asset_001",
        "Test Sağlık Verisi",
        "Anonim sağlık verileri",
        "health",
        100_000_000i128,
        "QmTestIPFSHash123",
        "encryption_key_123",
        "2.5MB",
    );

    assert!(result.is_ok());

    let assets = contract.get_data_assets();
    assert_eq!(assets.len(), 1);

    let asset = &assets[0];
    assert_eq!(asset.title, "Test Sağlık Verisi".to_string());
    assert_eq!(asset.price, 100_000_000i128);
    assert_eq!(asset.seller, seller);
}

#[test]
fn test_purchase_data_asset() {
    let mut contract = BookieContract::new();
    let admin = addr("admin");
    let seller = addr("seller");
    let buyer = addr("buyer");

    contract.initialize(admin);

    list(
        &mut contract,
        &seller,
        "asset_001",
        "Test Verisi",
        "Test açıklaması",
        "health",
        100_000_000i128,
        "QmTestIPFSHash",
        "test_encryption_key",
        "1MB",
    )
    .unwrap();

    let encryption_key = contract.purchase_data(
        &buyer,
        1_700_000_100,
        buyer.clone(),
        "asset_001".to_string(),
        100_000_000i128,
    );

    assert!(encryption_key.is_ok());
    assert_eq!(encryption_key.unwrap(), "test_encryption_key".to_string());

    let purchases = contract.get_user_purchases(buyer.clone());
    assert_eq!(purchases.len(), 1);

    let purchase = &purchases[0];
    assert_eq!(purchase.buyer, buyer);
    assert_eq!(purchase.asset_id, "asset_001".to_string());
    assert_eq!(purchase.price_paid, 100_000_000i128);
}

#[test]
fn purchase_flow_returns_secret_once() {
    let mut contract = BookieContract::new();
    let seller = addr("S");
    let buyer = addr("B");

    list(
        &mut contract,
        &seller,
        "a1",
        "Title",
        "Description",
        "health",
        100,
        "QmCid",
        "stored_secret",
        "1MB",
    )
    .unwrap();

    let secret = contract.purchase_data(&buyer, 7, buyer.clone(), "a1".to_string(), 100);
    assert_eq!(secret.unwrap(), "stored_secret".to_string());

    let purchases = contract.get_user_purchases(buyer.clone());
    assert_eq!(purchases.len(), 1);
    assert_eq!(purchases[0].asset_id, "a1".to_string());
    assert_eq!(purchases[0].price_paid, 100);

    let again = contract.purchase_data(&buyer, 8, buyer.clone(), "a1".to_string(), 100);
    assert_eq!(again.unwrap_err(), Error::AssetAlreadyPurchased);
    assert_eq!(contract.get_user_purchases(buyer).len(), 1);
}

#[test]
fn stats_count_listings_and_requests() {
    let mut contract = BookieContract::new();
    let seller = addr("seller");
    let requester = addr("requester");

    for id in ["a1", "a2", "a3"] {
        list(
            &mut contract,
            &seller,
            id,
            "Title",
            "Description",
            "health",
            10,
            "QmCid",
            "secret",
            "1MB",
        )
        .unwrap();
    }
    for _ in 0..2 {
        contract
            .create_request(&requester, 5, requester.clone(), "health".to_string(), 10, 30)
            .unwrap();
    }

    let stats = contract.get_stats();
    assert_eq!(stats.assets, 3);
    assert_eq!(stats.requests, 2);
}

#[test]
fn listing_rejects_non_positive_price() {
    let mut contract = BookieContract::new();
    let seller = addr("seller");

    for bad_price in [0i128, -5i128] {
        let result = list(
            &mut contract,
            &seller,
            "a1",
            "Title",
            "Description",
            "health",
            bad_price,
            "QmCid",
            "secret",
            "1MB",
        );
        assert_eq!(result.unwrap_err(), Error::InvalidPrice);
    }

    assert_eq!(contract.get_stats().assets, 0);
    assert!(contract.get_data_assets().is_empty());
}

#[test]
fn listing_rejects_wrong_caller() {
    let mut contract = BookieContract::new();
    let seller = addr("seller");
    let intruder = addr("intruder");

    let result = contract.list_data_asset(
        &intruder,
        1,
        seller,
        "a1".to_string(),
        "Title".to_string(),
        "Description".to_string(),
        "health".to_string(),
        10,
        "QmCid".to_string(),
        "secret".to_string(),
        "1MB".to_string(),
    );
    assert_eq!(result.unwrap_err(), Error::UnauthorizedAccess);
    assert_eq!(contract.get_stats().assets, 0);
}

#[test]
fn purchase_rejects_missing_asset() {
    let mut contract = BookieContract::new();
    let buyer = addr("buyer");

    let result = contract.purchase_data(&buyer, 1, buyer.clone(), "nope".to_string(), 100);
    assert_eq!(result.unwrap_err(), Error::DataAssetNotFound);
}

#[test]
fn purchase_rejects_insufficient_payment() {
    let mut contract = BookieContract::new();
    let seller = addr("seller");
    let buyer = addr("buyer");

    list(
        &mut contract,
        &seller,
        "a1",
        "Title",
        "Description",
        "health",
        100,
        "QmCid",
        "secret",
        "1MB",
    )
    .unwrap();

    let result = contract.purchase_data(&buyer, 2, buyer.clone(), "a1".to_string(), 99);
    assert_eq!(result.unwrap_err(), Error::InsufficientPayment);
    assert!(contract.get_user_purchases(buyer).is_empty());
}

#[test]
fn purchase_rejects_wrong_caller() {
    let mut contract = BookieContract::new();
    let seller = addr("seller");
    let buyer = addr("buyer");

    list(
        &mut contract,
        &seller,
        "a1",
        "Title",
        "Description",
        "health",
        100,
        "QmCid",
        "secret",
        "1MB",
    )
    .unwrap();

    let result = contract.purchase_data(&seller, 2, buyer.clone(), "a1".to_string(), 100);
    assert_eq!(result.unwrap_err(), Error::UnauthorizedAccess);
    assert!(contract.get_user_purchases(buyer).is_empty());
}

#[test]
fn enumeration_keeps_listing_order() {
    let mut contract = BookieContract::new();
    let seller = addr("seller");

    for id in ["first", "second", "third"] {
        list(
            &mut contract,
            &seller,
            id,
            "Title",
            "Description",
            "health",
            10,
            "QmCid",
            "secret",
            "1MB",
        )
        .unwrap();
    }

    let assets = contract.get_data_assets();
    assert_eq!(assets.len(), 3);
    assert_eq!(assets[0].id, "first".to_string());
    assert_eq!(assets[1].id, "second".to_string());
    assert_eq!(assets[2].id, "third".to_string());
    assert!(assets.iter().all(|a| a.is_active));
}

#[test]
fn relisting_overwrites_record_and_grows_index() {
    let mut contract = BookieContract::new();
    let seller = addr("seller");

    list(
        &mut contract,
        &seller,
        "a1",
        "Old title",
        "Description",
        "health",
        10,
        "QmCid",
        "secret",
        "1MB",
    )
    .unwrap();
    list(
        &mut contract,
        &seller,
        "a1",
        "New title",
        "Description",
        "health",
        20,
        "QmCid2",
        "secret2",
        "2MB",
    )
    .unwrap();

    // The record is overwritten; the catalog index keeps both listings.
    assert_eq!(contract.get_stats().assets, 2);
    let details = contract.get_asset_details("a1".to_string()).unwrap();
    assert_eq!(details.title, "New title".to_string());
    assert_eq!(details.price, 20);

    let assets = contract.get_data_assets();
    assert_eq!(assets.len(), 2);
    assert_eq!(assets[0].title, "New title".to_string());
    assert_eq!(assets[1].title, "New title".to_string());
}

#[test]
fn asset_details_misses_unknown_id() {
    let contract = BookieContract::new();
    assert!(contract.get_asset_details("nope".to_string()).is_none());
}

#[test]
fn approve_request_flips_exactly_one_request() {
    let mut contract = BookieContract::new();
    let admin = addr("admin");
    let requester = addr("requester");

    contract.initialize(admin.clone());
    contract
        .create_request(&requester, 1, requester.clone(), "health".to_string(), 10, 30)
        .unwrap();
    contract
        .create_request(&requester, 2, requester.clone(), "finance".to_string(), 20, 60)
        .unwrap();

    contract.approve_request(&admin, 1).unwrap();

    let requests = contract.get_requests();
    assert_eq!(requests.len(), 2);
    assert!(!requests[0].approved);
    assert!(requests[1].approved);
    assert_eq!(requests[1].data_type, "finance".to_string());
    assert_eq!(requests[1].price, 20);
}

#[test]
fn approve_request_rejects_non_admin() {
    let mut contract = BookieContract::new();
    let admin = addr("admin");
    let requester = addr("requester");

    contract.initialize(admin);
    contract
        .create_request(&requester, 1, requester.clone(), "health".to_string(), 10, 30)
        .unwrap();

    let result = contract.approve_request(&requester, 0);
    assert_eq!(result.unwrap_err(), Error::UnauthorizedAccess);
    assert!(!contract.get_requests()[0].approved);
}

#[test]
fn approve_request_ignores_out_of_range_index() {
    let mut contract = BookieContract::new();
    let admin = addr("admin");
    let requester = addr("requester");

    contract.initialize(admin.clone());
    contract
        .create_request(&requester, 1, requester.clone(), "health".to_string(), 10, 30)
        .unwrap();

    contract.approve_request(&admin, 5).unwrap();
    assert!(!contract.get_requests()[0].approved);
}

#[test]
fn create_request_rejects_wrong_caller() {
    let mut contract = BookieContract::new();
    let requester = addr("requester");
    let intruder = addr("intruder");

    let result =
        contract.create_request(&intruder, 1, requester.clone(), "health".to_string(), 10, 30);
    assert_eq!(result.unwrap_err(), Error::UnauthorizedAccess);
    assert!(contract.get_requests().is_empty());
}

#[test]
fn listing_records_submitted_fields() {
    let mut contract = BookieContract::new();
    let seller = addr("seller");

    list(
        &mut contract,
        &seller,
        "a1",
        "Title",
        "Long description",
        "health",
        42,
        "QmCid",
        "secret",
        "3MB",
    )
    .unwrap();

    let a = contract.get_asset_details("a1".to_string()).unwrap();
    assert_eq!(a.id, "a1".to_string());
    assert_eq!(a.title, "Title".to_string());
    assert_eq!(a.description, "Long description".to_string());
    assert_eq!(a.data_type, "health".to_string());
    assert_eq!(a.price, 42);
    assert_eq!(a.seller, seller);
    assert_eq!(a.ipfs_cid, "QmCid".to_string());
    assert_eq!(a.encryption_key, "secret".to_string());
    assert_eq!(a.listed_date, 1_700_000_000);
    assert_eq!(a.size, "3MB".to_string());
    assert!(a.is_active);
}

fn sample_asset(id: &str, seller: &Address) -> bookie::DataAsset {
    bookie::DataAsset {
        id: id.to_string(),
        title: "Title".to_string(),
        description: "Description".to_string(),
        data_type: "health".to_string(),
        price: 10,
        seller: seller.clone(),
        ipfs_cid: "QmCid".to_string(),
        encryption_key: "secret".to_string(),
        listed_date: 1,
        size: "1MB".to_string(),
        is_active: true,
    }
}

#[test]
fn from_parts_rebuilds_a_stored_state() {
    let mut contract = BookieContract::new();
    let seller = addr("seller");
    list(
        &mut contract,
        &seller,
        "a1",
        "Title",
        "Description",
        "health",
        10,
        "QmCid",
        "secret",
        "1MB",
    )
    .unwrap();

    let rebuilt = BookieContract::from_parts(
        contract.admin().clone(),
        contract.asset_ids().clone(),
        contract.assets().clone(),
        contract.purchases().clone(),
        contract.get_requests(),
    )
    .unwrap();

    assert_eq!(rebuilt.get_stats().assets, 1);
    let details = rebuilt.get_asset_details("a1".to_string()).unwrap();
    assert_eq!(details.title, "Title".to_string());
}

#[test]
fn from_parts_rejects_duplicate_asset_ids() {
    let seller = addr("seller");
    let assets = vec![sample_asset("a1", &seller), sample_asset("a1", &seller)];
    let rebuilt = BookieContract::from_parts(None, Vec::new(), assets, Vec::new(), Vec::new());
    assert!(rebuilt.is_none());
}

#[test]
fn from_parts_rejects_duplicate_purchase_pairs() {
    let buyer = addr("buyer");
    let record = bookie::PurchaseRecord {
        buyer: buyer.clone(),
        asset_id: "a1".to_string(),
        price_paid: 10,
        purchase_date: 1,
        access_granted: true,
    };
    let purchases = vec![record.clone(), record];
    let rebuilt =
        BookieContract::from_parts(None, Vec::new(), Vec::new(), purchases, Vec::new());
    assert!(rebuilt.is_none());
}
