use bookie::Address;
use bookie::DataMarketplace;
use bookie::SimpleContract;
use bookie::types::Error;

fn addr(key: &str) -> Address {
    Address::new(key.to_string())
}

#[test]
fn list_data_assigns_sequential_ids() {
    let mut market = DataMarketplace::new();
    let owner = addr("owner");

    let first = market.list_data(&owner, owner.clone(), "QmA".to_string(), 100);
    let second = market.list_data(&owner, owner.clone(), "QmB".to_string(), 200);
    assert_eq!(first.unwrap(), 0);
    assert_eq!(second.unwrap(), 1);

    let a = market.get_asset(0).unwrap();
    assert_eq!(a.ipfs_cid, "QmA".to_string());
    assert_eq!(a.price, 100);
    assert!(!a.is_sold);
}

#[test]
fn list_data_rejects_wrong_caller() {
    let mut market = DataMarketplace::new();
    let owner = addr("owner");
    let intruder = addr("intruder");

    let result = market.list_data(&intruder, owner, "QmA".to_string(), 100);
    assert_eq!(result.unwrap_err(), Error::UnauthorizedAccess);
    assert!(market.get_asset(0).is_none());
}

#[test]
fn buy_data_marks_sold_and_returns_payment() {
    let mut market = DataMarketplace::new();
    let owner = addr("owner");
    let buyer = addr("buyer");
    let token = addr("token_contract");

    let id = market
        .list_data(&owner, owner.clone(), "QmA".to_string(), 100)
        .unwrap();

    let transfer = market.buy_data(&buyer, buyer.clone(), id, token.clone()).unwrap();
    assert_eq!(transfer.token, token);
    assert_eq!(transfer.from, buyer);
    assert_eq!(transfer.to, owner);
    assert_eq!(transfer.amount, 100);

    assert!(market.get_asset(id).unwrap().is_sold);
}

#[test]
fn buy_data_rejects_second_sale() {
    let mut market = DataMarketplace::new();
    let owner = addr("owner");
    let buyer = addr("buyer");
    let other = addr("other");
    let token = addr("token_contract");

    let id = market
        .list_data(&owner, owner.clone(), "QmA".to_string(), 100)
        .unwrap();
    market.buy_data(&buyer, buyer.clone(), id, token.clone()).unwrap();

    let again = market.buy_data(&other, other.clone(), id, token);
    assert_eq!(again.unwrap_err(), Error::AssetAlreadyPurchased);
}

#[test]
fn buy_data_rejects_unknown_id() {
    let mut market = DataMarketplace::new();
    let buyer = addr("buyer");
    let token = addr("token_contract");

    let result = market.buy_data(&buyer, buyer.clone(), 3, token);
    assert_eq!(result.unwrap_err(), Error::DataAssetNotFound);
}

#[test]
fn get_all_assets_pages_by_start_and_limit() {
    let mut market = DataMarketplace::new();
    let owner = addr("owner");

    for (cid, price) in [("QmA", 1i128), ("QmB", 2i128), ("QmC", 3i128)] {
        market
            .list_data(&owner, owner.clone(), cid.to_string(), price)
            .unwrap();
    }

    let middle = market.get_all_assets(1, 1);
    assert_eq!(middle.len(), 1);
    assert_eq!(middle[0].ipfs_cid, "QmB".to_string());

    let clipped = market.get_all_assets(1, 10);
    assert_eq!(clipped.len(), 2);
    assert_eq!(clipped[0].ipfs_cid, "QmB".to_string());
    assert_eq!(clipped[1].ipfs_cid, "QmC".to_string());

    let beyond = market.get_all_assets(5, 2);
    assert!(beyond.is_empty());

    let all = market.get_all_assets(0, 3);
    assert_eq!(all.len(), 3);
}

#[test]
fn hello_answers_fixed_greeting() {
    let mut simple = SimpleContract::new();
    simple.initialize(addr("admin"));
    assert_eq!(simple.hello(addr("anyone")), "Hello World".to_string());
}
