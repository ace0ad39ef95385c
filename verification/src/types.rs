//! Records held by the marketplace: assets, purchases, access requests.

use vstd::prelude::*;

use crate::identity::Address;

verus! {

/// The error kinds an operation can surface.  Every error is terminal for
/// the invocation: the state is left exactly as it was.
#[derive(Clone, Copy, Debug, PartialEq, Eq, Structural)]
pub enum Error {
    DataAssetNotFound,
    InsufficientPayment,
    UnauthorizedAccess,
    AssetAlreadyPurchased,
    InvalidPrice,
}

/// A listed data product.  Immutable after creation except for `is_active`.
#[derive(Debug)]
pub struct DataAsset {
    pub id: String,
    pub title: String,
    pub description: String,
    pub data_type: String,
    pub price: i128,
    pub seller: Address,
    pub ipfs_cid: String,
    pub encryption_key: String,
    pub listed_date: u64,
    pub size: String,
    pub is_active: bool,
}

/// The mathematical value of a [`DataAsset`].
pub struct AssetView {
    pub id: Seq<char>,
    pub title: Seq<char>,
    pub description: Seq<char>,
    pub data_type: Seq<char>,
    pub price: int,
    pub seller: Seq<char>,
    pub ipfs_cid: Seq<char>,
    pub encryption_key: Seq<char>,
    pub listed_date: u64,
    pub size: Seq<char>,
    pub is_active: bool,
}

impl View for DataAsset {
    type V = AssetView;

    open spec fn view(&self) -> AssetView {
        AssetView {
            id: self.id@,
            title: self.title@,
            description: self.description@,
            data_type: self.data_type@,
            price: self.price as int,
            seller: self.seller@,
            ipfs_cid: self.ipfs_cid@,
            encryption_key: self.encryption_key@,
            listed_date: self.listed_date,
            size: self.size@,
            is_active: self.is_active,
        }
    }
}

impl Clone for DataAsset {
    fn clone(&self) -> (r: Self)
        ensures
            r@ == self@,
    {
        DataAsset {
            id: self.id.clone(),
            title: self.title.clone(),
            description: self.description.clone(),
            data_type: self.data_type.clone(),
            price: self.price,
            seller: self.seller.clone(),
            ipfs_cid: self.ipfs_cid.clone(),
            encryption_key: self.encryption_key.clone(),
            listed_date: self.listed_date,
            size: self.size.clone(),
            is_active: self.is_active,
        }
    }
}

/// Evidence that a buyer paid for an asset.  Written at most once per
/// `(buyer, asset_id)` pair and immutable thereafter.
#[derive(Debug)]
pub struct PurchaseRecord {
    pub buyer: Address,
    pub asset_id: String,
    pub price_paid: i128,
    pub purchase_date: u64,
    pub access_granted: bool,
}

/// The mathematical value of a [`PurchaseRecord`].
pub struct PurchaseView {
    pub buyer: Seq<char>,
    pub asset_id: Seq<char>,
    pub price_paid: int,
    pub purchase_date: u64,
    pub access_granted: bool,
}

impl View for PurchaseRecord {
    type V = PurchaseView;

    open spec fn view(&self) -> PurchaseView {
        PurchaseView {
            buyer: self.buyer@,
            asset_id: self.asset_id@,
            price_paid: self.price_paid as int,
            purchase_date: self.purchase_date,
            access_granted: self.access_granted,
        }
    }
}

impl Clone for PurchaseRecord {
    fn clone(&self) -> (r: Self)
        ensures
            r@ == self@,
    {
        PurchaseRecord {
            buyer: self.buyer.clone(),
            asset_id: self.asset_id.clone(),
            price_paid: self.price_paid,
            purchase_date: self.purchase_date,
            access_granted: self.access_granted,
        }
    }
}

/// A request to license a category of data outside the listed-asset flow.
/// `approved` moves from `false` to `true` at most once, by the admin.
#[derive(Debug)]
pub struct DataAccessRequest {
    pub requester: Address,
    pub data_type: String,
    pub price: i128,
    pub duration_days: u32,
    pub approved: bool,
    pub created_date: u64,
}

/// The mathematical value of a [`DataAccessRequest`].
pub struct RequestView {
    pub requester: Seq<char>,
    pub data_type: Seq<char>,
    pub price: int,
    pub duration_days: u32,
    pub approved: bool,
    pub created_date: u64,
}

impl View for DataAccessRequest {
    type V = RequestView;

    open spec fn view(&self) -> RequestView {
        RequestView {
            requester: self.requester@,
            data_type: self.data_type@,
            price: self.price as int,
            duration_days: self.duration_days,
            approved: self.approved,
            created_date: self.created_date,
        }
    }
}

impl Clone for DataAccessRequest {
    fn clone(&self) -> (r: Self)
        ensures
            r@ == self@,
    {
        DataAccessRequest {
            requester: self.requester.clone(),
            data_type: self.data_type.clone(),
            price: self.price,
            duration_days: self.duration_days,
            approved: self.approved,
            created_date: self.created_date,
        }
    }
}

/// Counts reported by the statistics query: how many listings the catalog
/// index holds (every listing ever made, re-listings included) and how many
/// access requests exist.
#[derive(Clone, Copy, Debug, PartialEq, Eq, Structural)]
pub struct ContractStats {
    pub assets: i128,
    pub requests: i128,
}

/// The views of a sequence of assets, element by element.
pub open spec fn asset_views(s: Seq<DataAsset>) -> Seq<AssetView> {
    s.map_values(|a: DataAsset| a@)
}

/// The views of a sequence of purchase records, element by element.
pub open spec fn purchase_views(s: Seq<PurchaseRecord>) -> Seq<PurchaseView> {
    s.map_values(|p: PurchaseRecord| p@)
}

/// The views of a sequence of access requests, element by element.
pub open spec fn request_views(s: Seq<DataAccessRequest>) -> Seq<RequestView> {
    s.map_values(|r: DataAccessRequest| r@)
}

} // verus!
