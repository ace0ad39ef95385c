//! A simplified marketplace variant: assets are keyed by a monotonically
//! assigned numeric id, each can be sold once, and enumeration is paginated
//! by a starting id and a limit.

use vstd::prelude::*;

use crate::identity::Address;
use crate::types::Error;

verus! {

/// A data item offered for sale, keyed by its assigned id.
#[derive(Debug)]
pub struct DataAsset {
    pub owner: Address,
    pub ipfs_cid: String,
    pub price: i128,
    pub is_sold: bool,
}

/// The mathematical value of a [`DataAsset`].
pub struct MarketAssetView {
    pub owner: Seq<char>,
    pub ipfs_cid: Seq<char>,
    pub price: int,
    pub is_sold: bool,
}

impl View for DataAsset {
    type V = MarketAssetView;

    open spec fn view(&self) -> MarketAssetView {
        MarketAssetView {
            owner: self.owner@,
            ipfs_cid: self.ipfs_cid@,
            price: self.price as int,
            is_sold: self.is_sold,
        }
    }
}

impl Clone for DataAsset {
    fn clone(&self) -> (r: Self)
        ensures
            r@ == self@,
    {
        DataAsset {
            owner: self.owner.clone(),
            ipfs_cid: self.ipfs_cid.clone(),
            price: self.price,
            is_sold: self.is_sold,
        }
    }
}

/// The payment a successful sale requires of the substrate: `amount` moves
/// from `from` to `to` on the token contract `token`.  The embedding layer
/// performs the transfer and discards the invocation if it fails.
#[derive(Debug)]
pub struct TokenTransfer {
    pub token: Address,
    pub from: Address,
    pub to: Address,
    pub amount: i128,
}

/// The mathematical value of a [`TokenTransfer`].
pub struct TransferView {
    pub token: Seq<char>,
    pub from: Seq<char>,
    pub to: Seq<char>,
    pub amount: int,
}

impl View for TokenTransfer {
    type V = TransferView;

    open spec fn view(&self) -> TransferView {
        TransferView {
            token: self.token@,
            from: self.from@,
            to: self.to@,
            amount: self.amount as int,
        }
    }
}

/// The views of a sequence of assets, element by element.
pub open spec fn market_views(s: Seq<DataAsset>) -> Seq<MarketAssetView> {
    s.map_values(|a: DataAsset| a@)
}

/// The value a sale result reduces to.
pub open spec fn transfer_view(r: Result<TokenTransfer, Error>) -> Result<TransferView, Error> {
    match r {
        Ok(t) => Ok(t@),
        Err(e) => Err(e),
    }
}

/// The transition `list_data` makes: a caller other than the owner is
/// rejected; otherwise the asset is stored under the next id, which is
/// returned.
pub open spec fn spec_list_data(
    pre: Seq<MarketAssetView>,
    caller: Seq<char>,
    owner: Seq<char>,
    ipfs_cid: Seq<char>,
    price: int,
    post: Seq<MarketAssetView>,
    r: Result<u64, Error>,
) -> bool {
    if caller != owner {
        r == Err::<u64, Error>(Error::UnauthorizedAccess) && post == pre
    } else {
        &&& r == Ok::<u64, Error>(pre.len() as u64)
        &&& post == pre.push(MarketAssetView { owner, ipfs_cid, price, is_sold: false })
    }
}

/// The transition `buy_data` makes.  The checks run in this order: the
/// caller must be the buyer, the id must be assigned, and the asset must not
/// be sold yet.  On success the asset is marked sold and the payment the
/// substrate must perform is returned.
pub open spec fn spec_buy_data(
    pre: Seq<MarketAssetView>,
    caller: Seq<char>,
    buyer: Seq<char>,
    asset_id: int,
    token: Seq<char>,
    post: Seq<MarketAssetView>,
    r: Result<TransferView, Error>,
) -> bool {
    if caller != buyer {
        r == Err::<TransferView, Error>(Error::UnauthorizedAccess) && post == pre
    } else if asset_id >= pre.len() {
        r == Err::<TransferView, Error>(Error::DataAssetNotFound) && post == pre
    } else if pre[asset_id].is_sold {
        r == Err::<TransferView, Error>(Error::AssetAlreadyPurchased) && post == pre
    } else {
        &&& r == Ok::<TransferView, Error>(
            TransferView { token, from: buyer, to: pre[asset_id].owner, amount: pre[asset_id].price },
        )
        &&& post == pre.update(asset_id, MarketAssetView { is_sold: true, ..pre[asset_id] })
    }
}

/// One page of the asset table: the assets with ids from `start` up to, but
/// not including, `start + limit`, clipped to the ids assigned so far.
pub open spec fn page(assets: Seq<MarketAssetView>, start: int, limit: int) -> Seq<MarketAssetView> {
    let end = if start + limit < assets.len() {
        start + limit
    } else {
        assets.len() as int
    };
    if start <= end {
        assets.subrange(start, end)
    } else {
        Seq::empty()
    }
}

/// The simplified marketplace state.  The id of an asset is its position in
/// the table; the next id to assign is the table's length.
pub struct DataMarketplace {
    assets: Vec<DataAsset>,
}

impl View for DataMarketplace {
    type V = Seq<MarketAssetView>;

    closed spec fn view(&self) -> Seq<MarketAssetView> {
        market_views(self.assets@)
    }
}

impl DataMarketplace {
    /// The empty marketplace: no asset listed, the next id is zero.
    pub fn new() -> (r: DataMarketplace)
        ensures
            r@ == Seq::<MarketAssetView>::empty(),
    {
        let r = DataMarketplace { assets: Vec::new() };
        proof {
            assert(r@ =~= Seq::<MarketAssetView>::empty());
        }
        r
    }

    /// Rebuilds a marketplace from its asset table, as the embedding layer
    /// loads it from persistent storage.  Position in the table is the id.
    pub fn from_parts(assets: Vec<DataAsset>) -> (r: DataMarketplace)
        ensures
            r@ == market_views(assets@),
    {
        DataMarketplace { assets }
    }

    /// The asset table, in id order.
    pub fn assets(&self) -> (r: &Vec<DataAsset>)
        ensures
            market_views(r@) == self@,
    {
        &self.assets
    }

    /// Offers a data item for sale.  Fails `UnauthorizedAccess` unless the
    /// caller is the owner; otherwise stores the item under the next id and
    /// returns that id.
    pub fn list_data(
        &mut self,
        caller: &Address,
        owner: Address,
        ipfs_cid: String,
        price: i128,
    ) -> (r: Result<u64, Error>)
        ensures
            spec_list_data(old(self)@, caller@, owner@, ipfs_cid@, price as int, final(self)@, r),
    {
        if *caller != owner {
            return Err(Error::UnauthorizedAccess);
        }
        let ghost pre = self@;
        let id = self.assets.len() as u64;
        let asset = DataAsset { owner, ipfs_cid, price, is_sold: false };
        self.assets.push(asset);
        proof {
            assert(self@ =~= pre.push(
                MarketAssetView { owner: asset.owner@, ipfs_cid: asset.ipfs_cid@, price: asset.price as int, is_sold: false },
            ));
        }
        Ok(id)
    }

    /// Buys an asset.  Fails `UnauthorizedAccess` unless the caller is the
    /// buyer, `DataAssetNotFound` when the id is unassigned, and
    /// `AssetAlreadyPurchased` when the asset was sold already.  Otherwise
    /// the asset is marked sold and the payment owed to its owner — on the
    /// token contract `token_contract` — is returned for the substrate to
    /// perform.
    pub fn buy_data(
        &mut self,
        caller: &Address,
        buyer: Address,
        asset_id: u64,
        token_contract: Address,
    ) -> (r: Result<TokenTransfer, Error>)
        ensures
            spec_buy_data(
                old(self)@,
                caller@,
                buyer@,
                asset_id as int,
                token_contract@,
                final(self)@,
                transfer_view(r),
            ),
    {
        if *caller != buyer {
            return Err(Error::UnauthorizedAccess);
        }
        if asset_id >= self.assets.len() as u64 {
            return Err(Error::DataAssetNotFound);
        }
        let i = asset_id as usize;
        if self.assets[i].is_sold {
            return Err(Error::AssetAlreadyPurchased);
        }
        let ghost pre = self@;
        let a = self.assets.remove(i);
        let transfer = TokenTransfer {
            token: token_contract,
            from: buyer,
            to: a.owner.clone(),
            amount: a.price,
        };
        let sold = DataAsset { owner: a.owner, ipfs_cid: a.ipfs_cid, price: a.price, is_sold: true };
        self.assets.insert(i, sold);
        proof {
            assert(self@ =~= pre.update(
                asset_id as int,
                MarketAssetView { is_sold: true, ..pre[asset_id as int] },
            ));
        }
        Ok(transfer)
    }

    /// Looks up an asset by id.
    pub fn get_asset(&self, asset_id: u64) -> (r: Option<DataAsset>)
        ensures
            match r {
                Some(a) => asset_id < self@.len() && a@ == self@[asset_id as int],
                None => asset_id >= self@.len(),
            },
    {
        if asset_id >= self.assets.len() as u64 {
            return None;
        }
        Some(self.assets[asset_id as usize].clone())
    }

    /// Enumerates one page of the table: the assets with ids from `start_id`
    /// up to, but not including, `start_id + limit`, clipped to the ids
    /// assigned so far.
    pub fn get_all_assets(&self, start_id: u64, limit: u64) -> (r: Vec<DataAsset>)
        requires
            start_id + limit <= u64::MAX,
        ensures
            market_views(r@) == page(self@, start_id as int, limit as int),
    {
        let next: u64 = self.assets.len() as u64;
        let sum: u64 = start_id + limit;
        let end: u64 = if sum < next {
            sum
        } else {
            next
        };
        let mut out: Vec<DataAsset> = Vec::new();
        if end <= start_id {
            proof {
                assert(market_views(out@) =~= page(self@, start_id as int, limit as int));
            }
            return out;
        }
        let mut i: u64 = start_id;
        while i < end
            invariant
                start_id <= i <= end,
                end <= next,
                next <= usize::MAX,
                next == self@.len(),
                next == self.assets@.len(),
                market_views(out@) == self@.subrange(start_id as int, i as int),
            decreases end - i,
        {
            proof {
                assert(i as usize as int == i as int);
            }
            out.push(self.assets[i as usize].clone());
            proof {
                assert(self@.subrange(start_id as int, i + 1) =~= self@.subrange(
                    start_id as int,
                    i as int,
                ).push(self@[i as int]));
                assert(market_views(out@) =~= self@.subrange(start_id as int, i + 1));
            }
            i += 1;
        }
        proof {
            assert(market_views(out@) =~= page(self@, start_id as int, limit as int));
        }
        out
    }
}

} // verus!
