//! The marketplace contract: asset catalog, purchase ledger, access-request
//! workflow and statistics, over an explicit state value.
//!
//! Every operation takes the identity the substrate attested for the current
//! invocation (`caller`) and, where a record is created, the substrate's
//! current time (`now`).  Each operation either returns `Ok` and applies
//! exactly the transition its contract states, or returns the error kind its
//! contract states and leaves the state untouched.

use vstd::prelude::*;

use crate::identity::Address;
use crate::types::AssetView;
use crate::types::ContractStats;
use crate::types::DataAccessRequest;
use crate::types::DataAsset;
use crate::types::Error;
use crate::types::PurchaseRecord;
use crate::types::PurchaseView;
use crate::types::RequestView;
use crate::types::asset_views;
use crate::types::purchase_views;
use crate::types::request_views;

verus! {

/// The mathematical value of the whole contract state.
#[verifier::ext_equal]
pub struct StateView {
    /// The admin identity, once `initialize` has stored it.
    pub admin: Option<Seq<char>>,
    /// The catalog index: the id of every listing ever made, in listing
    /// order, re-listings included.
    pub asset_ids: Seq<Seq<char>>,
    /// The asset records, one per distinct id, in first-listing order.
    pub assets: Seq<AssetView>,
    /// The purchase records, in purchase order.
    pub purchases: Seq<PurchaseView>,
    /// The access requests, in creation order.
    pub requests: Seq<RequestView>,
}

/// No two asset records carry the same id.
pub open spec fn unique_asset_ids(assets: Seq<AssetView>) -> bool {
    forall|i: int, j: int|
        #![trigger assets[i], assets[j]]
        0 <= i < j < assets.len() ==> assets[i].id != assets[j].id
}

/// No two purchase records carry the same `(buyer, asset_id)` pair.
pub open spec fn unique_purchases(ps: Seq<PurchaseView>) -> bool {
    forall|i: int, j: int|
        #![trigger ps[i], ps[j]]
        0 <= i < j < ps.len() ==> !(ps[i].buyer == ps[j].buyer && ps[i].asset_id == ps[j].asset_id)
}

/// The state invariant: asset ids identify at most one record, and a buyer
/// holds at most one purchase record per asset, ever.
pub open spec fn state_wf(s: StateView) -> bool {
    &&& unique_asset_ids(s.assets)
    &&& unique_purchases(s.purchases)
}

/// Whether some asset record carries `id`.
pub open spec fn has_asset(assets: Seq<AssetView>, id: Seq<char>) -> bool {
    exists|i: int| 0 <= i < assets.len() && #[trigger] assets[i].id == id
}

/// The position of the asset record carrying `id`; meaningful only when
/// `has_asset` holds and the ids are unique.
pub open spec fn asset_index(assets: Seq<AssetView>, id: Seq<char>) -> int {
    choose|i: int| 0 <= i < assets.len() && #[trigger] assets[i].id == id
}

/// The asset record carrying `id`, if any.
pub open spec fn lookup_asset(assets: Seq<AssetView>, id: Seq<char>) -> Option<AssetView> {
    if has_asset(assets, id) {
        Some(assets[asset_index(assets, id)])
    } else {
        None
    }
}

/// Writing the record `a` under its id: a re-listing replaces the record
/// that held the id, a first listing appends.
pub open spec fn upsert_asset(assets: Seq<AssetView>, a: AssetView) -> Seq<AssetView> {
    if has_asset(assets, a.id) {
        assets.update(asset_index(assets, a.id), a)
    } else {
        assets.push(a)
    }
}

/// Whether `buyer` already holds a purchase record for `asset_id`.
pub open spec fn has_purchase(ps: Seq<PurchaseView>, buyer: Seq<char>, asset_id: Seq<char>) -> bool {
    exists|i: int|
        0 <= i < ps.len() && #[trigger] ps[i].buyer == buyer && ps[i].asset_id == asset_id
}

/// The catalog enumeration: each id of `ids` resolved against `assets`, in
/// order, keeping only the records that resolve and are active.
pub open spec fn active_assets(ids: Seq<Seq<char>>, assets: Seq<AssetView>) -> Seq<AssetView>
    decreases ids.len(),
{
    if ids.len() == 0 {
        Seq::empty()
    } else {
        let rest = active_assets(ids.drop_last(), assets);
        match lookup_asset(assets, ids.last()) {
            Some(a) => if a.is_active {
                rest.push(a)
            } else {
                rest
            },
            None => rest,
        }
    }
}

/// The purchase records of `buyer`, in purchase order.
pub open spec fn user_purchases(ps: Seq<PurchaseView>, buyer: Seq<char>) -> Seq<PurchaseView>
    decreases ps.len(),
{
    if ps.len() == 0 {
        Seq::empty()
    } else {
        let rest = user_purchases(ps.drop_last(), buyer);
        if ps.last().buyer == buyer {
            rest.push(ps.last())
        } else {
            rest
        }
    }
}

/// The record a successful listing writes.
pub open spec fn listed_asset(
    now: u64,
    seller: Seq<char>,
    id: Seq<char>,
    title: Seq<char>,
    description: Seq<char>,
    data_type: Seq<char>,
    price: int,
    ipfs_cid: Seq<char>,
    encryption_key: Seq<char>,
    size: Seq<char>,
) -> AssetView {
    AssetView {
        id,
        title,
        description,
        data_type,
        price,
        seller,
        ipfs_cid,
        encryption_key,
        listed_date: now,
        size,
        is_active: true,
    }
}

/// The transition `initialize` makes: it stores the admin identity,
/// overwriting any earlier one, and touches nothing else.
pub open spec fn spec_initialize(pre: StateView, admin: Seq<char>, post: StateView) -> bool {
    post == StateView { admin: Some(admin), ..pre }
}

/// The transition `list_data_asset` makes.  A caller other than the seller
/// is rejected; a non-positive price is rejected; otherwise the new record
/// replaces any record under the same id and the id is appended to the
/// catalog index.
pub open spec fn spec_list_asset(
    pre: StateView,
    caller: Seq<char>,
    now: u64,
    seller: Seq<char>,
    id: Seq<char>,
    title: Seq<char>,
    description: Seq<char>,
    data_type: Seq<char>,
    price: int,
    ipfs_cid: Seq<char>,
    encryption_key: Seq<char>,
    size: Seq<char>,
    post: StateView,
    r: Result<(), Error>,
) -> bool {
    if caller != seller {
        r == Err::<(), Error>(Error::UnauthorizedAccess) && post == pre
    } else if price <= 0 {
        r == Err::<(), Error>(Error::InvalidPrice) && post == pre
    } else {
        &&& r == Ok::<(), Error>(())
        &&& post == StateView {
            asset_ids: pre.asset_ids.push(id),
            assets: upsert_asset(
                pre.assets,
                listed_asset(
                    now,
                    seller,
                    id,
                    title,
                    description,
                    data_type,
                    price,
                    ipfs_cid,
                    encryption_key,
                    size,
                ),
            ),
            ..pre
        }
    }
}

/// The value a purchase result reduces to: the returned access secret, or
/// the error kind.
pub open spec fn secret_view(r: Result<String, Error>) -> Result<Seq<char>, Error> {
    match r {
        Ok(s) => Ok(s@),
        Err(e) => Err(e),
    }
}

/// The value an optional asset reduces to.
pub open spec fn option_asset_view(r: Option<DataAsset>) -> Option<AssetView> {
    match r {
        Some(a) => Some(a@),
        None => None,
    }
}

/// The transition `purchase_data` makes.  The checks run in this order:
/// caller must be the buyer, the asset must exist, the payment must reach
/// the listed price, and the buyer must not hold the asset already.  On
/// success exactly one purchase record is appended and the asset's access
/// secret is returned.
pub open spec fn spec_purchase(
    pre: StateView,
    caller: Seq<char>,
    now: u64,
    buyer: Seq<char>,
    asset_id: Seq<char>,
    payment: int,
    post: StateView,
    r: Result<Seq<char>, Error>,
) -> bool {
    if caller != buyer {
        r == Err::<Seq<char>, Error>(Error::UnauthorizedAccess) && post == pre
    } else {
        match lookup_asset(pre.assets, asset_id) {
            None => r == Err::<Seq<char>, Error>(Error::DataAssetNotFound) && post == pre,
            Some(asset) => if payment < asset.price {
                r == Err::<Seq<char>, Error>(Error::InsufficientPayment) && post == pre
            } else if has_purchase(pre.purchases, buyer, asset_id) {
                r == Err::<Seq<char>, Error>(Error::AssetAlreadyPurchased) && post == pre
            } else {
                &&& r == Ok::<Seq<char>, Error>(asset.encryption_key)
                &&& post == StateView {
                    purchases: pre.purchases.push(
                        PurchaseView {
                            buyer,
                            asset_id,
                            price_paid: asset.price,
                            purchase_date: now,
                            access_granted: true,
                        },
                    ),
                    ..pre
                }
            },
        }
    }
}

/// The transition `create_request` makes: a caller other than the requester
/// is rejected, otherwise a pending request is appended.
pub open spec fn spec_create_request(
    pre: StateView,
    caller: Seq<char>,
    now: u64,
    requester: Seq<char>,
    data_type: Seq<char>,
    price: int,
    duration_days: u32,
    post: StateView,
    r: Result<(), Error>,
) -> bool {
    if caller != requester {
        r == Err::<(), Error>(Error::UnauthorizedAccess) && post == pre
    } else {
        &&& r == Ok::<(), Error>(())
        &&& post == StateView {
            requests: pre.requests.push(
                RequestView {
                    requester,
                    data_type,
                    price,
                    duration_days,
                    approved: false,
                    created_date: now,
                },
            ),
            ..pre
        }
    }
}

/// The transition `approve_request` makes.  Only the stored admin may call
/// it; an out-of-range index is deliberately a successful no-op rather than
/// an error, and the contract says so; an in-range index flips exactly that
/// request's `approved` flag to `true`.
pub open spec fn spec_approve_request(
    pre: StateView,
    caller: Seq<char>,
    index: int,
    post: StateView,
    r: Result<(), Error>,
) -> bool {
    if pre.admin != Some(caller) {
        r == Err::<(), Error>(Error::UnauthorizedAccess) && post == pre
    } else if index >= pre.requests.len() {
        r == Ok::<(), Error>(()) && post == pre
    } else {
        &&& r == Ok::<(), Error>(())
        &&& post == StateView {
            requests: pre.requests.update(
                index,
                RequestView { approved: true, ..pre.requests[index] },
            ),
            ..pre
        }
    }
}

/// The view of an optionally stored admin identity.
pub open spec fn admin_view(admin: Option<Address>) -> Option<Seq<char>> {
    match admin {
        Some(a) => Some(a@),
        None => None,
    }
}

/// The views of a sequence of ids, element by element.
pub open spec fn id_views(ids: Seq<String>) -> Seq<Seq<char>> {
    ids.map_values(|s: String| s@)
}

/// The marketplace contract state.
pub struct BookieContract {
    admin: Option<Address>,
    asset_ids: Vec<String>,
    assets: Vec<DataAsset>,
    purchases: Vec<PurchaseRecord>,
    requests: Vec<DataAccessRequest>,
}

impl View for BookieContract {
    type V = StateView;

    closed spec fn view(&self) -> StateView {
        StateView {
            admin: admin_view(self.admin),
            asset_ids: id_views(self.asset_ids@),
            assets: asset_views(self.assets@),
            purchases: purchase_views(self.purchases@),
            requests: request_views(self.requests@),
        }
    }
}

impl BookieContract {
    /// Whether the state invariant holds.  Established by `new` and kept by
    /// every operation.
    pub open spec fn wf(&self) -> bool {
        state_wf(self@)
    }

    /// The empty state: nothing listed, nothing purchased, no requests, no
    /// admin stored yet.
    pub fn new() -> (r: BookieContract)
        ensures
            r.wf(),
            r@.admin == Option::<Seq<char>>::None,
            r@.asset_ids == Seq::<Seq<char>>::empty(),
            r@.assets == Seq::<AssetView>::empty(),
            r@.purchases == Seq::<PurchaseView>::empty(),
            r@.requests == Seq::<RequestView>::empty(),
    {
        let r = BookieContract {
            admin: None,
            asset_ids: Vec::new(),
            assets: Vec::new(),
            purchases: Vec::new(),
            requests: Vec::new(),
        };
        proof {
            assert(r@.asset_ids =~= Seq::<Seq<char>>::empty());
            assert(r@.assets =~= Seq::<AssetView>::empty());
            assert(r@.purchases =~= Seq::<PurchaseView>::empty());
            assert(r@.requests =~= Seq::<RequestView>::empty());
        }
        r
    }

    /// Rebuilds a state from its parts, as the embedding layer loads them
    /// from persistent storage.  Returns `None` — rather than a state whose
    /// operations would misbehave — when the parts break the state
    /// invariant: a duplicated asset id, or a duplicated purchase pair.
    pub fn from_parts(
        admin: Option<Address>,
        asset_ids: Vec<String>,
        assets: Vec<DataAsset>,
        purchases: Vec<PurchaseRecord>,
        requests: Vec<DataAccessRequest>,
    ) -> (r: Option<BookieContract>)
        ensures
            match r {
                Some(c) => {
                    &&& c.wf()
                    &&& c@ == StateView {
                        admin: admin_view(admin),
                        asset_ids: id_views(asset_ids@),
                        assets: asset_views(assets@),
                        purchases: purchase_views(purchases@),
                        requests: request_views(requests@),
                    }
                },
                None => !(unique_asset_ids(asset_views(assets@)) && unique_purchases(
                    purchase_views(purchases@),
                )),
            },
    {
        if !asset_ids_are_unique(&assets) {
            return None;
        }
        if !purchase_pairs_are_unique(&purchases) {
            return None;
        }
        let c = BookieContract { admin, asset_ids, assets, purchases, requests };
        proof {
            assert(c@ =~~= StateView {
                admin: admin_view(c.admin),
                asset_ids: id_views(c.asset_ids@),
                assets: asset_views(c.assets@),
                purchases: purchase_views(c.purchases@),
                requests: request_views(c.requests@),
            });
        }
        Some(c)
    }

    /// The stored admin identity, if `initialize` has run.
    pub fn admin(&self) -> (r: &Option<Address>)
        ensures
            admin_view(*r) == self@.admin,
    {
        &self.admin
    }

    /// The catalog index: every listed id, in listing order.
    pub fn asset_ids(&self) -> (r: &Vec<String>)
        ensures
            id_views(r@) == self@.asset_ids,
    {
        &self.asset_ids
    }

    /// The asset records, one per distinct id.
    pub fn assets(&self) -> (r: &Vec<DataAsset>)
        ensures
            asset_views(r@) == self@.assets,
    {
        &self.assets
    }

    /// The purchase records, in purchase order.
    pub fn purchases(&self) -> (r: &Vec<PurchaseRecord>)
        ensures
            purchase_views(r@) == self@.purchases,
    {
        &self.purchases
    }

    /// Stores `admin` as the admin identity.  No guard is put on
    /// re-initialization: a second call overwrites the admin.
    pub fn initialize(&mut self, admin: Address)
        requires
            old(self).wf(),
        ensures
            final(self).wf(),
            spec_initialize(old(self)@, admin@, final(self)@),
    {
        self.admin = Some(admin);
        proof {
            assert(self@ =~~= StateView { admin: Some(admin@), ..old(self)@ });
        }
    }

    /// Lists a new data asset.  Fails `UnauthorizedAccess` unless the caller
    /// is the seller, and `InvalidPrice` on a non-positive price; otherwise
    /// writes the record under `id` (replacing any earlier record with that
    /// id) and appends `id` to the catalog index.
    pub fn list_data_asset(
        &mut self,
        caller: &Address,
        now: u64,
        seller: Address,
        id: String,
        title: String,
        description: String,
        data_type: String,
        price: i128,
        ipfs_cid: String,
        encryption_key: String,
        size: String,
    ) -> (r: Result<(), Error>)
        requires
            old(self).wf(),
        ensures
            final(self).wf(),
            spec_list_asset(
                old(self)@,
                caller@,
                now,
                seller@,
                id@,
                title@,
                description@,
                data_type@,
                price as int,
                ipfs_cid@,
                encryption_key@,
                size@,
                final(self)@,
                r,
            ),
    {
        if *caller != seller {
            return Err(Error::UnauthorizedAccess);
        }
        if price <= 0 {
            return Err(Error::InvalidPrice);
        }
        let asset = DataAsset {
            id: id.clone(),
            title,
            description,
            data_type,
            price,
            seller,
            ipfs_cid,
            encryption_key,
            listed_date: now,
            size,
            is_active: true,
        };
        let ghost pre = self@;
        match find_asset_index(&self.assets, &id) {
            Some(i) => {
                self.assets.remove(i);
                self.assets.insert(i, asset);
                proof {
                    assert(asset_views(self.assets@) =~= upsert_asset(pre.assets, asset@));
                }
            },
            None => {
                self.assets.push(asset);
                proof {
                    assert(asset_views(self.assets@) =~= upsert_asset(pre.assets, asset@));
                }
            },
        }
        self.asset_ids.push(id);
        proof {
            assert(self@.asset_ids =~= pre.asset_ids.push(id@));
            assert(self@ =~~= StateView {
                asset_ids: pre.asset_ids.push(id@),
                assets: upsert_asset(
                    pre.assets,
                    listed_asset(
                        now,
                        seller@,
                        id@,
                        title@,
                        description@,
                        data_type@,
                        price as int,
                        ipfs_cid@,
                        encryption_key@,
                        size@,
                    ),
                ),
                ..pre
            });
            lemma_upsert_keeps_unique_ids(
                pre.assets,
                listed_asset(
                    now,
                    seller@,
                    id@,
                    title@,
                    description@,
                    data_type@,
                    price as int,
                    ipfs_cid@,
                    encryption_key@,
                    size@,
                ),
            );
        }
        Ok(())
    }

    /// Purchases an asset.  Fails `UnauthorizedAccess` unless the caller is
    /// the buyer, `DataAssetNotFound` when no record carries `asset_id`,
    /// `InsufficientPayment` when the payment is below the listed price, and
    /// `AssetAlreadyPurchased` when the buyer already holds the asset.
    /// Otherwise a purchase record is written and the asset's access secret
    /// is returned.  The payment itself is moved by the substrate, which
    /// discards the whole invocation if the transfer cannot be completed.
    pub fn purchase_data(
        &mut self,
        caller: &Address,
        now: u64,
        buyer: Address,
        asset_id: String,
        payment_amount: i128,
    ) -> (r: Result<String, Error>)
        requires
            old(self).wf(),
        ensures
            final(self).wf(),
            spec_purchase(
                old(self)@,
                caller@,
                now,
                buyer@,
                asset_id@,
                payment_amount as int,
                final(self)@,
                secret_view(r),
            ),
    {
        if *caller != buyer {
            return Err(Error::UnauthorizedAccess);
        }
        let idx = match find_asset_index(&self.assets, &asset_id) {
            Some(i) => i,
            None => {
                return Err(Error::DataAssetNotFound);
            },
        };
        proof {
            assert(lookup_asset(self@.assets, asset_id@) == Some(self.assets@[idx as int]@));
        }
        let price = self.assets[idx].price;
        if payment_amount < price {
            return Err(Error::InsufficientPayment);
        }
        if find_purchase(&self.purchases, &buyer, &asset_id) {
            return Err(Error::AssetAlreadyPurchased);
        }
        let secret = self.assets[idx].encryption_key.clone();
        let ghost pre = self@;
        let record = PurchaseRecord {
            buyer,
            asset_id,
            price_paid: price,
            purchase_date: now,
            access_granted: true,
        };
        proof {
            lemma_new_purchase_keeps_unique(pre.purchases, record@);
        }
        self.purchases.push(record);
        proof {
            assert(purchase_views(self.purchases@) =~= pre.purchases.push(record@));
            assert(self@ =~~= StateView { purchases: pre.purchases.push(record@), ..pre });
        }
        Ok(secret)
    }

    /// Creates a pending access request.  Fails `UnauthorizedAccess` unless
    /// the caller is the requester; no validation is put on the requested
    /// terms, as none is specified.
    pub fn create_request(
        &mut self,
        caller: &Address,
        now: u64,
        requester: Address,
        data_type: String,
        price: i128,
        duration_days: u32,
    ) -> (r: Result<(), Error>)
        requires
            old(self).wf(),
        ensures
            final(self).wf(),
            spec_create_request(
                old(self)@,
                caller@,
                now,
                requester@,
                data_type@,
                price as int,
                duration_days,
                final(self)@,
                r,
            ),
    {
        if *caller != requester {
            return Err(Error::UnauthorizedAccess);
        }
        let ghost pre = self@;
        let request = DataAccessRequest {
            requester,
            data_type,
            price,
            duration_days,
            approved: false,
            created_date: now,
        };
        self.requests.push(request);
        proof {
            assert(request_views(self.requests@) =~= pre.requests.push(request@));
            assert(self@ =~~= StateView { requests: pre.requests.push(request@), ..pre });
        }
        Ok(())
    }

    /// Approves the request at `index`.  Fails `UnauthorizedAccess` unless
    /// the caller is the stored admin; an out-of-range index changes nothing
    /// and is reported as success; otherwise flips exactly that request's
    /// `approved` flag to `true`.
    pub fn approve_request(&mut self, caller: &Address, index: u32) -> (r: Result<(), Error>)
        requires
            old(self).wf(),
        ensures
            final(self).wf(),
            spec_approve_request(old(self)@, caller@, index as int, final(self)@, r),
    {
        let is_admin = match &self.admin {
            Some(a) => *caller == *a,
            None => false,
        };
        if !is_admin {
            return Err(Error::UnauthorizedAccess);
        }
        let i = index as usize;
        if i >= self.requests.len() {
            return Ok(());
        }
        let ghost pre = self@;
        let old_req = self.requests.remove(i);
        let new_req = DataAccessRequest {
            requester: old_req.requester,
            data_type: old_req.data_type,
            price: old_req.price,
            duration_days: old_req.duration_days,
            approved: true,
            created_date: old_req.created_date,
        };
        self.requests.insert(i, new_req);
        proof {
            assert(request_views(self.requests@) =~= pre.requests.update(
                i as int,
                RequestView { approved: true, ..pre.requests[i as int] },
            ));
            assert(self@ =~~= StateView {
                requests: pre.requests.update(
                    i as int,
                    RequestView { approved: true, ..pre.requests[i as int] },
                ),
                ..pre
            });
        }
        Ok(())
    }

    /// Looks up an asset by id.  Open catalog data: no authorization.  The
    /// record embeds `encryption_key`, so a reader holds the access secret
    /// without proof of purchase; callers that gate access must go through
    /// `purchase_data` instead of reading it here.
    pub fn get_asset_details(&self, asset_id: String) -> (r: Option<DataAsset>)
        requires
            self.wf(),
        ensures
            option_asset_view(r) == lookup_asset(self@.assets, asset_id@),
    {
        match find_asset_index(&self.assets, &asset_id) {
            Some(i) => Some(self.assets[i].clone()),
            None => None,
        }
    }

    /// Enumerates the catalog: each id in the index resolved to its record,
    /// in listing order, keeping only the active ones.
    pub fn get_data_assets(&self) -> (r: Vec<DataAsset>)
        requires
            self.wf(),
        ensures
            asset_views(r@) == active_assets(self@.asset_ids, self@.assets),
    {
        let ghost ids = self@.asset_ids;
        let ghost views = self@.assets;
        let mut out: Vec<DataAsset> = Vec::new();
        let n = self.asset_ids.len();
        let mut k: usize = 0;
        proof {
            assert(asset_views(out@) =~= active_assets(ids.take(0), views));
        }
        while k < n
            invariant
                n == self.asset_ids@.len(),
                k <= n,
                self.wf(),
                ids == self@.asset_ids,
                views == self@.assets,
                asset_views(out@) == active_assets(ids.take(k as int), views),
            decreases n - k,
        {
            let ghost prev = out@;
            match find_asset_index(&self.assets, &self.asset_ids[k]) {
                Some(i) => {
                    let a = &self.assets[i];
                    if a.is_active {
                        out.push(a.clone());
                    }
                },
                None => {},
            }
            proof {
                assert(ids.take(k + 1).drop_last() =~= ids.take(k as int));
                assert(ids.take(k + 1).last() == ids[k as int]);
                assert(asset_views(out@) =~= active_assets(ids.take(k + 1), views));
            }
            k += 1;
        }
        proof {
            assert(ids.take(n as int) =~= ids);
        }
        out
    }

    /// Returns every access request, in creation order.
    pub fn get_requests(&self) -> (r: Vec<DataAccessRequest>)
        ensures
            request_views(r@) == self@.requests,
    {
        let mut out: Vec<DataAccessRequest> = Vec::new();
        let n = self.requests.len();
        let mut k: usize = 0;
        proof {
            assert(request_views(out@) =~= self@.requests.take(0));
        }
        while k < n
            invariant
                n == self.requests@.len(),
                k <= n,
                request_views(out@) == self@.requests.take(k as int),
            decreases n - k,
        {
            out.push(self.requests[k].clone());
            proof {
                assert(self@.requests.take(k + 1) =~= self@.requests.take(k as int).push(
                    self@.requests[k as int],
                ));
                assert(request_views(out@) =~= self@.requests.take(k + 1));
            }
            k += 1;
        }
        proof {
            assert(self@.requests.take(n as int) =~= self@.requests);
        }
        out
    }

    /// Returns the purchase records of `user`, in purchase order.
    pub fn get_user_purchases(&self, user: Address) -> (r: Vec<PurchaseRecord>)
        ensures
            purchase_views(r@) == user_purchases(self@.purchases, user@),
    {
        let ghost ps = self@.purchases;
        let mut out: Vec<PurchaseRecord> = Vec::new();
        let n = self.purchases.len();
        let mut k: usize = 0;
        proof {
            assert(purchase_views(out@) =~= user_purchases(ps.take(0), user@));
        }
        while k < n
            invariant
                n == self.purchases@.len(),
                k <= n,
                ps == self@.purchases,
                purchase_views(out@) == user_purchases(ps.take(k as int), user@),
            decreases n - k,
        {
            let p = &self.purchases[k];
            if p.buyer == user {
                out.push(p.clone());
            }
            proof {
                assert(ps.take(k + 1).drop_last() =~= ps.take(k as int));
                assert(ps.take(k + 1).last() == ps[k as int]);
                assert(purchase_views(out@) =~= user_purchases(ps.take(k + 1), user@));
            }
            k += 1;
        }
        proof {
            assert(ps.take(n as int) =~= ps);
        }
        out
    }

    /// Reports how many listings the catalog index holds and how many access
    /// requests exist.
    pub fn get_stats(&self) -> (r: ContractStats)
        ensures
            r.assets as int == self@.asset_ids.len(),
            r.requests as int == self@.requests.len(),
    {
        ContractStats {
            assets: self.asset_ids.len() as i128,
            requests: self.requests.len() as i128,
        }
    }
}

/// Appending a purchase record for a pair nobody holds keeps the purchase
/// pairs unique.
pub proof fn lemma_new_purchase_keeps_unique(ps: Seq<PurchaseView>, p: PurchaseView)
    requires
        unique_purchases(ps),
        !has_purchase(ps, p.buyer, p.asset_id),
    ensures
        unique_purchases(ps.push(p)),
{
    let post = ps.push(p);
    assert forall|i: int, j: int|
        #![trigger post[i], post[j]]
        0 <= i < j < post.len() implies !(post[i].buyer == post[j].buyer && post[i].asset_id
        == post[j].asset_id) by {
        if j < ps.len() {
            assert(!(ps[i].buyer == ps[j].buyer && ps[i].asset_id == ps[j].asset_id));
        } else {
            assert(post[j] == p);
            assert(!(ps[i].buyer == p.buyer && ps[i].asset_id == p.asset_id));
        }
    }
}

/// Whether no two records of the asset table carry the same id.
fn asset_ids_are_unique(assets: &Vec<DataAsset>) -> (r: bool)
    ensures
        r == unique_asset_ids(asset_views(assets@)),
{
    let ghost views = asset_views(assets@);
    let n = assets.len();
    let mut i: usize = 0;
    while i < n
        invariant
            n == assets@.len(),
            i <= n,
            views == asset_views(assets@),
            forall|p: int, q: int|
                #![trigger views[p], views[q]]
                0 <= p < q < n && p < i ==> views[p].id != views[q].id,
        decreases n - i,
    {
        let mut j: usize = i + 1;
        while j < n
            invariant
                n == assets@.len(),
                i < j <= n,
                i < n,
                views == asset_views(assets@),
                forall|p: int, q: int|
                    #![trigger views[p], views[q]]
                    0 <= p < q < n && p < i ==> views[p].id != views[q].id,
                forall|q: int| i < q < j ==> views[i as int].id != (#[trigger] views[q]).id,
            decreases n - j,
        {
            if assets[i].id == assets[j].id {
                proof {
                    assert(views[i as int].id == views[j as int].id);
                }
                return false;
            }
            j += 1;
        }
        i += 1;
    }
    true
}

/// Whether no two records of the purchase table carry the same
/// `(buyer, asset_id)` pair.
fn purchase_pairs_are_unique(ps: &Vec<PurchaseRecord>) -> (r: bool)
    ensures
        r == unique_purchases(purchase_views(ps@)),
{
    let ghost views = purchase_views(ps@);
    let n = ps.len();
    let mut i: usize = 0;
    while i < n
        invariant
            n == ps@.len(),
            i <= n,
            views == purchase_views(ps@),
            forall|p: int, q: int|
                #![trigger views[p], views[q]]
                0 <= p < q < n && p < i ==> !(views[p].buyer == views[q].buyer && views[p].asset_id
                == views[q].asset_id),
        decreases n - i,
    {
        let mut j: usize = i + 1;
        while j < n
            invariant
                n == ps@.len(),
                i < j <= n,
                i < n,
                views == purchase_views(ps@),
                forall|p: int, q: int|
                    #![trigger views[p], views[q]]
                    0 <= p < q < n && p < i ==> !(views[p].buyer == views[q].buyer
                    && views[p].asset_id == views[q].asset_id),
                forall|q: int|
                    i < q < j ==> !(views[i as int].buyer == (#[trigger] views[q]).buyer
                    && views[i as int].asset_id == views[q].asset_id),
            decreases n - j,
        {
            let same_buyer = ps[i].buyer == ps[j].buyer;
            let same_asset = ps[i].asset_id == ps[j].asset_id;
            if same_buyer && same_asset {
                proof {
                    assert(views[i as int].buyer == views[j as int].buyer);
                    assert(views[i as int].asset_id == views[j as int].asset_id);
                }
                return false;
            }
            j += 1;
        }
        i += 1;
    }
    true
}

/// Whether the purchase table holds a record for `(buyer, asset_id)`.
fn find_purchase(ps: &Vec<PurchaseRecord>, buyer: &Address, asset_id: &String) -> (r: bool)
    ensures
        r == has_purchase(purchase_views(ps@), buyer@, asset_id@),
{
    let ghost views = purchase_views(ps@);
    let n = ps.len();
    let mut k: usize = 0;
    while k < n
        invariant
            n == ps@.len(),
            k <= n,
            views == purchase_views(ps@),
            forall|j: int|
                0 <= j < k ==> !(#[trigger] views[j].buyer == buyer@ && views[j].asset_id
                == asset_id@),
        decreases n - k,
    {
        let p = &ps[k];
        if p.buyer == *buyer && p.asset_id == *asset_id {
            proof {
                assert(views[k as int].buyer == buyer@ && views[k as int].asset_id == asset_id@);
            }
            return true;
        }
        k += 1;
    }
    proof {
        if has_purchase(views, buyer@, asset_id@) {
            let w = choose|i: int|
                0 <= i < views.len() && #[trigger] views[i].buyer == buyer@ && views[i].asset_id
                == asset_id@;
            assert(!(views[w].buyer == buyer@ && views[w].asset_id == asset_id@));
        }
    }
    false
}

/// Writing a record under its id keeps the ids of the table unique.
pub proof fn lemma_upsert_keeps_unique_ids(assets: Seq<AssetView>, a: AssetView)
    requires
        unique_asset_ids(assets),
    ensures
        unique_asset_ids(upsert_asset(assets, a)),
{
    if has_asset(assets, a.id) {
        let k = asset_index(assets, a.id);
        let post = assets.update(k, a);
        assert forall|i: int, j: int|
            #![trigger post[i], post[j]]
            0 <= i < j < post.len() implies post[i].id != post[j].id by {
            assert(assets[i].id != assets[j].id);
        }
    } else {
        let post = assets.push(a);
        assert forall|i: int, j: int|
            #![trigger post[i], post[j]]
            0 <= i < j < post.len() implies post[i].id != post[j].id by {
            if j < assets.len() {
                assert(assets[i].id != assets[j].id);
            } else {
                assert(post[j] == a);
                assert(!(assets[i].id == a.id));
            }
        }
    }
}

/// The position of the record carrying `id` in the asset table, if any.
fn find_asset_index(assets: &Vec<DataAsset>, id: &String) -> (r: Option<usize>)
    requires
        unique_asset_ids(asset_views(assets@)),
    ensures
        match r {
            Some(i) => {
                &&& has_asset(asset_views(assets@), id@)
                &&& 0 <= i < assets@.len()
                &&& i as int == asset_index(asset_views(assets@), id@)
            },
            None => !has_asset(asset_views(assets@), id@),
        },
{
    let ghost views = asset_views(assets@);
    let n = assets.len();
    let mut k: usize = 0;
    while k < n
        invariant
            n == assets@.len(),
            k <= n,
            views == asset_views(assets@),
            unique_asset_ids(views),
            forall|j: int| 0 <= j < k ==> #[trigger] views[j].id != id@,
        decreases n - k,
    {
        if assets[k].id == *id {
            proof {
                assert(views[k as int].id == id@);
                assert(has_asset(views, id@));
                let w = asset_index(views, id@);
                assert(0 <= w < views.len() && views[w].id == id@);
                if w != k as int {
                    assert(views[w].id != views[k as int].id);
                }
            }
            return Some(k);
        }
        k += 1;
    }
    proof {
        if has_asset(views, id@) {
            let w = asset_index(views, id@);
            assert(views[w].id == id@);
        }
    }
    None
}

} // verus!
