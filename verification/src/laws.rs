//! Laws of the marketplace: what the operations' transitions guarantee when
//! they are combined, stated and proved over the state views.

use vstd::prelude::*;

use crate::contract::StateView;
use crate::contract::active_assets;
use crate::contract::asset_index;
use crate::contract::has_asset;
use crate::contract::has_purchase;
use crate::contract::listed_asset;
use crate::contract::lookup_asset;
use crate::contract::spec_approve_request;
use crate::contract::spec_create_request;
use crate::contract::spec_list_asset;
use crate::contract::spec_purchase;
use crate::contract::state_wf;
use crate::contract::unique_asset_ids;
use crate::contract::upsert_asset;
use crate::contract::user_purchases;
use crate::types::AssetView;
use crate::types::Error;
use crate::types::PurchaseView;
use crate::types::RequestView;

verus! {

/// After a record is written under its id, looking the id up returns exactly
/// that record.
pub proof fn lemma_lookup_after_upsert(assets: Seq<AssetView>, a: AssetView)
    requires
        unique_asset_ids(assets),
    ensures
        lookup_asset(upsert_asset(assets, a), a.id) == Some(a),
{
    if has_asset(assets, a.id) {
        let k = asset_index(assets, a.id);
        let post = assets.update(k, a);
        assert(post[k] == a);
        assert(has_asset(post, a.id));
        let w = asset_index(post, a.id);
        if w != k {
            assert(assets[w].id == a.id);
            assert(assets[k].id == a.id);
        }
    } else {
        let post = assets.push(a);
        let n = assets.len() as int;
        assert(post[n] == a);
        assert(has_asset(post, a.id));
        let w = asset_index(post, a.id);
        if w != n {
            assert(assets[w].id == a.id);
            assert(has_asset(assets, a.id));
        }
    }
}

/// A valid listing is retrievable: after `list_data_asset` succeeds, looking
/// up the listed id returns a record with `is_active` and every submitted
/// field unchanged.
pub proof fn lemma_listed_asset_retrievable(
    pre: StateView,
    caller: Seq<char>,
    now: u64,
    seller: Seq<char>,
    id: Seq<char>,
    title: Seq<char>,
    description: Seq<char>,
    data_type: Seq<char>,
    price: int,
    ipfs_cid: Seq<char>,
    encryption_key: Seq<char>,
    size: Seq<char>,
    post: StateView,
)
    requires
        state_wf(pre),
        spec_list_asset(
            pre,
            caller,
            now,
            seller,
            id,
            title,
            description,
            data_type,
            price,
            ipfs_cid,
            encryption_key,
            size,
            post,
            Ok(()),
        ),
    ensures
        lookup_asset(post.assets, id) == Some(
            listed_asset(
                now,
                seller,
                id,
                title,
                description,
                data_type,
                price,
                ipfs_cid,
                encryption_key,
                size,
            ),
        ),
        lookup_asset(post.assets, id).unwrap().is_active,
{
    let a = listed_asset(
        now,
        seller,
        id,
        title,
        description,
        data_type,
        price,
        ipfs_cid,
        encryption_key,
        size,
    );
    lemma_lookup_after_upsert(pre.assets, a);
}

/// A non-positive price is always rejected with `InvalidPrice`, and the
/// state — the catalog index included — is left unchanged.
pub proof fn lemma_invalid_price_rejected(
    pre: StateView,
    caller: Seq<char>,
    now: u64,
    seller: Seq<char>,
    id: Seq<char>,
    title: Seq<char>,
    description: Seq<char>,
    data_type: Seq<char>,
    price: int,
    ipfs_cid: Seq<char>,
    encryption_key: Seq<char>,
    size: Seq<char>,
    post: StateView,
    r: Result<(), Error>,
)
    requires
        caller == seller,
        price <= 0,
        spec_list_asset(
            pre,
            caller,
            now,
            seller,
            id,
            title,
            description,
            data_type,
            price,
            ipfs_cid,
            encryption_key,
            size,
            post,
            r,
        ),
    ensures
        r == Err::<(), Error>(Error::InvalidPrice),
        post == pre,
        post.asset_ids == pre.asset_ids,
{
}

/// The first purchase of an asset with sufficient payment succeeds, returns
/// the asset's access secret, and appends exactly one purchase record.
pub proof fn lemma_first_purchase_succeeds(
    pre: StateView,
    now: u64,
    buyer: Seq<char>,
    asset_id: Seq<char>,
    payment: int,
    asset: AssetView,
    post: StateView,
    r: Result<Seq<char>, Error>,
)
    requires
        lookup_asset(pre.assets, asset_id) == Some(asset),
        payment >= asset.price,
        !has_purchase(pre.purchases, buyer, asset_id),
        spec_purchase(pre, buyer, now, buyer, asset_id, payment, post, r),
    ensures
        r == Ok::<Seq<char>, Error>(asset.encryption_key),
        post.purchases == pre.purchases.push(
            PurchaseView {
                buyer,
                asset_id,
                price_paid: asset.price,
                purchase_date: now,
                access_granted: true,
            },
        ),
        post.assets == pre.assets,
        post.asset_ids == pre.asset_ids,
{
}

/// A second purchase of the same asset by the same buyer is always rejected
/// with `AssetAlreadyPurchased`, and neither the purchase ledger nor the
/// buyer's purchase list gains a record.
pub proof fn lemma_second_purchase_rejected(
    pre: StateView,
    now1: u64,
    now2: u64,
    buyer: Seq<char>,
    asset_id: Seq<char>,
    payment1: int,
    payment2: int,
    secret: Seq<char>,
    mid: StateView,
    post: StateView,
    r2: Result<Seq<char>, Error>,
)
    requires
        spec_purchase(pre, buyer, now1, buyer, asset_id, payment1, mid, Ok(secret)),
        payment2 >= lookup_asset(pre.assets, asset_id).unwrap().price,
        spec_purchase(mid, buyer, now2, buyer, asset_id, payment2, post, r2),
    ensures
        r2 == Err::<Seq<char>, Error>(Error::AssetAlreadyPurchased),
        post == mid,
        user_purchases(post.purchases, buyer) == user_purchases(mid.purchases, buyer),
{
    let n = pre.purchases.len() as int;
    assert(mid.purchases[n].buyer == buyer && mid.purchases[n].asset_id == asset_id);
    assert(has_purchase(mid.purchases, buyer, asset_id));
}

/// A payment below the listed price is always rejected with
/// `InsufficientPayment`, and no purchase record is created.
pub proof fn lemma_insufficient_payment_rejected(
    pre: StateView,
    now: u64,
    buyer: Seq<char>,
    asset_id: Seq<char>,
    payment: int,
    asset: AssetView,
    post: StateView,
    r: Result<Seq<char>, Error>,
)
    requires
        lookup_asset(pre.assets, asset_id) == Some(asset),
        payment < asset.price,
        spec_purchase(pre, buyer, now, buyer, asset_id, payment, post, r),
    ensures
        r == Err::<Seq<char>, Error>(Error::InsufficientPayment),
        post == pre,
{
}

/// Every asset the catalog enumeration yields is active.
pub proof fn lemma_enumeration_only_active(ids: Seq<Seq<char>>, assets: Seq<AssetView>)
    ensures
        forall|k: int|
            0 <= k < active_assets(ids, assets).len() ==> (#[trigger] active_assets(ids, assets)[k]).is_active,
    decreases ids.len(),
{
    if ids.len() > 0 {
        lemma_enumeration_only_active(ids.drop_last(), assets);
        let rest = active_assets(ids.drop_last(), assets);
        let cur = active_assets(ids, assets);
        assert forall|k: int| 0 <= k < cur.len() implies (#[trigger] cur[k]).is_active by {
            if k < rest.len() {
                assert(cur[k] == rest[k]);
            } else {
                match lookup_asset(assets, ids.last()) {
                    Some(a) => {
                        assert(cur[k] == a);
                    },
                    None => {
                    },
                }
            }
        }
    }
}

/// The catalog enumeration keeps listing order: appending an id to the index
/// leaves the enumeration of the earlier ids as a prefix, and appends the new
/// id's record exactly when it resolves and is active.
pub proof fn lemma_enumeration_in_listing_order(
    ids: Seq<Seq<char>>,
    assets: Seq<AssetView>,
    id: Seq<char>,
)
    ensures
        active_assets(ids.push(id), assets) == match lookup_asset(assets, id) {
            Some(a) => if a.is_active {
                active_assets(ids, assets).push(a)
            } else {
                active_assets(ids, assets)
            },
            None => active_assets(ids, assets),
        },
{
    assert(ids.push(id).drop_last() =~= ids);
    assert(ids.push(id).last() == id);
}

/// The catalog enumeration follows the index: enumerating a split index
/// yields the enumeration of its first part followed by the enumeration of
/// its second, so later listings always come after earlier ones.
pub proof fn lemma_enumeration_splits(
    ids1: Seq<Seq<char>>,
    ids2: Seq<Seq<char>>,
    assets: Seq<AssetView>,
)
    ensures
        active_assets(ids1 + ids2, assets) == active_assets(ids1, assets) + active_assets(
            ids2,
            assets,
        ),
    decreases ids2.len(),
{
    if ids2.len() == 0 {
        assert(ids1 + ids2 =~= ids1);
        assert(active_assets(ids1, assets) + active_assets(ids2, assets) =~= active_assets(
            ids1,
            assets,
        ));
    } else {
        lemma_enumeration_splits(ids1, ids2.drop_last(), assets);
        assert((ids1 + ids2).drop_last() =~= ids1 + ids2.drop_last());
        assert((ids1 + ids2).last() == ids2.last());
        match lookup_asset(assets, ids2.last()) {
            Some(a) => {
                if a.is_active {
                    assert(active_assets(ids1, assets) + active_assets(ids2, assets)
                        =~= (active_assets(ids1, assets) + active_assets(
                        ids2.drop_last(),
                        assets,
                    )).push(a));
                } else {
                    assert(active_assets(ids2, assets) == active_assets(ids2.drop_last(), assets));
                }
            },
            None => {
                assert(active_assets(ids2, assets) == active_assets(ids2.drop_last(), assets));
            },
        }
    }
}

/// Approval by anyone but the stored admin is always rejected with
/// `UnauthorizedAccess` and changes nothing.
pub proof fn lemma_approve_unauthorized(
    pre: StateView,
    caller: Seq<char>,
    index: int,
    post: StateView,
    r: Result<(), Error>,
)
    requires
        pre.admin != Some(caller),
        spec_approve_request(pre, caller, index, post, r),
    ensures
        r == Err::<(), Error>(Error::UnauthorizedAccess),
        post == pre,
{
}

/// Admin approval of an in-range index transitions exactly the request at
/// that index from pending to approved, leaving its other fields and every
/// other request unchanged.
pub proof fn lemma_approve_exact(
    pre: StateView,
    caller: Seq<char>,
    index: int,
    post: StateView,
    r: Result<(), Error>,
)
    requires
        pre.admin == Some(caller),
        0 <= index < pre.requests.len(),
        spec_approve_request(pre, caller, index, post, r),
    ensures
        r == Ok::<(), Error>(()),
        post.requests.len() == pre.requests.len(),
        post.requests[index] == (RequestView { approved: true, ..pre.requests[index] }),
        forall|j: int|
            0 <= j < pre.requests.len() && j != index ==> post.requests[j] == pre.requests[j],
        post.assets == pre.assets,
        post.asset_ids == pre.asset_ids,
        post.purchases == pre.purchases,
{
}

/// Creating a request and then approving it as the admin transitions exactly
/// the new request from `approved == false` to `approved == true`, leaving
/// every earlier request unchanged.
pub proof fn lemma_create_then_approve(
    pre: StateView,
    caller: Seq<char>,
    admin: Seq<char>,
    now1: u64,
    now2: u64,
    data_type: Seq<char>,
    price: int,
    duration_days: u32,
    mid: StateView,
    post: StateView,
    r: Result<(), Error>,
)
    requires
        spec_create_request(pre, caller, now1, caller, data_type, price, duration_days, mid, Ok(())),
        mid.admin == Some(admin),
        spec_approve_request(mid, admin, pre.requests.len() as int, post, r),
    ensures
        r == Ok::<(), Error>(()),
        mid.requests[pre.requests.len() as int].approved == false,
        post.requests[pre.requests.len() as int].approved == true,
        post.requests[pre.requests.len() as int] == (RequestView {
            approved: true,
            ..mid.requests[pre.requests.len() as int]
        }),
        forall|j: int| 0 <= j < pre.requests.len() ==> post.requests[j] == pre.requests[j],
{
    let n = pre.requests.len() as int;
    lemma_approve_exact(mid, admin, n, post, r);
    assert(forall|j: int| 0 <= j < n ==> mid.requests[j] == pre.requests[j]);
}

} // verus!
