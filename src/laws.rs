//! Properties that relate several operations of the store.
use vstd::prelude::*;
use crate::address::{id_hash, storage_address, APP_TAG};
use crate::channel::page;
use crate::store::MetanearChat;
use crate::types::Message;

verus! {

/// A privileged write of `value` under (`app_id`, `key`) is what a later read of
/// that pair sees, and after a privileged removal the read sees nothing.
pub proof fn law_set_then_get(
    store: MetanearChat,
    app_id: Seq<char>,
    key: Seq<char>,
    value: Seq<char>,
)
    ensures
        store.stored().insert(storage_address(app_id, key), value).contains_key(
            storage_address(app_id, key),
        ),
        store.stored().insert(storage_address(app_id, key), value)[storage_address(app_id, key)]
            == value,
        !store.stored().remove(storage_address(app_id, key)).contains_key(
            storage_address(app_id, key),
        ),
{
}

/// Two (tenant, key) pairs whose digests differ in the tenant part or in the key
/// part get different addresses: the fixed-size digests never run into each
/// other, so no pair can borrow bytes of a neighbouring field.
pub proof fn law_addresses_distinct(
    app1: Seq<char>,
    key1: Seq<char>,
    app2: Seq<char>,
    key2: Seq<char>,
)
    requires
        id_hash(app1).len() == 32,
        id_hash(key1).len() == 32,
        id_hash(app2).len() == 32,
        id_hash(key2).len() == 32,
        id_hash(app1) != id_hash(app2) || id_hash(key1) != id_hash(key2),
    ensures
        storage_address(app1, key1) != storage_address(app2, key2),
{
    let a1 = storage_address(app1, key1);
    let a2 = storage_address(app2, key2);
    if a1 == a2 {
        assert(a1.subrange(1, 33) =~= id_hash(app1));
        assert(a2.subrange(1, 33) =~= id_hash(app2));
        assert(a1.subrange(33, 65) =~= id_hash(key1));
        assert(a2.subrange(33, 65) =~= id_hash(key2));
    }
}

/// Every generic-store address starts with its own type tag.
pub proof fn law_address_tag(app_id: Seq<char>, key: Seq<char>)
    ensures
        storage_address(app_id, key)[0] == APP_TAG,
{
}

/// Reading a page: messages appended after `before` are read back, all of them
/// and in the order they were appended, by a page that starts where they
/// start; a page that starts at `from` holds `min(limit, len - from)` messages,
/// the `j`-th being message `from + j`; one that starts at or past the end is
/// empty.
pub proof fn law_paging(before: Seq<Message>, appended: Seq<Message>, from: int, limit: int)
    requires
        0 <= from,
        0 <= limit,
    ensures
        page(before + appended, before.len() as int, appended.len() as int) == appended,
        from >= before.len() ==> page(before, from, limit) == Seq::<Message>::empty(),
        from < before.len() && limit <= before.len() - from ==> page(before, from, limit).len()
            == limit,
        from < before.len() && limit > before.len() - from ==> page(before, from, limit).len()
            == before.len() - from,
        forall|j: int|
            0 <= j < page(before, from, limit).len() ==> #[trigger] page(before, from, limit)[j]
                == before[from + j],
{
    let all = before + appended;
    if appended.len() == 0 {
        assert(page(all, before.len() as int, 0) =~= appended);
    } else {
        assert(all.subrange(before.len() as int, all.len() as int) =~= appended);
    }
}

} // verus!
