//! What holds of the menu cache over more than one request.

use crate::calendar::Date;
use crate::errors::ServiceError;
use crate::menu_cache::{
    active_dish, active_menu, after_delete_menu, after_dishes, after_publish, after_set_active,
    all_present, keys_of_menu, pointer, DishBlob,
};
use crate::menu_keys::{
    active_key, lemma_active_key_apart, lemma_dish_key_injective, lemma_dish_key_longer,
    lemma_dish_key_of_one_menu, lemma_menu_key_injective, lemma_menu_key_is_no_dish_key,
    spec_dish_key, spec_menu_key,
};
use vstd::prelude::*;

verus! {

/// Whether no two dishes of the list have one id.
pub open spec fn distinct_dishes(dishes: Seq<DishBlob>) -> bool {
    forall|a: int, b: int|
        0 <= a < b < dishes.len() ==> (#[trigger] dishes[a]).dish_id != (
        #[trigger] dishes[b]).dish_id
}

/// Writing the blobs of dishes leaves every key alone that is the key of
/// none of the dishes.
pub proof fn lemma_dish_writes_leave_other_keys(
    cache: Map<Seq<char>, Seq<char>>,
    menu_key: Seq<char>,
    dishes: Seq<DishBlob>,
    key: Seq<char>,
)
    requires
        forall|i: int|
            0 <= i < dishes.len() ==> spec_dish_key(menu_key, (#[trigger] dishes[i]).dish_id)
                != key,
    ensures
        after_dishes(cache, menu_key, dishes).contains_key(key) == cache.contains_key(key),
        after_dishes(cache, menu_key, dishes)[key] == cache[key],
    decreases dishes.len(),
{
    if dishes.len() > 0 {
        if let Some(blob) = dishes[0].blob {
            let rest = dishes.drop_first();
            assert forall|i: int| 0 <= i < rest.len() implies spec_dish_key(
                menu_key,
                (#[trigger] rest[i]).dish_id,
            ) != key by {
                assert(rest[i] == dishes[i + 1]);
            }
            lemma_dish_writes_leave_other_keys(
                cache.insert(spec_dish_key(menu_key, dishes[0].dish_id), blob@),
                menu_key,
                rest,
                key,
            );
        }
    }
}

/// Where every dish has its blob and its own id, each blob lies under
/// the key of its dish after the writes.
pub proof fn lemma_dish_writes_land(
    cache: Map<Seq<char>, Seq<char>>,
    menu_key: Seq<char>,
    dishes: Seq<DishBlob>,
    i: int,
)
    requires
        all_present(dishes),
        distinct_dishes(dishes),
        0 <= i < dishes.len(),
    ensures
        after_dishes(cache, menu_key, dishes).contains_key(
            spec_dish_key(menu_key, dishes[i].dish_id),
        ),
        after_dishes(cache, menu_key, dishes)[spec_dish_key(menu_key, dishes[i].dish_id)]
            == dishes[i].blob->0@,
    decreases dishes.len(),
{
    let rest = dishes.drop_first();
    let first_key = spec_dish_key(menu_key, dishes[0].dish_id);
    let blob = dishes[0].blob->0;
    let written = cache.insert(first_key, blob@);
    assert forall|k: int| 0 <= k < rest.len() implies (#[trigger] rest[k]).blob is Some by {
        assert(rest[k] == dishes[k + 1]);
    }
    assert forall|a: int, b: int| 0 <= a < b < rest.len() implies (#[trigger] rest[a]).dish_id
        != (#[trigger] rest[b]).dish_id by {
        assert(rest[a] == dishes[a + 1] && rest[b] == dishes[b + 1]);
    }
    if i == 0 {
        assert forall|k: int| 0 <= k < rest.len() implies spec_dish_key(
            menu_key,
            (#[trigger] rest[k]).dish_id,
        ) != first_key by {
            assert(rest[k] == dishes[k + 1]);
            if spec_dish_key(menu_key, rest[k].dish_id) == first_key {
                lemma_dish_key_injective(menu_key, rest[k].dish_id, dishes[0].dish_id);
            }
        }
        lemma_dish_writes_leave_other_keys(written, menu_key, rest, first_key);
    } else {
        assert(rest[i - 1] == dishes[i]);
        lemma_dish_writes_land(written, menu_key, rest, i - 1);
    }
}

/// A menu that was published whole and made active is served as it was
/// written: the blob of the menu, and for each of its dishes the blob of
/// that dish.
pub proof fn law_published_menu_is_served(
    cache: Map<Seq<char>, Seq<char>>,
    date: Date,
    menu_blob: Seq<char>,
    dishes: Seq<DishBlob>,
    i: int,
)
    requires
        date.is_valid(),
        all_present(dishes),
        distinct_dishes(dishes),
    ensures
        ({
            let served = after_set_active(after_publish(cache, date, menu_blob, dishes), date);
            &&& active_menu(served) == Ok::<Seq<char>, ServiceError>(menu_blob)
            &&& 0 <= i < dishes.len() ==> active_dish(served, dishes[i].dish_id) == Ok::<
                Seq<char>,
                ServiceError,
            >(dishes[i].blob->0@)
        }),
{
    let menu = spec_menu_key(date);
    let start = cache.insert(menu, menu_blob);
    let published = after_publish(cache, date, menu_blob, dishes);
    let served = after_set_active(published, date);
    assert forall|k: int| 0 <= k < dishes.len() implies spec_dish_key(
        menu,
        (#[trigger] dishes[k]).dish_id,
    ) != menu by {
        lemma_dish_key_longer(menu, dishes[k].dish_id);
    }
    lemma_dish_writes_leave_other_keys(start, menu, dishes, menu);
    lemma_active_key_apart(date, menu, 0);
    assert(pointer(served) == Some(menu));
    if 0 <= i < dishes.len() {
        lemma_dish_writes_land(start, menu, dishes, i);
        lemma_active_key_apart(date, menu, dishes[i].dish_id);
    }
}

/// A pointer that is set to a day without a menu dangles: reading the
/// menu through it finds that the menu is missing, not that no menu is
/// active.
pub proof fn law_pointer_without_menu_dangles(cache: Map<Seq<char>, Seq<char>>, date: Date)
    requires
        date.is_valid(),
        !cache.contains_key(spec_menu_key(date)),
    ensures
        active_menu(after_set_active(cache, date)) == Err::<Seq<char>, ServiceError>(
            ServiceError::ActiveMenuMissing,
        ),
{
    lemma_active_key_apart(date, spec_menu_key(date), 0);
}

/// Deleting the menu that is served leaves no menu active, and none of
/// the keys of the menu.
pub proof fn law_deleting_the_active_menu(cache: Map<Seq<char>, Seq<char>>, date: Date)
    requires
        date.is_valid(),
        pointer(cache) == Some(spec_menu_key(date)),
    ensures
        active_menu(after_delete_menu(cache, date)) == Err::<Seq<char>, ServiceError>(
            ServiceError::NoActiveMenu,
        ),
        forall|key: Seq<char>|
            keys_of_menu(date).contains(key) ==> !(#[trigger] after_delete_menu(
                cache,
                date,
            ).contains_key(key)),
{
    lemma_active_key_apart(date, spec_menu_key(date), 0);
    assert(!keys_of_menu(date).contains(active_key()));
}

/// Deleting a menu that is not served leaves the pointer as it is, and
/// with it what is read of the menu and of every dish that is served.
pub proof fn law_deleting_another_menu(
    cache: Map<Seq<char>, Seq<char>>,
    date: Date,
    active: Date,
    dish_id: i64,
)
    requires
        date.is_valid(),
        active.is_valid(),
        date != active,
        pointer(cache) == Some(spec_menu_key(active)),
    ensures
        pointer(after_delete_menu(cache, date)) == pointer(cache),
        active_menu(after_delete_menu(cache, date)) == active_menu(cache),
        active_dish(after_delete_menu(cache, date), dish_id) == active_dish(cache, dish_id),
{
    let target = spec_menu_key(active);
    lemma_active_key_apart(date, spec_menu_key(date), 0);
    assert(!keys_of_menu(date).contains(active_key()));
    if target == spec_menu_key(date) {
        lemma_menu_key_injective(active, date);
    }
    lemma_menu_key_is_no_dish_key(active, date);
    assert(!keys_of_menu(date).contains(target));
    lemma_dish_key_of_one_menu(active, dish_id, date);
    assert(!keys_of_menu(date).contains(spec_dish_key(target, dish_id)));
}

/// Writing the blobs of dishes lays what they write over the cache: the
/// cache keeps what they do not write.
pub proof fn lemma_dish_writes_overlay(
    cache: Map<Seq<char>, Seq<char>>,
    menu_key: Seq<char>,
    dishes: Seq<DishBlob>,
)
    ensures
        after_dishes(cache, menu_key, dishes) == cache.union_prefer_right(
            after_dishes(Map::empty(), menu_key, dishes),
        ),
    decreases dishes.len(),
{
    let empty = Map::<Seq<char>, Seq<char>>::empty();
    if dishes.len() == 0 {
        assert(cache =~= cache.union_prefer_right(empty));
    } else {
        match dishes[0].blob {
            Some(blob) => {
                let key = spec_dish_key(menu_key, dishes[0].dish_id);
                let rest = dishes.drop_first();
                lemma_dish_writes_overlay(cache.insert(key, blob@), menu_key, rest);
                lemma_dish_writes_overlay(empty.insert(key, blob@), menu_key, rest);
                let later = after_dishes(empty, menu_key, rest);
                assert(cache.insert(key, blob@).union_prefer_right(later)
                    =~= cache.union_prefer_right(
                    empty.insert(key, blob@).union_prefer_right(later),
                ));
            },
            None => {
                assert(cache =~= cache.union_prefer_right(empty));
            },
        }
    }
}

/// Publishing the same menu once more changes nothing.
pub proof fn law_publishing_again_changes_nothing(
    cache: Map<Seq<char>, Seq<char>>,
    date: Date,
    menu_blob: Seq<char>,
    dishes: Seq<DishBlob>,
)
    ensures
        after_publish(after_publish(cache, date, menu_blob, dishes), date, menu_blob, dishes)
            == after_publish(cache, date, menu_blob, dishes),
{
    let menu = spec_menu_key(date);
    let once = after_publish(cache, date, menu_blob, dishes);
    let written = after_dishes(Map::empty(), menu, dishes);
    lemma_dish_writes_overlay(cache.insert(menu, menu_blob), menu, dishes);
    lemma_dish_writes_overlay(once.insert(menu, menu_blob), menu, dishes);
    assert(once.insert(menu, menu_blob).union_prefer_right(written) =~= once);
}

} // verus!
