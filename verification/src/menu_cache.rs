//! The menu publication cache: dated menu snapshots in a keyspace, and a
//! pointer to the one that is served.
//!
//! A menu is published as one blob under the menu's key and one blob for
//! each dish. The pointer is set without a look at what it points to;
//! whoever reads through it finds out whether the menu is there.

use crate::calendar::Date;
use crate::errors::ServiceError;
use crate::keyspace::{lists, Keyspace};
use crate::menu_keys::{
    active_key, dish_key, dish_key_prefix, menu_key, spec_dish_key, spec_dish_prefix,
    spec_menu_key,
};
use crate::text::starts_with;
use crate::types::{same_text, ACTIVE_MENU_KEY};
use vstd::prelude::*;
use vstd::string::*;

verus! {

/// The blob of one dish of a menu that is being published; `None` where
/// the blob could not be made.
#[derive(Debug, Clone, PartialEq, Eq)]
pub struct DishBlob {
    pub dish_id: i64,
    pub blob: Option<String>,
}

/// The cache handler over its keyspace.
#[derive(Debug, Clone, PartialEq, Eq)]
pub struct RedisHandler {
    pub db: Keyspace,
}

impl View for RedisHandler {
    type V = Map<Seq<char>, Seq<char>>;

    open spec fn view(&self) -> Map<Seq<char>, Seq<char>> {
        self.db@
    }
}

/// A text result as the characters it holds.
pub open spec fn text_of(outcome: Result<String, ServiceError>) -> Result<
    Seq<char>,
    ServiceError,
> {
    match outcome {
        Ok(text) => Ok(text@),
        Err(error) => Err(error),
    }
}

/// Whether every dish has its blob.
pub open spec fn all_present(dishes: Seq<DishBlob>) -> bool {
    forall|i: int| 0 <= i < dishes.len() ==> (#[trigger] dishes[i]).blob is Some
}

/// The cache after the blobs of the dishes were written in turn, up to
/// the first dish without a blob.
pub open spec fn after_dishes(
    cache: Map<Seq<char>, Seq<char>>,
    menu_key: Seq<char>,
    dishes: Seq<DishBlob>,
) -> Map<Seq<char>, Seq<char>>
    decreases dishes.len(),
{
    if dishes.len() == 0 {
        cache
    } else {
        match dishes[0].blob {
            Some(blob) => after_dishes(
                cache.insert(spec_dish_key(menu_key, dishes[0].dish_id), blob@),
                menu_key,
                dishes.drop_first(),
            ),
            None => cache,
        }
    }
}

/// The cache after a menu was published: the menu's blob under its key,
/// then the blobs of its dishes.
pub open spec fn after_publish(
    cache: Map<Seq<char>, Seq<char>>,
    date: Date,
    menu_blob: Seq<char>,
    dishes: Seq<DishBlob>,
) -> Map<Seq<char>, Seq<char>> {
    after_dishes(
        cache.insert(spec_menu_key(date), menu_blob),
        spec_menu_key(date),
        dishes,
    )
}

/// What publishing answers: the key of the menu, or that the menu was
/// written in part only.
pub open spec fn publish_outcome(date: Date, dishes: Seq<DishBlob>) -> Result<
    Seq<char>,
    ServiceError,
> {
    if all_present(dishes) {
        Ok(spec_menu_key(date))
    } else {
        Err(ServiceError::PartialPublish)
    }
}

/// The cache after the pointer was set to the menu of a day.
pub open spec fn after_set_active(cache: Map<Seq<char>, Seq<char>>, date: Date) -> Map<
    Seq<char>,
    Seq<char>,
> {
    cache.insert(active_key(), spec_menu_key(date))
}

/// What the pointer points to.
pub open spec fn pointer(cache: Map<Seq<char>, Seq<char>>) -> Option<Seq<char>> {
    if cache.contains_key(active_key()) {
        Some(cache[active_key()])
    } else {
        None
    }
}

/// What is read under a key that the pointer led to.
pub open spec fn read_through(
    cache: Map<Seq<char>, Seq<char>>,
    key: spec_fn(Seq<char>) -> Seq<char>,
) -> Result<Seq<char>, ServiceError> {
    match pointer(cache) {
        None => Err(ServiceError::NoActiveMenu),
        Some(target) => if cache.contains_key(key(target)) {
            Ok(cache[key(target)])
        } else {
            Err(ServiceError::ActiveMenuMissing)
        },
    }
}

/// The menu that is served.
pub open spec fn active_menu(cache: Map<Seq<char>, Seq<char>>) -> Result<Seq<char>, ServiceError> {
    read_through(cache, |target: Seq<char>| target)
}

/// The blob of a dish of the menu that is served.
pub open spec fn active_dish(cache: Map<Seq<char>, Seq<char>>, dish_id: i64) -> Result<
    Seq<char>,
    ServiceError,
> {
    read_through(cache, |target: Seq<char>| spec_dish_key(target, dish_id))
}

/// The keys that go with the menu of a day: the menu's own and those of its dishes.
pub open spec fn keys_of_menu(date: Date) -> Set<Seq<char>> {
    Set::new(
        |key: Seq<char>|
            key == spec_menu_key(date) || starts_with(key, spec_dish_prefix(spec_menu_key(date))),
    )
}

/// The cache after the menu of a day was deleted: its keys are gone, and
/// so is the pointer where it pointed to that menu.
pub open spec fn after_delete_menu(cache: Map<Seq<char>, Seq<char>>, date: Date) -> Map<
    Seq<char>,
    Seq<char>,
> {
    let cleared = cache.remove_keys(keys_of_menu(date));
    if pointer(cleared) == Some(spec_menu_key(date)) {
        cleared.remove(active_key())
    } else {
        cleared
    }
}

/// The key that the pointer names, or that there is no pointer.
pub fn resolve_pointer(pointer: Option<String>) -> (target: Result<String, ServiceError>)
    ensures
        target == match pointer {
            Some(key) => Ok::<String, ServiceError>(key),
            None => Err::<String, ServiceError>(ServiceError::NoActiveMenu),
        },
{
    match pointer {
        Some(key) => Ok(key),
        None => Err(ServiceError::NoActiveMenu),
    }
}

/// The blob that was found where the pointer led, or that nothing is there.
pub fn resolve_blob(blob: Option<String>) -> (found: Result<String, ServiceError>)
    ensures
        found == match blob {
            Some(text) => Ok::<String, ServiceError>(text),
            None => Err::<String, ServiceError>(ServiceError::ActiveMenuMissing),
        },
{
    match blob {
        Some(text) => Ok(text),
        None => Err(ServiceError::ActiveMenuMissing),
    }
}

/// Whether the pointer names the given menu key.
pub fn points_to(pointer: &Option<String>, menu_key: &str) -> (same: bool)
    ensures
        same == (pointer matches Some(target) && target@ == menu_key@),
{
    match pointer {
        Some(target) => same_text(target.as_str(), menu_key),
        None => false,
    }
}

/// The write that publishes one dish: its key and its blob, or that the
/// menu stays written in part.
pub fn dish_write(menu_key: &str, dish: &DishBlob) -> (write: Result<(String, String), ServiceError>)
    ensures
        match write {
            Ok((key, blob)) => dish.blob is Some && key@ == spec_dish_key(menu_key@, dish.dish_id)
                && blob@ == dish.blob->0@,
            Err(error) => dish.blob is None && error == ServiceError::PartialPublish,
        },
{
    match &dish.blob {
        Some(blob) => Ok((dish_key(menu_key, dish.dish_id), blob.clone())),
        None => Err(ServiceError::PartialPublish),
    }
}

impl RedisHandler {
    pub fn new(db: Keyspace) -> (handler: Self)
        ensures
            handler@ == db@,
    {
        RedisHandler { db }
    }

    /// Publishes the menu of a day: the menu's blob, then the blob of
    /// each dish in turn. At the first dish without a blob it stops; what
    /// was written before stays.
    pub fn save_new_menu(&mut self, menu_json: String, dishes: Vec<DishBlob>, date: &Date) -> (outcome:
        Result<String, ServiceError>)
        ensures
            final(self)@ == after_publish(old(self)@, *date, menu_json@, dishes@),
            text_of(outcome) == publish_outcome(*date, dishes@),
    {
        let key = menu_key(date);
        let ghost goal = after_publish(old(self)@, *date, menu_json@, dishes@);
        self.db.set(key.clone(), menu_json);
        let mut i: usize = 0;
        assert(dishes@.skip(0) =~= dishes@);
        while i < dishes.len()
            invariant
                i <= dishes.len(),
                key@ == spec_menu_key(*date),
                goal == after_publish(old(self)@, *date, menu_json@, dishes@),
                after_dishes(self@, key@, dishes@.skip(i as int)) == goal,
                all_present(dishes@.take(i as int)),
            decreases dishes.len() - i,
        {
            let ghost rest = dishes@.skip(i as int);
            assert(rest[0] == dishes@[i as int]);
            assert(rest.drop_first() =~= dishes@.skip(i + 1));
            match dish_write(key.as_str(), &dishes[i]) {
                Ok((dish_key, blob)) => {
                    self.db.set(dish_key, blob);
                },
                Err(error) => {
                    assert(!all_present(dishes@));
                    assert(after_dishes(self@, key@, rest) == self@);
                    return Err(error);
                },
            }
            proof {
                let done = dishes@.take(i + 1);
                assert forall|k: int| 0 <= k < done.len() implies (#[trigger] done[k]).blob is Some by {
                    if k < i {
                        assert(done[k] == dishes@.take(i as int)[k]);
                    }
                }
            }
            i = i + 1;
        }
        assert(dishes@.take(i as int) =~= dishes@);
        Ok(key)
    }

    /// Points the pointer to the menu of a day, whether or not that menu is there.
    pub fn set_active_menu(&mut self, date: &Date) -> (outcome: Result<(), ServiceError>)
        ensures
            final(self)@ == after_set_active(old(self)@, *date),
            outcome is Ok,
    {
        proof {
            reveal_strlit("active-menu");
        }
        self.db.set(String::from_str(ACTIVE_MENU_KEY), menu_key(date));
        Ok(())
    }

    /// The menu that is served.
    pub fn get_menu(&self) -> (outcome: Result<String, ServiceError>)
        ensures
            text_of(outcome) == active_menu(self@),
    {
        let target = match resolve_pointer(self.db.get(ACTIVE_MENU_KEY)) {
            Ok(key) => key,
            Err(error) => { return Err(error); },
        };
        resolve_blob(self.db.get(target.as_str()))
    }

    /// Deletes the menu of a day with the blobs of its dishes, and the
    /// pointer where it pointed to that menu.
    pub fn delete_menu(&mut self, date: &Date) -> (outcome: Result<(), ServiceError>)
        ensures
            final(self)@ == after_delete_menu(old(self)@, *date),
            outcome is Ok,
    {
        let key = menu_key(date);
        let prefix = dish_key_prefix(key.as_str());
        let doomed = self.db.keys_with_prefix(prefix.as_str());
        self.db.delete_many(&doomed);
        self.db.delete(key.as_str());
        proof {
            let cleared = old(self)@.remove_keys(keys_of_menu(*date));
            assert forall|k: Seq<char>| self@.contains_key(k) <==> cleared.contains_key(k) by {
                if old(self)@.contains_key(k) && starts_with(k, prefix@) {
                    assert(lists(doomed@, k));
                }
            }
            assert(self@ =~= cleared);
        }
        let pointer = self.db.get(ACTIVE_MENU_KEY);
        if points_to(&pointer, key.as_str()) {
            self.db.delete(ACTIVE_MENU_KEY);
        }
        Ok(())
    }

    /// The blob of a dish of the menu that is served.
    pub fn get_dish(&self, dish_id: i64) -> (outcome: Result<String, ServiceError>)
        ensures
            text_of(outcome) == active_dish(self@, dish_id),
    {
        let target = match resolve_pointer(self.db.get(ACTIVE_MENU_KEY)) {
            Ok(key) => key,
            Err(error) => { return Err(error); },
        };
        let key = dish_key(target.as_str(), dish_id);
        resolve_blob(self.db.get(key.as_str()))
    }
}

} // verus!
