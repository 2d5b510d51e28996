//! The keys of the menu cache and the facts that keep them apart.
//!
//! A menu lies under `menu_<date>`, the blob of one of its dishes under
//! `menu_<date>_dish-<id>`, and the pointer to the menu that is served
//! under `active-menu`.

use crate::calendar::{lemma_date_text_differs, Date};
use crate::text::{
    int_text, int_to_text, lemma_date_text_no_underscore, lemma_int_text_injective,
    lemma_underscore_split, no_underscore, starts_with,
};
use crate::types::{ACTIVE_MENU_KEY, MENU_KEY};
use vstd::prelude::*;
use vstd::string::*;

verus! {

/// The key of the pointer to the menu that is served.
pub open spec fn active_key() -> Seq<char> {
    ACTIVE_MENU_KEY@
}

/// The key of the menu of a day.
pub open spec fn spec_menu_key(date: Date) -> Seq<char> {
    MENU_KEY@ + seq!['_'] + date.text()
}

/// The key of the blob of a dish of the menu under `menu_key`.
pub open spec fn spec_dish_key(menu_key: Seq<char>, dish_id: i64) -> Seq<char> {
    menu_key + "_dish-"@ + int_text(dish_id as int)
}

/// What the keys of the dishes of the menu under `menu_key` begin with.
pub open spec fn spec_dish_prefix(menu_key: Seq<char>) -> Seq<char> {
    menu_key + seq!['_']
}

/// The pattern that matches the keys of the dishes of the menu under `menu_key`.
pub open spec fn spec_dish_pattern(menu_key: Seq<char>) -> Seq<char> {
    menu_key + "_*"@
}

/// The key of the menu of a day.
pub fn menu_key(date: &Date) -> (key: String)
    ensures
        key@ == spec_menu_key(*date),
        date.is_valid(),
{
    proof {
        reveal_strlit("_");
    }
    let mut key = String::from_str(MENU_KEY);
    key.append("_");
    let text = date.to_text();
    key.append(text.as_str());
    assert(key@ =~= spec_menu_key(*date));
    key
}

/// The key of the blob of a dish of the menu under `menu_key`.
pub fn dish_key(menu_key: &str, dish_id: i64) -> (key: String)
    ensures
        key@ == spec_dish_key(menu_key@, dish_id),
{
    let mut key = String::from_str(menu_key);
    key.append("_dish-");
    let id = int_to_text(dish_id);
    key.append(id.as_str());
    key
}

/// What the keys of the dishes of the menu under `menu_key` begin with.
pub fn dish_key_prefix(menu_key: &str) -> (prefix: String)
    ensures
        prefix@ == spec_dish_prefix(menu_key@),
{
    proof {
        reveal_strlit("_");
    }
    let mut prefix = String::from_str(menu_key);
    prefix.append("_");
    assert(prefix@ =~= spec_dish_prefix(menu_key@));
    prefix
}

/// The pattern that matches the keys of the dishes of the menu under `menu_key`.
pub fn dish_key_pattern(menu_key: &str) -> (pattern: String)
    ensures
        pattern@ == spec_dish_pattern(menu_key@),
{
    let mut pattern = String::from_str(menu_key);
    pattern.append("_*");
    pattern
}

/// A text that begins with a prefix is the prefix and a rest.
pub proof fn lemma_starts_with_rest(text: Seq<char>, prefix: Seq<char>)
    requires
        starts_with(text, prefix),
    ensures
        text == prefix + text.subrange(prefix.len() as int, text.len() as int),
{
    assert(text =~= text.subrange(0, prefix.len() as int) + text.subrange(
        prefix.len() as int,
        text.len() as int,
    ));
}

/// Two texts with the same beginning are equal only where their rests are.
pub proof fn lemma_same_beginning(head: Seq<char>, a: Seq<char>, b: Seq<char>)
    requires
        head + a == head + b,
    ensures
        a == b,
{
    assert(a =~= (head + a).subrange(head.len() as int, (head + a).len() as int));
    assert(b =~= (head + b).subrange(head.len() as int, (head + b).len() as int));
}

/// The key of the pointer holds no underscore.
pub proof fn lemma_active_key_plain()
    ensures
        no_underscore(active_key()),
        active_key().len() == 11,
{
    reveal_strlit("active-menu");
    let key = active_key();
    assert(key[0] == 'a' && key[1] == 'c' && key[2] == 't' && key[3] == 'i' && key[4] == 'v');
    assert(key[5] == 'e' && key[6] == '-' && key[7] == 'm' && key[8] == 'e' && key[9] == 'n');
    assert(key[10] == 'u');
}

/// The key of the pointer is no key of a menu, no key of a dish, and
/// begins like no key of a dish.
pub proof fn lemma_active_key_apart(date: Date, menu_key: Seq<char>, dish_id: i64)
    ensures
        active_key() != spec_menu_key(date),
        active_key() != spec_dish_key(menu_key, dish_id),
        !starts_with(active_key(), spec_dish_prefix(menu_key)),
{
    lemma_active_key_plain();
    reveal_strlit("menu");
    reveal_strlit("_dish-");
    assert(spec_menu_key(date)[4] == '_');
    assert(spec_dish_key(menu_key, dish_id)[menu_key.len() as int] == '_');
    let prefix = spec_dish_prefix(menu_key);
    if starts_with(active_key(), prefix) {
        assert(active_key().subrange(0, prefix.len() as int)[menu_key.len() as int] == '_');
    }
}

/// Different days have different menu keys.
pub proof fn lemma_menu_key_injective(a: Date, b: Date)
    requires
        a.is_valid(),
        b.is_valid(),
        spec_menu_key(a) == spec_menu_key(b),
    ensures
        a == b,
{
    let head = MENU_KEY@ + seq!['_'];
    assert(spec_menu_key(a) =~= head + a.text());
    assert(spec_menu_key(b) =~= head + b.text());
    lemma_same_beginning(head, a.text(), b.text());
    lemma_date_text_differs(a, b);
}

/// Different dishes of one menu have different keys.
pub proof fn lemma_dish_key_injective(menu_key: Seq<char>, a: i64, b: i64)
    requires
        spec_dish_key(menu_key, a) == spec_dish_key(menu_key, b),
    ensures
        a == b,
{
    let head = menu_key + "_dish-"@;
    lemma_same_beginning(head, int_text(a as int), int_text(b as int));
    lemma_int_text_injective(a as int, b as int);
}

/// The key of a dish is longer than the key of its menu.
pub proof fn lemma_dish_key_longer(menu_key: Seq<char>, dish_id: i64)
    ensures
        spec_dish_key(menu_key, dish_id).len() > menu_key.len(),
        spec_dish_key(menu_key, dish_id) != menu_key,
        starts_with(spec_dish_key(menu_key, dish_id), spec_dish_prefix(menu_key)),
{
    reveal_strlit("_dish-");
    let key = spec_dish_key(menu_key, dish_id);
    let prefix = spec_dish_prefix(menu_key);
    assert(key.subrange(0, prefix.len() as int) =~= prefix);
}

/// The key of a menu begins like no key of a dish of any menu.
pub proof fn lemma_menu_key_is_no_dish_key(menu: Date, other: Date)
    requires
        menu.is_valid(),
        other.is_valid(),
    ensures
        !starts_with(spec_menu_key(menu), spec_dish_prefix(spec_menu_key(other))),
{
    let key = spec_menu_key(menu);
    let prefix = spec_dish_prefix(spec_menu_key(other));
    if starts_with(key, prefix) {
        let head = MENU_KEY@ + seq!['_'];
        let rest = key.subrange(prefix.len() as int, key.len() as int);
        lemma_starts_with_rest(key, prefix);
        assert(key =~= head + menu.text());
        assert(prefix + rest =~= head + (other.text() + seq!['_'] + rest));
        lemma_same_beginning(head, menu.text(), other.text() + seq!['_'] + rest);
        lemma_date_text_no_underscore(menu.ymd().0, menu.ymd().1, menu.ymd().2);
        assert(menu.text()[other.text().len() as int] == '_');
    }
}

/// The key of a dish begins like the keys of the dishes of its own menu only.
pub proof fn lemma_dish_key_of_one_menu(menu: Date, dish_id: i64, other: Date)
    requires
        menu.is_valid(),
        other.is_valid(),
    ensures
        starts_with(
            spec_dish_key(spec_menu_key(menu), dish_id),
            spec_dish_prefix(spec_menu_key(other)),
        ) <==> menu == other,
        spec_dish_key(spec_menu_key(menu), dish_id) != spec_menu_key(other),
{
    reveal_strlit("_dish-");
    reveal_strlit("dish-");
    let key = spec_dish_key(spec_menu_key(menu), dish_id);
    let prefix = spec_dish_prefix(spec_menu_key(other));
    let head = MENU_KEY@ + seq!['_'];
    let tail = "dish-"@ + int_text(dish_id as int);
    lemma_date_text_no_underscore(menu.ymd().0, menu.ymd().1, menu.ymd().2);
    lemma_date_text_no_underscore(other.ymd().0, other.ymd().1, other.ymd().2);
    assert("_dish-"@ =~= seq!['_'] + "dish-"@);
    assert(key =~= head + (menu.text() + seq!['_'] + tail));
    lemma_dish_key_longer(spec_menu_key(menu), dish_id);
    if starts_with(key, prefix) {
        let rest = key.subrange(prefix.len() as int, key.len() as int);
        lemma_starts_with_rest(key, prefix);
        assert(prefix + rest =~= head + (other.text() + seq!['_'] + rest));
        lemma_same_beginning(
            head,
            menu.text() + seq!['_'] + tail,
            other.text() + seq!['_'] + rest,
        );
        lemma_underscore_split(menu.text(), tail, other.text(), rest);
        lemma_date_text_differs(menu, other);
    }
    if key == spec_menu_key(other) {
        assert(spec_menu_key(other) =~= head + other.text());
        lemma_same_beginning(head, menu.text() + seq!['_'] + tail, other.text());
        assert(other.text()[menu.text().len() as int] == '_');
    }
}

} // verus!
