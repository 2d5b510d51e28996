use restaurant_pos::calendar::Date;
use restaurant_pos::errors::ServiceError;
use restaurant_pos::keyspace::{Entry, Keyspace};
use restaurant_pos::menu_cache::{
    dish_write, points_to, resolve_blob, resolve_pointer, DishBlob, RedisHandler,
};

fn day(day: u32) -> Date {
    Date::from_ymd_opt(2024, 5, day).unwrap()
}

fn blob(dish_id: i64, text: &str) -> DishBlob {
    DishBlob { dish_id, blob: Some(text.to_string()) }
}

fn handler() -> RedisHandler {
    RedisHandler::new(Keyspace::new())
}

fn keys(handler: &RedisHandler) -> Vec<String> {
    let mut keys: Vec<String> = handler.db.entries.iter().map(|entry| entry.key.clone()).collect();
    keys.sort();
    keys
}

#[test]
fn a_keyspace_holds_what_was_set() {
    let mut db = Keyspace::new();
    assert_eq!(db.get("a"), None);
    db.set("a".to_string(), "1".to_string());
    db.set("b".to_string(), "2".to_string());
    assert_eq!(db.get("a"), Some("1".to_string()));
    assert_eq!(db.get("b"), Some("2".to_string()));
    db.set("a".to_string(), "3".to_string());
    assert_eq!(db.get("a"), Some("3".to_string()));
    assert_eq!(db.entries.len(), 2);
    db.delete("a");
    assert_eq!(db.get("a"), None);
    assert_eq!(db.get("b"), Some("2".to_string()));
    db.delete("a");
    db.delete("zzz");
    assert_eq!(db.entries, vec![Entry { key: "b".to_string(), value: "2".to_string() }]);
}

#[test]
fn a_keyspace_is_scanned_by_prefix() {
    let mut db = Keyspace::new();
    for key in ["menu_1", "menu_1_dish-1", "menu_1_dish-2", "menu_11_dish-1", "other"] {
        db.set(key.to_string(), "x".to_string());
    }
    assert_eq!(db.keys_with_prefix("menu_1_"), vec!["menu_1_dish-1", "menu_1_dish-2"]);
    assert_eq!(db.keys_with_prefix("nothing"), Vec::<String>::new());
    assert_eq!(db.keys_with_prefix("").len(), 5);
    db.delete_many(&vec!["menu_1_dish-1".to_string(), "other".to_string(), "none".to_string()]);
    assert_eq!(db.get("menu_1_dish-1"), None);
    assert_eq!(db.get("other"), None);
    assert_eq!(db.get("menu_1_dish-2"), Some("x".to_string()));
    assert_eq!(db.entries.len(), 3);
}

#[test]
fn of_two_entries_under_one_key_the_first_counts() {
    let mut db = Keyspace {
        entries: vec![
            Entry { key: "k".to_string(), value: "first".to_string() },
            Entry { key: "k".to_string(), value: "second".to_string() },
        ],
    };
    assert_eq!(db.get("k"), Some("first".to_string()));
    assert_eq!(db.keys_with_prefix("k"), vec!["k", "k"]);
    db.delete("k");
    assert_eq!(db.get("k"), None);
    assert!(db.entries.is_empty());
}

#[test]
fn reads_tell_no_pointer_from_a_dangling_one() {
    assert_eq!(resolve_pointer(None), Err(ServiceError::NoActiveMenu));
    assert_eq!(resolve_pointer(Some("menu_x".to_string())), Ok("menu_x".to_string()));
    assert_eq!(resolve_blob(None), Err(ServiceError::ActiveMenuMissing));
    assert_eq!(resolve_blob(Some("[]".to_string())), Ok("[]".to_string()));
    assert!(points_to(&Some("menu_x".to_string()), "menu_x"));
    assert!(!points_to(&Some("menu_x".to_string()), "menu_y"));
    assert!(!points_to(&None, "menu_x"));
}

#[test]
fn a_dish_is_written_under_its_key() {
    assert_eq!(
        dish_write("menu_2024-05-17", &blob(4, "{}")),
        Ok(("menu_2024-05-17_dish-4".to_string(), "{}".to_string()))
    );
    assert_eq!(
        dish_write("menu_2024-05-17", &DishBlob { dish_id: 4, blob: None }),
        Err(ServiceError::PartialPublish)
    );
}

#[test]
fn a_published_menu_is_served_once_it_is_active() {
    let mut cache = handler();
    let key = cache
        .save_new_menu("[1,2]".to_string(), vec![blob(1, "one"), blob(2, "two")], &day(17))
        .unwrap();
    assert_eq!(key, "menu_2024-05-17");
    assert_eq!(
        keys(&cache),
        vec!["menu_2024-05-17", "menu_2024-05-17_dish-1", "menu_2024-05-17_dish-2"]
    );
    assert_eq!(cache.get_menu(), Err(ServiceError::NoActiveMenu));
    assert_eq!(cache.get_dish(1), Err(ServiceError::NoActiveMenu));
    assert_eq!(cache.set_active_menu(&day(17)), Ok(()));
    assert_eq!(cache.get_menu(), Ok("[1,2]".to_string()));
    assert_eq!(cache.get_dish(1), Ok("one".to_string()));
    assert_eq!(cache.get_dish(2), Ok("two".to_string()));
    assert_eq!(cache.get_dish(3), Err(ServiceError::ActiveMenuMissing));
}

#[test]
fn a_pointer_to_no_menu_dangles() {
    let mut cache = handler();
    cache.set_active_menu(&day(17)).unwrap();
    assert_eq!(cache.get_menu(), Err(ServiceError::ActiveMenuMissing));
    assert_eq!(cache.get_dish(1), Err(ServiceError::ActiveMenuMissing));
    assert_eq!(cache.db.get("active-menu"), Some("menu_2024-05-17".to_string()));
    cache.save_new_menu("[]".to_string(), Vec::new(), &day(18)).unwrap();
    assert_eq!(cache.get_menu(), Err(ServiceError::ActiveMenuMissing));
    cache.save_new_menu("[]".to_string(), Vec::new(), &day(17)).unwrap();
    assert_eq!(cache.get_menu(), Ok("[]".to_string()));
}

#[test]
fn publishing_again_overwrites() {
    let mut cache = handler();
    cache.save_new_menu("old".to_string(), vec![blob(1, "old one")], &day(17)).unwrap();
    cache.set_active_menu(&day(17)).unwrap();
    cache.save_new_menu("new".to_string(), vec![blob(1, "new one")], &day(17)).unwrap();
    assert_eq!(cache.get_menu(), Ok("new".to_string()));
    assert_eq!(cache.get_dish(1), Ok("new one".to_string()));
    let once = cache.db.entries.clone();
    cache.save_new_menu("new".to_string(), vec![blob(1, "new one")], &day(17)).unwrap();
    assert_eq!(cache.db.entries, once);
}

#[test]
fn a_menu_of_another_day_waits_behind_the_active_one() {
    let mut cache = handler();
    cache.save_new_menu("today".to_string(), vec![blob(1, "one")], &day(17)).unwrap();
    cache.set_active_menu(&day(17)).unwrap();
    cache.save_new_menu("tomorrow".to_string(), vec![blob(1, "uno")], &day(18)).unwrap();
    assert_eq!(cache.get_menu(), Ok("today".to_string()));
    assert_eq!(cache.get_dish(1), Ok("one".to_string()));
    cache.set_active_menu(&day(18)).unwrap();
    assert_eq!(cache.get_menu(), Ok("tomorrow".to_string()));
    assert_eq!(cache.get_dish(1), Ok("uno".to_string()));
}

#[test]
fn a_menu_that_fails_half_way_stays_in_part() {
    let mut cache = handler();
    let dishes =
        vec![blob(1, "one"), DishBlob { dish_id: 2, blob: None }, blob(3, "three")];
    assert_eq!(
        cache.save_new_menu("[1,2,3]".to_string(), dishes, &day(17)),
        Err(ServiceError::PartialPublish)
    );
    assert_eq!(keys(&cache), vec!["menu_2024-05-17", "menu_2024-05-17_dish-1"]);
    let whole = vec![blob(1, "one"), blob(2, "two"), blob(3, "three")];
    assert_eq!(
        cache.save_new_menu("[1,2,3]".to_string(), whole, &day(17)),
        Ok("menu_2024-05-17".to_string())
    );
    cache.set_active_menu(&day(17)).unwrap();
    assert_eq!(cache.get_dish(3), Ok("three".to_string()));
}

#[test]
fn deleting_the_active_menu_leaves_none_active() {
    let mut cache = handler();
    cache.save_new_menu("[1,2]".to_string(), vec![blob(1, "one"), blob(2, "two")], &day(17)).unwrap();
    cache.set_active_menu(&day(17)).unwrap();
    assert_eq!(cache.delete_menu(&day(17)), Ok(()));
    assert_eq!(cache.get_menu(), Err(ServiceError::NoActiveMenu));
    assert_eq!(cache.get_dish(1), Err(ServiceError::NoActiveMenu));
    assert!(cache.db.entries.is_empty());
}

#[test]
fn deleting_another_menu_leaves_the_active_one() {
    let mut cache = handler();
    cache.save_new_menu("a".to_string(), vec![blob(1, "a1"), blob(2, "a2")], &day(1)).unwrap();
    cache.save_new_menu("b".to_string(), vec![blob(1, "b1"), blob(2, "b2")], &day(11)).unwrap();
    cache.set_active_menu(&day(11)).unwrap();
    assert_eq!(cache.delete_menu(&day(1)), Ok(()));
    assert_eq!(cache.db.get("active-menu"), Some("menu_2024-05-11".to_string()));
    assert_eq!(cache.get_menu(), Ok("b".to_string()));
    assert_eq!(cache.get_dish(1), Ok("b1".to_string()));
    assert_eq!(cache.get_dish(2), Ok("b2".to_string()));
    assert_eq!(
        keys(&cache),
        vec!["active-menu", "menu_2024-05-11", "menu_2024-05-11_dish-1", "menu_2024-05-11_dish-2"]
    );
    assert_eq!(cache.delete_menu(&day(2)), Ok(()));
    assert_eq!(cache.get_menu(), Ok("b".to_string()));
}

#[test]
fn deleting_a_menu_under_a_dangling_pointer_clears_the_pointer() {
    let mut cache = handler();
    cache.set_active_menu(&day(17)).unwrap();
    cache.delete_menu(&day(17)).unwrap();
    assert_eq!(cache.get_menu(), Err(ServiceError::NoActiveMenu));
    assert!(cache.db.entries.is_empty());
}
