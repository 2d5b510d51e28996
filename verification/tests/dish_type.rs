use restaurant_pos::errors::ServiceError;
use restaurant_pos::types::DishType;

#[test]
fn dish_type_text_round_trip() {
    let all = [
        (DishType::Main, "main"),
        (DishType::Appetizer, "appetizer"),
        (DishType::Garnish, "garnish"),
        (DishType::Cold, "cold"),
        (DishType::Salad, "salad"),
        (DishType::Drink, "drink"),
        (DishType::Alcohol, "alcohol"),
    ];
    for (category, text) in all {
        assert_eq!(category.to_string(), text);
        assert_eq!(DishType::from_string(text), Ok(category));
    }
}

#[test]
fn dish_type_rejects_unknown_text() {
    assert_eq!(
        DishType::from_string("dessert"),
        Err(String::from("Couldn't recognize dish type: dessert"))
    );
    assert_eq!(
        DishType::from_string("Main"),
        Err(String::from("Couldn't recognize dish type: Main"))
    );
    assert_eq!(
        DishType::from_string(""),
        Err(String::from("Couldn't recognize dish type: "))
    );
}

#[test]
fn a_stored_category_is_decoded_or_unknown() {
    assert_eq!(DishType::decode("salad"), Ok(DishType::Salad));
    assert_eq!(DishType::decode("alcohol"), Ok(DishType::Alcohol));
    assert_eq!(DishType::decode("Salad"), Err(ServiceError::UnknownCategory));
    assert_eq!(DishType::decode("salads"), Err(ServiceError::UnknownCategory));
    assert_eq!(DishType::decode(""), Err(ServiceError::UnknownCategory));
}
