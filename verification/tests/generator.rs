use triple_triad::rules::{generate_card, generate_deck_of};

#[test]
fn test_card_has_valid_values() {
    let card = generate_card(15).unwrap();

    println!("{:?}", card);
    assert!(card.top >= 1 && card.top <= 10);
    assert!(card.right >= 1 && card.right <= 10);
    assert!(card.bottom >= 1 && card.bottom <= 10);
    assert!(card.left >= 1 && card.left <= 10);
}

#[test]
fn test_card_can_not_have_value_under_15() {
    for i in 1..14 {
        let card = generate_card(i);

        if let Err(_) = card {
            assert!(true);
        } else {
            assert!(false);
        }
    }
}

#[test]
fn test_card_can_not_have_value_above_25() {
    for i in 26..100 {
        let card = generate_card(i);

        if let Err(_) = card {
            assert!(true);
        } else {
            assert!(false);
        }
    }
}

#[test]
fn test_card_has_valid_sum() {
    let card = generate_card(20).unwrap();

    assert_eq!(card.sum(), 20);
}

#[test]
fn test_generate_card_does_not_generate_the_same_card_twice() {
    assert_ne!(generate_card(15).unwrap().id, generate_card(15).unwrap().id);
}

#[test]
fn test_generate_deck_of_10_cards() {
    let deck = generate_deck_of(10);

    assert_eq!(deck.len(), 10);
}

#[test]
fn every_accepted_sum_is_met_exactly() {
    for value in 15..=25u8 {
        let card = generate_card(value).unwrap();
        let sum = card.top as u16 + card.right as u16 + card.bottom as u16 + card.left as u16;
        assert_eq!(sum, value as u16);
        assert!(card.top >= 1 && card.top <= 10);
        assert!(card.right >= 1 && card.right <= 10);
        assert!(card.bottom >= 1 && card.bottom <= 10);
        assert!(card.left >= 1 && card.left <= 10);
    }
}

#[test]
fn every_deck_card_is_balanced() {
    for card in generate_deck_of(10) {
        let sum = card.top as u16 + card.right as u16 + card.bottom as u16 + card.left as u16;
        assert!(sum >= 15 && sum <= 25);
        assert!(card.top >= 1 && card.top <= 10);
        assert!(card.right >= 1 && card.right <= 10);
        assert!(card.bottom >= 1 && card.bottom <= 10);
        assert!(card.left >= 1 && card.left <= 10);
    }
}

#[test]
fn every_rejected_sum_reports_the_range_error() {
    for value in [0u8, 1, 14, 26, 27, 100, 255] {
        match generate_card(value) {
            Err(message) => assert_eq!(message, "Value should be between 15 and 25"),
            Ok(_) => panic!("a sum outside the range must be rejected"),
        }
    }
}

#[test]
fn generated_identity_tokens_have_uuid_shape() {
    let card = generate_card(20).unwrap();
    assert_eq!(card.id.len(), 36);
}

#[test]
fn deck_sizes_other_than_ten_are_honoured() {
    assert_eq!(generate_deck_of(0).len(), 0);
    assert_eq!(generate_deck_of(3).len(), 3);
}
