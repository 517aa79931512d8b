use bingo::card;
use bingo::Card;

const NUMBERS: [u8; 25] = [
    1, 2, 3, 4, 5, 6, 7, 8, 9, 10, 11, 12, 0, 13, 14, 15, 16, 17, 18, 19, 20, 21, 22, 23, 24,
];

#[test]
fn scenario_marks_one_to_twenty_one() {
    let mut card = Card::new(NUMBERS, 1 << 12);
    card.mark(1);
    assert_eq!(card.marked(), (1 << 12) | 1);
    assert_eq!(card.info(), (0, 0));
    for number in [6, 11, 16, 21] {
        card.mark(number);
    }
    // 16 and 21 sit at squares 16 and 21, so no line is complete.
    let squares = (1 << 0) | (1 << 5) | (1 << 10) | (1 << 16) | (1 << 21);
    assert_eq!(card.marked(), squares | (1 << 12));
    assert_eq!(card.info(), (0, 0));
    assert_eq!(card.numbers(), &NUMBERS);
}

#[test]
fn scenario_first_row() {
    let mut card = Card::new(NUMBERS, 1 << 12);
    card.mark(1);
    assert_eq!(card.info(), (0, 0));
    for number in [6, 11, 15, 20] {
        card.mark(number);
    }
    let row = 0b00001_00001_00001_00001_00001;
    assert_eq!(card.marked(), row | (1 << 12));
    assert_eq!(card.info(), (0, row));
}

#[test]
fn scenario_first_row_cached() {
    let mut card = card::Card::new(NUMBERS, 1 << 12);
    card.mark(1);
    assert_eq!(card.states(), ((1 << 12) | 1, 0, 0));
    for number in [6, 11, 15] {
        card.mark(number);
    }
    let row = 0b00001_00001_00001_00001_00001;
    assert_eq!(card.states(), (row & !(1 << 20) | (1 << 12), row, 0));
    card.mark(20);
    assert_eq!(card.states(), (row | (1 << 12), 0, row));
}

#[test]
fn mark_twice_is_mark_once() {
    let mut once = Card::new(NUMBERS, 0);
    once.mark(9);
    let mut twice = once.clone();
    twice.mark(9);
    assert_eq!(once.marked(), twice.marked());
    assert_eq!(once.marked(), 1 << 8);
}

#[test]
fn mark_without_match_is_noop() {
    let mut card = Card::new(NUMBERS, 0b101);
    card.mark(99);
    assert_eq!(card.marked(), 0b101);
}

#[test]
fn mark_every_square_holding_number() {
    let mut numbers = [5u8; 25];
    numbers[3] = 6;
    let mut card = Card::new(numbers, 0);
    card.mark(5);
    assert_eq!(card.marked(), ((1 << 25) - 1) & !(1 << 3));
    let mut cached = card::Card::new(numbers, 0);
    cached.mark(6);
    assert_eq!(cached.states().0, 1 << 3);
}

#[test]
fn marks_only_add_squares() {
    let mut card = Card::new(NUMBERS, 1 << 12);
    let mut before = card.marked();
    for number in [3, 0, 24, 3, 50, 17] {
        card.mark(number);
        assert_eq!(card.marked() & before, before);
        before = card.marked();
    }
}
