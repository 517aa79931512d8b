use bingo::caller::{ArrayCaller, Caller as _};
use bingo::{card, Caller, Card};
use rand::thread_rng;
use std::convert::identity;

#[test]
fn test2() {
    let mut rng = thread_rng();

    for _ in 0..0xFF {
        let card = Card::random(&mut rng);

        for (column, numbers) in card.numbers().chunks_exact(5).enumerate() {
            let mut generated = [false; 15];

            for (row, &number) in numbers.iter().enumerate() {
                let mask = 1 << (5 * column + row);

                match number {
                    0 => {
                        assert!(column == 2);
                        assert!(row == 2);
                        assert!(card.marked() & mask == mask);
                    }
                    _ => {
                        let index = number as usize - 15 * column - 1;
                        assert!(card.marked() & mask == 0);
                        assert!(!generated[index]);
                        generated[index] = true;
                    }
                }
            }
        }
    }
}

#[test]
fn tests_test() {
    let mut rng = thread_rng();

    for _ in 0..0xFF {
        let card = card::Card::random(&mut rng);
        let (marked, _, _) = card.states();

        for (column, numbers) in card.numbers().chunks_exact(5).enumerate() {
            let mut generated = [false; 15];

            for (row, &number) in numbers.iter().enumerate() {
                let mask = 1 << (5 * column + row);

                match number {
                    0 => {
                        assert!(column == 2);
                        assert!(row == 2);
                        assert!(marked & mask == mask);
                    }
                    _ => {
                        let index = number as usize - 15 * column - 1;
                        assert!(marked & mask == 0);
                        assert!(!generated[index]);
                        generated[index] = true;
                    }
                }
            }
        }
    }
}

#[test]
fn test3() {
    let mut rng = thread_rng();

    for _ in 0..0xFF {
        let mut caller: Caller<75> = Caller::random(&mut rng);
        let mut generated = [false; 75];

        while let Option::Some(number) = caller.call() {
            let index = number as usize - 1;
            assert!(!generated[index]);
            generated[index] = true;
        }

        assert!(generated.into_iter().all(identity));
    }
}

#[test]
fn test() {
    let mut rng = thread_rng();

    for _ in 0..0xFF {
        let mut caller: ArrayCaller<75> = ArrayCaller::random(&mut rng);
        let mut generated = [false; 75];

        while let Option::Some(number) = caller.call() {
            let index = number as usize - 1;
            assert!(!generated[index]);
            generated[index] = true;
        }

        assert!(generated.into_iter().all(identity));
    }
}

#[test]
fn call_orders_are_shuffled() {
    let mut rng = thread_rng();
    let sorted: Vec<u8> = (1..=75).collect();
    let shuffled = (0..16)
        .filter(|_| {
            let caller: Caller<75> = Caller::random(&mut rng);
            caller.numbers().to_vec() != sorted
        })
        .count();
    assert!(shuffled > 0);
}

#[test]
fn card_columns_are_drawn() {
    let mut rng = thread_rng();
    let mut seen = [false; 15];
    for _ in 0..0xFF {
        let card = Card::random(&mut rng);
        for &number in &card.numbers()[0..5] {
            seen[number as usize - 1] = true;
        }
    }
    assert!(seen.into_iter().all(identity));
}

#[test]
fn largest_call_order() {
    let mut rng = thread_rng();
    let mut caller: Caller<255> = Caller::random(&mut rng);
    let mut generated = [false; 255];
    while let Some(number) = caller.call() {
        assert!(!generated[number as usize - 1]);
        generated[number as usize - 1] = true;
    }
    assert!(generated.into_iter().all(identity));
}
