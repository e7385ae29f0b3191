use mutant_synth::shard::{Shard, ShardError};

#[test]
fn shard_from_str_valid_input() {
    let shard = Shard::from_str("2/5").unwrap();
    assert_eq!(shard.k, 2);
    assert_eq!(shard.n, 5);
    assert_eq!(shard, Shard { k: 2, n: 5 });
}

#[test]
fn shard_from_str_invalid_input() {
    assert_eq!(
        Shard::from_str("").unwrap_err().message(),
        "shard must be k/n"
    );

    assert_eq!(
        Shard::from_str("2").unwrap_err().message(),
        "shard must be k/n"
    );

    assert_eq!(
        Shard::from_str("2/0").unwrap_err().message(),
        "shard k must be less than n"
    );

    assert_eq!(
        Shard::from_str("5/2").unwrap_err().message(),
        "shard k must be less than n"
    );
}

#[test]
fn shard_select() {
    assert_eq!(
        Shard::from_str("1/4")
            .unwrap()
            .select((0..10).collect::<Vec<i32>>())
            .as_slice(),
        &[1, 5, 9]
    );
}

#[test]
fn shard_from_str_bad_numbers() {
    assert_eq!(Shard::from_str("x/5").unwrap_err(), ShardError::BadK);
    assert_eq!(Shard::from_str("x/5").unwrap_err().message(), "shard k");
    assert_eq!(Shard::from_str("2/x").unwrap_err(), ShardError::BadN);
    assert_eq!(Shard::from_str("2/x").unwrap_err().message(), "shard n");
    assert_eq!(Shard::from_str("/5").unwrap_err(), ShardError::BadK);
    assert_eq!(Shard::from_str("2/").unwrap_err(), ShardError::BadN);
    assert_eq!(
        Shard::from_str("99999999999999999999999999/5").unwrap_err(),
        ShardError::BadK
    );
}

#[test]
fn shard_from_str_accepts_leading_plus() {
    assert_eq!(Shard::from_str("+2/+5").unwrap(), Shard { k: 2, n: 5 });
}

#[test]
fn shard_select_empty_and_first() {
    let none: Vec<u8> = Vec::new();
    assert_eq!(Shard { k: 0, n: 3 }.select(none), Vec::<u8>::new());
    assert_eq!(
        Shard { k: 0, n: 3 }.select((0..7).collect::<Vec<u32>>()),
        vec![0, 3, 6]
    );
}
