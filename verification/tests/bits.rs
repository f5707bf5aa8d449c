use rusty_engine::bits::{
    file_bits, flip_bits, popcnt, rank_bits, square_bit, CENTER, FILE_A, RANK_1,
};

#[test]
fn popcnt_counts_set_bits() {
    assert_eq!(popcnt(0), 0);
    assert_eq!(popcnt(1), 1);
    assert_eq!(popcnt(1 << 63), 1);
    assert_eq!(popcnt(u64::MAX), 64);
    assert_eq!(popcnt(FILE_A), 8);
    assert_eq!(popcnt(CENTER), 4);
    assert_eq!(popcnt(0xf0f0_0000_0000_0003), 10);
    for x in [0x1234_5678_9abc_def0u64, 0xffff_0000_ffff_0000, 7, 1 << 40] {
        assert_eq!(popcnt(x), x.count_ones());
    }
}

#[test]
fn files_and_ranks() {
    assert_eq!(file_bits(0), FILE_A);
    assert_eq!(file_bits(7), 0x8080_8080_8080_8080);
    assert_eq!(file_bits(4), 0x1010_1010_1010_1010);
    assert_eq!(rank_bits(0), RANK_1);
    assert_eq!(rank_bits(1), 0xff00);
    assert_eq!(rank_bits(7), 0xff00_0000_0000_0000);
    assert_eq!(CENTER, (1 << 27) | (1 << 28) | (1 << 35) | (1 << 36));
}

#[test]
fn flip_turns_the_board_upside_down() {
    assert_eq!(flip_bits(0), 0);
    assert_eq!(flip_bits(1), 1 << 56);
    assert_eq!(flip_bits(0xff00), 0x00ff_0000_0000_0000);
    assert_eq!(flip_bits(CENTER), CENTER);
    for x in [0x1234_5678_9abc_def0u64, 0xffff_0000_ffff_0001, 7, 1 << 40] {
        assert_eq!(flip_bits(x), x.swap_bytes());
        assert_eq!(flip_bits(flip_bits(x)), x);
        assert_eq!(popcnt(flip_bits(x)), popcnt(x));
    }
}

#[test]
fn one_square_sets() {
    assert_eq!(square_bit(0), 1);
    assert_eq!(square_bit(4), 0x10);
    assert_eq!(square_bit(63), 1 << 63);
    assert_eq!(popcnt(square_bit(27)), 1);
}
