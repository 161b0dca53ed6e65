use float_bits::message::{init, update, Msg};
use float_bits::model::{BitType, Model, BINARY_64_EXPONENT_BITS, BINARY_64_SIGNIFICAND_BITS};

fn snapshot(model: &Model) -> (bool, Vec<bool>, Vec<bool>) {
    (
        model.sign_bit(),
        model.exponent_bits().to_vec(),
        model.significand_bits().to_vec(),
    )
}

#[test]
fn new_has_the_widths_of_binary64_and_no_bit_set() {
    let model = Model::new();
    assert_eq!(BINARY_64_EXPONENT_BITS, 11);
    assert_eq!(BINARY_64_SIGNIFICAND_BITS, 52);
    assert!(!model.sign_bit());
    assert_eq!(model.exponent_bits(), &[false; 11][..]);
    assert_eq!(model.significand_bits(), &[false; 52][..]);
}

#[test]
fn init_is_the_same_as_new() {
    assert_eq!(snapshot(&init()), snapshot(&Model::new()));
}

#[test]
fn with_widths_takes_every_width_in_bounds() {
    for e in 1..=11usize {
        for s in 1..=52usize {
            let model = Model::with_widths(e, s);
            assert!(!model.sign_bit());
            assert_eq!(model.exponent_bits(), &vec![false; e][..]);
            assert_eq!(model.significand_bits(), &vec![false; s][..]);
        }
    }
}

#[test]
fn toggle_addresses_sign_then_exponent_then_significand() {
    let mut model = Model::with_widths(3, 4);
    model.toggle_bit(0);
    assert_eq!(snapshot(&model), (true, vec![false; 3], vec![false; 4]));
    model.toggle_bit(1);
    assert_eq!(
        snapshot(&model),
        (true, vec![true, false, false], vec![false; 4])
    );
    model.toggle_bit(3);
    assert_eq!(
        snapshot(&model),
        (true, vec![true, false, true], vec![false; 4])
    );
    model.toggle_bit(4);
    assert_eq!(
        snapshot(&model),
        (
            true,
            vec![true, false, true],
            vec![true, false, false, false]
        )
    );
    model.toggle_bit(7);
    assert_eq!(
        snapshot(&model),
        (true, vec![true, false, true], vec![true, false, false, true])
    );
}

#[test]
fn toggle_twice_restores_every_bit() {
    let mut model = Model::with_widths(5, 9);
    for i in [1usize, 4, 6, 10, 14] {
        model.toggle_bit(i);
    }
    let before = snapshot(&model);
    for i in 0..40usize {
        model.toggle_bit(i);
        if i < 15 {
            assert_ne!(snapshot(&model), before);
        }
        model.toggle_bit(i);
        assert_eq!(snapshot(&model), before);
    }
}

#[test]
fn toggle_past_the_last_bit_changes_nothing() {
    let mut model = Model::new();
    model.toggle_bit(2);
    model.toggle_bit(63);
    let before = snapshot(&model);
    model.toggle_bit(64);
    assert_eq!(snapshot(&model), before);
    model.toggle_bit(65);
    assert_eq!(snapshot(&model), before);
    model.toggle_bit(usize::MAX);
    assert_eq!(snapshot(&model), before);

    let mut narrow = Model::with_widths(1, 1);
    let before = snapshot(&narrow);
    narrow.toggle_bit(3);
    assert_eq!(snapshot(&narrow), before);
    narrow.toggle_bit(2);
    assert_eq!(snapshot(&narrow), (false, vec![false], vec![true]));
}

#[test]
fn exponent_narrowed_to_four_and_widened_again_clears_the_regrown_bits() {
    let mut model = Model::new();
    for i in [1usize, 3, 4, 6, 9, 11] {
        model.toggle_bit(i);
    }
    assert_eq!(
        model.exponent_bits(),
        &[true, false, true, true, false, true, false, false, true, false, true][..]
    );
    model.resize_exponent(4);
    assert_eq!(model.exponent_bits(), &[true, false, true, true][..]);
    model.resize_exponent(11);
    assert_eq!(
        model.exponent_bits(),
        &[true, false, true, true, false, false, false, false, false, false, false][..]
    );
    assert!(!model.sign_bit());
    assert_eq!(model.significand_bits(), &[false; 52][..]);
}

#[test]
fn significand_narrowed_and_widened_again_clears_the_regrown_bits() {
    let mut model = Model::new();
    for i in [12usize, 13, 20, 63] {
        model.toggle_bit(i);
    }
    model.resize_significand(2);
    assert_eq!(model.significand_bits(), &[true, true][..]);
    model.resize_significand(52);
    let mut expected = vec![false; 52];
    expected[0] = true;
    expected[1] = true;
    assert_eq!(model.significand_bits(), &expected[..]);
    assert_eq!(model.exponent_bits(), &[false; 11][..]);
}

#[test]
fn resize_to_the_same_width_changes_nothing() {
    let mut model = Model::with_widths(6, 7);
    model.toggle_bit(0);
    model.toggle_bit(6);
    model.toggle_bit(13);
    let before = snapshot(&model);
    model.resize_exponent(6);
    model.resize_significand(7);
    assert_eq!(snapshot(&model), before);
}

#[test]
fn resize_reaches_both_ends_of_each_range() {
    let mut model = Model::new();
    model.toggle_bit(1);
    model.toggle_bit(12);
    model.resize_exponent(1);
    model.resize_significand(1);
    assert_eq!(snapshot(&model), (false, vec![true], vec![true]));
    model.resize_exponent(11);
    model.resize_significand(52);
    assert_eq!(model.exponent_bits().len(), 11);
    assert_eq!(model.significand_bits().len(), 52);
    assert!(model.exponent_bits()[0]);
    assert!(model.significand_bits()[0]);
    assert!(model.exponent_bits()[1..].iter().all(|&b| !b));
    assert!(model.significand_bits()[1..].iter().all(|&b| !b));
}

#[test]
fn flat_bits_lists_every_bit_with_its_field() {
    let mut model = Model::with_widths(2, 3);
    model.toggle_bit(0);
    model.toggle_bit(2);
    model.toggle_bit(3);
    assert_eq!(
        model.flat_bits(),
        vec![
            (BitType::Sign, true),
            (BitType::Exponent, false),
            (BitType::Exponent, true),
            (BitType::Significand, true),
            (BitType::Significand, false),
            (BitType::Significand, false),
        ]
    );
    assert_eq!(Model::new().flat_bits().len(), 64);
}

#[test]
fn update_applies_each_event() {
    let mut model = init();
    update(Msg::ToggleBit(0), &mut model);
    update(Msg::ToggleBit(2), &mut model);
    update(Msg::ToggleBit(12), &mut model);
    update(Msg::SetExpSize(3), &mut model);
    update(Msg::SetSigSize(2), &mut model);
    assert_eq!(
        snapshot(&model),
        (true, vec![false, true, false], vec![true, false])
    );
    update(Msg::ToggleBit(6), &mut model);
    assert_eq!(
        snapshot(&model),
        (true, vec![false, true, false], vec![true, false])
    );
    update(Msg::ToggleBit(5), &mut model);
    assert_eq!(
        snapshot(&model),
        (true, vec![false, true, false], vec![true, true])
    );
}

#[test]
fn events_with_widths_out_of_bounds_are_told_apart() {
    assert!(Msg::SetExpSize(1).is_in_bounds());
    assert!(Msg::SetExpSize(11).is_in_bounds());
    assert!(!Msg::SetExpSize(0).is_in_bounds());
    assert!(!Msg::SetExpSize(12).is_in_bounds());
    assert!(Msg::SetSigSize(1).is_in_bounds());
    assert!(Msg::SetSigSize(52).is_in_bounds());
    assert!(!Msg::SetSigSize(0).is_in_bounds());
    assert!(!Msg::SetSigSize(53).is_in_bounds());
    assert!(Msg::ToggleBit(0).is_in_bounds());
    assert!(Msg::ToggleBit(usize::MAX).is_in_bounds());
}

#[test]
fn default_is_the_same_as_new() {
    assert_eq!(snapshot(&Model::default()), snapshot(&Model::new()));
}

#[test]
fn every_change_keeps_the_widths_in_bounds() {
    let mut model = Model::new();
    assert!(model.is_well_formed());
    for (e, s) in [(1usize, 1usize), (11, 52), (4, 3), (1, 52), (11, 1)] {
        model.resize_exponent(e);
        assert!(model.is_well_formed());
        model.resize_significand(s);
        assert!(model.is_well_formed());
        for i in 0..70usize {
            model.toggle_bit(i);
            assert!(model.is_well_formed());
            assert_eq!(model.exponent_bits().len(), e);
            assert_eq!(model.significand_bits().len(), s);
        }
    }
}
