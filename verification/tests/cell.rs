use cgol::cell::BRIGHTNESS_THRESHOLD;
use cgol::Cell;

#[test]
fn cell_counts_as_one_when_alive() {
    assert_eq!(0, Cell::Dead.as_u8());
    assert_eq!(1, Cell::Alive.as_u8());
}

#[test]
fn live_cell_survives_on_two_or_three() {
    let expected = [
        Cell::Dead,
        Cell::Dead,
        Cell::Alive,
        Cell::Alive,
        Cell::Dead,
        Cell::Dead,
        Cell::Dead,
        Cell::Dead,
        Cell::Dead,
    ];
    for live in 0..=8u8 {
        assert_eq!(expected[live as usize], Cell::Alive.next_state(live));
    }
}

#[test]
fn dead_cell_is_born_on_exactly_three() {
    for live in 0..=8u8 {
        let expected = if live == 3 { Cell::Alive } else { Cell::Dead };
        assert_eq!(expected, Cell::Dead.next_state(live));
    }
}

#[test]
fn threshold_is_128() {
    assert_eq!(128, BRIGHTNESS_THRESHOLD);
}

#[test]
fn color_above_the_threshold_in_any_channel_is_alive() {
    assert_eq!(Cell::Dead, Cell::from_color(0, 0, 0));
    assert_eq!(Cell::Dead, Cell::from_color(128, 128, 128));
    assert_eq!(Cell::Alive, Cell::from_color(129, 0, 0));
    assert_eq!(Cell::Alive, Cell::from_color(0, 129, 0));
    assert_eq!(Cell::Alive, Cell::from_color(0, 0, 129));
    assert_eq!(Cell::Alive, Cell::from_color(255, 255, 255));
    assert_eq!(Cell::Dead, Cell::from_color(127, 128, 0));
}
