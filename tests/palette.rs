use fractals::palette::{color_mapping, color_of_iterations, get_colorindex, Color, PALETTE_SIZE};

#[test]
fn colorindex_is_count_mod_sixteen() {
    assert_eq!(get_colorindex(0), 0);
    assert_eq!(get_colorindex(1), 1);
    assert_eq!(get_colorindex(15), 15);
    assert_eq!(get_colorindex(16), 0);
    assert_eq!(get_colorindex(33), 1);
    assert_eq!(get_colorindex(i32::MAX), 15);
}

#[test]
fn colorindex_of_negative_count_keeps_its_sign() {
    assert_eq!(get_colorindex(-1), -1);
    assert_eq!(get_colorindex(-16), 0);
    assert_eq!(get_colorindex(-17), -1);
    assert_eq!(get_colorindex(i32::MIN), 0);
    for n in -100..0 {
        assert_eq!(get_colorindex(n), n % 16);
    }
}

#[test]
fn colorindex_stays_in_palette() {
    for n in 0..1000 {
        let i = get_colorindex(n);
        assert!(i >= 0 && (i as usize) < PALETTE_SIZE);
        assert_eq!(i, n % 16);
    }
}

#[test]
fn palette_entries() {
    assert_eq!(color_mapping(0), Color { red: 0, green: 0, blue: 0 });
    assert_eq!(color_mapping(3), Color { red: 0, green: 0, blue: 92 });
    assert_eq!(color_mapping(8), Color { red: 0, green: 0, blue: 255 });
    assert_eq!(color_mapping(13), Color { red: 192, green: 0, blue: 96 });
    assert_eq!(color_mapping(15), Color { red: 255, green: 0, blue: 0 });
}

#[test]
fn colour_of_iterations_wraps_around() {
    assert_eq!(color_of_iterations(1), Color { red: 0, green: 0, blue: 32 });
    assert_eq!(color_of_iterations(17), Color { red: 0, green: 0, blue: 32 });
    assert_eq!(color_of_iterations(100), color_mapping(4));
}
