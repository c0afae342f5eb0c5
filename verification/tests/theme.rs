use efm::theme::{
    colorref, current, p, pixel, preset_name_text, preset_palette, rgb, ThemeChoice,
    PRESET_COUNT,
};

#[test]
fn falls_back_to_the_first_palette() {
    let mut choice = ThemeChoice::default();
    efm::theme::set(&mut choice, "Daylight");
    assert!(!p(&choice).dark);
    efm::theme::set(&mut choice, "a palette that was dropped two versions ago");
    assert_eq!(current(&choice), 0);
    assert!(p(&choice).dark);
}

#[test]
fn spells_a_colour_the_way_windows_does() {
    assert_eq!(colorref(rgb(0x0F, 0x14, 0x24)), 0x0024_140F);
}

#[test]
fn every_name_leads_back_to_its_palette() {
    let mut choice = ThemeChoice::default();
    for i in 0..PRESET_COUNT {
        efm::theme::set(&mut choice, preset_name_text(i));
        assert_eq!(current(&choice), i);
    }
    efm::theme::set(&mut choice, "nord");
    assert_eq!(current(&choice), 0);
}

#[test]
fn only_daylight_is_light_and_no_two_palettes_match() {
    for i in 0..PRESET_COUNT {
        assert_eq!(preset_palette(i).dark, i != PRESET_COUNT - 1);
        for j in 0..i {
            assert_ne!(preset_palette(i), preset_palette(j));
        }
    }
}

#[test]
fn aurora_night_keeps_its_colours() {
    let aurora = preset_palette(0);
    assert_eq!(aurora.backdrop, rgb(0x0F, 0x14, 0x24));
    assert_eq!(aurora.title, rgb(0xFB, 0xBF, 0x24));
    assert_eq!(preset_name_text(0), "Aurora Night");
    assert_eq!(preset_name_text(9), "Daylight");
}

#[test]
fn an_index_past_the_end_shows_the_last_palette() {
    let choice = ThemeChoice { index: 42 };
    assert_eq!(current(&choice), 42);
    assert_eq!(p(&choice), preset_palette(PRESET_COUNT - 1));
}

#[test]
fn a_pixel_is_zero_red_green_blue() {
    assert_eq!(pixel(rgb(0x0F, 0x14, 0x24)), 0x000F_1424);
    assert_eq!(pixel(rgb(0xFF, 0xFF, 0xFF)), 0x00FF_FFFF);
}
