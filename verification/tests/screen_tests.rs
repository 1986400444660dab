use conway::screen::{
    append_decimal, info_area, info_line, status_label, world_area, Area, INFO_HEIGHT,
};

fn frame(width: u16, height: u16) -> Area {
    Area { x: 0, y: 0, width, height }
}

#[test]
fn info_panel_spans_the_top_of_the_frame() {
    assert_eq!(INFO_HEIGHT, 3);
    assert_eq!(info_area(&frame(80, 24)), Area { x: 0, y: 0, width: 80, height: 3 });
    assert_eq!(info_area(&frame(0, 0)), Area { x: 0, y: 0, width: 0, height: 3 });
    assert_eq!(
        info_area(&Area { x: 4, y: 9, width: 17, height: 2 }),
        Area { x: 0, y: 0, width: 17, height: 3 }
    );
}

#[test]
fn world_panel_is_as_wide_as_the_world_when_it_fits() {
    assert_eq!(world_area(&frame(80, 24), 30), Area { x: 0, y: 3, width: 30, height: 21 });
    assert_eq!(world_area(&frame(80, 24), 80), Area { x: 0, y: 3, width: 80, height: 21 });
}

#[test]
fn world_panel_stops_at_the_frame() {
    assert_eq!(world_area(&frame(80, 24), 81), Area { x: 0, y: 3, width: 80, height: 21 });
    assert_eq!(world_area(&frame(10, 3), 500), Area { x: 0, y: 3, width: 10, height: 0 });
}

#[test]
fn world_width_is_taken_in_sixteen_bits() {
    assert_eq!(world_area(&frame(80, 24), 65_535).width, 80);
    assert_eq!(world_area(&frame(u16::MAX, 24), 65_535).width, 65_535);
    assert_eq!(world_area(&frame(80, 24), 65_536).width, 0);
    assert_eq!(world_area(&frame(80, 24), 65_536 + 12).width, 12);
    assert_eq!(world_area(&frame(80, 24), i32::MAX).width, 80);
}

#[test]
fn status_names_the_state() {
    assert_eq!(status_label(true), "Generating");
    assert_eq!(status_label(false), "Stable");
}

#[test]
fn numbers_are_written_in_decimal() {
    for number in [0u64, 7, 9, 10, 11, 99, 100, 101, 1_000, 12_345, 9_876_543_210, u64::MAX] {
        let mut text = String::from("n=");
        append_decimal(&mut text, number);
        assert_eq!(text, format!("n={}", number));
    }
}

#[test]
fn info_line_tells_keys_state_pace_and_frame() {
    assert_eq!(
        info_line(true, 10, 0),
        "[q]uit / [r]estart / [-] slow down / [+] speed up // Generating // 10ms // Frame: 0"
    );
    assert_eq!(
        info_line(false, 250, 1_234),
        "[q]uit / [r]estart / [-] slow down / [+] speed up // Stable // 250ms // Frame: 1234"
    );
    assert_eq!(
        info_line(false, u64::MAX, u64::MAX),
        format!(
            "[q]uit / [r]estart / [-] slow down / [+] speed up // Stable // {}ms // Frame: {}",
            "18446744073709551615", "18446744073709551615"
        )
    );
}
