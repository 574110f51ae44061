use napal::chart::RGB;
use napal::settings::{parse_palette, PlotterSettings};

fn strings(v: &[&str]) -> Vec<String> {
    v.iter().map(|s| s.to_string()).collect()
}

#[test]
fn settings_override_defaults() {
    let lines = strings(&[
        "// minimum_width: 9",
        "",
        "minimum_width: 2000",
        "  x_labels :  +25 ",
        "unknown_key",
        "stroke_width:3",
    ]);
    let s = PlotterSettings::from_lines(&lines).unwrap();
    assert_eq!(s.minimum_width, 2000);
    assert_eq!(s.x_labels, 25);
    assert_eq!(s.stroke_width, 3);
    assert_eq!(s.caption_size, 50);
    assert_eq!(s.y_label_area_size, 100);
}

#[test]
fn settings_defaults_when_empty() {
    let s = PlotterSettings::from_lines(&Vec::new()).unwrap();
    assert_eq!(s, PlotterSettings::defaults());
    assert_eq!(s.minimum_width, 1500);
    assert_eq!(s.legend_label_font, 20);
}

#[test]
fn settings_bad_value_names_line() {
    let lines = strings(&["caption_size: 10", "y_labels: many"]);
    assert_eq!(PlotterSettings::from_lines(&lines), Err(1));
    assert_eq!(PlotterSettings::from_lines(&strings(&["caption_size"])), Err(0));
    assert_eq!(PlotterSettings::from_lines(&strings(&["caption_size: 4294967296"])), Err(0));
}

#[test]
fn palette_lines_become_colors() {
    let p = parse_palette(&strings(&["255, 0, 0", "", " 0,128 ,255"])).unwrap();
    assert_eq!(p, vec![RGB(255, 0, 0), RGB(0, 128, 255)]);
    assert_eq!(RGB::parse("1,2,3,4"), Some(RGB(1, 2, 3)));
    assert_eq!(RGB::parse("\u{a0}1,\u{3000}2 ,3\t"), Some(RGB(1, 2, 3)));
    assert_eq!(RGB::parse("1,-2,3"), None);
    assert_eq!(RGB::parse("1,2"), None);
    assert_eq!(RGB::parse("1,2,256"), None);
    assert_eq!(parse_palette(&strings(&["1,2,3", "red"])), Err(1));
}
