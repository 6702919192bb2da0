use i_o::frame::{
    box_segments, center_offset, dialog_layout, glyphs, title_color_from_name, window, BoxStyle,
    Frame, GeometryError, TitleColor, Window,
};

fn text(v: &[char]) -> String {
    v.iter().collect()
}

#[test]
fn rounded_frame_rows() {
    let f = Frame {
        title: "Hi".to_string(),
        title_color: "green".to_string(),
        x: 3,
        y: 1,
        w: 6,
        h: 3,
    };
    let d = f.display().unwrap();
    let rows: Vec<(u16, u16, String)> = d.rows.iter().map(|s| (s.col, s.row, text(&s.text))).collect();
    assert_eq!(
        rows,
        vec![
            (3, 1, "╭────╮".to_string()),
            (3, 2, "│    │".to_string()),
            (3, 3, "│    │".to_string()),
            (3, 4, "╰────╯".to_string()),
        ]
    );
    let t = d.title.unwrap();
    assert_eq!((t.col, t.row, text(&t.text)), (5, 1, " Hi ".to_string()));
    assert_eq!(d.title_color, TitleColor::Green);
}

#[test]
fn square_window_rows() {
    let w = Window {
        x: 0,
        y: 0,
        w: 2,
        h: 1,
        title: String::new(),
        title_color: "red".to_string(),
    };
    let d = window(&w).unwrap();
    let rows: Vec<String> = d.rows.iter().map(|s| text(&s.text)).collect();
    assert_eq!(rows, vec!["┌┐", "└┘"]);
    assert!(d.title.is_none());
}

#[test]
fn box_is_w_columns_by_h_plus_one_rows() {
    let g = glyphs(BoxStyle::Rounded);
    for w in 2u16..8 {
        for h in 1u16..6 {
            let rows = box_segments(10, 20, w, h, g).unwrap();
            assert_eq!(rows.len(), h as usize + 1);
            for (i, r) in rows.iter().enumerate() {
                assert_eq!(r.text.len(), w as usize);
                assert_eq!(r.col, 10);
                assert_eq!(r.row, 20 + i as u16);
            }
            let top = &rows[0].text;
            let bottom = &rows[h as usize].text;
            assert_eq!(top[1..top.len() - 1], bottom[1..bottom.len() - 1]);
        }
    }
}

#[test]
fn too_small_boxes_are_refused() {
    let g = glyphs(BoxStyle::Square);
    assert_eq!(box_segments(0, 0, 1, 5, g).unwrap_err(), GeometryError::TooSmall);
    assert_eq!(box_segments(0, 0, 0, 5, g).unwrap_err(), GeometryError::TooSmall);
    assert_eq!(box_segments(0, 0, 5, 0, g).unwrap_err(), GeometryError::TooSmall);
}

#[test]
fn off_screen_boxes_are_refused() {
    let g = glyphs(BoxStyle::Square);
    assert_eq!(box_segments(0, 65530, 5, 6, g).unwrap_err(), GeometryError::OffScreen);
    assert_eq!(box_segments(65533, 0, 4, 1, g).unwrap_err(), GeometryError::OffScreen);
    assert!(box_segments(65532, 65534, 4, 1, g).is_ok());
}

#[test]
fn title_colors_by_name() {
    assert_eq!(title_color_from_name("red"), TitleColor::Red);
    assert_eq!(title_color_from_name("green"), TitleColor::Green);
    assert_eq!(title_color_from_name("blue"), TitleColor::Blue);
    assert_eq!(title_color_from_name("yellow"), TitleColor::Yellow);
    assert_eq!(title_color_from_name("purple"), TitleColor::Purple);
    assert_eq!(title_color_from_name("white"), TitleColor::White);
    assert_eq!(title_color_from_name("Red"), TitleColor::Plain);
    assert_eq!(title_color_from_name(""), TitleColor::Plain);
    assert_eq!(title_color_from_name("reds"), TitleColor::Plain);
}

#[test]
fn dialog_is_centred() {
    let d = dialog_layout(80, 24, 40, 6, "Name").unwrap();
    assert_eq!((d.drawing.rows[0].col, d.drawing.rows[0].row), (20, 9));
    assert_eq!((d.prompt_col, d.prompt_row), (23, 11));
    assert_eq!(d.drawing.rows.len(), 7);
    assert_eq!(d.drawing.title_color, TitleColor::Red);
    let t = d.drawing.title.unwrap();
    assert_eq!((t.col, t.row, text(&t.text)), (22, 9, " Name ".to_string()));
    let e = dialog_layout(81, 25, 40, 6, "").unwrap();
    assert_eq!((e.drawing.rows[0].col, e.drawing.rows[0].row), (20, 9));
    let full = dialog_layout(10, 5, 10, 5, "").unwrap();
    assert_eq!((full.drawing.rows[0].col, full.drawing.rows[0].row), (0, 0));
}

#[test]
fn dialog_larger_than_terminal_is_refused() {
    assert_eq!(dialog_layout(80, 24, 81, 6, "x").unwrap_err(), GeometryError::LargerThanTerminal);
    assert_eq!(dialog_layout(80, 24, 40, 25, "x").unwrap_err(), GeometryError::LargerThanTerminal);
    assert_eq!(dialog_layout(80, 24, 1, 6, "x").unwrap_err(), GeometryError::TooSmall);
}

#[test]
fn centring_offsets() {
    assert_eq!(center_offset(80, 28), Some(26));
    assert_eq!(center_offset(81, 28), Some(26));
    assert_eq!(center_offset(10, 10), Some(0));
    assert_eq!(center_offset(10, 11), None);
}
