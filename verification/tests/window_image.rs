use macro_recorder::image_match::{
    decode_template, find_image_in, find_template, get_pixel_color, pixel_matches, Frame, Image,
};
use macro_recorder::window::{active_window_matches, find_window, get_window_rect, get_window_rect_cmd, match_size_fits, WindowInfo};

#[test]
fn window_title_matching() {
    assert!(active_window_matches("", "anything"));
    assert!(active_window_matches("notepad", "Untitled - NOTEPAD"));
    assert!(!active_window_matches("notepad", ""));
    assert!(!active_window_matches("word", "Notepad"));
    // An empty title matches only an empty target.
    assert!(!active_window_matches("x", ""));
    assert!(active_window_matches("", ""));
}

fn win(visible: bool, title: &str, l: i32, t: i32, r: i32, b: i32) -> WindowInfo {
    WindowInfo { visible, title: title.to_string(), left: l, top: t, right: r, bottom: b }
}

#[test]
fn window_rect_search() {
    let ws = vec![
        win(false, "Editor hidden", 0, 0, 10, 10),
        win(true, "", 0, 0, 5, 5),
        win(true, "My Editor", 10, 20, 110, 220),
        win(true, "Editor 2", 1, 1, 2, 2),
    ];
    assert!(match_size_fits("editor", &ws));
    assert_eq!(find_window("editor", &ws), Some(2));
    assert_eq!(get_window_rect("editor", &ws), Some((10, 20, 100, 200)));
    assert_eq!(get_window_rect_cmd("EDITOR 2", &ws), Some([1, 1, 1, 1]));
    assert_eq!(get_window_rect("browser", &ws), None);
    assert_eq!(find_window("browser", &ws), None);
    // Only the size of the window picked matters.
    let wide = vec![win(true, "huge", i32::MIN, 0, i32::MAX, 0), win(true, "small", 0, 0, 3, 4)];
    assert!(!match_size_fits("huge", &wide));
    assert!(match_size_fits("small", &wide));
    assert!(match_size_fits("none", &wide));
    assert_eq!(get_window_rect("small", &wide), Some((0, 0, 3, 4)));
}

fn img(w: u32, h: u32, f: impl Fn(u32, u32) -> [u8; 3]) -> Image {
    let mut px = Vec::new();
    for y in 0..h {
        for x in 0..w {
            px.push(f(x, y));
        }
    }
    Image::from_pixels(w, h, px).unwrap()
}

#[test]
fn image_construction_checks_size() {
    assert!(Image::from_pixels(2, 2, vec![[0; 3]; 3]).is_none());
    assert!(Image::from_bytes(1, 2, 3, &vec![1, 2, 3, 4, 5, 6]).is_some());
    assert!(Image::from_bytes(1, 2, 4, &vec![1, 2, 3, 4, 5, 6]).is_none());
    let i = Image::from_bytes(2, 1, 4, &vec![1, 2, 3, 255, 4, 5, 6, 255]).unwrap();
    assert_eq!(i.pixel(1, 0), [4, 5, 6]);
}

#[test]
fn pixel_checks() {
    let i = img(3, 2, |x, y| [x as u8 * 10, y as u8 * 10, 7]);
    assert!(pixel_matches(&i, 2, 1, [20, 10, 7], 0));
    assert!(pixel_matches(&i, 2, 1, [22, 8, 9], 2));
    assert!(!pixel_matches(&i, 2, 1, [23, 10, 7], 2));
    assert!(!pixel_matches(&i, -1, 0, [0, 0, 7], 255));
    assert!(!pixel_matches(&i, 3, 0, [0, 0, 7], 255));
    assert_eq!(get_pixel_color(&i, 1, 1), Ok([10, 10, 7]));
    assert_eq!(get_pixel_color(&i, -1, 1), Err("Negative coords".to_string()));
    assert_eq!(get_pixel_color(&i, 3, 1), Err("Out of bounds".to_string()));
}

#[test]
fn template_found_where_it_was_cut() {
    let hay = img(8, 6, |x, y| [(x * 31 + y * 7) as u8, (x * y) as u8, (x + 3 * y) as u8]);
    let tpl = img(3, 2, |x, y| [((x + 4) * 31 + (y + 2) * 7) as u8, ((x + 4) * (y + 2)) as u8, ((x + 4) + 3 * (y + 2)) as u8]);
    assert_eq!(find_template(&hay, &tpl, None), Some((0, 5, 3)));
    // Restricted to a region that holds it.
    assert_eq!(find_template(&hay, &tpl, Some([3, 1, 5, 4])), Some((0, 5, 3)));
}

#[test]
fn template_as_large_as_haystack_is_searched() {
    let hay = img(3, 3, |_, _| [0, 0, 0]);
    let tpl = img(3, 1, |_, _| [0, 0, 0]);
    assert_eq!(find_template(&hay, &tpl, None), Some((0, 1, 0)));
    // An identical template of the haystack's size is a perfect match at the centre.
    let hay = img(5, 4, |x, y| [(x * 40) as u8, (y * 50) as u8, 7]);
    let same = img(5, 4, |x, y| [(x * 40) as u8, (y * 50) as u8, 7]);
    assert_eq!(find_template(&hay, &same, None), Some((0, 2, 2)));
    // A template larger than the haystack has no placement.
    let big = img(6, 4, |_, _| [0, 0, 0]);
    assert_eq!(find_template(&hay, &big, None), None);
}

#[test]
fn search_stays_inside_the_region() {
    let hay = img(8, 6, |x, y| [(x * 31 + y * 7) as u8, (x * y) as u8, (x + 3 * y) as u8]);
    let tpl = img(3, 2, |x, y| [((x + 4) * 31 + (y + 2) * 7) as u8, ((x + 4) * (y + 2)) as u8, ((x + 4) + 3 * (y + 2)) as u8]);
    // Narrower or shorter than the template: no placement, no match.
    assert_eq!(find_template(&hay, &tpl, Some([4, 2, 2, 2])), None);
    assert_eq!(find_template(&hay, &tpl, Some([4, 2, 3, 1])), None);
    // A region past the haystack, or of negative size, holds nothing.
    assert_eq!(find_template(&hay, &tpl, Some([20, 0, 5, 5])), None);
    assert_eq!(find_template(&hay, &tpl, Some([4, 2, -3, 2])), None);
    // A region starting left of the haystack covers only its part inside.
    assert_eq!(find_template(&hay, &tpl, Some([-2, 2, 9, 2])), Some((0, 5, 3)));
    assert_eq!(find_template(&hay, &tpl, Some([-2, 2, 4, 2])), None);
    // Exactly the template's rectangle.
    assert_eq!(find_template(&hay, &tpl, Some([4, 2, 3, 2])), Some((0, 5, 3)));
}

#[test]
fn best_match_is_the_first_minimum() {
    let hay = img(4, 1, |x, _| if x == 1 || x == 3 { [10, 10, 10] } else { [0, 0, 0] });
    let tpl = img(1, 1, |_, _| [9, 9, 9]);
    // Positions 1 and 3 tie with difference 3; the first one wins. Centre x = pos + 0.
    assert_eq!(find_template(&hay, &tpl, Some([0, 0, 4, 1])), Some((3, 1, 0)));
    let hay2 = img(5, 2, |x, _| if x == 1 || x == 3 { [10, 10, 10] } else { [0, 0, 0] });
    assert_eq!(find_template(&hay2, &tpl, None), Some((3, 1, 0)));
}

#[test]
fn completely_different_template_is_no_match() {
    let hay = img(4, 4, |_, _| [0, 0, 0]);
    let tpl = img(2, 2, |_, _| [255, 255, 255]);
    assert_eq!(find_template(&hay, &tpl, None), None);
}

#[test]
fn frame_crop_and_png_roundtrip() {
    let mut rgba = Vec::new();
    for y in 0..4u8 {
        for x in 0..5u8 {
            rgba.extend_from_slice(&[x * 10, y * 10, 99, 255]);
        }
    }
    let f = Frame::from_rgba(5, 4, rgba).unwrap();
    let c = f.crop(3, -2, 10, 2);
    assert_eq!((c.width(), c.height()), (2, 2));
    let b64 = c.encode_png_base64().unwrap();
    // The text decodes back to a PNG file.
    let png = base64::Engine::decode(&base64::engine::general_purpose::STANDARD, &b64).unwrap();
    assert_eq!(&png[..8], &[0x89, b'P', b'N', b'G', 0x0d, 0x0a, 0x1a, 0x0a]);
    let back = decode_template(&b64).unwrap();
    assert_eq!((back.width(), back.height()), (2, 2));
    assert_eq!(back.pixel(0, 0), [30, 0, 99]);
    assert_eq!(back.pixel(1, 1), [40, 10, 99]);
    let whole = f.to_image();
    assert_eq!(whole.pixel(4, 3), [40, 30, 99]);
    let e = f.crop(9, 9, 3, 3);
    assert_eq!((e.width(), e.height()), (0, 0));
    assert!(Frame::from_rgba(2, 2, vec![0; 15]).is_none());
}

#[test]
fn finding_an_encoded_template_on_screen() {
    let mut rgba = Vec::new();
    for y in 0..6u8 {
        for x in 0..6u8 {
            rgba.extend_from_slice(&[x * 40, y * 40, x ^ y, 255]);
        }
    }
    let screen_frame = Frame::from_rgba(6, 6, rgba).unwrap();
    let tpl_b64 = screen_frame.crop(2, 3, 2, 2).encode_png_base64().unwrap();
    let screen = screen_frame.to_image();
    let (max, found) = find_image_in(&screen, &tpl_b64, None).unwrap();
    assert_eq!(max, 2 * 2 * 765);
    assert_eq!(found, Some((0, 3, 4)));
    assert!(find_image_in(&screen, "not base64!", None).is_err());
    assert!(decode_template("aGVsbG8=").is_err());
}
