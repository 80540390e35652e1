use paper_plane::ui::message_row::album_layout::{album_rows, row_splits, AlbumRow};
use paper_plane::ui::message_row::media_album_layout::{
    allocate, is_rtl, layout_height, layout_width, measure, GridRect, Orientation, SizeRequest,
    TextDirection,
};
use paper_plane::ui::message_row::reactions::{
    chip_width, measure as measure_chips, packed_height, place_chips, ChipPlace, ChipSize,
};

fn rect(x: i32, y: i32, width: i32, height: i32) -> GridRect {
    GridRect { x, y, width, height }
}

fn chips(sizes: &[(i32, i32)]) -> Vec<ChipSize> {
    sizes.iter().map(|(width, height)| ChipSize { width: *width, height: *height }).collect()
}

#[test]
fn small_albums_have_patterns() {
    assert!(row_splits(0, false).is_empty());
    assert_eq!(row_splits(1, false), [1]);
    assert_eq!(row_splits(2, true), [2]);
    assert_eq!(row_splits(2, false), [1, 1]);
    assert_eq!(row_splits(3, false), [1, 2]);
    assert_eq!(row_splits(4, false), [2, 2]);
    assert_eq!(row_splits(5, false), [3, 2]);
    assert_eq!(row_splits(6, false), [3, 3]);
    assert_eq!(row_splits(7, false), [3, 2, 2]);
    assert_eq!(row_splits(8, false), [3, 3, 2]);
    assert_eq!(row_splits(9, false), [3, 3, 3]);
    assert_eq!(row_splits(10, false), [3, 3, 4]);
}

#[test]
fn large_albums_have_rows_of_three() {
    assert_eq!(row_splits(11, false), [3, 3, 3, 2]);
    assert_eq!(row_splits(12, true), [3, 3, 3, 3]);
    assert_eq!(row_splits(13, false), [3, 3, 3, 4]);
    for n in 0..200 {
        let splits = row_splits(n, false);
        assert_eq!(splits.iter().sum::<usize>(), n);
        // The rows of three come first.
        let threes = splits.iter().take_while(|split| **split == 3).count();
        assert!(n < 4 || !splits[threes..].contains(&3));
    }
}

#[test]
fn rows_of_an_album_are_consecutive() {
    assert_eq!(
        album_rows(7, false),
        [
            AlbumRow { start: 0, end: 3 },
            AlbumRow { start: 3, end: 5 },
            AlbumRow { start: 5, end: 7 },
        ],
    );
}

#[test]
fn album_asks_for_its_size() {
    let request = |minimum, natural| SizeRequest { minimum, natural };
    assert_eq!(measure(Orientation::Horizontal, 0, 0), request(16, 16));
    assert_eq!(measure(Orientation::Vertical, 0, 99), request(16, 16));
    assert_eq!(measure(Orientation::Horizontal, 3, 0), request(16, 480));
    assert_eq!(measure(Orientation::Vertical, 3, 9), request(10, 10));
    assert_eq!(measure(Orientation::Vertical, 3, 300), request(300, 300));
    assert_eq!(layout_width(-1), 16);
    assert_eq!(layout_width(0), 16);
    assert_eq!(layout_width(200), 200);
}

#[test]
fn tiles_at_the_edges_are_marked() {
    let rects = vec![rect(0, 0, 100, 50), rect(0, 52, 49, 30), rect(51, 52, 49, 30)];
    assert_eq!(layout_height(&rects), 82);
    let edges: Vec<(bool, bool, bool, bool)> = allocate(&rects, 100, false)
        .iter()
        .map(|tile| (tile.at_left, tile.at_right, tile.at_top, tile.at_bottom))
        .collect();
    assert_eq!(
        edges,
        [(true, true, true, false), (true, false, false, true), (false, true, false, true)],
    );
}

#[test]
fn grid_is_mirrored_for_right_to_left() {
    let rects = vec![rect(0, 0, 30, 50), rect(32, 0, 68, 50)];
    let tiles = allocate(&rects, 100, true);
    assert_eq!(tiles[0].rect, rect(70, 0, 30, 50));
    assert_eq!(tiles[1].rect, rect(0, 0, 68, 50));
    assert!(tiles[0].at_right && !tiles[0].at_left);
    assert!(tiles[1].at_left && !tiles[1].at_right);
}

#[test]
fn text_direction_has_a_default() {
    let (unset, ltr, rtl) =
        (TextDirection::Unset, TextDirection::LeftToRight, TextDirection::RightToLeft);
    assert!(is_rtl(rtl, ltr));
    assert!(is_rtl(unset, rtl));
    assert!(!is_rtl(unset, ltr));
    assert!(!is_rtl(ltr, rtl));
}

#[test]
fn chips_are_wrapped() {
    let sizes = chips(&[(40, 10), (40, 20), (30, 5), (90, 8)]);
    let place = |x, y, width, height| ChipPlace { x, y, width, height };
    assert_eq!(
        place_chips(&sizes, 90),
        [
            place(0, 0, 40, 10),
            place(46, 0, 40, 20),
            place(0, 26, 30, 5),
            place(0, 37, 90, 8),
        ],
    );
    assert_eq!(packed_height(&sizes, 90), 45);
    assert_eq!(packed_height(&sizes, 1000), 20);
    assert_eq!(packed_height(&vec![], 90), 0);
}

#[test]
fn strip_of_chips_asks_for_its_size() {
    let sizes = chips(&[(40, 10), (40, 20), (30, 5)]);
    let request = |minimum, natural| SizeRequest { minimum, natural };
    assert_eq!(measure_chips(&sizes, Orientation::Horizontal, -1), request(40, 122));
    assert_eq!(measure_chips(&sizes, Orientation::Vertical, -1), request(20, 20));
    // A strip is never narrower than its widest chip.
    assert_eq!(measure_chips(&sizes, Orientation::Vertical, 3), request(47, 47));
    assert_eq!(measure_chips(&vec![], Orientation::Horizontal, -1), request(0, 0));
    assert_eq!(measure_chips(&vec![], Orientation::Vertical, -1), request(0, 0));
}

#[test]
fn chips_are_not_wider_than_the_strip() {
    assert_eq!(chip_width(10, 40, 100), 40);
    assert_eq!(chip_width(50, 40, 100), 50);
    assert_eq!(chip_width(50, 40, 30), 30);
}
