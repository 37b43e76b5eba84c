use docx_adapter::scale::{re_size_picture, MAX_HEIGHT, MAX_WIDTH};
use docx_adapter::writer::picture_size;

#[test]
fn page_bounds_are_those_of_a_sheet() {
    assert_eq!(MAX_WIDTH, 5_900_000);
    assert_eq!(MAX_HEIGHT, 10_629_420);
}

#[test]
fn wide_picture_takes_the_page_width() {
    assert_eq!(re_size_picture(10_000_000, 2_000_000), (5_900_000, 1_180_000));
}

#[test]
fn small_picture_is_left_alone() {
    assert_eq!(re_size_picture(1_000, 2_000), (1_000, 2_000));
    assert_eq!(re_size_picture(5_900_000, 10_629_420), (5_900_000, 10_629_420));
    assert_eq!(re_size_picture(0, 0), (0, 0));
}

#[test]
fn tall_picture_takes_the_page_height() {
    // 1,000,000 * 10,629,420 / 21,258,840 = 500,000
    assert_eq!(re_size_picture(1_000_000, 21_258_840), (500_000, 10_629_420));
}

#[test]
fn second_pass_shrinks_the_width_of_the_first() {
    // first pass: (5,900,000, 40,000,000 * 5,900,000 / 10,000,000 = 23,600,000)
    // second pass: 5,900,000 * 10,629,420 / 23,600,000 = 2,657,355
    assert_eq!(re_size_picture(10_000_000, 40_000_000), (2_657_355, 10_629_420));
}

#[test]
fn width_just_over_the_page_rounds_the_height_down() {
    // 3 * 5,900,000 / 5,900,001 = 2.99... rounds down to 2
    assert_eq!(re_size_picture(5_900_001, 3), (5_900_000, 2));
}

#[test]
fn fitting_twice_is_fitting_once() {
    let inputs: [(u64, u64); 6] = [
        (10_000_000, 2_000_000),
        (10_000_000, 40_000_000),
        (1, 1),
        (7_000_001, 90_000_000),
        (u64::MAX, u64::MAX),
        (5_900_001, 10_629_421),
    ];
    for (w, h) in inputs {
        let once = re_size_picture(w, h);
        let twice = re_size_picture(once.0 as u64, once.1 as u64);
        assert_eq!(once, twice);
        assert!(once.0 <= MAX_WIDTH && once.1 <= MAX_HEIGHT);
    }
}

#[test]
fn huge_picture_stays_within_the_page() {
    let (w, h) = re_size_picture(u64::MAX, 1);
    assert_eq!((w, h), (5_900_000, 0));
    let (w, h) = re_size_picture(1, u64::MAX);
    assert_eq!((w, h), (0, 10_629_420));
}

#[test]
fn declared_extent_wins_over_the_natural_one() {
    assert_eq!(picture_size(Some((10_000_000, 2_000_000)), 1, 1), (5_900_000, 1_180_000));
    assert_eq!(picture_size(Some((100, 200)), 4000, 4000), (100, 200));
}

#[test]
fn natural_extent_counts_9525_units_for_a_pixel() {
    assert_eq!(picture_size(None, 100, 200), (952_500, 1_905_000));
    // 1000 px = 9,525,000 units wide: over the page, so scaled
    // height 100 px = 952,500 -> 952,500 * 5,900,000 / 9,525,000 = 590,000
    assert_eq!(picture_size(None, 1000, 100), (5_900_000, 590_000));
    // pixel counts whose natural extent would not fit in 32 bits
    let (w, h) = picture_size(None, u32::MAX, u32::MAX);
    assert!(w <= MAX_WIDTH && h <= MAX_HEIGHT);
}
