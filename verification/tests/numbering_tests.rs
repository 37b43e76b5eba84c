use docx_adapter::numbering::{level_spec, shared_levels, FIRST_ORDINAL, HANGING, INDENT_STEP, LEVEL_COUNT};

#[test]
fn first_level_shows_its_own_ordinal() {
    let level = level_spec(0);
    assert_eq!(level.index, 0);
    assert_eq!(level.start, 1);
    assert_eq!(level.pattern, "%1");
    assert_eq!(level.indent, 300);
    assert_eq!(level.hanging, 320);
}

#[test]
fn each_level_shows_the_ordinals_above_it() {
    let expected = [
        "%1",
        "%1.%2",
        "%1.%2.%3",
        "%1.%2.%3.%4",
        "%1.%2.%3.%4.%5",
        "%1.%2.%3.%4.%5.%6",
        "%1.%2.%3.%4.%5.%6.%7",
        "%1.%2.%3.%4.%5.%6.%7.%8",
    ];
    let levels = shared_levels();
    assert_eq!(levels.len(), 8);
    for (i, level) in levels.iter().enumerate() {
        assert_eq!(level.index, i);
        assert_eq!(level.pattern, expected[i]);
    }
}

#[test]
fn deeper_levels_indent_further() {
    let levels = shared_levels();
    let indents: Vec<i32> = levels.iter().map(|l| l.indent).collect();
    assert_eq!(indents, vec![300, 600, 900, 1200, 1500, 1800, 2100, 2400]);
    assert!(levels.iter().all(|l| l.hanging == 320 && l.start == 1));
}

#[test]
fn numbering_constants() {
    assert_eq!(LEVEL_COUNT, 8);
    assert_eq!(INDENT_STEP, 300);
    assert_eq!(HANGING, 320);
    assert_eq!(FIRST_ORDINAL, 1);
}
