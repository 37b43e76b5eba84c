//! The numbering that numbered lists refer to: eight levels of decimal
//! ordinals, each level showing its own ordinal after those of the levels
//! above it, and each indented further than the one above.

use vstd::prelude::*;
use vstd::string::*;

verus! {

/// The number of levels of the shared numbering.
pub const LEVEL_COUNT: usize = 8;

/// The left indent of the first level; each level adds as much again.
pub const INDENT_STEP: i32 = 300;

/// The hanging indent of every level.
pub const HANGING: i32 = 320;

/// The ordinal at which every level starts.
pub const FIRST_ORDINAL: usize = 1;

/// The digit that writes `n`, for `n` from 1 to 9.
pub open spec fn digit_char(n: nat) -> char {
    if n == 1 {
        '1'
    } else if n == 2 {
        '2'
    } else if n == 3 {
        '3'
    } else if n == 4 {
        '4'
    } else if n == 5 {
        '5'
    } else if n == 6 {
        '6'
    } else if n == 7 {
        '7'
    } else if n == 8 {
        '8'
    } else {
        '9'
    }
}

/// The display pattern of a level: the placeholder of the first level,
/// then, separated by dots, those of every level down to this one.
pub open spec fn level_pattern(level: nat) -> Seq<char>
    decreases level,
{
    if level == 0 {
        seq!['%', '1']
    } else {
        level_pattern((level - 1) as nat) + seq!['.', '%', digit_char(level + 1)]
    }
}

/// The left indent of a level.
pub open spec fn level_indent(level: nat) -> int {
    INDENT_STEP * (level + 1)
}

/// One level of a numbering.
#[derive(Debug, PartialEq, Eq)]
pub struct LevelSpec {
    pub index: usize,
    pub start: usize,
    pub pattern: String,
    pub indent: i32,
    pub hanging: i32,
}

/// The mathematical value of a [`LevelSpec`].
pub struct LevelModel {
    pub index: usize,
    pub start: usize,
    pub pattern: Seq<char>,
    pub indent: i32,
    pub hanging: i32,
}

impl View for LevelSpec {
    type V = LevelModel;

    open spec fn view(&self) -> LevelModel {
        LevelModel {
            index: self.index,
            start: self.start,
            pattern: self.pattern@,
            indent: self.indent,
            hanging: self.hanging,
        }
    }
}

/// The level of the shared numbering at position `level`.
pub open spec fn shared_level(level: nat) -> LevelModel {
    LevelModel {
        index: level as usize,
        start: FIRST_ORDINAL,
        pattern: level_pattern(level),
        indent: level_indent(level) as i32,
        hanging: HANGING,
    }
}

/// The digit that writes `n`, as a string.
fn ordinal_digit(n: usize) -> (digit: &'static str)
    requires
        1 <= n <= 9,
    ensures
        digit@ == seq![digit_char(n as nat)],
{
    proof {
        reveal_strlit("1");
        reveal_strlit("2");
        reveal_strlit("3");
        reveal_strlit("4");
        reveal_strlit("5");
        reveal_strlit("6");
        reveal_strlit("7");
        reveal_strlit("8");
        reveal_strlit("9");
    }
    let digit = if n == 1 {
        "1"
    } else if n == 2 {
        "2"
    } else if n == 3 {
        "3"
    } else if n == 4 {
        "4"
    } else if n == 5 {
        "5"
    } else if n == 6 {
        "6"
    } else if n == 7 {
        "7"
    } else if n == 8 {
        "8"
    } else {
        "9"
    };
    assert(digit@ =~= seq![digit_char(n as nat)]);
    digit
}

/// Builds the level of the shared numbering at position `level`.
pub fn level_spec(level: usize) -> (spec: LevelSpec)
    requires
        level < LEVEL_COUNT,
    ensures
        spec@ == shared_level(level as nat),
{
    proof {
        reveal_strlit("%1");
    }
    let mut pattern = String::from_str("%1");
    assert(pattern@ =~= level_pattern(0));
    let mut k: usize = 0;
    while k < level
        invariant
            k <= level < LEVEL_COUNT,
            pattern@ == level_pattern(k as nat),
        decreases level - k,
    {
        let ghost before = pattern@;
        proof {
            reveal_strlit(".%");
        }
        k += 1;
        pattern.append(".%");
        pattern.append(ordinal_digit(k + 1));
        assert(pattern@ =~= before + seq!['.', '%', digit_char(k as nat + 1)]);
    }
    let offset: i32 = (level as i32) + 1;
    LevelSpec {
        index: level,
        start: FIRST_ORDINAL,
        pattern,
        indent: INDENT_STEP * offset,
        hanging: HANGING,
    }
}

/// Builds the levels of the shared numbering, first level first.
pub fn shared_levels() -> (levels: Vec<LevelSpec>)
    ensures
        levels@.len() == LEVEL_COUNT,
        forall|i: int| 0 <= i < LEVEL_COUNT ==> (#[trigger] levels@[i])@ == shared_level(i as nat),
{
    let mut levels: Vec<LevelSpec> = Vec::new();
    let mut level: usize = 0;
    while level < LEVEL_COUNT
        invariant
            level <= LEVEL_COUNT,
            levels@.len() == level,
            forall|i: int| 0 <= i < level ==> (#[trigger] levels@[i])@ == shared_level(i as nat),
        decreases LEVEL_COUNT - level,
    {
        levels.push(level_spec(level));
        level += 1;
    }
    levels
}

/// Deeper levels are indented further, by the same step each.
pub proof fn lemma_indent_grows(level: nat)
    ensures
        level_indent(level + 1) == level_indent(level) + INDENT_STEP,
        level_indent(0) == INDENT_STEP,
{
}

} // verus!
