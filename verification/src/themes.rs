//! Names of the colour themes and the rule that picks a colour for a usage.

use vstd::prelude::*;

verus! {

/// Number of themes.
pub const THEME_COUNT: usize = 9;

/// How heavily a resource is used, as far as colours tell it apart.
#[derive(Clone, Copy, Debug, PartialEq, Eq)]
pub enum UsageLevel {
    /// Up to sixty percent.
    Normal,
    /// From sixty-one to eighty-five percent.
    Elevated,
    /// Above eighty-five percent.
    Critical,
}

/// The name of the theme at place `index`; the first theme is the default.
pub open spec fn theme_name_text(index: int) -> Seq<char> {
    if index == 1 {
        "matrix"@
    } else if index == 2 {
        "minimal"@
    } else if index == 3 {
        "cyberpunk"@
    } else if index == 4 {
        "dracula"@
    } else if index == 5 {
        "nord"@
    } else if index == 6 {
        "gruvbox"@
    } else if index == 7 {
        "tokyo"@
    } else if index == 8 {
        "ocean"@
    } else {
        "hacker"@
    }
}

/// The place of the theme called `name`, or that of the default theme where
/// no theme is called so.
pub open spec fn theme_index_of(name: Seq<char>) -> int {
    if name == theme_name_text(1) {
        1
    } else if name == theme_name_text(2) {
        2
    } else if name == theme_name_text(3) {
        3
    } else if name == theme_name_text(4) {
        4
    } else if name == theme_name_text(5) {
        5
    } else if name == theme_name_text(6) {
        6
    } else if name == theme_name_text(7) {
        7
    } else if name == theme_name_text(8) {
        8
    } else {
        0
    }
}

/// The level of a usage given in hundredths of a percent. Only the whole
/// percent count: 60.99 % is still normal.
pub open spec fn level_of(percent: u32) -> UsageLevel {
    if percent / 100 <= 60 {
        UsageLevel::Normal
    } else if percent / 100 <= 85 {
        UsageLevel::Elevated
    } else {
        UsageLevel::Critical
    }
}

/// The name of the theme at place `index`.
pub fn theme_name(index: usize) -> (name: &'static str)
    ensures
        name@ == theme_name_text(index as int),
{
    if index == 1 {
        "matrix"
    } else if index == 2 {
        "minimal"
    } else if index == 3 {
        "cyberpunk"
    } else if index == 4 {
        "dracula"
    } else if index == 5 {
        "nord"
    } else if index == 6 {
        "gruvbox"
    } else if index == 7 {
        "tokyo"
    } else if index == 8 {
        "ocean"
    } else {
        "hacker"
    }
}

/// The place of the theme called `name`, or zero where no theme is called so.
pub fn find_theme(name: &str) -> (index: usize)
    ensures
        index == theme_index_of(name@),
        index < THEME_COUNT,
{
    let wanted = String::from_str(name);
    let mut index: usize = 1;
    while index < THEME_COUNT
        invariant
            1 <= index <= THEME_COUNT,
            wanted@ == name@,
            forall|i: int| 1 <= i < index ==> name@ != theme_name_text(i),
        decreases THEME_COUNT - index,
    {
        if wanted == String::from_str(theme_name(index)) {
            return index;
        }
        index += 1;
    }
    0
}

/// The level of a usage given in hundredths of a percent.
pub fn usage_level(percent: u32) -> (level: UsageLevel)
    ensures
        level == level_of(percent),
{
    let whole: u32 = percent / 100;
    if whole <= 60 {
        UsageLevel::Normal
    } else if whole <= 85 {
        UsageLevel::Elevated
    } else {
        UsageLevel::Critical
    }
}

/// The names of the nine themes differ from each other, so a theme is found
/// again by its name.
pub proof fn lemma_theme_names_differ(i: int, j: int)
    requires
        0 <= i < THEME_COUNT,
        0 <= j < THEME_COUNT,
        i != j,
    ensures
        theme_name_text(i) != theme_name_text(j),
        theme_index_of(theme_name_text(i)) == i,
{
    reveal_strlit("hacker");
    reveal_strlit("matrix");
    reveal_strlit("minimal");
    reveal_strlit("cyberpunk");
    reveal_strlit("dracula");
    reveal_strlit("nord");
    reveal_strlit("gruvbox");
    reveal_strlit("tokyo");
    reveal_strlit("ocean");
    let a = theme_name_text(i);
    let b = theme_name_text(j);
    if a.len() == b.len() {
        assert(a[0] != b[0] || a[1] != b[1]);
    }
    lemma_theme_found_again(i);
}

/// A theme is found again by its name.
proof fn lemma_theme_found_again(i: int)
    requires
        0 <= i < THEME_COUNT,
    ensures
        theme_index_of(theme_name_text(i)) == i,
{
    reveal_strlit("hacker");
    reveal_strlit("matrix");
    reveal_strlit("minimal");
    reveal_strlit("cyberpunk");
    reveal_strlit("dracula");
    reveal_strlit("nord");
    reveal_strlit("gruvbox");
    reveal_strlit("tokyo");
    reveal_strlit("ocean");
    let a = theme_name_text(i);
    assert forall|k: int| 1 <= k < THEME_COUNT && k != i implies theme_name_text(k) != a by {
        let b = theme_name_text(k);
        if a.len() == b.len() {
            assert(a[0] != b[0] || a[1] != b[1]);
        }
    }
}

} // verus!
