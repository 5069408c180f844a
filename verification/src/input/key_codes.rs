//! The character codes that stand for the keys without a character of their
//! own. The arrow and navigation keys lie in a private use area of Unicode.

use vstd::prelude::*;

verus! {

#[allow(non_upper_case_globals)]
pub const Backspace: char = '\u{0008}';

#[allow(non_upper_case_globals)]
pub const Tab: char = '\u{0009}';

#[allow(non_upper_case_globals)]
pub const Return: char = '\u{000a}';

#[allow(non_upper_case_globals)]
pub const Escape: char = '\u{001b}';

#[allow(non_upper_case_globals)]
pub const Delete: char = '\u{007f}';

#[allow(non_upper_case_globals)]
pub const UpArrow: char = '\u{f700}';

#[allow(non_upper_case_globals)]
pub const DownArrow: char = '\u{f701}';

#[allow(non_upper_case_globals)]
pub const LeftArrow: char = '\u{f702}';

#[allow(non_upper_case_globals)]
pub const RightArrow: char = '\u{f703}';

#[allow(non_upper_case_globals)]
pub const Home: char = '\u{f729}';

#[allow(non_upper_case_globals)]
pub const End: char = '\u{f72b}';

#[allow(non_upper_case_globals)]
pub const PageUp: char = '\u{f72c}';

#[allow(non_upper_case_globals)]
pub const PageDown: char = '\u{f72d}';

} // verus!
