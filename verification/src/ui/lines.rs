//! Rows of label and value, padded to a width.

use vstd::prelude::*;

verus! {

/// A row: `left`, `padding` spaces, `right`.
pub struct Row {
    pub left: String,
    pub padding: u16,
    pub right: String,
}

/// The length of a string in bytes.
pub open spec fn byte_len(s: Seq<char>) -> int {
    vstd::utf8::encode_utf8(s).len() as int
}

/// The spaces that fill `width` after `used` columns, counting the columns modulo
/// 2^16 as a `u16` conversion does, and none where the width is exceeded.
pub open spec fn fill(width: u16, used: int) -> u16 {
    let u = (used % 0x1_0000) as u16;
    if width >= u {
        (width - u) as u16
    } else {
        0
    }
}

/// The spaces that fill `width` after `used` columns (see `fill`).
pub fn padding(used: usize, width: u16) -> (p: u16)
    ensures
        p == fill(width, used as int),
{
    let folded = (used % 0x1_0000) as u16;
    width.saturating_sub(folded)
}

/// `left` and `right` at either end of `width` columns, counting a string's width by
/// its bytes.
pub fn row(left: String, right: String, width: u16) -> (r: Row)
    requires
        byte_len(left@) + byte_len(right@) <= usize::MAX,
    ensures
        r.left@ == left@,
        r.right@ == right@,
        r.padding == fill(width, byte_len(left@) + byte_len(right@)),
{
    let used = left.as_str().len() + right.as_str().len();
    let padding = padding(used, width);
    Row { left, padding, right }
}

/// The columns left for a bar after a label, a percentage text and two spaces.
pub fn bar_width(label: &str, pct_text: &str, width: u16) -> (w: u16)
    requires
        byte_len(label@) + byte_len(pct_text@) + 2 <= usize::MAX,
    ensures
        w == fill(width, byte_len(label@) + byte_len(pct_text@) + 2),
{
    padding(label.len() + pct_text.len() + 2, width)
}


/// Padding fills the width exactly where the texts fit in it, and is nothing where
/// they do not.
pub proof fn lemma_fill_completes_width(width: u16, used: int)
    requires
        0 <= used < 0x1_0000,
    ensures
        used <= width ==> fill(width, used) + used == width,
        used > width ==> fill(width, used) == 0,
{
}

} // verus!
