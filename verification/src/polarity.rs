//! Dark/light polarity of a background color.
//!
//! A background is dark when the BT.709 relative luminance of its
//! linearised sRGB channels is below one half. Channel linearisation uses
//! the sRGB transfer curve, tabulated in millionths.

use vstd::prelude::*;
use crate::color::Rgb;

verus! {

/// Linear-light value of each 8-bit sRGB channel value, in millionths.
pub const SRGB_LINEAR_MILLIONTHS: [u32; 256] = [
    0, 304, 607, 911, 1214, 1518, 1821, 2125,
    2428, 2732, 3035, 3347, 3677, 4025, 4391, 4777,
    5182, 5605, 6049, 6512, 6995, 7499, 8023, 8568,
    9134, 9721, 10330, 10960, 11612, 12286, 12983, 13702,
    14444, 15209, 15996, 16807, 17642, 18500, 19382, 20289,
    21219, 22174, 23153, 24158, 25187, 26241, 27321, 28426,
    29557, 30713, 31896, 33105, 34340, 35601, 36889, 38204,
    39546, 40915, 42311, 43735, 45186, 46665, 48172, 49707,
    51269, 52861, 54480, 56128, 57805, 59511, 61246, 63010,
    64803, 66626, 68478, 70360, 72272, 74214, 76185, 78187,
    80220, 82283, 84376, 86500, 88656, 90842, 93059, 95307,
    97587, 99899, 102242, 104616, 107023, 109462, 111932, 114435,
    116971, 119538, 122139, 124772, 127438, 130136, 132868, 135633,
    138432, 141263, 144128, 147027, 149960, 152926, 155926, 158961,
    162029, 165132, 168269, 171441, 174647, 177888, 181164, 184475,
    187821, 191202, 194618, 198069, 201556, 205079, 208637, 212231,
    215861, 219526, 223228, 226966, 230740, 234551, 238398, 242281,
    246201, 250158, 254152, 258183, 262251, 266356, 270498, 274677,
    278894, 283149, 287441, 291771, 296138, 300544, 304987, 309469,
    313989, 318547, 323143, 327778, 332452, 337164, 341914, 346704,
    351533, 356400, 361307, 366253, 371238, 376262, 381326, 386429,
    391572, 396755, 401978, 407240, 412543, 417885, 423268, 428690,
    434154, 439657, 445201, 450786, 456411, 462077, 467784, 473531,
    479320, 485150, 491021, 496933, 502886, 508881, 514918, 520996,
    527115, 533276, 539479, 545724, 552011, 558340, 564712, 571125,
    577580, 584078, 590619, 597202, 603827, 610496, 617207, 623960,
    630757, 637597, 644480, 651406, 658375, 665387, 672443, 679542,
    686685, 693872, 701102, 708376, 715694, 723055, 730461, 737910,
    745404, 752942, 760525, 768151, 775822, 783538, 791298, 799103,
    806952, 814847, 822786, 830770, 838799, 846873, 854993, 863157,
    871367, 879622, 887923, 896269, 904661, 913099, 921582, 930111,
    938686, 947307, 955973, 964686, 973445, 982251, 991102, 1000000,
];

/// Linear-light value of an sRGB channel, in millionths.
pub open spec fn channel_linear(v: u8) -> int {
    SRGB_LINEAR_MILLIONTHS@[v as int] as int
}

/// BT.709 relative luminance of a color, in units of 10^-10.
pub open spec fn relative_luminance(c: Rgb) -> int {
    2126 * channel_linear(c.0) + 7152 * channel_linear(c.1) + 722 * channel_linear(c.2)
}

/// Whether a background classifies as dark: relative luminance below 1/2.
pub open spec fn is_dark_rgb(c: Rgb) -> bool {
    relative_luminance(c) < 5_000_000_000
}

/// Classify a background color as dark (`true`) or light (`false`).
pub fn classify_is_dark(c: Rgb) -> (dark: bool)
    ensures
        dark == is_dark_rgb(c),
{
    let r = SRGB_LINEAR_MILLIONTHS[c.0 as usize] as u64;
    let g = SRGB_LINEAR_MILLIONTHS[c.1 as usize] as u64;
    let b = SRGB_LINEAR_MILLIONTHS[c.2 as usize] as u64;
    2126 * r + 7152 * g + 722 * b < 5_000_000_000
}

/// A dark background has a channel sum of at most 699: a color whose
/// channels sum to 700 or more has every channel at 190 or more, whose
/// linear values are each above one half.
pub proof fn lemma_dark_sum_bound(c: Rgb)
    requires
        is_dark_rgb(c),
    ensures
        c.0 + c.1 + c.2 <= 699,
{
    assert(forall|v: int| 190 <= v < 256 ==> SRGB_LINEAR_MILLIONTHS@[v] >= 500000);
    if c.0 + c.1 + c.2 >= 700 {
        assert(channel_linear(c.0) >= 500000);
        assert(channel_linear(c.1) >= 500000);
        assert(channel_linear(c.2) >= 500000);
    }
}

/// A light background has a channel sum of at least 90: a color whose
/// channels sum to 89 or less has every channel at 89 or less, whose linear
/// values are each at most one tenth.
pub proof fn lemma_light_sum_bound(c: Rgb)
    requires
        !is_dark_rgb(c),
    ensures
        c.0 + c.1 + c.2 >= 90,
{
    assert(forall|v: int| 0 <= v <= 89 ==> SRGB_LINEAR_MILLIONTHS@[v] <= 100000);
    if c.0 + c.1 + c.2 <= 89 {
        assert(channel_linear(c.0) <= 100000);
        assert(channel_linear(c.1) <= 100000);
        assert(channel_linear(c.2) <= 100000);
    }
}

} // verus!
