//! Colors as they appear in the scene description (sRGB bytes) and their
//! conversion to the linear color space expected by vertex attributes.
//!
//! A linear channel is a `u32` counted in units of `1 / COLOR_ONE`, so `0`
//! is black and `COLOR_ONE` is full intensity.
use vstd::prelude::*;

verus! {

/// Number of linear-color units per unit intensity.
pub const COLOR_ONE: u32 = 1_000_000;

/// The standard sRGB-to-linear transfer function, tabulated for every byte
/// value `c`: entry `c` holds the linear intensity of the sRGB channel value
/// `c / 255`, in units of `1 / COLOR_ONE`, rounded to the nearest unit.  The
/// function is linear (`x / 12.92`) below the threshold `0.04045` and the
/// power law `((x + 0.055) / 1.055)^2.4` above it.
pub const SRGB_TO_LINEAR: [u32; 256] = [
    0, 304, 607, 911, 1214, 1518, 1821, 2125,
    2428, 2732, 3035, 3347, 3677, 4025, 4391, 4777,
    5182, 5605, 6049, 6512, 6995, 7499, 8023, 8568,
    9134, 9721, 10330, 10960, 11612, 12286, 12983, 13702,
    14444, 15209, 15996, 16807, 17642, 18500, 19382, 20289,
    21219, 22174, 23153, 24158, 25187, 26241, 27321, 28426,
    29557, 30713, 31896, 33105, 34340, 35601, 36889, 38204,
    39546, 40915, 42311, 43735, 45186, 46665, 48172, 49707,
    51269, 52861, 54480, 56128, 57805, 59511, 61246, 63010,
    64803, 66626, 68478, 70360, 72272, 74214, 76185, 78187,
    80220, 82283, 84376, 86500, 88656, 90842, 93059, 95307,
    97587, 99899, 102242, 104616, 107023, 109462, 111932, 114435,
    116971, 119538, 122139, 124772, 127438, 130136, 132868, 135633,
    138432, 141263, 144128, 147027, 149960, 152926, 155926, 158961,
    162029, 165132, 168269, 171441, 174647, 177888, 181164, 184475,
    187821, 191202, 194618, 198069, 201556, 205079, 208637, 212231,
    215861, 219526, 223228, 226966, 230740, 234551, 238398, 242281,
    246201, 250158, 254152, 258183, 262251, 266356, 270498, 274677,
    278894, 283149, 287441, 291771, 296138, 300544, 304987, 309469,
    313989, 318547, 323143, 327778, 332452, 337164, 341914, 346704,
    351533, 356400, 361307, 366253, 371238, 376262, 381326, 386429,
    391572, 396755, 401978, 407240, 412543, 417885, 423268, 428690,
    434154, 439657, 445201, 450786, 456411, 462077, 467784, 473531,
    479320, 485150, 491021, 496933, 502886, 508881, 514918, 520996,
    527115, 533276, 539479, 545724, 552011, 558340, 564712, 571125,
    577580, 584078, 590619, 597202, 603827, 610496, 617207, 623960,
    630757, 637597, 644480, 651406, 658375, 665387, 672443, 679542,
    686685, 693872, 701102, 708376, 715694, 723055, 730461, 737910,
    745404, 752942, 760525, 768151, 775822, 783538, 791298, 799103,
    806952, 814847, 822786, 830770, 838799, 846873, 854993, 863157,
    871367, 879622, 887923, 896269, 904661, 913099, 921582, 930111,
    938686, 947307, 955973, 964686, 973445, 982251, 991102, 1000000,];

/// The linear intensity of one sRGB channel byte.
pub open spec fn linear_of(c: u8) -> u32 {
    SRGB_TO_LINEAR@[c as int]
}

/// An sRGB color with one byte per channel.
#[derive(Clone, Copy, PartialEq, Eq, Structural, Debug)]
pub struct Color {
    pub r: u8,
    pub g: u8,
    pub b: u8,
}

impl Color {
    pub fn new(r: u8, g: u8, b: u8) -> (c: Self)
        ensures
            c == (Color { r, g, b }),
    {
        Self { r, g, b }
    }

    /// Converts the color to linear space, one `u32` channel in units of
    /// `1 / COLOR_ONE` per sRGB byte channel.
    pub fn to_linear_rgb(&self) -> (rgb: [u32; 3])
        ensures
            rgb@.len() == 3,
            rgb@[0] == linear_of(self.r),
            rgb@[1] == linear_of(self.g),
            rgb@[2] == linear_of(self.b),
    {
        [
            SRGB_TO_LINEAR[self.r as usize],
            SRGB_TO_LINEAR[self.g as usize],
            SRGB_TO_LINEAR[self.b as usize],
        ]
    }
}

/// Linearizing sRGB black gives linear zero on every channel.
pub proof fn lemma_to_linear_black()
    ensures
        linear_of(0) == 0,
{
}

/// Linearizing sRGB white gives full linear intensity on every channel.
pub proof fn lemma_to_linear_white()
    ensures
        linear_of(255) == COLOR_ONE,
{
}

proof fn lemma_adjacent_implies_mono(t: Seq<u32>, i: int, j: int)
    requires
        forall|k: int| 0 <= k < t.len() - 1 ==> #[trigger] t[k] <= t[k + 1],
        0 <= i <= j < t.len(),
    ensures
        t[i] <= t[j],
    decreases j - i,
{
    if i < j {
        lemma_adjacent_implies_mono(t, i, (j - 1) as int);
        assert(t[j - 1] <= t[j]);
    }
}

/// The sRGB-to-linear conversion is monotonic: a channel byte that is no
/// darker than another maps to a linear intensity that is no darker.
pub proof fn lemma_to_linear_monotonic(c1: u8, c2: u8)
    requires
        c1 <= c2,
    ensures
        linear_of(c1) <= linear_of(c2),
{
    assert(forall|k: int|
        0 <= k < SRGB_TO_LINEAR@.len() - 1 ==> #[trigger] SRGB_TO_LINEAR@[k] <= SRGB_TO_LINEAR@[
            k + 1
        ]);
    lemma_adjacent_implies_mono(SRGB_TO_LINEAR@, c1 as int, c2 as int);
}

} // verus!
