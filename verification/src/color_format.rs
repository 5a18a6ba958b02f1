//! The colour formats that the picker shows a colour in.
use vstd::prelude::*;
use crate::rgb::Rgb8;
use crate::text::{decimal, push_char, push_decimal};

verus! {

/// A format in which the picker writes a colour, one box per format.
#[derive(Clone, Copy, Debug, PartialEq, Eq, Structural)]
pub enum ColorFormat {
    Rgb,
    Hsl,
    Hsv,
    Hwb,
    Oklab,
    Oklch,
    Lab,
    Lch,
    Xyz,
}

/// The title of a format's box.
pub open spec fn label_of(f: ColorFormat) -> Seq<char> {
    match f {
        ColorFormat::Rgb => seq!['R', 'G', 'B'],
        ColorFormat::Hsl => seq!['H', 'S', 'L'],
        ColorFormat::Hsv => seq!['H', 'S', 'V'],
        ColorFormat::Hwb => seq!['H', 'W', 'B'],
        ColorFormat::Oklab => seq!['O', 'k', 'L', 'a', 'b'],
        ColorFormat::Oklch => seq!['O', 'k', 'L', 'c', 'h'],
        ColorFormat::Lab => seq!['C', 'I', 'E', 'L', 'a', 'b'],
        ColorFormat::Lch => seq!['C', 'I', 'E', 'L', 'c', 'h'],
        ColorFormat::Xyz => seq!['X', 'Y', 'Z', ' ', '-', ' ', 'D', '6', '5'],
    }
}

/// The formats in the order in which the picker lists them.
pub open spec fn format_order() -> Seq<ColorFormat> {
    seq![
        ColorFormat::Rgb,
        ColorFormat::Hsl,
        ColorFormat::Hsv,
        ColorFormat::Hwb,
        ColorFormat::Oklab,
        ColorFormat::Oklch,
        ColorFormat::Lab,
        ColorFormat::Lch,
        ColorFormat::Xyz,
    ]
}

impl ColorFormat {
    /// The title of the format's box, such as `HSL` or `XYZ - D65`.
    pub fn label(&self) -> (s: &'static str)
        ensures
            s@ == label_of(*self),
    {
        match self {
            ColorFormat::Rgb => {
                proof {
                    reveal_strlit("RGB");
                }
                "RGB"
            },
            ColorFormat::Hsl => {
                proof {
                    reveal_strlit("HSL");
                }
                "HSL"
            },
            ColorFormat::Hsv => {
                proof {
                    reveal_strlit("HSV");
                }
                "HSV"
            },
            ColorFormat::Hwb => {
                proof {
                    reveal_strlit("HWB");
                }
                "HWB"
            },
            ColorFormat::Oklab => {
                proof {
                    reveal_strlit("OkLab");
                }
                "OkLab"
            },
            ColorFormat::Oklch => {
                proof {
                    reveal_strlit("OkLch");
                }
                "OkLch"
            },
            ColorFormat::Lab => {
                proof {
                    reveal_strlit("CIELab");
                }
                "CIELab"
            },
            ColorFormat::Lch => {
                proof {
                    reveal_strlit("CIELch");
                }
                "CIELch"
            },
            ColorFormat::Xyz => {
                proof {
                    reveal_strlit("XYZ - D65");
                }
                "XYZ - D65"
            },
        }
    }

    /// Every format, in the order in which the picker lists them.
    pub fn all() -> (v: Vec<ColorFormat>)
        ensures
            v@ == format_order(),
    {
        let v = vec![
            ColorFormat::Rgb,
            ColorFormat::Hsl,
            ColorFormat::Hsv,
            ColorFormat::Hwb,
            ColorFormat::Oklab,
            ColorFormat::Oklch,
            ColorFormat::Lab,
            ColorFormat::Lch,
            ColorFormat::Xyz,
        ];
        assert(v@ =~= format_order());
        v
    }
}

impl core::ops::Deref for ColorFormat {
    type Target = str;

    fn deref(&self) -> (s: &str)
        ensures
            s@ == label_of(*self),
    {
        self.label()
    }
}

/// The CSS function of a colour in the RGB format: `rgb(r, g, b)` in decimal.
pub open spec fn rgb_function_of(c: Rgb8) -> Seq<char> {
    seq!['r', 'g', 'b', '('] + decimal(c.red) + seq![',', ' '] + decimal(c.green) + seq![',', ' ']
        + decimal(c.blue) + seq![')']
}

/// The text of the RGB format's box for a colour whose 8-bit channels are
/// given, such as `rgb(255, 128, 0)`.
pub fn rgb_function(c: Rgb8) -> (s: String)
    ensures
        s@ == rgb_function_of(c),
{
    let mut s = String::new();
    push_char(&mut s, 'r');
    push_char(&mut s, 'g');
    push_char(&mut s, 'b');
    push_char(&mut s, '(');
    push_decimal(&mut s, c.red);
    push_char(&mut s, ',');
    push_char(&mut s, ' ');
    push_decimal(&mut s, c.green);
    push_char(&mut s, ',');
    push_char(&mut s, ' ');
    push_decimal(&mut s, c.blue);
    push_char(&mut s, ')');
    assert(s@ =~= rgb_function_of(c));
    s
}

/// Each format is listed exactly once.
pub proof fn lemma_every_format_listed_once(f: ColorFormat)
    ensures
        format_order().contains(f),
        forall|i: int, j: int|
            0 <= i < j < format_order().len() ==> format_order()[i] != format_order()[j],
{
    match f {
        ColorFormat::Rgb => assert(format_order()[0] == f),
        ColorFormat::Hsl => assert(format_order()[1] == f),
        ColorFormat::Hsv => assert(format_order()[2] == f),
        ColorFormat::Hwb => assert(format_order()[3] == f),
        ColorFormat::Oklab => assert(format_order()[4] == f),
        ColorFormat::Oklch => assert(format_order()[5] == f),
        ColorFormat::Lab => assert(format_order()[6] == f),
        ColorFormat::Lch => assert(format_order()[7] == f),
        ColorFormat::Xyz => assert(format_order()[8] == f),
    }
}

/// Two formats never share a title.
pub proof fn lemma_labels_distinct(f: ColorFormat, g: ColorFormat)
    requires
        f != g,
    ensures
        label_of(f) != label_of(g),
{
    let a = label_of(f);
    let b = label_of(g);
    if a == b {
        assert(a.len() == b.len());
        assert(a[0] == b[0]);
        assert(a[a.len() - 1] == b[b.len() - 1]);
        assert(a[a.len() - 2] == b[b.len() - 2]);
    }
}

} // verus!
