//! Palettes: ordered, non-empty sequences of color stops.

use crate::color::{hex_color, hex_complaint, is_hex_color, Srgb8};
use crate::error::EngineError;
use vstd::prelude::*;
use vstd::string::StringExecFns;

verus! {

/// An ordered sequence of at least one color stop. The palette does not
/// look into its stops, so they can be of any color space.
#[derive(Debug, Clone)]
pub struct Palette<C> {
    colors: Vec<C>,
}

impl<C> View for Palette<C> {
    type V = Seq<C>;

    /// The stops, first to last.
    closed spec fn view(&self) -> Seq<C> {
        self.colors@
    }
}

/// The ways to derive a palette from one base color by turning its hue.
#[derive(Debug, Clone, Copy, PartialEq, Eq, Structural)]
pub enum Harmony {
    /// The base and the hue opposite to it.
    Complementary,
    /// The base and the two hues a third of the circle away.
    Triadic,
    /// The base and the two neighbors of the hue opposite to it.
    SplitComplementary,
}

impl Harmony {
    /// The hue offsets of the stops, in whole degrees; the base comes first,
    /// with no offset.
    pub open spec fn degrees(self) -> Seq<u16> {
        match self {
            Harmony::Complementary => seq![0u16, 180u16],
            Harmony::Triadic => seq![0u16, 120u16, 240u16],
            Harmony::SplitComplementary => seq![0u16, 150u16, 210u16],
        }
    }

    /// The hue offsets of the stops, in whole degrees.
    pub fn offsets(self) -> (degrees: Vec<u16>)
        ensures
            degrees@ == self.degrees(),
            degrees@[0] == 0,
            forall|i: int| 0 <= i < degrees.len() ==> #[trigger] degrees@[i] < 360,
    {
        match self {
            Harmony::Complementary => vec![0u16, 180u16],
            Harmony::Triadic => vec![0u16, 120u16, 240u16],
            Harmony::SplitComplementary => vec![0u16, 150u16, 210u16],
        }
    }
}

/// The text at `k` is the first in `hexes` that is no hex color.
pub open spec fn first_malformed(hexes: Seq<&str>, k: int) -> bool {
    &&& 0 <= k < hexes.len()
    &&& !is_hex_color(hexes[k]@)
    &&& forall|i: int| 0 <= i < k ==> is_hex_color(#[trigger] hexes[i]@)
}

/// What is wrong with a palette one of whose stops is the text `hex`,
/// which is no hex color.
pub open spec fn malformed_stop(hex: Seq<char>) -> Seq<char> {
    "invalid color: "@ + hex_complaint(hex)
}

/// Every text in `hexes` is a hex color.
pub open spec fn all_hex_colors(hexes: Seq<&str>) -> bool {
    forall|i: int| 0 <= i < hexes.len() ==> is_hex_color(#[trigger] hexes[i]@)
}

/// The name of the built-in palette at position `i` of the registry.
pub open spec fn builtin_name(i: int) -> Seq<char> {
    if i == 0 {
        "ocean"@
    } else if i == 1 {
        "neon"@
    } else if i == 2 {
        "earth"@
    } else if i == 3 {
        "monochrome"@
    } else if i == 4 {
        "vapor"@
    } else {
        "fire"@
    }
}

/// The position of the built-in palette called `name`; 6 if there is none.
pub open spec fn builtin_index(name: Seq<char>) -> int {
    if name == "ocean"@ {
        0
    } else if name == "neon"@ {
        1
    } else if name == "earth"@ {
        2
    } else if name == "monochrome"@ {
        3
    } else if name == "vapor"@ {
        4
    } else if name == "fire"@ {
        5
    } else {
        6
    }
}

/// The stops of the built-in palette at position `i` of the registry.
pub open spec fn builtin_stops(i: int) -> Seq<Srgb8> {
    if i == 0 {
        seq![
            Srgb8 { r: 0x00, g: 0x1f, b: 0x3f },
            Srgb8 { r: 0x00, g: 0x33, b: 0x66 },
            Srgb8 { r: 0x00, g: 0x5f, b: 0x73 },
            Srgb8 { r: 0x0a, g: 0x93, b: 0x96 },
            Srgb8 { r: 0x94, g: 0xd2, b: 0xbd },
        ]
    } else if i == 1 {
        seq![
            Srgb8 { r: 0xff, g: 0x00, b: 0xff },
            Srgb8 { r: 0x00, g: 0xff, b: 0x41 },
            Srgb8 { r: 0xff, g: 0xff, b: 0x00 },
            Srgb8 { r: 0xff, g: 0x00, b: 0x80 },
            Srgb8 { r: 0x00, g: 0xff, b: 0xff },
        ]
    } else if i == 2 {
        seq![
            Srgb8 { r: 0x5c, g: 0x40, b: 0x33 },
            Srgb8 { r: 0x8b, g: 0x69, b: 0x14 },
            Srgb8 { r: 0x6b, g: 0x8e, b: 0x23 },
            Srgb8 { r: 0xda, g: 0xa5, b: 0x20 },
            Srgb8 { r: 0xd2, g: 0xb4, b: 0x8c },
        ]
    } else if i == 3 {
        seq![
            Srgb8 { r: 0x00, g: 0x00, b: 0x00 },
            Srgb8 { r: 0x40, g: 0x40, b: 0x40 },
            Srgb8 { r: 0x80, g: 0x80, b: 0x80 },
            Srgb8 { r: 0xc0, g: 0xc0, b: 0xc0 },
            Srgb8 { r: 0xff, g: 0xff, b: 0xff },
        ]
    } else if i == 4 {
        seq![
            Srgb8 { r: 0x7b, g: 0x2d, b: 0x8e },
            Srgb8 { r: 0xc7, g: 0x7d, b: 0xff },
            Srgb8 { r: 0xff, g: 0x9e, b: 0xbb },
            Srgb8 { r: 0x80, g: 0xce, b: 0xd6 },
            Srgb8 { r: 0xa0, g: 0xe7, b: 0xe5 },
        ]
    } else {
        seq![
            Srgb8 { r: 0x80, g: 0x00, b: 0x00 },
            Srgb8 { r: 0xcc, g: 0x00, b: 0x00 },
            Srgb8 { r: 0xff, g: 0x45, b: 0x00 },
            Srgb8 { r: 0xff, g: 0x8c, b: 0x00 },
            Srgb8 { r: 0xff, g: 0xd7, b: 0x00 },
        ]
    }
}

impl<C> Palette<C> {
    /// A palette has at least one stop.
    pub open spec fn wf(&self) -> bool {
        self@.len() >= 1
    }

    /// Creates a palette from its stops; at least one is required.
    pub fn new(colors: Vec<C>) -> (r: Result<Palette<C>, EngineError>)
        ensures
            colors.len() >= 1 ==> r is Ok && r->Ok_0@ == colors@ && r->Ok_0.wf(),
            colors.len() == 0 ==> r is Err && r->Err_0 is InvalidPalette
                && r->Err_0->InvalidPalette_0@ == "palette requires at least 1 color"@,
    {
        if colors.len() == 0 {
            return Err(
                EngineError::InvalidPalette(String::from_str("palette requires at least 1 color")),
            );
        }
        Ok(Palette { colors })
    }

    /// The number of stops.
    pub fn len(&self) -> (n: usize)
        ensures
            n == self@.len(),
    {
        self.colors.len()
    }

    /// Whether the palette has no stops, which a well-formed one never has.
    pub fn is_empty(&self) -> (b: bool)
        ensures
            b == (self@.len() == 0),
            self.wf() ==> !b,
    {
        self.colors.len() == 0
    }

    /// The stops, first to last.
    pub fn colors(&self) -> (stops: &Vec<C>)
        ensures
            stops@ == self@,
    {
        &self.colors
    }

    /// The index of the stop that starts the segment in which the scaled
    /// position with integer part `whole` lies: `whole` itself, but never the
    /// last stop, so that the segment has an end.
    pub fn segment(&self, whole: usize) -> (i: usize)
        requires
            self@.len() >= 2,
        ensures
            i == if whole <= self@.len() - 2 {
                whole as int
            } else {
                self@.len() - 2
            },
            i + 1 < self@.len(),
    {
        let last: usize = self.colors.len() - 2;
        if whole <= last {
            whole
        } else {
            last
        }
    }
}

impl Palette<Srgb8> {
    /// Creates a palette from hex color texts such as `#rrggbb`. At least
    /// one is required, and each must be a hex color: otherwise the palette
    /// is invalid, and the first text that is no hex color is reported.
    pub fn from_hex(hexes: &[&str]) -> (r: Result<Palette<Srgb8>, EngineError>)
        ensures
            hexes@.len() == 0 ==> r is Err && r->Err_0 is InvalidPalette
                && r->Err_0->InvalidPalette_0@ == "palette requires at least 1 color"@,
            hexes@.len() > 0 && all_hex_colors(hexes@) ==> r is Ok && r->Ok_0.wf() && r->Ok_0@.len()
                == hexes@.len() && forall|i: int|
                0 <= i < hexes@.len() ==> #[trigger] r->Ok_0@[i] == hex_color(hexes@[i]@),
            hexes@.len() > 0 && !all_hex_colors(hexes@) ==> r is Err && r->Err_0 is InvalidPalette
                && exists|k: int| #[trigger]
                first_malformed(hexes@, k) && r->Err_0->InvalidPalette_0@ == malformed_stop(
                    hexes@[k]@,
                ),
    {
        if hexes.len() == 0 {
            return Err(
                EngineError::InvalidPalette(String::from_str("palette requires at least 1 color")),
            );
        }
        let mut colors: Vec<Srgb8> = Vec::with_capacity(hexes.len());
        let mut i: usize = 0;
        while i < hexes.len()
            invariant
                i <= hexes.len(),
                colors.len() == i,
                forall|j: int| 0 <= j < i ==> is_hex_color(#[trigger] hexes@[j]@),
                forall|j: int| 0 <= j < i ==> #[trigger] colors@[j] == hex_color(hexes@[j]@),
            decreases hexes.len() - i,
        {
            match Srgb8::from_hex(hexes[i]) {
                Ok(c) => {
                    colors.push(c);
                },
                Err(e) => {
                    assert(first_malformed(hexes@, i as int));
                    return Err(EngineError::InvalidPalette(e.message()));
                },
            }
            i += 1;
        }
        Ok(Palette { colors })
    }

    /// The names of the built-in palettes.
    pub fn list_names() -> (names: Vec<&'static str>)
        ensures
            names@.len() == 6,
            forall|i: int| 0 <= i < 6 ==> (#[trigger] names@[i])@ == builtin_name(i),
    {
        vec!["ocean", "neon", "earth", "monochrome", "vapor", "fire"]
    }

    /// The built-in palette called `name`.
    pub fn from_name(name: &str) -> (r: Result<Palette<Srgb8>, EngineError>)
        ensures
            builtin_index(name@) < 6 ==> r is Ok && r->Ok_0.wf() && r->Ok_0@ == builtin_stops(
                builtin_index(name@),
            ),
            builtin_index(name@) >= 6 ==> r is Err && r->Err_0 is InvalidPalette
                && r->Err_0->InvalidPalette_0@ == "unknown palette: "@ + name@,
    {
        let wanted: String = name.to_owned();
        if wanted == "ocean".to_owned() {
            Ok(Palette::ocean())
        } else if wanted == "neon".to_owned() {
            Ok(Palette::neon())
        } else if wanted == "earth".to_owned() {
            Ok(Palette::earth())
        } else if wanted == "monochrome".to_owned() {
            Ok(Palette::monochrome())
        } else if wanted == "vapor".to_owned() {
            Ok(Palette::vapor())
        } else if wanted == "fire".to_owned() {
            Ok(Palette::fire())
        } else {
            let mut detail = String::from_str("unknown palette: ");
            detail.append(name);
            Err(EngineError::InvalidPalette(detail))
        }
    }

    /// Deep blues to cyan.
    pub fn ocean() -> (p: Palette<Srgb8>)
        ensures
            p.wf(),
            p@ == builtin_stops(0),
    {
        Palette {
            colors: vec![
                Srgb8 { r: 0x00, g: 0x1f, b: 0x3f },
                Srgb8 { r: 0x00, g: 0x33, b: 0x66 },
                Srgb8 { r: 0x00, g: 0x5f, b: 0x73 },
                Srgb8 { r: 0x0a, g: 0x93, b: 0x96 },
                Srgb8 { r: 0x94, g: 0xd2, b: 0xbd },
            ],
        }
    }

    /// Vibrant pinks, greens, yellows.
    pub fn neon() -> (p: Palette<Srgb8>)
        ensures
            p.wf(),
            p@ == builtin_stops(1),
    {
        Palette {
            colors: vec![
                Srgb8 { r: 0xff, g: 0x00, b: 0xff },
                Srgb8 { r: 0x00, g: 0xff, b: 0x41 },
                Srgb8 { r: 0xff, g: 0xff, b: 0x00 },
                Srgb8 { r: 0xff, g: 0x00, b: 0x80 },
                Srgb8 { r: 0x00, g: 0xff, b: 0xff },
            ],
        }
    }

    /// Browns, greens, golds.
    pub fn earth() -> (p: Palette<Srgb8>)
        ensures
            p.wf(),
            p@ == builtin_stops(2),
    {
        Palette {
            colors: vec![
                Srgb8 { r: 0x5c, g: 0x40, b: 0x33 },
                Srgb8 { r: 0x8b, g: 0x69, b: 0x14 },
                Srgb8 { r: 0x6b, g: 0x8e, b: 0x23 },
                Srgb8 { r: 0xda, g: 0xa5, b: 0x20 },
                Srgb8 { r: 0xd2, g: 0xb4, b: 0x8c },
            ],
        }
    }

    /// Black to white via grays.
    pub fn monochrome() -> (p: Palette<Srgb8>)
        ensures
            p.wf(),
            p@ == builtin_stops(3),
    {
        Palette {
            colors: vec![
                Srgb8 { r: 0x00, g: 0x00, b: 0x00 },
                Srgb8 { r: 0x40, g: 0x40, b: 0x40 },
                Srgb8 { r: 0x80, g: 0x80, b: 0x80 },
                Srgb8 { r: 0xc0, g: 0xc0, b: 0xc0 },
                Srgb8 { r: 0xff, g: 0xff, b: 0xff },
            ],
        }
    }

    /// Pastel purples, pinks, teals.
    pub fn vapor() -> (p: Palette<Srgb8>)
        ensures
            p.wf(),
            p@ == builtin_stops(4),
    {
        Palette {
            colors: vec![
                Srgb8 { r: 0x7b, g: 0x2d, b: 0x8e },
                Srgb8 { r: 0xc7, g: 0x7d, b: 0xff },
                Srgb8 { r: 0xff, g: 0x9e, b: 0xbb },
                Srgb8 { r: 0x80, g: 0xce, b: 0xd6 },
                Srgb8 { r: 0xa0, g: 0xe7, b: 0xe5 },
            ],
        }
    }

    /// Reds, oranges, yellows.
    pub fn fire() -> (p: Palette<Srgb8>)
        ensures
            p.wf(),
            p@ == builtin_stops(5),
    {
        Palette {
            colors: vec![
                Srgb8 { r: 0x80, g: 0x00, b: 0x00 },
                Srgb8 { r: 0xcc, g: 0x00, b: 0x00 },
                Srgb8 { r: 0xff, g: 0x45, b: 0x00 },
                Srgb8 { r: 0xff, g: 0x8c, b: 0x00 },
                Srgb8 { r: 0xff, g: 0xd7, b: 0x00 },
            ],
        }
    }
}

} // verus!
