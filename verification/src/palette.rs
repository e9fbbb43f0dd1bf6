//! The colours of the interface, as red, green and blue components.
use vstd::prelude::*;

verus! {

/// The interface palette.
pub struct Colors;

impl Colors {
    pub const BACKDROP: [u8; 3] = [10, 10, 10];
    pub const BASE: [u8; 3] = [17, 17, 17];
    pub const HIGHLIGHT: [u8; 3] = [37, 37, 37];
    pub const SUBTEXT: [u8; 3] = [161, 161, 170];
    pub const TEXT: [u8; 3] = [237, 237, 237];
    pub const RED: [u8; 3] = [255, 105, 180];
    pub const ORANGE: [u8; 3] = [249, 115, 22];
    pub const YELLOW: [u8; 3] = [234, 179, 8];
    pub const GREEN: [u8; 3] = [20, 184, 166];
    pub const TEAL: [u8; 3] = [20, 184, 166];
    pub const BLUE: [u8; 3] = [0, 169, 224];
    pub const PURPLE: [u8; 3] = [139, 92, 246];
    pub const ACCENT: [u8; 3] = [0, 169, 224];
    pub const WHITE: [u8; 3] = [255, 255, 255];
    pub const GRAY: [u8; 3] = [113, 113, 122];

    /// The accents the user can pick from, with their names.
    pub const ACCENT_COLORS: [(&'static str, [u8; 3]); 7] = [
        ("Electric Blue", Self::BLUE),
        ("Teal", Self::TEAL),
        ("Warm Orange", Self::ORANGE),
        ("Neon Pink", Self::RED),
        ("Sage", [132, 169, 140]),
        ("Mocha", [139, 94, 60]),
        ("Violet", Self::PURPLE),
    ];
}

} // verus!
