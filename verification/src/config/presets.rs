//! The built-in themes: the palette of each and the names that select them.

use crate::config::colors::Palette;
use crate::utils::text_eq;
use vstd::prelude::*;

verus! {

/// The built-in themes.
#[derive(Debug, Clone, Copy, PartialEq, Eq, Structural)]
pub enum Preset {
    TokyoStorm,
    TokyoNight,
    TokyoDay,
    GruvboxDarkHard,
    GruvboxDark,
    GruvboxLight,
    Mocha,
    Frappe,
    Latte,
    Carbonfox,
    Nightfox,
    Everforest,
    RosePine,
    Nord,
    TwoDark,
    OneDark,
    SolarizedDark,
    SolarizedLight,
    Dracula,
    Monokai,
}

/// The palette of a built-in theme.
pub open spec fn palette_spec(p: Preset) -> Palette {
    match p {
        Preset::TokyoStorm => Palette { base: (36, 40, 59), surface: (41, 46, 66), overlay: (86, 95, 137), primary: (187, 154, 247), secondary: (125, 207, 255), directory: (122, 162, 247) },
        Preset::TokyoNight => Palette { base: (26, 27, 38), surface: (44, 51, 78), overlay: (86, 95, 137), primary: (187, 154, 247), secondary: (125, 207, 255), directory: (122, 162, 247) },
        Preset::TokyoDay => Palette { base: (225, 226, 231), surface: (196, 199, 209), overlay: (168, 175, 199), primary: (152, 94, 171), secondary: (52, 90, 183), directory: (52, 90, 183) },
        Preset::GruvboxDarkHard => Palette { base: (29, 32, 33), surface: (60, 56, 54), overlay: (146, 131, 116), primary: (211, 134, 155), secondary: (142, 192, 124), directory: (131, 165, 152) },
        Preset::GruvboxDark => Palette { base: (40, 40, 40), surface: (60, 56, 54), overlay: (146, 131, 116), primary: (211, 134, 155), secondary: (142, 192, 124), directory: (131, 165, 152) },
        Preset::GruvboxLight => Palette { base: (251, 241, 199), surface: (213, 196, 161), overlay: (124, 111, 100), primary: (143, 63, 113), secondary: (66, 123, 88), directory: (7, 102, 120) },
        Preset::Mocha => Palette { base: (30, 30, 46), surface: (49, 50, 68), overlay: (108, 112, 134), primary: (203, 166, 247), secondary: (148, 226, 213), directory: (137, 180, 250) },
        Preset::Frappe => Palette { base: (48, 52, 70), surface: (65, 69, 89), overlay: (115, 121, 148), primary: (202, 158, 230), secondary: (129, 200, 190), directory: (140, 170, 238) },
        Preset::Latte => Palette { base: (239, 241, 245), surface: (204, 208, 218), overlay: (156, 160, 176), primary: (136, 57, 239), secondary: (23, 146, 153), directory: (30, 102, 245) },
        Preset::Carbonfox => Palette { base: (22, 22, 22), surface: (42, 42, 42), overlay: (82, 82, 82), primary: (190, 149, 233), secondary: (61, 187, 199), directory: (120, 169, 235) },
        Preset::Nightfox => Palette { base: (25, 30, 36), surface: (43, 51, 63), overlay: (87, 91, 112), primary: (195, 157, 239), secondary: (99, 199, 209), directory: (113, 161, 236) },
        Preset::Everforest => Palette { base: (43, 51, 57), surface: (74, 82, 88), overlay: (133, 146, 137), primary: (167, 192, 128), secondary: (230, 126, 128), directory: (127, 187, 179) },
        Preset::RosePine => Palette { base: (25, 23, 36), surface: (31, 29, 46), overlay: (110, 106, 134), primary: (196, 167, 231), secondary: (235, 188, 186), directory: (49, 116, 143) },
        Preset::Nord => Palette { base: (46, 52, 64), surface: (67, 76, 94), overlay: (94, 129, 172), primary: (163, 190, 140), secondary: (191, 97, 106), directory: (129, 161, 193) },
        Preset::TwoDark => Palette { base: (40, 44, 52), surface: (33, 37, 43), overlay: (92, 99, 112), primary: (97, 175, 239), secondary: (198, 120, 221), directory: (229, 192, 123) },
        Preset::OneDark => Palette { base: (40, 44, 52), surface: (56, 60, 69), overlay: (97, 102, 117), primary: (97, 175, 239), secondary: (198, 120, 221), directory: (229, 192, 123) },
        Preset::SolarizedDark => Palette { base: (0, 43, 54), surface: (7, 54, 66), overlay: (101, 123, 131), primary: (38, 139, 210), secondary: (211, 54, 130), directory: (42, 161, 152) },
        Preset::SolarizedLight => Palette { base: (253, 246, 227), surface: (238, 232, 213), overlay: (101, 123, 131), primary: (38, 139, 210), secondary: (211, 54, 130), directory: (42, 161, 152) },
        Preset::Dracula => Palette { base: (40, 42, 54), surface: (68, 71, 90), overlay: (139, 233, 253), primary: (255, 121, 198), secondary: (80, 250, 123), directory: (189, 147, 249) },
        Preset::Monokai => Palette { base: (39, 40, 34), surface: (49, 51, 43), overlay: (117, 113, 94), primary: (249, 38, 114), secondary: (166, 226, 46), directory: (102, 217, 239) },
    }
}

/// The palette of a built-in theme.
pub fn palette(p: Preset) -> (r: Palette)
    ensures
        r == palette_spec(p),
{
    match p {
        Preset::TokyoStorm => Palette { base: (36, 40, 59), surface: (41, 46, 66), overlay: (86, 95, 137), primary: (187, 154, 247), secondary: (125, 207, 255), directory: (122, 162, 247) },
        Preset::TokyoNight => Palette { base: (26, 27, 38), surface: (44, 51, 78), overlay: (86, 95, 137), primary: (187, 154, 247), secondary: (125, 207, 255), directory: (122, 162, 247) },
        Preset::TokyoDay => Palette { base: (225, 226, 231), surface: (196, 199, 209), overlay: (168, 175, 199), primary: (152, 94, 171), secondary: (52, 90, 183), directory: (52, 90, 183) },
        Preset::GruvboxDarkHard => Palette { base: (29, 32, 33), surface: (60, 56, 54), overlay: (146, 131, 116), primary: (211, 134, 155), secondary: (142, 192, 124), directory: (131, 165, 152) },
        Preset::GruvboxDark => Palette { base: (40, 40, 40), surface: (60, 56, 54), overlay: (146, 131, 116), primary: (211, 134, 155), secondary: (142, 192, 124), directory: (131, 165, 152) },
        Preset::GruvboxLight => Palette { base: (251, 241, 199), surface: (213, 196, 161), overlay: (124, 111, 100), primary: (143, 63, 113), secondary: (66, 123, 88), directory: (7, 102, 120) },
        Preset::Mocha => Palette { base: (30, 30, 46), surface: (49, 50, 68), overlay: (108, 112, 134), primary: (203, 166, 247), secondary: (148, 226, 213), directory: (137, 180, 250) },
        Preset::Frappe => Palette { base: (48, 52, 70), surface: (65, 69, 89), overlay: (115, 121, 148), primary: (202, 158, 230), secondary: (129, 200, 190), directory: (140, 170, 238) },
        Preset::Latte => Palette { base: (239, 241, 245), surface: (204, 208, 218), overlay: (156, 160, 176), primary: (136, 57, 239), secondary: (23, 146, 153), directory: (30, 102, 245) },
        Preset::Carbonfox => Palette { base: (22, 22, 22), surface: (42, 42, 42), overlay: (82, 82, 82), primary: (190, 149, 233), secondary: (61, 187, 199), directory: (120, 169, 235) },
        Preset::Nightfox => Palette { base: (25, 30, 36), surface: (43, 51, 63), overlay: (87, 91, 112), primary: (195, 157, 239), secondary: (99, 199, 209), directory: (113, 161, 236) },
        Preset::Everforest => Palette { base: (43, 51, 57), surface: (74, 82, 88), overlay: (133, 146, 137), primary: (167, 192, 128), secondary: (230, 126, 128), directory: (127, 187, 179) },
        Preset::RosePine => Palette { base: (25, 23, 36), surface: (31, 29, 46), overlay: (110, 106, 134), primary: (196, 167, 231), secondary: (235, 188, 186), directory: (49, 116, 143) },
        Preset::Nord => Palette { base: (46, 52, 64), surface: (67, 76, 94), overlay: (94, 129, 172), primary: (163, 190, 140), secondary: (191, 97, 106), directory: (129, 161, 193) },
        Preset::TwoDark => Palette { base: (40, 44, 52), surface: (33, 37, 43), overlay: (92, 99, 112), primary: (97, 175, 239), secondary: (198, 120, 221), directory: (229, 192, 123) },
        Preset::OneDark => Palette { base: (40, 44, 52), surface: (56, 60, 69), overlay: (97, 102, 117), primary: (97, 175, 239), secondary: (198, 120, 221), directory: (229, 192, 123) },
        Preset::SolarizedDark => Palette { base: (0, 43, 54), surface: (7, 54, 66), overlay: (101, 123, 131), primary: (38, 139, 210), secondary: (211, 54, 130), directory: (42, 161, 152) },
        Preset::SolarizedLight => Palette { base: (253, 246, 227), surface: (238, 232, 213), overlay: (101, 123, 131), primary: (38, 139, 210), secondary: (211, 54, 130), directory: (42, 161, 152) },
        Preset::Dracula => Palette { base: (40, 42, 54), surface: (68, 71, 90), overlay: (139, 233, 253), primary: (255, 121, 198), secondary: (80, 250, 123), directory: (189, 147, 249) },
        Preset::Monokai => Palette { base: (39, 40, 34), surface: (49, 51, 43), overlay: (117, 113, 94), primary: (249, 38, 114), secondary: (166, 226, 46), directory: (102, 217, 239) },
    }
}

/// The built-in theme a name selects, with its marker icon.
pub open spec fn preset_spec(name: Seq<char>) -> Option<(Preset, Seq<char>)> {
    if name == "gruvbox-dark-hard"@ {
        Some((Preset::GruvboxDarkHard, "*"@))
    } else if name == "gruvbox-dark"@ {
        Some((Preset::GruvboxDark, "*"@))
    } else if name == "gruvbox-light"@ {
        Some((Preset::GruvboxLight, "*"@))
    } else if name == "catppuccin-mocha"@ {
        Some((Preset::Mocha, "┃"@))
    } else if name == "catppuccin-macchiato"@ {
        Some((Preset::Mocha, "┃"@))
    } else if name == "catppuccin-frappe"@ {
        Some((Preset::Frappe, "┃"@))
    } else if name == "catppuccin-latte"@ {
        Some((Preset::Latte, "┃"@))
    } else if name == "nord"@ {
        Some((Preset::Nord, "*"@))
    } else if name == "two-dark"@ {
        Some((Preset::TwoDark, "*"@))
    } else if name == "one-dark"@ {
        Some((Preset::OneDark, "*"@))
    } else if name == "solarized-dark"@ {
        Some((Preset::SolarizedDark, "*"@))
    } else if name == "solarized-light"@ {
        Some((Preset::SolarizedLight, "*"@))
    } else if name == "dracula"@ {
        Some((Preset::Dracula, "┃"@))
    } else if name == "monokai"@ {
        Some((Preset::Monokai, "┃"@))
    } else if name == "nightfox"@ {
        Some((Preset::Nightfox, "┃"@))
    } else if name == "carbonfox"@ {
        Some((Preset::Carbonfox, "┃"@))
    } else if name == "tokyonight-storm"@ {
        Some((Preset::TokyoStorm, "┃"@))
    } else if name == "tokyonight"@ {
        Some((Preset::TokyoNight, "┃"@))
    } else if name == "tokyonight-night"@ {
        Some((Preset::TokyoNight, "┃"@))
    } else if name == "tokyonight-day"@ {
        Some((Preset::TokyoDay, "┃"@))
    } else if name == "everforest"@ {
        Some((Preset::Everforest, "*"@))
    } else if name == "rose-pine"@ {
        Some((Preset::RosePine, "*"@))
    } else if name == "rose_pine"@ {
        Some((Preset::RosePine, "*"@))
    } else {
        None
    }
}

/// The built-in theme a name selects, with its marker icon (see `preset_spec`).
pub fn preset_named(name: &str) -> (r: Option<(Preset, &'static str)>)
    ensures
        match preset_spec(name@) {
            Some((p, icon)) => r matches Some((q, i)) && q == p && i@ == icon,
            None => r is None,
        },
{
    if text_eq(name, "gruvbox-dark-hard") {
        Some((Preset::GruvboxDarkHard, "*"))
    } else if text_eq(name, "gruvbox-dark") {
        Some((Preset::GruvboxDark, "*"))
    } else if text_eq(name, "gruvbox-light") {
        Some((Preset::GruvboxLight, "*"))
    } else if text_eq(name, "catppuccin-mocha") {
        Some((Preset::Mocha, "┃"))
    } else if text_eq(name, "catppuccin-macchiato") {
        Some((Preset::Mocha, "┃"))
    } else if text_eq(name, "catppuccin-frappe") {
        Some((Preset::Frappe, "┃"))
    } else if text_eq(name, "catppuccin-latte") {
        Some((Preset::Latte, "┃"))
    } else if text_eq(name, "nord") {
        Some((Preset::Nord, "*"))
    } else if text_eq(name, "two-dark") {
        Some((Preset::TwoDark, "*"))
    } else if text_eq(name, "one-dark") {
        Some((Preset::OneDark, "*"))
    } else if text_eq(name, "solarized-dark") {
        Some((Preset::SolarizedDark, "*"))
    } else if text_eq(name, "solarized-light") {
        Some((Preset::SolarizedLight, "*"))
    } else if text_eq(name, "dracula") {
        Some((Preset::Dracula, "┃"))
    } else if text_eq(name, "monokai") {
        Some((Preset::Monokai, "┃"))
    } else if text_eq(name, "nightfox") {
        Some((Preset::Nightfox, "┃"))
    } else if text_eq(name, "carbonfox") {
        Some((Preset::Carbonfox, "┃"))
    } else if text_eq(name, "tokyonight-storm") {
        Some((Preset::TokyoStorm, "┃"))
    } else if text_eq(name, "tokyonight") {
        Some((Preset::TokyoNight, "┃"))
    } else if text_eq(name, "tokyonight-night") {
        Some((Preset::TokyoNight, "┃"))
    } else if text_eq(name, "tokyonight-day") {
        Some((Preset::TokyoDay, "┃"))
    } else if text_eq(name, "everforest") {
        Some((Preset::Everforest, "*"))
    } else if text_eq(name, "rose-pine") {
        Some((Preset::RosePine, "*"))
    } else if text_eq(name, "rose_pine") {
        Some((Preset::RosePine, "*"))
    } else {
        None
    }
}

} // verus!
