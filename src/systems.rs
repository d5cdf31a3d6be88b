//! The directory names of ROM systems, with the name database and the logo of each.

use vstd::prelude::*;

verus! {

/// A ROM directory name, the CSV name database that serves it and its logo image.
#[derive(Debug, Clone, Copy)]
pub struct SystemMapping {
    pub folder_name: &'static str,
    pub csv_name: Option<&'static str>,
    pub logo_name: Option<&'static str>,
}

/// The number of known systems.
pub const SYSTEM_COUNT: usize = 64;

pub open spec fn opt_name(o: Option<&'static str>) -> Option<Seq<char>> {
    match o {
        Some(s) => Some(s@),
        None => None,
    }
}

/// The known system at position `i`: directory name, CSV file, logo file.
pub open spec fn system_at(i: int) -> (Seq<char>, Option<Seq<char>>, Option<Seq<char>>) {
    if i == 0 {
        ("3DS"@, Some("Nintendo - Nintendo 3DS.csv"@), Some("3DS.png"@))
    } else if i == 1 {
        ("FC"@, Some("Nintendo - Nintendo Entertainment System.csv"@), Some("FC.png"@))
    } else if i == 2 {
        ("FC hack"@, None, Some("FC hack.png"@))
    } else if i == 3 {
        ("FC-HD"@, None, Some("FC-HD.png"@))
    } else if i == 4 {
        ("SFC"@, Some("Nintendo - Super Nintendo Entertainment System.csv"@), Some("SFC.png"@))
    } else if i == 5 {
        ("SFC hack"@, None, Some("SFC hack.png"@))
    } else if i == 6 {
        ("SFC-MSU1"@, Some("Nintendo - Super Nintendo Entertainment System.csv"@), Some("SFC-MSU1.png"@))
    } else if i == 7 {
        ("GB"@, Some("Nintendo - Game Boy.csv"@), Some("GB.png"@))
    } else if i == 8 {
        ("GBC"@, Some("Nintendo - Game Boy Color.csv"@), Some("GBC.png"@))
    } else if i == 9 {
        ("GBA"@, Some("Nintendo - Game Boy Advance.csv"@), Some("GBA.png"@))
    } else if i == 10 {
        ("N64"@, Some("Nintendo - Nintendo 64.csv"@), Some("N64.png"@))
    } else if i == 11 {
        ("NDS"@, Some("Nintendo - Nintendo DS.csv"@), Some("NDS.png"@))
    } else if i == 12 {
        ("NGC"@, Some("Nintendo - GameCube.csv"@), Some("NGC.png"@))
    } else if i == 13 {
        ("WII"@, Some("Nintendo - Wii.csv"@), Some("WII.png"@))
    } else if i == 14 {
        ("WII Ware"@, Some("Nintendo - Wii.csv"@), Some("WII Ware.png"@))
    } else if i == 15 {
        ("Virtual Boy"@, Some("Nintendo - Virtual Boy (32) (Chinese).csv"@), Some("VB.png"@))
    } else if i == 16 {
        ("GAME WATCH"@, Some("Nintendo - Game  & Watch.csv"@), Some("GAME WATCH.png"@))
    } else if i == 17 {
        ("POKE MINI"@, Some("Nintendo - Pokemon Mini.csv"@), Some("POKE MINI.png"@))
    } else if i == 18 {
        ("MD"@, Some("Sega - Mega Drive - Genesis.csv"@), Some("MD.png"@))
    } else if i == 19 {
        ("MD hack"@, None, Some("MD hack.png"@))
    } else if i == 20 {
        ("MD hack(picodrive)"@, None, Some("MD hack.png"@))
    } else if i == 21 {
        ("MD-32X"@, Some("Sega - 32X.csv"@), Some("MD-32X.png"@))
    } else if i == 22 {
        ("DC"@, Some("Sega - Dreamcast.csv"@), Some("DC.png"@))
    } else if i == 23 {
        ("DC hack"@, None, Some("DC.png"@))
    } else if i == 24 {
        ("SS"@, Some("Sega - Saturn.csv"@), Some("SS.png"@))
    } else if i == 25 {
        ("GG"@, Some("Sega - Game Gear.csv"@), Some("GG.png"@))
    } else if i == 26 {
        ("SMS"@, Some("Sega - Master System - Mark III.csv"@), Some("SMS.png"@))
    } else if i == 27 {
        ("NAOMI"@, Some("Arcade - NAOMI.csv"@), Some("NAOMI.png"@))
    } else if i == 28 {
        ("PS1"@, Some("Sony - PlayStation.csv"@), Some("PS.png"@))
    } else if i == 29 {
        ("PS1 hack"@, None, Some("PS.png"@))
    } else if i == 30 {
        ("PS2"@, Some("Sony - PlayStation 2.csv"@), Some("PS2.png"@))
    } else if i == 31 {
        ("PSP"@, Some("Sony - PlayStation Portable.csv"@), Some("PSP.png"@))
    } else if i == 32 {
        ("WS"@, Some("Bandai - WonderSwan.csv"@), Some("WS.png"@))
    } else if i == 33 {
        ("WSC"@, Some("Bandai - WonderSwan Color.csv"@), Some("WSC.png"@))
    } else if i == 34 {
        ("NGPC"@, Some("SNK - Neo Geo Pocket Color.csv"@), Some("NGPC.png"@))
    } else if i == 35 {
        ("PCE"@, Some("NEC - PC Engine - TurboGrafx-16.csv"@), Some("PCE.png"@))
    } else if i == 36 {
        ("PCE-CD"@, Some("NEC - PC Engine - TurboGrafx-16.csv"@), Some("PCE-CD.png"@))
    } else if i == 37 {
        ("PC-FX"@, Some("NEC - PC-FX.csv"@), Some("PC-FX.png"@))
    } else if i == 38 {
        ("3DO"@, Some("Panasonic - 3DO Interactive Multiplayer.csv"@), Some("3DO.png"@))
    } else if i == 39 {
        ("LYNX"@, Some("Atari - Lynx.csv"@), Some("LYNX.png"@))
    } else if i == 40 {
        ("ATARI"@, Some("Atari - Atari 2600.csv"@), Some("ATARI.png"@))
    } else if i == 41 {
        ("NEOGEO-CD"@, Some("Arcade - NEOGEO.csv"@), Some("NEOGEO-CD.png"@))
    } else if i == 42 {
        ("MODEL2"@, Some("Arcade - MODEL2.csv"@), Some("MODEL2.png"@))
    } else if i == 43 {
        ("MODEL3"@, Some("Arcade - MODEL3.csv"@), Some("MODEL3.png"@))
    } else if i == 44 {
        ("PC"@, Some("Microsoft - PC.csv"@), Some("PC.png"@))
    } else if i == 45 {
        ("DOS"@, Some("Microsoft - DOS.csv"@), Some("DOS.png"@))
    } else if i == 46 {
        ("OPENBOR"@, None, Some("OPENBOR.png"@))
    } else if i == 47 {
        ("SWITCH"@, Some("Nintendo - Switch.csv"@), Some("SWITCH.png"@))
    } else if i == 48 {
        ("TeknoParrot"@, Some("Arcade - TeknoParrot.csv"@), Some("TeknoParrot.png"@))
    } else if i == 49 {
        ("FBNEO ACT"@, None, None)
    } else if i == 50 {
        ("FBNEO STG"@, None, None)
    } else if i == 51 {
        ("FBNEO FTG"@, None, None)
    } else if i == 52 {
        ("FBNEO FLY"@, None, None)
    } else if i == 53 {
        ("FBNEO RAC"@, None, None)
    } else if i == 54 {
        ("FBNEO SPO"@, None, None)
    } else if i == 55 {
        ("FBNEO ETC"@, None, None)
    } else if i == 56 {
        ("MAME ACT"@, None, None)
    } else if i == 57 {
        ("MAME STG"@, None, None)
    } else if i == 58 {
        ("MAME FTG"@, None, None)
    } else if i == 59 {
        ("MAME FLY"@, None, None)
    } else if i == 60 {
        ("MAME RAC"@, None, None)
    } else if i == 61 {
        ("MAME SPO"@, None, None)
    } else if i == 62 {
        ("MAME ETC"@, None, None)
    } else {
        ("Light Gun"@, None, None)
    }
}

fn mapping_at(i: usize) -> (r: SystemMapping)
    requires
        i < SYSTEM_COUNT,
    ensures
        (r.folder_name@, opt_name(r.csv_name), opt_name(r.logo_name)) == system_at(i as int),
{
    match i {
        0 => SystemMapping { folder_name: "3DS", csv_name: Some("Nintendo - Nintendo 3DS.csv"), logo_name: Some("3DS.png") },
        1 => SystemMapping { folder_name: "FC", csv_name: Some("Nintendo - Nintendo Entertainment System.csv"), logo_name: Some("FC.png") },
        2 => SystemMapping { folder_name: "FC hack", csv_name: None, logo_name: Some("FC hack.png") },
        3 => SystemMapping { folder_name: "FC-HD", csv_name: None, logo_name: Some("FC-HD.png") },
        4 => SystemMapping { folder_name: "SFC", csv_name: Some("Nintendo - Super Nintendo Entertainment System.csv"), logo_name: Some("SFC.png") },
        5 => SystemMapping { folder_name: "SFC hack", csv_name: None, logo_name: Some("SFC hack.png") },
        6 => SystemMapping { folder_name: "SFC-MSU1", csv_name: Some("Nintendo - Super Nintendo Entertainment System.csv"), logo_name: Some("SFC-MSU1.png") },
        7 => SystemMapping { folder_name: "GB", csv_name: Some("Nintendo - Game Boy.csv"), logo_name: Some("GB.png") },
        8 => SystemMapping { folder_name: "GBC", csv_name: Some("Nintendo - Game Boy Color.csv"), logo_name: Some("GBC.png") },
        9 => SystemMapping { folder_name: "GBA", csv_name: Some("Nintendo - Game Boy Advance.csv"), logo_name: Some("GBA.png") },
        10 => SystemMapping { folder_name: "N64", csv_name: Some("Nintendo - Nintendo 64.csv"), logo_name: Some("N64.png") },
        11 => SystemMapping { folder_name: "NDS", csv_name: Some("Nintendo - Nintendo DS.csv"), logo_name: Some("NDS.png") },
        12 => SystemMapping { folder_name: "NGC", csv_name: Some("Nintendo - GameCube.csv"), logo_name: Some("NGC.png") },
        13 => SystemMapping { folder_name: "WII", csv_name: Some("Nintendo - Wii.csv"), logo_name: Some("WII.png") },
        14 => SystemMapping { folder_name: "WII Ware", csv_name: Some("Nintendo - Wii.csv"), logo_name: Some("WII Ware.png") },
        15 => SystemMapping { folder_name: "Virtual Boy", csv_name: Some("Nintendo - Virtual Boy (32) (Chinese).csv"), logo_name: Some("VB.png") },
        16 => SystemMapping { folder_name: "GAME WATCH", csv_name: Some("Nintendo - Game  & Watch.csv"), logo_name: Some("GAME WATCH.png") },
        17 => SystemMapping { folder_name: "POKE MINI", csv_name: Some("Nintendo - Pokemon Mini.csv"), logo_name: Some("POKE MINI.png") },
        18 => SystemMapping { folder_name: "MD", csv_name: Some("Sega - Mega Drive - Genesis.csv"), logo_name: Some("MD.png") },
        19 => SystemMapping { folder_name: "MD hack", csv_name: None, logo_name: Some("MD hack.png") },
        20 => SystemMapping { folder_name: "MD hack(picodrive)", csv_name: None, logo_name: Some("MD hack.png") },
        21 => SystemMapping { folder_name: "MD-32X", csv_name: Some("Sega - 32X.csv"), logo_name: Some("MD-32X.png") },
        22 => SystemMapping { folder_name: "DC", csv_name: Some("Sega - Dreamcast.csv"), logo_name: Some("DC.png") },
        23 => SystemMapping { folder_name: "DC hack", csv_name: None, logo_name: Some("DC.png") },
        24 => SystemMapping { folder_name: "SS", csv_name: Some("Sega - Saturn.csv"), logo_name: Some("SS.png") },
        25 => SystemMapping { folder_name: "GG", csv_name: Some("Sega - Game Gear.csv"), logo_name: Some("GG.png") },
        26 => SystemMapping { folder_name: "SMS", csv_name: Some("Sega - Master System - Mark III.csv"), logo_name: Some("SMS.png") },
        27 => SystemMapping { folder_name: "NAOMI", csv_name: Some("Arcade - NAOMI.csv"), logo_name: Some("NAOMI.png") },
        28 => SystemMapping { folder_name: "PS1", csv_name: Some("Sony - PlayStation.csv"), logo_name: Some("PS.png") },
        29 => SystemMapping { folder_name: "PS1 hack", csv_name: None, logo_name: Some("PS.png") },
        30 => SystemMapping { folder_name: "PS2", csv_name: Some("Sony - PlayStation 2.csv"), logo_name: Some("PS2.png") },
        31 => SystemMapping { folder_name: "PSP", csv_name: Some("Sony - PlayStation Portable.csv"), logo_name: Some("PSP.png") },
        32 => SystemMapping { folder_name: "WS", csv_name: Some("Bandai - WonderSwan.csv"), logo_name: Some("WS.png") },
        33 => SystemMapping { folder_name: "WSC", csv_name: Some("Bandai - WonderSwan Color.csv"), logo_name: Some("WSC.png") },
        34 => SystemMapping { folder_name: "NGPC", csv_name: Some("SNK - Neo Geo Pocket Color.csv"), logo_name: Some("NGPC.png") },
        35 => SystemMapping { folder_name: "PCE", csv_name: Some("NEC - PC Engine - TurboGrafx-16.csv"), logo_name: Some("PCE.png") },
        36 => SystemMapping { folder_name: "PCE-CD", csv_name: Some("NEC - PC Engine - TurboGrafx-16.csv"), logo_name: Some("PCE-CD.png") },
        37 => SystemMapping { folder_name: "PC-FX", csv_name: Some("NEC - PC-FX.csv"), logo_name: Some("PC-FX.png") },
        38 => SystemMapping { folder_name: "3DO", csv_name: Some("Panasonic - 3DO Interactive Multiplayer.csv"), logo_name: Some("3DO.png") },
        39 => SystemMapping { folder_name: "LYNX", csv_name: Some("Atari - Lynx.csv"), logo_name: Some("LYNX.png") },
        40 => SystemMapping { folder_name: "ATARI", csv_name: Some("Atari - Atari 2600.csv"), logo_name: Some("ATARI.png") },
        41 => SystemMapping { folder_name: "NEOGEO-CD", csv_name: Some("Arcade - NEOGEO.csv"), logo_name: Some("NEOGEO-CD.png") },
        42 => SystemMapping { folder_name: "MODEL2", csv_name: Some("Arcade - MODEL2.csv"), logo_name: Some("MODEL2.png") },
        43 => SystemMapping { folder_name: "MODEL3", csv_name: Some("Arcade - MODEL3.csv"), logo_name: Some("MODEL3.png") },
        44 => SystemMapping { folder_name: "PC", csv_name: Some("Microsoft - PC.csv"), logo_name: Some("PC.png") },
        45 => SystemMapping { folder_name: "DOS", csv_name: Some("Microsoft - DOS.csv"), logo_name: Some("DOS.png") },
        46 => SystemMapping { folder_name: "OPENBOR", csv_name: None, logo_name: Some("OPENBOR.png") },
        47 => SystemMapping { folder_name: "SWITCH", csv_name: Some("Nintendo - Switch.csv"), logo_name: Some("SWITCH.png") },
        48 => SystemMapping { folder_name: "TeknoParrot", csv_name: Some("Arcade - TeknoParrot.csv"), logo_name: Some("TeknoParrot.png") },
        49 => SystemMapping { folder_name: "FBNEO ACT", csv_name: None, logo_name: None },
        50 => SystemMapping { folder_name: "FBNEO STG", csv_name: None, logo_name: None },
        51 => SystemMapping { folder_name: "FBNEO FTG", csv_name: None, logo_name: None },
        52 => SystemMapping { folder_name: "FBNEO FLY", csv_name: None, logo_name: None },
        53 => SystemMapping { folder_name: "FBNEO RAC", csv_name: None, logo_name: None },
        54 => SystemMapping { folder_name: "FBNEO SPO", csv_name: None, logo_name: None },
        55 => SystemMapping { folder_name: "FBNEO ETC", csv_name: None, logo_name: None },
        56 => SystemMapping { folder_name: "MAME ACT", csv_name: None, logo_name: None },
        57 => SystemMapping { folder_name: "MAME STG", csv_name: None, logo_name: None },
        58 => SystemMapping { folder_name: "MAME FTG", csv_name: None, logo_name: None },
        59 => SystemMapping { folder_name: "MAME FLY", csv_name: None, logo_name: None },
        60 => SystemMapping { folder_name: "MAME RAC", csv_name: None, logo_name: None },
        61 => SystemMapping { folder_name: "MAME SPO", csv_name: None, logo_name: None },
        62 => SystemMapping { folder_name: "MAME ETC", csv_name: None, logo_name: None },
        _ => SystemMapping { folder_name: "Light Gun", csv_name: None, logo_name: None },
    }
}

/// Every known system, in table order.
pub fn get_system_mappings() -> (r: Vec<SystemMapping>)
    ensures
        r.len() == SYSTEM_COUNT,
        forall|i: int|
            0 <= i < SYSTEM_COUNT ==> ((#[trigger] r@[i]).folder_name@, opt_name(r@[i].csv_name), opt_name(
                r@[i].logo_name,
            )) == system_at(i),
{
    let mut r: Vec<SystemMapping> = Vec::new();
    for i in 0..SYSTEM_COUNT
        invariant
            r.len() == i,
            forall|q: int|
                0 <= q < i ==> ((#[trigger] r@[q]).folder_name@, opt_name(r@[q].csv_name), opt_name(r@[q].logo_name))
                    == system_at(q),
    {
        r.push(mapping_at(i));
    }
    r
}

} // verus!
