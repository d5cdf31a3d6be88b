use rom_scraper::paths::{
    get_data_dir, get_media_dir, get_settings_path, get_temp_dir, get_temp_dir_for_library, normalize_extension,
    normalize_path, normalize_path_to_dirname,
};

#[test]
fn config_layout() {
    assert_eq!(get_media_dir("/opt/app/config"), "/opt/app/config/media");
    assert_eq!(get_temp_dir("/opt/app/config/"), "/opt/app/config/temp");
    assert_eq!(get_settings_path("config"), "config/settings.json");
    assert_eq!(get_data_dir("config"), "config/data");
}

#[test]
fn library_paths_become_directory_names() {
    assert_eq!(normalize_path_to_dirname("z:\\"), "z");
    assert_eq!(normalize_path_to_dirname("d:\\games\\"), "d_games");
    assert_eq!(normalize_path_to_dirname("/mnt/roms/"), "mnt_roms");
    assert_eq!(get_temp_dir_for_library("config", "z:\\", "gba"), "config/temp/z/gba");
}

#[test]
fn extensions_and_paths_are_normalised() {
    assert_eq!(normalize_extension(" .SFC "), "sfc");
    assert_eq!(normalize_extension("..zip"), "zip");
    assert_eq!(normalize_path("Z:\\Games\\SNES"), "z:/Games/SNES");
    assert_eq!(normalize_path("/home/u/roms"), "/home/u/roms");
}
