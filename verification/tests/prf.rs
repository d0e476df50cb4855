use vatsim_parser::prf::{join_settings_path, PathBase, Prf};

fn profile() -> Prf {
    let content = b"Settings\tsector\t\\EDMM\\EDMM-AeroNav.sct\r\nSettings\tairways\t\\EDMM\\airway.txt \r\nSettings\tSettingsfileSYMBOLOGY\t\\EDMM\\Settings\\iCAS2\\Symbology.txt\r\nRecentFiles\tRecent1\t\\EDMM\\ASR\\iCAS2\\EDMM_CTR.asr\r\nPlugins\tPlugin0\t\\EDMM\\Plugins\\Topsky\\iCAS2\\TopSky.dll\r\nPlugins\tPlugin1\t\\EDMM\\Plugins\\Squawks\\Squawks.dll\r\nnot a setting\r\nSettings\tsector\t\\EDMM\\EDMM-AeroNav-2.sct\r\n";
    Prf::parse(content)
}

#[test]
fn prf_paths_relative_to_the_profile() {
    let prf = profile();
    let sct = prf.sct_path();
    // the later line for a category and key counts
    assert_eq!(sct.base, PathBase::PrfDirectory);
    assert_eq!(sct.relative, "EDMM/EDMM-AeroNav-2.sct");
    assert_eq!(prf.ese_path().relative, "EDMM/EDMM-AeroNav-2.ese");
    // trailing blanks are dropped
    assert_eq!(prf.airways_path().relative, "EDMM/airway.txt");
    assert_eq!(prf.symbology_path().relative, "EDMM/Settings/iCAS2/Symbology.txt");
}

#[test]
fn prf_recent_paths() {
    let prf = profile();
    assert_eq!(prf.recent_path(1).unwrap().relative, "EDMM/ASR/iCAS2/EDMM_CTR.asr");
    assert!(prf.recent_path(2).is_none());
    assert!(prf.recent_path(10).is_none());
}

#[test]
fn prf_plugin_directories() {
    let prf = profile();
    let topsky = prf.topsky_path().unwrap();
    assert_eq!(topsky.base, PathBase::PrfDirectory);
    assert_eq!(topsky.relative, "EDMM/Plugins/Topsky/iCAS2");
    let squawks = prf.squawks_path().unwrap();
    assert_eq!(squawks.relative, "EDMM/Plugins/Squawks/squawks.json");
    let none = Prf::parse(b"Settings\tsector\tx.sct\n");
    assert!(none.topsky_path().is_none());
    assert!(none.squawks_path().is_none());
}

#[test]
fn prf_plugin_overridden_setting_does_not_count() {
    let prf = Prf::parse(b"Plugins\tPlugin0\tA\\TopSky.dll\nPlugins\tPlugin0\tB\\Other.dll\nPlugins\tPlugin1\tC\\.\\TopSky.dll\n");
    let topsky = prf.topsky_path().unwrap();
    assert_eq!(topsky.base, PathBase::WorkingDirectory);
    assert_eq!(topsky.relative, "C");
}

#[test]
fn settings_paths() {
    let p = join_settings_path("\\a\\b.txt  ");
    assert_eq!(p.base, PathBase::PrfDirectory);
    assert_eq!(p.relative, "a/b.txt");
    let q = join_settings_path("c\\d.txt");
    assert_eq!(q.base, PathBase::WorkingDirectory);
    assert_eq!(q.relative, "c/d.txt");
}

#[test]
fn settings_paths_drop_all_trailing_white_space() {
    // form feed, no-break space, em space and a line tabulation, as str::trim_end
    let p = join_settings_path("\\a\\b.txt\u{c}\u{a0}\u{2003}\u{b}");
    assert_eq!(p.base, PathBase::PrfDirectory);
    assert_eq!(p.relative, "a/b.txt");
    // white space inside the path stays
    let q = join_settings_path("c d\u{a0}e.txt\r\n");
    assert_eq!(q.relative, "c d\u{a0}e.txt");
    // a zero-width space is not white space
    let r = join_settings_path("f.txt\u{200b}");
    assert_eq!(r.relative, "f.txt\u{200b}");
}
