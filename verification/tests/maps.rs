use vatsim_parser::maps::{
    overrides_folder, Alignment, HorizontalAlignment, LineStyle, LineStyleType, OverrideSct,
    VerticalAlignment,
};
use vatsim_parser::sectors::{SectorId, VolumeId};

fn style_name(s: &LineStyleType) -> String {
    format!("{s:?}")
}

#[test]
fn map_line_styles() {
    let s = LineStyle::parse("dash", Some("2"));
    assert_eq!(s.width, 2);
    assert_eq!(style_name(&s.style), "Dash");
    let d = LineStyle::parse("Default", None);
    assert_eq!((d.width, style_name(&d.style)), (1, "Solid".to_string()));
    let c = LineStyle::parse("myStyle", Some("wide"));
    assert_eq!(c.width, 1);
    assert_eq!(style_name(&c.style), "Custom(\"MYSTYLE\")");
    assert_eq!(style_name(&LineStyle::parse("DASHDOTDOT", None).style), "DashDotDot");
    let def = LineStyle::default();
    assert_eq!((def.width, style_name(&def.style)), (1, "Solid".to_string()));
}

#[test]
fn alignment_defaults_to_centre() {
    let a = Alignment::default();
    assert_eq!(a.horizontal, HorizontalAlignment::Center);
    assert_eq!(a.vertical, VerticalAlignment::Center);
}

#[test]
fn folder_overrides() {
    let overrides = vec![
        OverrideSct { folder: "GEO".to_string(), name: Some("Coast".to_string()) },
        OverrideSct { folder: "SID".to_string(), name: None },
    ];
    assert!(overrides_folder(&overrides, "SID"));
    assert!(!overrides_folder(&overrides, "GEO"));
    assert!(!overrides_folder(&overrides, "STAR"));
}

#[test]
fn sector_and_volume_ids() {
    let s = SectorId::from("EDMMALB".to_string());
    assert_eq!(s.as_str(), "EDMMALB");
    let v = VolumeId::from("VOL1".to_string());
    assert_eq!(v.as_str(), "VOL1");
}
