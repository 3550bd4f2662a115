use world_map::MapResolution;
use world_map::ParseError;

#[test]
fn map_resolution_to_string() {
    assert_eq!(MapResolution::Low.to_display_name(), "Low");
    assert_eq!(MapResolution::High.to_display_name(), "High");
}

#[test]
fn map_resolution_from_str() {
    assert_eq!("Low".parse(), Ok(MapResolution::Low));
    assert_eq!("High".parse(), Ok(MapResolution::High));
    assert_eq!("".parse::<MapResolution>(), Err(ParseError::VariantNotFound));
}

#[test]
fn parse_rejects_unknown_names() {
    assert_eq!(MapResolution::parse("Medium"), Err(ParseError::VariantNotFound));
    assert_eq!(MapResolution::parse("low"), Err(ParseError::VariantNotFound));
    assert_eq!(MapResolution::parse("LOW"), Err(ParseError::VariantNotFound));
    assert_eq!(MapResolution::parse("Highh"), Err(ParseError::VariantNotFound));
    assert_eq!(MapResolution::parse("Hig"), Err(ParseError::VariantNotFound));
    assert_eq!(MapResolution::parse(""), Err(ParseError::VariantNotFound));
}

#[test]
fn display_parse_round_trip() {
    for name in ["Low", "High"] {
        let parsed = MapResolution::parse(name).unwrap();
        let again = MapResolution::parse(parsed.to_display_name());
        assert_eq!(again, MapResolution::parse(name));
    }
}

#[test]
fn resolution_default_is_low() {
    assert_eq!(MapResolution::default(), MapResolution::Low);
}
