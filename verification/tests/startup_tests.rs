use url_map::startup::{parse_args, MapFormat};

#[test]
fn json_flag_selects_json() {
    let (path, format) = parse_args(Some("map.json".to_string()), None);
    assert_eq!(path, "map.json");
    assert_eq!(format, MapFormat::Json);
}

#[test]
fn yaml_flag_selects_yaml() {
    let (path, format) = parse_args(None, Some("map.yaml".to_string()));
    assert_eq!(path, "map.yaml");
    assert_eq!(format, MapFormat::Yaml);
}

#[test]
fn json_flag_wins_over_yaml() {
    let (path, format) = parse_args(Some("map.json".to_string()), Some("map.yaml".to_string()));
    assert_eq!(path, "map.json");
    assert_eq!(format, MapFormat::Json);
}
