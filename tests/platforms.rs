use transit_sim::map_helpers::{create_line_stations_map, str_less, Platform};

fn platform(station: &str, line: &str) -> Platform {
    Platform {
        platform_unique_id: format!("{}-{}", station, line),
        station_unique_id: station.to_string(),
        platform_number: None,
        cardinal_direction: None,
        platform_naptan_code: None,
        platform_friendly_name: String::new(),
        is_customer_facing: true,
        has_service_interchange: false,
        station_name: station.to_string(),
        fare_zones: "1".to_string(),
        hub_naptan_code: None,
        wifi: false,
        outside_station_unique_id: String::new(),
        stop_area_naptan_code: String::new(),
        line: line.to_string(),
        direction_towards: None,
        platform_service_group_name: None,
    }
}

#[test]
fn platforms_are_grouped_by_line_sorted_and_deduplicated() {
    let platforms = vec![
        platform("HUBZ", "central"),
        platform("HUBA", "central"),
        platform("HUBX", "national-rail"),
        platform("HUBZ", "central"),
        platform("HUBQ", ""),
        platform("HUBB", "victoria"),
        platform("HUBA", "victoria"),
    ];
    let map = create_line_stations_map(&platforms);
    assert_eq!(map.len(), 2);
    assert_eq!(map[0].line, "central");
    assert_eq!(map[0].stations, vec!["HUBA".to_string(), "HUBZ".to_string()]);
    assert_eq!(map[1].line, "victoria");
    assert_eq!(map[1].stations, vec!["HUBA".to_string(), "HUBB".to_string()]);
    assert!(create_line_stations_map(&Vec::new()).is_empty());
    assert!(create_line_stations_map(&vec![platform("HUBX", "national-rail")]).is_empty());
}

#[test]
fn string_order_is_by_code_point() {
    let s = |x: &str| x.to_string();
    assert!(str_less(&s("abc"), &s("abd")));
    assert!(str_less(&s("ab"), &s("abc")));
    assert!(!str_less(&s("abc"), &s("abc")));
    assert!(str_less(&s("Z"), &s("a")));
    assert!(!str_less(&s("b"), &s("abc")));
}
