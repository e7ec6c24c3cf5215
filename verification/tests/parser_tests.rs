//! The backend output parsers: field extractors and per-backend listings.

use deskcap::extract::{
    extract_json_bool, extract_json_bool_field, extract_json_hex_value, extract_json_number,
    extract_json_position, extract_json_size, extract_json_string,
};
use deskcap::window_backends::{
    extract_gnome_dimensions, extract_gvariant_dimension, extract_gvariant_number,
    extract_gvariant_string, find_object_end, find_object_start, parse_gnome_introspect_output,
    parse_hyprland_client_object, parse_hyprland_json, parse_kde_dbus_output, parse_kdotool_ids,
    parse_sway_node, parse_sway_rect, parse_sway_tree, split_objects,
};

#[test]
fn test_parse_hyprland_json() {
    let json = r#"[
        {
            "address": "0x12345678",
            "mapped": true,
            "hidden": false,
            "at": [100, 200],
            "size": [800, 600],
            "workspace": {"id": 1, "name": "1"},
            "floating": false,
            "monitor": 0,
            "class": "firefox",
            "title": "Mozilla Firefox",
            "initialClass": "firefox",
            "initialTitle": "Mozilla Firefox",
            "pid": 1234,
            "xwayland": false,
            "pinned": false,
            "fullscreen": false,
            "fullscreenMode": 0,
            "fakeFullscreen": false,
            "grouped": [],
            "swallowing": "0x0",
            "focusHistoryID": 0
        }
    ]"#;

    let result = parse_hyprland_json(json);
    assert!(result.is_ok());
    let windows = result.unwrap();
    assert_eq!(windows.len(), 1);
    assert_eq!(windows[0].title, "Mozilla Firefox");
    assert_eq!(windows[0].app_name, "firefox");
    assert_eq!(windows[0].pid, 1234);
}

#[test]
fn test_parse_hyprland_sample_exact() {
    // The literal one-line sample, checked field by field
    let json = r#"[{"address":"0x12345678","pid":1234,"class":"firefox","title":"Mozilla Firefox","at":[100,200],"size":[800,600],"hidden":false,"fullscreen":false,"focusHistoryID":0}]"#;
    let windows = parse_hyprland_json(json).unwrap();
    assert_eq!(windows.len(), 1);
    let w = &windows[0];
    assert_eq!(w.id, 305419896);
    assert_eq!(w.pid, 1234);
    assert_eq!(w.app_name, "firefox");
    assert_eq!(w.title, "Mozilla Firefox");
    assert_eq!(w.x, 100);
    assert_eq!(w.y, 200);
    assert_eq!(w.width, 800);
    assert_eq!(w.height, 600);
    assert!(!w.is_minimized);
    assert!(!w.is_maximized);
    assert!(w.is_focused);
}

#[test]
fn test_parse_hyprland_json_rejects_non_array() {
    let r = parse_hyprland_json("{\"not\": \"an array\"}");
    assert!(matches!(
        r,
        Err(deskcap::window::WindowCaptureError::EnumerationFailed(_))
    ));
}

#[test]
fn test_parse_hyprland_client_object_requires_address() {
    assert!(parse_hyprland_client_object("{\"pid\": 5}").is_none());
}

#[test]
fn test_extract_json_string_cases() {
    let obj = r#"{"title": "hello \"there\"", "empty": ""}"#;
    assert_eq!(extract_json_string(obj, "title"), Some("hello \\\"there\\\"".to_string()));
    assert_eq!(extract_json_string(obj, "empty"), Some("".to_string()));
    assert_eq!(extract_json_string(obj, "missing"), None);
    assert_eq!(extract_json_string("{\"k\": 5}", "k"), None);
}

#[test]
fn test_extract_json_number_cases() {
    assert_eq!(extract_json_number("{\"pid\": 1234}", "pid"), Some(1234));
    assert_eq!(extract_json_number("{\"pid\":0}", "pid"), Some(0));
    assert_eq!(extract_json_number("{\"pid\": -3}", "pid"), None);
    assert_eq!(extract_json_number("{\"pid\": 99999999999}", "pid"), None);
    assert_eq!(extract_json_number("{\"pid\": \"x\"}", "pid"), None);
    assert_eq!(extract_json_number("{}", "pid"), None);
}

#[test]
fn test_extract_json_bool_cases() {
    assert_eq!(extract_json_bool("{\"focusHistoryID\": 0}", "focusHistoryID"), Some(0));
    assert_eq!(extract_json_bool("{\"focusHistoryID\": -2}", "focusHistoryID"), Some(-2));
    assert_eq!(extract_json_bool("{\"x\": yes}", "x"), None);
    assert_eq!(extract_json_bool("{}", "x"), None);
}

#[test]
fn test_extract_json_bool_field_cases() {
    assert_eq!(extract_json_bool_field("{\"hidden\": true}", "hidden"), Some(true));
    assert_eq!(extract_json_bool_field("{\"hidden\":false}", "hidden"), Some(false));
    assert_eq!(extract_json_bool_field("{\"hidden\": 1}", "hidden"), None);
    assert_eq!(extract_json_bool_field("{}", "hidden"), None);
}

#[test]
fn test_extract_json_pairs() {
    assert_eq!(extract_json_position("{\"at\": [100, 200]}", "at"), Some((100, 200)));
    assert_eq!(extract_json_position("{\"at\": [-5,7]}", "at"), Some((-5, 7)));
    assert_eq!(extract_json_position("{\"at\": [1]}", "at"), None);
    assert_eq!(extract_json_position("{\"at\": 3}", "at"), None);
    assert_eq!(extract_json_position("{}", "at"), None);
    assert_eq!(extract_json_size("{\"size\": [800, 600]}", "size"), Some((800, 600)));
    assert_eq!(extract_json_size("{\"size\": [-1, 600]}", "size"), None);
}

#[test]
fn test_extract_json_hex_value_is_raw() {
    let obj = "{\"address\": \"0xdeadBEEF\"}";
    assert_eq!(extract_json_hex_value(obj, "address"), Some("0xdeadBEEF".to_string()));
}

#[test]
fn test_hyprland_ids_from_hex() {
    let w = parse_hyprland_client_object("{\"address\":\"0x1A\"}").unwrap();
    assert_eq!(w.id, 26);
    // value too wide for 32 bits: falls back to 0
    let w = parse_hyprland_client_object("{\"address\":\"0x1122334455\"}").unwrap();
    assert_eq!(w.id, 0);
    // not hex at all: falls back to 0
    let w = parse_hyprland_client_object("{\"address\":\"zz\"}").unwrap();
    assert_eq!(w.id, 0);
}

#[test]
fn test_split_objects_counts_top_level() {
    let chars: Vec<char> = "{\"a\":1}, {\"b\":{\"nested\":2}}, {\"c\":\"}{\"}".chars().collect();
    let ranges = split_objects(&chars);
    // three top-level objects: nesting and braces inside strings do not split
    assert_eq!(ranges.len(), 3);
    let texts: Vec<String> = ranges
        .iter()
        .map(|&(a, b)| chars[a..b].iter().collect::<String>())
        .collect();
    assert_eq!(texts[0], "{\"a\":1}");
    assert_eq!(texts[1], "{\"b\":{\"nested\":2}}");
    assert_eq!(texts[2], "{\"c\":\"}{\"}");
}

#[test]
fn test_find_object_boundaries() {
    let json = "{\"outer\": {\"pid\": 5}}";
    // position of "pid" key: the enclosing object is the inner one
    let pos = json.find("\"pid\"").unwrap();
    let start = find_object_start(json, pos).unwrap();
    assert_eq!(start, 10);
    let end = find_object_end(json, start).unwrap();
    assert_eq!(&json[start..=end], "{\"pid\": 5}");
    assert_eq!(find_object_start(json, 0), None);
    assert_eq!(find_object_end("{never closes", 0), None);
}

#[test]
fn test_parse_sway_rect() {
    let obj = "{\"rect\": {\"x\": 10, \"y\": 20, \"width\": 300, \"height\": 400}}";
    assert_eq!(parse_sway_rect(obj), Some((10, 20, 300, 400)));
    assert_eq!(parse_sway_rect("{\"norect\": 1}"), None);
}

#[test]
fn test_parse_sway_node() {
    let obj = "{\"id\": 7, \"pid\": 42, \"name\": \"shell\", \"app_id\": \"foot\", \
               \"rect\": {\"x\": 1, \"y\": 2, \"width\": 30, \"height\": 40}, \
               \"focused\": true}";
    let w = parse_sway_node(obj).unwrap();
    assert_eq!(w.id, 7);
    assert_eq!(w.pid, 42);
    assert_eq!(w.title, "shell");
    assert_eq!(w.app_name, "foot");
    assert_eq!((w.x, w.y, w.width, w.height), (1, 2, 30, 40));
    assert!(w.is_focused);
    assert!(parse_sway_node("{\"pid\": 42}").is_none());
}

#[test]
fn test_parse_sway_node_fullscreen_flag() {
    // The maximized flag reflects the boolean's value, not its presence
    let fullscreen = "{\"id\": 1, \"fullscreen_mode\": true}";
    assert!(parse_sway_node(fullscreen).unwrap().is_maximized);
    let windowed = "{\"id\": 2, \"fullscreen_mode\": false}";
    assert!(!parse_sway_node(windowed).unwrap().is_maximized);
    let absent = "{\"id\": 3}";
    assert!(!parse_sway_node(absent).unwrap().is_maximized);
}

#[test]
fn test_parse_sway_tree_walks_and_dedupes() {
    let tree = "{\"nodes\": [\
        {\"id\": 1, \"pid\": 10, \"app_id\": \"foot\", \"name\": \"a\", \
         \"rect\": {\"x\":0,\"y\":0,\"width\":10,\"height\":10}},\
        {\"id\": 2, \"pid\": 11, \"name\": \"container without app id\"},\
        {\"id\": 1, \"pid\": 10, \"app_id\": \"foot\", \"name\": \"a\", \
         \"rect\": {\"x\":0,\"y\":0,\"width\":10,\"height\":10}}\
    ]}";
    let ws = parse_sway_tree(tree).unwrap();
    // the container (no app_id/window_properties) is skipped; the duplicate id is dropped
    assert_eq!(ws.len(), 1);
    assert_eq!(ws[0].id, 1);
    assert_eq!(ws[0].app_name, "foot");
}

#[test]
fn test_extract_gvariant_values() {
    let dump = "({'wm-class': <'firefox'>, 'title': <'Browsing'>, 'pid': 4242 , \
                'width': 1920, 'height': 1080},)";
    assert_eq!(
        extract_gvariant_string(dump, "'wm-class':"),
        Some("firefox".to_string())
    );
    assert_eq!(extract_gvariant_string(dump, "'title':"), Some("Browsing".to_string()));
    assert_eq!(extract_gvariant_string(dump, "'missing':"), None);
    assert_eq!(extract_gvariant_number(dump), Some(4242));
    assert_eq!(extract_gvariant_number("no pid here"), None);
    // a number run into by punctuation is not a whitespace-delimited digit token
    assert_eq!(extract_gvariant_number("'pid': <uint32 4242>"), None);
    assert_eq!(extract_gvariant_number("'pid': 4242,"), None);
    assert_eq!(extract_gnome_dimensions(dump), Some((1920, 1080)));
    assert_eq!(extract_gnome_dimensions("'width': 0, 'height': 5"), None);
    assert_eq!(extract_gvariant_dimension("'width': 640, more"), Some(640));
}

#[test]
fn test_parse_gnome_introspect_output() {
    let dump = "({'org.gnome.Nautilus': {'wm-class': <'nautilus'>, 'title': <'Files'>, \
                'pid': 77 , 'width': 800, 'height': 600}},)";
    let ws = parse_gnome_introspect_output(dump).unwrap();
    assert_eq!(ws.len(), 1);
    assert_eq!(ws[0].id, 1);
    assert_eq!(ws[0].app_name, "nautilus");
    assert_eq!(ws[0].title, "Files");
    assert_eq!(ws[0].pid, 77);
    assert_eq!((ws[0].width, ws[0].height), (800, 600));
    assert_eq!(parse_gnome_introspect_output("nothing").unwrap().len(), 0);
}

#[test]
fn test_parse_kdotool_ids() {
    let ids = parse_kdotool_ids("101\n  202 \nnot-a-number\n303");
    assert_eq!(ids, vec![101, 202, 303]);
    assert_eq!(parse_kdotool_ids(""), Vec::<u32>::new());
}

#[test]
fn test_parse_kde_dbus_output_is_placeholder() {
    // The KWin D-Bus format is not parsed: every input falls through
    assert!(parse_kde_dbus_output("anything at all").is_none());
}
