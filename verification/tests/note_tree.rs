use std::collections::HashMap;

use boox_note::error::NoteError;
use boox_note::id::{LayerId, NoteUuid, PenId};
use boox_note::json::Dimensions;
use boox_note::note_tree::json::{
    BackgroundConfig, BackgroundSettings, CanvasState, DeviceDimensions, DeviceInfo, DocBackground,
    LineStyle, PageNameList, PenLineStyle, PenSettings, QuickPenList, ViewPortPos, ZoomInfo,
};
use boox_note::note_tree::protobuf;
use boox_note::note_tree::{fix_pen_settings_json, NoteDocuments, NoteMetadata, NoteTree};
use boox_note::scalar::Scalar;
use boox_note::utils::Timestamp;

const N1: &str = "11111111111111111111111111111111";
const N2: &str = "22222222222222222222222222222222";

fn scalar(v: f32) -> Scalar {
    Scalar::from_bits(v.to_bits())
}

fn dimensions() -> Dimensions {
    Dimensions {
        top: scalar(0.0),
        right: scalar(1404.0),
        bottom: scalar(1872.0),
        left: scalar(0.0),
        empty: false,
        stability: 0,
    }
}

fn pen_settings() -> PenSettings {
    let style = PenLineStyle { line_style: LineStyle { phase: scalar(0.0), type_: 0 } };
    let mut widths = HashMap::new();
    widths.insert(1u8, scalar(0.5));
    widths.insert(2u8, scalar(1.0));
    PenSettings {
        fill_color: 0xFF00_0000,
        graphics_shape_color: 0xFFFF_0000,
        graphics_shape_type: 1,
        normal_pen_shape_type: 2,
        pen_line_style: style.clone(),
        pen_width_map: widths,
        quick_pen_list: QuickPenList { quick_pens: Vec::new(), selected_id: PenId::from_id(0) },
        shape_line_style: style,
    }
}

fn canvas_state() -> CanvasState {
    CanvasState {
        canvas_expand_type: "none".to_string(),
        cover_page_id: String::new(),
        default_page_rect: dimensions(),
        page_info_map: HashMap::new(),
        zoom_info: ZoomInfo {
            fit_to_screen: true,
            scale_type: 0,
            view_port_height: scalar(1872.0),
            view_port_pos: ViewPortPos {
                is_empty: true,
                pressure: scalar(0.0),
                size: scalar(0.0),
                tilt_x: 0,
                tilt_y: 0,
                timestamp: 0,
                x: scalar(0.0),
                y: scalar(0.0),
            },
            view_port_width: scalar(1404.0),
            viewport_scale: scalar(1.0),
        },
    }
}

fn background_config() -> BackgroundConfig {
    BackgroundConfig {
        background_config: BackgroundSettings {
            apply_all_page: false,
            as_default: false,
            canvas_auto_expand: false,
            scale_type: 0,
        },
        document_background: DocBackground {
            cloud: false,
            global: true,
            height: scalar(0.0),
            res_index: 0,
            type_: 0,
            visible: true,
            width: scalar(0.0),
        },
        page_backgrounds: HashMap::new(),
        use_document_background: true,
    }
}

fn device_info() -> DeviceInfo {
    DeviceInfo {
        device_name: "NoteAir".to_string(),
        size: DeviceDimensions { width: scalar(1404.0), height: scalar(1872.0) },
    }
}

fn pages(names: &[&str]) -> PageNameList {
    PageNameList { page_name_list: names.iter().map(|s| s.to_string()).collect() }
}

fn docs() -> NoteDocuments {
    NoteDocuments {
        pen_settings: Ok(pen_settings()),
        canvas_state: Ok(canvas_state()),
        background_config: Ok(background_config()),
        device_info: Ok(device_info()),
        active_pages: Ok(pages(&["first", "second"])),
        reserved_pages: Ok(pages(&[])),
        detached_pages: Ok(pages(&["third"])),
    }
}

fn json_error() -> serde_json::Error {
    serde_json::from_str::<u32>("nonsense").unwrap_err()
}

fn record(id: &str, name: &str) -> protobuf::NoteMetadata {
    protobuf::NoteMetadata {
        note_id: id.to_string(),
        created: 1_705_314_600_000,
        modified: 1_705_314_700_000,
        note_name: name.to_string(),
        flag: 3,
        pen_width: scalar(2.5),
        scale_factor: scalar(1.0),
        pen_settings_json: "{penWithMap:{1: 0.5}}".to_string(),
        canvas_state_json: "canvas".to_string(),
        background_config_json: "background".to_string(),
        device_info_json: "device".to_string(),
        fill_color: 0xFFFF_FFFF,
        pen_type: 5,
        active_pages_json: "active".to_string(),
        reserved_pages_json: "reserved".to_string(),
        canvas_width: scalar(1404.0),
        canvas_height: scalar(1872.0),
        location: "here".to_string(),
        has_share_section: 1,
        stroke_data_len: 2,
        has_share_user: 3,
        share_user: "user".to_string(),
        has_json7: 4,
        detached_pages_json: "detached".to_string(),
    }
}

#[test]
fn puts_bare_integer_keys_in_quotes() {
    assert_eq!(fix_pen_settings_json("{1: 0.5, 2: 1.0}"), "{\"1\": 0.5, \"2\": 1.0}");
    assert_eq!(fix_pen_settings_json("{12:3}"), "{\"12\":3}");
    assert_eq!(fix_pen_settings_json("{}"), "{}");
    assert_eq!(fix_pen_settings_json(""), "");
}

#[test]
fn leaves_quoted_keys_as_they_are() {
    assert_eq!(fix_pen_settings_json("{\"1\": 0.5, \"2\": 1.0}"), "{\"1\": 0.5, \"2\": 1.0}");
    assert_eq!(fix_pen_settings_json("{\"a\": 1, \"b\": [1, 2]}"), "{\"a\": 1, \"b\": [1, 2]}");
}

#[test]
fn the_fixed_pen_settings_decode_to_the_map() {
    let mut expected = HashMap::new();
    expected.insert(1u8, 0.5f32);
    expected.insert(2u8, 1.0f32);
    let bare: HashMap<u8, f32> =
        serde_json::from_str(&fix_pen_settings_json("{1: 0.5, 2: 1.0}")).unwrap();
    assert_eq!(bare, expected);
    let quoted: HashMap<u8, f32> =
        serde_json::from_str(&fix_pen_settings_json("{\"1\": 0.5, \"2\": 1.0}")).unwrap();
    assert_eq!(quoted, expected);
    assert!(serde_json::from_str::<HashMap<u8, f32>>("{1: 0.5, 2: 1.0}").is_err());
}

#[test]
fn decodes_the_record_of_a_note() {
    let note = NoteMetadata::from_protobuf(&record(N1, "Alpha"), docs()).unwrap();
    assert_eq!(note.note_id, NoteUuid::from_str(N1).unwrap());
    assert_eq!(note.created, Timestamp { millis: 1_705_314_600_000 });
    assert_eq!(note.modified, Timestamp { millis: 1_705_314_700_000 });
    assert_eq!(note.name, "Alpha");
    assert_eq!(note.flag, 3);
    assert_eq!(note.pen_width, scalar(2.5));
    assert_eq!(note.scale_factor, scalar(1.0));
    assert_eq!(note.pen_settings, pen_settings());
    assert_eq!(note.canvas_state, canvas_state());
    assert_eq!(note.background_config, background_config());
    assert_eq!(note.device_info, device_info());
    assert_eq!(note.fill_color, 0xFFFF_FFFF);
    assert_eq!(note.pen_type, 5);
    assert_eq!(note.active_pages, pages(&["first", "second"]));
    assert_eq!(note.reserved_pages, pages(&[]));
    assert_eq!(note.detached_pages, pages(&["third"]));
    assert_eq!(note.canvas_width, scalar(1404.0));
    assert_eq!(note.canvas_height, scalar(1872.0));
    assert_eq!(note.location, "here");
    assert_eq!(note.has_share_section, 1);
    assert_eq!(note.stroke_data_len, 2);
    assert_eq!(note.has_share_user, 3);
    assert_eq!(note.share_user, "user");
    assert_eq!(note.pen_settings.pen_width_map[&1], scalar(0.5));
    assert_eq!(note.pen_settings.quick_pen_list.selected_id, PenId::Id(0));
    assert_eq!(LayerId::new(1), LayerId(1));
}

#[test]
fn rejects_a_bad_note_id_first() {
    let mut r = record("not an id", "Alpha");
    r.created = i64::MAX as u64;
    let mut d = docs();
    d.pen_settings = Err(json_error());
    assert!(matches!(NoteMetadata::from_protobuf(&r, d), Err(NoteError::UuidParse(_))));
}

#[test]
fn rejects_a_bad_timestamp_with_its_number() {
    let mut r = record(N1, "Alpha");
    r.created = i64::MAX as u64;
    r.modified = i64::MAX as u64 - 1;
    assert!(matches!(
        NoteMetadata::from_protobuf(&r, docs()),
        Err(NoteError::InvalidTimestamp(v)) if v == i64::MAX as u64
    ));
    let mut r = record(N1, "Alpha");
    r.modified = i64::MAX as u64 - 1;
    let mut d = docs();
    d.pen_settings = Err(json_error());
    assert!(matches!(
        NoteMetadata::from_protobuf(&r, d),
        Err(NoteError::InvalidTimestamp(v)) if v == i64::MAX as u64 - 1
    ));
}

fn json_text(result: Result<NoteMetadata, NoteError>) -> String {
    match result {
        Err(NoteError::Json { json_string, .. }) => json_string,
        other => panic!("unexpected {:?}", other),
    }
}

#[test]
fn rejects_the_pen_settings_with_the_fixed_text() {
    let mut d = docs();
    d.pen_settings = Err(json_error());
    d.canvas_state = Err(json_error());
    let text = json_text(NoteMetadata::from_protobuf(&record(N1, "Alpha"), d));
    assert_eq!(text, "{penWithMap:{\"1\": 0.5}}");
}

#[test]
fn rejects_each_document_with_its_text_in_the_order_of_the_record() {
    let r = record(N1, "Alpha");
    let mut d = docs();
    d.canvas_state = Err(json_error());
    d.background_config = Err(json_error());
    assert_eq!(json_text(NoteMetadata::from_protobuf(&r, d)), "canvas");
    let mut d = docs();
    d.background_config = Err(json_error());
    d.device_info = Err(json_error());
    assert_eq!(json_text(NoteMetadata::from_protobuf(&r, d)), "background");
    let mut d = docs();
    d.device_info = Err(json_error());
    d.active_pages = Err(json_error());
    assert_eq!(json_text(NoteMetadata::from_protobuf(&r, d)), "device");
    let mut d = docs();
    d.active_pages = Err(json_error());
    d.reserved_pages = Err(json_error());
    assert_eq!(json_text(NoteMetadata::from_protobuf(&r, d)), "active");
    let mut d = docs();
    d.reserved_pages = Err(json_error());
    d.detached_pages = Err(json_error());
    assert_eq!(json_text(NoteMetadata::from_protobuf(&r, d)), "reserved");
    let mut d = docs();
    d.detached_pages = Err(json_error());
    assert_eq!(json_text(NoteMetadata::from_protobuf(&r, d)), "detached");
}

#[test]
fn decodes_the_notes_of_a_tree_in_order() {
    let tree =
        NoteTree::read(vec![(record(N1, "Alpha"), docs()), (record(N2, "Beta"), docs())]).unwrap();
    assert_eq!(tree.notes.len(), 2);
    assert_eq!(tree.notes[0].name, "Alpha");
    assert_eq!(tree.notes[1].name, "Beta");
    assert_eq!(NoteTree::read(Vec::new()).unwrap().notes.len(), 0);
}

#[test]
fn the_first_rejected_note_decides() {
    let mut first = docs();
    first.device_info = Err(json_error());
    let result = NoteTree::read(vec![
        (record(N1, "Alpha"), docs()),
        (record(N2, "Beta"), first),
        (record("bad id", "Gamma"), docs()),
    ]);
    assert!(matches!(result, Err(NoteError::Json { json_string, .. }) if json_string == "device"));
}

#[test]
fn finds_a_note_by_its_id() {
    let tree = NoteTree::read(vec![
        (record(N1, "Alpha"), docs()),
        (record(N2, "Beta"), docs()),
        (record(N1, "Alpha again"), docs()),
    ])
    .unwrap();
    assert_eq!(tree.get(&NoteUuid::from_str(N1).unwrap()).unwrap().name, "Alpha again");
    assert_eq!(tree.get(&NoteUuid::from_str(N2).unwrap()).unwrap().name, "Beta");
    assert!(tree.get(&NoteUuid::new(3)).is_none());
}
