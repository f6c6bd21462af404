use std::collections::HashMap;
use std::io::Write;

use boox_note::container::{nested_record, Container, ContainerType};
use boox_note::error::NoteError;
use boox_note::id::{
    LayerId, NoteUuid, PageModelUuid, PageUuid, PenId, PointsUuid, ShapeGroupUuid, StrokeUuid,
    VirtualPageUuid,
};
use boox_note::json::{Dimensions, Layer};
use boox_note::note_tree::json::{
    BackgroundConfig, BackgroundSettings, CanvasState, DeviceDimensions, DeviceInfo, DocBackground,
    LineStyle, PageNameList, PenLineStyle, PenSettings, QuickPenList, ViewPortPos, ZoomInfo,
};
use boox_note::note_tree::{NoteDocuments, NoteTree};
use boox_note::page_model::{PageModel, PageModelGroup};
use boox_note::page_model::json::PageModelLayers;
use boox_note::page_model::PageModelDocuments;
use boox_note::scalar::Scalar;
use boox_note::shape::json::DisplayScale;
use boox_note::shape::{ShapeDocuments, ShapeGroup};
use boox_note::utils::Timestamp;
use boox_note::virtual_doc::json::Content;
use boox_note::virtual_doc::VirtualDoc;
use boox_note::virtual_page::{VirtualPage, VirtualPageDocuments};
use boox_note::NoteFile;

const N1: u128 = 0x11111111_1111_1111_1111_111111111111;
const N2: u128 = 0x22222222_2222_2222_2222_222222222222;
const PAGE_A: u128 = 0xa1;
const PAGE_B: u128 = 0xa2;
const VP1: u128 = 0xb1;
const VP2: u128 = 0xb2;
const PM1: u128 = 0xc1;
const SG1: u128 = 0xd1;
const SG2: u128 = 0xd2;
const PT1: u128 = 0xe1;
const PT2: u128 = 0xe2;
const S1: u128 = 0xf1;
const S2: u128 = 0xf2;
const S3: u128 = 0xf3;

fn simple(value: u128) -> String {
    NoteUuid::new(value).to_simple_string()
}

fn scalar(v: f32) -> Scalar {
    Scalar::from_bits(v.to_bits())
}

fn dimensions(right: f32, bottom: f32) -> Dimensions {
    Dimensions {
        top: scalar(0.0),
        right: scalar(right),
        bottom: scalar(bottom),
        left: scalar(0.0),
        empty: false,
        stability: 0,
    }
}

fn archive(entries: &[(String, Vec<u8>)]) -> Vec<u8> {
    let mut writer = zip::ZipWriter::new(std::io::Cursor::new(Vec::new()));
    let options = zip::write::SimpleFileOptions::default()
        .compression_method(zip::CompressionMethod::Stored);
    for (name, data) in entries {
        if name.ends_with('/') {
            writer.add_directory(name.as_str(), options).unwrap();
        } else {
            writer.start_file(name.as_str(), options).unwrap();
            writer.write_all(data).unwrap();
        }
    }
    writer.finish().unwrap().into_inner()
}

fn points_bytes(page: u128, id: u128, strokes: &[(u128, Vec<(f32, f32)>)]) -> Vec<u8> {
    let mut out = Vec::new();
    out.extend_from_slice(&1u32.to_be_bytes());
    out.extend_from_slice(format!("{:<36}", simple(page)).as_bytes());
    out.extend_from_slice(PointsUuid::new(id).to_hyphenated_string().as_bytes());
    let mut table = Vec::new();
    for (stroke, points) in strokes {
        let start = out.len() as u32;
        for (i, (x, y)) in points.iter().enumerate() {
            out.extend_from_slice(&(i as u32 * 10).to_be_bytes());
            out.extend_from_slice(&x.to_bits().to_be_bytes());
            out.extend_from_slice(&y.to_bits().to_be_bytes());
            out.extend_from_slice(&[0, 0]);
            out.extend_from_slice(&512u16.to_be_bytes());
        }
        table.extend_from_slice(StrokeUuid::new(*stroke).to_hyphenated_string().as_bytes());
        table.extend_from_slice(&start.to_be_bytes());
        table.extend_from_slice(&((points.len() as u32) << 4).to_be_bytes());
    }
    let table_start = out.len() as u32;
    out.extend_from_slice(&table);
    out.extend_from_slice(&table_start.to_be_bytes());
    out
}

fn fixture() -> Vec<u8> {
    let n1 = simple(N1);
    let page_a = simple(PAGE_A);
    let nested = |content: &[u8]| archive(&[("shapes".to_string(), content.to_vec())]);
    archive(&[
        ("root/".to_string(), Vec::new()),
        ("root/note_tree".to_string(), b"tree-bytes".to_vec()),
        (format!("root/{n1}/virtual/doc/pb/{n1}"), b"doc".to_vec()),
        (format!("root/{n1}/virtual/page/pb/{}", simple(VP1)), b"vp1".to_vec()),
        (format!("root/{n1}/virtual/page/pb/{}", simple(VP2)), b"vp2".to_vec()),
        (format!("root/{n1}/pageModel/pb/{}", simple(PM1)), b"pm1".to_vec()),
        (format!("root/{n1}/shape/{page_a}#{}#1700000000001.zip", simple(SG1)), nested(b"sg1")),
        (format!("root/{n1}/shape/{page_a}#{}#1700000000002.zip", simple(SG2)), nested(b"sg2")),
        (format!("root/{n1}/shape/{}#{}#1700000000003.zip", simple(PAGE_B), simple(SG1)), nested(b"x")),
        (
            format!("root/{n1}/point/{page_a}/{page_a}#{}#1700000000001.points", simple(PT1)),
            points_bytes(PAGE_A, PT1, &[(S1, vec![(10.0, 10.0), (90.0, 90.0)])]),
        ),
        (
            format!("root/{n1}/point/{page_a}/{page_a}#{}#1700000000002.points", simple(PT2)),
            points_bytes(PAGE_A, PT2, &[(S2, vec![(1.0, 2.0)]), (S3, vec![(3.0, 4.0)])]),
        ),
        (
            format!("root/{n1}/point/{page_a}/{page_a}#{}#1700000000003.points", simple(PT1)),
            points_bytes(PAGE_A, PT1, &[(S1, vec![(5.0, 5.0)])]),
        ),
    ])
}

fn note_docs() -> NoteDocuments {
    let style = PenLineStyle { line_style: LineStyle { phase: scalar(0.0), type_: 0 } };
    NoteDocuments {
        pen_settings: Ok(PenSettings {
            fill_color: 0xFF11_2233,
            graphics_shape_color: 0xFF44_5566,
            graphics_shape_type: 0,
            normal_pen_shape_type: 0,
            pen_line_style: style.clone(),
            pen_width_map: HashMap::new(),
            quick_pen_list: QuickPenList { quick_pens: Vec::new(), selected_id: PenId::from_id(1) },
            shape_line_style: style,
        }),
        canvas_state: Ok(CanvasState {
            canvas_expand_type: String::new(),
            cover_page_id: String::new(),
            default_page_rect: dimensions(1404.0, 1872.0),
            page_info_map: HashMap::new(),
            zoom_info: ZoomInfo {
                fit_to_screen: false,
                scale_type: 0,
                view_port_height: scalar(0.0),
                view_port_pos: ViewPortPos {
                    is_empty: true,
                    pressure: scalar(0.0),
                    size: scalar(0.0),
                    tilt_x: 0,
                    tilt_y: 0,
                    timestamp: 0,
                    x: scalar(0.0),
                    y: scalar(0.0),
                },
                view_port_width: scalar(0.0),
                viewport_scale: scalar(1.0),
            },
        }),
        background_config: Ok(BackgroundConfig {
            background_config: BackgroundSettings {
                apply_all_page: false,
                as_default: false,
                canvas_auto_expand: false,
                scale_type: 0,
            },
            document_background: DocBackground {
                cloud: false,
                global: false,
                height: scalar(0.0),
                res_index: 0,
                type_: 0,
                visible: false,
                width: scalar(0.0),
            },
            page_backgrounds: HashMap::new(),
            use_document_background: false,
        }),
        device_info: Ok(DeviceInfo {
            device_name: String::new(),
            size: DeviceDimensions { width: scalar(0.0), height: scalar(0.0) },
        }),
        active_pages: Ok(PageNameList { page_name_list: vec![simple(PAGE_A)] }),
        reserved_pages: Ok(PageNameList { page_name_list: vec![simple(PAGE_B)] }),
        detached_pages: Ok(PageNameList { page_name_list: Vec::new() }),
    }
}

fn note_record(id: u128, name: &str) -> boox_note::note_tree::protobuf::NoteMetadata {
    boox_note::note_tree::protobuf::NoteMetadata {
        note_id: simple(id),
        created: 1_705_314_600_000,
        modified: 1_705_314_600_500,
        note_name: name.to_string(),
        flag: 9,
        pen_width: scalar(2.0),
        scale_factor: scalar(1.5),
        pen_settings_json: String::new(),
        canvas_state_json: String::new(),
        background_config_json: String::new(),
        device_info_json: String::new(),
        fill_color: 0xFFAB_CDEF,
        pen_type: 4,
        active_pages_json: String::new(),
        reserved_pages_json: String::new(),
        canvas_width: scalar(0.0),
        canvas_height: scalar(0.0),
        location: String::new(),
        has_share_section: 0,
        stroke_data_len: 0,
        has_share_user: 0,
        share_user: String::new(),
        has_json7: 0,
        detached_pages_json: String::new(),
    }
}

fn tree() -> NoteTree {
    NoteTree::read(vec![(note_record(N1, "Alpha"), note_docs()), (note_record(N2, "Beta"), note_docs())])
        .unwrap()
}

fn opened() -> NoteFile {
    let mut container = Container::open(fixture()).unwrap();
    assert_eq!(NoteFile::note_tree_bytes(&mut container).unwrap(), b"tree-bytes".to_vec());
    NoteFile::new(container, tree())
}

fn virtual_page(page: u128) -> VirtualPage {
    VirtualPage::read(
        boox_note::virtual_page::protobuf::VirtualPageContainer {
            virtual_page: boox_note::virtual_page::protobuf::VirtualPage {
                uuid: simple(page),
                created: 1,
                modified: 2,
                zoom_scale: scalar(1.0),
                dimensions_json: String::new(),
                layout_json: String::new(),
                geo_json: String::new(),
                geo_layout: String::new(),
                template_path: String::new(),
                page_number: "1".to_string(),
            },
        },
        VirtualPageDocuments {
            dimensions: Ok(dimensions(1404.0, 1872.0)),
            layout: Ok(dimensions(0.0, 0.0)),
            geo: Ok(dimensions(0.0, 0.0)),
        },
    )
    .unwrap()
}

fn page_model(page: u128, right: f32, bottom: f32) -> PageModel {
    PageModel::from_protobuf(
        &boox_note::page_model::protobuf::PageModel {
            page_uuid: simple(page),
            layers_json: String::new(),
            created: 1,
            modified: 2,
            dimensions_json: String::new(),
        },
        PageModelDocuments {
            layers: Ok(PageModelLayers {
                layer_list: vec![Layer { id: LayerId::new(0), lock: false, show: true }],
            }),
            dimensions: Ok(dimensions(right, bottom)),
        },
    )
    .unwrap()
}

fn shape_group(shapes: &[(u128, Option<u128>, i64)]) -> ShapeGroup {
    let records = shapes
        .iter()
        .map(|(stroke, points, z_order)| {
            (
                boox_note::shape::protobuf::Shape {
                    stroke_uuid: simple(*stroke),
                    created: 1,
                    modified: 2,
                    unknown: 0,
                    stroke_width: scalar(1.0),
                    bbox_json: String::new(),
                    render_scale_json: String::new(),
                    z_order: *z_order,
                    points_uuid: points.map(simple).unwrap_or_default(),
                    line_style_json: String::new(),
                    shape_group_uuid: simple(SG1),
                    empty_array_json: String::new(),
                },
                ShapeDocuments {
                    bbox: Ok(dimensions(0.0, 0.0)),
                    render_scale: Ok(DisplayScale {
                        display_scale: scalar(1.0),
                        max_pressure: scalar(1.0),
                        revised_display_scale: scalar(1.0),
                        source: 0,
                    }),
                    line_style: serde_json::from_str::<u8>("x").map(|_| unreachable!()),
                },
            )
        })
        .collect();
    ShapeGroup::read(records).unwrap()
}

#[test]
fn an_archive_without_entries_cannot_be_opened() {
    assert!(matches!(Container::open(archive(&[])), Err(NoteError::InvalidContainerFormat)));
}

#[test]
fn an_archive_of_an_empty_directory_has_no_note_tree() {
    let mut container = Container::open(archive(&[("empty/".to_string(), Vec::new())])).unwrap();
    assert_eq!(*container.container_type(), ContainerType::SingleNote);
    assert!(matches!(
        NoteFile::note_tree_bytes(&mut container),
        Err(NoteError::InvalidContainerFormat)
    ));
}

#[test]
fn reads_the_note_tree_of_a_container_of_one_note() {
    let data = archive(&[
        ("single/note/pb/note_info".to_string(), b"info".to_vec()),
        ("note_tree".to_string(), b"not this".to_vec()),
    ]);
    let mut container = Container::open(data).unwrap();
    assert_eq!(*container.container_type(), ContainerType::SingleNote);
    assert_eq!(NoteFile::note_tree_bytes(&mut container).unwrap(), b"info".to_vec());
}

#[test]
fn lists_the_notes_by_id() {
    let file = opened();
    assert_eq!(*file.container_type(), ContainerType::MultiNote);
    let notes = file.list_notes();
    assert_eq!(notes.len(), 2);
    assert_eq!(notes[&N1], "Alpha");
    assert_eq!(notes[&N2], "Beta");
}

#[test]
fn of_two_notes_with_one_id_the_later_one_is_listed() {
    let container = Container::open(fixture()).unwrap();
    let tree = NoteTree::read(vec![
        (note_record(N1, "Alpha"), note_docs()),
        (note_record(N1, "Omega"), note_docs()),
    ])
    .unwrap();
    let file = NoteFile::new(container, tree);
    let notes = file.list_notes();
    assert_eq!(notes.len(), 1);
    assert_eq!(notes[&N1], "Omega");
    assert_eq!(file.get_note(&NoteUuid::new(N1)).unwrap().name(), "Omega");
}

#[test]
fn gets_a_note_with_its_metadata() {
    let file = opened();
    let note = file.get_note(&NoteUuid::new(N1)).unwrap();
    assert_eq!(note.name(), "Alpha");
    assert_eq!(note.created(), Timestamp { millis: 1_705_314_600_000 });
    let created =
        chrono::DateTime::<chrono::Utc>::from_timestamp_millis(note.created().to_millis()).unwrap();
    assert_eq!(created.to_rfc3339(), "2024-01-15T10:30:00+00:00");
    assert_eq!(note.modified(), Timestamp { millis: 1_705_314_600_500 });
    assert_eq!(note.flag(), 9);
    assert_eq!(note.pen_width(), scalar(2.0));
    assert_eq!(note.scale_factor(), scalar(1.5));
    assert_eq!(*note.fill_color(), 0xFFAB_CDEF);
    assert_eq!(*note.pen_type(), 4);
    assert_eq!(*note.pen_settings_fill_color(), 0xFF11_2233);
    assert_eq!(*note.pen_settings_graphics_shape_color(), 0xFF44_5566);
    assert_eq!(*note.active_pages(), vec![simple(PAGE_A)]);
    assert_eq!(*note.reserved_pages(), vec![simple(PAGE_B)]);
    assert!(note.detached_pages().is_empty());
    assert!(note.virtual_doc().is_none());
    assert!(note.virtual_pages().is_none());
    assert!(note.page_models().is_none());
    assert!(file.get_note(&NoteUuid::new(3)).is_none());
    assert_eq!(file.get_note(&NoteUuid::new(N2)).unwrap().name(), "Beta");
}

#[test]
fn hands_out_the_record_of_the_virtual_document() {
    let file = opened();
    let mut note = file.get_note(&NoteUuid::new(N1)).unwrap();
    assert_eq!(note.virtual_doc_bytes().unwrap(), b"doc".to_vec());
    let doc = VirtualDoc::read(
        boox_note::virtual_doc::protobuf::VirtualDoc {
            virtual_doc_uuid: simple(7),
            created: 1,
            modified: 2,
            template_uuid: simple(PAGE_A),
            stability: scalar(0.0),
            content_json: String::new(),
        },
        Ok(Content {
            content_id: String::new(),
            content_page_id: String::new(),
            content_page_size: dimensions(1.0, 1.0),
            content_relative_path: String::new(),
            content_type: String::new(),
        }),
    )
    .unwrap();
    note.set_virtual_doc(doc.clone());
    assert_eq!(note.virtual_doc(), Some(&doc));
    let mut other = file.get_note(&NoteUuid::new(N2)).unwrap();
    assert!(matches!(other.virtual_doc_bytes(), Err(NoteError::Zip(_))));
    assert!(other.virtual_doc().is_none());
}

#[test]
fn hands_out_the_records_of_the_virtual_pages_and_page_models() {
    let file = opened();
    let mut note = file.get_note(&NoteUuid::new(N1)).unwrap();
    assert_eq!(
        note.virtual_page_files().unwrap(),
        vec![(VP1, b"vp1".to_vec()), (VP2, b"vp2".to_vec())]
    );
    assert_eq!(note.page_model_files().unwrap(), vec![(PM1, b"pm1".to_vec())]);
    let mut other = file.get_note(&NoteUuid::new(N2)).unwrap();
    assert_eq!(other.virtual_page_files().unwrap(), Vec::new());
    assert_eq!(other.page_model_files().unwrap(), Vec::new());
}

#[test]
fn a_file_name_that_is_no_id_is_rejected() {
    let n1 = simple(N1);
    let data = archive(&[
        ("root/note_tree".to_string(), Vec::new()),
        (format!("root/{n1}/virtual/page/pb/{}", simple(VP1)), b"vp1".to_vec()),
        (format!("root/{n1}/virtual/page/pb/readme"), b"?".to_vec()),
        (format!("root/{n1}/pageModel/pb/"), Vec::new()),
        (format!("root/{n1}/pageModel/pbx"), Vec::new()),
    ]);
    let file = NoteFile::new(Container::open(data).unwrap(), tree());
    let mut note = file.get_note(&NoteUuid::new(N1)).unwrap();
    assert!(matches!(note.virtual_page_files(), Err(NoteError::UuidParse(_))));
    assert_eq!(note.page_model_files().unwrap(), Vec::new());
}

#[test]
fn only_what_lies_in_the_directory_of_the_records_is_listed() {
    let n1 = simple(N1);
    let data = archive(&[
        ("root/note_tree".to_string(), Vec::new()),
        (format!("root/{n1}/virtual/page/pb/{}", simple(VP1)), b"vp1".to_vec()),
        (format!("root/{n1}/virtual/page/pbx/{}", simple(VP2)), b"vp2".to_vec()),
        (format!("root/{n1}/virtual/page/pb"), b"?".to_vec()),
        (format!("root/{n1}/pageModel/pb/sub/{}", simple(PM1)), b"pm1".to_vec()),
    ]);
    let file = NoteFile::new(Container::open(data).unwrap(), tree());
    let mut note = file.get_note(&NoteUuid::new(N1)).unwrap();
    assert_eq!(note.virtual_page_files().unwrap(), vec![(VP1, b"vp1".to_vec())]);
    assert_eq!(note.page_model_files().unwrap(), vec![(PM1, b"pm1".to_vec())]);
}

fn loaded_note(file: &NoteFile) -> boox_note::note::Note<'_> {
    let mut note = file.get_note(&NoteUuid::new(N1)).unwrap();
    note.set_virtual_pages(vec![
        (VirtualPageUuid::new(VP1), virtual_page(PAGE_B)),
        (VirtualPageUuid::new(VP2), virtual_page(PAGE_A)),
    ]);
    note.set_page_models(vec![(
        PageModelUuid::new(PM1),
        PageModelGroup { page_models: vec![page_model(PAGE_B, 50.0, 60.0), page_model(PAGE_A, 100.0, 100.0)] },
    )]);
    note
}

#[test]
fn keeps_what_was_loaded() {
    let file = opened();
    let note = loaded_note(&file);
    let pages = note.virtual_pages().unwrap();
    assert_eq!(pages.len(), 2);
    assert_eq!(pages[0].0, VirtualPageUuid::new(VP1));
    assert_eq!(pages[1].1.page_id, PageUuid::new(PAGE_A));
    let models = note.page_models().unwrap();
    assert_eq!(models.len(), 1);
    assert_eq!(models[0].1.page_models.len(), 2);
}

#[test]
fn of_two_records_with_one_id_the_later_one_is_kept() {
    let file = opened();
    let mut note = file.get_note(&NoteUuid::new(N1)).unwrap();
    note.set_virtual_pages(vec![
        (VirtualPageUuid::new(VP1), virtual_page(PAGE_A)),
        (VirtualPageUuid::new(VP2), virtual_page(PAGE_A)),
        (VirtualPageUuid::new(VP1), virtual_page(PAGE_B)),
    ]);
    let pages = note.virtual_pages().unwrap();
    assert_eq!(pages.len(), 2);
    assert_eq!(pages[0].0, VirtualPageUuid::new(VP1));
    assert_eq!(pages[0].1.page_id, PageUuid::new(PAGE_B));
    assert_eq!(pages[1].0, VirtualPageUuid::new(VP2));
}

#[test]
fn there_is_no_page_before_the_records_are_loaded() {
    let file = opened();
    let mut note = file.get_note(&NoteUuid::new(N1)).unwrap();
    assert!(note.get_page(&PageUuid::new(PAGE_A)).is_none());
    note.set_virtual_pages(vec![(VirtualPageUuid::new(VP1), virtual_page(PAGE_A))]);
    assert!(note.get_page(&PageUuid::new(PAGE_A)).is_none());
}

#[test]
fn gets_a_page_with_its_model_and_its_geometry() {
    let file = opened();
    let note = loaded_note(&file);
    let page = note.get_page(&PageUuid::new(PAGE_A)).unwrap();
    assert_eq!(page.page_model().page_id, PageUuid::new(PAGE_A));
    assert_eq!(page.page_model().dimensions, dimensions(100.0, 100.0));
    assert_eq!(page.virtual_page().unwrap().page_id, PageUuid::new(PAGE_A));
    assert!(page.shape_groups().is_none());
    assert!(page.points_files().is_none());
    let page = note.get_page(&PageUuid::new(PAGE_B)).unwrap();
    assert_eq!(page.page_model().dimensions, dimensions(50.0, 60.0));
    assert!(note.get_page(&PageUuid::new(0x99)).is_none());
}

#[test]
fn a_page_needs_a_virtual_page_and_a_page_model() {
    let file = opened();
    let mut note = file.get_note(&NoteUuid::new(N1)).unwrap();
    note.set_virtual_pages(vec![(VirtualPageUuid::new(VP1), virtual_page(PAGE_B))]);
    note.set_page_models(vec![(
        PageModelUuid::new(PM1),
        PageModelGroup { page_models: vec![page_model(PAGE_A, 100.0, 100.0)] },
    )]);
    // A page model and no virtual page.
    assert!(note.get_page(&PageUuid::new(PAGE_A)).is_none());
    // A virtual page and no page model.
    assert!(note.get_page(&PageUuid::new(PAGE_B)).is_none());
    // Neither.
    assert!(note.get_page(&PageUuid::new(0x99)).is_none());
    note.set_virtual_pages(vec![
        (VirtualPageUuid::new(VP1), virtual_page(PAGE_B)),
        (VirtualPageUuid::new(VP2), virtual_page(PAGE_A)),
    ]);
    let page = note.get_page(&PageUuid::new(PAGE_A)).unwrap();
    assert_eq!(page.virtual_page().unwrap().page_id, PageUuid::new(PAGE_A));
    assert_eq!(page.page_model().page_id, PageUuid::new(PAGE_A));
    assert!(note.get_page(&PageUuid::new(PAGE_B)).is_none());
}

#[test]
fn hands_out_the_archives_of_the_shape_groups_of_a_page() {
    let file = opened();
    let note = loaded_note(&file);
    let mut page = note.get_page(&PageUuid::new(PAGE_A)).unwrap();
    let files = page.shape_group_files().unwrap();
    assert_eq!(files.len(), 2);
    assert_eq!(files[0].0, SG1);
    assert_eq!(files[1].0, SG2);
    assert_eq!(nested_record(files[0].1.clone()).unwrap(), b"sg1".to_vec());
    assert_eq!(nested_record(files[1].1.clone()).unwrap(), b"sg2".to_vec());
    let mut other = note.get_page(&PageUuid::new(PAGE_B)).unwrap();
    let files = other.shape_group_files().unwrap();
    assert_eq!(files.len(), 1);
    assert_eq!(nested_record(files[0].1.clone()).unwrap(), b"x".to_vec());
}

#[test]
fn a_shape_group_with_a_bad_timestamp_is_rejected() {
    let n1 = simple(N1);
    let page_a = simple(PAGE_A);
    let data = archive(&[
        ("root/note_tree".to_string(), Vec::new()),
        (format!("root/{n1}/shape/{page_a}#{}#yesterday.zip", simple(SG1)), Vec::new()),
    ]);
    let file = NoteFile::new(Container::open(data).unwrap(), tree());
    let note = loaded_note(&file);
    let mut page = note.get_page(&PageUuid::new(PAGE_A)).unwrap();
    assert!(matches!(page.shape_group_files(), Err(NoteError::InvalidTimestampFormat(_))));
}

#[test]
fn loads_the_points_files_of_a_page_by_id() {
    let file = opened();
    let note = loaded_note(&file);
    let mut page = note.get_page(&PageUuid::new(PAGE_A)).unwrap();
    page.load_points_files().unwrap();
    let groups = page.points_files().unwrap();
    assert_eq!(groups.len(), 2);
    assert_eq!(groups[0].0, PointsUuid::new(PT1));
    assert_eq!(groups[0].1.len(), 2);
    assert_eq!(groups[1].0, PointsUuid::new(PT2));
    assert_eq!(groups[1].1.len(), 1);
    assert_eq!(groups[0].1[0].header().points_id, PointsUuid::new(PT1));
    assert_eq!(groups[0].1[0].header().page_id, PageUuid::new(PAGE_A));
    let stroke = groups[0].1[1].get_stroke(&StrokeUuid::new(S1)).unwrap();
    assert_eq!(f32::from_bits(stroke.points[0].x.bits), 5.0);
    page.load_points_files().unwrap();
    assert_eq!(page.points_files().unwrap().len(), 2);
    let mut other = note.get_page(&PageUuid::new(PAGE_B)).unwrap();
    other.load_points_files().unwrap();
    assert!(other.points_files().unwrap().is_empty());
}

#[test]
fn a_points_file_that_cannot_be_decoded_stops_the_loading() {
    let n1 = simple(N1);
    let page_a = simple(PAGE_A);
    let data = archive(&[
        ("root/note_tree".to_string(), Vec::new()),
        (
            format!("root/{n1}/point/{page_a}/{page_a}#{}#1.points", simple(PT1)),
            points_bytes(PAGE_A, PT1, &[]),
        ),
        (format!("root/{n1}/point/{page_a}/{page_a}#{}#2.points", simple(PT2)), b"short".to_vec()),
        (format!("root/{n1}/point/{page_a}/{page_a}#nothing#3.points"), Vec::new()),
    ]);
    let file = NoteFile::new(Container::open(data).unwrap(), tree());
    let note = loaded_note(&file);
    let mut page = note.get_page(&PageUuid::new(PAGE_A)).unwrap();
    assert!(matches!(page.load_points_files(), Err(NoteError::Io(_))));
    assert!(page.points_files().is_none());
    assert!(matches!(page.render(), Err(NoteError::Io(_))));
}

fn first_xs(strokes: &[boox_note::points::Stroke]) -> Vec<f32> {
    strokes.iter().map(|s| f32::from_bits(s.points[0].x.bits)).collect()
}

#[test]
fn paints_the_shapes_of_all_groups_in_one_order() {
    let file = opened();
    let note = loaded_note(&file);
    let mut page = note.get_page(&PageUuid::new(PAGE_A)).unwrap();
    page.set_shape_groups(vec![
        (ShapeGroupUuid::new(SG1), shape_group(&[(S1, Some(PT1), 5), (S2, Some(PT2), 1)])),
        (ShapeGroupUuid::new(SG2), shape_group(&[(S3, Some(PT2), 5), (S1, Some(PT1), 0)])),
    ]);
    assert_eq!(page.shape_groups().unwrap().len(), 2);
    let strokes = page.render().unwrap();
    assert_eq!(first_xs(&strokes), vec![10.0, 1.0, 10.0, 3.0]);
    assert_eq!(strokes[0].points.len(), 2);
    assert_eq!(page.points_files().unwrap().len(), 2);
}

#[test]
fn paints_nothing_where_no_shapes_are_loaded() {
    let file = opened();
    let note = loaded_note(&file);
    let mut page = note.get_page(&PageUuid::new(PAGE_A)).unwrap();
    assert!(page.render().unwrap().is_empty());
    assert!(page.points_files().is_some());
}

#[test]
fn a_shape_whose_stroke_is_missing_is_passed_over() {
    let file = opened();
    let note = loaded_note(&file);
    let mut page = note.get_page(&PageUuid::new(PAGE_A)).unwrap();
    page.set_shape_groups(vec![(
        ShapeGroupUuid::new(SG1),
        shape_group(&[(S1, Some(0x77), 0), (S3, Some(PT1), 1), (S2, None, 2), (S2, Some(PT2), 3)]),
    )]);
    let strokes = page.render().unwrap();
    assert_eq!(first_xs(&strokes), vec![1.0]);
}

fn decode_tree(bytes: Vec<u8>) -> Result<NoteTree, NoteError> {
    if bytes == b"tree-bytes" {
        Ok(tree())
    } else {
        Err(NoteError::InvalidContainerFormat)
    }
}

fn decode_page(bytes: Vec<u8>) -> Result<VirtualPage, NoteError> {
    match bytes.as_slice() {
        b"vp1" => Ok(virtual_page(PAGE_B)),
        b"vp2" => Ok(virtual_page(PAGE_A)),
        _ => Err(NoteError::StrokeNotFound),
    }
}

fn decode_models(bytes: Vec<u8>) -> Result<PageModelGroup, NoteError> {
    match bytes.as_slice() {
        b"pm1" => Ok(PageModelGroup {
            page_models: vec![page_model(PAGE_B, 50.0, 60.0), page_model(PAGE_A, 100.0, 100.0)],
        }),
        _ => Err(NoteError::StrokeNotFound),
    }
}

fn decode_shapes(bytes: Vec<u8>) -> Result<ShapeGroup, NoteError> {
    match nested_record(bytes)?.as_slice() {
        b"sg1" => Ok(shape_group(&[(S1, Some(PT1), 5), (S2, Some(PT2), 1)])),
        b"sg2" => Ok(shape_group(&[(S3, Some(PT2), 5), (S1, Some(PT1), 0)])),
        _ => Err(NoteError::StrokeNotFound),
    }
}

#[test]
fn opens_a_container_with_a_decoder_of_the_note_tree() {
    let file = NoteFile::read(fixture(), &decode_tree).unwrap();
    assert_eq!(file.list_notes()[&N1], "Alpha");
    assert_eq!(file.list_notes()[&N2], "Beta");
    assert!(matches!(
        NoteFile::read(fixture(), &|_bytes: Vec<u8>| Err::<NoteTree, _>(NoteError::StrokeNotFound)),
        Err(NoteError::StrokeNotFound)
    ));
    assert!(matches!(
        NoteFile::read(archive(&[]), &decode_tree),
        Err(NoteError::InvalidContainerFormat)
    ));
    assert!(matches!(NoteFile::read(b"junk".to_vec(), &decode_tree), Err(NoteError::Zip(_))));
    let container = Container::open(fixture()).unwrap();
    assert_eq!(NoteFile::load(container, &decode_tree).unwrap().list_notes().len(), 2);
}

#[test]
fn loads_the_virtual_document_once() {
    let file = NoteFile::read(fixture(), &decode_tree).unwrap();
    let mut note = file.get_note(&NoteUuid::new(N1)).unwrap();
    let calls = std::cell::Cell::new(0);
    let decode = |bytes: Vec<u8>| {
        calls.set(calls.get() + 1);
        assert_eq!(bytes, b"doc".to_vec());
        VirtualDoc::read(
            boox_note::virtual_doc::protobuf::VirtualDoc {
                virtual_doc_uuid: simple(7),
                created: 1,
                modified: 2,
                template_uuid: simple(PAGE_A),
                stability: scalar(0.0),
                content_json: String::new(),
            },
            Ok(Content {
                content_id: String::new(),
                content_page_id: String::new(),
                content_page_size: dimensions(1.0, 1.0),
                content_relative_path: String::new(),
                content_type: String::new(),
            }),
        )
    };
    note.load_virtual_doc(&decode).unwrap();
    note.load_virtual_doc(&decode).unwrap();
    assert_eq!(calls.get(), 1);
    assert_eq!(note.virtual_doc().unwrap().page_id, PageUuid::new(PAGE_A));
}

#[test]
fn a_virtual_document_that_is_rejected_is_not_kept() {
    let file = NoteFile::read(fixture(), &decode_tree).unwrap();
    let mut note = file.get_note(&NoteUuid::new(N1)).unwrap();
    let reject = |_bytes: Vec<u8>| Err::<VirtualDoc, _>(NoteError::InvalidTimestamp(3));
    assert!(matches!(note.load_virtual_doc(&reject), Err(NoteError::InvalidTimestamp(3))));
    assert!(note.virtual_doc().is_none());
    let mut other = file.get_note(&NoteUuid::new(N2)).unwrap();
    assert!(matches!(other.load_virtual_doc(&reject), Err(NoteError::Zip(_))));
}

#[test]
fn loads_the_virtual_pages_and_the_page_models() {
    let file = NoteFile::read(fixture(), &decode_tree).unwrap();
    let mut note = file.get_note(&NoteUuid::new(N1)).unwrap();
    note.load_virtual_pages(&decode_page).unwrap();
    note.load_page_models(&decode_models).unwrap();
    let pages = note.virtual_pages().unwrap();
    assert_eq!(pages.len(), 2);
    assert_eq!(pages[0].0, VirtualPageUuid::new(VP1));
    assert_eq!(pages[0].1.page_id, PageUuid::new(PAGE_B));
    assert_eq!(pages[1].0, VirtualPageUuid::new(VP2));
    let models = note.page_models().unwrap();
    assert_eq!(models.len(), 1);
    assert_eq!(models[0].0, PageModelUuid::new(PM1));
    let page = note.get_page(&PageUuid::new(PAGE_A)).unwrap();
    assert_eq!(page.page_model().dimensions, dimensions(100.0, 100.0));
    assert_eq!(page.virtual_page().unwrap().page_id, PageUuid::new(PAGE_A));
}

#[test]
fn what_is_loaded_is_not_loaded_again() {
    let file = NoteFile::read(fixture(), &decode_tree).unwrap();
    let mut note = file.get_note(&NoteUuid::new(N1)).unwrap();
    note.load_virtual_pages(&decode_page).unwrap();
    let reject = |_bytes: Vec<u8>| Err::<VirtualPage, _>(NoteError::StrokeNotFound);
    note.load_virtual_pages(&reject).unwrap();
    assert_eq!(note.virtual_pages().unwrap().len(), 2);
}

#[test]
fn the_first_record_that_the_decoder_rejects_stops_the_loading() {
    let file = NoteFile::read(fixture(), &decode_tree).unwrap();
    let mut note = file.get_note(&NoteUuid::new(N1)).unwrap();
    let seen = std::cell::RefCell::new(Vec::new());
    let decode = |bytes: Vec<u8>| {
        seen.borrow_mut().push(bytes.clone());
        if bytes == b"vp1" {
            Err(NoteError::InvalidTimestamp(1))
        } else {
            decode_page(bytes)
        }
    };
    assert!(matches!(note.load_virtual_pages(&decode), Err(NoteError::InvalidTimestamp(1))));
    assert_eq!(*seen.borrow(), vec![b"vp1".to_vec()]);
    assert!(note.virtual_pages().is_none());
    assert!(note.get_page(&PageUuid::new(PAGE_A)).is_none());
}

#[test]
fn loads_the_shape_groups_and_paints_the_page() {
    let file = NoteFile::read(fixture(), &decode_tree).unwrap();
    let mut note = file.get_note(&NoteUuid::new(N1)).unwrap();
    note.load_virtual_pages(&decode_page).unwrap();
    note.load_page_models(&decode_models).unwrap();
    let mut page = note.get_page(&PageUuid::new(PAGE_A)).unwrap();
    let strokes = page.render_with(&decode_shapes).unwrap();
    assert_eq!(first_xs(&strokes), vec![10.0, 1.0, 10.0, 3.0]);
    let groups = page.shape_groups().unwrap();
    assert_eq!(groups.len(), 2);
    assert_eq!(groups[0].0, ShapeGroupUuid::new(SG1));
    assert_eq!(groups[1].0, ShapeGroupUuid::new(SG2));
    assert_eq!(first_xs(&page.render().unwrap()), vec![10.0, 1.0, 10.0, 3.0]);
    let mut again = note.get_page(&PageUuid::new(PAGE_A)).unwrap();
    again.load_shape_groups(&decode_shapes).unwrap();
    assert_eq!(again.shape_groups().unwrap().len(), 2);
    assert!(again.points_files().is_none());
}

#[test]
fn a_shape_group_that_is_rejected_stops_the_painting() {
    let file = NoteFile::read(fixture(), &decode_tree).unwrap();
    let mut note = file.get_note(&NoteUuid::new(N1)).unwrap();
    note.load_virtual_pages(&decode_page).unwrap();
    note.load_page_models(&decode_models).unwrap();
    let mut page = note.get_page(&PageUuid::new(PAGE_B)).unwrap();
    assert!(matches!(page.render_with(&decode_shapes), Err(NoteError::StrokeNotFound)));
    assert!(page.shape_groups().is_none());
}

#[test]
fn an_error_of_the_protobuf_codec_comes_through_the_loading() {
    let file = NoteFile::read(fixture(), &decode_tree).unwrap();
    let mut note = file.get_note(&NoteUuid::new(N1)).unwrap();
    let decode = |bytes: Vec<u8>| match <String as prost::Message>::decode(bytes.as_slice()) {
        Ok(_) => Ok(virtual_page(PAGE_A)),
        Err(e) => Err(NoteError::ProtobufDecode(e)),
    };
    assert!(matches!(note.load_virtual_pages(&decode), Err(NoteError::ProtobufDecode(_))));
    assert!(note.virtual_pages().is_none());
}

#[test]
fn the_entries_are_taken_one_after_the_other() {
    let n1 = simple(N1);
    let data = archive(&[
        ("root/note_tree".to_string(), b"tree-bytes".to_vec()),
        (format!("root/{n1}/virtual/page/pb/{}", simple(VP1)), b"vp1".to_vec()),
        (format!("root/{n1}/virtual/page/pb/{}", simple(VP2)), b"bad".to_vec()),
        (format!("root/{n1}/virtual/page/pb/no-id"), b"vp2".to_vec()),
    ]);
    let file = NoteFile::read(data, &decode_tree).unwrap();
    let mut note = file.get_note(&NoteUuid::new(N1)).unwrap();
    let seen = std::cell::RefCell::new(Vec::new());
    let decode = |bytes: Vec<u8>| {
        seen.borrow_mut().push(bytes.clone());
        if bytes == b"bad" {
            Err(NoteError::InvalidTimestamp(7))
        } else {
            decode_page(bytes)
        }
    };
    // The record that the decoder rejects comes before the name that is no id.
    assert!(matches!(note.load_virtual_pages(&decode), Err(NoteError::InvalidTimestamp(7))));
    assert_eq!(*seen.borrow(), vec![b"vp1".to_vec(), b"bad".to_vec()]);
    let accept = |bytes: Vec<u8>| {
        seen.borrow_mut().push(bytes);
        Ok(virtual_page(PAGE_A))
    };
    // With a decoder that takes every record the name decides.
    assert!(matches!(note.load_virtual_pages(&accept), Err(NoteError::UuidParse(_))));
    assert_eq!(seen.borrow().len(), 4);
    assert!(note.virtual_pages().is_none());
}
