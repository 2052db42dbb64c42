use filedrop::listing::build_respond;
use filedrop::listing::get_file_respond;
use filedrop::listing::EntryKind;
use filedrop::listing::EntryRecord;
use filedrop::listing::FileItem;
use filedrop::listing::FileRespond;

use pretty_bytes::converter::convert;

fn entry(name: Option<&str>, kind: EntryKind, size: Option<String>) -> EntryRecord {
    EntryRecord { name: name.map(|n| n.to_string()), kind, size }
}

#[test]
fn respond_new_is_empty_filelist() {
    let r = FileRespond::new();
    assert_eq!(r.action.as_str(), "sendFilelist");
    assert_eq!(r.path.as_str(), "");
    assert!(r.folders.is_empty());
    assert!(r.files.is_empty());
}

#[test]
fn item_from_name_has_empty_size() {
    let item = FileItem::from_name("sub".to_string());
    assert_eq!(item.name.as_str(), "sub");
    assert_eq!(item.size.as_str(), "");
}

#[test]
fn item_from_spells_out_bare_unit() {
    let item = FileItem::from("tiny".to_string(), convert(5_f64));
    assert_eq!(item.size.as_str(), "5 bytes");
    let item = FileItem::from("big".to_string(), convert(2048_f64));
    assert_eq!(item.size.as_str(), "2.05 kB");
}

#[test]
fn listing_one_folder_one_sized_file() {
    // one subfolder `sub` and one file `a.txt` of 2,048 bytes
    let pretty = convert(2048_f64);
    let entries = vec![
        entry(Some("sub"), EntryKind::Dir, None),
        entry(Some("a.txt"), EntryKind::File, Some(pretty.clone())),
    ];
    let r = build_respond("/data", entries);
    assert_eq!(r.folders.len(), 1);
    assert_eq!(r.folders[0].name.as_str(), "sub");
    assert_eq!(r.folders[0].size.as_str(), "");
    assert_eq!(r.files.len(), 1);
    assert_eq!(r.files[0].name.as_str(), "a.txt");
    assert_eq!(r.files[0].size.as_str(), pretty.replace(" B", " bytes").as_str());
    assert!(!r.files[0].size.is_empty());

    let entries = vec![
        entry(Some("sub"), EntryKind::Dir, None),
        entry(Some("a.txt"), EntryKind::File, Some(convert(2048_f64))),
    ];
    let json = get_file_respond("/data", Some(entries));
    assert_eq!(
        json.as_str(),
        "{\"action\":\"sendFilelist\",\"path\":\"/data\",\"folders\":[{\"name\":\"sub\",\"size\":\"\"}],\"files\":[{\"name\":\"a.txt\",\"size\":\"2.05 kB\"}]}"
    );
}

#[test]
fn listing_skips_unreadable_entries() {
    let entries = vec![
        entry(None, EntryKind::File, None),
        entry(Some("ghost"), EntryKind::Unknown, None),
        entry(Some("kept.bin"), EntryKind::File, None),
    ];
    let r = build_respond("/data", entries);
    assert!(r.folders.is_empty());
    assert_eq!(r.files.len(), 1);
    assert_eq!(r.files[0].name.as_str(), "kept.bin");
    assert_eq!(r.files[0].size.as_str(), "");
}

#[test]
fn listing_failure_is_error_payload() {
    let json = get_file_respond("/no/such/dir", None);
    assert_eq!(
        json.as_str(),
        "{\"action\":\"sendError\",\"message\":\"Cannot read the given path: /no/such/dir\"}"
    );
    let v: serde_json::Value = serde_json::from_str(json.as_str()).unwrap();
    assert_eq!(v.get("action").unwrap().as_str(), Some("sendError"));
}

#[test]
fn rendered_listing_parses_back() {
    let entries = vec![
        entry(Some("sub"), EntryKind::Dir, None),
        entry(Some("a.txt"), EntryKind::File, Some(convert(2048_f64))),
        entry(Some("b.txt"), EntryKind::File, None),
    ];
    let json = get_file_respond("/data/dir", Some(entries));
    let v: serde_json::Value = serde_json::from_str(json.as_str()).unwrap();
    assert_eq!(v.get("action").unwrap().as_str(), Some("sendFilelist"));
    assert_eq!(v.get("path").unwrap().as_str(), Some("/data/dir"));
    let folders = v.get("folders").unwrap().as_array().unwrap();
    assert_eq!(folders.len(), 1);
    assert_eq!(folders[0].get("name").unwrap().as_str(), Some("sub"));
    assert_eq!(folders[0].get("size").unwrap().as_str(), Some(""));
    let files = v.get("files").unwrap().as_array().unwrap();
    assert_eq!(files.len(), 2);
    assert_eq!(files[0].get("name").unwrap().as_str(), Some("a.txt"));
    assert_eq!(files[1].get("name").unwrap().as_str(), Some("b.txt"));
    assert_eq!(files[1].get("size").unwrap().as_str(), Some(""));
}

#[test]
fn rendering_escapes_special_characters() {
    let wild = "he said \"hi\"\\\n\ttab\u{1}end";
    let entries = vec![entry(Some(wild), EntryKind::File, None)];
    let json = get_file_respond(wild, Some(entries));
    let v: serde_json::Value = serde_json::from_str(json.as_str()).unwrap();
    assert_eq!(v.get("path").unwrap().as_str(), Some(wild));
    let files = v.get("files").unwrap().as_array().unwrap();
    assert_eq!(files[0].get("name").unwrap().as_str(), Some(wild));
    // the encoder writes exactly what the reference encoder writes
    assert!(json.contains("\\\"hi\\\""));
    assert!(json.contains("\\n"));
    assert!(json.contains("\\t"));
    assert!(json.contains("\\u0001"));
}

#[test]
fn rendering_matches_reference_encoder_on_strings() {
    let wild = "quote \" slash \\ ctl \u{2} \u{1f} text";
    let ours = get_file_respond(wild, None);
    let reference = serde_json::to_string(wild).unwrap();
    let expected = format!(
        "{{\"action\":\"sendError\",\"message\":{}}}",
        serde_json::to_string(&format!("Cannot read the given path: {}", wild)).unwrap()
    );
    assert_eq!(ours.as_str(), expected.as_str());
    assert!(reference.len() > wild.len());
}
