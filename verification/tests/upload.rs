use filedrop::upload::concat_chunks;
use filedrop::upload::count_bytes;
use filedrop::upload::finish_resolve;
use filedrop::upload::handle_multipart_item;
use filedrop::upload::prepare_field;
use filedrop::upload::DispositionParam;
use filedrop::upload::FieldData;
use filedrop::upload::MultipartItem;
use filedrop::upload::UploadError;

fn filename_param(name: &str) -> DispositionParam {
    DispositionParam::Filename(name.as_bytes().to_vec())
}

fn subpath_param(value: &str) -> DispositionParam {
    DispositionParam::Ext("name".to_string(), value.to_string())
}

fn field(params: Vec<DispositionParam>, chunks: Vec<Vec<u8>>) -> FieldData {
    FieldData { params, chunks }
}

#[test]
fn prepare_joins_root_and_trimmed_subpath() {
    let params = vec![filename_param("f.txt"), subpath_param("  sub ")];
    let p = prepare_field("/data", &params).unwrap();
    assert_eq!(p.to_canonicalize.as_str(), "/data/sub");
    assert_eq!(p.filename.as_str(), "f.txt");
}

#[test]
fn prepare_empty_subpath_targets_root() {
    let params = vec![filename_param("f.txt")];
    let p = prepare_field("/data", &params).unwrap();
    assert_eq!(p.to_canonicalize.as_str(), "/data/");
    assert_eq!(p.filename.as_str(), "f.txt");
}

#[test]
fn prepare_last_parameter_wins() {
    let params = vec![
        filename_param("old.txt"),
        subpath_param("first"),
        filename_param("new.txt"),
        subpath_param("second"),
        DispositionParam::Ext("other".to_string(), "ignored".to_string()),
    ];
    let p = prepare_field("/data", &params).unwrap();
    assert_eq!(p.to_canonicalize.as_str(), "/data/second");
    assert_eq!(p.filename.as_str(), "new.txt");
}

#[test]
fn prepare_without_filename_is_malformed() {
    let params = vec![subpath_param("sub")];
    assert_eq!(prepare_field("/data", &params).err(), Some(UploadError::MalformedField));
    let empty = vec![DispositionParam::Filename(Vec::new())];
    assert_eq!(prepare_field("/data", &empty).err(), Some(UploadError::MalformedField));
}

#[test]
fn prepare_rejects_non_utf8_filename() {
    let params = vec![DispositionParam::Filename(vec![0xff, 0xfe])];
    assert_eq!(prepare_field("/data", &params).err(), Some(UploadError::FilenameDecodeError));
}

#[test]
fn prepare_rejects_separator_in_filename() {
    let params = vec![filename_param("../escape.txt")];
    assert_eq!(prepare_field("/data", &params).err(), Some(UploadError::PathTraversalRejected));
    let abs = vec![filename_param("/etc/passwd")];
    assert_eq!(prepare_field("/data", &abs).err(), Some(UploadError::PathTraversalRejected));
    let dots = vec![filename_param("..")];
    assert_eq!(prepare_field("/data", &dots).err(), Some(UploadError::PathTraversalRejected));
}

#[test]
fn finish_rejects_escaped_destination() {
    let r = finish_resolve("/data", "/etc", "f.txt");
    assert_eq!(r.err(), Some(UploadError::PathTraversalRejected));
    let sibling = finish_resolve("/data", "/data-evil", "f.txt");
    assert_eq!(sibling.err(), Some(UploadError::PathTraversalRejected));
}

#[test]
fn finish_accepts_contained_destination() {
    let rp = finish_resolve("/data", "/data", "f.txt").unwrap();
    assert_eq!(rp.full_path().as_str(), "/data/f.txt");
}

#[test]
fn flatten_splices_nested_fields_in_order() {
    let item = MultipartItem::Nested(vec![
        MultipartItem::Field(field(vec![filename_param("a")], vec![vec![1]])),
        MultipartItem::Field(field(vec![filename_param("b")], vec![vec![2]])),
        MultipartItem::Nested(vec![MultipartItem::Field(field(
            vec![filename_param("c")],
            vec![vec![3]],
        ))]),
    ]);
    let fields = handle_multipart_item(item);
    assert_eq!(fields.len(), 3);
    assert_eq!(fields[0].chunks, vec![vec![1u8]]);
    assert_eq!(fields[1].chunks, vec![vec![2u8]]);
    assert_eq!(fields[2].chunks, vec![vec![3u8]]);
}

#[test]
fn flatten_single_field_is_itself() {
    let item = MultipartItem::Field(field(vec![filename_param("a")], vec![vec![9, 9]]));
    let fields = handle_multipart_item(item);
    assert_eq!(fields.len(), 1);
    assert_eq!(fields[0].chunks, vec![vec![9u8, 9u8]]);
}

#[test]
fn flatten_deep_nesting_terminates_flat() {
    let item = MultipartItem::Nested(vec![MultipartItem::Nested(vec![MultipartItem::Nested(
        vec![MultipartItem::Field(field(vec![filename_param("deep")], vec![]))],
    )])]);
    let fields = handle_multipart_item(item);
    assert_eq!(fields.len(), 1);
    assert!(fields[0].chunks.is_empty());
}

#[test]
fn counted_bytes_match_content_length() {
    let chunks = vec![b"hello ".to_vec(), b"world".to_vec(), Vec::new()];
    let n = count_bytes(&chunks).unwrap();
    let content = concat_chunks(&chunks);
    assert_eq!(n, 11);
    assert_eq!(n as usize, content.len());
    assert_eq!(content, b"hello world".to_vec());
}

#[test]
fn upload_round_trip_to_root() {
    // uploading B with filename f.txt and an empty subpath against root R
    // must target R/f.txt and report exactly len(B) bytes written
    let body = b"the payload bytes".to_vec();
    let params = vec![filename_param("f.txt")];
    let p = prepare_field("/data", &params).unwrap();
    assert_eq!(p.to_canonicalize.as_str(), "/data/");
    // canonicalizing "/data/" yields "/data"; the checks then run on that
    let rp = finish_resolve("/data", "/data", p.filename.as_str()).unwrap();
    assert_eq!(rp.full_path().as_str(), "/data/f.txt");
    let chunks = vec![body[..3].to_vec(), body[3..].to_vec()];
    assert_eq!(concat_chunks(&chunks), body);
    assert_eq!(count_bytes(&chunks).unwrap() as usize, body.len());
}

#[test]
fn error_messages_are_stable() {
    assert_eq!(UploadError::MalformedField.message().as_str(), "no valid file");
    assert_eq!(
        UploadError::FilenameDecodeError.message().as_str(),
        "the filename is not valid UTF-8"
    );
    assert_eq!(
        UploadError::PathTraversalRejected.message().as_str(),
        "Paths are not securely joinable"
    );
    assert_eq!(
        UploadError::PathResolutionFailed.message().as_str(),
        "cannot resolve the given path"
    );
    assert_eq!(UploadError::IOFailure.message().as_str(), "cannot write the file");
}
