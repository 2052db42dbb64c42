//! Building a directory listing response from enumerated entries.
//!
//! Enumerating a directory, deciding each entry's type and reading its
//! metadata are filesystem work and happen outside this crate; the caller
//! hands in one record per entry, with the name (absent when it was not
//! valid text), the entry's kind (unknown when it could not be determined)
//! and, for files, the already-formatted size (absent when the metadata
//! could not be read). The policy is deliberately lossy but never fatal:
//! entries without a name or of unknown kind are skipped silently, a missing
//! size becomes an empty size string, and only a directory that could not be
//! enumerated at all turns the whole response into an error payload.

use vstd::prelude::*;

use crate::json::error_json;
use crate::json::item_views;
use crate::json::render_error;
use crate::json::render_filelist;
use crate::json::respond_json;
use crate::text::b_replaced;
use crate::text::replace_b_unit;

verus! {

/// What the directory enumeration said an entry is.
#[derive(Clone, Copy, Debug, PartialEq, Eq, Structural)]
pub enum EntryKind {
    Dir,
    File,
    /// The type could not be determined; the entry is skipped.
    Unknown,
}

/// One enumerated directory entry, as the filesystem layer reports it:
/// `name` is absent when the raw name was not valid text, and `size` is the
/// formatted byte count of a file, absent when the metadata could not be
/// read (and meaningless for directories).
pub struct EntryRecord {
    pub name: Option<String>,
    pub kind: EntryKind,
    pub size: Option<String>,
}

/// One line of a listing: a name, and a size string that is empty for
/// folders and for files whose size is unknown.
pub struct FileItem {
    pub name: String,
    pub size: String,
}

impl FileItem {
    /// A file entry with a formatted size; the bare `B` unit is spelled out
    /// as `bytes`.
    pub fn from(file_name: String, pretty_size: String) -> (r: FileItem)
        ensures
            r.name@ == file_name@,
            r.size@ == b_replaced(pretty_size@),
    {
        FileItem { name: file_name, size: replace_b_unit(pretty_size.as_str()) }
    }

    /// An entry with no size: a folder, or a file whose metadata could not
    /// be read.
    pub fn from_name(file_name: String) -> (r: FileItem)
        ensures
            r.name@ == file_name@,
            r.size@ == Seq::<char>::empty(),
    {
        FileItem { name: file_name, size: String::new() }
    }
}

/// The listing response before rendering: the action tag, the listed path,
/// and the folder and file entries in enumeration order.
pub struct FileRespond {
    pub action: String,
    pub path: String,
    pub folders: Vec<FileItem>,
    pub files: Vec<FileItem>,
}

impl FileRespond {
    /// An empty response carrying the `sendFilelist` action tag.
    pub fn new() -> (r: FileRespond)
        ensures
            r.action@ == "sendFilelist"@,
            r.path@ == Seq::<char>::empty(),
            r.folders@ == Seq::<FileItem>::empty(),
            r.files@ == Seq::<FileItem>::empty(),
    {
        FileRespond {
            action: String::from_str("sendFilelist"),
            path: String::new(),
            folders: Vec::new(),
            files: Vec::new(),
        }
    }
}

/// A folder entry the listing shows: it has a readable name and is a
/// directory.
pub open spec fn visible_dir(e: EntryRecord) -> bool {
    e.name is Some && e.kind == EntryKind::Dir
}

/// A file entry the listing shows: it has a readable name and is a file.
pub open spec fn visible_file(e: EntryRecord) -> bool {
    e.name is Some && e.kind == EntryKind::File
}

/// The size string shown for a file entry: the formatted size with the bare
/// `B` unit spelled out, or empty when the size is unknown.
pub open spec fn size_view(e: EntryRecord) -> Seq<char> {
    match e.size {
        Some(p) => b_replaced(p@),
        None => Seq::empty(),
    }
}

/// The folder lines of a listing, in enumeration order.
pub open spec fn folder_views(es: Seq<EntryRecord>) -> Seq<(Seq<char>, Seq<char>)>
    decreases es.len(),
{
    if es.len() == 0 {
        Seq::empty()
    } else if visible_dir(es.last()) {
        folder_views(es.drop_last()) + seq![(es.last().name->0@, Seq::<char>::empty())]
    } else {
        folder_views(es.drop_last())
    }
}

/// The file lines of a listing, in enumeration order.
pub open spec fn file_views(es: Seq<EntryRecord>) -> Seq<(Seq<char>, Seq<char>)>
    decreases es.len(),
{
    if es.len() == 0 {
        Seq::empty()
    } else if visible_file(es.last()) {
        file_views(es.drop_last()) + seq![(es.last().name->0@, size_view(es.last()))]
    } else {
        file_views(es.drop_last())
    }
}

/// Sorts the enumerated entries into the response: visible directories
/// become folder lines, visible files become file lines with their size
/// string, everything else is skipped.
pub fn build_respond(path: &str, entries: Vec<EntryRecord>) -> (r: FileRespond)
    ensures
        r.action@ == "sendFilelist"@,
        r.path@ == path@,
        item_views(r.folders@) == folder_views(entries@),
        item_views(r.files@) == file_views(entries@),
{
    let mut respond = FileRespond::new();
    respond.path = String::from_str(path);
    proof {
        assert(entries@.take(0) =~= Seq::<EntryRecord>::empty());
        assert(item_views(respond.folders@) =~= folder_views(entries@.take(0)));
        assert(item_views(respond.files@) =~= file_views(entries@.take(0)));
    }
    let n = entries.len();
    let mut i: usize = 0;
    while i < n
        invariant
            0 <= i <= n == entries@.len(),
            respond.action@ == "sendFilelist"@,
            respond.path@ == path@,
            item_views(respond.folders@) == folder_views(entries@.take(i as int)),
            item_views(respond.files@) == file_views(entries@.take(i as int)),
        decreases n - i,
    {
        let ghost prev_folders = respond.folders@;
        let ghost prev_files = respond.files@;
        let entry = &entries[i];
        match &entry.name {
            Some(file_name) => {
                match entry.kind {
                    EntryKind::Dir => {
                        respond.folders.push(FileItem::from_name(file_name.clone()));
                    },
                    EntryKind::File => {
                        match &entry.size {
                            Some(pretty) => {
                                respond.files.push(
                                    FileItem::from(file_name.clone(), pretty.clone()),
                                );
                            },
                            None => {
                                respond.files.push(FileItem::from_name(file_name.clone()));
                            },
                        }
                    },
                    EntryKind::Unknown => {},
                }
            },
            None => {},
        }
        proof {
            assert(entries@.take(i + 1).drop_last() =~= entries@.take(i as int));
            assert(entries@.take(i + 1).last() == entries@[i as int]);
            assert(item_views(respond.folders@) =~= folder_views(entries@.take(i + 1)));
            assert(item_views(respond.files@) =~= file_views(entries@.take(i + 1)));
        }
        i += 1;
    }
    proof {
        assert(entries@.take(n as int) =~= entries@);
    }
    respond
}

/// Renders a built response as its JSON payload.
pub fn render_respond(respond: &FileRespond) -> (r: String)
    ensures
        r@ == respond_json(
            respond.action@,
            respond.path@,
            item_views(respond.folders@),
            item_views(respond.files@),
        ),
{
    render_filelist(
        respond.action.as_str(),
        respond.path.as_str(),
        &respond.folders,
        &respond.files,
    )
}

/// The whole listing response for one directory. `entries` is what
/// enumerating the directory yielded, or nothing when the directory could
/// not be opened; the result is the JSON payload sent back: the file list,
/// or the error payload naming the unreadable path.
pub fn get_file_respond(path: &str, entries: Option<Vec<EntryRecord>>) -> (r: String)
    ensures
        match entries {
            Some(es) => r@ == respond_json(
                "sendFilelist"@,
                path@,
                folder_views(es@),
                file_views(es@),
            ),
            None => r@ == error_json("Cannot read the given path: "@ + path@),
        },
{
    match entries {
        Some(es) => {
            let respond = build_respond(path, es);
            render_respond(&respond)
        },
        None => {
            let mut message = String::from_str("Cannot read the given path: ");
            message.append(path);
            render_error(message.as_str())
        },
    }
}

} // verus!
