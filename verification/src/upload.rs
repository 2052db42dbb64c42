//! Per-field processing of multipart uploads.
//!
//! A multipart body arrives as a sequence of items; an item is either a
//! plain field carrying disposition metadata and a stream of byte chunks, or
//! a nested multipart message with items of its own. The logic here chooses,
//! for each field, the destination of its bytes (or the error that fails it)
//! and flattens nested messages into one sequence of fields in encounter
//! order. Filesystem canonicalization and the writes themselves happen
//! outside this crate: the resolution runs in two steps around the
//! canonicalization, and the byte counting is a pure function of the chunks.

use vstd::prelude::*;
use vstd::slice::slice_to_vec;
use vstd::utf8::decode_utf8;
use vstd::utf8::valid_utf8;

use crate::paths::is_pure_filename;
use crate::paths::is_sep;
use crate::paths::join_path;
use crate::paths::joined;
use crate::paths::resolve_in_root;
use crate::paths::ResolvedPath;
use crate::text::trim;
use crate::text::trimmed;

verus! {

/// Why one field of an upload failed. A failure is per field: sibling fields
/// of the same body keep their own outcomes.
#[derive(Clone, Copy, Debug, PartialEq, Eq, Structural)]
pub enum UploadError {
    /// The field carries no filename (or an empty one) in its disposition.
    MalformedField,
    /// The raw filename bytes are not valid UTF-8.
    FilenameDecodeError,
    /// The filename smuggles path structure, or the destination escapes the
    /// upload root.
    PathTraversalRejected,
    /// The joined destination could not be canonicalized (for instance, an
    /// intermediate directory does not exist).
    PathResolutionFailed,
    /// Creating or writing the destination file failed.
    IOFailure,
}

impl UploadError {
    /// The human-readable message reported for this failure.
    pub open spec fn spec_message(self) -> Seq<char> {
        match self {
            UploadError::MalformedField => "no valid file"@,
            UploadError::FilenameDecodeError => "the filename is not valid UTF-8"@,
            UploadError::PathTraversalRejected => "Paths are not securely joinable"@,
            UploadError::PathResolutionFailed => "cannot resolve the given path"@,
            UploadError::IOFailure => "cannot write the file"@,
        }
    }

    /// Renders the human-readable message for this failure.
    pub fn message(&self) -> (r: String)
        ensures
            r@ == self.spec_message(),
    {
        match self {
            UploadError::MalformedField => String::from_str("no valid file"),
            UploadError::FilenameDecodeError => String::from_str("the filename is not valid UTF-8"),
            UploadError::PathTraversalRejected => String::from_str(
                "Paths are not securely joinable",
            ),
            UploadError::PathResolutionFailed => String::from_str("cannot resolve the given path"),
            UploadError::IOFailure => String::from_str("cannot write the file"),
        }
    }
}

/// One disposition parameter of a multipart field: the raw filename bytes,
/// or an extension parameter with its name and value.
pub enum DispositionParam {
    Filename(Vec<u8>),
    Ext(String, String),
}

/// One plain multipart field: its disposition parameters and the byte chunks
/// of its body, in arrival order.
pub struct FieldData {
    pub params: Vec<DispositionParam>,
    pub chunks: Vec<Vec<u8>>,
}

/// One item of a multipart body: a plain field, or a nested multipart
/// message whose fields are spliced into the surrounding sequence.
pub enum MultipartItem {
    Field(FieldData),
    Nested(Vec<MultipartItem>),
}

/// The raw filename bytes of a field: the value of the last `Filename`
/// parameter, or empty when there is none.
pub open spec fn raw_name_of(ps: Seq<DispositionParam>) -> Seq<u8>
    decreases ps.len(),
{
    if ps.len() == 0 {
        Seq::empty()
    } else {
        match ps.last() {
            DispositionParam::Filename(b) => b@,
            _ => raw_name_of(ps.drop_last()),
        }
    }
}

/// The destination subpath of a field: the trimmed value of the last
/// extension parameter named `name`, or empty when there is none.
pub open spec fn subpath_of(ps: Seq<DispositionParam>) -> Seq<char>
    decreases ps.len(),
{
    if ps.len() == 0 {
        Seq::empty()
    } else {
        match ps.last() {
            DispositionParam::Ext(n, v) => if n@ == "name"@ {
                trimmed(v@)
            } else {
                subpath_of(ps.drop_last())
            },
            _ => subpath_of(ps.drop_last()),
        }
    }
}

/// What examining a field's disposition parameters decides: the path to hand
/// to canonicalization together with the decoded filename, or the error that
/// fails the field. This is the whole pre-filesystem pipeline: take the raw
/// filename, decode it, insist it is a pure filename, and join the trimmed
/// subpath onto the root.
pub open spec fn field_plan(root: Seq<char>, ps: Seq<DispositionParam>) -> Result<
    (Seq<char>, Seq<char>),
    UploadError,
> {
    let raw = raw_name_of(ps);
    if raw.len() == 0 {
        Err(UploadError::MalformedField)
    } else if !valid_utf8(raw) {
        Err(UploadError::FilenameDecodeError)
    } else {
        let name = decode_utf8(raw);
        if !is_pure_filename(name) {
            Err(UploadError::PathTraversalRejected)
        } else {
            Ok((joined(root, subpath_of(ps)), name))
        }
    }
}

/// A field that passed every pre-filesystem check: the joined destination
/// directory still awaiting canonicalization, and the validated filename.
pub struct PendingUpload {
    pub to_canonicalize: String,
    pub filename: String,
}

/// Relies on `String::from_utf8`: it succeeds exactly on valid UTF-8 input,
/// and then the string holds the decoded characters of those bytes.
#[verifier::external_body]
fn bytes_to_string(b: Vec<u8>) -> (r: Option<String>)
    ensures
        r is Some <==> valid_utf8(b@),
        r matches Some(s) ==> s@ == decode_utf8(b@),
{
    String::from_utf8(b).ok()
}

/// Runs the pre-filesystem part of a field's processing, exactly as
/// [`field_plan`] states it: extract the raw filename and the subpath from
/// the disposition parameters (last occurrence wins, the subpath trimmed),
/// decode the filename, reject anything but a pure filename, and join the
/// subpath onto the root. The returned path must be canonicalized by the
/// caller and checked with [`finish_resolve`] before any write.
pub fn prepare_field(root: &str, params: &Vec<DispositionParam>) -> (r: Result<
    PendingUpload,
    UploadError,
>)
    ensures
        match r {
            Ok(p) => field_plan(root@, params@) == Ok::<(Seq<char>, Seq<char>), UploadError>(
                (p.to_canonicalize@, p.filename@),
            ),
            Err(e) => field_plan(root@, params@) == Err::<(Seq<char>, Seq<char>), UploadError>(e),
        },
{
    let key = String::from_str("name");
    let mut raw: Vec<u8> = Vec::new();
    let mut sp: String = String::new();
    proof {
        assert(params@.take(0) =~= Seq::<DispositionParam>::empty());
    }
    let n = params.len();
    let mut i: usize = 0;
    while i < n
        invariant
            0 <= i <= n == params@.len(),
            key@ == "name"@,
            raw@ == raw_name_of(params@.take(i as int)),
            sp@ == subpath_of(params@.take(i as int)),
        decreases n - i,
    {
        let ghost prev_raw = raw@;
        let ghost prev_sp = sp@;
        match &params[i] {
            DispositionParam::Filename(b) => {
                proof {
                    assert(params@[i as int] == DispositionParam::Filename(*b));
                }
                raw = slice_to_vec(b.as_slice());
            },
            DispositionParam::Ext(pname, value) => {
                proof {
                    assert(params@[i as int] == DispositionParam::Ext(*pname, *value));
                }
                if *pname == key {
                    sp = trim(value.as_str());
                }
            },
        }
        proof {
            assert(params@.take(i + 1).drop_last() =~= params@.take(i as int));
            assert(params@.take(i + 1).last() == params@[i as int]);
            assert(raw@ == raw_name_of(params@.take(i + 1)));
            assert(sp@ == subpath_of(params@.take(i + 1)));
        }
        i += 1;
    }
    proof {
        assert(params@.take(n as int) =~= params@);
    }
    if raw.len() == 0 {
        return Err(UploadError::MalformedField);
    }
    match bytes_to_string(raw) {
        None => Err(UploadError::FilenameDecodeError),
        Some(name) => {
            if !crate::paths::check_pure_filename(name.as_str()) {
                Err(UploadError::PathTraversalRejected)
            } else {
                Ok(
                    PendingUpload {
                        to_canonicalize: join_path(root, sp.as_str()),
                        filename: name,
                    },
                )
            }
        },
    }
}

/// Runs the post-filesystem part of a field's processing: `canonical` is
/// what canonicalization made of the joined destination, and the field may
/// be written only if that canonical directory still lies under the root.
/// Failure is the containment rejection; a filename that is not pure is
/// rejected the same way, so no caller can slip one past the first step.
pub fn finish_resolve(root: &str, canonical: &str, filename: &str) -> (r: Result<
    ResolvedPath,
    UploadError,
>)
    ensures
        match r {
            Ok(rp) => {
                &&& crate::paths::contained_in(root@, canonical@)
                &&& is_pure_filename(filename@)
                &&& rp.wf()
                &&& rp.spec_root() == root@
                &&& rp.spec_dir() == canonical@
                &&& rp.spec_name() == filename@
            },
            Err(e) => {
                &&& e == UploadError::PathTraversalRejected
                &&& !(crate::paths::contained_in(root@, canonical@) && is_pure_filename(
                    filename@,
                ))
            },
        },
{
    match resolve_in_root(root, canonical, filename) {
        Some(rp) => Ok(rp),
        None => Err(UploadError::PathTraversalRejected),
    }
}

/// The fields of one multipart item, in encounter order: a plain field is
/// itself, a nested message contributes its own fields spliced in place.
pub open spec fn flat_item(item: MultipartItem) -> Seq<FieldData>
    decreases item,
{
    match item {
        MultipartItem::Field(f) => seq![f],
        MultipartItem::Nested(subs) => flat_list(subs@),
    }
}

/// The fields of a sequence of multipart items, concatenated in order.
pub open spec fn flat_list(items: Seq<MultipartItem>) -> Seq<FieldData>
    decreases items,
{
    if items.len() == 0 {
        Seq::empty()
    } else {
        flat_item(items[0]) + flat_list(items.drop_first())
    }
}

/// Flattens one multipart item into its fields, in encounter order,
/// regardless of nesting depth.
#[verifier::loop_isolation(false)]
pub fn handle_multipart_item(item: MultipartItem) -> (out: Vec<FieldData>)
    ensures
        out@ == flat_item(item),
    decreases item,
{
    let ghost item0 = item;
    match item {
        MultipartItem::Field(f) => {
            let mut out: Vec<FieldData> = Vec::new();
            out.push(f);
            proof {
                assert(out@ =~= flat_item(item0));
            }
            out
        },
        MultipartItem::Nested(mut subs) => {
            let ghost subs_vec0 = subs;
            let ghost subs0 = subs@;
            proof {
                assert(subs0 =~= subs0.subrange(0, subs0.len() as int));
            }
            proof {
                assert(item0 == MultipartItem::Nested(subs_vec0));
            }
            let mut out: Vec<FieldData> = Vec::new();
            while subs.len() > 0
                invariant
                    item0 == MultipartItem::Nested(subs_vec0),
                    subs_vec0@ == subs0,
                    subs@.len() <= subs0.len(),
                    subs@ =~= subs0.subrange(
                        subs0.len() - subs@.len(),
                        subs0.len() as int,
                    ),
                    out@ + flat_list(subs@) == flat_list(subs0),
                decreases subs@.len(),
            {
                let ghost before = subs@;
                let s = subs.remove(0);
                proof {
                    let k = subs0.len() - before.len();
                    assert(s == subs0[k as int]);
                    assert(item0 == MultipartItem::Nested(subs_vec0));
                    assert(item0->Nested_0 == subs_vec0);
                    assert(decreases_to!(item0 => item0->Nested_0));
                    assert(decreases_to!(subs_vec0 => subs_vec0@));
                    assert(decreases_to!(subs0 => subs0[k as int]));
                    assert(decreases_to!(item0 => s));
                    assert(subs@ =~= before.drop_first());
                    assert(flat_list(before) == flat_item(s) + flat_list(subs@));
                }
                let mut part = handle_multipart_item(s);
                let ghost out_before = out@;
                out.append(&mut part);
                proof {
                    assert(out@ + flat_list(subs@) =~= out_before + flat_list(before));
                }
            }
            proof {
                assert(flat_list(subs@) =~= Seq::<FieldData>::empty());
                assert(out@ =~= out@ + flat_list(subs@));
                assert(out@ == flat_list(subs0));
            }
            out
        },
    }
}

/// The total length of a sequence of chunks.
pub open spec fn total_len(cs: Seq<Vec<u8>>) -> int
    decreases cs.len(),
{
    if cs.len() == 0 {
        0
    } else {
        total_len(cs.drop_last()) + cs.last()@.len()
    }
}

/// The bytes of a sequence of chunks, concatenated in order: the content a
/// streamed write of those chunks leaves behind.
pub open spec fn flat_bytes(cs: Seq<Vec<u8>>) -> Seq<u8>
    decreases cs.len(),
{
    if cs.len() == 0 {
        Seq::empty()
    } else {
        flat_bytes(cs.drop_last()) + cs.last()@
    }
}

proof fn lemma_total_len_prefix(cs: Seq<Vec<u8>>, i: int)
    requires
        0 <= i <= cs.len(),
    ensures
        total_len(cs.take(i)) <= total_len(cs),
    decreases cs.len() - i,
{
    if i == cs.len() {
        assert(cs.take(i) =~= cs);
    } else {
        lemma_total_len_prefix(cs, i + 1);
        assert(cs.take(i + 1).drop_last() =~= cs.take(i));
        assert(cs.take(i + 1).last() == cs[i]);
    }
}

/// The running byte count a streamed write accumulates: the sum of the chunk
/// lengths, or nothing if that sum would not fit the counter.
pub fn count_bytes(chunks: &Vec<Vec<u8>>) -> (r: Option<i64>)
    ensures
        r matches Some(n) ==> n == total_len(chunks@),
        r is None <==> total_len(chunks@) > i64::MAX,
{
    let n = chunks.len();
    let mut acc: i64 = 0;
    proof {
        assert(chunks@.take(0) =~= Seq::<Vec<u8>>::empty());
    }
    let mut i: usize = 0;
    while i < n
        invariant
            0 <= i <= n == chunks@.len(),
            0 <= acc,
            acc == total_len(chunks@.take(i as int)),
        decreases n - i,
    {
        let len = chunks[i].len();
        proof {
            assert(chunks@.take(i + 1).drop_last() =~= chunks@.take(i as int));
            assert(chunks@.take(i + 1).last() == chunks@[i as int]);
        }
        if (len as u64) > (i64::MAX - acc) as u64 {
            proof {
                lemma_total_len_prefix(chunks@, i + 1);
            }
            return None;
        }
        acc = acc + len as i64;
        i += 1;
    }
    proof {
        assert(chunks@.take(n as int) =~= chunks@);
    }
    Some(acc)
}

/// Concatenates the chunks of a field: the content that a chunk-by-chunk
/// write of them produces.
pub fn concat_chunks(chunks: &Vec<Vec<u8>>) -> (r: Vec<u8>)
    ensures
        r@ == flat_bytes(chunks@),
{
    let mut r: Vec<u8> = Vec::new();
    proof {
        assert(chunks@.take(0) =~= Seq::<Vec<u8>>::empty());
        assert(r@ =~= flat_bytes(chunks@.take(0)));
    }
    let n = chunks.len();
    let mut i: usize = 0;
    while i < n
        invariant
            0 <= i <= n == chunks@.len(),
            r@ == flat_bytes(chunks@.take(i as int)),
        decreases n - i,
    {
        let m = chunks[i].len();
        let mut j: usize = 0;
        while j < m
            invariant
                0 <= j <= m == chunks@[i as int]@.len(),
                0 <= i < n == chunks@.len(),
                r@ == flat_bytes(chunks@.take(i as int)) + chunks@[i as int]@.take(j as int),
            decreases m - j,
        {
            r.push(chunks[i][j]);
            proof {
                assert(chunks@[i as int]@.take(j + 1) =~= chunks@[i as int]@.take(j as int).push(
                    chunks@[i as int]@[j as int],
                ));
                assert(r@ =~= flat_bytes(chunks@.take(i as int)) + chunks@[i as int]@.take(j + 1));
            }
            j += 1;
        }
        proof {
            assert(chunks@.take(i + 1).drop_last() =~= chunks@.take(i as int));
            assert(chunks@.take(i + 1).last() == chunks@[i as int]);
            assert(chunks@[i as int]@.take(m as int) =~= chunks@[i as int]@);
            assert(r@ == flat_bytes(chunks@.take(i + 1)));
        }
        i += 1;
    }
    proof {
        assert(chunks@.take(n as int) =~= chunks@);
    }
    r
}

/// The byte count of a field equals the length of the content its chunks
/// leave behind: what a successful upload reports as written is exactly the
/// size of the stored bytes.
pub proof fn lemma_count_is_content_len(cs: Seq<Vec<u8>>)
    ensures
        total_len(cs) == flat_bytes(cs).len(),
    decreases cs.len(),
{
    if cs.len() > 0 {
        lemma_count_is_content_len(cs.drop_last());
    }
}

/// A filename that contains a path separator always fails the pre-filesystem
/// checks with the traversal rejection, whatever the root and the other
/// parameters: no write can be reached with such a filename.
pub proof fn lemma_separator_in_filename_rejected(root: Seq<char>, ps: Seq<DispositionParam>)
    requires
        raw_name_of(ps).len() > 0,
        valid_utf8(raw_name_of(ps)),
        exists|i: int|
            0 <= i < decode_utf8(raw_name_of(ps)).len() && is_sep(decode_utf8(raw_name_of(ps))[i]),
    ensures
        field_plan(root, ps) == Err::<(Seq<char>, Seq<char>), UploadError>(
            UploadError::PathTraversalRejected,
        ),
{
    let name = decode_utf8(raw_name_of(ps));
    let i = choose|i: int| 0 <= i < name.len() && is_sep(name[i]);
    assert(!is_pure_filename(name));
}

} // verus!
