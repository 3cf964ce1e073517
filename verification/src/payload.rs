//! Lenient decoding of the API's JSON payloads. Field names vary across API
//! versions, so each field is looked up under a list of candidate keys, the
//! first one that holds a usable value winning.

use vstd::prelude::*;
use base64::Engine;
use crate::json::{Json, json_as_array, json_as_i64, json_as_str, json_as_u64, json_get};
use crate::error::{CloudError, Result};
use crate::model::{
    FilePart, FilePartView, Media, MediaId, MediaKind, MediaPage, MediaView, PageCursor, Profile,
    ProfileView, media_view, parts_view,
};
use crate::text::{
    after_last, before_first, chars_of, find_first, first_index_of, slice_chars,
    string_from_chars, contains, ends_with, opt_view, parse_u64, spec_parse_u64, spec_to_lowercase,
    str_after_last, str_contains, str_ends_with, to_lowercase,
};

verus! {

/// The characters of each key.
pub open spec fn key_views(keys: Seq<&str>) -> Seq<Seq<char>> {
    keys.map_values(|k: &str| k@)
}

/// The characters of an optional string slice.
pub open spec fn opt_str_view(o: Option<&str>) -> Option<Seq<char>> {
    match o {
        Some(s) => Some(s@),
        None => None,
    }
}

/// The string held under the first of `keys` whose value is a string.
pub open spec fn field_str(v: Json, keys: Seq<Seq<char>>) -> Option<Seq<char>>
    decreases keys.len(),
{
    if keys.len() == 0 {
        None
    } else {
        let found = match json_get(v, keys[0]) {
            Some(x) => json_as_str(x),
            None => None,
        };
        if found is Some {
            found
        } else {
            field_str(v, keys.drop_first())
        }
    }
}

/// A value read as an unsigned integer: a non-negative integer, or a string
/// that parses as one.
pub open spec fn value_u64(x: Json) -> Option<u64> {
    match json_as_u64(x) {
        Some(u) => Some(u),
        None => match json_as_str(x) {
            Some(s) => spec_parse_u64(s),
            None => None,
        },
    }
}

/// The unsigned integer held under the first of `keys` whose value reads as one.
pub open spec fn field_u64(v: Json, keys: Seq<Seq<char>>) -> Option<u64>
    decreases keys.len(),
{
    if keys.len() == 0 {
        None
    } else {
        let found = match json_get(v, keys[0]) {
            Some(x) => value_u64(x),
            None => None,
        };
        if found is Some {
            found
        } else {
            field_u64(v, keys.drop_first())
        }
    }
}

/// The array held under the first of `keys` whose value is an array.
pub open spec fn field_array(v: Json, keys: Seq<Seq<char>>) -> Option<Seq<Json>>
    decreases keys.len(),
{
    if keys.len() == 0 {
        None
    } else {
        let found = match json_get(v, keys[0]) {
            Some(x) => json_as_array(x),
            None => None,
        };
        if found is Some {
            found
        } else {
            field_array(v, keys.drop_first())
        }
    }
}

/// The first of `keys` whose value in `v` is a string, as an owned string.
pub fn as_str(v: &Json, keys: &[&str]) -> (r: Option<String>)
    ensures
        opt_view(r) == field_str(*v, key_views(keys@)),
{
    let ghost kv = key_views(keys@);
    let mut i: usize = 0;
    assert(kv.skip(0) =~= kv);
    while i < keys.len()
        invariant
            i <= keys.len(),
            kv == key_views(keys@),
            field_str(*v, kv) == field_str(*v, kv.skip(i as int)),
        decreases keys.len() - i,
    {
        assert(kv.skip(i as int)[0] == keys@[i as int]@);
        assert(kv.skip(i as int).drop_first() =~= kv.skip(i + 1));
        match v.get(keys[i]) {
            Some(x) => match x.as_str() {
                Some(s) => {
                    return Some(s.to_owned());
                },
                None => {},
            },
            None => {},
        }
        i = i + 1;
    }
    None
}

/// The first of `keys` whose value in `v` reads as an unsigned integer.
pub fn as_u64(v: &Json, keys: &[&str]) -> (r: Option<u64>)
    ensures
        r == field_u64(*v, key_views(keys@)),
{
    let ghost kv = key_views(keys@);
    let mut i: usize = 0;
    assert(kv.skip(0) =~= kv);
    while i < keys.len()
        invariant
            i <= keys.len(),
            kv == key_views(keys@),
            field_u64(*v, kv) == field_u64(*v, kv.skip(i as int)),
        decreases keys.len() - i,
    {
        assert(kv.skip(i as int)[0] == keys@[i as int]@);
        assert(kv.skip(i as int).drop_first() =~= kv.skip(i + 1));
        match v.get(keys[i]) {
            Some(n) => {
                match n.as_u64() {
                    Some(u) => {
                        return Some(u);
                    },
                    None => {},
                }
                match n.as_str() {
                    Some(s) => match parse_u64(s) {
                        Some(u) => {
                            return Some(u);
                        },
                        None => {},
                    },
                    None => {},
                }
            },
            None => {},
        }
        i = i + 1;
    }
    None
}

/// The first of `keys` whose value in `v` is an array.
pub fn as_array<'a>(v: &'a Json, keys: &[&str]) -> (r: Option<&'a Vec<Json>>)
    ensures
        match r {
            Some(a) => field_array(*v, key_views(keys@)) == Some(a@),
            None => field_array(*v, key_views(keys@)) is None,
        },
{
    let ghost kv = key_views(keys@);
    let mut i: usize = 0;
    assert(kv.skip(0) =~= kv);
    while i < keys.len()
        invariant
            i <= keys.len(),
            kv == key_views(keys@),
            field_array(*v, kv) == field_array(*v, kv.skip(i as int)),
        decreases keys.len() - i,
    {
        assert(kv.skip(i as int)[0] == keys@[i as int]@);
        assert(kv.skip(i as int).drop_first() =~= kv.skip(i + 1));
        match v.get(keys[i]) {
            Some(x) => match x.as_array() {
                Some(a) => {
                    return Some(a);
                },
                None => {},
            },
            None => {},
        }
        i = i + 1;
    }
    None
}

/// The media kind of a (lowercased) file name and the API's media type: the
/// file extension decides first, the media type second.
pub open spec fn spec_classify(media_type: Option<Seq<char>>, lower_name: Seq<char>) -> MediaKind {
    if ends_with(lower_name, ".insv"@) {
        MediaKind::Insv360
    } else if ends_with(lower_name, ".insp"@) || ends_with(lower_name, ".jpg"@) || ends_with(
        lower_name,
        ".dng"@,
    ) {
        MediaKind::Photo
    } else if ends_with(lower_name, ".mp4"@) {
        MediaKind::FlatVideo
    } else {
        match media_type {
            Some(t) => if contains(t, "photo"@) || contains(t, "image"@) {
                MediaKind::Photo
            } else if contains(t, "video"@) {
                MediaKind::FlatVideo
            } else {
                MediaKind::Other
            },
            None => MediaKind::Other,
        }
    }
}

/// The media kind of an already lowercased file name and a media type.
pub fn classify_lowered(media_type: Option<&str>, lower_name: &str) -> (r: MediaKind)
    ensures
        r == spec_classify(opt_str_view(media_type), lower_name@),
{
    if str_ends_with(lower_name, ".insv") {
        return MediaKind::Insv360;
    }
    if str_ends_with(lower_name, ".insp") || str_ends_with(lower_name, ".jpg") || str_ends_with(
        lower_name,
        ".dng",
    ) {
        return MediaKind::Photo;
    }
    if str_ends_with(lower_name, ".mp4") {
        return MediaKind::FlatVideo;
    }
    match media_type {
        Some(t) => if str_contains(t, "photo") || str_contains(t, "image") {
            MediaKind::Photo
        } else if str_contains(t, "video") {
            MediaKind::FlatVideo
        } else {
            MediaKind::Other
        },
        None => MediaKind::Other,
    }
}

/// The media kind of a file name (compared case-insensitively) and a media type.
pub fn classify(media_type: Option<&str>, name: &str) -> (r: MediaKind)
    ensures
        r == spec_classify(opt_str_view(media_type), spec_to_lowercase(name@)),
{
    let lower = to_lowercase(name);
    classify_lowered(media_type, lower.as_str())
}

/// Keys under which a part's download URL may stand.
pub open spec fn url_keys() -> Seq<Seq<char>> {
    seq!["download_url"@, "downloadUrl"@, "url"@, "downloadPath"@]
}

/// Keys under which a part's file name may stand.
pub open spec fn part_name_keys() -> Seq<Seq<char>> {
    seq!["fileName"@, "file_name"@, "name"@]
}

/// Keys under which a part's size may stand.
pub open spec fn part_size_keys() -> Seq<Seq<char>> {
    seq!["fileSize"@, "size"@, "mediaSize"@]
}

/// Keys under which a part's MD5 may stand.
pub open spec fn part_md5_keys() -> Seq<Seq<char>> {
    seq!["md5"@, "fileMd5"@, "coverMd5"@]
}

/// Keys under which the list of parts may stand.
pub open spec fn parts_list_keys() -> Seq<Seq<char>> {
    seq!["paths"@, "files"@, "fileList"@, "mediaUploadRespList"@, "downloadList"@]
}

/// Keys under which the list of parts may stand inside a nested `data` object.
pub open spec fn nested_parts_list_keys() -> Seq<Seq<char>> {
    seq!["paths"@, "files"@, "fileList"@]
}

/// Keys under which a single-file object's name may stand.
pub open spec fn single_name_keys() -> Seq<Seq<char>> {
    seq!["mediaName"@, "fileName"@, "name"@]
}

/// Keys under which a single-file object's size may stand.
pub open spec fn single_size_keys() -> Seq<Seq<char>> {
    seq!["downOriginalSize"@, "fileSize"@, "mediaSize"@]
}

/// Keys under which a single-file object's MD5 may stand.
pub open spec fn single_md5_keys() -> Seq<Seq<char>> {
    seq!["md5"@, "coverMd5"@]
}

/// A part read from an object with the given key lists: present when the
/// object carries a URL; the name defaults to the URL's last path segment,
/// the size to 0.
pub open spec fn spec_part_with(
    it: Json,
    name_keys: Seq<Seq<char>>,
    size_keys: Seq<Seq<char>>,
    md5_keys: Seq<Seq<char>>,
) -> Option<FilePartView> {
    match field_str(it, url_keys()) {
        None => None,
        Some(url) => Some(
            FilePartView {
                file_name: match field_str(it, name_keys) {
                    Some(n) => n,
                    None => after_last(url, '/'),
                },
                size: match field_u64(it, size_keys) {
                    Some(n) => n,
                    None => 0,
                },
                url: url,
                md5: field_str(it, md5_keys),
            },
        ),
    }
}

/// A part read from one element of a parts list.
pub open spec fn spec_part_of_item(it: Json) -> Option<FilePartView> {
    spec_part_with(it, part_name_keys(), part_size_keys(), part_md5_keys())
}

/// The parts read from the elements of a parts list (elements without a URL
/// are skipped).
pub open spec fn parts_of_items(items: Seq<Json>) -> Seq<FilePartView>
    decreases items.len(),
{
    if items.len() == 0 {
        Seq::empty()
    } else {
        let init = parts_of_items(items.drop_last());
        match spec_part_of_item(items.last()) {
            Some(p) => init.push(p),
            None => init,
        }
    }
}

/// The list of parts of a response object: a direct list, or one nested
/// under `data`.
pub open spec fn parts_array(v: Json) -> Option<Seq<Json>> {
    let direct = field_array(v, parts_list_keys());
    if direct is Some {
        direct
    } else {
        match json_get(v, "data"@) {
            Some(d) => field_array(d, nested_parts_list_keys()),
            None => None,
        }
    }
}

/// The file parts described by a media / detail / download object: those of
/// its parts list if it has one, else the single file the object itself
/// points at, else none.
pub open spec fn spec_parse_file_parts(v: Json) -> Seq<FilePartView> {
    match parts_array(v) {
        Some(items) => parts_of_items(items),
        None => match spec_part_with(v, single_name_keys(), single_size_keys(), single_md5_keys()) {
            Some(p) => seq![p],
            None => Seq::empty(),
        },
    }
}

fn part_with(
    it: &Json,
    name_keys: &[&str],
    size_keys: &[&str],
    md5_keys: &[&str],
) -> (r: Option<FilePart>)
    ensures
        match r {
            Some(p) => spec_part_with(
                *it,
                key_views(name_keys@),
                key_views(size_keys@),
                key_views(md5_keys@),
            ) == Some(p@),
            None => spec_part_with(
                *it,
                key_views(name_keys@),
                key_views(size_keys@),
                key_views(md5_keys@),
            ) is None,
        },
{
    let keys = ["download_url", "downloadUrl", "url", "downloadPath"];
    assert(key_views(keys@) =~= url_keys());
    let url = match as_str(it, keys.as_slice()) {
        Some(u) => u,
        None => {
            return None;
        },
    };
    let file_name = match as_str(it, name_keys) {
        Some(n) => n,
        None => str_after_last(url.as_str(), '/'),
    };
    let size = match as_u64(it, size_keys) {
        Some(n) => n,
        None => 0,
    };
    let md5 = as_str(it, md5_keys);
    Some(FilePart { file_name, size, url, md5 })
}

fn part_of_item(it: &Json) -> (r: Option<FilePart>)
    ensures
        match r {
            Some(p) => spec_part_of_item(*it) == Some(p@),
            None => spec_part_of_item(*it) is None,
        },
{
    let name_keys = ["fileName", "file_name", "name"];
    let size_keys = ["fileSize", "size", "mediaSize"];
    let md5_keys = ["md5", "fileMd5", "coverMd5"];
    assert(key_views(name_keys@) =~= part_name_keys());
    assert(key_views(size_keys@) =~= part_size_keys());
    assert(key_views(md5_keys@) =~= part_md5_keys());
    part_with(it, name_keys.as_slice(), size_keys.as_slice(), md5_keys.as_slice())
}

fn parts_from_items(items: &Vec<Json>) -> (r: Vec<FilePart>)
    ensures
        parts_view(r@) == parts_of_items(items@),
{
    let mut out: Vec<FilePart> = Vec::new();
    let mut i: usize = 0;
    while i < items.len()
        invariant
            i <= items.len(),
            parts_view(out@) == parts_of_items(items@.take(i as int)),
        decreases items.len() - i,
    {
        assert(items@.take(i + 1).drop_last() =~= items@.take(i as int));
        assert(items@.take(i + 1).last() == items@[i as int]);
        match part_of_item(&items[i]) {
            Some(p) => {
                out.push(p);
                assert(parts_view(out@) =~= parts_of_items(items@.take(i + 1)));
            },
            None => {},
        }
        i = i + 1;
    }
    assert(items@.take(items@.len() as int) =~= items@);
    out
}

/// Extract the file parts from a media / detail / download JSON object.
pub fn parse_file_parts(v: &Json) -> (r: Vec<FilePart>)
    ensures
        parts_view(r@) == spec_parse_file_parts(*v),
{
    let list_keys = ["paths", "files", "fileList", "mediaUploadRespList", "downloadList"];
    assert(key_views(list_keys@) =~= parts_list_keys());
    let direct = as_array(v, list_keys.as_slice());
    let arr = match direct {
        Some(a) => Some(a),
        None => match v.get("data") {
            Some(d) => {
                let nested_keys = ["paths", "files", "fileList"];
                assert(key_views(nested_keys@) =~= nested_parts_list_keys());
                as_array(d, nested_keys.as_slice())
            },
            None => None,
        },
    };
    match arr {
        Some(items) => parts_from_items(items),
        None => {
            let name_keys = ["mediaName", "fileName", "name"];
            let size_keys = ["downOriginalSize", "fileSize", "mediaSize"];
            let md5_keys = ["md5", "coverMd5"];
            assert(key_views(name_keys@) =~= single_name_keys());
            assert(key_views(size_keys@) =~= single_size_keys());
            assert(key_views(md5_keys@) =~= single_md5_keys());
            match part_with(v, name_keys.as_slice(), size_keys.as_slice(), md5_keys.as_slice()) {
                Some(p) => {
                    let mut out: Vec<FilePart> = Vec::new();
                    out.push(p);
                    assert(parts_view(out@) =~= seq![p@]);
                    out
                },
                None => {
                    let out: Vec<FilePart> = Vec::new();
                    assert(parts_view(out@) =~= Seq::<FilePartView>::empty());
                    out
                },
            }
        },
    }
}

/// The parts named by a list of file names (non-string elements are
/// skipped): name only, size 0, no URL, no MD5.
pub open spec fn names_as_parts(items: Seq<Json>) -> Seq<FilePartView>
    decreases items.len(),
{
    if items.len() == 0 {
        Seq::empty()
    } else {
        let init = names_as_parts(items.drop_last());
        match json_as_str(items.last()) {
            Some(n) => init.push(
                FilePartView { file_name: n, size: 0, url: Seq::empty(), md5: None },
            ),
            None => init,
        }
    }
}

/// The parts of a media object: its downloadable parts, or when it has none
/// the name-only parts of its `fileItems` list.
pub open spec fn spec_media_parts(v: Json) -> Seq<FilePartView> {
    let parts = spec_parse_file_parts(v);
    if parts.len() > 0 {
        parts
    } else {
        match json_get(v, "fileItems"@) {
            Some(x) => match json_as_array(x) {
                Some(items) => names_as_parts(items),
                None => parts,
            },
            None => parts,
        }
    }
}

/// Keys of a media item's id.
pub open spec fn media_id_keys() -> Seq<Seq<char>> {
    seq!["mediaId"@, "id"@, "uuid"@]
}

/// Keys of a media item's name.
pub open spec fn media_name_keys() -> Seq<Seq<char>> {
    seq!["mediaName"@, "name"@, "fileName"@]
}

/// Keys of a media item's type.
pub open spec fn media_type_keys() -> Seq<Seq<char>> {
    seq!["mediaType"@, "type"@]
}

/// Keys of a media item's size.
pub open spec fn media_size_keys() -> Seq<Seq<char>> {
    seq!["mediaSize"@, "downOriginalSize"@, "fileSize"@, "file_size"@]
}

/// Keys of a media item's capture time.
pub open spec fn media_time_keys() -> Seq<Seq<char>> {
    seq!["createTime"@, "mediaTime"@, "create_time"@, "upload_time_s"@]
}

/// Keys of a media item's camera model.
pub open spec fn camera_keys() -> Seq<Seq<char>> {
    seq!["cameraType"@, "camera_name"@, "cameraName"@, "camera"@]
}

/// A capture time in unix seconds: values above 10^12 are milliseconds.
pub open spec fn spec_media_time(u: u64) -> i64 {
    if u > 1000000000000 {
        (u / 1000) as i64
    } else {
        u as i64
    }
}

/// A media name: the name field, else the id.
pub open spec fn spec_media_name(v: Json, id: Seq<char>) -> Seq<char> {
    match field_str(v, media_name_keys()) {
        Some(n) => n,
        None => id,
    }
}

/// The media item described by a list / detail object: present when it
/// carries an id.
pub open spec fn spec_parse_media(v: Json) -> Option<MediaView> {
    match field_str(v, media_id_keys()) {
        None => None,
        Some(id) => {
            let name = spec_media_name(v, id);
            Some(
                MediaView {
                    id: id,
                    name: name,
                    kind: spec_classify(field_str(v, media_type_keys()), spec_to_lowercase(name)),
                    size_original: match field_u64(v, media_size_keys()) {
                        Some(n) => n,
                        None => 0,
                    },
                    time_unix: match field_u64(v, media_time_keys()) {
                        Some(u) => Some(spec_media_time(u)),
                        None => None,
                    },
                    camera: field_str(v, camera_keys()),
                    parts: spec_media_parts(v),
                },
            )
        },
    }
}

fn names_to_parts(items: &Vec<Json>) -> (r: Vec<FilePart>)
    ensures
        parts_view(r@) == names_as_parts(items@),
{
    let mut out: Vec<FilePart> = Vec::new();
    let mut i: usize = 0;
    while i < items.len()
        invariant
            i <= items.len(),
            parts_view(out@) == names_as_parts(items@.take(i as int)),
        decreases items.len() - i,
    {
        assert(items@.take(i + 1).drop_last() =~= items@.take(i as int));
        assert(items@.take(i + 1).last() == items@[i as int]);
        match items[i].as_str() {
            Some(n) => {
                out.push(FilePart { file_name: n.to_owned(), size: 0, url: String::new(), md5: None });
                assert(parts_view(out@) =~= names_as_parts(items@.take(i + 1)));
            },
            None => {},
        }
        i = i + 1;
    }
    assert(items@.take(items@.len() as int) =~= items@);
    out
}

fn media_time(u: u64) -> (t: i64)
    ensures
        t == spec_media_time(u),
{
    if u > 1000000000000 {
        (u / 1000) as i64
    } else {
        u as i64
    }
}

/// Parse a single media object (a list or detail item).
pub fn parse_media(v: &Json) -> (r: Option<Media>)
    ensures
        match r {
            Some(m) => spec_parse_media(*v) == Some(m@),
            None => spec_parse_media(*v) is None,
        },
{
    let id_keys = ["mediaId", "id", "uuid"];
    assert(key_views(id_keys@) =~= media_id_keys());
    let id = match as_str(v, id_keys.as_slice()) {
        Some(i) => i,
        None => {
            return None;
        },
    };
    let name_keys = ["mediaName", "name", "fileName"];
    assert(key_views(name_keys@) =~= media_name_keys());
    let name = match as_str(v, name_keys.as_slice()) {
        Some(n) => n,
        None => id.clone(),
    };
    let type_keys = ["mediaType", "type"];
    assert(key_views(type_keys@) =~= media_type_keys());
    let media_type = as_str(v, type_keys.as_slice());
    let kind = match &media_type {
        Some(t) => classify(Some(t.as_str()), name.as_str()),
        None => classify(None, name.as_str()),
    };
    let size_keys = ["mediaSize", "downOriginalSize", "fileSize", "file_size"];
    assert(key_views(size_keys@) =~= media_size_keys());
    let size = match as_u64(v, size_keys.as_slice()) {
        Some(n) => n,
        None => 0,
    };
    let time_keys = ["createTime", "mediaTime", "create_time", "upload_time_s"];
    assert(key_views(time_keys@) =~= media_time_keys());
    let time = match as_u64(v, time_keys.as_slice()) {
        Some(u) => Some(media_time(u)),
        None => None,
    };
    let cam_keys = ["cameraType", "camera_name", "cameraName", "camera"];
    assert(key_views(cam_keys@) =~= camera_keys());
    let camera = as_str(v, cam_keys.as_slice());
    let mut parts = parse_file_parts(v);
    if parts.len() == 0 {
        match v.get("fileItems") {
            Some(x) => match x.as_array() {
                Some(items) => {
                    parts = names_to_parts(items);
                },
                None => {},
            },
            None => {},
        }
    }
    Some(
        Media {
            id: MediaId(id),
            name,
            kind,
            size_original: size,
            time_unix: time,
            camera,
            parts,
        },
    )
}

/// Keys under which a listing's items may stand.
pub open spec fn page_list_keys() -> Seq<Seq<char>> {
    seq!["list"@, "mediaVos"@, "mediaInfos"@, "medias"@, "items"@]
}

/// Keys under which a listing's total count may stand.
pub open spec fn total_keys() -> Seq<Seq<char>> {
    seq!["total_count"@, "totalCount"@, "total"@, "count"@]
}

/// The raw items of a listing: a named list, else the object itself when it
/// is an array, else none.
pub open spec fn page_items(v: Json) -> Seq<Json> {
    match field_array(v, page_list_keys()) {
        Some(a) => a,
        None => match json_as_array(v) {
            Some(a) => a,
            None => Seq::empty(),
        },
    }
}

/// The media read from raw listing items (items without an id are skipped).
pub open spec fn media_of_items(items: Seq<Json>) -> Seq<MediaView>
    decreases items.len(),
{
    if items.len() == 0 {
        Seq::empty()
    } else {
        let init = media_of_items(items.drop_last());
        match spec_parse_media(items.last()) {
            Some(m) => init.push(m),
            None => init,
        }
    }
}

/// How many raw listing items carry an id.
pub open spec fn id_count(items: Seq<Json>) -> nat
    decreases items.len(),
{
    if items.len() == 0 {
        0
    } else {
        id_count(items.drop_last()) + if field_str(items.last(), media_id_keys()) is Some {
            1nat
        } else {
            0nat
        }
    }
}

/// Whether a listing page has a successor: with a known total, when the
/// pages so far do not cover it and this page was not empty; without one,
/// when this page was full (its item count, truncated to 32 bits, equals the
/// page size).
pub open spec fn has_next_page(total: Option<u64>, n_items: nat, cursor: PageCursor) -> bool {
    match total {
        Some(t) => (cursor.page as int * cursor.count as int) < t && n_items > 0,
        None => (n_items as u32) == cursor.count,
    }
}

/// The number of media read from raw items is the number of items with an id.
pub proof fn lemma_media_count(items: Seq<Json>)
    ensures
        media_of_items(items).len() == id_count(items),
    decreases items.len(),
{
    if items.len() > 0 {
        lemma_media_count(items.drop_last());
    }
}

/// Whether a listing response has a page after the one at `cursor` (the
/// condition under which parsing it asks for the successor cursor).
pub fn page_has_next(v: &Json, cursor: &PageCursor) -> (r: bool)
    ensures
        r == has_next_page(field_u64(*v, total_keys()), id_count(page_items(*v)), *cursor),
{
    let list_keys = ["list", "mediaVos", "mediaInfos", "medias", "items"];
    assert(key_views(list_keys@) =~= page_list_keys());
    let empty: Vec<Json> = Vec::new();
    let arr: &Vec<Json> = match as_array(v, list_keys.as_slice()) {
        Some(a) => a,
        None => match v.as_array() {
            Some(a) => a,
            None => &empty,
        },
    };
    assert(arr@ == page_items(*v));
    let id_keys = ["mediaId", "id", "uuid"];
    assert(key_views(id_keys@) =~= media_id_keys());
    let mut count: usize = 0;
    let mut i: usize = 0;
    while i < arr.len()
        invariant
            i <= arr.len(),
            count <= i,
            key_views(id_keys@) == media_id_keys(),
            count as nat == id_count(arr@.take(i as int)),
        decreases arr.len() - i,
    {
        assert(arr@.take(i + 1).drop_last() =~= arr@.take(i as int));
        assert(arr@.take(i + 1).last() == arr@[i as int]);
        if as_str(&arr[i], id_keys.as_slice()).is_some() {
            count = count + 1;
        }
        i = i + 1;
    }
    assert(arr@.take(arr@.len() as int) =~= arr@);
    let t_keys = ["total_count", "totalCount", "total", "count"];
    assert(key_views(t_keys@) =~= total_keys());
    let total = as_u64(v, t_keys.as_slice());
    let pg: u64 = cursor.page as u64;
    let ct: u64 = cursor.count as u64;
    assert(pg * ct <= 0xFFFF_FFFE_0000_0001) by (nonlinear_arith)
        requires
            pg <= 0xFFFF_FFFF,
            ct <= 0xFFFF_FFFF,
    ;
    match total {
        Some(t) => pg * ct < t && count > 0,
        None => count as u32 == cursor.count,
    }
}

/// Parse a listing response into a page.
pub fn parse_media_page(v: &Json, cursor: &PageCursor) -> (r: Result<MediaPage>)
    requires
        cursor.page < u32::MAX || !has_next_page(
            field_u64(*v, total_keys()),
            id_count(page_items(*v)),
            *cursor,
        ),
    ensures
        r matches Ok(page) && {
            &&& media_view(page.items@) == media_of_items(page_items(*v))
            &&& page.total == field_u64(*v, total_keys())
            &&& page.next == if has_next_page(page.total, id_count(page_items(*v)), *cursor) {
                Some(PageCursor { page: (cursor.page + 1) as u32, count: cursor.count })
            } else {
                None
            }
        },
{
    let list_keys = ["list", "mediaVos", "mediaInfos", "medias", "items"];
    assert(key_views(list_keys@) =~= page_list_keys());
    let empty: Vec<Json> = Vec::new();
    let arr: &Vec<Json> = match as_array(v, list_keys.as_slice()) {
        Some(a) => a,
        None => match v.as_array() {
            Some(a) => a,
            None => &empty,
        },
    };
    assert(arr@ == page_items(*v));
    let mut items: Vec<Media> = Vec::new();
    let mut i: usize = 0;
    while i < arr.len()
        invariant
            i <= arr.len(),
            media_view(items@) == media_of_items(arr@.take(i as int)),
        decreases arr.len() - i,
    {
        assert(arr@.take(i + 1).drop_last() =~= arr@.take(i as int));
        assert(arr@.take(i + 1).last() == arr@[i as int]);
        match parse_media(&arr[i]) {
            Some(m) => {
                items.push(m);
                assert(media_view(items@) =~= media_of_items(arr@.take(i + 1)));
            },
            None => {},
        }
        i = i + 1;
    }
    assert(arr@.take(arr@.len() as int) =~= arr@);
    proof {
        lemma_media_count(arr@);
    }
    let t_keys = ["total_count", "totalCount", "total", "count"];
    assert(key_views(t_keys@) =~= total_keys());
    let total = as_u64(v, t_keys.as_slice());
    let pg: u64 = cursor.page as u64;
    let ct: u64 = cursor.count as u64;
    assert(pg * ct <= 0xFFFF_FFFE_0000_0001) by (nonlinear_arith)
        requires
            pg <= 0xFFFF_FFFF,
            ct <= 0xFFFF_FFFF,
    ;
    let got_so_far: u64 = pg * ct;
    let next = match total {
        Some(t) => if got_so_far < t && items.len() > 0 {
            Some(cursor.next())
        } else {
            None
        },
        None => if items.len() as u32 == cursor.count {
            Some(cursor.next())
        } else {
            None
        },
    };
    Ok(MediaPage { items, total, next })
}

/// Keys of the profile's account id.
pub open spec fn user_id_keys() -> Seq<Seq<char>> {
    seq!["userId"@, "ins_user_id"@, "id"@, "accountId"@, "openId"@]
}

/// Keys of the profile's email.
pub open spec fn email_keys() -> Seq<Seq<char>> {
    seq!["userEmail"@, "email"@, "bindEmail"@]
}

/// Keys of the profile's display name.
pub open spec fn user_name_keys() -> Seq<Seq<char>> {
    seq!["nickName"@, "nickname"@, "userName"@, "username"@, "name"@]
}

/// The object that holds the profile: the nested `account` member when
/// present, else the payload itself.
pub open spec fn profile_object(raw: Json) -> Json {
    match json_get(raw, "account"@) {
        Some(a) => a,
        None => raw,
    }
}

/// The profile read from a profile payload.
pub open spec fn spec_profile(raw: Json) -> ProfileView {
    let obj = profile_object(raw);
    ProfileView {
        user_id: field_str(obj, user_id_keys()),
        email: field_str(obj, email_keys()),
        name: field_str(obj, user_name_keys()),
    }
}

/// Read the profile from the payload of the profile endpoint.
pub fn profile_from_data(raw: &Json) -> (p: Profile)
    ensures
        p@ == spec_profile(*raw),
{
    let obj: &Json = match raw.get("account") {
        Some(a) => a,
        None => raw,
    };
    let id_keys = ["userId", "ins_user_id", "id", "accountId", "openId"];
    let mail_keys = ["userEmail", "email", "bindEmail"];
    let name_keys = ["nickName", "nickname", "userName", "username", "name"];
    assert(key_views(id_keys@) =~= user_id_keys());
    assert(key_views(mail_keys@) =~= email_keys());
    assert(key_views(name_keys@) =~= user_name_keys());
    Profile {
        user_id: as_str(obj, id_keys.as_slice()),
        email: as_str(obj, mail_keys.as_slice()),
        name: as_str(obj, name_keys.as_slice()),
    }
}

/// The media of a detail payload; an API error when it describes none.
pub fn media_from_detail(raw: &Json) -> (r: Result<Media>)
    ensures
        match spec_parse_media(*raw) {
            Some(m) => r matches Ok(x) && x@ == m,
            None => r matches Err(CloudError::Api { code, message }) && code == 0 && message@
                == "detail had no media"@,
        },
{
    match parse_media(raw) {
        Some(m) => Ok(m),
        None => Err(CloudError::Api { code: 0, message: "detail had no media".to_owned() }),
    }
}

/// The file parts of a download-resolve payload; an API error when it
/// describes none.
pub fn parts_from_download(raw: &Json) -> (r: Result<Vec<FilePart>>)
    ensures
        spec_parse_file_parts(*raw).len() > 0 ==> (r matches Ok(parts) && parts_view(parts@)
            == spec_parse_file_parts(*raw)),
        spec_parse_file_parts(*raw).len() == 0 ==> (r matches Err(CloudError::Api { code, message })
            && code == 0 && message@ == "download response had no file parts"@),
{
    let parts = parse_file_parts(raw);
    if parts.len() == 0 {
        return Err(
            CloudError::Api { code: 0, message: "download response had no file parts".to_owned() },
        );
    }
    Ok(parts)
}

/// Error of base64 decoding.
#[verifier::external_type_specification]
#[verifier::external_body]
pub struct ExDecodeError(base64::DecodeError);

/// What base64url (no padding) decoding yields for a text, when it is valid.
pub uninterp spec fn spec_base64_url_decode(text: Seq<char>) -> Option<Seq<u8>>;

/// Trusted wrapper of `base64::engine::general_purpose::URL_SAFE_NO_PAD.decode`:
/// the decoded bytes, or an error for text that is not valid unpadded
/// base64url; both named by `spec_base64_url_decode`.
#[verifier::external_body]
fn base64_url_decode(text: &str) -> (r: core::result::Result<Vec<u8>, base64::DecodeError>)
    ensures
        match r {
            Ok(v) => spec_base64_url_decode(text@) == Some(v@),
            Err(_) => spec_base64_url_decode(text@) is None,
        },
{
    base64::engine::general_purpose::URL_SAFE_NO_PAD.decode(text)
}

/// The payload segment of a JWT: what lies between its first and second
/// `.` (or after the first `.` when there is no second); none without a `.`.
pub open spec fn jwt_payload_segment(token: Seq<char>) -> Option<Seq<char>> {
    let i = first_index_of(token, '.');
    if i == token.len() {
        None
    } else {
        Some(before_first(token.skip(i + 1), '.'))
    }
}

/// The decoded payload bytes of a JWT, without verifying its signature.
pub fn jwt_payload(token: &str) -> (r: Option<Vec<u8>>)
    ensures
        match jwt_payload_segment(token@) {
            Some(p) => match r {
                Some(v) => spec_base64_url_decode(p) == Some(v@),
                None => spec_base64_url_decode(p) is None,
            },
            None => r is None,
        },
{
    let cs = chars_of(token);
    let i = find_first(&cs, '.');
    if i == cs.len() {
        return None;
    }
    let rest = slice_chars(&cs, i + 1, cs.len());
    assert(rest@ =~= token@.skip(i + 1));
    let j = find_first(&rest, '.');
    let seg = string_from_chars(slice_chars(&rest, 0, j).as_slice());
    match base64_url_decode(seg.as_str()) {
        Ok(v) => Some(v),
        Err(_) => None,
    }
}

/// The `exp` claim (unix seconds) of decoded JWT claims, when it is an
/// integer in the `i64` range.
pub open spec fn spec_exp_claim(claims: Json) -> Option<i64> {
    match json_get(claims, "exp"@) {
        Some(x) => json_as_i64(x),
        None => None,
    }
}

/// The `exp` claim of decoded JWT claims.
pub fn jwt_exp_claim(claims: &Json) -> (r: Option<i64>)
    ensures
        r == spec_exp_claim(*claims),
{
    match claims.get("exp") {
        Some(x) => x.as_i64(),
        None => None,
    }
}

} // verus!


