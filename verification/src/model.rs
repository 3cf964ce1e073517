//! Wire and domain types for cloud media.
//!
//! The API wraps every response in an envelope `{ code, ..., data }`. Media
//! items can be multi-file (a dual-lens `.insv` is two files; a single-lens
//! clip is one): one logical [`Media`] owns a list of [`FilePart`]s.

use vstd::prelude::*;
use crate::text::opt_view;

verus! {

/// Standard response envelope: a status code (`code`/`errCode`), a message
/// (`errInfo`/`msg`/`message`) and the payload.
#[derive(Debug)]
pub struct Envelope<T> {
    pub code: Option<i64>,
    pub message: Option<String>,
    pub data: Option<T>,
}

/// Whether an envelope code reports success (0 or absent).
pub open spec fn code_is_ok(code: Option<i64>) -> bool {
    match code {
        Some(c) => c == 0,
        None => true,
    }
}

impl<T> Envelope<T> {
    /// `true` when the envelope reports success (`code` is 0 or absent).
    pub fn is_ok(&self) -> (r: bool)
        ensures
            r == code_is_ok(self.code),
    {
        match self.code {
            Some(c) => c == 0,
            None => true,
        }
    }
}

/// Opaque identifier for a cloud media item.
#[derive(Debug, Clone, PartialEq, Eq, Hash)]
pub struct MediaId(pub String);

impl View for MediaId {
    type V = Seq<char>;

    open spec fn view(&self) -> Seq<char> {
        self.0@
    }
}

/// Kind of media, derived from the file name and the API's `mediaType`.
#[derive(Debug, Clone, Copy, PartialEq, Eq, Structural)]
pub enum MediaKind {
    /// 360 footage (`.insv`), single- or dual-lens.
    Insv360,
    /// Flat / standard video (`.mp4`).
    FlatVideo,
    /// Photo (`.insp`/`.jpg`/`.dng`).
    Photo,
    /// Unknown / not yet mapped.
    Other,
}

/// One downloadable file belonging to a [`Media`].
#[derive(Debug, Clone)]
pub struct FilePart {
    /// Original filename, e.g. `VID_20250514_192854_00_005.insv`.
    pub file_name: String,
    /// Size in bytes as reported by the API (0 when unknown).
    pub size: u64,
    /// Signed download URL (short-lived; resolve just-in-time).
    pub url: String,
    /// Expected MD5 if the API provides one.
    pub md5: Option<String>,
}

/// The abstract content of a [`FilePart`].
pub struct FilePartView {
    pub file_name: Seq<char>,
    pub size: u64,
    pub url: Seq<char>,
    pub md5: Option<Seq<char>>,
}

impl View for FilePart {
    type V = FilePartView;

    open spec fn view(&self) -> FilePartView {
        FilePartView {
            file_name: self.file_name@,
            size: self.size,
            url: self.url@,
            md5: opt_view(self.md5),
        }
    }
}

/// The abstract contents of a list of parts.
pub open spec fn parts_view(parts: Seq<FilePart>) -> Seq<FilePartView> {
    parts.map_values(|p: FilePart| p@)
}

/// A logical cloud media asset (may span multiple [`FilePart`]s).
#[derive(Debug, Clone)]
pub struct Media {
    pub id: MediaId,
    /// Display / base name.
    pub name: String,
    pub kind: MediaKind,
    /// Original size in bytes (0 when unknown).
    pub size_original: u64,
    /// Capture time (unix seconds) if known.
    pub time_unix: Option<i64>,
    /// Camera model if the API reports it.
    pub camera: Option<String>,
    /// The files that make up this asset.
    pub parts: Vec<FilePart>,
}

/// The abstract content of a [`Media`].
pub struct MediaView {
    pub id: Seq<char>,
    pub name: Seq<char>,
    pub kind: MediaKind,
    pub size_original: u64,
    pub time_unix: Option<i64>,
    pub camera: Option<Seq<char>>,
    pub parts: Seq<FilePartView>,
}

impl View for Media {
    type V = MediaView;

    open spec fn view(&self) -> MediaView {
        MediaView {
            id: self.id@,
            name: self.name@,
            kind: self.kind,
            size_original: self.size_original,
            time_unix: self.time_unix,
            camera: opt_view(self.camera),
            parts: parts_view(self.parts@),
        }
    }
}

/// The abstract contents of a list of media.
pub open spec fn media_view(items: Seq<Media>) -> Seq<MediaView> {
    items.map_values(|m: Media| m@)
}

/// One page of a media listing plus the cursor to fetch the next page.
#[derive(Debug, Clone)]
pub struct MediaPage {
    pub items: Vec<Media>,
    /// Total item count reported by the API, if present.
    pub total: Option<u64>,
    /// Cursor of the next page; `None` when there are no more pages.
    pub next: Option<PageCursor>,
}

/// Pagination request cursor.
#[derive(Debug, Clone, Copy, PartialEq, Eq, Structural)]
pub struct PageCursor {
    /// Page index (1-based).
    pub page: u32,
    /// Page size.
    pub count: u32,
}

impl Default for PageCursor {
    fn default() -> (r: PageCursor)
        ensures
            r == (PageCursor { page: 0, count: 0 }),
    {
        PageCursor { page: 0, count: 0 }
    }
}

impl PageCursor {
    /// The first page, of `count` items.
    pub fn first(count: u32) -> (r: PageCursor)
        ensures
            r == (PageCursor { page: 1, count }),
    {
        PageCursor { page: 1, count }
    }

    /// The page after this one, of the same size.
    pub fn next(&self) -> (r: PageCursor)
        requires
            self.page < u32::MAX,
        ensures
            r == (PageCursor { page: (self.page + 1) as u32, count: self.count }),
    {
        PageCursor { page: self.page + 1, count: self.count }
    }
}

/// Authenticated account profile (the subset the client needs).
#[derive(Debug, Clone)]
pub struct Profile {
    pub user_id: Option<String>,
    pub email: Option<String>,
    pub name: Option<String>,
}

/// The abstract content of a [`Profile`].
pub struct ProfileView {
    pub user_id: Option<Seq<char>>,
    pub email: Option<Seq<char>>,
    pub name: Option<Seq<char>>,
}

impl View for Profile {
    type V = ProfileView;

    open spec fn view(&self) -> ProfileView {
        ProfileView {
            user_id: opt_view(self.user_id),
            email: opt_view(self.email),
            name: opt_view(self.name),
        }
    }
}

} // verus!
