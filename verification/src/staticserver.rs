//! Serving files that were read into memory.
//!
//! A directory server answers for one mount path. It holds the files found
//! for it, each with its content, its content type and the path it is asked
//! for by. Asked for the mount path itself it gives its index file, or a
//! page that lists the files.

use vstd::prelude::*;
use vstd::utf8::encode_utf8;
use crate::common::{
    copy_text, text_is, HttpStatus, MimeType, ResponseTextWrapper, Templates,
};
use crate::response::{is_string_response, respond_with_string};
use crate::text::{
    append, contains, contains_text, from_chars, join, join_with, replace, replace_all, to_chars,
    views,
};
use crate::uri::{bare_path, compose_server_name, server_name, strip_slashes};

verus! {

/// The page that lists the files of a directory; the list takes the place
/// of `REPLACE_ALL`.
pub const HTML_SERVER: &'static str =
    "<html data-theme=\"coffee\"><head><title>Chuby-HTTP FileServer --- Powered by Ritalin</title><link rel=\"preconnect\" href=\"https://fonts.googleapis.com\"><link rel=\"preconnect\" href=\"https://fonts.gstatic.com\" crossorigin><link href=\"https://fonts.googleapis.com/css2?family=Roboto:wght@300&display=swap\" rel=\"stylesheet\"><link href=\"https://cdn.jsdelivr.net/npm/daisyui@2.14.3/dist/full.css\" rel=\"stylesheet\" type=\"text/css\"/><script src=\"https://cdn.tailwindcss.com\"></script><link rel=\"stylesheet\" href=\"https://cdnjs.cloudflare.com/ajax/libs/tailwindcss/2.2.19/tailwind.min.css\" integrity=\"sha512-wnea99uKIC3TJF7v4eKk4Y+lMz2Mklv18+r4na2Gn1abDRPPOeef95xTzdwGD9e6zXJBteMIhZ1+68QC5byJZw==\" crossorigin=\"anonymous\" referrerpolicy=\"no-referrer\"/></head><body><div class=\"flex flex-col place-items-center m-5 border-opacity-50\">REPLACE_ALL</div><div class=\"grid h-20 w-full m-3 card bg-base-200 rounded-box place-items-center footer\"><div class=\"footer-center\">Powered by Samovar<br>Find me on Github: <a href=\"https://github.com/chbuek\">github.com/chubek</a></div></div></html>";

/// One file in the list of a directory.
pub const HTML_FILE: &'static str =
    " <div class=\"grid h-20 w-3/5 m-3 card bg-base-300 rounded-box place-items-center\"> <span class=\"indicator-item badge REPLACE_BADGE\">REPLACE_TYPE</span> <a class=\"link\" href=\"REPLACE_HREF\">REPLACE_NAME</a> </div>";

/// What stands between two files in the list of a directory.
pub const HTML_DIVIDER: &'static str = "<div class=\"divider\"></div>";

/// `bytes` starts with `mark`.
pub open spec fn starts_with(bytes: Seq<u8>, mark: Seq<u8>) -> bool {
    mark.len() <= bytes.len() && bytes.subrange(0, mark.len() as int) == mark
}

/// `bytes` starts with a byte order mark of UTF-8, UTF-16 or UTF-32.
pub open spec fn has_byte_order_mark(bytes: Seq<u8>) -> bool {
    ||| starts_with(bytes, seq![0xEFu8, 0xBBu8, 0xBFu8])
    ||| starts_with(bytes, seq![0x00u8, 0x00u8, 0xFEu8, 0xFFu8])
    ||| starts_with(bytes, seq![0xFFu8, 0xFEu8, 0x00u8, 0x00u8])
    ||| starts_with(bytes, seq![0xFEu8, 0xFFu8])
    ||| starts_with(bytes, seq![0xFFu8, 0xFEu8])
}

/// One of the first 1024 bytes is zero.
pub open spec fn has_early_zero(bytes: Seq<u8>) -> bool {
    exists|i: int| 0 <= i < bytes.len() && i < 1024 && #[trigger] bytes[i] == 0u8
}

/// `bytes` starts as a PDF or a PNG file does.
pub open spec fn has_magic_number(bytes: Seq<u8>) -> bool {
    ||| starts_with(bytes, seq![0x25u8, 0x50u8, 0x44u8, 0x46u8])
    ||| starts_with(bytes, seq![0x89u8, 0x50u8, 0x4Eu8, 0x47u8])
}

/// The content is taken for text: it starts with a byte order mark, or it
/// has no zero among its first 1024 bytes and does not start as a PDF or a
/// PNG file does.
pub open spec fn looks_like_text(bytes: Seq<u8>) -> bool {
    has_byte_order_mark(bytes) || (!has_early_zero(bytes) && !has_magic_number(bytes))
}

/// `content_inspector::inspect` guesses what a buffer holds and
/// `ContentType::is_text` says whether the guess is anything but binary.
/// A buffer that starts with a byte order mark is text. Any other buffer is
/// binary if one of its first 1024 bytes is zero or if it starts with
/// `%PDF` or `\x89PNG`, and text if not.
#[verifier::external_body]
fn inspect_is_text(bytes: &[u8]) -> (r: bool)
    ensures
        r == looks_like_text(bytes@),
{
    content_inspector::inspect(bytes).is_text()
}

/// The index of the last dot of a file name.
pub open spec fn last_dot(name: Seq<char>) -> Option<int>
    decreases name.len(),
{
    if name.len() == 0 {
        None
    } else if name.last() == '.' {
        Some(name.len() - 1)
    } else {
        last_dot(name.drop_last())
    }
}

/// Where a file name falls into stem and extension: at its last dot, unless
/// that dot leads the name or the name is `..`.
pub open spec fn extension_dot(name: Seq<char>) -> Option<int> {
    match last_dot(name) {
        Some(i) if i > 0 && name != seq!['.', '.'] => Some(i),
        _ => None,
    }
}

/// The extension of a file name: what follows its last dot.
pub open spec fn extension_of(name: Seq<char>) -> Option<Seq<char>> {
    match extension_dot(name) {
        Some(i) => Some(name.skip(i + 1)),
        None => None,
    }
}

/// The stem of a file name: what stands before its last dot, or the whole
/// name where it has no extension.
pub open spec fn stem_of(name: Seq<char>) -> Seq<char> {
    match extension_dot(name) {
        Some(i) => name.take(i),
        None => name,
    }
}

/// The content type of a file whose name says nothing of it.
pub open spec fn mime_by_content(is_text: bool) -> MimeType {
    if is_text {
        MimeType::TextPlain
    } else {
        MimeType::ApplicationOctetStream
    }
}

/// The content type of a file: that of its extension where the extension
/// is `js`, `css`, `json` or `html`; plain text or bytes, as its content
/// looks, for any other file.
pub open spec fn mime_for(name: Seq<char>, is_text: bool) -> MimeType {
    match extension_of(name) {
        Some(ext) => if ext == "js"@ {
            MimeType::TextJavaScript
        } else if ext == "css"@ {
            MimeType::TextCSS
        } else if ext == "json"@ {
            MimeType::ApplicationJson
        } else if ext == "html"@ {
            MimeType::TextHtml
        } else {
            mime_by_content(is_text)
        },
        None => mime_by_content(is_text),
    }
}

/// The badge that a content type is listed with.
pub open spec fn badge_of(mime: MimeType) -> Seq<char> {
    match mime {
        MimeType::ApplicationJson => "badge-primary"@,
        MimeType::TextJavaScript => "badge-secondary"@,
        MimeType::TextPlain => "badge-warning"@,
        MimeType::TextCSS => "bade-error"@,
        MimeType::ApplicationOctetStream => "badge-accent"@,
        MimeType::TextHtml => "badge-info"@,
    }
}

/// A file as it was read from the disk.
pub struct FileSource {
    /// The path that the file was read from.
    pub path: String,
    /// The last component of the path.
    pub file_name: String,
    pub content: String,
}

/// A file that a server holds in memory.
pub struct FileCache {
    path: String,
    file_name: String,
    mimetype: MimeType,
    content: String,
    uri: String,
}

/// What a cached file holds.
pub struct FileView {
    pub path: Seq<char>,
    pub file_name: Seq<char>,
    pub mimetype: MimeType,
    pub content: Seq<char>,
    pub uri: Seq<char>,
}

impl View for FileCache {
    type V = FileView;

    closed spec fn view(&self) -> FileView {
        FileView {
            path: self.path@,
            file_name: self.file_name@,
            mimetype: self.mimetype,
            content: self.content@,
            uri: self.uri@,
        }
    }
}

/// The path that a file under the mount path `path_uri` is asked for by.
pub open spec fn file_uri(path_uri: Seq<char>, file_name: Seq<char>) -> Seq<char> {
    path_uri + seq!['/'] + file_name
}

/// What is kept of a file that is served under the mount path `path_uri`.
pub open spec fn cached(path_uri: Seq<char>, file: FileSource) -> FileView {
    FileView {
        path: file.path@,
        file_name: file.file_name@,
        mimetype: mime_for(file.file_name@, looks_like_text(encode_utf8(file.content@))),
        content: file.content@,
        uri: file_uri(path_uri, file.file_name@),
    }
}

/// One file as it stands in the list of a directory.
pub open spec fn file_item(item: FileView) -> Seq<char> {
    replace_all(
        replace_all(
            replace_all(
                replace_all(HTML_FILE@, "REPLACE_HREF"@, item.uri),
                "REPLACE_BADGE"@,
                badge_of(item.mimetype),
            ),
            "REPLACE_NAME"@,
            item.file_name,
        ),
        "REPLACE_TYPE"@,
        item.mimetype.text(),
    )
}

/// The page that lists the files.
pub open spec fn file_list(cache: Seq<FileView>) -> Seq<char> {
    replace_all(
        HTML_SERVER@,
        "REPLACE_ALL"@,
        join_with(cache.map_values(|f: FileView| file_item(f)), HTML_DIVIDER@),
    )
}

/// The first file that is asked for by `uri`.
pub open spec fn find_by_uri(cache: Seq<FileView>, uri: Seq<char>) -> Option<FileView>
    decreases cache.len(),
{
    if cache.len() == 0 {
        None
    } else if cache[0].uri == uri {
        Some(cache[0])
    } else {
        find_by_uri(cache.drop_first(), uri)
    }
}

/// The last file with the given name among those after the first, or
/// `chosen` where there is none.
pub open spec fn last_named(cache: Seq<FileView>, name: Seq<char>, chosen: FileView) -> FileView
    decreases cache.len(),
{
    if cache.len() == 0 {
        chosen
    } else if cache.last().file_name == name {
        cache.last()
    } else {
        last_named(cache.drop_last(), name, chosen)
    }
}

/// The index file of a directory with at least one file: the last file
/// with the given name, or the first file where no file has that name.
pub open spec fn index_file_of(cache: Seq<FileView>, name: Seq<char>) -> FileView {
    last_named(cache, name, cache[0])
}

/// What a directory server holds.
pub struct DirView {
    pub path_uri: Seq<char>,
    pub cache: Seq<FileView>,
    pub index_file: Option<Seq<char>>,
}

/// A page: what is sent, as what, and with which status.
pub struct Page {
    pub body: Seq<char>,
    pub mimetype: MimeType,
    pub status: HttpStatus,
}

/// The page that a file is sent as.
pub open spec fn file_page(file: FileView) -> Page {
    Page { body: file.content, mimetype: file.mimetype, status: HttpStatus::Http200Ok }
}

/// The page of the index file, where the directory has files and an index
/// file was named.
pub open spec fn index_page(dir: DirView) -> Option<Page> {
    match dir.index_file {
        Some(name) if dir.cache.len() > 0 => Some(file_page(index_file_of(dir.cache, name))),
        _ => None,
    }
}

/// The page sent by a directory without files.
pub open spec fn empty_page() -> Page {
    Page {
        body: "No files in this glob"@,
        mimetype: MimeType::TextPlain,
        status: HttpStatus::Http404NotFound,
    }
}

/// The file that is asked for by `uri`: the first whose path is `uri` as
/// it stands, or else the first whose path is `uri` without its outer
/// slashes.
pub open spec fn file_for(cache: Seq<FileView>, uri: Seq<char>) -> Option<FileView> {
    match find_by_uri(cache, uri) {
        Some(file) => Some(file),
        None => find_by_uri(cache, bare_path(uri)),
    }
}

/// `uri` asks for the mount path: it is the mount path as it is kept, or
/// it is so once its outer slashes are taken off.
pub open spec fn asks_for_mount(dir: DirView, uri: Seq<char>) -> bool {
    uri == dir.path_uri || bare_path(uri) == dir.path_uri
}

/// The page that a directory sends for `uri`, or `None` where it has
/// files and none of them is asked for by `uri`.
pub open spec fn page_for(dir: DirView, uri: Seq<char>) -> Option<Page> {
    if dir.cache.len() == 0 {
        Some(empty_page())
    } else if asks_for_mount(dir, uri) {
        match dir.index_file {
            Some(name) => Some(file_page(index_file_of(dir.cache, name))),
            None => Some(
                Page {
                    body: file_list(dir.cache),
                    mimetype: MimeType::TextHtml,
                    status: HttpStatus::Http200Ok,
                },
            ),
        }
    } else {
        match file_for(dir.cache, uri) {
            Some(file) => Some(file_page(file)),
            None => None,
        }
    }
}

/// A file of the cache is found by its own path: the first file with that
/// path is what the search gives.
pub proof fn lemma_find_by_own_uri(cache: Seq<FileView>, i: int)
    requires
        0 <= i < cache.len(),
    ensures
        find_by_uri(cache, cache[i].uri) is Some,
        find_by_uri(cache, cache[i].uri)->0.uri == cache[i].uri,
    decreases cache.len(),
{
    if cache[0].uri != cache[i].uri {
        let rest = cache.drop_first();
        assert(rest[i - 1] == cache[i]);
        lemma_find_by_own_uri(rest, i - 1);
    }
}

/// Asked for its mount path as it keeps it, a directory with files gives
/// its index file, or the list of its files where no index file was named.
pub proof fn lemma_mount_path_answers(dir: DirView)
    requires
        dir.cache.len() > 0,
    ensures
        page_for(dir, dir.path_uri) == Some(
            match dir.index_file {
                Some(name) => file_page(index_file_of(dir.cache, name)),
                None => Page {
                    body: file_list(dir.cache),
                    mimetype: MimeType::TextHtml,
                    status: HttpStatus::Http200Ok,
                },
            },
        ),
{
}

/// Asked for the path that it has given to one of its files, a directory
/// has an answer; unless that path asks for the mount path, the answer is
/// the first file with that path.
pub proof fn lemma_file_path_answers(dir: DirView, i: int)
    requires
        0 <= i < dir.cache.len(),
    ensures
        page_for(dir, dir.cache[i].uri) is Some,
        !asks_for_mount(dir, dir.cache[i].uri) ==> page_for(dir, dir.cache[i].uri) == Some(
            file_page(find_by_uri(dir.cache, dir.cache[i].uri)->0),
        ),
{
    lemma_find_by_own_uri(dir.cache, i);
}

/// `text` is what the page is sent as.
pub open spec fn is_page(text: Seq<char>, page: Page) -> bool {
    is_string_response(text, page.body, page.mimetype, page.status)
}

/// The views of a list of cached files.
pub open spec fn file_views(cache: Seq<FileCache>) -> Seq<FileView> {
    cache.map_values(|f: FileCache| f@)
}

/// Why a directory server has no answer.
#[derive(Clone, Copy, Debug, PartialEq, Eq, Structural)]
pub enum StaticError {
    /// No file of the directory is asked for by the path.
    NotFound,
    /// No path was given.
    NoPath,
}

/// `s` with each `from` replaced by `to`.
pub fn replace_text(s: &str, from: &str, to: &str) -> (r: String)
    ensures
        r@ == replace_all(s@, from@, to@),
{
    let chars = to_chars(s);
    let pat = to_chars(from);
    let with = to_chars(to);
    let replaced = replace(chars.as_slice(), pat.as_slice(), with.as_slice());
    from_chars(replaced.as_slice())
}

/// Whether the content of a file is taken for text.
pub fn is_text_content(content: &str) -> (r: bool)
    ensures
        r == looks_like_text(encode_utf8(content@)),
{
    inspect_is_text(content.as_bytes())
}

/// Where a file name falls into stem and extension.
pub fn find_extension_dot(name: &[char]) -> (r: Option<usize>)
    ensures
        match r {
            Some(i) => extension_dot(name@) == Some(i as int) && 0 < i < name@.len(),
            None => extension_dot(name@) is None,
        },
{
    let mut i: usize = name.len();
    assert(name@.take(i as int) == name@);
    while i > 0 && name[i - 1] != '.'
        invariant
            i <= name.len(),
            last_dot(name@) == last_dot(name@.take(i as int)),
        decreases i,
    {
        assert(name@.take(i as int).drop_last() == name@.take(i - 1));
        i -= 1;
    }
    if i <= 1 {
        return None;
    }
    assert(name@.take(i as int).last() == '.');
    if name.len() == 2 && name[0] == '.' && name[1] == '.' {
        assert(name@ == seq!['.', '.']);
        return None;
    }
    assert(name@ != seq!['.', '.']) by {
        if name@ == seq!['.', '.'] {
            assert(name@.len() == 2);
            assert(name@[0] == '.' && name@[1] == '.');
        }
    }
    Some(i - 1)
}

/// The directory server for one mount path.
pub struct DirServer {
    path_uri: String,
    cache: Vec<FileCache>,
    index_file: Option<String>,
}

impl View for DirServer {
    type V = DirView;

    closed spec fn view(&self) -> DirView {
        DirView {
            path_uri: self.path_uri@,
            cache: file_views(self.cache@),
            index_file: match self.index_file {
                Some(name) => Some(name@),
                None => None,
            },
        }
    }
}

impl Clone for FileCache {
    fn clone(&self) -> (r: Self)
        ensures
            r@ == self@,
    {
        FileCache {
            path: self.path.clone(),
            file_name: self.file_name.clone(),
            mimetype: self.mimetype,
            content: self.content.clone(),
            uri: self.uri.clone(),
        }
    }
}

impl FileCache {
    /// Keeps a file that is served under the mount path `path_uri`.
    pub fn new(path_uri: &str, file: &FileSource) -> (r: Self)
        ensures
            r@ == cached(path_uri@, *file),
    {
        let is_text = is_text_content(file.content.as_str());
        let mimetype = DirServer::guess_mime(file.file_name.as_str(), is_text);
        let uri = DirServer::get_uri(path_uri, file.file_name.as_str());
        FileCache {
            path: file.path.clone(),
            file_name: file.file_name.clone(),
            mimetype,
            content: file.content.clone(),
            uri,
        }
    }

    pub fn get_uri(&self) -> (r: String)
        ensures
            r@ == self@.uri,
    {
        self.uri.clone()
    }

    pub fn get_mimetype(&self) -> (r: MimeType)
        ensures
            r == self@.mimetype,
    {
        self.mimetype
    }

    pub fn get_content(&self) -> (r: String)
        ensures
            r@ == self@.content,
    {
        self.content.clone()
    }
}

impl DirServer {
    /// A server for the mount path `path_uri` that holds the given files.
    /// The mount path is kept without its outer slashes. `index_file` names
    /// the file that is sent for the mount path itself.
    pub fn new(path_uri: String, files: Vec<FileSource>, index_file: Option<String>) -> (r: Self)
        ensures
            r@.path_uri == bare_path(path_uri@),
            r@.cache.len() == files@.len(),
            forall|i: int|
                0 <= i < files@.len() ==> #[trigger] r@.cache[i] == cached(
                    bare_path(path_uri@),
                    files@[i],
                ),
            r@.index_file == match index_file {
                Some(name) => Some(name@),
                None => None,
            },
    {
        let path_fin = strip_slashes(path_uri.as_str());
        let mut cache: Vec<FileCache> = Vec::new();
        let mut i: usize = 0;
        while i < files.len()
            invariant
                i <= files.len(),
                cache@.len() == i,
                forall|j: int|
                    0 <= j < i ==> (#[trigger] cache@[j])@ == cached(path_fin@, files@[j]),
            decreases files.len() - i,
        {
            let fc = FileCache::new(path_fin.as_str(), &files[i]);
            cache.push(fc);
            i += 1;
        }
        let r = DirServer { cache, path_uri: path_fin, index_file };
        assert forall|i: int| 0 <= i < files@.len() implies #[trigger] r@.cache[i] == cached(
            bare_path(path_uri@),
            files@[i],
        ) by {
            assert(r@.cache[i] == r.cache@[i]@);
        }
        r
    }

    pub fn get_path(&self) -> (r: String)
        ensures
            r@ == self@.path_uri,
    {
        self.path_uri.clone()
    }

    /// The content type of a file with the given name.
    pub fn guess_mime(file_name: &str, is_text: bool) -> (r: MimeType)
        ensures
            r == mime_for(file_name@, is_text),
    {
        let name = to_chars(file_name);
        match find_extension_dot(name.as_slice()) {
            Some(i) => {
                let n = name.len();
                let ext = from_chars(vstd::slice::slice_subrange(name.as_slice(), i + 1, n));
                if text_is(ext.as_str(), "js") {
                    MimeType::TextJavaScript
                } else if text_is(ext.as_str(), "css") {
                    MimeType::TextCSS
                } else if text_is(ext.as_str(), "json") {
                    MimeType::ApplicationJson
                } else if text_is(ext.as_str(), "html") {
                    MimeType::TextHtml
                } else if is_text {
                    MimeType::TextPlain
                } else {
                    MimeType::ApplicationOctetStream
                }
            },
            None => if is_text {
                MimeType::TextPlain
            } else {
                MimeType::ApplicationOctetStream
            },
        }
    }

    /// Whether a file is an index file by its name: its stem is `index`
    /// and its content is text.
    pub fn is_index(file_name: &str, is_text: bool) -> (r: bool)
        ensures
            r == (stem_of(file_name@) == "index"@ && is_text),
    {
        let name = to_chars(file_name);
        let stem = match find_extension_dot(name.as_slice()) {
            Some(i) => from_chars(vstd::slice::slice_subrange(name.as_slice(), 0, i)),
            None => from_chars(name.as_slice()),
        };
        text_is(stem.as_str(), "index") && is_text
    }

    /// The path that a file under the mount path is asked for by.
    pub fn get_uri(path_uri: &str, file_name: &str) -> (r: String)
        ensures
            r@ == file_uri(path_uri@, file_name@),
    {
        let mut chars = to_chars(path_uri);
        chars.push('/');
        let name = to_chars(file_name);
        append(&mut chars, name.as_slice());
        from_chars(chars.as_slice())
    }

    /// The badge that a content type is listed with.
    pub fn badge(mime: MimeType) -> (r: &'static str)
        ensures
            r@ == badge_of(mime),
    {
        match mime {
            MimeType::ApplicationJson => "badge-primary",
            MimeType::TextJavaScript => "badge-secondary",
            MimeType::TextPlain => "badge-warning",
            MimeType::TextCSS => "bade-error",
            MimeType::ApplicationOctetStream => "badge-accent",
            MimeType::TextHtml => "badge-info",
        }
    }

    /// One file as it stands in the list of the directory.
    pub fn create_file_item(item: &FileCache) -> (r: String)
        ensures
            r@ == file_item(item@),
    {
        let badge_color = Self::badge(item.mimetype);
        let ftype: String = item.mimetype.into();
        let mut replaced = replace_text(HTML_FILE, "REPLACE_HREF", item.uri.as_str());
        replaced = replace_text(replaced.as_str(), "REPLACE_BADGE", badge_color);
        replaced = replace_text(replaced.as_str(), "REPLACE_NAME", item.file_name.as_str());
        replaced = replace_text(replaced.as_str(), "REPLACE_TYPE", ftype.as_str());
        replaced
    }

    /// The page that lists the files of the directory.
    pub fn create_file_list(&self) -> (r: String)
        ensures
            r@ == file_list(self@.cache),
    {
        let mut items: Vec<Vec<char>> = Vec::new();
        let ghost wanted = self@.cache.map_values(|f: FileView| file_item(f));
        let mut i: usize = 0;
        assert(views(items@) == wanted.take(0));
        while i < self.cache.len()
            invariant
                i <= self.cache.len(),
                wanted == self@.cache.map_values(|f: FileView| file_item(f)),
                views(items@) == wanted.take(i as int),
            decreases self.cache.len() - i,
        {
            let ghost before = views(items@);
            let item = Self::create_file_item(&self.cache[i]);
            let chars = to_chars(item.as_str());
            items.push(chars);
            assert(views(items@) == before.push(chars@));
            assert(wanted.take(i + 1) == wanted.take(i as int).push(wanted[i as int]));
            i += 1;
        }
        assert(wanted.take(self.cache.len() as int) == wanted);
        let divider = to_chars(HTML_DIVIDER);
        let files_joined = join(&items, divider.as_slice());
        replace_text(HTML_SERVER, "REPLACE_ALL", from_chars(files_joined.as_slice()).as_str())
    }

    /// The first file that is asked for by `uri`.
    pub fn find_file(&self, uri: &str) -> (r: Option<&FileCache>)
        ensures
            match r {
                Some(file) => find_by_uri(self@.cache, uri@) == Some(file@),
                None => find_by_uri(self@.cache, uri@) is None,
            },
    {
        let mut i: usize = 0;
        assert(self@.cache.skip(0) == self@.cache);
        while i < self.cache.len()
            invariant
                i <= self.cache.len(),
                find_by_uri(self@.cache, uri@) == find_by_uri(self@.cache.skip(i as int), uri@),
            decreases self.cache.len() - i,
        {
            let ghost rest = self@.cache.skip(i as int);
            assert(rest[0] == self.cache@[i as int]@);
            assert(rest.drop_first() == self@.cache.skip(i + 1));
            if text_is(self.cache[i].uri.as_str(), uri) {
                return Some(&self.cache[i]);
            }
            i += 1;
        }
        None
    }

    /// The answer that gives the file asked for by `uri`, if there is one.
    pub fn crease_response_with_file(&self, uri: String) -> (r: Result<
        ResponseTextWrapper,
        StaticError,
    >)
        ensures
            match find_by_uri(self@.cache, uri@) {
                Some(file) => r matches Ok(text) && is_page(text@, file_page(file)),
                None => r == Err::<ResponseTextWrapper, StaticError>(StaticError::NotFound),
            },
    {
        match self.find_file(uri.as_str()) {
            Some(item) => Ok(
                respond_with_string(item.content.clone(), item.mimetype, HttpStatus::Http200Ok),
            ),
            None => Err(StaticError::NotFound),
        }
    }

    /// The answer that lists the files.
    pub fn create_response_with_index(&self) -> (r: ResponseTextWrapper)
        ensures
            is_string_response(
                r@,
                file_list(self@.cache),
                MimeType::TextHtml,
                HttpStatus::Http200Ok,
            ),
    {
        let list = self.create_file_list();
        respond_with_string(list, MimeType::TextHtml, HttpStatus::Http200Ok)
    }

    /// The answer that gives the index file, where the directory has files
    /// and an index file was named.
    pub fn create_response_with_index_file(&self) -> (r: Option<ResponseTextWrapper>)
        ensures
            match index_page(self@) {
                Some(page) => r matches Some(text) && is_page(text@, page),
                None => r is None,
            },
    {
        match self.get_index_file() {
            Some(fc_index) => Some(
                respond_with_string(
                    fc_index.content.clone(),
                    fc_index.mimetype,
                    HttpStatus::Http200Ok,
                ),
            ),
            None => None,
        }
    }

    /// The index file: the last file with the name of the index file, or
    /// the first file where no file has that name. There is none where the
    /// directory has no files or no index file was named.
    pub fn get_index_file(&self) -> (ret: Option<&FileCache>)
        ensures
            match ret {
                Some(file) => self@.cache.len() > 0 && self@.index_file is Some && file@
                    == index_file_of(self@.cache, self@.index_file->0),
                None => self@.cache.len() == 0 || self@.index_file is None,
            },
    {
        let index_name = match &self.index_file {
            Some(name) => name,
            None => {
                return None;
            },
        };
        if self.cache.len() == 0 {
            return None;
        }
        let mut i: usize = self.cache.len();
        assert(self@.cache.take(i as int) == self@.cache);
        while i > 0
            invariant
                i <= self.cache.len(),
                self@.cache.len() > 0,
                self@.index_file is Some,
                index_name@ == self@.index_file->0,
                index_file_of(self@.cache, index_name@) == last_named(
                    self@.cache.take(i as int),
                    index_name@,
                    self@.cache[0],
                ),
            decreases i,
        {
            let ghost upto = self@.cache.take(i as int);
            assert(upto.last() == self.cache@[i - 1]@);
            assert(upto.drop_last() == self@.cache.take(i - 1));
            if text_is(self.cache[i - 1].file_name.as_str(), index_name.as_str()) {
                return Some(&self.cache[i - 1]);
            }
            i -= 1;
        }
        assert(self@.cache[0] == self.cache@[0]@);
        Some(&self.cache[0])
    }

    /// The name under which the server is kept.
    pub fn compose_name(&self) -> (name: String)
        ensures
            name@ == server_name("dir_server_"@, self@.path_uri),
    {
        compose_server_name("dir_server_", self.path_uri.as_str())
    }

    /// Whether `uri` holds the mount path of the server.
    pub fn is_uri_server(&self, uri: &String) -> (is_in: bool)
        ensures
            is_in == contains_text(uri@, self@.path_uri),
    {
        let chars = to_chars(uri.as_str());
        let path = to_chars(self.path_uri.as_str());
        contains(chars.as_slice(), path.as_slice())
    }

    /// The answer of a directory without files.
    pub fn respond_empty(&self) -> (r: ResponseTextWrapper)
        ensures
            is_page(r@, empty_page()),
    {
        respond_with_string(
            copy_text("No files in this glob"),
            MimeType::TextPlain,
            HttpStatus::Http404NotFound,
        )
    }

    /// The answer to a request for `uri`.
    ///
    /// A directory without files says so. Asked for its mount path, a
    /// directory gives its index file, or the list of its files where no
    /// index file was named. Asked for anything else it gives the file that
    /// is asked for by that path; where there is none, it has no answer.
    /// A path is taken as it stands, and where nothing answers to it so,
    /// without its outer slashes.
    pub fn compose(&self, uri: String) -> (r: Result<ResponseTextWrapper, StaticError>)
        ensures
            match page_for(self@, uri@) {
                Some(page) => r matches Ok(text) && is_page(text@, page),
                None => r == Err::<ResponseTextWrapper, StaticError>(StaticError::NotFound),
            },
    {
        if self.cache.len() == 0 {
            return Ok(self.respond_empty());
        }
        let asked = strip_slashes(uri.as_str());
        if text_is(uri.as_str(), self.path_uri.as_str()) || text_is(
            asked.as_str(),
            self.path_uri.as_str(),
        ) {
            match self.create_response_with_index_file() {
                Some(text) => Ok(text),
                None => Ok(self.create_response_with_index()),
            }
        } else {
            match self.crease_response_with_file(uri) {
                Ok(text) => Ok(text),
                Err(_) => self.crease_response_with_file(asked),
            }
        }
    }

    /// The answer to a request for `uri`, with the page for unknown paths
    /// where the directory has no answer.
    pub fn serve(&self, uri: String, templates: &Templates) -> (r: ResponseTextWrapper)
        ensures
            match page_for(self@, uri@) {
                Some(page) => is_page(r@, page),
                None => is_string_response(
                    r@,
                    templates.temp_404@,
                    MimeType::TextPlain,
                    HttpStatus::Http404NotFound,
                ),
            },
    {
        match self.compose(uri) {
            Ok(text) => text,
            Err(_) => respond_with_string(
                templates.temp_404.get_temp(),
                MimeType::TextPlain,
                HttpStatus::Http404NotFound,
            ),
        }
    }
}

/// A server for a single file.
pub struct SingleFileServer(FileCache);

impl View for SingleFileServer {
    type V = FileView;

    closed spec fn view(&self) -> FileView {
        self.0@
    }
}

impl SingleFileServer {
    /// A server for the given file under the mount path `path_uri`.
    pub fn new(file: FileSource, path_uri: String) -> (r: Self)
        ensures
            r@ == cached(path_uri@, file),
    {
        SingleFileServer(FileCache::new(path_uri.as_str(), &file))
    }

    /// The answer that gives the file.
    pub fn compose(&self) -> (r: ResponseTextWrapper)
        ensures
            is_page(r@, file_page(self@)),
    {
        respond_with_string(self.0.content.clone(), self.0.mimetype, HttpStatus::Http200Ok)
    }
}

/// How a directory is served: with the glob pattern of its files.
pub enum StaticServerType {
    ServeWithIndex(String),
    ServeWithoutIndex(String),
}

impl Clone for StaticServerType {
    fn clone(&self) -> (r: Self)
        ensures
            r == *self,
    {
        match self {
            StaticServerType::ServeWithIndex(p) => StaticServerType::ServeWithIndex(p.clone()),
            StaticServerType::ServeWithoutIndex(p) => StaticServerType::ServeWithoutIndex(
                p.clone(),
            ),
        }
    }
}

} // verus!
