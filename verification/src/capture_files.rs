//! Where the files of a capture go.

use vstd::prelude::*;
use crate::capture_error::CaptureError;

verus! {

/// The file that holds the captured memory.
pub const MEMORY_DELTA_FILE: &'static str = "memory.delta";

/// The file that says what the captured memory is.
pub const MEMORY_MANIFEST_FILE: &'static str = "memory.manifest";

/// The file that says what the capture can be restored on.
pub const COMPATIBILITY_FILE: &'static str = "compatibility.json";

/// Whether `url` names a local directory.
pub open spec fn is_file_url(url: Seq<char>) -> bool {
    "file://"@.is_prefix_of(url)
}

/// The directory that `url` names: what follows the scheme.
pub open spec fn url_path(url: Seq<char>) -> Seq<char> {
    url.skip("file://"@.len() as int)
}

/// A file to create.
#[derive(Debug, PartialEq, Eq)]
pub struct FileRequest {
    /// The directory that the file is to stand in.
    pub directory: String,
    /// The name of the file.
    pub name: String,
    /// Whether the file is opened for reading.
    pub read: bool,
    /// Whether the file is opened for writing.
    pub write: bool,
    /// Whether it is an error if the file exists.
    pub create_new: bool,
    /// The permission bits of the file.
    pub mode: u32,
}

impl FileRequest {
    /// Whether this asks for a new file `name` in the directory of `url`, open for
    /// reading and writing, that its owner and group can read and write.
    pub open spec fn asks_for(self, url: Seq<char>, name: Seq<char>) -> bool {
        &&& self.directory@ == url_path(url)
        &&& self.name@ == name
        &&& self.read
        &&& self.write
        &&& self.create_new
        &&& self.mode == 0o660
    }
}

/// A file to create, and the value that is to stand in it as JSON.
#[derive(Debug)]
pub struct JsonDocument<T> {
    pub file: FileRequest,
    pub value: T,
}

impl<T> JsonDocument<T> {
    /// Whether this puts `value` into a new file `name` in the directory of `url`.
    pub open spec fn puts(self, value: T, url: Seq<char>, name: Seq<char>) -> bool {
        &&& self.file.asks_for(url, name)
        &&& self.value == value
    }
}

/// Whether `url` is refused, and `error` says so.
pub open spec fn is_refused(url: Seq<char>, error: CaptureError) -> bool {
    &&& !is_file_url(url)
    &&& error matches CaptureError::NotAFileUrl { url: refused } && refused@ == url
}

/// Whether `path` is what comes of taking the directory out of `url`.
pub open spec fn is_path_of(url: Seq<char>, path: Result<String, CaptureError>) -> bool {
    match path {
        Ok(directory) => is_file_url(url) && directory@ == url_path(url),
        Err(error) => is_refused(url, error),
    }
}

/// Whether `request` is what comes of asking for a new file `name` in the directory
/// of `url`.
pub open spec fn is_request_for(
    url: Seq<char>,
    name: Seq<char>,
    request: Result<FileRequest, CaptureError>,
) -> bool {
    match request {
        Ok(file) => is_file_url(url) && file.asks_for(url, name),
        Err(error) => is_refused(url, error),
    }
}

/// The directory that `url` names.
pub fn url_to_path(url: &str) -> (path: Result<String, CaptureError>)
    ensures
        is_path_of(url@, path),
{
    let scheme = "file://";
    let scheme_len: usize = scheme.unicode_len();
    let url_len: usize = url.unicode_len();
    if url_len < scheme_len {
        return Err(CaptureError::NotAFileUrl { url: url.to_owned() });
    }
    let mut i: usize = 0;
    while i < scheme_len
        invariant
            i <= scheme_len == scheme@.len(),
            scheme_len <= url_len == url@.len(),
            scheme@ == "file://"@,
            forall|k: int| 0 <= k < i ==> scheme@[k] == url@[k],
        decreases scheme_len - i,
    {
        if scheme.get_char(i) != url.get_char(i) {
            assert(scheme@[i as int] != url@[i as int]);
            return Err(CaptureError::NotAFileUrl { url: url.to_owned() });
        }
        i += 1;
    }
    let path = url.substring_char(scheme_len, url_len).to_owned();
    assert(path@ =~= url_path(url@));
    assert(scheme@ =~= url@.subrange(0, scheme@.len() as int));
    Ok(path)
}

/// The request for a new file `name` in the directory that `url` names.
pub fn new_file(url: &str, name: &str) -> (request: Result<FileRequest, CaptureError>)
    ensures
        is_request_for(url@, name@, request),
{
    match url_to_path(url) {
        Ok(directory) => Ok(
            FileRequest {
                directory,
                name: name.to_owned(),
                read: true,
                write: true,
                create_new: true,
                mode: 0o660,
            },
        ),
        Err(error) => Err(error),
    }
}

/// The document that puts `value` into the file `filename` in the directory that
/// `destination_url` names.
pub fn write_json_file<T>(destination_url: &str, filename: &str, value: T) -> (document: Result<
    JsonDocument<T>,
    CaptureError,
>)
    ensures
        match document {
            Ok(document) => {
                &&& is_file_url(destination_url@)
                &&& document.puts(value, destination_url@, filename@)
            },
            Err(error) => is_refused(destination_url@, error),
        },
{
    match new_file(destination_url, filename) {
        Ok(file) => Ok(JsonDocument { file, value }),
        Err(error) => Err(error),
    }
}

/// A directory can be given as a URL and is what the URL names: every path behind the
/// scheme is accepted and comes back unchanged.
pub proof fn law_directory_comes_back_from_its_url(directory: Seq<char>)
    ensures
        is_file_url("file://"@ + directory),
        url_path("file://"@ + directory) == directory,
{
    let url = "file://"@ + directory;
    assert(url.subrange(0, "file://"@.len() as int) =~= "file://"@);
    assert(url_path(url) =~= directory);
}

/// A URL that is accepted is the scheme and the directory that it names, and nothing
/// else.
pub proof fn law_url_is_scheme_and_directory(url: Seq<char>)
    requires
        is_file_url(url),
    ensures
        url == "file://"@ + url_path(url),
{
    assert(url =~= "file://"@ + url_path(url));
}

/// A file that is asked for stands in the directory of its URL under its own name,
/// must be new, is read and written, and is for its owner and group alone.
pub proof fn law_requested_file(file: FileRequest, url: Seq<char>, name: Seq<char>)
    requires
        is_file_url(url),
        file.asks_for(url, name),
    ensures
        "file://"@ + file.directory@ == url,
        file.name@ == name,
        file.create_new,
        file.read,
        file.write,
        file.mode == 6 * 64 + 6 * 8,
{
    law_url_is_scheme_and_directory(url);
}

/// The three files of a capture have their fixed names, and none takes the place of
/// another.
pub proof fn law_files_have_their_own_names()
    ensures
        MEMORY_DELTA_FILE@ == "memory.delta"@,
        MEMORY_MANIFEST_FILE@ == "memory.manifest"@,
        COMPATIBILITY_FILE@ == "compatibility.json"@,
        MEMORY_DELTA_FILE@ != MEMORY_MANIFEST_FILE@,
        MEMORY_DELTA_FILE@ != COMPATIBILITY_FILE@,
        MEMORY_MANIFEST_FILE@ != COMPATIBILITY_FILE@,
{
    reveal_strlit("memory.delta");
    reveal_strlit("memory.manifest");
    reveal_strlit("compatibility.json");
    assert("memory.delta"@.len() != "memory.manifest"@.len());
    assert("memory.delta"@.len() != "compatibility.json"@.len());
    assert("memory.manifest"@.len() != "compatibility.json"@.len());
}

/// A URL has a path exactly where it begins with the scheme, and the path is the rest
/// of it. Otherwise the error names the URL.
pub proof fn law_path_of_a_url(url: Seq<char>, path: Result<String, CaptureError>)
    requires
        is_path_of(url, path),
    ensures
        path is Ok <==> url.len() >= 7 && url.take(7) == "file://"@,
        path matches Ok(directory) ==> url == "file://"@ + directory@,
        path matches Err(error) ==> (error matches CaptureError::NotAFileUrl { url: refused }
            && refused@ == url),
{
    reveal_strlit("file://");
    if is_file_url(url) {
        law_url_is_scheme_and_directory(url);
        assert(url.take(7) =~= "file://"@);
    } else if url.len() >= 7 && url.take(7) == "file://"@ {
        assert(url =~= "file://"@ + url.skip(7));
        law_directory_comes_back_from_its_url(url.skip(7));
    }
}

/// A file is asked for exactly where the URL has a path, and stands under that path
/// and its own name; its document holds the value that was given.
pub proof fn law_document_goes_where_it_was_sent<T>(
    url: Seq<char>,
    name: Seq<char>,
    request: Result<FileRequest, CaptureError>,
    document: JsonDocument<T>,
    value: T,
)
    requires
        is_request_for(url, name, request),
    ensures
        request is Ok <==> is_file_url(url),
        request matches Ok(file) ==> "file://"@ + file.directory@ == url && file.name@ == name,
        request matches Err(error) ==> (error matches CaptureError::NotAFileUrl { url: refused }
            && refused@ == url),
        is_file_url(url) && document.puts(value, url, name) ==> {
            &&& document.value == value
            &&& "file://"@ + document.file.directory@ == url
            &&& document.file.name@ == name
        },
{
    if is_file_url(url) {
        law_url_is_scheme_and_directory(url);
    }
}

} // verus!
