//! The receiving side: where files go, how an offer is reported, and how a
//! file-data payload is taken apart.

use vstd::prelude::*;

use crate::text::{
    chars_of, decimal, decode_utf8_lossy, push_char, push_decimal, push_str, string_of, trim,
    trim_spec, utf8_lossy,
};

verus! {

/// The folder that received files are written to.
pub struct ReceiveFolder {
    path: String,
}

impl View for ReceiveFolder {
    type V = Seq<char>;

    closed spec fn view(&self) -> Seq<char> {
        self.path@
    }
}

/// Why a requested receive folder is refused.
#[derive(Debug, Clone, Copy, PartialEq, Eq, Structural)]
pub enum ReceiveFolderError {
    /// The request is empty once surrounding whitespace is removed.
    Empty,
}

impl ReceiveFolder {
    /// The setting, starting at `path`.
    pub fn new(path: String) -> (f: ReceiveFolder)
        ensures
            f@ == path@,
    {
        ReceiveFolder { path }
    }

    /// The folder, as text.
    pub fn get_receive_folder(&self) -> (s: String)
        ensures
            s@ == self@,
    {
        self.path.clone()
    }

    /// Makes `folder` the receive folder, and gives it back as text.
    pub fn set_receive_folder(&mut self, folder: String) -> (s: String)
        ensures
            final(self)@ == folder@,
            s@ == folder@,
    {
        let s = folder.clone();
        self.path = folder;
        s
    }
}

/// The folder that a request for `path` names: the request without
/// surrounding whitespace, which must not be empty.
pub fn requested_receive_folder(path: &str) -> (res: Result<String, ReceiveFolderError>)
    ensures
        trim_spec(path@).len() == 0 ==> res == Err::<String, ReceiveFolderError>(
            ReceiveFolderError::Empty,
        ),
        trim_spec(path@).len() > 0 ==> (res matches Ok(s) && s@ == trim_spec(path@)),
{
    let chars = chars_of(path);
    let trimmed = trim(&chars);
    if trimmed.len() == 0 {
        return Err(ReceiveFolderError::Empty);
    }
    Ok(string_of(&trimmed))
}

/// The report of an incoming offer: file name and size, separated by `|`.
pub open spec fn file_offer_event(file_name: Seq<char>, file_size: u64) -> Seq<char> {
    file_name + seq!['|'] + decimal(file_size as nat)
}

/// The report to show for an incoming offer of `file_name`, `file_size`
/// bytes long.
pub fn handle_file_offer(file_name: &str, file_size: u64) -> (s: String)
    ensures
        s@ == file_offer_event(file_name@, file_size),
{
    let mut s = String::new();
    push_str(&mut s, file_name);
    push_char(&mut s, '|');
    push_decimal(&mut s, file_size);
    assert(s@ =~= file_offer_event(file_name@, file_size));
    s
}

/// Why a file-data payload cannot be taken apart.
#[derive(Debug, Clone, Copy, PartialEq, Eq, Structural)]
pub enum FileDataError {
    /// Fewer than two bytes: no room for the name length.
    MissingFilenameLength,
    /// The payload ends before the name does.
    MissingFilename,
}

/// How a file-data payload is laid out: a big-endian `u16` name length,
/// the name's bytes, then the file's bytes. Gives the name's bytes and the
/// index where the file's bytes start.
pub open spec fn file_data_layout(p: Seq<u8>) -> Result<(Seq<u8>, nat), FileDataError> {
    if p.len() < 2 {
        Err(FileDataError::MissingFilenameLength)
    } else {
        let start = 2 + (p[0] as nat) * 256 + (p[1] as nat);
        if p.len() < start {
            Err(FileDataError::MissingFilename)
        } else {
            Ok((p.subrange(2, start as int), start))
        }
    }
}

/// A file-data payload taken apart: the name to store the file under and
/// where its bytes start.
pub struct ReceivedFile {
    pub file_name: String,
    pub data_start: usize,
}

/// Takes a file-data payload apart. The name is the file name that
/// `Path::file_name` finds in the text of the name bytes (invalid UTF-8
/// replaced), or the fallback name when it finds none. So the name is
/// never empty, never `.` or `..`, never holds `/`, and a plain file name
/// is kept as the sender gave it.
pub fn parse_file_data(payload: &[u8]) -> (res: Result<ReceivedFile, FileDataError>)
    ensures
        match file_data_layout(payload@) {
            Err(e) => res == Err::<ReceivedFile, FileDataError>(e),
            Ok((name_bytes, start)) => res matches Ok(r) && r.data_start == start
                && r.file_name@ == crate::paths::safe_name_spec(
                crate::paths::std_file_name(utf8_lossy(name_bytes)),
            ),
        },
        res matches Ok(r) ==> {
            &&& r.file_name@.len() > 0
            &&& !r.file_name@.contains('/')
            &&& r.file_name@ != ".."@
            &&& r.file_name@ != "."@
        },
        res matches Ok(r) ==> (r.file_name@ == crate::paths::FALLBACK_FILE_NAME@
            || crate::text::contains_spec(
            utf8_lossy(payload@.subrange(2, r.data_start as int)),
            r.file_name@,
        )),
        res matches Ok(r) ==> (crate::paths::is_plain_name(
            utf8_lossy(payload@.subrange(2, r.data_start as int)),
        ) ==> r.file_name@ == utf8_lossy(payload@.subrange(2, r.data_start as int))),
{
    if payload.len() < 2 {
        return Err(FileDataError::MissingFilenameLength);
    }
    let name_len: usize = (payload[0] as usize) * 256 + (payload[1] as usize);
    let data_start: usize = 2 + name_len;
    if payload.len() < data_start {
        return Err(FileDataError::MissingFilename);
    }
    let name_bytes = vstd::slice::slice_subrange(payload, 2, data_start);
    let name = decode_utf8_lossy(name_bytes);
    let file_name = crate::paths::safe_file_name(name.as_str());
    Ok(ReceivedFile { file_name, data_start })
}

} // verus!
