//! What the sending side puts on the wire: the file offer and the chunks of
//! file data.

use vstd::prelude::*;
use vstd::utf8::encode_utf8;

use crate::ids::{is_uuid_v4_text, uuid_v4_text};
use crate::protocol::{be_bytes_u64, push_be_u64};
use crate::session::{SessionStore, SessionView, TransferSession};
use crate::text::{decimal, push_char, push_decimal, push_str};

verus! {

/// Size of the pieces a file is read and sent in.
pub const CHUNK_SIZE: usize = 524288;

/// The four bytes that open every file-data chunk: `MDC1`.
pub open spec fn chunk_magic() -> Seq<u8> {
    seq![0x4Du8, 0x44u8, 0x43u8, 0x31u8]
}

/// The two big-endian bytes of `n`.
pub open spec fn be_bytes_u16(n: u16) -> Seq<u8> {
    seq![(n >> 8u16) as u8, n as u8]
}

/// Why a chunk cannot be built.
#[derive(Debug, Clone, Copy, PartialEq, Eq, Structural)]
pub enum ChunkError {
    /// The file name is longer than 65535 bytes.
    FilenameTooLong,
    /// The transfer id is longer than 65535 bytes.
    TransferIdTooLong,
    /// The path has no usable file name.
    InvalidPath,
}

/// The check that comes first: the file name's length, then the id's.
pub open spec fn chunk_fields_error(transfer_id: Seq<char>, file_name: Seq<char>) -> Option<
    ChunkError,
> {
    if encode_utf8(file_name).len() > 65535 {
        Some(ChunkError::FilenameTooLong)
    } else if encode_utf8(transfer_id).len() > 65535 {
        Some(ChunkError::TransferIdTooLong)
    } else {
        None
    }
}

/// The payload of a file-data packet: magic, id length and id, name length
/// and name, total size, offset of this piece, and the piece itself.
pub open spec fn chunk_bytes(
    transfer_id: Seq<char>,
    file_name: Seq<char>,
    total_size: u64,
    offset: u64,
    data: Seq<u8>,
) -> Seq<u8> {
    let ib = encode_utf8(transfer_id);
    let nb = encode_utf8(file_name);
    chunk_magic() + be_bytes_u16(ib.len() as u16) + ib + be_bytes_u16(nb.len() as u16) + nb
        + be_bytes_u64(total_size) + be_bytes_u64(offset) + data
}

fn push_be_u16(out: &mut Vec<u8>, n: u16)
    ensures
        final(out)@ == old(out)@ + be_bytes_u16(n),
{
    out.push((n >> 8u16) as u8);
    out.push(n as u8);
    assert(final(out)@ =~= old(out)@ + be_bytes_u16(n));
}

/// Checks the lengths of the fields that every chunk carries.
pub fn check_chunk_fields(transfer_id: &str, file_name: &str) -> (res: Result<(), ChunkError>)
    ensures
        res matches Err(e) ==> chunk_fields_error(transfer_id@, file_name@) == Some(e),
        res is Ok ==> chunk_fields_error(transfer_id@, file_name@) is None,
{
    if file_name.as_bytes().len() > 65535 {
        return Err(ChunkError::FilenameTooLong);
    }
    if transfer_id.as_bytes().len() > 65535 {
        return Err(ChunkError::TransferIdTooLong);
    }
    Ok(())
}

/// The payload of one file-data packet, or the length error that stops it.
pub fn encode_file_chunk(
    transfer_id: &str,
    file_name: &str,
    total_size: u64,
    offset: u64,
    data: &[u8],
) -> (res: Result<Vec<u8>, ChunkError>)
    ensures
        match chunk_fields_error(transfer_id@, file_name@) {
            Some(e) => res == Err::<Vec<u8>, ChunkError>(e),
            None => res matches Ok(bytes) && bytes@ == chunk_bytes(
                transfer_id@,
                file_name@,
                total_size,
                offset,
                data@,
            ),
        },
{
    check_chunk_fields(transfer_id, file_name)?;
    let ib = transfer_id.as_bytes();
    let nb = file_name.as_bytes();
    let mut out: Vec<u8> = Vec::new();
    out.push(0x4Du8);
    out.push(0x44u8);
    out.push(0x43u8);
    out.push(0x31u8);
    push_be_u16(&mut out, ib.len() as u16);
    out.extend_from_slice(ib);
    push_be_u16(&mut out, nb.len() as u16);
    out.extend_from_slice(nb);
    push_be_u64(&mut out, total_size);
    push_be_u64(&mut out, offset);
    out.extend_from_slice(data);
    assert(out@ =~= chunk_bytes(transfer_id@, file_name@, total_size, offset, data@));
    Ok(out)
}

/// The payload that sends a whole file in one packet: its size is the
/// length of `bytes` and its offset is zero.
pub fn file_data_payload(transfer_id: &str, file_name: &str, bytes: &[u8]) -> (res: Result<
    Vec<u8>,
    ChunkError,
>)
    ensures
        match chunk_fields_error(transfer_id@, file_name@) {
            Some(e) => res == Err::<Vec<u8>, ChunkError>(e),
            None => res matches Ok(b) && b@ == chunk_bytes(
                transfer_id@,
                file_name@,
                bytes@.len() as u64,
                0,
                bytes@,
            ),
        },
{
    encode_file_chunk(transfer_id, file_name, bytes.len() as u64, 0, bytes)
}

/// The text of a file offer: transfer id, file name and size, separated by
/// `|`.
pub open spec fn offer_text(transfer_id: Seq<char>, file_name: Seq<char>, file_size: u64) -> Seq<
    char,
> {
    transfer_id + seq!['|'] + file_name + seq!['|'] + decimal(file_size as nat)
}

/// A prepared offer: the new transfer's id and the text to send.
pub struct FileOffer {
    pub transfer_id: String,
    pub payload: String,
}

/// Starts an outgoing transfer: draws a fresh id, records the session under
/// it (with no path yet) and gives the offer text to send.
pub fn prepare_file_offer(store: &mut SessionStore, file_name: String, file_size: u64) -> (offer:
    FileOffer)
    ensures
        is_uuid_v4_text(offer.transfer_id@),
        final(store)@ == old(store)@.insert(
            offer.transfer_id@,
            SessionView {
                id: offer.transfer_id@,
                file_name: file_name@,
                file_size,
                file_path: Seq::empty(),
            },
        ),
        offer.payload@ == offer_text(offer.transfer_id@, file_name@, file_size),
{
    let transfer_id = uuid_v4_text();
    let mut payload = String::new();
    push_str(&mut payload, transfer_id.as_str());
    push_char(&mut payload, '|');
    push_str(&mut payload, file_name.as_str());
    push_char(&mut payload, '|');
    push_decimal(&mut payload, file_size);
    assert(payload@ =~= offer_text(transfer_id@, file_name@, file_size));
    let session = TransferSession {
        id: transfer_id.clone(),
        file_name: file_name,
        file_size: file_size,
        file_path: String::new(),
    };
    assert(session@.file_path =~= Seq::<char>::empty());
    store.insert(transfer_id.clone(), session);
    FileOffer { transfer_id, payload }
}

/// The state of sending one file from disk in chunks: which transfer, under
/// which name, how large the file is and how much has been sent.
pub struct FileSender {
    transfer_id: String,
    file_name: String,
    total_size: u64,
    offset: u64,
}

impl FileSender {
    #[verifier::type_invariant]
    spec fn fields_fit(&self) -> bool {
        chunk_fields_error(self.transfer_id@, self.file_name@) is None
    }

    pub closed spec fn spec_transfer_id(&self) -> Seq<char> {
        self.transfer_id@
    }

    pub closed spec fn spec_file_name(&self) -> Seq<char> {
        self.file_name@
    }

    pub closed spec fn spec_total_size(&self) -> u64 {
        self.total_size
    }

    pub closed spec fn spec_offset(&self) -> u64 {
        self.offset
    }

    /// Prepares to send the file at `path`: its name is the file name that
    /// `Path::file_name` finds, which must exist and be non-empty; then the
    /// name and the id must each fit in 65535 bytes, checked in that order.
    /// The size is not known yet and counts as zero. The name is never `.`
    /// or `..`, holds no `/`, is a piece of `path`, and is `path` itself when
    /// `path` is a plain file name.
    pub fn new(path: &str, transfer_id: String) -> (res: Result<FileSender, ChunkError>)
        ensures
            match crate::paths::std_file_name(path@) {
                None => res == Err::<FileSender, ChunkError>(ChunkError::InvalidPath),
                Some(n) => if n.len() == 0 {
                    res == Err::<FileSender, ChunkError>(ChunkError::InvalidPath)
                } else {
                    match chunk_fields_error(transfer_id@, n) {
                        Some(e) => res == Err::<FileSender, ChunkError>(e),
                        None => res matches Ok(s) && s.spec_transfer_id() == transfer_id@
                            && s.spec_file_name() == n && s.spec_total_size() == 0
                            && s.spec_offset() == 0,
                    }
                },
            },
            res matches Ok(s) ==> {
                &&& !s.spec_file_name().contains('/')
                &&& s.spec_file_name() != ".."@
                &&& s.spec_file_name() != "."@
                &&& crate::text::contains_spec(path@, s.spec_file_name())
                &&& crate::paths::is_plain_name(path@) ==> s.spec_file_name() == path@
            },
    {
        let found = crate::paths::path_file_name(path);
        let file_name = match found {
            Some(n) => n,
            None => {
                return Err(ChunkError::InvalidPath);
            },
        };
        Self::with_name(file_name, transfer_id)
    }

    /// Prepares to send a file under `file_name`, which must be non-empty;
    /// then the name and the id must each fit in 65535 bytes.
    pub fn with_name(file_name: String, transfer_id: String) -> (res: Result<FileSender, ChunkError>)
        ensures
            file_name@.len() == 0 ==> res == Err::<FileSender, ChunkError>(ChunkError::InvalidPath),
            file_name@.len() > 0 ==> match chunk_fields_error(transfer_id@, file_name@) {
                Some(e) => res == Err::<FileSender, ChunkError>(e),
                None => res matches Ok(s) && s.spec_transfer_id() == transfer_id@
                    && s.spec_file_name() == file_name@ && s.spec_total_size() == 0
                    && s.spec_offset() == 0,
            },
    {
        if file_name.as_str().is_empty() {
            return Err(ChunkError::InvalidPath);
        }
        check_chunk_fields(transfer_id.as_str(), file_name.as_str())?;
        Ok(FileSender { transfer_id, file_name, total_size: 0, offset: 0 })
    }

    /// Records the size of the file, once it is known.
    pub fn set_total_size(&mut self, total_size: u64)
        ensures
            final(self).spec_total_size() == total_size,
            final(self).spec_offset() == old(self).spec_offset(),
            final(self).spec_transfer_id() == old(self).spec_transfer_id(),
            final(self).spec_file_name() == old(self).spec_file_name(),
    {
        proof {
            use_type_invariant(&*self);
        }
        self.total_size = total_size;
    }

    /// Bytes sent so far.
    pub fn offset(&self) -> (o: u64)
        ensures
            o == self.spec_offset(),
    {
        self.offset
    }

    /// Size of the whole file.
    pub fn total_size(&self) -> (t: u64)
        ensures
            t == self.spec_total_size(),
    {
        self.total_size
    }

    /// The name the file is sent under.
    pub fn file_name(&self) -> (n: &str)
        ensures
            n@ == self.spec_file_name(),
    {
        self.file_name.as_str()
    }

    /// The payload for the next piece `data` of the file, which starts at
    /// the current offset; the offset then moves past it.
    pub fn next_chunk(&mut self, data: &[u8]) -> (payload: Vec<u8>)
        requires
            old(self).spec_offset() + data@.len() <= u64::MAX,
        ensures
            payload@ == chunk_bytes(
                old(self).spec_transfer_id(),
                old(self).spec_file_name(),
                old(self).spec_total_size(),
                old(self).spec_offset(),
                data@,
            ),
            final(self).spec_offset() == old(self).spec_offset() + data@.len(),
            final(self).spec_total_size() == old(self).spec_total_size(),
            final(self).spec_transfer_id() == old(self).spec_transfer_id(),
            final(self).spec_file_name() == old(self).spec_file_name(),
    {
        proof {
            use_type_invariant(&*self);
        }
        let res = encode_file_chunk(
            self.transfer_id.as_str(),
            self.file_name.as_str(),
            self.total_size,
            self.offset,
            data,
        );
        let payload = match res {
            Ok(p) => p,
            Err(_) => Vec::new(),
        };
        self.offset = self.offset + data.len() as u64;
        payload
    }

    /// The progress report after a chunk: id, name, bytes sent, total size
    /// and the percentage, separated by `|`.
    pub fn progress_event(&self, percent: u8) -> (s: String)
        ensures
            s@ == self.spec_transfer_id() + seq!['|'] + self.spec_file_name() + seq!['|']
                + decimal(self.spec_offset() as nat) + seq!['|'] + decimal(
                self.spec_total_size() as nat,
            ) + seq!['|'] + decimal(percent as nat),
    {
        let mut s = String::new();
        push_str(&mut s, self.transfer_id.as_str());
        push_char(&mut s, '|');
        push_str(&mut s, self.file_name.as_str());
        push_char(&mut s, '|');
        push_decimal(&mut s, self.offset);
        push_char(&mut s, '|');
        push_decimal(&mut s, self.total_size);
        push_char(&mut s, '|');
        push_decimal(&mut s, percent as u64);
        assert(s@ =~= self.spec_transfer_id() + seq!['|'] + self.spec_file_name() + seq!['|']
            + decimal(self.spec_offset() as nat) + seq!['|'] + decimal(
            self.spec_total_size() as nat,
        ) + seq!['|'] + decimal(percent as nat));
        s
    }
}

} // verus!
