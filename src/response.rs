//! Incoming responses: header, status gating, tag correlation and the
//! typed result of each command.
use crate::command::Request;
use crate::error::Error;
use crate::wire::{read_u16_le, read_u32_le, u16_at, u32_at, utf8_text};
use vstd::prelude::*;
use vstd::utf8::{decode_utf8, valid_utf8};

verus! {

/// Bytes in a response header.
pub const RESPONSE_HEADER_SIZE: usize = 8;

/// The outcome the device reports for a command.
#[derive(Clone, Copy, Debug, PartialEq, Eq, Structural)]
pub enum CommandResponseStatus {
    /// Understood and executed.
    Success,
    /// Not understood.
    ParseError,
    /// Understood, but execution failed.
    ExecutionError,
}

impl CommandResponseStatus {
    pub open spec fn from_code_spec(v: u8) -> Option<CommandResponseStatus> {
        if v == 0 {
            Some(CommandResponseStatus::Success)
        } else if v == 1 {
            Some(CommandResponseStatus::ParseError)
        } else if v == 2 {
            Some(CommandResponseStatus::ExecutionError)
        } else {
            None
        }
    }

    /// The status with wire code `v`; any other code is `UnknownStatus`.
    pub fn from_wire(v: u8) -> (r: Result<CommandResponseStatus, Error>)
        ensures
            r == (match Self::from_code_spec(v) {
                Some(s) => Ok(s),
                None => Err(Error::UnknownStatus),
            }),
    {
        match v {
            0 => Ok(CommandResponseStatus::Success),
            1 => Ok(CommandResponseStatus::ParseError),
            2 => Ok(CommandResponseStatus::ExecutionError),
            _ => Err(Error::UnknownStatus),
        }
    }
}

/// The header of a response.
#[derive(Clone, Copy, Debug, PartialEq, Eq, Structural)]
pub struct CommandResponse {
    /// The tag of the command this answers.
    pub tag: u16,
    pub status: CommandResponseStatus,
    /// More on a status other than `Success`.
    pub status_info: u8,
}

/// The header at the start of `b`: tag, status, status info, then four
/// reserved bytes.
pub open spec fn response_header_spec(b: Seq<u8>) -> Result<CommandResponse, Error> {
    if b.len() < 8 {
        Err(Error::Truncated)
    } else {
        match CommandResponseStatus::from_code_spec(b[2]) {
            None => Err(Error::UnknownStatus),
            Some(s) => Ok(CommandResponse { tag: u16_at(b, 0), status: s, status_info: b[3] }),
        }
    }
}

impl CommandResponse {
    /// Decodes the header and gives the offset where the payload starts.
    pub fn decode(b: &[u8]) -> (r: Result<(CommandResponse, usize), Error>)
        ensures
            match response_header_spec(b@) {
                Ok(h) => r == Ok::<(CommandResponse, usize), Error>((h, RESPONSE_HEADER_SIZE)),
                Err(e) => r == Err::<(CommandResponse, usize), Error>(e),
            },
    {
        if b.len() < RESPONSE_HEADER_SIZE {
            return Err(Error::Truncated);
        }
        let tag = match read_u16_le(b, 0) {
            Some(t) => t,
            None => return Err(Error::Truncated),
        };
        let status = match CommandResponseStatus::from_wire(b[2]) {
            Ok(s) => s,
            Err(e) => return Err(e),
        };
        Ok((CommandResponse { tag, status, status_info: b[3] }, RESPONSE_HEADER_SIZE))
    }
}

/// The mode a device reports in its BinInfo result.
#[derive(Clone, Copy, Debug, PartialEq, Eq, Structural)]
pub enum BinInfoMode {
    /// Flashing of user programs is allowed.
    Bootloader,
    /// A user program runs.
    User,
}

impl BinInfoMode {
    pub open spec fn from_code_spec(v: u32) -> Option<BinInfoMode> {
        if v == 1 {
            Some(BinInfoMode::Bootloader)
        } else if v == 2 {
            Some(BinInfoMode::User)
        } else {
            None
        }
    }

    /// The mode with wire code `v`; any other code is `UnknownMode`.
    pub fn from_wire(v: u32) -> (r: Result<BinInfoMode, Error>)
        ensures
            r == (match Self::from_code_spec(v) {
                Some(m) => Ok(m),
                None => Err(Error::UnknownMode),
            }),
    {
        match v {
            1 => Ok(BinInfoMode::Bootloader),
            2 => Ok(BinInfoMode::User),
            _ => Err(Error::UnknownMode),
        }
    }
}

/// The result of BinInfo.
#[derive(Clone, Copy, Debug, PartialEq, Eq)]
pub struct BinInfoResult {
    pub mode: BinInfoMode,
    pub flash_page_size: u32,
    pub flash_num_pages: u32,
    pub max_message_size: u32,
    /// Only sent by devices that fill the optional trailing word.
    pub family_id: Option<u32>,
}

/// Four little-endian words, and a fifth when at least 20 bytes are there.
pub open spec fn bin_info_spec(b: Seq<u8>) -> Result<BinInfoResult, Error> {
    if b.len() < 16 {
        Err(Error::Truncated)
    } else {
        match BinInfoMode::from_code_spec(u32_at(b, 0)) {
            None => Err(Error::UnknownMode),
            Some(m) => Ok(
                BinInfoResult {
                    mode: m,
                    flash_page_size: u32_at(b, 4),
                    flash_num_pages: u32_at(b, 8),
                    max_message_size: u32_at(b, 12),
                    family_id: if b.len() >= 20 {
                        Some(u32_at(b, 16))
                    } else {
                        None
                    },
                },
            ),
        }
    }
}

/// One little-endian word of `b` that must be there.
fn word_at(b: &[u8], off: usize) -> (r: u32)
    requires
        off + 4 <= b@.len(),
    ensures
        r == u32_at(b@, off as int),
{
    match read_u32_le(b, off) {
        Some(v) => v,
        None => 0,
    }
}

impl BinInfoResult {
    /// Decodes a BinInfo result.
    pub fn decode(b: &[u8]) -> (r: Result<BinInfoResult, Error>)
        ensures
            r == bin_info_spec(b@),
    {
        if b.len() < 16 {
            return Err(Error::Truncated);
        }
        let mode = match BinInfoMode::from_wire(word_at(b, 0)) {
            Ok(m) => m,
            Err(e) => return Err(e),
        };
        let family_id = if b.len() >= 20 {
            Some(word_at(b, 16))
        } else {
            None
        };
        Ok(
            BinInfoResult {
                mode,
                flash_page_size: word_at(b, 4),
                flash_num_pages: word_at(b, 8),
                max_message_size: word_at(b, 12),
                family_id,
            },
        )
    }
}

/// The result of Info: the whole payload as text.
#[derive(Clone, Debug, PartialEq, Eq)]
pub struct InfoResult {
    pub info: String,
}

/// The result of Dmesg: the whole payload as text.
#[derive(Clone, Debug, PartialEq, Eq)]
pub struct DmesgResult {
    pub logs: String,
}

/// The result of ChecksumPages: one CRC-16 per page.
#[derive(Clone, Debug, PartialEq, Eq)]
pub struct ChksumPagesResult {
    pub chksums: Vec<u16>,
}

/// The result of ReadWords.
#[derive(Clone, Debug, PartialEq, Eq)]
pub struct ReadWordsResult {
    pub words: Vec<u32>,
}

/// The first `n` little-endian 16-bit values of `b`.
pub open spec fn halves_spec(b: Seq<u8>, n: nat) -> Seq<u16> {
    Seq::new(n, |i: int| u16_at(b, 2 * i))
}

/// The first `n` little-endian 32-bit values of `b`.
pub open spec fn words_spec(b: Seq<u8>, n: nat) -> Seq<u32> {
    Seq::new(n, |i: int| u32_at(b, 4 * i))
}

impl InfoResult {
    /// Decodes an Info result.
    pub fn decode(b: &[u8]) -> (r: Result<InfoResult, Error>)
        ensures
            valid_utf8(b@) ==> (r matches Ok(v) && v.info@ == decode_utf8(b@)),
            !valid_utf8(b@) ==> r == Err::<InfoResult, Error>(Error::Encoding),
    {
        match utf8_text(b) {
            Some(info) => Ok(InfoResult { info }),
            None => Err(Error::Encoding),
        }
    }
}

impl DmesgResult {
    /// Decodes a Dmesg result.
    pub fn decode(b: &[u8]) -> (r: Result<DmesgResult, Error>)
        ensures
            valid_utf8(b@) ==> (r matches Ok(v) && v.logs@ == decode_utf8(b@)),
            !valid_utf8(b@) ==> r == Err::<DmesgResult, Error>(Error::Encoding),
    {
        match utf8_text(b) {
            Some(logs) => Ok(DmesgResult { logs }),
            None => Err(Error::Encoding),
        }
    }
}

impl ChksumPagesResult {
    /// Decodes the checksums of `num_pages` pages; bytes after them are
    /// not read.
    pub fn decode(b: &[u8], num_pages: u32) -> (r: Result<ChksumPagesResult, Error>)
        ensures
            b@.len() < 2 * num_pages ==> r == Err::<ChksumPagesResult, Error>(Error::Truncated),
            b@.len() >= 2 * num_pages ==> (r matches Ok(v) && v.chksums@ == halves_spec(
                b@,
                num_pages as nat,
            )),
    {
        if (b.len() as u64) < 2 * (num_pages as u64) {
            return Err(Error::Truncated);
        }
        let len = b.len();
        let mut out: Vec<u16> = Vec::new();
        let mut i: usize = 0;
        while i < num_pages as usize
            invariant
                len == b@.len(),
                i <= num_pages,
                2 * num_pages <= b@.len(),
                out@ == halves_spec(b@, i as nat),
            decreases num_pages - i,
        {
            let v = match read_u16_le(b, 2 * i) {
                Some(v) => v,
                None => 0,
            };
            out.push(v);
            i += 1;
            assert(out@ =~= halves_spec(b@, i as nat));
        }
        Ok(ChksumPagesResult { chksums: out })
    }
}

impl ReadWordsResult {
    /// Decodes `num_words` words; bytes after them are not read.
    pub fn decode(b: &[u8], num_words: u32) -> (r: Result<ReadWordsResult, Error>)
        ensures
            b@.len() < 4 * num_words ==> r == Err::<ReadWordsResult, Error>(Error::Truncated),
            b@.len() >= 4 * num_words ==> (r matches Ok(v) && v.words@ == words_spec(
                b@,
                num_words as nat,
            )),
    {
        if (b.len() as u64) < 4 * (num_words as u64) {
            return Err(Error::Truncated);
        }
        let len = b.len();
        let mut out: Vec<u32> = Vec::new();
        let mut i: usize = 0;
        while i < num_words as usize
            invariant
                len == b@.len(),
                i <= num_words,
                4 * num_words <= b@.len(),
                out@ == words_spec(b@, i as nat),
            decreases num_words - i,
        {
            out.push(word_at(b, 4 * i));
            i += 1;
            assert(out@ =~= words_spec(b@, i as nat));
        }
        Ok(ReadWordsResult { words: out })
    }
}

/// The typed result of a request.
#[derive(Clone, Debug, PartialEq, Eq)]
pub enum Reply {
    BinInfo(BinInfoResult),
    Info(InfoResult),
    /// The command was carried out; it has no result data.
    Ack,
    ChecksumPages(ChksumPagesResult),
    ReadWords(ReadWordsResult),
    Dmesg(DmesgResult),
}

/// Whether `r` is what the payload `b` of a successful response decodes to
/// for request `req`.
pub open spec fn reply_spec(req: Request, b: Seq<u8>, r: Result<Reply, Error>) -> bool {
    match req {
        Request::BinInfo => match bin_info_spec(b) {
            Ok(v) => r == Ok::<Reply, Error>(Reply::BinInfo(v)),
            Err(e) => r == Err::<Reply, Error>(e),
        },
        Request::Info => if valid_utf8(b) {
            r matches Ok(Reply::Info(v)) && v.info@ == decode_utf8(b)
        } else {
            r == Err::<Reply, Error>(Error::Encoding)
        },
        Request::Dmesg => if valid_utf8(b) {
            r matches Ok(Reply::Dmesg(v)) && v.logs@ == decode_utf8(b)
        } else {
            r == Err::<Reply, Error>(Error::Encoding)
        },
        Request::ChecksumPages(c) => if b.len() < 2 * c.num_pages {
            r == Err::<Reply, Error>(Error::Truncated)
        } else {
            r matches Ok(Reply::ChecksumPages(v)) && v.chksums@ == halves_spec(
                b,
                c.num_pages as nat,
            )
        },
        Request::ReadWords(c) => if b.len() < 4 * c.num_words {
            r == Err::<Reply, Error>(Error::Truncated)
        } else {
            r matches Ok(Reply::ReadWords(v)) && v.words@ == words_spec(b, c.num_words as nat)
        },
        _ => r == Ok::<Reply, Error>(Reply::Ack),
    }
}

/// Decodes the payload of a successful response with the decoder of the
/// request that was sent.
pub fn decode_reply(req: &Request, b: &[u8]) -> (r: Result<Reply, Error>)
    ensures
        reply_spec(*req, b@, r),
{
    match req {
        Request::BinInfo => match BinInfoResult::decode(b) {
            Ok(v) => Ok(Reply::BinInfo(v)),
            Err(e) => Err(e),
        },
        Request::Info => match InfoResult::decode(b) {
            Ok(v) => Ok(Reply::Info(v)),
            Err(e) => Err(e),
        },
        Request::Dmesg => match DmesgResult::decode(b) {
            Ok(v) => Ok(Reply::Dmesg(v)),
            Err(e) => Err(e),
        },
        Request::ChecksumPages(c) => match ChksumPagesResult::decode(b, c.num_pages) {
            Ok(v) => Ok(Reply::ChecksumPages(v)),
            Err(e) => Err(e),
        },
        Request::ReadWords(c) => match ReadWordsResult::decode(b, c.num_words) {
            Ok(v) => Ok(Reply::ReadWords(v)),
            Err(e) => Err(e),
        },
        _ => Ok(Reply::Ack),
    }
}

/// Whether `r` is the outcome of the reassembled response `resp` to
/// request `req` sent under `tag`: the header must decode, the status must
/// be `Success` (any other status is `MalformedRequest`) and the tag must
/// match, in that order.
pub open spec fn exchange_spec(req: Request, tag: u16, resp: Seq<u8>, r: Result<Reply, Error>) -> bool {
    match response_header_spec(resp) {
        Err(e) => r == Err::<Reply, Error>(e),
        Ok(h) => if h.status != CommandResponseStatus::Success {
            r == Err::<Reply, Error>(Error::MalformedRequest)
        } else if h.tag != tag {
            r == Err::<Reply, Error>(Error::Sequence)
        } else {
            reply_spec(req, resp.skip(8), r)
        },
    }
}

/// Turns the reassembled response to `req`, sent under `tag`, into its
/// typed result.
pub fn finish_exchange(req: &Request, tag: u16, resp: &[u8]) -> (r: Result<Reply, Error>)
    ensures
        exchange_spec(*req, tag, resp@, r),
{
    let (head, start) = match CommandResponse::decode(resp) {
        Ok(x) => x,
        Err(e) => return Err(e),
    };
    if head.status != CommandResponseStatus::Success {
        return Err(Error::MalformedRequest);
    }
    if head.tag != tag {
        return Err(Error::Sequence);
    }
    let mut payload: Vec<u8> = Vec::new();
    let mut i: usize = start;
    while i < resp.len()
        invariant
            start == 8,
            start <= i <= resp@.len(),
            payload@ == resp@.subrange(8, i as int),
        decreases resp@.len() - i,
    {
        payload.push(resp[i]);
        i += 1;
        assert(payload@ =~= resp@.subrange(8, i as int));
    }
    assert(payload@ =~= resp@.skip(8));
    decode_reply(req, payload.as_slice())
}

/// A response whose tag differs from the one sent fails with `Sequence`,
/// even when its status is `Success`, whatever its payload.
pub proof fn lemma_tag_mismatch(req: Request, tag: u16, resp: Seq<u8>, r: Result<Reply, Error>)
    requires
        response_header_spec(resp) matches Ok(h) && h.status == CommandResponseStatus::Success
            && h.tag != tag,
        exchange_spec(req, tag, resp, r),
    ensures
        r == Err::<Reply, Error>(Error::Sequence),
{
}

/// A response with a status other than `Success` (`ParseError` among them)
/// fails with `MalformedRequest`, whatever its tag and payload.
pub proof fn lemma_failed_status(req: Request, tag: u16, resp: Seq<u8>, r: Result<Reply, Error>)
    requires
        response_header_spec(resp) matches Ok(h) && h.status != CommandResponseStatus::Success,
        exchange_spec(req, tag, resp, r),
    ensures
        r == Err::<Reply, Error>(Error::MalformedRequest),
{
}

} // verus!
