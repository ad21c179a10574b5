//! Outgoing commands: identifiers, header layout, payloads and their limits.
use crate::error::Error;
use crate::frame::{fragment, fragment_spec, frames_view};
use crate::wire::{append, le16, le32, u16_le_bytes, u32_le_bytes};
use vstd::prelude::*;

verus! {

/// The operation a command asks for.
#[derive(Clone, Copy, Debug, PartialEq, Eq, Structural)]
pub enum CommandId {
    /// Mode of the device, flash geometry and message size.
    BinInfo,
    /// Free-form device information text.
    Info,
    /// Reset into the user application; usually no response arrives.
    ResetIntoApp,
    /// Reset into the bootloader; usually no response arrives.
    ResetIntoBootloader,
    /// Hand over from the application to the bootloader.
    StartFlash,
    /// Write one page of flash.
    WriteFlashPage,
    /// CRC-16 checksums of a run of flash pages.
    Checksum,
    /// Read words of memory.
    ReadWords,
    /// Write words of memory.
    WriteWords,
    /// The device's internal log.
    Dmesg,
}

impl CommandId {
    pub open spec fn code_spec(self) -> u32 {
        match self {
            CommandId::BinInfo => 0x0001,
            CommandId::Info => 0x0002,
            CommandId::ResetIntoApp => 0x0003,
            CommandId::ResetIntoBootloader => 0x0004,
            CommandId::StartFlash => 0x0005,
            CommandId::WriteFlashPage => 0x0006,
            CommandId::Checksum => 0x0007,
            CommandId::ReadWords => 0x0008,
            CommandId::WriteWords => 0x0009,
            CommandId::Dmesg => 0x0010,
        }
    }

    /// The numeric identifier sent on the wire.
    pub fn code(self) -> (r: u32)
        ensures
            r == self.code_spec(),
    {
        match self {
            CommandId::BinInfo => 0x0001,
            CommandId::Info => 0x0002,
            CommandId::ResetIntoApp => 0x0003,
            CommandId::ResetIntoBootloader => 0x0004,
            CommandId::StartFlash => 0x0005,
            CommandId::WriteFlashPage => 0x0006,
            CommandId::Checksum => 0x0007,
            CommandId::ReadWords => 0x0008,
            CommandId::WriteWords => 0x0009,
            CommandId::Dmesg => 0x0010,
        }
    }
}

/// The header of an outgoing command.
#[derive(Clone, Copy, Debug, PartialEq, Eq, Structural)]
pub struct Command {
    pub command_id: CommandId,
    /// Chosen by the host; the response repeats it.
    pub tag: u16,
}

/// Command id, tag and two reserved zero bytes, all little-endian.
pub open spec fn command_header_spec(id: CommandId, tag: u16) -> Seq<u8> {
    le32(id.code_spec()) + le16(tag) + seq![0u8, 0u8]
}

impl Command {
    /// The command header followed by `payload`.
    pub fn encode(&self, payload: &[u8]) -> (r: Vec<u8>)
        ensures
            r@ == command_header_spec(self.command_id, self.tag) + payload@,
    {
        let mut out: Vec<u8> = Vec::new();
        let id = u32_le_bytes(self.command_id.code());
        append(&mut out, id.as_slice());
        let tag = u16_le_bytes(self.tag);
        append(&mut out, tag.as_slice());
        out.push(0u8);
        out.push(0u8);
        append(&mut out, payload);
        assert(out@ =~= command_header_spec(self.command_id, self.tag) + payload@);
        out
    }
}

/// Write one page of flash at `target_addr`.
#[derive(Clone, Debug, PartialEq, Eq)]
pub struct WriteFlashPageCommand {
    pub target_addr: u32,
    pub data: Vec<u8>,
}

/// Checksum `num_pages` pages of flash from `target_addr` on.
#[derive(Clone, Copy, Debug, PartialEq, Eq)]
pub struct ChksumPagesCommand {
    pub target_addr: u32,
    pub num_pages: u32,
}

/// Read `num_words` words of memory from `target_addr` on.
#[derive(Clone, Copy, Debug, PartialEq, Eq)]
pub struct ReadWordsCommand {
    pub target_addr: u32,
    pub num_words: u32,
}

/// Write `words` to memory from `target_addr` on.
#[derive(Clone, Debug, PartialEq, Eq)]
pub struct WriteWordsCommand {
    pub target_addr: u32,
    pub words: Vec<u32>,
}

/// One request to the device, with its arguments.
#[derive(Clone, Debug, PartialEq, Eq)]
pub enum Request {
    BinInfo,
    Info,
    ResetIntoApp,
    ResetIntoBootloader,
    StartFlash,
    WriteFlashPage(WriteFlashPageCommand),
    ChecksumPages(ChksumPagesCommand),
    ReadWords(ReadWordsCommand),
    WriteWords(WriteWordsCommand),
    Dmesg,
}

/// What the device reported of itself in its BinInfo result.
#[derive(Clone, Copy, Debug, PartialEq, Eq)]
pub struct Limits {
    pub flash_page_size: u32,
    pub max_message_size: u32,
}

/// Words, each as four little-endian bytes.
pub open spec fn words_le(w: Seq<u32>) -> Seq<u8>
    decreases w.len(),
{
    if w.len() == 0 {
        Seq::empty()
    } else {
        words_le(w.drop_last()) + le32(w.last())
    }
}

/// The largest page count a checksum request may ask for.
pub open spec fn checksum_bound(max_message_size: u32) -> int {
    max_message_size as int / 2 - 2
}

impl Request {
    pub open spec fn id_spec(&self) -> CommandId {
        match self {
            Request::BinInfo => CommandId::BinInfo,
            Request::Info => CommandId::Info,
            Request::ResetIntoApp => CommandId::ResetIntoApp,
            Request::ResetIntoBootloader => CommandId::ResetIntoBootloader,
            Request::StartFlash => CommandId::StartFlash,
            Request::WriteFlashPage(_) => CommandId::WriteFlashPage,
            Request::ChecksumPages(_) => CommandId::Checksum,
            Request::ReadWords(_) => CommandId::ReadWords,
            Request::WriteWords(_) => CommandId::WriteWords,
            Request::Dmesg => CommandId::Dmesg,
        }
    }

    /// The identifier of the operation.
    pub fn id(&self) -> (r: CommandId)
        ensures
            r == self.id_spec(),
    {
        match self {
            Request::BinInfo => CommandId::BinInfo,
            Request::Info => CommandId::Info,
            Request::ResetIntoApp => CommandId::ResetIntoApp,
            Request::ResetIntoBootloader => CommandId::ResetIntoBootloader,
            Request::StartFlash => CommandId::StartFlash,
            Request::WriteFlashPage(_) => CommandId::WriteFlashPage,
            Request::ChecksumPages(_) => CommandId::Checksum,
            Request::ReadWords(_) => CommandId::ReadWords,
            Request::WriteWords(_) => CommandId::WriteWords,
            Request::Dmesg => CommandId::Dmesg,
        }
    }

    pub open spec fn expects_reply_spec(&self) -> bool {
        !(self is ResetIntoApp || self is ResetIntoBootloader)
    }

    /// Whether the device answers this request; a reset usually does not.
    pub fn expects_reply(&self) -> (r: bool)
        ensures
            r == self.expects_reply_spec(),
    {
        match self {
            Request::ResetIntoApp | Request::ResetIntoBootloader => false,
            _ => true,
        }
    }

    /// The payload bytes after the command header, or the limit the
    /// arguments break.
    pub open spec fn payload_spec(&self, limits: Limits) -> Result<Seq<u8>, Error> {
        match self {
            Request::WriteFlashPage(c) => if c.data@.len() != limits.flash_page_size {
                Err(Error::InvalidArgument)
            } else {
                Ok(le32(c.target_addr) + c.data@)
            },
            Request::ChecksumPages(c) => if c.num_pages > checksum_bound(limits.max_message_size) {
                Err(Error::InvalidArgument)
            } else {
                Ok(le32(c.target_addr) + le32(c.num_pages))
            },
            Request::ReadWords(c) => if c.target_addr % 4 != 0 {
                Err(Error::InvalidArgument)
            } else {
                Ok(le32(c.target_addr) + le32(c.num_words))
            },
            Request::WriteWords(c) => if c.target_addr % 4 != 0 || c.words@.len() > u32::MAX {
                Err(Error::InvalidArgument)
            } else {
                Ok(le32(c.target_addr) + le32(c.words@.len() as u32) + words_le(c.words@))
            },
            _ => Ok(Seq::empty()),
        }
    }

    /// The whole message for this request under `tag`; `Overflow` when it
    /// is longer than the device's maximum message size.
    pub open spec fn message_spec(&self, tag: u16, limits: Limits) -> Result<Seq<u8>, Error> {
        match self.payload_spec(limits) {
            Err(e) => Err(e),
            Ok(p) => {
                let m = command_header_spec(self.id_spec(), tag) + p;
                if m.len() > limits.max_message_size {
                    Err(Error::Overflow)
                } else {
                    Ok(m)
                }
            },
        }
    }

    /// Encodes the payload, checking the arguments against the limits.
    pub fn payload(&self, limits: &Limits) -> (r: Result<Vec<u8>, Error>)
        ensures
            match self.payload_spec(*limits) {
                Ok(p) => r matches Ok(v) && v@ == p,
                Err(e) => r == Err::<Vec<u8>, Error>(e),
            },
    {
        match self {
            Request::WriteFlashPage(c) => {
                if c.data.len() as u64 != limits.flash_page_size as u64 {
                    return Err(Error::InvalidArgument);
                }
                let mut out = u32_le_bytes(c.target_addr);
                append(&mut out, c.data.as_slice());
                Ok(out)
            },
            Request::ChecksumPages(c) => {
                if c.num_pages as u64 + 2 > (limits.max_message_size / 2) as u64 {
                    return Err(Error::InvalidArgument);
                }
                let mut out = u32_le_bytes(c.target_addr);
                let n = u32_le_bytes(c.num_pages);
                append(&mut out, n.as_slice());
                Ok(out)
            },
            Request::ReadWords(c) => {
                if c.target_addr % 4 != 0 {
                    return Err(Error::InvalidArgument);
                }
                let mut out = u32_le_bytes(c.target_addr);
                let n = u32_le_bytes(c.num_words);
                append(&mut out, n.as_slice());
                Ok(out)
            },
            Request::WriteWords(c) => {
                if c.target_addr % 4 != 0 || c.words.len() as u64 > u32::MAX as u64 {
                    return Err(Error::InvalidArgument);
                }
                let mut out = u32_le_bytes(c.target_addr);
                let n = u32_le_bytes(c.words.len() as u32);
                append(&mut out, n.as_slice());
                let ghost head = out@;
                let mut i: usize = 0;
                while i < c.words.len()
                    invariant
                        i <= c.words@.len(),
                        out@ == head + words_le(c.words@.subrange(0, i as int)),
                    decreases c.words@.len() - i,
                {
                    let w = u32_le_bytes(c.words[i]);
                    append(&mut out, w.as_slice());
                    i += 1;
                    let ghost done = c.words@.subrange(0, i as int);
                    assert(done.drop_last() =~= c.words@.subrange(0, i - 1));
                    assert(out@ =~= head + words_le(done));
                }
                assert(c.words@.subrange(0, i as int) =~= c.words@);
                Ok(out)
            },
            _ => Ok(Vec::new()),
        }
    }
}

/// Encodes a request under `tag` and splits it into the frames to write,
/// in order. Fails, before anything is sent, when the arguments break a
/// limit or the message is longer than the device accepts.
pub fn prepare(req: &Request, tag: u16, limits: &Limits) -> (r: Result<Vec<Vec<u8>>, Error>)
    ensures
        match req.message_spec(tag, *limits) {
            Ok(m) => r matches Ok(frames) && frames_view(frames@) == fragment_spec(m),
            Err(e) => r == Err::<Vec<Vec<u8>>, Error>(e),
        },
{
    let payload = match req.payload(limits) {
        Ok(p) => p,
        Err(e) => return Err(e),
    };
    let cmd = Command { command_id: req.id(), tag };
    let msg = cmd.encode(payload.as_slice());
    if msg.len() as u64 > limits.max_message_size as u64 {
        return Err(Error::Overflow);
    }
    Ok(fragment(msg.as_slice()))
}

/// A checksum request for more pages than `max_message_size / 2 - 2` is
/// refused with `InvalidArgument` before any frame exists.
pub proof fn lemma_checksum_bound(c: ChksumPagesCommand, tag: u16, limits: Limits)
    requires
        c.num_pages > checksum_bound(limits.max_message_size),
    ensures
        Request::ChecksumPages(c).message_spec(tag, limits) == Err::<Seq<u8>, Error>(
            Error::InvalidArgument,
        ),
{
}

/// Hands out correlation tags in turn, wrapping at the 16-bit boundary.
#[derive(Clone, Copy, Debug, PartialEq, Eq)]
pub struct TagCounter {
    pub next: u16,
}

impl TagCounter {
    /// A counter whose first tag is 1.
    pub fn new() -> (r: TagCounter)
        ensures
            r.next == 1,
    {
        TagCounter { next: 1 }
    }

    /// The next tag to use.
    pub fn allocate(&mut self) -> (r: u16)
        ensures
            r == old(self).next,
            final(self).next == (old(self).next + 1) % 0x1_0000,
    {
        let t = self.next;
        self.next = self.next.wrapping_add(1);
        t
    }
}

} // verus!
