//! The Ogg page layer, which the `ogg` crate provides.
//!
//! Nothing in this file is proved. Each item states what the rest of the
//! crate takes for granted about `ogg`'s packet writer and packet reader,
//! both run over memory rather than over a file.

use vstd::prelude::*;
use ogg::{OggReadError, PacketReader, PacketWriteEndInfo, PacketWriter};
use std::io::Cursor;

verus! {

/// What a packet asks of the page that carries it.
#[derive(Debug, Clone, Copy, PartialEq, Eq, Structural)]
pub enum EndInfo {
    /// Nothing: later packets may share the page.
    NormalPacket,
    /// The page is closed after this packet.
    EndPage,
    /// The page is closed and marked as the last of its stream.
    EndStream,
}

/// One packet as handed to the writer: payload, stream serial, page
/// request, granule position.
pub type PacketRecord = (Seq<u8>, u32, EndInfo, u64);

/// The longest payload that [`PageWriter::write`] takes in one call.
pub const MAX_WRITE_LEN: usize = 65535;

/// The number of packets after which [`PageWriter::write`] takes no more.
pub const MAX_WRITES: usize = 0x100_0000;

/// `ogg::OggReadError`, carried through but never looked into.
#[verifier::external_type_specification]
#[verifier::external_body]
pub struct ExOggReadError(OggReadError);

/// `std::io::Error`, carried through but never looked into.
#[verifier::external_type_specification]
#[verifier::external_body]
pub struct ExIoError(std::io::Error);

/// An `ogg::PacketWriter` that appends its pages to a byte vector. The
/// writer's type is bounded by `std::io::Write`, which the verifier does
/// not know, so it is kept behind this struct and seen only through
/// [`writer_log`].
#[verifier::external_body]
pub struct PageWriter {
    inner: PacketWriter<'static, Vec<u8>>,
}

/// An `ogg::PacketReader` over a cursor on a byte vector. The reader's
/// type is bounded by `std::io::Read` and `std::io::Seek`, which the
/// verifier does not know, so it is kept behind this struct and seen only
/// through [`reader_pending`] and [`reader_broken`].
#[verifier::external_body]
pub struct PageReader {
    inner: PacketReader<Cursor<Vec<u8>>>,
}

/// The packets that a writer has accepted so far, oldest first.
pub uninterp spec fn writer_log(w: PageWriter) -> Seq<PacketRecord>;

/// The bytes that `ogg` has emitted once it has accepted exactly the
/// packets of `log`, in that order, into an empty writer.
pub uninterp spec fn ogg_bytes(log: Seq<PacketRecord>) -> Seq<u8>;

/// The payloads that a reader will still deliver, in order, before the
/// first read that delivers none. The reader works through a finite byte
/// vector and nothing else, so this is a finite sequence that the bytes
/// and the reads so far determine.
pub uninterp spec fn reader_pending(r: PageReader) -> Seq<Seq<u8>>;

/// Whether that first read without a packet reports an error rather than
/// the end of the data.
pub uninterp spec fn reader_broken(r: PageReader) -> bool;

/// For a reader freshly opened on `bytes`: what it has pending, and
/// whether it ends broken.
pub uninterp spec fn ogg_read(bytes: Seq<u8>) -> (Seq<Seq<u8>>, bool);

impl PageWriter {
    /// `PacketWriter::new` on an empty vector: nothing has been accepted.
    #[verifier::external_body]
    pub(crate) fn new() -> (w: PageWriter)
        ensures
            writer_log(w) == Seq::<PacketRecord>::empty(),
    {
        PageWriter { inner: PacketWriter::new(Vec::new()) }
    }

    /// `PacketWriter::write_packet`. The writer assembles each page header
    /// in memory and appends its pages to a byte vector, and neither of
    /// these writes can fail: the call returns `Ok`, and the packet has
    /// joined the accepted ones. The two bounds keep the 32-bit page
    /// counter of `ogg` from overflowing: a payload of at most 65535
    /// bytes closes at most three pages.
    #[verifier::external_body]
    pub(crate) fn write(
        &mut self,
        data: Vec<u8>,
        serial: u32,
        end: EndInfo,
        granule: u64,
    ) -> (r: Result<(), std::io::Error>)
        requires
            writer_log(*old(self)).len() < MAX_WRITES,
            data@.len() <= MAX_WRITE_LEN,
        ensures
            r.is_ok(),
            writer_log(*final(self)) == writer_log(*old(self)).push((data@, serial, end, granule)),
    {
        let info = match end {
            EndInfo::NormalPacket => PacketWriteEndInfo::NormalPacket,
            EndInfo::EndPage => PacketWriteEndInfo::EndPage,
            EndInfo::EndStream => PacketWriteEndInfo::EndStream,
        };
        self.inner.write_packet(data, serial, info, granule)
    }

    /// `PacketWriter::into_inner`: the bytes emitted for what was
    /// accepted. The writer computes them from the packets alone.
    #[verifier::external_body]
    pub(crate) fn into_bytes(self) -> (bytes: Vec<u8>)
        ensures
            bytes@ == ogg_bytes(writer_log(self)),
    {
        self.inner.into_inner()
    }
}

impl PageReader {
    /// `PacketReader::new` on a cursor over `bytes`, with checksums
    /// verified as by default. What the reader will deliver depends on
    /// the bytes alone.
    #[verifier::external_body]
    pub(crate) fn open(bytes: Vec<u8>) -> (r: PageReader)
        ensures
            reader_pending(r) == ogg_read(bytes@).0,
            reader_broken(r) == ogg_read(bytes@).1,
    {
        PageReader { inner: PacketReader::new(Cursor::new(bytes)) }
    }

    /// `PacketReader::read_packet`, keeping only the payload of the packet.
    /// A packet is the first of the pending ones and leaves them; `None`
    /// and an error come only when nothing is pending.
    #[verifier::external_body]
    pub(crate) fn read(&mut self) -> (r: Result<Option<Vec<u8>>, OggReadError>)
        ensures
            match r {
                Ok(Some(data)) => {
                    &&& reader_pending(*old(self)).len() > 0
                    &&& data@ == reader_pending(*old(self))[0]
                    &&& reader_pending(*final(self)) == reader_pending(*old(self)).skip(1)
                    &&& reader_broken(*final(self)) == reader_broken(*old(self))
                },
                Ok(None) => reader_pending(*old(self)).len() == 0 && !reader_broken(*old(self)),
                Err(_) => reader_pending(*old(self)).len() == 0 && reader_broken(*old(self)),
            },
    {
        match self.inner.read_packet() {
            Ok(Some(packet)) => Ok(Some(packet.data)),
            Ok(None) => Ok(None),
            Err(e) => Err(e),
        }
    }
}

/// `rand::random` for a stream serial. Nothing is known of the number.
#[verifier::external_body]
pub(crate) fn random_serial() -> (serial: u32)
{
    rand::random::<u32>()
}

} // verus!
