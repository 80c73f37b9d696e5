//! Compression settings of a `.pak` file, and the bytes written and read through them.
use vstd::prelude::*;
use std::io::{Read, Write};

verus! {

/// Describes Brotli-based compression.
#[derive(Clone, Copy, Debug, PartialEq, Eq, Structural)]
pub struct BrotliParams {
    /// Buffer size.
    pub buffer_size: usize,
    /// Compression quality.
    pub quality: u32,
    /// Window size.
    pub window_size: u32,
}

impl Default for BrotliParams {
    fn default() -> (r: Self)
        ensures
            r == (BrotliParams { buffer_size: 4096, quality: 8, window_size: 22 }),
    {
        BrotliParams { buffer_size: 4096, quality: 8, window_size: 22 }
    }
}

/// The compression applied to the contents of a `.pak` file.
#[derive(Clone, Copy, Debug, PartialEq, Eq, Structural)]
pub enum Compression {
    /// Brotli compression with the given parameters.
    Brotli(BrotliParams),
    /// Snappy frame compression.
    Snap,
}

impl Default for Compression {
    fn default() -> (r: Self)
        ensures
            r == Compression::Brotli(BrotliParams { buffer_size: 4096, quality: 8, window_size: 22 }),
    {
        Compression::Brotli(BrotliParams::default())
    }
}

/// What Brotli's `CompressorWriter`, made with the buffer size, quality and window size, writes
/// for `data` before it is taken apart with `into_inner`; `None` where writing reports an error.
pub uninterp spec fn brotli_written(data: Seq<u8>, buffer_size: usize, quality: u32, window_size: u32) -> Option<Seq<u8>>;

/// What Brotli's `CompressorReader`, made with the buffer size, quality and window size over
/// `data`, reads to its end; `None` where reading reports an error.
pub uninterp spec fn brotli_read(data: Seq<u8>, buffer_size: usize, quality: u32, window_size: u32) -> Option<Seq<u8>>;

/// What Snappy's `FrameEncoder` writes for `data` before it is taken apart with `into_inner`;
/// `None` where writing reports an error.
pub uninterp spec fn snap_written(data: Seq<u8>) -> Option<Seq<u8>>;

/// What Snappy's `FrameDecoder` over `data` reads to its end; `None` where reading reports an
/// error, such as a malformed frame.
pub uninterp spec fn snap_read(data: Seq<u8>) -> Option<Seq<u8>>;

/// The bytes held by an optional buffer.
pub open spec fn bytes_of(r: Option<Vec<u8>>) -> Option<Seq<u8>> {
    match r {
        Some(v) => Some(v@),
        None => None,
    }
}

/// Calls `brotli::CompressorWriter::new` over an empty buffer, `write_all` with `data` and
/// `into_inner`. Claims only that the outcome is a function of the data and the three
/// parameters; a buffer size above `isize::MAX` would overflow the encoder's buffer allocation.
#[verifier::external_body]
fn brotli_write_all(data: &[u8], buffer_size: usize, quality: u32, window_size: u32) -> (r: Option<Vec<u8>>)
    requires
        buffer_size <= isize::MAX,
    ensures
        bytes_of(r) == brotli_written(data@, buffer_size, quality, window_size),
{
    let mut writer = brotli::CompressorWriter::new(Vec::new(), buffer_size, quality, window_size);
    match writer.write_all(data) {
        Ok(()) => Some(writer.into_inner()),
        Err(_) => None,
    }
}

/// Calls `brotli::CompressorReader::new` over `data` and `read_to_end`. Claims only that the
/// outcome is a function of the data and the three parameters; a buffer size above
/// `isize::MAX` would overflow the buffer allocation.
#[verifier::external_body]
fn brotli_read_to_end(data: &[u8], buffer_size: usize, quality: u32, window_size: u32) -> (r: Option<Vec<u8>>)
    requires
        buffer_size <= isize::MAX,
    ensures
        bytes_of(r) == brotli_read(data@, buffer_size, quality, window_size),
{
    let mut reader = brotli::CompressorReader::new(data, buffer_size, quality, window_size);
    let mut out = Vec::new();
    match reader.read_to_end(&mut out) {
        Ok(_) => Some(out),
        Err(_) => None,
    }
}

/// Calls `snap::write::FrameEncoder::new` over an empty buffer, `write_all` with `data` and
/// `into_inner`. Claims only that the outcome is a function of the data.
#[verifier::external_body]
fn snap_write_all(data: &[u8]) -> (r: Option<Vec<u8>>)
    ensures
        bytes_of(r) == snap_written(data@),
{
    let mut writer = snap::write::FrameEncoder::new(Vec::new());
    match writer.write_all(data) {
        Ok(()) => match writer.into_inner() {
            Ok(out) => Some(out),
            Err(_) => None,
        },
        Err(_) => None,
    }
}

/// Calls `snap::read::FrameDecoder::new` over `data` and `read_to_end`. Claims that the
/// outcome is a function of the data, and that the decoder undoes the encoder: reading what
/// `FrameEncoder` wrote for some bytes gives those bytes back.
#[verifier::external_body]
fn snap_read_to_end(data: &[u8]) -> (r: Option<Vec<u8>>)
    ensures
        bytes_of(r) == snap_read(data@),
        forall|x: Seq<u8>| #[trigger] snap_written(x) == Some(data@) ==> bytes_of(r) == Some(x),
{
    let mut reader = snap::read::FrameDecoder::new(data);
    let mut out = Vec::new();
    match reader.read_to_end(&mut out) {
        Ok(_) => Some(out),
        Err(_) => None,
    }
}

/// Whether the compression's buffer can be allocated.
pub open spec fn buffer_fits(compression: Option<Compression>) -> bool {
    match compression {
        Some(Compression::Brotli(b)) => b.buffer_size <= isize::MAX,
        _ => true,
    }
}

/// The bytes written for `data` through the compression's writer, or `data` itself without
/// compression.
pub open spec fn written_through(compression: Option<Compression>, data: Seq<u8>) -> Option<Seq<u8>> {
    match compression {
        Some(Compression::Brotli(b)) => brotli_written(data, b.buffer_size, b.quality, b.window_size),
        Some(Compression::Snap) => snap_written(data),
        None => Some(data),
    }
}

/// The bytes read from `data` through the compression's reader (Brotli's compressing reader,
/// or Snappy's frame decoder), or `data` itself without compression.
pub open spec fn read_through_spec(compression: Option<Compression>, data: Seq<u8>) -> Option<Seq<u8>> {
    match compression {
        Some(Compression::Brotli(b)) => brotli_read(data, b.buffer_size, b.quality, b.window_size),
        Some(Compression::Snap) => snap_read(data),
        None => Some(data),
    }
}

/// Writes `data` through the compression's writer, if there is a compression.
pub fn write_through(compression: Option<Compression>, data: &[u8]) -> (r: Option<Vec<u8>>)
    requires
        buffer_fits(compression),
    ensures
        bytes_of(r) == written_through(compression, data@),
{
    match compression {
        Some(Compression::Brotli(b)) => brotli_write_all(data, b.buffer_size, b.quality, b.window_size),
        Some(Compression::Snap) => snap_write_all(data),
        None => Some(vstd::slice::slice_to_vec(data)),
    }
}

/// Reads `data` through the compression's reader, if there is a compression. Without
/// compression, and with Snappy's, reading what was written for some bytes gives those bytes
/// back.
pub fn read_through(compression: Option<Compression>, data: &[u8]) -> (r: Option<Vec<u8>>)
    requires
        buffer_fits(compression),
    ensures
        bytes_of(r) == read_through_spec(compression, data@),
        !(compression matches Some(Compression::Brotli(_))) ==> forall|x: Seq<u8>|
            #[trigger] written_through(compression, x) == Some(data@) ==> bytes_of(r) == Some(x),
{
    match compression {
        Some(Compression::Brotli(b)) => brotli_read_to_end(data, b.buffer_size, b.quality, b.window_size),
        Some(Compression::Snap) => snap_read_to_end(data),
        None => Some(vstd::slice::slice_to_vec(data)),
    }
}

} // verus!
