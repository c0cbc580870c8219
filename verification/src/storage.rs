//! How a download is written to disk.

use vstd::prelude::*;
use crate::units::{align_down, aligned_down, min_int, min_usize};

verus! {

/// What direct writes are aligned to.
pub const DIRECT_IO_ALIGNMENT: u64 = 4096;

/// How many bytes go through the pipe at a time.
pub const SPLICE_CHUNK_BYTES: usize = 65536;

/// Which ways of writing are wanted.
#[derive(Debug, Clone, Copy, PartialEq, Eq, Structural)]
pub struct StorageConfig {
    pub use_pwrite: bool,
    pub use_splice: bool,
    pub no_io_uring: bool,
    pub no_direct_io: bool,
}

impl StorageConfig {
    /// Every way is wanted.
    pub open spec fn standard() -> StorageConfig {
        StorageConfig { use_pwrite: true, use_splice: true, no_io_uring: false, no_direct_io: false }
    }
}

impl Default for StorageConfig {
    fn default() -> (r: StorageConfig)
        ensures
            r == StorageConfig::standard(),
    {
        StorageConfig { use_pwrite: true, use_splice: true, no_io_uring: false, no_direct_io: false }
    }
}

/// A way of writing a file.
#[derive(Debug, Clone, Copy, PartialEq, Eq, Structural)]
pub enum StorageBackendKind {
    Standard,
    LinuxTokio,
    LinuxPwrite,
    LinuxSplice,
    LinuxIoUring,
    MacosPwrite,
    MacosNoCache,
    WindowsPwrite,
    WindowsDirectIo,
    WindowsSequential,
}

impl StorageBackendKind {
    /// What offsets and lengths have to be a multiple of.
    pub fn direct_io_alignment(self) -> (r: Option<u64>)
        ensures
            r == if self == StorageBackendKind::LinuxIoUring || self == StorageBackendKind::WindowsDirectIo {
                Some(DIRECT_IO_ALIGNMENT)
            } else {
                None
            },
    {
        match self {
            StorageBackendKind::LinuxIoUring => Some(DIRECT_IO_ALIGNMENT),
            StorageBackendKind::WindowsDirectIo => Some(DIRECT_IO_ALIGNMENT),
            _ => None,
        }
    }
}

/// The ways to open a file on Linux, in the order in which they are tried:
/// `io_uring` and `splice` unless they are turned off, each followed by the
/// next where it fails; then `pwrite`, or plain writes where that is turned off.
pub open spec fn linux_order(config: StorageConfig) -> Seq<StorageBackendKind> {
    let a = if !config.no_io_uring {
        seq![StorageBackendKind::LinuxIoUring]
    } else {
        Seq::empty()
    };
    let b = if config.use_splice {
        seq![StorageBackendKind::LinuxSplice]
    } else {
        Seq::empty()
    };
    a + b + seq![if config.use_pwrite {
        StorageBackendKind::LinuxPwrite
    } else {
        StorageBackendKind::LinuxTokio
    }]
}

pub fn linux_backends(config: &StorageConfig) -> (r: Vec<StorageBackendKind>)
    ensures
        r@ == linux_order(*config),
        r@.len() > 0,
{
    let mut r: Vec<StorageBackendKind> = Vec::new();
    if !config.no_io_uring {
        r.push(StorageBackendKind::LinuxIoUring);
    }
    if config.use_splice {
        r.push(StorageBackendKind::LinuxSplice);
    }
    if config.use_pwrite {
        r.push(StorageBackendKind::LinuxPwrite);
    } else {
        r.push(StorageBackendKind::LinuxTokio);
    }
    assert(r@ =~= linux_order(*config));
    r
}

/// The way to write on Windows, given whether the file could be opened
/// without buffering.
pub fn windows_backend(config: &StorageConfig, opened_unbuffered: bool) -> (r: StorageBackendKind)
    ensures
        r == if !config.no_direct_io && opened_unbuffered {
            StorageBackendKind::WindowsDirectIo
        } else {
            StorageBackendKind::WindowsPwrite
        },
{
    if !config.no_direct_io && opened_unbuffered {
        StorageBackendKind::WindowsDirectIo
    } else {
        StorageBackendKind::WindowsPwrite
    }
}

/// Whether a write can go to the disk directly: its offset, its address in
/// memory and its length are aligned.
pub fn is_direct_write(offset: u64, address: u64, len: u64) -> (r: bool)
    ensures
        r == (offset as int % DIRECT_IO_ALIGNMENT as int == 0 && address as int % DIRECT_IO_ALIGNMENT as int == 0
            && len as int % DIRECT_IO_ALIGNMENT as int == 0),
{
    offset % DIRECT_IO_ALIGNMENT == 0 && address % DIRECT_IO_ALIGNMENT == 0 && len % DIRECT_IO_ALIGNMENT == 0
}

/// How a write is divided between plain and direct writes.
#[derive(Debug, Clone, Copy, PartialEq, Eq, Structural)]
pub enum WritePlan {
    /// All of it is written plainly.
    Plain,
    /// The first `prefix_len` bytes are written plainly, the next `middle_len`
    /// directly, at `middle_offset`, and the rest plainly.
    Direct { prefix_len: usize, middle_offset: u64, middle_len: usize },
}

/// The first multiple of the alignment from `n` on.
pub open spec fn aligned_up(n: int) -> int {
    if n % DIRECT_IO_ALIGNMENT as int == 0 {
        n
    } else {
        n + (DIRECT_IO_ALIGNMENT - n % DIRECT_IO_ALIGNMENT as int)
    }
}

/// Divides a write of `len` bytes at `offset`: the largest aligned middle part
/// is written directly.
pub fn plan_direct_write(offset: u64, len: usize) -> (plan: WritePlan)
    requires
        offset + len <= u64::MAX,
        aligned_up(offset as int) <= u64::MAX,
    ensures
        ({
            let first = aligned_up(offset as int);
            let last = aligned_down(offset + len, DIRECT_IO_ALIGNMENT as int);
            match plan {
                WritePlan::Plain => first >= last,
                WritePlan::Direct { prefix_len, middle_offset, middle_len } => {
                    &&& first < last
                    &&& middle_offset == first
                    &&& prefix_len == first - offset
                    &&& middle_len == last - first
                },
            }
        }),
{
    let alignment: u64 = DIRECT_IO_ALIGNMENT;
    let end: u64 = offset + len as u64;
    let aligned_start: u64 = if offset % alignment == 0 {
        offset
    } else {
        offset + (alignment - (offset % alignment))
    };
    let aligned_end: u64 = align_down(end, alignment);
    if aligned_start >= aligned_end {
        return WritePlan::Plain;
    }
    WritePlan::Direct {
        prefix_len: (aligned_start - offset) as usize,
        middle_offset: aligned_start,
        middle_len: (aligned_end - aligned_start) as usize,
    }
}

/// The three parts of a divided write are the write: they follow one another
/// without a gap, and the middle one is aligned.
pub proof fn law_write_parts_cover(offset: int, len: int, prefix_len: int, middle_offset: int, middle_len: int)
    requires
        0 <= offset,
        0 <= len,
        ({
            let first = aligned_up(offset);
            let last = aligned_down(offset + len, DIRECT_IO_ALIGNMENT as int);
            first < last && middle_offset == first && prefix_len == first - offset && middle_len == last - first
        }),
    ensures
        0 <= prefix_len,
        offset + prefix_len == middle_offset,
        prefix_len + middle_len <= len,
        middle_len > 0,
        middle_offset % (DIRECT_IO_ALIGNMENT as int) == 0,
        middle_len % (DIRECT_IO_ALIGNMENT as int) == 0,
        prefix_len < DIRECT_IO_ALIGNMENT,
        len - prefix_len - middle_len < DIRECT_IO_ALIGNMENT,
{
}

/// What to do next when a buffer is spliced into a file.
#[derive(Debug, Clone, Copy, PartialEq, Eq, Structural)]
pub enum SpliceStep {
    /// Pass the bytes `from..to` on.
    Pass { from: usize, to: usize },
    /// Write the bytes from `from` on plainly.
    WritePlainly { from: usize },
    /// Stop with an error.
    Fail,
    /// Everything that will be written has been written.
    Done,
}

/// What came of passing bytes on.
#[derive(Debug, Clone, Copy, PartialEq, Eq, Structural)]
pub enum SpliceOutcome {
    /// Nothing was passed on yet.
    Start,
    /// So many bytes arrived.
    Moved(usize),
    /// The system cannot do it.
    Unsupported,
    /// It failed.
    Failed,
}

/// The step that follows, with `written` of `len` bytes written before
/// `outcome`. The second result is what has been written by then.
pub fn splice_step(written: usize, len: usize, outcome: SpliceOutcome) -> (r: (SpliceStep, usize))
    requires
        written <= len,
        outcome matches SpliceOutcome::Moved(n) ==> n <= len - written,
    ensures
        ({
            let now = match outcome {
                SpliceOutcome::Moved(n) => written + n,
                _ => written as int,
            };
            &&& r.1 == now
            &&& r.0 == match outcome {
                SpliceOutcome::Unsupported => SpliceStep::WritePlainly { from: written },
                SpliceOutcome::Failed => SpliceStep::Fail,
                _ => if outcome == SpliceOutcome::Moved(0) || now >= len {
                    SpliceStep::Done
                } else {
                    SpliceStep::Pass {
                        from: now as usize,
                        to: (now + min_int(len - now, SPLICE_CHUNK_BYTES as int)) as usize,
                    }
                },
            }
        }),
{
    let now: usize = match outcome {
        SpliceOutcome::Moved(n) => {
            if n == 0 {
                return (SpliceStep::Done, written);
            }
            written + n
        },
        SpliceOutcome::Unsupported => {
            return (SpliceStep::WritePlainly { from: written }, written);
        },
        SpliceOutcome::Failed => {
            return (SpliceStep::Fail, written);
        },
        SpliceOutcome::Start => written,
    };
    if now >= len {
        (SpliceStep::Done, now)
    } else {
        (SpliceStep::Pass { from: now, to: now + min_usize(len - now, SPLICE_CHUNK_BYTES) }, now)
    }
}

} // verus!
