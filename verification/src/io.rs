//! I/O backend selection and I/O configuration profiles.
//!
//! Linux prefers `io_uring` (kernel 5.1 and later, when the system calls
//! answer) and falls back to epoll; macOS uses kqueue, Windows IOCP, and
//! anything else POSIX poll.
use vstd::prelude::*;
use crate::platform::Os;
use crate::text::{parse_u32, parsed_u32, split_chars, split_on, trim, trim_chars, chars_of};

verus! {

/// Available I/O backends.
#[derive(Debug, Clone, Copy, PartialEq, Eq, Structural, Hash)]
pub enum IoBackend {
    /// Linux io_uring (kernel 5.1+).
    IoUring,
    /// Windows I/O Completion Ports.
    Iocp,
    /// BSD/macOS kqueue.
    Kqueue,
    /// Linux epoll (fallback).
    Epoll,
    /// POSIX poll (universal fallback).
    Poll,
}

/// The backend chosen for an OS, given whether `io_uring` is usable there.
pub open spec fn backend_for(os: Os, io_uring_usable: bool) -> IoBackend {
    match os {
        Os::Linux => if io_uring_usable { IoBackend::IoUring } else { IoBackend::Epoll },
        Os::Windows => IoBackend::Iocp,
        Os::MacOs => IoBackend::Kqueue,
        Os::Unknown => IoBackend::Poll,
    }
}

/// Human-readable backend name.
pub open spec fn backend_name(b: IoBackend) -> Seq<char> {
    match b {
        IoBackend::IoUring => "io_uring"@,
        IoBackend::Iocp => "IOCP"@,
        IoBackend::Kqueue => "kqueue"@,
        IoBackend::Epoll => "epoll"@,
        IoBackend::Poll => "poll"@,
    }
}

/// Optimal buffer size of a backend, in bytes.
pub open spec fn buffer_size_of(b: IoBackend) -> usize {
    match b {
        IoBackend::IoUring => 131072usize,
        IoBackend::Iocp => 65536usize,
        IoBackend::Kqueue => 65536usize,
        IoBackend::Epoll => 65536usize,
        IoBackend::Poll => 32768usize,
    }
}

/// Optimal submission queue depth of a backend.
pub open spec fn queue_depth_of(b: IoBackend) -> usize {
    match b {
        IoBackend::IoUring => 256,
        IoBackend::Iocp => 64,
        IoBackend::Kqueue => 64,
        IoBackend::Epoll => 32,
        IoBackend::Poll => 16,
    }
}

/// Operations in flight per CPU for a backend.
pub open spec fn ops_per_cpu(b: IoBackend) -> nat {
    match b {
        IoBackend::IoUring => 16,
        IoBackend::Iocp => 8,
        IoBackend::Kqueue => 8,
        IoBackend::Epoll => 8,
        IoBackend::Poll => 4,
    }
}

/// The (major, minor) version in a kernel release string such as
/// `5.15.0-91-generic`: the text is trimmed and split on `.`; the major
/// version is the first field, the minor version the second field up to
/// its first `-`.
pub open spec fn release_version(v: Seq<char>) -> Option<(u32, u32)> {
    let parts = split_on(trim(v), '.', '.');
    if parts.len() < 2 {
        None
    } else {
        match (parsed_u32(parts[0]), parsed_u32(split_on(parts[1], '-', '-')[0])) {
            (Some(major), Some(minor)) => Some((major, minor)),
            _ => None,
        }
    }
}

/// Whether a kernel version is at least 5.1, the first with `io_uring`.
pub open spec fn version_has_io_uring(major: u32, minor: u32) -> bool {
    major > 5 || (major == 5 && minor >= 1)
}

impl IoBackend {
    /// The best I/O backend for an OS. On Linux, `io_uring_usable` says
    /// whether the kernel is recent enough (see
    /// [`IoBackend::release_allows_io_uring`]) and the `io_uring` system
    /// calls answer; it is not consulted elsewhere.
    pub fn detect(os: &Os, io_uring_usable: bool) -> (r: Self)
        ensures
            r == backend_for(*os, io_uring_usable),
    {
        match os {
            Os::Linux => {
                if io_uring_usable {
                    IoBackend::IoUring
                } else {
                    IoBackend::Epoll
                }
            },
            Os::Windows => IoBackend::Iocp,
            Os::MacOs => IoBackend::Kqueue,
            Os::Unknown => IoBackend::Poll,
        }
    }

    /// Parse the (major, minor) version out of a kernel release string.
    pub fn parse_kernel_version(version: &str) -> (r: Option<(u32, u32)>)
        ensures
            r == release_version(version@),
    {
        let chars = chars_of(version);
        let trimmed = trim_chars(chars.as_slice());
        let parts = split_chars(trimmed.as_slice(), '.', '.');
        if parts.len() < 2 {
            return None;
        }
        let major = parse_u32(parts[0].as_slice());
        let minor_fields = split_chars(parts[1].as_slice(), '-', '-');
        proof {
            crate::text::lemma_split_on_nonempty(parts@[1]@, '-', '-');
            assert(parts@[0]@ == split_on(trim(version@), '.', '.')[0]);
            assert(parts@[1]@ == split_on(trim(version@), '.', '.')[1]);
        }
        let minor = parse_u32(minor_fields[0].as_slice());
        match (major, minor) {
            (Some(a), Some(b)) => Some((a, b)),
            _ => None,
        }
    }

    /// Whether a kernel release string names a kernel with `io_uring`
    /// (5.1 or later).
    pub fn release_allows_io_uring(release: &str) -> (r: bool)
        ensures
            r == (match release_version(release@) {
                Some((major, minor)) => version_has_io_uring(major, minor),
                None => false,
            }),
    {
        match Self::parse_kernel_version(release) {
            Some((major, minor)) => major > 5 || (major == 5 && minor >= 1),
            None => false,
        }
    }

    /// Get human-readable name.
    pub fn as_str(self) -> (r: &'static str)
        ensures
            r@ == backend_name(self),
    {
        match self {
            IoBackend::IoUring => "io_uring",
            IoBackend::Iocp => "IOCP",
            IoBackend::Kqueue => "kqueue",
            IoBackend::Epoll => "epoll",
            IoBackend::Poll => "poll",
        }
    }

    /// Check if this backend supports zero-copy I/O.
    pub fn supports_zero_copy(self) -> (r: bool)
        ensures
            r == (self == IoBackend::IoUring),
    {
        matches!(self, IoBackend::IoUring)
    }

    /// Check if this backend supports registered buffers.
    pub fn supports_registered_buffers(self) -> (r: bool)
        ensures
            r == (self == IoBackend::IoUring),
    {
        matches!(self, IoBackend::IoUring)
    }

    /// Check if this backend supports I/O polling.
    pub fn supports_polling(self) -> (r: bool)
        ensures
            r == (self != IoBackend::Poll),
    {
        matches!(self, IoBackend::IoUring | IoBackend::Iocp | IoBackend::Kqueue | IoBackend::Epoll)
    }

    /// Get optimal buffer size for this backend.
    pub fn optimal_buffer_size(self) -> (r: usize)
        ensures
            r == buffer_size_of(self),
    {
        match self {
            IoBackend::IoUring => 131072usize,
            IoBackend::Iocp => 65536usize,
            IoBackend::Kqueue => 65536usize,
            IoBackend::Epoll => 65536usize,
            IoBackend::Poll => 32768usize,
        }
    }

    /// Get optimal submission queue depth for this backend.
    pub fn optimal_queue_depth(self) -> (r: usize)
        ensures
            r == queue_depth_of(self),
    {
        match self {
            IoBackend::IoUring => 256,
            IoBackend::Iocp => 64,
            IoBackend::Kqueue => 64,
            IoBackend::Epoll => 32,
            IoBackend::Poll => 16,
        }
    }
}

/// File synchronization strategy.
#[derive(Debug, Clone, Copy, PartialEq, Eq, Structural, Hash)]
pub enum SyncStrategy {
    /// No explicit sync (rely on OS).
    NoSync,
    /// Sync on close.
    OnClose,
    /// Sync after each write.
    Immediate,
    /// Sync periodically.
    Periodic {
        /// Bytes written between syncs.
        bytes_threshold: usize,
    },
    /// Sync on transaction boundaries.
    Transactional,
}

/// Default synchronization strategy of a backend.
pub open spec fn sync_default_of(b: IoBackend) -> SyncStrategy {
    if b == IoBackend::IoUring {
        SyncStrategy::Transactional
    } else {
        SyncStrategy::OnClose
    }
}

impl SyncStrategy {
    /// Get default strategy for a backend.
    pub fn default_for_backend(backend: IoBackend) -> (r: Self)
        ensures
            r == sync_default_of(backend),
    {
        match backend {
            IoBackend::IoUring => SyncStrategy::Transactional,
            IoBackend::Iocp | IoBackend::Kqueue | IoBackend::Epoll => SyncStrategy::OnClose,
            IoBackend::Poll => SyncStrategy::OnClose,
        }
    }
}

/// I/O configuration.
#[derive(Debug, Clone, Copy, PartialEq, Eq)]
pub struct IoConfig {
    /// Selected I/O backend.
    pub backend: IoBackend,
    /// Read buffer size.
    pub read_buffer_size: usize,
    /// Write buffer size.
    pub write_buffer_size: usize,
    /// Maximum concurrent I/O operations.
    pub max_concurrent_ops: usize,
    /// Queue depth for async I/O.
    pub queue_depth: usize,
    /// Whether to use direct I/O (bypass page cache).
    pub direct_io: bool,
    /// Whether to use memory-mapped I/O for large files.
    pub use_mmap: bool,
    /// Threshold for memory-mapped I/O (bytes).
    pub mmap_threshold: usize,
    /// Whether to pre-allocate files.
    pub preallocate: bool,
    /// File system sync strategy.
    pub sync_strategy: SyncStrategy,
}

/// The smaller of two integers.
pub open spec fn min_of(a: int, b: int) -> int {
    if a < b { a } else { b }
}

/// The configuration for a backend on a machine with `cpus` CPUs.
pub open spec fn config_for(b: IoBackend, cpus: nat) -> IoConfig {
    IoConfig {
        backend: b,
        read_buffer_size: buffer_size_of(b),
        write_buffer_size: buffer_size_of(b),
        max_concurrent_ops: min_of((cpus * ops_per_cpu(b)) as int, 256) as usize,
        queue_depth: queue_depth_of(b),
        direct_io: false,
        use_mmap: true,
        mmap_threshold: 104857600usize,
        preallocate: b == IoBackend::IoUring,
        sync_strategy: sync_default_of(b),
    }
}

/// The throughput profile derived from a configuration: doubled buffers,
/// concurrency and queue depth (concurrency capped at 512), preallocation.
pub open spec fn throughput_profile(c: IoConfig) -> IoConfig {
    IoConfig {
        read_buffer_size: (c.read_buffer_size * 2) as usize,
        write_buffer_size: (c.write_buffer_size * 2) as usize,
        max_concurrent_ops: min_of(c.max_concurrent_ops * 2, 512) as usize,
        queue_depth: (c.queue_depth * 2) as usize,
        preallocate: true,
        ..c
    }
}

/// The latency profile derived from a configuration: 16 KiB buffers,
/// concurrency capped at 64, queue depth capped at 32, immediate sync.
pub open spec fn latency_profile(c: IoConfig) -> IoConfig {
    IoConfig {
        read_buffer_size: 16384usize,
        write_buffer_size: 16384usize,
        max_concurrent_ops: min_of(c.max_concurrent_ops as int, 64) as usize,
        queue_depth: min_of(c.queue_depth as int, 32) as usize,
        sync_strategy: SyncStrategy::Immediate,
        ..c
    }
}

impl IoConfig {
    /// Configuration for a specific backend on a machine with `cpu_count`
    /// CPUs.
    pub fn for_backend(backend: IoBackend, cpu_count: usize) -> (r: Self)
        requires
            cpu_count * 16 <= usize::MAX,
        ensures
            r == config_for(backend, cpu_count as nat),
    {
        let max_concurrent: usize = match backend {
            IoBackend::IoUring => cpu_count * 16,
            IoBackend::Iocp => cpu_count * 8,
            IoBackend::Kqueue | IoBackend::Epoll => cpu_count * 8,
            IoBackend::Poll => cpu_count * 4,
        };
        IoConfig {
            backend,
            read_buffer_size: backend.optimal_buffer_size(),
            write_buffer_size: backend.optimal_buffer_size(),
            max_concurrent_ops: if max_concurrent < 256 { max_concurrent } else { 256 },
            queue_depth: backend.optimal_queue_depth(),
            direct_io: false,
            use_mmap: true,
            mmap_threshold: 104857600usize,
            preallocate: backend == IoBackend::IoUring,
            sync_strategy: SyncStrategy::default_for_backend(backend),
        }
    }

    /// Optimal configuration for a platform: the backend that
    /// [`IoBackend::detect`] picks, configured for `cpu_count` CPUs.
    pub fn optimal(os: &Os, io_uring_usable: bool, cpu_count: usize) -> (r: Self)
        requires
            cpu_count * 16 <= usize::MAX,
        ensures
            r == config_for(backend_for(*os, io_uring_usable), cpu_count as nat),
    {
        let backend = IoBackend::detect(os, io_uring_usable);
        Self::for_backend(backend, cpu_count)
    }

    /// Configuration optimized for throughput.
    pub fn high_throughput(os: &Os, io_uring_usable: bool, cpu_count: usize) -> (r: Self)
        requires
            cpu_count * 16 <= usize::MAX,
        ensures
            r == throughput_profile(config_for(backend_for(*os, io_uring_usable), cpu_count as nat)),
    {
        let mut config = Self::optimal(os, io_uring_usable, cpu_count);
        config.read_buffer_size = config.read_buffer_size * 2;
        config.write_buffer_size = config.write_buffer_size * 2;
        let doubled: usize = config.max_concurrent_ops * 2;
        config.max_concurrent_ops = if doubled < 512 { doubled } else { 512 };
        config.queue_depth = config.queue_depth * 2;
        config.preallocate = true;
        config
    }

    /// Configuration optimized for low latency.
    pub fn low_latency(os: &Os, io_uring_usable: bool, cpu_count: usize) -> (r: Self)
        requires
            cpu_count * 16 <= usize::MAX,
        ensures
            r == latency_profile(config_for(backend_for(*os, io_uring_usable), cpu_count as nat)),
    {
        let mut config = Self::optimal(os, io_uring_usable, cpu_count);
        config.read_buffer_size = 16384usize;
        config.write_buffer_size = 16384usize;
        config.max_concurrent_ops = if config.max_concurrent_ops < 64 {
            config.max_concurrent_ops
        } else {
            64
        };
        config.queue_depth = if config.queue_depth < 32 { config.queue_depth } else { 32 };
        config.sync_strategy = SyncStrategy::Immediate;
        config
    }

    /// Builder-style method to set read buffer size.
    pub fn with_read_buffer_size(self, size: usize) -> (r: Self)
        ensures
            r == (IoConfig { read_buffer_size: size, ..self }),
    {
        let mut c = self;
        c.read_buffer_size = size;
        c
    }

    /// Builder-style method to set write buffer size.
    pub fn with_write_buffer_size(self, size: usize) -> (r: Self)
        ensures
            r == (IoConfig { write_buffer_size: size, ..self }),
    {
        let mut c = self;
        c.write_buffer_size = size;
        c
    }

    /// Builder-style method to set max concurrent ops.
    pub fn with_max_concurrent_ops(self, count: usize) -> (r: Self)
        ensures
            r == (IoConfig { max_concurrent_ops: count, ..self }),
    {
        let mut c = self;
        c.max_concurrent_ops = count;
        c
    }

    /// Builder-style method to enable/disable direct I/O.
    pub fn with_direct_io(self, enabled: bool) -> (r: Self)
        ensures
            r == (IoConfig { direct_io: enabled, ..self }),
    {
        let mut c = self;
        c.direct_io = enabled;
        c
    }

    /// Builder-style method to enable/disable mmap.
    pub fn with_mmap(self, enabled: bool, threshold: usize) -> (r: Self)
        ensures
            r == (IoConfig { use_mmap: enabled, mmap_threshold: threshold, ..self }),
    {
        let mut c = self;
        c.use_mmap = enabled;
        c.mmap_threshold = threshold;
        c
    }
}

/// The profiles keep their promises: every configuration reads with at
/// least 16 KiB buffers and, with at least one CPU, allows at least four
/// concurrent operations; the throughput profile never lowers the buffers
/// or the concurrency of the standard configuration, and the latency
/// profile never raises its buffers.
pub proof fn lemma_profiles_ordered(b: IoBackend, cpus: nat)
    ensures
        config_for(b, cpus).read_buffer_size >= 16384usize,
        cpus >= 1 ==> config_for(b, cpus).max_concurrent_ops >= 4,
        throughput_profile(config_for(b, cpus)).read_buffer_size >= config_for(b, cpus).read_buffer_size,
        throughput_profile(config_for(b, cpus)).write_buffer_size >= config_for(b, cpus).write_buffer_size,
        throughput_profile(config_for(b, cpus)).max_concurrent_ops >= config_for(b, cpus).max_concurrent_ops,
        throughput_profile(config_for(b, cpus)).queue_depth >= config_for(b, cpus).queue_depth,
        latency_profile(config_for(b, cpus)).read_buffer_size <= config_for(b, cpus).read_buffer_size,
        latency_profile(config_for(b, cpus)).max_concurrent_ops <= config_for(b, cpus).max_concurrent_ops,
{
}

/// The throughput configuration for a machine is its standard one with
/// doubled buffers and queue depth, concurrency doubled up to 512, and
/// preallocation; everything else is kept. Since the standard concurrency
/// is at most 256, doubling never meets the cap from below.
pub proof fn lemma_throughput_of_standard(b: IoBackend, cpus: nat)
    ensures
        throughput_profile(config_for(b, cpus)).read_buffer_size == 2 * config_for(b, cpus).read_buffer_size,
        throughput_profile(config_for(b, cpus)).write_buffer_size == 2 * config_for(b, cpus).write_buffer_size,
        throughput_profile(config_for(b, cpus)).max_concurrent_ops == min_of(
            2 * config_for(b, cpus).max_concurrent_ops,
            512,
        ),
        throughput_profile(config_for(b, cpus)).max_concurrent_ops == 2 * config_for(b, cpus).max_concurrent_ops,
        throughput_profile(config_for(b, cpus)).queue_depth == 2 * config_for(b, cpus).queue_depth,
        throughput_profile(config_for(b, cpus)).preallocate,
        throughput_profile(config_for(b, cpus)).backend == config_for(b, cpus).backend,
        throughput_profile(config_for(b, cpus)).direct_io == config_for(b, cpus).direct_io,
        throughput_profile(config_for(b, cpus)).use_mmap == config_for(b, cpus).use_mmap,
        throughput_profile(config_for(b, cpus)).mmap_threshold == config_for(b, cpus).mmap_threshold,
        throughput_profile(config_for(b, cpus)).sync_strategy == config_for(b, cpus).sync_strategy,
{
}

/// The `io_uring` backend is the one with the largest buffers and the
/// deepest queue.
pub proof fn lemma_io_uring_largest(b: IoBackend)
    ensures
        buffer_size_of(IoBackend::IoUring) >= buffer_size_of(b),
        queue_depth_of(IoBackend::IoUring) >= queue_depth_of(b),
{
}

/// `io_uring` submission and completion queue configuration.
#[derive(Debug, Clone, Copy, PartialEq, Eq)]
pub struct IoUringConfig {
    /// Submission queue entries.
    pub sq_entries: u32,
    /// Completion queue entries (usually 2x sq_entries).
    pub cq_entries: u32,
    /// Use SQPOLL for kernel-side submission.
    pub sqpoll: bool,
    /// SQPOLL idle time before sleeping (ms).
    pub sqpoll_idle_ms: u32,
    /// Use IOPOLL for busy-waiting completions.
    pub iopoll: bool,
    /// Number of registered buffers.
    pub registered_buffers: usize,
    /// Size of each registered buffer.
    pub buffer_size: usize,
}

impl Default for IoUringConfig {
    fn default() -> (r: Self)
        ensures
            r == (IoUringConfig {
                sq_entries: 256,
                cq_entries: 512,
                sqpoll: false,
                sqpoll_idle_ms: 1000,
                iopoll: false,
                registered_buffers: 32,
                buffer_size: 65536usize,
            }),
    {
        IoUringConfig {
            sq_entries: 256,
            cq_entries: 512,
            sqpoll: false,
            sqpoll_idle_ms: 1000,
            iopoll: false,
            registered_buffers: 32,
            buffer_size: 65536usize,
        }
    }
}

impl IoUringConfig {
    /// Configuration optimized for high throughput.
    pub fn high_throughput() -> (r: Self)
        ensures
            r == (IoUringConfig {
                sq_entries: 512,
                cq_entries: 1024,
                sqpoll: false,
                sqpoll_idle_ms: 1000,
                iopoll: false,
                registered_buffers: 64,
                buffer_size: 131072usize,
            }),
    {
        IoUringConfig {
            sq_entries: 512,
            cq_entries: 1024,
            sqpoll: false,
            sqpoll_idle_ms: 1000,
            iopoll: false,
            registered_buffers: 64,
            buffer_size: 131072usize,
        }
    }

    /// Configuration optimized for low latency.
    pub fn low_latency() -> (r: Self)
        ensures
            r == (IoUringConfig {
                sq_entries: 64,
                cq_entries: 128,
                sqpoll: false,
                sqpoll_idle_ms: 100,
                iopoll: false,
                registered_buffers: 16,
                buffer_size: 32768usize,
            }),
    {
        IoUringConfig {
            sq_entries: 64,
            cq_entries: 128,
            sqpoll: false,
            sqpoll_idle_ms: 100,
            iopoll: false,
            registered_buffers: 16,
            buffer_size: 32768usize,
        }
    }
}

} // verus!
