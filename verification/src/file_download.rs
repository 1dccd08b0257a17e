//! A download into a file on disk.

use crate::progress::ProgressEntry;
use vstd::prelude::*;

verus! {

/// How to download into a file. Times are in milliseconds.
#[derive(Debug, Clone, Copy, PartialEq, Eq, Structural)]
pub struct DownloadOptions {
    /// The number of workers; `None` asks for a single stream.
    pub concurrent: Option<usize>,
    /// How long to wait before a failed request is tried again.
    pub retry_gap: u64,
    /// How many bytes are gathered before they are written.
    pub write_buffer_size: usize,
    /// How many buffers may wait to be written.
    pub write_channel_size: usize,
}

/// What is started for a download of `file_size` bytes into a file, once
/// the file is open.
pub fn download(download_chunks: Vec<ProgressEntry>, file_size: u64, options: DownloadOptions) -> (
    plan: crate::auto_download::DownloadPlan)
    ensures
        options.concurrent is Some && options.concurrent->Some_0 >= 1 ==> plan == (
        crate::auto_download::DownloadPlan::Multi {
            threads: options.concurrent->Some_0,
            download_chunks,
            retry_gap: options.retry_gap,
            write_channel_size: options.write_channel_size,
        }),
        !(options.concurrent is Some && options.concurrent->Some_0 >= 1) ==> plan == (
        crate::auto_download::DownloadPlan::Single {
            retry_gap: options.retry_gap,
            write_channel_size: options.write_channel_size,
        }),
{
    crate::auto_download::download(
        download_chunks,
        crate::auto_download::DownloadOptions {
            file_size,
            concurrent: options.concurrent,
            retry_gap: options.retry_gap,
            write_channel_size: options.write_channel_size,
        },
    )
}

} // verus!
