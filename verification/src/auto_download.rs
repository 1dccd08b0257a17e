//! The choice between a download by many workers and a download in one
//! stream.

use crate::progress::ProgressEntry;
use vstd::prelude::*;

verus! {

/// How to download. Times are in milliseconds.
#[derive(Debug, Clone, Copy, PartialEq, Eq, Structural)]
pub struct DownloadOptions {
    /// The number of workers; `None` asks for a single stream.
    pub concurrent: Option<usize>,
    /// How long to wait before a failed request is tried again.
    pub retry_gap: u64,
    pub file_size: u64,
    /// How many buffers may wait to be written.
    pub write_channel_size: usize,
}

/// What is started.
#[derive(Debug, PartialEq, Eq)]
pub enum DownloadPlan {
    /// Many workers fetch `download_chunks` and write them anywhere in the
    /// file.
    Multi {
        threads: usize,
        download_chunks: Vec<ProgressEntry>,
        retry_gap: u64,
        write_channel_size: usize,
    },
    /// One worker fetches the whole file and appends to it.
    Single { retry_gap: u64, write_channel_size: usize },
}

/// With a number of workers, and at least one, the download is one by
/// many workers.
pub open spec fn is_multi(options: DownloadOptions) -> bool {
    options.concurrent is Some && options.concurrent->Some_0 >= 1
}

/// What is started for `options`: a download by many workers where a
/// number of workers is given, else a download in one stream, for which
/// the chunks do not count.
pub fn download(download_chunks: Vec<ProgressEntry>, options: DownloadOptions) -> (plan:
    DownloadPlan)
    ensures
        is_multi(options) ==> plan == (DownloadPlan::Multi {
            threads: options.concurrent->Some_0,
            download_chunks,
            retry_gap: options.retry_gap,
            write_channel_size: options.write_channel_size,
        }),
        !is_multi(options) ==> plan == (DownloadPlan::Single {
            retry_gap: options.retry_gap,
            write_channel_size: options.write_channel_size,
        }),
{
    match options.concurrent {
        Some(threads) => {
            if threads >= 1 {
                DownloadPlan::Multi {
                    threads,
                    download_chunks,
                    retry_gap: options.retry_gap,
                    write_channel_size: options.write_channel_size,
                }
            } else {
                DownloadPlan::Single {
                    retry_gap: options.retry_gap,
                    write_channel_size: options.write_channel_size,
                }
            }
        },
        None => DownloadPlan::Single {
            retry_gap: options.retry_gap,
            write_channel_size: options.write_channel_size,
        },
    }
}

} // verus!
