use fast_down::auto_download::{download, DownloadOptions, DownloadPlan};
use fast_down::progress::ProgressEntry;

fn chunks() -> Vec<ProgressEntry> {
    vec![ProgressEntry::new(0, 10), ProgressEntry::new(20, 30)]
}

#[test]
fn with_workers_the_download_is_by_many() {
    let options = DownloadOptions {
        concurrent: Some(4),
        retry_gap: 500,
        file_size: 30,
        write_channel_size: 16,
    };
    assert_eq!(
        download(chunks(), options),
        DownloadPlan::Multi {
            threads: 4,
            download_chunks: chunks(),
            retry_gap: 500,
            write_channel_size: 16
        }
    );
}

#[test]
fn without_workers_the_download_is_in_one_stream() {
    for concurrent in [None, Some(0)] {
        let options = DownloadOptions {
            concurrent,
            retry_gap: 500,
            file_size: 30,
            write_channel_size: 16,
        };
        assert_eq!(
            download(chunks(), options),
            DownloadPlan::Single { retry_gap: 500, write_channel_size: 16 }
        );
    }
}

#[test]
fn download_into_a_file_chooses_alike() {
    let options = fast_down::file_download::DownloadOptions {
        concurrent: Some(2),
        retry_gap: 7,
        write_buffer_size: 4096,
        write_channel_size: 3,
    };
    assert_eq!(
        fast_down::file_download::download(chunks(), 30, options),
        DownloadPlan::Multi {
            threads: 2,
            download_chunks: chunks(),
            retry_gap: 7,
            write_channel_size: 3
        }
    );
    let options = fast_down::file_download::DownloadOptions { concurrent: None, ..options };
    assert_eq!(
        fast_down::file_download::download(chunks(), 30, options),
        DownloadPlan::Single { retry_gap: 7, write_channel_size: 3 }
    );
}
