//! A task file: a list of downloads, with settings for each and settings
//! for all.

use crate::args::{clone_opt, DownloadArgs};
use crate::headers::{header_texts, sendable_headers, valid_headers, Header};
use crate::outside::{path_is_absolute, path_join};
use vstd::prelude::*;

verus! {

/// The task file.
#[derive(Debug, Clone)]
pub struct TaskConfig {
    /// Settings for all tasks that do not set them themselves.
    pub global: Option<TaskSettings>,
    pub tasks: Vec<TaskEntry>,
}

/// One download of the task file. Times are in milliseconds.
#[derive(Debug, Clone, Default)]
pub struct TaskEntry {
    pub url: String,
    pub force: Option<bool>,
    pub resume: Option<bool>,
    pub save_folder: Option<String>,
    pub threads: Option<usize>,
    pub file_name: Option<String>,
    pub proxy: Option<String>,
    pub headers: Option<Vec<Header>>,
    pub write_buffer_size: Option<usize>,
    pub write_queue_cap: Option<usize>,
    pub retry_gap: Option<u64>,
    pub browser: Option<bool>,
    pub yes: Option<bool>,
    pub no: Option<bool>,
    pub verbose: Option<bool>,
    pub multiplexing: Option<bool>,
    pub accept_invalid_certs: Option<bool>,
    pub accept_invalid_hostnames: Option<bool>,
}

/// Settings for all tasks.
#[derive(Debug, Clone, Default)]
pub struct TaskSettings {
    pub force: Option<bool>,
    pub resume: Option<bool>,
    pub save_folder: Option<String>,
    pub threads: Option<usize>,
    pub proxy: Option<String>,
    pub headers: Option<Vec<Header>>,
    pub write_buffer_size: Option<usize>,
    pub write_queue_cap: Option<usize>,
    pub retry_gap: Option<u64>,
    pub browser: Option<bool>,
    pub yes: Option<bool>,
    pub no: Option<bool>,
    pub verbose: Option<bool>,
    pub multiplexing: Option<bool>,
    pub accept_invalid_certs: Option<bool>,
    pub accept_invalid_hostnames: Option<bool>,
    /// How many tasks run at a time.
    pub parallel_tasks: Option<usize>,
}

/// A setting of a task: its own, else the one for all, else the default.
pub open spec fn inherit<T>(own: Option<T>, global: Option<T>, default: T) -> T {
    match own {
        Some(v) => v,
        None => match global {
            Some(v) => v,
            None => default,
        },
    }
}

/// An optional setting of a task: its own, else the one for all.
pub open spec fn inherit_opt<T>(own: Option<T>, global: Option<T>) -> Option<T> {
    match own {
        Some(v) => Some(v),
        None => global,
    }
}

/// The headers of an optional list; none where there is no list.
pub open spec fn listed(headers: Option<Vec<Header>>) -> Seq<(Seq<char>, Seq<char>)> {
    match headers {
        Some(h) => header_texts(h@),
        None => Seq::empty(),
    }
}

impl TaskSettings {
    /// Settings that set nothing.
    pub open spec fn unset() -> TaskSettings {
        TaskSettings {
            force: None,
            resume: None,
            save_folder: None,
            threads: None,
            proxy: None,
            headers: None,
            write_buffer_size: None,
            write_queue_cap: None,
            retry_gap: None,
            browser: None,
            yes: None,
            no: None,
            verbose: None,
            multiplexing: None,
            accept_invalid_certs: None,
            accept_invalid_hostnames: None,
            parallel_tasks: None,
        }
    }
}

/// A switch of a task.
fn inherit_bool(own: Option<bool>, global: Option<bool>, default: bool) -> (r: bool)
    ensures
        r == inherit(own, global, default),
{
    match own {
        Some(v) => v,
        None => match global {
            Some(v) => v,
            None => default,
        },
    }
}

/// A size of a task.
fn inherit_usize(own: Option<usize>, global: Option<usize>, default: usize) -> (r: usize)
    ensures
        r == inherit(own, global, default),
{
    match own {
        Some(v) => v,
        None => match global {
            Some(v) => v,
            None => default,
        },
    }
}

/// A time of a task.
fn inherit_u64(own: Option<u64>, global: Option<u64>, default: u64) -> (r: u64)
    ensures
        r == inherit(own, global, default),
{
    match own {
        Some(v) => v,
        None => match global {
            Some(v) => v,
            None => default,
        },
    }
}

impl TaskConfig {
    /// The settings for all tasks; settings that set nothing where the file
    /// has none.
    pub open spec fn shared(&self) -> TaskSettings {
        match self.global {
            Some(g) => g,
            None => TaskSettings::unset(),
        }
    }

    /// The folder that the file names for a task: the task's own, else the
    /// one for all tasks.
    pub open spec fn named_folder(&self, entry: &TaskEntry) -> Option<String> {
        inherit_opt(entry.save_folder, self.shared().save_folder)
    }

    /// `args` are the settings for the task `entry`, but for the folder.
    pub open spec fn settles(&self, entry: &TaskEntry, args: DownloadArgs) -> bool {
        let g = self.shared();
        &&& args.url == entry.url
        &&& args.force == inherit(entry.force, g.force, false)
        &&& args.resume == inherit(entry.resume, g.resume, false)
        &&& args.threads == inherit(entry.threads, g.threads, 8)
        &&& args.file_name == entry.file_name
        &&& args.proxy == inherit_opt(entry.proxy, g.proxy)
        &&& header_texts(args.headers@) == sendable_headers(
            match entry.headers {
                Some(h) => header_texts(h@),
                None => listed(g.headers),
            },
        )
        &&& args.write_buffer_size == inherit(entry.write_buffer_size, g.write_buffer_size, 8388608)
        &&& args.write_queue_cap == inherit(entry.write_queue_cap, g.write_queue_cap, 10240)
        &&& args.repaint_gap == 500
        &&& args.progress_width == 0
        &&& args.retry_gap == inherit(entry.retry_gap, g.retry_gap, 1000)
        &&& args.pull_timeout == 5000
        &&& args.min_chunk_size == 1024
        &&& args.browser == inherit(entry.browser, g.browser, true)
        &&& args.yes == inherit(entry.yes, g.yes, false)
        &&& args.no == inherit(entry.no, g.no, false)
        &&& args.verbose == inherit(entry.verbose, g.verbose, false)
        &&& args.multiplexing == inherit(entry.multiplexing, g.multiplexing, false)
        &&& args.accept_invalid_certs == inherit(
            entry.accept_invalid_certs,
            g.accept_invalid_certs,
            false,
        )
        &&& args.accept_invalid_hostnames == inherit(
            entry.accept_invalid_hostnames,
            g.accept_invalid_hostnames,
            false,
        )
    }

    /// The folder that the file names for a task, if it names one.
    pub fn chosen_folder<'a>(&'a self, entry: &'a TaskEntry) -> (folder: Option<&'a String>)
        ensures
            match folder {
                Some(f) => self.named_folder(entry) == Some(*f),
                None => self.named_folder(entry) is None,
            },
    {
        match &entry.save_folder {
            Some(f) => Some(f),
            None => match &self.global {
                Some(g) => match &g.save_folder {
                    Some(f) => Some(f),
                    None => None,
                },
                None => None,
            },
        }
    }

    /// Where a task saves, given the folder named for it, whether that
    /// folder is an absolute path, and what it gives when joined to the
    /// base folder: the named folder if it is absolute, the joined one if
    /// it is not, the base folder if none is named.
    pub fn place_folder(folder: Option<&String>, absolute: bool, base_folder: &str, joined: &str)
        -> (place: String)
        ensures
            place@ == (match folder {
                Some(f) => if absolute {
                    f@
                } else {
                    joined@
                },
                None => base_folder@,
            }),
    {
        match folder {
            Some(f) => if absolute {
                f.clone()
            } else {
                joined.to_owned()
            },
            None => base_folder.to_owned(),
        }
    }

    /// Where the task `entry` saves: the folder named for it, taken
    /// relative to `base_folder` unless it is an absolute path; the base
    /// folder where none is named.
    pub fn get_save_folder(&self, entry: &TaskEntry, base_folder: &str) -> (place: String)
        ensures
            self.named_folder(entry) is None ==> place@ == base_folder@,
    {
        let folder = self.chosen_folder(entry);
        match folder {
            Some(f) => {
                let absolute = path_is_absolute(f.as_str());
                let joined = path_join(base_folder, f.as_str());
                Self::place_folder(folder, absolute, base_folder, joined.as_str())
            },
            None => Self::place_folder(folder, false, base_folder, base_folder),
        }
    }

    /// How many tasks run at a time: as the file says, else six.
    pub fn parallel_tasks(&self) -> (n: usize)
        ensures
            n == inherit(None, self.shared().parallel_tasks, 6),
    {
        match &self.global {
            Some(g) => match g.parallel_tasks {
                Some(n) => n,
                None => 6,
            },
            None => 6,
        }
    }

    /// The settings for the task `entry`, which saves to `save_folder`.
    pub fn task_args(&self, entry: &TaskEntry, save_folder: String) -> (args: DownloadArgs)
        ensures
            self.settles(entry, args),
            args.save_folder == save_folder,
    {
        match &self.global {
            Some(g) => {
                let listed = match &entry.headers {
                    Some(h) => valid_headers(h),
                    None => match &g.headers {
                        Some(h) => valid_headers(h),
                        None => Vec::new(),
                    },
                };
                assert(entry.headers is None && g.headers is None ==> header_texts(listed@)
                    =~= sendable_headers(Seq::empty()));
                DownloadArgs {
                    url: entry.url.clone(),
                    force: inherit_bool(entry.force, g.force, false),
                    resume: inherit_bool(entry.resume, g.resume, false),
                    save_folder,
                    threads: inherit_usize(entry.threads, g.threads, 8),
                    file_name: clone_opt(&entry.file_name),
                    proxy: match &entry.proxy {
                        Some(p) => Some(p.clone()),
                        None => clone_opt(&g.proxy),
                    },
                    headers: listed,
                    write_buffer_size: inherit_usize(
                        entry.write_buffer_size,
                        g.write_buffer_size,
                        8388608,
                    ),
                    write_queue_cap: inherit_usize(entry.write_queue_cap, g.write_queue_cap, 10240),
                    repaint_gap: 500,
                    progress_width: 0,
                    retry_gap: inherit_u64(entry.retry_gap, g.retry_gap, 1000),
                    pull_timeout: 5000,
                    min_chunk_size: 1024,
                    browser: inherit_bool(entry.browser, g.browser, true),
                    yes: inherit_bool(entry.yes, g.yes, false),
                    no: inherit_bool(entry.no, g.no, false),
                    verbose: inherit_bool(entry.verbose, g.verbose, false),
                    multiplexing: inherit_bool(entry.multiplexing, g.multiplexing, false),
                    accept_invalid_certs: inherit_bool(
                        entry.accept_invalid_certs,
                        g.accept_invalid_certs,
                        false,
                    ),
                    accept_invalid_hostnames: inherit_bool(
                        entry.accept_invalid_hostnames,
                        g.accept_invalid_hostnames,
                        false,
                    ),
                }
            },
            None => {
                let listed = match &entry.headers {
                    Some(h) => valid_headers(h),
                    None => Vec::new(),
                };
                assert(entry.headers is None ==> header_texts(listed@) =~= sendable_headers(
                    Seq::empty(),
                ));
                DownloadArgs {
                    url: entry.url.clone(),
                    force: inherit_bool(entry.force, None, false),
                    resume: inherit_bool(entry.resume, None, false),
                    save_folder,
                    threads: inherit_usize(entry.threads, None, 8),
                    file_name: clone_opt(&entry.file_name),
                    proxy: clone_opt(&entry.proxy),
                    headers: listed,
                    write_buffer_size: inherit_usize(entry.write_buffer_size, None, 8388608),
                    write_queue_cap: inherit_usize(entry.write_queue_cap, None, 10240),
                    repaint_gap: 500,
                    progress_width: 0,
                    retry_gap: inherit_u64(entry.retry_gap, None, 1000),
                    pull_timeout: 5000,
                    min_chunk_size: 1024,
                    browser: inherit_bool(entry.browser, None, true),
                    yes: inherit_bool(entry.yes, None, false),
                    no: inherit_bool(entry.no, None, false),
                    verbose: inherit_bool(entry.verbose, None, false),
                    multiplexing: inherit_bool(entry.multiplexing, None, false),
                    accept_invalid_certs: inherit_bool(entry.accept_invalid_certs, None, false),
                    accept_invalid_hostnames: inherit_bool(
                        entry.accept_invalid_hostnames,
                        None,
                        false,
                    ),
                }
            },
        }
    }

    /// The settings of all tasks of the file, in its order. A task's own
    /// settings go before those for all tasks, and those before the
    /// defaults. Headers that cannot be sent are left out. Relative folders
    /// are taken from `base_folder`.
    pub fn parse(&self, base_folder: &str) -> (all: Vec<DownloadArgs>)
        ensures
            all@.len() == self.tasks@.len(),
            forall|i: int|
                0 <= i < all@.len() ==> self.settles(&self.tasks@[i], #[trigger] all@[i]),
            forall|i: int|
                0 <= i < all@.len() && self.named_folder(&self.tasks@[i]) is None ==> (
                #[trigger] all@[i]).save_folder@ == base_folder@,
    {
        let n = self.tasks.len();
        let mut all: Vec<DownloadArgs> = Vec::new();
        let mut i: usize = 0;
        while i < n
            invariant
                n == self.tasks@.len(),
                0 <= i <= n,
                all@.len() == i,
                forall|j: int| 0 <= j < i ==> self.settles(&self.tasks@[j], #[trigger] all@[j]),
                forall|j: int|
                    0 <= j < i && self.named_folder(&self.tasks@[j]) is None ==> (
                    #[trigger] all@[j]).save_folder@ == base_folder@,
            decreases n - i,
        {
            let entry = &self.tasks[i];
            let folder = self.get_save_folder(entry, base_folder);
            let args = self.task_args(entry, folder);
            all.push(args);
            i += 1;
        }
        all
    }
}

} // verus!
