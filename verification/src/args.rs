//! The settings of one download, and how they are put together from the
//! built-in defaults, the configuration and the command line.

use crate::headers::{
    header_line, header_texts, parse_header_line, sendable, set_header, with_header, Header,
};
use crate::outside::{header_name_ok, header_value_ok};
use vstd::prelude::*;

verus! {

/// What was asked for on the command line.
#[derive(Debug, PartialEq, Eq)]
pub enum Args {
    Download(DownloadArgs),
    Task(TaskArgs),
    Update,
    Clean,
    List,
    TaskExample,
}

/// The options of the `task` command as given.
#[derive(Debug, Clone)]
pub struct TaskCli {
    /// Path of the task file.
    pub file: String,
}

/// The settings of the `task` command.
#[derive(Debug, Clone, PartialEq, Eq)]
pub struct TaskArgs {
    pub file: String,
}

/// The settings of one download. Times are in milliseconds.
#[derive(Debug, Clone, PartialEq, Eq)]
pub struct DownloadArgs {
    pub url: String,
    pub force: bool,
    pub resume: bool,
    pub save_folder: String,
    pub threads: usize,
    pub file_name: Option<String>,
    pub proxy: Option<String>,
    pub headers: Vec<Header>,
    pub write_buffer_size: usize,
    pub write_queue_cap: usize,
    pub repaint_gap: u64,
    pub progress_width: u16,
    pub retry_gap: u64,
    /// How long a read may bring nothing before it is given up.
    pub pull_timeout: u64,
    /// The least size of a chunk, in bytes.
    pub min_chunk_size: u64,
    pub browser: bool,
    pub yes: bool,
    pub no: bool,
    pub verbose: bool,
    pub multiplexing: bool,
    pub accept_invalid_certs: bool,
    pub accept_invalid_hostnames: bool,
}

/// The options of the `download` command as given. A switch comes as a
/// pair: one flag to turn it on, one to turn it off.
#[derive(Debug, Clone, Default)]
pub struct DownloadCli {
    pub url: String,
    pub force: bool,
    pub no_force: bool,
    pub resume: bool,
    pub no_resume: bool,
    pub save_folder: Option<String>,
    pub threads: Option<usize>,
    pub file_name: Option<String>,
    pub proxy: Option<String>,
    pub headers: Vec<String>,
    pub write_buffer_size: Option<usize>,
    pub write_queue_cap: Option<usize>,
    pub progress_width: Option<u16>,
    pub retry_gap: Option<u64>,
    pub repaint_gap: Option<u64>,
    pub pull_timeout: Option<u64>,
    pub min_chunk_size: Option<u64>,
    pub browser: bool,
    pub no_browser: bool,
    pub yes: bool,
    pub no_yes: bool,
    pub no: bool,
    pub no_no: bool,
    pub verbose: bool,
    pub no_verbose: bool,
    pub multiplexing: bool,
    pub no_multiplexing: bool,
    pub accept_invalid_certs: bool,
    pub no_accept_invalid_certs: bool,
    pub accept_invalid_hostnames: bool,
    pub no_accept_invalid_hostnames: bool,
}

/// The commands.
#[derive(Debug)]
pub enum Commands {
    Download(DownloadCli),
    Clean,
    Update,
    List,
    TaskExample,
    Task(TaskCli),
}

/// What configuration files and the environment set. Numbers come as
/// signed 64-bit integers and have to fit the setting they are for.
#[derive(Debug, Clone, Default)]
pub struct ConfigValues {
    pub force: Option<bool>,
    pub resume: Option<bool>,
    pub save_folder: Option<String>,
    pub threads: Option<i64>,
    pub proxy: Option<String>,
    pub write_buffer_size: Option<i64>,
    pub write_queue_cap: Option<i64>,
    pub progress_width: Option<i64>,
    pub retry_gap: Option<i64>,
    pub repaint_gap: Option<i64>,
    pub pull_timeout: Option<i64>,
    pub min_chunk_size: Option<i64>,
    pub browser: Option<bool>,
    pub yes: Option<bool>,
    pub no: Option<bool>,
    pub verbose: Option<bool>,
    pub multiplexing: Option<bool>,
    pub accept_invalid_hostnames: Option<bool>,
    pub accept_invalid_certs: Option<bool>,
    pub headers: Vec<Header>,
}

/// Why settings were refused.
#[derive(Clone, Copy, Debug, PartialEq, Eq, Structural)]
pub enum ArgsError {
    /// A number in the configuration does not fit its setting.
    OutOfRange,
    /// A header on the command line has an invalid name.
    InvalidHeaderName,
    /// A header on the command line has an invalid value.
    InvalidHeaderValue,
}

/// A setting after a pair of flags: on, else off, else as it was.
pub open spec fn switched(current: bool, on: bool, off: bool) -> bool {
    if on {
        true
    } else if off {
        false
    } else {
        current
    }
}

/// A setting after an optional new value.
pub open spec fn replaced<T>(current: T, given: Option<T>) -> T {
    match given {
        Some(v) => v,
        None => current,
    }
}

/// The text of a setting after an optional new text.
pub open spec fn replaced_text(current: Seq<char>, given: Option<String>) -> Seq<char> {
    match given {
        Some(v) => v@,
        None => current,
    }
}

/// How wide the progress bar is by default: the terminal's width less 36
/// columns; 50 where the width is unknown or below 36.
pub open spec fn default_width(terminal_columns: Option<u16>) -> u16 {
    match terminal_columns {
        Some(columns) => if columns >= 36 {
            (columns - 36) as u16
        } else {
            50
        },
        None => 50,
    }
}

/// The headers after the headers of the configuration are set one after
/// another; those that cannot be sent are passed over.
pub open spec fn with_config_headers(
    h: Seq<(Seq<char>, Seq<char>)>,
    given: Seq<(Seq<char>, Seq<char>)>,
) -> Seq<(Seq<char>, Seq<char>)>
    decreases given.len(),
{
    if given.len() == 0 {
        h
    } else {
        let before = with_config_headers(h, given.drop_last());
        if sendable(given.last()) {
            with_header(before, given.last().0, given.last().1)
        } else {
            before
        }
    }
}

/// The headers after the header lines of the command line are set one
/// after another. A line without a colon is passed over; a line with an
/// invalid name or value is an error, and the first such line decides
/// which.
pub open spec fn with_cli_headers(h: Seq<(Seq<char>, Seq<char>)>, lines: Seq<Seq<char>>) -> Result<
    Seq<(Seq<char>, Seq<char>)>,
    ArgsError,
>
    decreases lines.len(),
{
    if lines.len() == 0 {
        Ok(h)
    } else {
        match with_cli_headers(h, lines.drop_last()) {
            Err(e) => Err(e),
            Ok(before) => match header_line(lines.last()) {
                None => Ok(before),
                Some((name, value)) => if !crate::outside::valid_header_name(name) {
                    Err(ArgsError::InvalidHeaderName)
                } else if !crate::outside::valid_header_value(value) {
                    Err(ArgsError::InvalidHeaderValue)
                } else {
                    Ok(with_header(before, name, value))
                },
            },
        }
    }
}

/// The texts of a list of strings.
pub open spec fn texts(v: Seq<String>) -> Seq<Seq<char>> {
    Seq::new(v.len(), |i: int| v[i]@)
}

/// A number of the configuration as a size, if it fits.
pub fn to_usize(value: i64) -> (r: Result<usize, ArgsError>)
    ensures
        0 <= value <= usize::MAX ==> r == Ok::<usize, ArgsError>(value as usize),
        !(0 <= value <= usize::MAX) ==> r == Err::<usize, ArgsError>(ArgsError::OutOfRange),
{
    if value < 0 {
        Err(ArgsError::OutOfRange)
    } else if value as u64 > usize::MAX as u64 {
        Err(ArgsError::OutOfRange)
    } else {
        Ok(value as usize)
    }
}

/// A number of the configuration as a count of milliseconds, if it fits.
pub fn to_u64(value: i64) -> (r: Result<u64, ArgsError>)
    ensures
        0 <= value ==> r == Ok::<u64, ArgsError>(value as u64),
        value < 0 ==> r == Err::<u64, ArgsError>(ArgsError::OutOfRange),
{
    if value < 0 {
        Err(ArgsError::OutOfRange)
    } else {
        Ok(value as u64)
    }
}

/// A number of the configuration as a width in columns, if it fits.
pub fn to_u16(value: i64) -> (r: Result<u16, ArgsError>)
    ensures
        0 <= value <= u16::MAX ==> r == Ok::<u16, ArgsError>(value as u16),
        !(0 <= value <= u16::MAX) ==> r == Err::<u16, ArgsError>(ArgsError::OutOfRange),
{
    if value < 0 || value > 65535 {
        Err(ArgsError::OutOfRange)
    } else {
        Ok(value as u16)
    }
}

/// A copy of an optional string.
pub(crate) fn clone_opt(o: &Option<String>) -> (c: Option<String>)
    ensures
        c == *o,
{
    match o {
        Some(s) => Some(s.clone()),
        None => None,
    }
}

/// A copy of a list of headers.
pub(crate) fn clone_headers(headers: &Vec<Header>) -> (c: Vec<Header>)
    ensures
        c@ == headers@,
{
    let n = headers.len();
    let mut c: Vec<Header> = Vec::new();
    let mut i: usize = 0;
    while i < n
        invariant
            n == headers@.len(),
            0 <= i <= n,
            c@ == headers@.subrange(0, i as int),
        decreases n - i,
    {
        c.push((headers[i].0.clone(), headers[i].1.clone()));
        assert(c@ =~= headers@.subrange(0, i + 1));
        i += 1;
    }
    assert(headers@.subrange(0, n as int) =~= headers@);
    c
}

/// A switch after a pair of flags.
fn switch(current: bool, on: bool, off: bool) -> (r: bool)
    ensures
        r == switched(current, on, off),
{
    if on {
        true
    } else if off {
        false
    } else {
        current
    }
}

/// A switch after an optional new value.
fn pick_bool(current: bool, given: Option<bool>) -> (r: bool)
    ensures
        r == replaced(current, given),
{
    match given {
        Some(v) => v,
        None => current,
    }
}

/// A size after an optional new value.
fn pick_usize(current: usize, given: Option<usize>) -> (r: usize)
    ensures
        r == replaced(current, given),
{
    match given {
        Some(v) => v,
        None => current,
    }
}

/// A time or a size in bytes after an optional new value.
fn pick_u64(current: u64, given: Option<u64>) -> (r: u64)
    ensures
        r == replaced(current, given),
{
    match given {
        Some(v) => v,
        None => current,
    }
}

/// A text after an optional new value.
fn pick_string(current: &String, given: &Option<String>) -> (r: String)
    ensures
        r@ == replaced_text(current@, *given),
{
    match given {
        Some(v) => v.clone(),
        None => current.clone(),
    }
}

/// The proxy after the configuration.
fn pick_proxy(current: &Option<String>, given: &Option<String>) -> (r: Option<String>)
    ensures
        r == final_proxy(*current, *given),
{
    match given {
        Some(value) => {
            if value.as_str().unicode_len() > 0 {
                Some(value.clone())
            } else {
                clone_opt(current)
            }
        },
        None => clone_opt(current),
    }
}

/// A size after an optional number of the configuration.
fn fit_usize(current: usize, given: Option<i64>) -> (r: Result<usize, ArgsError>)
    ensures
        fits(given, usize::MAX as int) ==> r is Ok && r->Ok_0 == replaced(
            current as int,
            int_of(given),
        ),
        !fits(given, usize::MAX as int) ==> r == Err::<usize, ArgsError>(ArgsError::OutOfRange),
{
    match given {
        Some(v) => to_usize(v),
        None => Ok(current),
    }
}

/// A time after an optional number of the configuration.
fn fit_u64(current: u64, given: Option<i64>) -> (r: Result<u64, ArgsError>)
    ensures
        fits(given, i64::MAX as int) ==> r is Ok && r->Ok_0 == replaced(
            current as int,
            int_of(given),
        ),
        !fits(given, i64::MAX as int) ==> r == Err::<u64, ArgsError>(ArgsError::OutOfRange),
{
    match given {
        Some(v) => to_u64(v),
        None => Ok(current),
    }
}

/// A width after an optional number of the configuration.
fn fit_u16(current: u16, given: Option<i64>) -> (r: Result<u16, ArgsError>)
    ensures
        fits(given, u16::MAX as int) ==> r is Ok && r->Ok_0 == replaced(
            current as int,
            int_of(given),
        ),
        !fits(given, u16::MAX as int) ==> r == Err::<u16, ArgsError>(ArgsError::OutOfRange),
{
    match given {
        Some(v) => to_u16(v),
        None => Ok(current),
    }
}

/// Sets the headers of the configuration one after another; those that
/// cannot be sent are passed over.
pub fn set_config_headers(headers: &mut Vec<Header>, given: &Vec<Header>)
    ensures
        header_texts(final(headers)@) == with_config_headers(
            header_texts(old(headers)@),
            header_texts(given@),
        ),
{
    let n = given.len();
    let ghost all = header_texts(given@);
    let ghost start = header_texts(headers@);
    let mut i: usize = 0;
    assert(all.subrange(0, 0) =~= Seq::empty());
    while i < n
        invariant
            n == given@.len(),
            0 <= i <= n,
            all == header_texts(given@),
            header_texts(headers@) == with_config_headers(start, all.subrange(0, i as int)),
        decreases n - i,
    {
        proof {
            let cur = all.subrange(0, i + 1);
            assert(cur.drop_last() =~= all.subrange(0, i as int));
            assert(cur.last() == all[i as int]);
        }
        let name = &given[i].0;
        let value = &given[i].1;
        if header_name_ok(name.as_str()) && header_value_ok(value.as_str()) {
            set_header(headers, name.clone(), value.clone());
        }
        i += 1;
    }
    assert(all.subrange(0, n as int) =~= all);
}

/// Sets the header lines of the command line one after another. A line
/// without a colon is passed over; the first line with an invalid name or
/// value is an error.
pub fn set_cli_headers(headers: &mut Vec<Header>, given: &Vec<String>) -> (r: Result<
    (),
    ArgsError,
>)
    ensures
        match with_cli_headers(header_texts(old(headers)@), texts(given@)) {
            Ok(h) => r is Ok && header_texts(final(headers)@) == h,
            Err(e) => r == Err::<(), ArgsError>(e),
        },
{
    let n = given.len();
    let ghost lines = texts(given@);
    let ghost start = header_texts(headers@);
    let mut i: usize = 0;
    assert(lines.subrange(0, 0) =~= Seq::empty());
    while i < n
        invariant
            n == given@.len(),
            0 <= i <= n,
            lines == texts(given@),
            start == header_texts(old(headers)@),
            with_cli_headers(start, lines.subrange(0, i as int)) == Ok::<
                Seq<(Seq<char>, Seq<char>)>,
                ArgsError,
            >(header_texts(headers@)),
        decreases n - i,
    {
        proof {
            let cur = lines.subrange(0, i + 1);
            assert(cur.drop_last() =~= lines.subrange(0, i as int));
            assert(cur.last() == given@[i as int]@);
        }
        match parse_header_line(given[i].as_str()) {
            None => {},
            Some((name, value)) => {
                if !header_name_ok(name.as_str()) {
                    proof {
                        lemma_cli_error_stays(start, lines, i + 1);
                    }
                    return Err(ArgsError::InvalidHeaderName);
                }
                if !header_value_ok(value.as_str()) {
                    proof {
                        lemma_cli_error_stays(start, lines, i + 1);
                    }
                    return Err(ArgsError::InvalidHeaderValue);
                }
                set_header(headers, name, value);
            },
        }
        i += 1;
    }
    assert(lines.subrange(0, n as int) =~= lines);
    Ok(())
}

impl DownloadArgs {
    /// The settings that hold where nothing else is said.
    pub fn defaults(url: String, file_name: Option<String>, terminal_columns: Option<u16>) -> (args:
        Self)
        ensures
            args.url == url,
            args.file_name == file_name,
            !args.force,
            !args.resume,
            args.save_folder@ == "."@,
            args.threads == 8,
            args.proxy is None,
            args.headers@ == Seq::<Header>::empty(),
            args.write_buffer_size == 8 * 1024 * 1024,
            args.write_queue_cap == 10240,
            args.progress_width == default_width(terminal_columns),
            args.retry_gap == 500,
            args.repaint_gap == 100,
            args.pull_timeout == 5000,
            args.min_chunk_size == 1024,
            args.browser,
            !args.yes,
            !args.no,
            !args.verbose,
            args.multiplexing,
            !args.accept_invalid_certs,
            !args.accept_invalid_hostnames,
    {
        let progress_width: u16 = match terminal_columns {
            Some(columns) => if columns >= 36 {
                columns - 36
            } else {
                50
            },
            None => 50,
        };
        DownloadArgs {
            url,
            force: false,
            resume: false,
            save_folder: ".".to_owned(),
            threads: 8,
            file_name,
            proxy: None,
            headers: Vec::new(),
            write_buffer_size: 8 * 1024 * 1024,
            write_queue_cap: 10240,
            progress_width,
            retry_gap: 500,
            repaint_gap: 100,
            pull_timeout: 5000,
            min_chunk_size: 1024,
            browser: true,
            yes: false,
            no: false,
            verbose: false,
            multiplexing: true,
            accept_invalid_certs: false,
            accept_invalid_hostnames: false,
        }
    }

    /// Takes over what the configuration sets. An empty proxy counts as
    /// none. Headers that cannot be sent are passed over. If a number does
    /// not fit its setting nothing is taken over.
    pub fn apply_config(&mut self, config: &ConfigValues) -> (r: Result<(), ArgsError>)
        ensures
            r is Ok <==> fits_all(config),
            r is Err ==> r == Err::<(), ArgsError>(ArgsError::OutOfRange) && *final(self) == *old(
                self,
            ),
            r is Ok ==> {
                &&& final(self).url == old(self).url
                &&& final(self).file_name == old(self).file_name
                &&& final(self).force == replaced(old(self).force, config.force)
                &&& final(self).resume == replaced(old(self).resume, config.resume)
                &&& final(self).save_folder@ == replaced_text(
                    old(self).save_folder@,
                    config.save_folder,
                )
                &&& final(self).threads == replaced(
                    old(self).threads as int,
                    int_of(config.threads),
                )
                &&& final(self).write_buffer_size == replaced(
                    old(self).write_buffer_size as int,
                    int_of(config.write_buffer_size),
                )
                &&& final(self).write_queue_cap == replaced(
                    old(self).write_queue_cap as int,
                    int_of(config.write_queue_cap),
                )
                &&& final(self).progress_width == replaced(
                    old(self).progress_width as int,
                    int_of(config.progress_width),
                )
                &&& final(self).retry_gap == replaced(
                    old(self).retry_gap as int,
                    int_of(config.retry_gap),
                )
                &&& final(self).repaint_gap == replaced(
                    old(self).repaint_gap as int,
                    int_of(config.repaint_gap),
                )
                &&& final(self).pull_timeout == replaced(
                    old(self).pull_timeout as int,
                    int_of(config.pull_timeout),
                )
                &&& final(self).min_chunk_size == replaced(
                    old(self).min_chunk_size as int,
                    int_of(config.min_chunk_size),
                )
                &&& final(self).proxy == final_proxy(old(self).proxy, config.proxy)
                &&& final(self).browser == replaced(old(self).browser, config.browser)
                &&& final(self).yes == replaced(old(self).yes, config.yes)
                &&& final(self).no == replaced(old(self).no, config.no)
                &&& final(self).verbose == replaced(old(self).verbose, config.verbose)
                &&& final(self).multiplexing == replaced(
                    old(self).multiplexing,
                    config.multiplexing,
                )
                &&& final(self).accept_invalid_hostnames == replaced(
                    old(self).accept_invalid_hostnames,
                    config.accept_invalid_hostnames,
                )
                &&& final(self).accept_invalid_certs == replaced(
                    old(self).accept_invalid_certs,
                    config.accept_invalid_certs,
                )
                &&& header_texts(final(self).headers@) == with_config_headers(
                    header_texts(old(self).headers@),
                    header_texts(config.headers@),
                )
            },
    {
        let threads = fit_usize(self.threads, config.threads)?;
        let write_buffer_size = fit_usize(self.write_buffer_size, config.write_buffer_size)?;
        let write_queue_cap = fit_usize(self.write_queue_cap, config.write_queue_cap)?;
        let progress_width = fit_u16(self.progress_width, config.progress_width)?;
        let retry_gap = fit_u64(self.retry_gap, config.retry_gap)?;
        let repaint_gap = fit_u64(self.repaint_gap, config.repaint_gap)?;
        let pull_timeout = fit_u64(self.pull_timeout, config.pull_timeout)?;
        let min_chunk_size = fit_u64(self.min_chunk_size, config.min_chunk_size)?;
        let mut headers = clone_headers(&self.headers);
        set_config_headers(&mut headers, &config.headers);
        let proxy = pick_proxy(&self.proxy, &config.proxy);
        let next = DownloadArgs {
            url: self.url.clone(),
            force: pick_bool(self.force, config.force),
            resume: pick_bool(self.resume, config.resume),
            save_folder: pick_string(&self.save_folder, &config.save_folder),
            threads,
            file_name: clone_opt(&self.file_name),
            proxy,
            headers,
            write_buffer_size,
            write_queue_cap,
            repaint_gap,
            progress_width,
            retry_gap,
            pull_timeout,
            min_chunk_size,
            browser: pick_bool(self.browser, config.browser),
            yes: pick_bool(self.yes, config.yes),
            no: pick_bool(self.no, config.no),
            verbose: pick_bool(self.verbose, config.verbose),
            multiplexing: pick_bool(self.multiplexing, config.multiplexing),
            accept_invalid_certs: pick_bool(self.accept_invalid_certs, config.accept_invalid_certs),
            accept_invalid_hostnames: pick_bool(
                self.accept_invalid_hostnames,
                config.accept_invalid_hostnames,
            ),
        };
        *self = next;
        Ok(())
    }

    /// The settings with what the command line sets taken over, and with
    /// `headers` for headers.
    pub fn with_cli(&self, cli: &DownloadCli, headers: Vec<Header>) -> (next: Self)
        ensures
            cli_applied(*self, cli, next),
            next.headers == headers,
    {
        let proxy = match &cli.proxy {
            Some(value) => Some(value.clone()),
            None => clone_opt(&self.proxy),
        };
        let progress_width = match cli.progress_width {
            Some(value) => value,
            None => self.progress_width,
        };
        DownloadArgs {
            url: self.url.clone(),
            force: switch(self.force, cli.force, cli.no_force),
            resume: switch(self.resume, cli.resume, cli.no_resume),
            save_folder: pick_string(&self.save_folder, &cli.save_folder),
            threads: pick_usize(self.threads, cli.threads),
            file_name: clone_opt(&self.file_name),
            proxy,
            headers,
            write_buffer_size: pick_usize(self.write_buffer_size, cli.write_buffer_size),
            write_queue_cap: pick_usize(self.write_queue_cap, cli.write_queue_cap),
            repaint_gap: pick_u64(self.repaint_gap, cli.repaint_gap),
            progress_width,
            retry_gap: pick_u64(self.retry_gap, cli.retry_gap),
            pull_timeout: pick_u64(self.pull_timeout, cli.pull_timeout),
            min_chunk_size: pick_u64(self.min_chunk_size, cli.min_chunk_size),
            browser: switch(self.browser, cli.browser, cli.no_browser),
            yes: switch(self.yes, cli.yes, cli.no_yes),
            no: switch(self.no, cli.no, cli.no_no),
            verbose: switch(self.verbose, cli.verbose, cli.no_verbose),
            multiplexing: switch(self.multiplexing, cli.multiplexing, cli.no_multiplexing),
            accept_invalid_certs: switch(
                self.accept_invalid_certs,
                cli.accept_invalid_certs,
                cli.no_accept_invalid_certs,
            ),
            accept_invalid_hostnames: switch(
                self.accept_invalid_hostnames,
                cli.accept_invalid_hostnames,
                cli.no_accept_invalid_hostnames,
            ),
        }
    }

    /// Takes over what the command line sets. Of a pair of flags the one
    /// that turns on wins. Header lines are set in their order; a line
    /// without a colon is passed over. If a line has an invalid name or
    /// value nothing is taken over, and the first such line decides the
    /// error.
    pub fn apply_cli(&mut self, cli: &DownloadCli) -> (r: Result<(), ArgsError>)
        ensures
            match with_cli_headers(header_texts(old(self).headers@), texts(cli.headers@)) {
                Ok(h) => r is Ok && header_texts(final(self).headers@) == h,
                Err(e) => r == Err::<(), ArgsError>(e) && *final(self) == *old(self),
            },
            r is Ok ==> cli_applied(*old(self), cli, *final(self)),
    {
        let mut headers = clone_headers(&self.headers);
        match set_cli_headers(&mut headers, &cli.headers) {
            Err(e) => Err(e),
            Ok(()) => {
                let next = self.with_cli(cli, headers);
                *self = next;
                Ok(())
            },
        }
    }
}

/// `after` is `before` with what the command line sets taken over, but
/// for the headers.
pub open spec fn cli_applied(before: DownloadArgs, cli: &DownloadCli, after: DownloadArgs) -> bool {
    &&& after.url == before.url
    &&& after.file_name == before.file_name
    &&& after.force == switched(before.force, cli.force, cli.no_force)
    &&& after.resume == switched(before.resume, cli.resume, cli.no_resume)
    &&& after.save_folder@ == replaced_text(before.save_folder@, cli.save_folder)
    &&& after.threads == replaced(before.threads, cli.threads)
    &&& after.proxy == (match cli.proxy {
        Some(p) => Some(p),
        None => before.proxy,
    })
    &&& after.write_buffer_size == replaced(before.write_buffer_size, cli.write_buffer_size)
    &&& after.write_queue_cap == replaced(before.write_queue_cap, cli.write_queue_cap)
    &&& after.progress_width == replaced(before.progress_width, cli.progress_width)
    &&& after.retry_gap == replaced(before.retry_gap, cli.retry_gap)
    &&& after.repaint_gap == replaced(before.repaint_gap, cli.repaint_gap)
    &&& after.pull_timeout == replaced(before.pull_timeout, cli.pull_timeout)
    &&& after.min_chunk_size == replaced(before.min_chunk_size, cli.min_chunk_size)
    &&& after.browser == switched(before.browser, cli.browser, cli.no_browser)
    &&& after.yes == switched(before.yes, cli.yes, cli.no_yes)
    &&& after.no == switched(before.no, cli.no, cli.no_no)
    &&& after.verbose == switched(before.verbose, cli.verbose, cli.no_verbose)
    &&& after.multiplexing == switched(before.multiplexing, cli.multiplexing, cli.no_multiplexing)
    &&& after.accept_invalid_hostnames == switched(
        before.accept_invalid_hostnames,
        cli.accept_invalid_hostnames,
        cli.no_accept_invalid_hostnames,
    )
    &&& after.accept_invalid_certs == switched(
        before.accept_invalid_certs,
        cli.accept_invalid_certs,
        cli.no_accept_invalid_certs,
    )
}

/// A number after configuration and command line: what the command line
/// gives, else what the configuration gives, else the default.
pub open spec fn layered(default: int, config: Option<i64>, cli: Option<int>) -> int {
    replaced(replaced(default, int_of(config)), cli)
}

/// A switch after configuration and command line.
pub open spec fn layered_switch(default: bool, config: Option<bool>, on: bool, off: bool) -> bool {
    switched(replaced(default, config), on, off)
}

/// The headers after configuration and command line.
pub open spec fn layered_headers(config: &ConfigValues, cli: &DownloadCli) -> Result<
    Seq<(Seq<char>, Seq<char>)>,
    ArgsError,
> {
    with_cli_headers(
        with_config_headers(Seq::empty(), header_texts(config.headers@)),
        texts(cli.headers@),
    )
}

/// An optional size as a mathematical integer.
pub open spec fn size_of(value: Option<usize>) -> Option<int> {
    match value {
        Some(v) => Some(v as int),
        None => None,
    }
}

/// An optional time as a mathematical integer.
pub open spec fn time_of(value: Option<u64>) -> Option<int> {
    match value {
        Some(v) => Some(v as int),
        None => None,
    }
}

/// An optional width as a mathematical integer.
pub open spec fn width_of(value: Option<u16>) -> Option<int> {
    match value {
        Some(v) => Some(v as int),
        None => None,
    }
}

/// `args` are the settings of a download for which the command line gave
/// `cli` and the configuration `config`, on a terminal of
/// `terminal_columns` columns.
pub open spec fn settled(
    args: DownloadArgs,
    cli: &DownloadCli,
    config: &ConfigValues,
    terminal_columns: Option<u16>,
) -> bool {
    &&& args.url == cli.url
    &&& args.file_name == cli.file_name
    &&& args.force == layered_switch(false, config.force, cli.force, cli.no_force)
    &&& args.resume == layered_switch(false, config.resume, cli.resume, cli.no_resume)
    &&& args.save_folder@ == replaced_text(
        replaced_text("."@, config.save_folder),
        cli.save_folder,
    )
    &&& args.threads == layered(8, config.threads, size_of(cli.threads))
    &&& args.proxy == (match cli.proxy {
        Some(p) => Some(p),
        None => final_proxy(None, config.proxy),
    })
    &&& args.write_buffer_size == layered(
        8388608,
        config.write_buffer_size,
        size_of(cli.write_buffer_size),
    )
    &&& args.write_queue_cap == layered(10240, config.write_queue_cap, size_of(cli.write_queue_cap))
    &&& args.progress_width == layered(
        default_width(terminal_columns) as int,
        config.progress_width,
        width_of(cli.progress_width),
    )
    &&& args.retry_gap == layered(500, config.retry_gap, time_of(cli.retry_gap))
    &&& args.repaint_gap == layered(100, config.repaint_gap, time_of(cli.repaint_gap))
    &&& args.pull_timeout == layered(5000, config.pull_timeout, time_of(cli.pull_timeout))
    &&& args.min_chunk_size == layered(1024, config.min_chunk_size, time_of(cli.min_chunk_size))
    &&& args.browser == layered_switch(true, config.browser, cli.browser, cli.no_browser)
    &&& args.yes == layered_switch(false, config.yes, cli.yes, cli.no_yes)
    &&& args.no == layered_switch(false, config.no, cli.no, cli.no_no)
    &&& args.verbose == layered_switch(false, config.verbose, cli.verbose, cli.no_verbose)
    &&& args.multiplexing == layered_switch(
        true,
        config.multiplexing,
        cli.multiplexing,
        cli.no_multiplexing,
    )
    &&& args.accept_invalid_hostnames == layered_switch(
        false,
        config.accept_invalid_hostnames,
        cli.accept_invalid_hostnames,
        cli.no_accept_invalid_hostnames,
    )
    &&& args.accept_invalid_certs == layered_switch(
        false,
        config.accept_invalid_certs,
        cli.accept_invalid_certs,
        cli.no_accept_invalid_certs,
    )
    &&& layered_headers(config, cli) == Ok::<Seq<(Seq<char>, Seq<char>)>, ArgsError>(
        header_texts(args.headers@),
    )
}

/// The settings of a download: the defaults, then what the configuration
/// sets, then what the command line sets. A number of the configuration
/// that does not fit is an error; else the first header line with an
/// invalid name or value is one.
pub fn settle(cli: &DownloadCli, config: &ConfigValues, terminal_columns: Option<u16>) -> (r:
    Result<DownloadArgs, ArgsError>)
    ensures
        !fits_all(config) ==> r == Err::<DownloadArgs, ArgsError>(ArgsError::OutOfRange),
        fits_all(config) ==> match layered_headers(config, cli) {
            Err(e) => r == Err::<DownloadArgs, ArgsError>(e),
            Ok(_) => r is Ok && settled(r->Ok_0, cli, config, terminal_columns),
        },
{
    let mut args = DownloadArgs::defaults(
        cli.url.clone(),
        clone_opt(&cli.file_name),
        terminal_columns,
    );
    assert(header_texts(args.headers@) =~= Seq::empty());
    match args.apply_config(config) {
        Err(e) => {
            return Err(e);
        },
        Ok(()) => {},
    }
    match args.apply_cli(cli) {
        Err(e) => {
            return Err(e);
        },
        Ok(()) => {},
    }
    Ok(args)
}

impl Args {
    /// The settings for a command; for a download as `settle` gives them.
    pub fn parse(command: Commands, config: &ConfigValues, terminal_columns: Option<u16>) -> (r:
        Result<Args, ArgsError>)
        ensures
            command is Clean ==> r is Ok && r->Ok_0 is Clean,
            command is Update ==> r is Ok && r->Ok_0 is Update,
            command is List ==> r is Ok && r->Ok_0 is List,
            command is TaskExample ==> r is Ok && r->Ok_0 is TaskExample,
            command is Task ==> r is Ok && r->Ok_0 is Task && r->Ok_0->Task_0.file
                == command->Task_0.file,
            command is Download && !fits_all(config) ==> r == Err::<Args, ArgsError>(
                ArgsError::OutOfRange,
            ),
            command is Download && fits_all(config) ==> match layered_headers(
                config,
                &command->Download_0,
            ) {
                Err(e) => r == Err::<Args, ArgsError>(e),
                Ok(_) => r is Ok && r->Ok_0 is Download && settled(
                    r->Ok_0->Download_0,
                    &command->Download_0,
                    config,
                    terminal_columns,
                ),
            },
    {
        match command {
            Commands::Download(cli) => {
                match settle(&cli, config, terminal_columns) {
                    Ok(args) => Ok(Args::Download(args)),
                    Err(e) => Err(e),
                }
            },
            Commands::Update => Ok(Args::Update),
            Commands::Clean => Ok(Args::Clean),
            Commands::List => Ok(Args::List),
            Commands::TaskExample => Ok(Args::TaskExample),
            Commands::Task(cli) => Ok(Args::Task(TaskArgs { file: cli.file })),
        }
    }
}

/// An optional number as a mathematical integer.
pub open spec fn int_of(value: Option<i64>) -> Option<int> {
    match value {
        Some(v) => Some(v as int),
        None => None,
    }
}

/// The proxy after the configuration: the configured one unless it is
/// absent or empty.
pub open spec fn final_proxy(current: Option<String>, given: Option<String>) -> Option<String> {
    match given {
        Some(p) => if p@.len() > 0 {
            Some(p)
        } else {
            current
        },
        None => current,
    }
}

/// An optional number lies between zero and `max`.
pub open spec fn fits(value: Option<i64>, max: int) -> bool {
    match value {
        Some(v) => 0 <= v <= max,
        None => true,
    }
}

/// Every number of the configuration fits its setting.
pub open spec fn fits_all(config: &ConfigValues) -> bool {
    &&& fits(config.threads, usize::MAX as int)
    &&& fits(config.write_buffer_size, usize::MAX as int)
    &&& fits(config.write_queue_cap, usize::MAX as int)
    &&& fits(config.progress_width, u16::MAX as int)
    &&& fits(config.retry_gap, i64::MAX as int)
    &&& fits(config.repaint_gap, i64::MAX as int)
    &&& fits(config.pull_timeout, i64::MAX as int)
    &&& fits(config.min_chunk_size, i64::MAX as int)
}

/// Once a header line is refused, the lines after it do not matter.
pub proof fn lemma_cli_error_stays(
    h: Seq<(Seq<char>, Seq<char>)>,
    lines: Seq<Seq<char>>,
    k: int,
)
    requires
        0 <= k <= lines.len(),
        with_cli_headers(h, lines.subrange(0, k)) is Err,
    ensures
        with_cli_headers(h, lines) == with_cli_headers(h, lines.subrange(0, k)),
    decreases lines.len() - k,
{
    if k < lines.len() {
        let next = lines.subrange(0, k + 1);
        assert(next.drop_last() =~= lines.subrange(0, k));
        lemma_cli_error_stays(h, lines, k + 1);
    } else {
        assert(lines.subrange(0, k) =~= lines);
    }
}

} // verus!
