//! The process-wide logger: its start-once state, the names and lines it
//! writes, which records it lets through, and which old log files go.
//!
//! Files and the log sink itself are the caller's business. The logger is
//! told what the log directory holds and says what to remove; it is told the
//! file the sink was opened on and from then on counts as started.

use vstd::prelude::*;
use vstd::string::StrSliceExecFns;
use vstd::string::StringExecFns;

verus! {

/// `log::LevelFilter`, the level up to which records are logged. Nothing is
/// known of a value of it; the logger keeps it and hands it back.
#[verifier::external_type_specification]
#[verifier::external_body]
pub struct ExLevelFilter(log::LevelFilter);

/// The directory that holds the log files.
pub const LOG_DIR: &'static str = "logs";

/// The `strftime` pattern of the time in a log file's name.
pub const FILE_STAMP: &'static str = "%Y-%m-%d_%H-%M-%S";

/// The `strftime` pattern of the time in a log line.
pub const LINE_STAMP: &'static str = "%Y-%m-%d %H:%M:%S";

/// The word that a record's target must hold to be logged.
pub const TARGET_WORD: &'static str = "oracle";

/// The name of the log file opened at the time that `stamp` renders.
pub open spec fn file_name(stamp: Seq<char>) -> Seq<char> {
    LOG_DIR@ + "/"@ + stamp + ".log"@
}

/// The line written for a record.
pub open spec fn line_text(time: Seq<char>, level: Seq<char>, message: Seq<char>) -> Seq<char> {
    "[ORACLE]["@ + time + "]["@ + level + "] "@ + message
}

/// Whether `needle` stands in `hay` from position `i` on.
pub open spec fn occurs_at(hay: Seq<char>, needle: Seq<char>, i: int) -> bool {
    0 <= i && i + needle.len() <= hay.len() && hay.subrange(i, i + needle.len()) == needle
}

/// Whether `needle` stands somewhere in `hay`.
pub open spec fn occurs_in(hay: Seq<char>, needle: Seq<char>) -> bool {
    exists|i: int| occurs_at(hay, needle, i)
}

/// Renders the current local time with `chrono::Local::now().format(..)`.
/// Nothing is claimed of the text: it depends on the clock and on the time
/// zone of the machine. Only the two patterns of this module are let in,
/// because rendering panics on a pattern that chrono cannot parse.
#[verifier::external_body]
fn local_time(pattern: &str) -> (text: String)
    requires
        pattern@ == FILE_STAMP@ || pattern@ == LINE_STAMP@,
{
    chrono::Local::now().format(pattern).to_string()
}

/// The name of the log file opened at the time that `stamp` renders.
pub fn log_file_name(stamp: &str) -> (name: String)
    ensures
        name@ == file_name(stamp@),
{
    let mut name = LOG_DIR.to_owned();
    name.append("/");
    name.append(stamp);
    name.append(".log");
    name
}

/// The line written for a record of the given level at the given time.
pub fn format_line(time: &str, level: &str, message: &str) -> (line: String)
    ensures
        line@ == line_text(time@, level@, message@),
{
    let mut line = "[ORACLE][".to_owned();
    line.append(time);
    line.append("][");
    line.append(level);
    line.append("] ");
    line.append(message);
    line
}

/// The line written now for a record of the given level: `format_line` with
/// the local time of the call.
pub fn format_line_now(level: &str, message: &str) -> (line: String)
    ensures
        exists|time: Seq<char>| line@ == line_text(time, level@, message@),
{
    let time = local_time(LINE_STAMP);
    format_line(time.as_str(), level, message)
}

fn matches_at(hay: &str, needle: &str, at: usize, width: usize) -> (b: bool)
    requires
        width == needle@.len(),
        at + width <= hay@.len() <= usize::MAX,
    ensures
        b == occurs_at(hay@, needle@, at as int),
{
    let mut j: usize = 0;
    while j < width
        invariant
            j <= width,
            width == needle@.len(),
            at + width <= hay@.len() <= usize::MAX,
            forall|k: int| 0 <= k < j ==> hay@[at + k] == needle@[k],
        decreases width - j,
    {
        if hay.get_char(at + j) != needle.get_char(j) {
            proof {
                let part = hay@.subrange(at as int, at + width);
                assert(part[j as int] == hay@[at + j]);
            }
            return false;
        }
        j += 1;
    }
    assert(hay@.subrange(at as int, at + width) =~= needle@);
    true
}

/// Whether `needle` stands somewhere in `hay`.
pub fn contains_text(hay: &str, needle: &str) -> (b: bool)
    ensures
        b == occurs_in(hay@, needle@),
{
    let length = hay.unicode_len();
    let width = needle.unicode_len();
    if width > length {
        return false;
    }
    let last: usize = length - width;
    let mut i: usize = 0;
    loop
        invariant
            i <= last,
            last == length - width,
            length == hay@.len(),
            width == needle@.len(),
            forall|k: int| 0 <= k < i ==> !occurs_at(hay@, needle@, k),
        decreases last - i,
    {
        if matches_at(hay, needle, i, width) {
            return true;
        }
        if i == last {
            return false;
        }
        i += 1;
    }
}

/// Whether a record with the given target is logged: its target has to hold
/// the word `oracle`.
pub fn accepts_target(target: &str) -> (b: bool)
    ensures
        b == occurs_in(target@, TARGET_WORD@),
{
    contains_text(target, TARGET_WORD)
}

/// One entry of the log directory: whether it is a regular file, when it was
/// last modified, in nanoseconds from the Unix epoch, and its size in bytes.
#[derive(Clone, Copy, Debug, PartialEq, Eq, Structural)]
pub struct LogFile {
    pub is_file: bool,
    pub modified: u128,
    pub size: u64,
}

/// The age from which a log file is removed: ten days, in nanoseconds.
pub const MAX_AGE: u128 = 864_000_000_000_000;

/// The size of all log files together from which the oldest is removed:
/// a hundred mebibytes.
pub const MAX_TOTAL: u64 = 104_857_600;

/// What to do about the log directory. Entries are named by their index.
#[derive(Debug, PartialEq, Eq)]
pub struct Cleanup {
    /// The files to remove for their age, in the order of the directory.
    pub expired: Vec<usize>,
    /// The file to remove for the size of the directory, after the others.
    pub evict: Option<usize>,
    /// The file at which the scan gave up because it is newer than the clock.
    pub clock_fault: Option<usize>,
    /// Whether a removal is reported to the log rather than printed.
    pub report_to_log: bool,
}

/// Whether the entry is a file that was modified after `now`.
pub open spec fn from_future(e: LogFile, now: u128) -> bool {
    e.is_file && e.modified > now
}

/// Whether the entry is a file of the age to remove.
pub open spec fn expired(e: LogFile, now: u128) -> bool {
    e.is_file && e.modified <= now && now - e.modified >= MAX_AGE
}

/// Whether the entry is a file that is not yet of the age to remove.
pub open spec fn fresh(e: LogFile, now: u128) -> bool {
    e.is_file && e.modified <= now && now - e.modified < MAX_AGE
}

/// Whether the scan of the directory stops at `n`: at the first file from the
/// future, or at the end where there is none.
pub open spec fn scan_stops(entries: Seq<LogFile>, now: u128, n: int) -> bool {
    &&& 0 <= n <= entries.len()
    &&& forall|i: int| 0 <= i < n ==> !from_future(#[trigger] entries[i], now)
    &&& n < entries.len() ==> from_future(entries[n], now)
}

/// The files of the age to remove among the first `n` entries, in order.
pub open spec fn expired_among(entries: Seq<LogFile>, now: u128, n: int) -> Seq<usize> {
    Seq::new(n as nat, |i: int| i as usize).filter(|i: usize| expired(entries[i as int], now))
}

/// The size of all files of the directory together.
pub open spec fn total_size(entries: Seq<LogFile>) -> nat
    decreases entries.len(),
{
    if entries.len() == 0 {
        0
    } else {
        total_size(entries.drop_last()) + if entries.last().is_file {
            entries.last().size as nat
        } else {
            0nat
        }
    }
}

/// Whether entry `i` is the oldest of the fresh files among the first `n`
/// entries, and the first of them where several are equally old.
pub open spec fn oldest_among(entries: Seq<LogFile>, now: u128, n: int, i: int) -> bool {
    &&& 0 <= i < n
    &&& fresh(entries[i], now)
    &&& forall|j: int|
        0 <= j < n && fresh(#[trigger] entries[j], now) ==> entries[i].modified
            < entries[j].modified || (entries[i].modified == entries[j].modified && i <= j)
}

/// Whether `evict` is the removal that the size of the directory calls for:
/// the oldest fresh file where the files together reach the limit, and none
/// where they do not or where no file is fresh.
pub open spec fn evicted(entries: Seq<LogFile>, now: u128, evict: Option<usize>) -> bool {
    match evict {
        Some(i) => total_size(entries) >= MAX_TOTAL && oldest_among(
            entries,
            now,
            entries.len() as int,
            i as int,
        ),
        None => total_size(entries) < MAX_TOTAL || forall|j: int|
            0 <= j < entries.len() ==> !fresh(#[trigger] entries[j], now),
    }
}

/// Whether `plan` is the cleanup of a directory with the given entries at
/// time `now`.
///
/// The entries are scanned in order. Every file of ten days or more is
/// removed. The scan gives up at a file that is newer than the clock; what it
/// has found to remove by then still goes. Where the scan reaches the end and
/// the files, removed ones included, hold a hundred mebibytes or more, the
/// oldest of the remaining files goes too.
pub open spec fn cleanup_of(entries: Seq<LogFile>, now: u128, plan: Cleanup) -> bool {
    match plan.clock_fault {
        Some(n) => {
            &&& n < entries.len()
            &&& scan_stops(entries, now, n as int)
            &&& plan.expired@ == expired_among(entries, now, n as int)
            &&& plan.evict is None
        },
        None => {
            &&& scan_stops(entries, now, entries.len() as int)
            &&& plan.expired@ == expired_among(entries, now, entries.len() as int)
            &&& evicted(entries, now, plan.evict)
        },
    }
}

proof fn lemma_expired_step(entries: Seq<LogFile>, now: u128, n: int)
    requires
        0 <= n < entries.len(),
        n <= usize::MAX,
    ensures
        expired_among(entries, now, n + 1) == if expired(entries[n], now) {
            expired_among(entries, now, n).push(n as usize)
        } else {
            expired_among(entries, now, n)
        },
{
    let upto = Seq::new(n as nat, |i: int| i as usize);
    let next = Seq::new((n + 1) as nat, |i: int| i as usize);
    assert(next == upto.push(n as usize));
    upto.lemma_filter_push(n as usize, |i: usize| expired(entries[i as int], now));
}

proof fn lemma_total_step(entries: Seq<LogFile>, n: int)
    requires
        0 <= n < entries.len(),
    ensures
        total_size(entries.take(n + 1)) == total_size(entries.take(n)) + if entries[n].is_file {
            entries[n].size as nat
        } else {
            0nat
        },
{
    assert(entries.take(n + 1).drop_last() == entries.take(n));
}

/// The logger's state: the level it was made with, the file it writes to once
/// started, and whether it has been started.
pub struct Logger {
    level: log::LevelFilter,
    file: Option<String>,
    started: bool,
}

impl Logger {
    /// The level the logger was made with.
    pub closed spec fn spec_level(&self) -> log::LevelFilter {
        self.level
    }

    /// The characters of the name of the file the logger writes to, if it has
    /// been started.
    pub closed spec fn spec_file(&self) -> Option<Seq<char>> {
        match self.file {
            Some(f) => Some(f@),
            None => None,
        }
    }

    /// Whether the logger has been started.
    pub closed spec fn spec_started(&self) -> bool {
        self.started
    }

    /// A logger of the given level that has not been started.
    pub fn new(level: log::LevelFilter) -> (logger: Logger)
        ensures
            logger.spec_level() == level,
            logger.spec_file() is None,
            !logger.spec_started(),
    {
        Logger { level, file: None, started: false }
    }

    /// The level the logger was made with.
    #[verifier::when_used_as_spec(spec_level)]
    pub fn level(&self) -> (level: log::LevelFilter)
        ensures
            level == self.spec_level(),
    {
        self.level
    }

    /// Whether the logger has been started.
    #[verifier::when_used_as_spec(spec_started)]
    pub fn is_started(&self) -> (b: bool)
        ensures
            b == self.spec_started(),
    {
        self.started
    }

    /// The name of the file the logger writes to, if it has been started.
    pub fn file(&self) -> (name: Option<String>)
        ensures
            crate::model::text_of(name) == self.spec_file(),
    {
        crate::model::copy_text(&self.file)
    }

    /// The name of the file to open for a logger that is yet to start: the
    /// log directory, the local time of the call, and `.log`. A started
    /// logger opens no file.
    pub fn next_file(&self) -> (name: Option<String>)
        ensures
            self.is_started() ==> name is None,
            !self.is_started() ==> name is Some && exists|stamp: Seq<char>|
                name->Some_0@ == file_name(stamp),
    {
        if self.started {
            None
        } else {
            let stamp = local_time(FILE_STAMP);
            Some(log_file_name(stamp.as_str()))
        }
    }

    /// Decides what to remove from the log directory, given its entries and
    /// the time. See [`cleanup_of`] for the rule. A started logger has the
    /// removals reported to the log.
    pub fn clean_logs(&self, entries: &Vec<LogFile>, now: u128) -> (plan: Cleanup)
        ensures
            cleanup_of(entries@, now, plan),
            plan.report_to_log == self.is_started(),
    {
        let mut expired_files: Vec<usize> = Vec::new();
        let mut oldest: Option<usize> = None;
        let mut total: u128 = 0;
        let mut i: usize = 0;
        while i < entries.len()
            invariant
                i <= entries.len(),
                scan_stops(entries@.take(i as int), now, i as int),
                expired_files@ == expired_among(entries@, now, i as int),
                total == total_size(entries@.take(i as int)),
                total <= i * 0xffff_ffff_ffff_ffff,
                match oldest {
                    Some(o) => oldest_among(entries@, now, i as int, o as int),
                    None => forall|j: int| 0 <= j < i ==> !fresh(#[trigger] entries@[j], now),
                },
            decreases entries.len() - i,
        {
            let entry = entries[i];
            if entry.is_file {
                if entry.modified > now {
                    assert(scan_stops(entries@, now, i as int)) by {
                        assert forall|j: int| 0 <= j < i implies !from_future(
                            #[trigger] entries@[j],
                            now,
                        ) by {
                            assert(entries@.take(i as int)[j] == entries@[j]);
                        }
                    }
                    return Cleanup {
                        expired: expired_files,
                        evict: None,
                        clock_fault: Some(i),
                        report_to_log: self.started,
                    };
                }
                proof {
                    assert((i + 1) * 0xffff_ffff_ffff_ffff <= 0xffff_ffff_ffff_ffff
                        * 0xffff_ffff_ffff_ffff) by (nonlinear_arith)
                        requires
                            i + 1 <= 0xffff_ffff_ffff_ffff,
                    ;
                    assert(i * 0xffff_ffff_ffff_ffff + 0xffff_ffff_ffff_ffff == (i + 1)
                        * 0xffff_ffff_ffff_ffff) by (nonlinear_arith);
                }
                total = total + entry.size as u128;
                if now - entry.modified >= MAX_AGE {
                    expired_files.push(i);
                } else {
                    match oldest {
                        Some(o) => {
                            if entry.modified < entries[o].modified {
                                oldest = Some(i);
                            }
                        },
                        None => {
                            oldest = Some(i);
                        },
                    }
                }
            }
            proof {
                lemma_expired_step(entries@, now, i as int);
                lemma_total_step(entries@, i as int);
                assert((i + 1) * 0xffff_ffff_ffff_ffff >= i * 0xffff_ffff_ffff_ffff)
                    by (nonlinear_arith);
                assert forall|j: int| 0 <= j < i + 1 implies !from_future(
                    #[trigger] entries@.take(i + 1)[j],
                    now,
                ) by {
                    if j < i {
                        assert(entries@.take(i as int)[j] == entries@[j]);
                    }
                }
            }
            i += 1;
        }
        assert(entries@.take(i as int) == entries@);
        let evict = if total >= MAX_TOTAL as u128 {
            oldest
        } else {
            None
        };
        Cleanup { expired: expired_files, evict, clock_fault: None, report_to_log: self.started }
    }

    /// Starts the logger on `file`, once: a logger that has been started
    /// stays as it is. Returns whether this call started it.
    pub fn start(&mut self, file: String) -> (fresh: bool)
        ensures
            fresh == !old(self).is_started(),
            final(self).is_started(),
            final(self).level() == old(self).level(),
            final(self).spec_file() == if fresh {
                Some(file@)
            } else {
                old(self).spec_file()
            },
    {
        if self.started {
            false
        } else {
            self.file = Some(file);
            self.started = true;
            true
        }
    }
}

} // verus!
