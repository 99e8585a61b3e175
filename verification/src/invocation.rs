//! Composing the argument list for the synchronisation tool, and reading
//! what became of the tool once it ran.

use crate::config::TaskModel;
use crate::task::Task;
use crate::text::{chars_of, push_signed_decimal, signed_decimal};
use vstd::prelude::*;
use vstd::string::*;

verus! {

/// The program that does the copying.
pub const TOOL: &'static str = "rsync";

/// What the command line asks of every task.
#[derive(Debug, Clone, Copy, PartialEq, Eq, Structural)]
pub struct RunFlags {
    /// Leave out the progress report.
    pub quiet: bool,
    /// Show the argument list instead of running the tool.
    pub debug: bool,
    /// Have the tool simulate the transfer.
    pub dry_run: bool,
    /// Word an update as a download rather than an upload.
    pub download: bool,
}

/// One entry of the backup directory.
#[derive(Debug, Clone, PartialEq, Eq)]
pub struct DirEntry {
    pub path: String,
    pub is_dir: bool,
}

impl DeepView for DirEntry {
    type V = (Seq<char>, bool);

    open spec fn deep_view(&self) -> (Seq<char>, bool) {
        (self.path@, self.is_dir)
    }
}

/// The argument `flag` + `value`, given only for a value that is not empty.
pub open spec fn optional_argument(flag: Seq<char>, value: Seq<char>) -> Seq<Seq<char>> {
    if value.len() > 0 {
        seq![flag + value]
    } else {
        Seq::empty()
    }
}

/// One argument `flag` + value for each of `values`, in their order.
pub open spec fn list_arguments(flag: Seq<char>, values: Seq<Seq<char>>) -> Seq<Seq<char>> {
    Seq::new(values.len(), |i: int| flag + values[i])
}

/// `arguments`, given only when `set`.
pub open spec fn arguments_if(set: bool, arguments: Seq<Seq<char>>) -> Seq<Seq<char>> {
    if set {
        arguments
    } else {
        Seq::empty()
    }
}

/// The paths of those entries that are directories, in their order.
pub open spec fn directories(entries: Seq<(Seq<char>, bool)>) -> Seq<Seq<char>>
    decreases entries.len(),
{
    if entries.len() == 0 {
        Seq::empty()
    } else if entries.last().1 {
        directories(entries.drop_last()).push(entries.last().0)
    } else {
        directories(entries.drop_last())
    }
}

/// Where the files go: the destination itself for an update, a directory
/// named by `stamp` below it for a backup.
pub open spec fn target(task: TaskModel, stamp: Seq<char>) -> Seq<char> {
    if task.is_update {
        task.dst
    } else {
        task.dst + "/"@ + stamp
    }
}

/// The argument list for `task`. It excludes dot files, picks the transfer
/// mode, reports progress unless `quiet`, names the filter files, excludes
/// everything else if asked to, hints at the directories to link and to
/// compare with (for a task that compares with old backups, also
/// `compare_dirs`), simulates on `dry_run`, and ends with source and target.
pub open spec fn arguments(
    task: TaskModel,
    quiet: bool,
    dry_run: bool,
    compare_dirs: Seq<Seq<char>>,
    stamp: Seq<char>,
) -> Seq<Seq<char>> {
    seq!["--exclude"@, ".*"@] + seq![
        if task.is_update {
            "-ru"@
        } else {
            "-rt"@
        },
    ] + arguments_if(!quiet, seq!["-h"@, "--progress"@, "--verbose"@]) + optional_argument(
        "--files-from="@,
        task.files_from,
    ) + optional_argument("--exclude-from="@, task.exclude_from) + optional_argument(
        "--include-from="@,
        task.include_from,
    ) + arguments_if(task.exclude_others, seq!["--exclude"@, "*"@]) + list_arguments(
        "--link-dest="@,
        task.link_dest,
    ) + list_arguments("--compare-dest="@, task.compare_dest) + arguments_if(
        task.compare_paths,
        list_arguments("--compare-dest="@, compare_dirs),
    ) + arguments_if(dry_run, seq!["--dry-run"@]) + seq![task.src] + seq![target(task, stamp)]
}

/// Whether `c` is one of the digits `0` to `9`.
pub open spec fn is_digit(c: char) -> bool {
    0x30 <= c as u32 <= 0x39
}

/// Whether `text` has the shape `YYYY-MM-DD--HH_MM`.
pub open spec fn is_timestamp(text: Seq<char>) -> bool {
    &&& text.len() == 17
    &&& forall|i: int|
        0 <= i < 17 ==> if i == 4 || i == 7 || i == 10 || i == 11 {
            text[i] == '-'
        } else if i == 14 {
            text[i] == '_'
        } else {
            is_digit(#[trigger] text[i])
        }
}

fn push_text(args: &mut Vec<String>, text: &str)
    ensures
        final(args).deep_view() == old(args).deep_view() + seq![text@],
{
    args.push(String::from_str(text));
    assert(args.deep_view() =~= old(args).deep_view() + seq![text@]);
}

fn push_pair(args: &mut Vec<String>, flag: &str, value: &str)
    ensures
        final(args).deep_view() == old(args).deep_view() + seq![flag@ + value@],
{
    let text = String::from_str(flag).concat(value);
    args.push(text);
    assert(args.deep_view() =~= old(args).deep_view() + seq![flag@ + value@]);
}

fn push_optional(args: &mut Vec<String>, flag: &str, value: &str)
    ensures
        final(args).deep_view() == old(args).deep_view() + optional_argument(flag@, value@),
{
    if !value.is_empty() {
        push_pair(args, flag, value);
    } else {
        assert(args.deep_view() =~= old(args).deep_view() + optional_argument(flag@, value@));
    }
}

fn push_each(args: &mut Vec<String>, flag: &str, values: &Vec<String>)
    ensures
        final(args).deep_view() == old(args).deep_view() + list_arguments(
            flag@,
            values.deep_view(),
        ),
{
    let ghost all = values.deep_view();
    let mut i: usize = 0;
    assert(args.deep_view() =~= old(args).deep_view() + list_arguments(flag@, all.take(0)));
    while i < values.len()
        invariant
            i <= values.len(),
            all == values.deep_view(),
            args.deep_view() == old(args).deep_view() + list_arguments(flag@, all.take(i as int)),
        decreases values.len() - i,
    {
        push_pair(args, flag, values[i].as_str());
        assert(args.deep_view() =~= old(args).deep_view() + list_arguments(
            flag@,
            all.take(i + 1),
        ));
        i += 1;
    }
    assert(all.take(i as int) =~= all);
}

/// The paths of those entries that are directories, in their order.
pub fn directory_paths(entries: &Vec<DirEntry>) -> (paths: Vec<String>)
    ensures
        paths.deep_view() == directories(entries.deep_view()),
{
    let ghost all = entries.deep_view();
    let mut paths: Vec<String> = Vec::new();
    let mut i: usize = 0;
    assert(paths.deep_view() =~= directories(all.take(0)));
    while i < entries.len()
        invariant
            i <= entries.len(),
            all == entries.deep_view(),
            paths.deep_view() == directories(all.take(i as int)),
        decreases entries.len() - i,
    {
        let ghost before = paths.deep_view();
        proof {
            let part = all.take(i + 1);
            assert(part.drop_last() =~= all.take(i as int));
            assert(part.last() == entries[i as int].deep_view());
        }
        if entries[i].is_dir {
            paths.push(entries[i].path.clone());
            assert(paths.deep_view() =~= before.push(entries[i as int].path@));
        }
        i += 1;
    }
    assert(all.take(i as int) =~= all);
    paths
}

fn digit_at(chars: &Vec<char>, i: usize) -> (b: bool)
    requires
        i < chars.len(),
    ensures
        b == is_digit(chars@[i as int]),
{
    let n: u32 = chars[i] as u32;
    0x30 <= n && n <= 0x39
}

/// Whether `text` has the shape `YYYY-MM-DD--HH_MM`.
pub fn has_timestamp_shape(text: &str) -> (b: bool)
    ensures
        b == is_timestamp(text@),
{
    let chars = chars_of(text);
    if chars.len() != 17 {
        return false;
    }
    let mut i: usize = 0;
    while i < 17
        invariant
            i <= 17,
            chars.len() == 17,
            chars@ == text@,
            forall|k: int|
                0 <= k < i ==> if k == 4 || k == 7 || k == 10 || k == 11 {
                    chars@[k] == '-'
                } else if k == 14 {
                    chars@[k] == '_'
                } else {
                    is_digit(#[trigger] chars@[k])
                },
        decreases 17 - i,
    {
        let ok = if i == 4 || i == 7 || i == 10 || i == 11 {
            chars[i] == '-'
        } else if i == 14 {
            chars[i] == '_'
        } else {
            digit_at(&chars, i)
        };
        if !ok {
            assert(!is_timestamp(text@)) by {
                if is_timestamp(text@) {
                    assert(is_digit(text@[i as int]) || i == 4 || i == 7 || i == 10 || i == 11 || i
                        == 14);
                }
            }
            return false;
        }
        i += 1;
    }
    true
}

impl Task {
    /// The argument list for the task; `compare_dirs` are the old backups
    /// to compare with, `stamp` names the snapshot of a backup task.
    pub fn arguments(
        &self,
        quiet: bool,
        dry_run: bool,
        compare_dirs: &Vec<String>,
        stamp: &str,
    ) -> (args: Vec<String>)
        ensures
            args.deep_view() == arguments(
                self@,
                quiet,
                dry_run,
                compare_dirs.deep_view(),
                stamp@,
            ),
    {
        let config = self.config();
        let ghost task = self@;
        let mut args: Vec<String> = Vec::new();
        let ghost mut done: Seq<Seq<char>> = Seq::empty();
        assert(args.deep_view() =~= done);

        push_text(&mut args, "--exclude");
        push_text(&mut args, ".*");
        proof {
            done = seq!["--exclude"@, ".*"@];
            assert(args.deep_view() =~= done);
        }
        push_text(&mut args, if config.is_update {
            "-ru"
        } else {
            "-rt"
        });
        proof {
            done = done + seq![
                if task.is_update {
                    "-ru"@
                } else {
                    "-rt"@
                },
            ];
        }
        if !quiet {
            push_text(&mut args, "-h");
            push_text(&mut args, "--progress");
            push_text(&mut args, "--verbose");
        }
        proof {
            let next = done + arguments_if(!quiet, seq!["-h"@, "--progress"@, "--verbose"@]);
            assert(args.deep_view() =~= next);
            done = next;
        }
        push_optional(&mut args, "--files-from=", config.files_from.as_str());
        push_optional(&mut args, "--exclude-from=", config.exclude_from.as_str());
        push_optional(&mut args, "--include-from=", config.include_from.as_str());
        proof {
            done = done + optional_argument("--files-from="@, task.files_from) + optional_argument(
                "--exclude-from="@,
                task.exclude_from,
            ) + optional_argument("--include-from="@, task.include_from);
        }
        if config.exclude_others {
            push_text(&mut args, "--exclude");
            push_text(&mut args, "*");
        }
        proof {
            let next = done + arguments_if(task.exclude_others, seq!["--exclude"@, "*"@]);
            assert(args.deep_view() =~= next);
            done = next;
        }
        push_each(&mut args, "--link-dest=", &config.link_dest);
        push_each(&mut args, "--compare-dest=", &config.compare_dest);
        proof {
            done = done + list_arguments("--link-dest="@, task.link_dest) + list_arguments(
                "--compare-dest="@,
                task.compare_dest,
            );
        }
        if config.compare_paths {
            push_each(&mut args, "--compare-dest=", compare_dirs);
        }
        proof {
            let next = done + arguments_if(
                task.compare_paths,
                list_arguments("--compare-dest="@, compare_dirs.deep_view()),
            );
            assert(args.deep_view() =~= next);
            done = next;
        }
        if dry_run {
            push_text(&mut args, "--dry-run");
        }
        proof {
            let next = done + arguments_if(dry_run, seq!["--dry-run"@]);
            assert(args.deep_view() =~= next);
            done = next;
        }
        push_text(&mut args, config.src.as_str());
        if config.is_update {
            push_text(&mut args, config.dst.as_str());
        } else {
            let mut path = String::from_str(config.dst.as_str());
            path.append("/");
            path.append(stamp);
            push_text(&mut args, path.as_str());
        }
        proof {
            done = done + seq![task.src] + seq![target(task, stamp@)];
        }
        args
    }
}

/// Why a task could not be run, or how its run failed.
#[derive(Debug, Clone, PartialEq, Eq)]
pub enum InvocationError {
    /// The backup directory could not be listed; the reason is attached.
    ListingFailed(String),
    /// The clock could not be read.
    ClockFailed,
    /// The clock gave a text that cannot name a snapshot; it is attached.
    BadTimestamp(String),
    /// The tool could not be started or awaited; the reason is attached.
    LaunchFailed(String),
    /// The tool ended with this status, which is not zero.
    ExitCode(i32),
    /// The tool was ended by a signal and left no status.
    Terminated,
}

/// The mathematical content of an [`InvocationError`].
pub enum InvocationErrorView {
    ListingFailed(Seq<char>),
    ClockFailed,
    BadTimestamp(Seq<char>),
    LaunchFailed(Seq<char>),
    ExitCode(i32),
    Terminated,
}

impl View for InvocationError {
    type V = InvocationErrorView;

    open spec fn view(&self) -> InvocationErrorView {
        match self {
            InvocationError::ListingFailed(why) => InvocationErrorView::ListingFailed(why@),
            InvocationError::ClockFailed => InvocationErrorView::ClockFailed,
            InvocationError::BadTimestamp(stamp) => InvocationErrorView::BadTimestamp(stamp@),
            InvocationError::LaunchFailed(why) => InvocationErrorView::LaunchFailed(why@),
            InvocationError::ExitCode(code) => InvocationErrorView::ExitCode(*code),
            InvocationError::Terminated => InvocationErrorView::Terminated,
        }
    }
}

impl InvocationErrorView {
    /// The failure in words.
    pub open spec fn text(self) -> Seq<char> {
        match self {
            InvocationErrorView::ListingFailed(why) => "Failed to read backup directory: "@ + why,
            InvocationErrorView::ClockFailed => "Failed to read the clock"@,
            InvocationErrorView::BadTimestamp(stamp) => "Unusable time stamp: "@ + stamp,
            InvocationErrorView::LaunchFailed(why) => "Failed to run rsync: "@ + why,
            InvocationErrorView::ExitCode(code) => "rsync failed with exit code "@ + signed_decimal(
                code as int,
            ),
            InvocationErrorView::Terminated => "rsync failed with exit code unknown"@,
        }
    }
}

impl InvocationError {
    /// The failure in words.
    pub fn message(&self) -> (text: String)
        ensures
            text@ == self@.text(),
    {
        match self {
            InvocationError::ListingFailed(why) => String::from_str(
                "Failed to read backup directory: ",
            ).concat(why.as_str()),
            InvocationError::ClockFailed => String::from_str("Failed to read the clock"),
            InvocationError::BadTimestamp(stamp) => String::from_str(
                "Unusable time stamp: ",
            ).concat(stamp.as_str()),
            InvocationError::LaunchFailed(why) => String::from_str("Failed to run rsync: ").concat(
                why.as_str(),
            ),
            InvocationError::ExitCode(code) => {
                let mut text = String::from_str("rsync failed with exit code ");
                push_signed_decimal(&mut text, *code);
                text
            },
            InvocationError::Terminated => String::from_str("rsync failed with exit code unknown"),
        }
    }
}

/// What to do with a composed argument list.
#[derive(Debug, Clone, PartialEq, Eq)]
pub enum Invocation {
    /// Show the arguments and count the task as done; nothing is run.
    Show(Vec<String>),
    /// Run the tool with the arguments and wait for it.
    Launch(Vec<String>),
}

/// The mathematical content of an [`Invocation`].
pub enum InvocationView {
    Show(Seq<Seq<char>>),
    Launch(Seq<Seq<char>>),
}

impl View for Invocation {
    type V = InvocationView;

    open spec fn view(&self) -> InvocationView {
        match self {
            Invocation::Show(args) => InvocationView::Show(args.deep_view()),
            Invocation::Launch(args) => InvocationView::Launch(args.deep_view()),
        }
    }
}

/// The mathematical content of a directory listing that may have failed.
pub open spec fn listing_view(listing: Result<Vec<DirEntry>, String>) -> Result<
    Seq<(Seq<char>, bool)>,
    Seq<char>,
> {
    match listing {
        Ok(entries) => Ok(entries.deep_view()),
        Err(why) => Err(why@),
    }
}

/// The mathematical content of a prepared invocation.
pub open spec fn prepared_view(result: Result<Invocation, InvocationError>) -> Result<
    InvocationView,
    InvocationErrorView,
> {
    match result {
        Ok(invocation) => Ok(invocation@),
        Err(error) => Err(error@),
    }
}

/// What is to be done for `task`. A task that compares with old backups
/// needs the listing of its backup directory and takes the directories in
/// it; a backup task needs a well-formed `stamp`. With `flags.debug` the
/// arguments are shown, otherwise the tool is run with them.
pub open spec fn plan(
    task: TaskModel,
    flags: RunFlags,
    listing: Result<Seq<(Seq<char>, bool)>, Seq<char>>,
    stamp: Seq<char>,
) -> Result<InvocationView, InvocationErrorView> {
    if task.compare_paths && listing is Err {
        Err(InvocationErrorView::ListingFailed(listing->Err_0))
    } else if !task.is_update && !is_timestamp(stamp) {
        Err(InvocationErrorView::BadTimestamp(stamp))
    } else {
        let compare_dirs = if task.compare_paths {
            directories(listing->Ok_0)
        } else {
            Seq::empty()
        };
        let args = arguments(task, flags.quiet, flags.dry_run, compare_dirs, stamp);
        if flags.debug {
            Ok(InvocationView::Show(args))
        } else {
            Ok(InvocationView::Launch(args))
        }
    }
}

/// What becomes of a backup task when the clock cannot be read: a listing
/// that failed still counts first, for a task that compares with old
/// backups.
pub open spec fn without_clock(
    task: TaskModel,
    listing: Result<Seq<(Seq<char>, bool)>, Seq<char>>,
) -> InvocationErrorView {
    if task.compare_paths && listing is Err {
        InvocationErrorView::ListingFailed(listing->Err_0)
    } else {
        InvocationErrorView::ClockFailed
    }
}

/// `SystemTime::duration_since`, on `SystemTime::now()` and `UNIX_EPOCH`:
/// the whole seconds that have passed since the start of 1970, or `None` if
/// the system clock stands before it. Nothing is claimed of the number.
#[verifier::external_body]
fn unix_seconds() -> (seconds: Option<u64>) {
    match std::time::SystemTime::now().duration_since(std::time::UNIX_EPOCH) {
        Ok(elapsed) => Some(elapsed.as_secs()),
        Err(_) => None,
    }
}

/// `chrono::DateTime::from_timestamp`, `DateTime::with_timezone` with
/// `chrono::Local`, and `DateTime::format` with the pattern
/// `%Y-%m-%d--%H_%M`: the local time at `seconds` after the start of 1970
/// as text, or `None` if chrono cannot hold that time. Nothing is claimed of
/// the text: it depends on the time zone of the machine, and chrono writes a
/// year outside 0 to 9999 with a sign and more digits; callers check its
/// shape. chrono unwraps what it finds for the local zone; by its source
/// that fails only on time zone data that is out of range.
#[verifier::external_body]
fn local_stamp(seconds: i64) -> (stamp: Option<String>) {
    match chrono::DateTime::from_timestamp(seconds, 0) {
        Some(utc) => Some(utc.with_timezone(&chrono::Local).format("%Y-%m-%d--%H_%M").to_string()),
        None => None,
    }
}

/// The present local time as text, if the clock can be read.
fn current_stamp() -> (stamp: Option<String>) {
    match unix_seconds() {
        Some(seconds) => {
            if seconds <= 0x7fff_ffff_ffff_ffff {
                local_stamp(seconds as i64)
            } else {
                None
            }
        },
        None => None,
    }
}

impl Task {
    /// Decides what is to be done for the task at the time that `stamp`
    /// stands for. `listing` is what reading the backup directory gave; it
    /// is looked at only by a task that compares with old backups.
    pub fn prepare_at(
        &self,
        flags: RunFlags,
        listing: Result<Vec<DirEntry>, String>,
        stamp: &str,
    ) -> (result: Result<Invocation, InvocationError>)
        ensures
            prepared_view(result) == plan(self@, flags, listing_view(listing), stamp@),
    {
        let compare = self.compares_with_backups();
        let compare_dirs = match listing {
            Err(why) => {
                if compare {
                    return Err(InvocationError::ListingFailed(why));
                }
                Vec::new()
            },
            Ok(entries) => {
                if compare {
                    directory_paths(&entries)
                } else {
                    Vec::new()
                }
            },
        };
        if !self.is_update_task() && !has_timestamp_shape(stamp) {
            return Err(InvocationError::BadTimestamp(String::from_str(stamp)));
        }
        let args = self.arguments(flags.quiet, flags.dry_run, &compare_dirs, stamp);
        proof {
            if !compare {
                assert(compare_dirs.deep_view() =~= Seq::<Seq<char>>::empty());
                assert(arguments(
                    self@,
                    flags.quiet,
                    flags.dry_run,
                    compare_dirs.deep_view(),
                    stamp@,
                ) == arguments(self@, flags.quiet, flags.dry_run, Seq::empty(), stamp@));
            }
        }
        if flags.debug {
            Ok(Invocation::Show(args))
        } else {
            Ok(Invocation::Launch(args))
        }
    }

    /// Decides what is to be done for the task now. A backup task takes
    /// the name of its snapshot from the local time, and fails if the clock
    /// cannot be read or gives no usable name; an update task does not look
    /// at the clock.
    pub fn prepare(&self, flags: RunFlags, listing: Result<Vec<DirEntry>, String>) -> (result:
        Result<Invocation, InvocationError>)
        ensures
            self@.is_update ==> prepared_view(result) == plan(
                self@,
                flags,
                listing_view(listing),
                Seq::empty(),
            ),
            !self@.is_update ==> prepared_view(result) == Err::<
                InvocationView,
                InvocationErrorView,
            >(without_clock(self@, listing_view(listing))) || exists|stamp: Seq<char>|
                prepared_view(result) == #[trigger] plan(
                    self@,
                    flags,
                    listing_view(listing),
                    stamp,
                ),
    {
        if self.is_update_task() {
            let result = self.prepare_at(flags, listing, "");
            proof {
                reveal_strlit("");
                assert(""@ =~= Seq::<char>::empty());
            }
            result
        } else {
            match current_stamp() {
                Some(stamp) => {
                    let result = self.prepare_at(flags, listing, stamp.as_str());
                    assert(prepared_view(result) == plan(
                        self@,
                        flags,
                        listing_view(listing),
                        stamp@,
                    ));
                    result
                },
                None => {
                    let compare = self.compares_with_backups();
                    match listing {
                        Err(why) => {
                            if compare {
                                Err(InvocationError::ListingFailed(why))
                            } else {
                                Err(InvocationError::ClockFailed)
                            }
                        },
                        Ok(_) => Err(InvocationError::ClockFailed),
                    }
                },
            }
        }
    }
}

/// How the tool ended.
#[derive(Debug, Clone, PartialEq, Eq)]
pub enum ProcessOutcome {
    /// It ran and left this exit status.
    Exited(i32),
    /// It was ended by a signal.
    Signalled,
    /// It could not be started or awaited; the reason is attached.
    LaunchFailed(String),
}

/// The mathematical content of a [`ProcessOutcome`].
pub enum ProcessOutcomeView {
    Exited(i32),
    Signalled,
    LaunchFailed(Seq<char>),
}

impl View for ProcessOutcome {
    type V = ProcessOutcomeView;

    open spec fn view(&self) -> ProcessOutcomeView {
        match self {
            ProcessOutcome::Exited(code) => ProcessOutcomeView::Exited(*code),
            ProcessOutcome::Signalled => ProcessOutcomeView::Signalled,
            ProcessOutcome::LaunchFailed(why) => ProcessOutcomeView::LaunchFailed(why@),
        }
    }
}

/// The failure that an outcome amounts to, if any: only exit status zero is
/// success.
pub open spec fn failure_of(outcome: ProcessOutcomeView) -> Option<InvocationErrorView> {
    match outcome {
        ProcessOutcomeView::Exited(code) => if code == 0 {
            None
        } else {
            Some(InvocationErrorView::ExitCode(code))
        },
        ProcessOutcomeView::Signalled => Some(InvocationErrorView::Terminated),
        ProcessOutcomeView::LaunchFailed(why) => Some(InvocationErrorView::LaunchFailed(why)),
    }
}

/// Judges how the tool ended.
pub fn judge(outcome: ProcessOutcome) -> (result: Result<(), InvocationError>)
    ensures
        match failure_of(outcome@) {
            None => result is Ok,
            Some(error) => result is Err && result->Err_0@ == error,
        },
{
    match outcome {
        ProcessOutcome::Exited(code) => {
            if code == 0 {
                Ok(())
            } else {
                Err(InvocationError::ExitCode(code))
            }
        },
        ProcessOutcome::Signalled => Err(InvocationError::Terminated),
        ProcessOutcome::LaunchFailed(why) => Err(InvocationError::LaunchFailed(why)),
    }
}

/// The words of `words`, each with a space before it.
pub open spec fn spaced(words: Seq<Seq<char>>) -> Seq<char>
    decreases words.len(),
{
    if words.len() == 0 {
        Seq::empty()
    } else {
        spaced(words.drop_last()) + seq![' '] + words.last()
    }
}

/// The line that shows an argument list in place of a run.
pub fn debug_line(args: &Vec<String>) -> (line: String)
    ensures
        line@ == "DEBUG: rsync"@ + spaced(args.deep_view()),
{
    let ghost all = args.deep_view();
    let mut line = String::from_str("DEBUG: rsync");
    let mut i: usize = 0;
    assert(line@ =~= "DEBUG: rsync"@ + spaced(all.take(0)));
    while i < args.len()
        invariant
            i <= args.len(),
            all == args.deep_view(),
            line@ == "DEBUG: rsync"@ + spaced(all.take(i as int)),
        decreases args.len() - i,
    {
        line.append(" ");
        line.append(args[i].as_str());
        proof {
            reveal_strlit(" ");
            let part = all.take(i + 1);
            assert(part.drop_last() =~= all.take(i as int));
            assert(part.last() == args[i as int]@);
            assert(" "@ =~= seq![' ']);
            assert(line@ =~= "DEBUG: rsync"@ + spaced(part));
        }
        i += 1;
    }
    assert(all.take(i as int) =~= all);
    line
}

/// The arguments of an update task do not depend on the time.
pub proof fn lemma_update_ignores_stamp(
    task: TaskModel,
    quiet: bool,
    dry_run: bool,
    compare_dirs: Seq<Seq<char>>,
    stamp: Seq<char>,
    other: Seq<char>,
)
    requires
        task.is_update,
    ensures
        arguments(task, quiet, dry_run, compare_dirs, stamp) == arguments(
            task,
            quiet,
            dry_run,
            compare_dirs,
            other,
        ),
{
}

/// Two argument lists composed from the same task, flags and directories
/// agree in everything but their last entry, which is the target: for a
/// backup task the destination, a slash and the time stamp.
pub proof fn lemma_only_target_depends_on_stamp(
    task: TaskModel,
    quiet: bool,
    dry_run: bool,
    compare_dirs: Seq<Seq<char>>,
    stamp: Seq<char>,
    other: Seq<char>,
)
    ensures
        arguments(task, quiet, dry_run, compare_dirs, stamp).drop_last() == arguments(
            task,
            quiet,
            dry_run,
            compare_dirs,
            other,
        ).drop_last(),
        arguments(task, quiet, dry_run, compare_dirs, stamp).last() == target(task, stamp),
        !task.is_update ==> target(task, stamp) == task.dst + "/"@ + stamp,
{
    let front = arguments(task, quiet, dry_run, compare_dirs, stamp).drop_last();
    let other_front = arguments(task, quiet, dry_run, compare_dirs, other).drop_last();
    assert(front =~= other_front);
}

} // verus!
