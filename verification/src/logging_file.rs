//! The rolling log writer: a set of output files, one per category, that is
//! replaced as a whole when a file grows past the configured size, when the
//! roll interval passes, or when an external rotation signal arrives.
//!
//! The writer here is the decision-and-accounting core: it owns the model
//! of every open file (category, path, bytes written, and the lines it
//! holds) and says exactly which file each record lands in and when the set
//! is replaced. The host owns the matching OS handles, one per file in set
//! order: it performs the exclusive creates, appends and flushes, attempts
//! a create wherever the writer decides to rotate, and reports whether that
//! attempt succeeded (`open_ok`).

use vstd::prelude::*;
use vstd::string::StringExecFns;

use crate::clock;
use crate::clock::MAX_TIME_MILLIS;
use crate::config::CommonConfig;

verus! {

/// Rotation size a program gets when it does not choose one: 2 GB.
pub const DEFAULT_ROLL_SIZE: usize = 2_000_000_000;

/// Rotation interval a program gets when it does not choose one: one day.
pub const DEFAULT_ROLL_INTERVAL_MILLIS: i64 = 86_400_000;

/// One configured output stream: the category it serves, the directory its
/// files are created in, and the ending of their names.
#[verifier::ext_equal]
pub struct OutputView {
    pub target: Seq<char>,
    pub directory: Seq<char>,
    pub postfix: Seq<char>,
}

/// One open output file: its category, its path, the bytes written to it,
/// and the lines it holds, in the order they were written.
#[verifier::ext_equal]
pub struct FileView {
    pub target: Seq<char>,
    pub path: Seq<char>,
    pub bytes: nat,
    pub lines: Seq<Seq<char>>,
}

/// The rotation configuration: file name stem, size and interval limits,
/// and the configured outputs in routing order.
#[verifier::ext_equal]
pub struct RollerConfigView {
    pub base_name: Seq<char>,
    pub roll_size: nat,
    pub roll_interval: int,
    pub outputs: Seq<OutputView>,
}

/// The currently open file set: valid until `write_until`, one file per
/// configured output, in the same order.
#[verifier::ext_equal]
pub struct FileSetView {
    pub write_until: int,
    pub files: Seq<FileView>,
}

/// The whole writer: its configuration and its current file set.
#[verifier::ext_equal]
pub struct RollerView {
    pub config: RollerConfigView,
    pub writer: FileSetView,
}

/// How many bytes a line occupies in a file.
pub open spec fn byte_len(line: Seq<char>) -> nat {
    vstd::utf8::encode_utf8(line).len()
}

/// The name of a file opened at the instant with minute stamp `stamp`:
/// `<directory>/<stamp>-<base_name><postfix>.log`.
pub open spec fn path_of(o: OutputView, base_name: Seq<char>, stamp: Seq<char>) -> Seq<char> {
    o.directory + "/"@ + stamp + "-"@ + base_name + o.postfix + ".log"@
}

/// The files of a set opened at `now`: one fresh, empty file per output.
pub open spec fn fresh_files(c: RollerConfigView, now: int) -> Seq<FileView> {
    Seq::new(
        c.outputs.len(),
        |i: int|
            FileView {
                target: c.outputs[i].target,
                path: path_of(c.outputs[i], c.base_name, clock::minute_stamp(now)),
                bytes: 0,
                lines: Seq::empty(),
            },
    )
}

/// A whole file set opened at `now`, valid until the next interval boundary.
pub open spec fn fresh_set(c: RollerConfigView, now: int) -> FileSetView {
    FileSetView { write_until: clock::roll_time(now, c.roll_interval), files: fresh_files(c, now) }
}

/// The first index whose file serves `target`, or -1 when none does.
pub open spec fn find_target(files: Seq<FileView>, target: Seq<char>) -> int
    decreases files.len(),
{
    if files.len() == 0 {
        -1
    } else if files[0].target == target {
        0
    } else {
        let r = find_target(files.drop_first(), target);
        if r < 0 {
            -1
        } else {
            1 + r
        }
    }
}

/// Where a record with category `target` lands: the first file serving the
/// category exactly, or the last file of the set as the catch-all.
pub open spec fn route(files: Seq<FileView>, target: Seq<char>) -> int {
    if find_target(files, target) >= 0 {
        find_target(files, target)
    } else {
        files.len() - 1
    }
}

/// `find_target` names the first match, and -1 only when nothing matches.
pub proof fn lemma_find_target(files: Seq<FileView>, target: Seq<char>)
    ensures
        find_target(files, target) == -1 || 0 <= find_target(files, target) < files.len(),
        find_target(files, target) == -1 ==> forall|k: int|
            0 <= k < files.len() ==> files[k].target != target,
        find_target(files, target) >= 0 ==> files[find_target(files, target)].target == target,
        find_target(files, target) >= 0 ==> forall|k: int|
            0 <= k < find_target(files, target) ==> files[k].target != target,
    decreases files.len(),
{
    if files.len() == 0 {
    } else if files[0].target == target {
    } else {
        lemma_find_target(files.drop_first(), target);
        assert forall|k: int| 1 <= k < files.len() implies files[k] == files.drop_first()[k - 1] by {}
    }
}

/// A route decided by the categories alone: two file sequences whose
/// categories agree in order route every record alike.
pub proof fn lemma_route_by_targets(a: Seq<FileView>, b: Seq<FileView>, target: Seq<char>)
    requires
        a.len() == b.len(),
        forall|k: int| 0 <= k < a.len() ==> a[k].target == b[k].target,
    ensures
        find_target(a, target) == find_target(b, target),
        route(a, target) == route(b, target),
    decreases a.len(),
{
    if a.len() == 0 {
    } else if a[0].target == target {
    } else {
        lemma_route_by_targets(a.drop_first(), b.drop_first(), target);
    }
}

impl RollerConfigView {
    /// A usable rotation configuration: at least one output to fall back
    /// on, and an interval the time arithmetic can work with.
    pub open spec fn wf(&self) -> bool {
        &&& 1 <= self.outputs.len()
        &&& 0 < self.roll_interval <= MAX_TIME_MILLIS as int
    }
}

impl RollerView {
    /// The writer's invariant: a usable configuration, and one open file
    /// per configured output, serving the same category in the same order.
    pub open spec fn wf(&self) -> bool {
        &&& self.config.wf()
        &&& self.writer.files.len() == self.config.outputs.len()
        &&& forall|k: int|
            0 <= k < self.writer.files.len() ==> self.writer.files[k].target
                == self.config.outputs[k].target
    }
}

/// A freshly opened set keeps the writer well-formed.
pub proof fn lemma_fresh_set_wf(c: RollerConfigView, now: int)
    requires
        c.wf(),
    ensures
        (RollerView { config: c, writer: fresh_set(c, now) }).wf(),
{
}

/// One configured output stream of the rolling writer.
pub struct LogFileConfig {
    target: String,
    directory: String,
    postfix: String,
}

impl View for LogFileConfig {
    type V = OutputView;

    closed spec fn view(&self) -> OutputView {
        OutputView { target: self.target@, directory: self.directory@, postfix: self.postfix@ }
    }
}

impl LogFileConfig {
    /// An output stream serving `target`, writing into `directory`, with
    /// file names ending in `postfix`.
    pub fn new(target: &str, directory: &str, postfix: &str) -> (r: LogFileConfig)
        ensures
            r@ == (OutputView { target: target@, directory: directory@, postfix: postfix@ }),
    {
        LogFileConfig {
            target: target.to_owned(),
            directory: directory.to_owned(),
            postfix: postfix.to_owned(),
        }
    }

    /// The path of the file a set opened at the instant stamped `stamp`
    /// uses for this output.
    pub fn get_new_file_path(&self, base_name: &str, stamp: &str) -> (p: String)
        ensures
            p@ == path_of(self@, base_name@, stamp@),
    {
        let mut p = self.directory.clone();
        p.append("/");
        p.append(stamp);
        p.append("-");
        p.append(base_name);
        p.append(self.postfix.as_str());
        p.append(".log");
        proof {
            assert(p@ =~= path_of(self@, base_name@, stamp@));
        }
        p
    }
}

/// The rotation configuration, immutable for the process lifetime: the
/// rotation signal and the triggers change files, never the configuration.
pub struct LogRollerConfig {
    pub base_name: String,
    pub roll_size: usize,
    /// Rotation interval in milliseconds.
    pub roll_interval: i64,
    pub outputs: Vec<LogFileConfig>,
}

impl View for LogRollerConfig {
    type V = RollerConfigView;

    open spec fn view(&self) -> RollerConfigView {
        RollerConfigView {
            base_name: self.base_name@,
            roll_size: self.roll_size as nat,
            roll_interval: self.roll_interval as int,
            outputs: self.outputs@.map_values(|o: LogFileConfig| o@),
        }
    }
}

/// One open output file of the current set. The host owns the matching OS
/// handle; the writer owns the category, the path, and the accounting.
pub struct LogFile {
    target: String,
    path: String,
    bytes_written: usize,
    lines: Ghost<Seq<Seq<char>>>,
}

impl View for LogFile {
    type V = FileView;

    closed spec fn view(&self) -> FileView {
        FileView {
            target: self.target@,
            path: self.path@,
            bytes: self.bytes_written as nat,
            lines: self.lines@,
        }
    }
}

/// A line landing in a file: its bytes are accounted to the file and the
/// line joins the file's contents.
pub open spec fn file_after_write(f: FileView, line: Seq<char>) -> FileView {
    FileView { bytes: f.bytes + byte_len(line), lines: f.lines.push(line), ..f }
}

impl LogFile {
    /// Accounts one line to this file. The host appends the same bytes to
    /// the matching OS handle.
    fn write_all(&mut self, line: &str)
        requires
            old(self)@.bytes + byte_len(line@) <= usize::MAX,
        ensures
            final(self)@ == file_after_write(old(self)@, line@),
    {
        self.bytes_written = self.bytes_written + line.len();
        let ghost new_lines = self.lines@.push(line@);
        self.lines = Ghost(new_lines);
    }
}

/// The currently open file set: one file per configured output, valid
/// until the next interval boundary.
pub struct RotatingLogFiles {
    write_until: i64,
    log_files: Vec<LogFile>,
}

impl View for RotatingLogFiles {
    type V = FileSetView;

    closed spec fn view(&self) -> FileSetView {
        FileSetView {
            write_until: self.write_until as int,
            files: self.log_files@.map_values(|f: LogFile| f@),
        }
    }
}

impl RotatingLogFiles {
    /// Flushing pushes buffered bytes to the OS on the host's handles; it
    /// changes nothing the writer sees and never fails the caller.
    pub fn flush(&mut self)
        ensures
            final(self)@ == old(self)@,
    {
    }
}

impl LogRollerConfig {
    /// The instant the next file set stops being valid: the first interval
    /// boundary after `now`.
    pub fn calc_roll_time(&self, now: i64) -> (t: i64)
        requires
            self@.wf(),
            0 <= now <= MAX_TIME_MILLIS,
        ensures
            t == clock::roll_time(now as int, self@.roll_interval),
    {
        proof {
            clock::lemma_roll_time_bounds(now as int, self@.roll_interval);
        }
        let rem = ((now as u64) % (self.roll_interval as u64)) as i64;
        now - rem + self.roll_interval
    }

    /// The file names a set opened at `now` uses, one per output, in
    /// output order.
    pub fn new_file_paths(&self, now: i64) -> (v: Vec<String>)
        requires
            0 <= now <= MAX_TIME_MILLIS,
        ensures
            v@.len() == self@.outputs.len(),
            forall|k: int|
                0 <= k < v@.len() ==> v@[k]@ == path_of(
                    self@.outputs[k],
                    self@.base_name,
                    clock::minute_stamp(now as int),
                ),
    {
        let stamp = clock::minute_stamp_str(now);
        let mut v: Vec<String> = Vec::new();
        let mut i: usize = 0;
        while i < self.outputs.len()
            invariant
                i <= self.outputs.len(),
                0 <= now <= MAX_TIME_MILLIS,
                stamp@ == clock::minute_stamp(now as int),
                v@.len() == i,
                forall|k: int|
                    0 <= k < i ==> v@[k]@ == path_of(
                        self@.outputs[k],
                        self@.base_name,
                        clock::minute_stamp(now as int),
                    ),
            decreases self.outputs.len() - i,
        {
            let p = self.outputs[i].get_new_file_path(self.base_name.as_str(), stamp.as_str());
            v.push(p);
            i = i + 1;
        }
        v
    }

    /// A freshly opened file set for `now`: empty files under new names,
    /// valid until the next interval boundary. The host creates the real
    /// files at exactly these paths, exclusively, before this set is put
    /// to use.
    pub fn create_log_writer(&self, now: i64) -> (w: RotatingLogFiles)
        requires
            self@.wf(),
            0 <= now <= MAX_TIME_MILLIS,
        ensures
            w@ == fresh_set(self@, now as int),
    {
        let stamp = clock::minute_stamp_str(now);
        let mut log_files: Vec<LogFile> = Vec::new();
        let mut i: usize = 0;
        while i < self.outputs.len()
            invariant
                i <= self.outputs.len(),
                0 <= now <= MAX_TIME_MILLIS,
                stamp@ == clock::minute_stamp(now as int),
                log_files@.len() == i,
                forall|k: int|
                    0 <= k < i ==> log_files@.map_values(|f: LogFile| f@)[k] == fresh_files(
                        self@,
                        now as int,
                    )[k],
            decreases self.outputs.len() - i,
        {
            let o = &self.outputs[i];
            let path = o.get_new_file_path(self.base_name.as_str(), stamp.as_str());
            log_files.push(
                LogFile {
                    target: o.target.clone(),
                    path,
                    bytes_written: 0,
                    lines: Ghost(Seq::empty()),
                },
            );
            i = i + 1;
        }
        let t = self.calc_roll_time(now);
        let w = RotatingLogFiles { write_until: t, log_files };
        proof {
            assert(w@.files =~= fresh_files(self@, now as int));
            assert(w@ =~= fresh_set(self@, now as int));
        }
        w
    }
}

/// The rotation request raised by the outside world. In a running process
/// the OS signal handler's entire body is one atomic store of `true`,
/// mirrored here by `request`; the writer polls and clears the flag with
/// `take_and_clear` at the start of each batch, on its own thread, never
/// inside the handler.
pub struct RotationFlag {
    requested: bool,
}

impl RotationFlag {
    /// Whether a rotation has been requested and not yet observed.
    pub closed spec fn spec_requested(&self) -> bool {
        self.requested
    }

    /// A fresh flag: no rotation requested.
    pub fn new() -> (f: RotationFlag)
        ensures
            !f.spec_requested(),
    {
        RotationFlag { requested: false }
    }

    /// Raises the flag. This is all a rotation request does.
    pub fn request(&mut self)
        ensures
            final(self).spec_requested(),
    {
        self.requested = true;
    }

    /// Reads the flag without clearing it.
    pub fn requested(&self) -> (b: bool)
        ensures
            b == self.spec_requested(),
    {
        self.requested
    }

    /// Observes and clears the flag in one step: returns what it read,
    /// leaves it lowered.
    pub fn take_and_clear(&mut self) -> (was: bool)
        ensures
            was == old(self).spec_requested(),
            !final(self).spec_requested(),
    {
        let was = self.requested;
        self.requested = false;
        was
    }
}

/// What a rotation check leaves behind: a fresh set when a trigger fired
/// and the new files could be opened; the old set, with its deadline
/// pushed to the next boundary, when the time trigger fired but opening
/// failed; the old set untouched otherwise. The signal trigger is looked
/// at first, then the time trigger; one rotation at most per check.
pub open spec fn spec_check_roll(v: RollerView, flag: bool, now: int, open_ok: bool) -> RollerView {
    if flag {
        if open_ok {
            RollerView { config: v.config, writer: fresh_set(v.config, now) }
        } else {
            v
        }
    } else if now > v.writer.write_until {
        if open_ok {
            RollerView { config: v.config, writer: fresh_set(v.config, now) }
        } else {
            RollerView {
                config: v.config,
                writer: FileSetView {
                    write_until: clock::roll_time(now, v.config.roll_interval),
                    files: v.writer.files,
                },
            }
        }
    } else {
        v
    }
}

/// Whether a rotation check replaces the file set.
pub open spec fn check_rolls(v: RollerView, flag: bool, now: int, open_ok: bool) -> bool {
    (flag || now > v.writer.write_until) && open_ok
}

/// The set after a line lands in file `i`.
pub open spec fn set_after_write(s: FileSetView, i: int, line: Seq<char>) -> FileSetView {
    FileSetView {
        write_until: s.write_until,
        files: s.files.update(i, file_after_write(s.files[i], line)),
    }
}

/// The set after file `i`'s byte count is halved: the fallback when a
/// size-triggered rotation cannot open new files, postponing the next
/// attempt instead of retrying on every line.
pub open spec fn halve_file(s: FileSetView, i: int) -> FileSetView {
    FileSetView {
        write_until: s.write_until,
        files: s.files.update(
            i,
            FileView { bytes: s.files[i].bytes / 2, ..s.files[i] },
        ),
    }
}

/// Whether writing `line` would push its file past the size limit, so the
/// set must be replaced before the write.
pub open spec fn write_rolls(v: RollerView, target: Seq<char>, line: Seq<char>) -> bool {
    v.writer.files[route(v.writer.files, target)].bytes + byte_len(line) > v.config.roll_size
}

/// What one written line leaves behind: the line lands in its routed file;
/// when it would not fit, the whole set is first replaced (or, failing
/// that, the over-limit file's count is halved), and the line lands in the
/// same position of the set that resulted.
pub open spec fn spec_write_line(
    v: RollerView,
    target: Seq<char>,
    line: Seq<char>,
    now: int,
    open_ok: bool,
) -> RollerView
    recommends
        v.wf(),
{
    let i = route(v.writer.files, target);
    if !write_rolls(v, target, line) {
        RollerView { config: v.config, writer: set_after_write(v.writer, i, line) }
    } else if open_ok {
        RollerView { config: v.config, writer: set_after_write(fresh_set(v.config, now), i, line) }
    } else {
        RollerView { config: v.config, writer: set_after_write(halve_file(v.writer, i), i, line) }
    }
}

/// The rolling writer: the one owner of the current file set. Only the
/// host's single logging worker drives it, so no internal locking exists;
/// the one concurrently touched datum is the rotation flag.
pub struct LogRoller {
    config: LogRollerConfig,
    writer: RotatingLogFiles,
}

impl View for LogRoller {
    type V = RollerView;

    closed spec fn view(&self) -> RollerView {
        RollerView { config: self.config@, writer: self.writer@ }
    }
}

impl LogRoller {
    /// A writer over a freshly opened first set. The host creates the
    /// real files (exclusively, all or nothing) at this set's paths before
    /// the writer is put to use; when any create fails, no writer is built
    /// and the host reports the failure instead.
    pub fn new(config: LogRollerConfig, now: i64) -> (r: LogRoller)
        requires
            config@.wf(),
            0 <= now <= MAX_TIME_MILLIS,
        ensures
            r@.config == config@,
            r@.writer == fresh_set(config@, now as int),
            r@.wf(),
    {
        let writer = config.create_log_writer(now);
        proof {
            lemma_fresh_set_wf(config@, now as int);
        }
        LogRoller { config, writer }
    }

    /// The index of the file a record with category `target` lands in:
    /// the first exact match, or the last file as the catch-all.
    pub fn find_file(&self, target: &str) -> (i: usize)
        requires
            self@.wf(),
        ensures
            i == route(self@.writer.files, target@),
            i < self@.writer.files.len(),
    {
        let t: String = target.to_owned();
        let n = self.writer.log_files.len();
        let mut i: usize = 0;
        while i < n
            invariant
                self@.wf(),
                t@ == target@,
                n == self.writer.log_files@.len(),
                i <= n,
                forall|k: int| 0 <= k < i ==> self@.writer.files[k].target != target@,
            decreases n - i,
        {
            if self.writer.log_files[i].target.eq(&t) {
                proof {
                    let files = self@.writer.files;
                    lemma_find_target(files, target@);
                    assert(files[i as int].target == target@);
                    let ft = find_target(files, target@);
                    if ft == -1 {
                        assert(files[i as int].target != target@);
                    } else if ft < i {
                        assert(files[ft].target != target@);
                    } else if i < ft {
                        assert(files[i as int].target != target@);
                    }
                }
                return i;
            }
            i = i + 1;
        }
        proof {
            lemma_find_target(self@.writer.files, target@);
        }
        n - 1
    }

    /// Whether a rotation check now would replace the set: the flag has
    /// been raised, or `now` lies past the set's deadline. The host asks
    /// this before a batch so it can attempt the creates first.
    pub fn roll_needed(&self, flag: &RotationFlag, now: i64) -> (b: bool)
        ensures
            b == (flag.spec_requested() || now > self@.writer.write_until),
    {
        flag.requested() || now > self.writer.write_until
    }

    /// Whether writing `line` under `target` would push its file past the
    /// size limit, forcing a rotation before the write.
    pub fn size_roll_needed(&self, line: &str, target: &str) -> (b: bool)
        requires
            self@.wf(),
        ensures
            b == write_rolls(self@, target@, line@),
    {
        let idx = self.find_file(target);
        let len = line.as_bytes().len();
        proof {
            assert(self@.writer.files[idx as int] == self.writer.log_files@[idx as int]@);
        }
        !(len <= self.config.roll_size
            && self.writer.log_files[idx].bytes_written <= self.config.roll_size - len)
    }

    /// The file names a rotation at `now` would use, in output order: the
    /// host creates the real files at exactly these paths.
    pub fn rotation_paths(&self, now: i64) -> (v: Vec<String>)
        requires
            0 <= now <= MAX_TIME_MILLIS,
        ensures
            v@.len() == self@.config.outputs.len(),
            forall|k: int|
                0 <= k < v@.len() ==> v@[k]@ == fresh_files(self@.config, now as int)[k].path,
    {
        self.config.new_file_paths(now)
    }

    /// The batch-start rotation check: observes and clears the flag, then
    /// rotates on the signal trigger, else on the time trigger. `open_ok`
    /// reports whether the host could create the new files; when it could
    /// not, the old set stays (the time trigger then pushes the deadline
    /// out rather than retrying on every batch).
    pub fn check_log_roll(&mut self, flag: &mut RotationFlag, now: i64, open_ok: bool) -> (rotated:
        bool)
        requires
            old(self)@.wf(),
            0 <= now <= MAX_TIME_MILLIS,
        ensures
            final(self)@ == spec_check_roll(
                old(self)@,
                old(flag).spec_requested(),
                now as int,
                open_ok,
            ),
            !final(flag).spec_requested(),
            rotated == check_rolls(old(self)@, old(flag).spec_requested(), now as int, open_ok),
            final(self)@.wf(),
            final(self)@.config == old(self)@.config,
    {
        let was = flag.take_and_clear();
        if was {
            if open_ok {
                self.writer = self.config.create_log_writer(now);
                proof {
                    lemma_fresh_set_wf(self.config@, now as int);
                }
                return true;
            }
            return false;
        }
        if now > self.writer.write_until {
            if open_ok {
                self.writer = self.config.create_log_writer(now);
                proof {
                    lemma_fresh_set_wf(self.config@, now as int);
                }
                return true;
            }
            self.writer.write_until = self.config.calc_roll_time(now);
            proof {
                assert(self@ =~= spec_check_roll(
                    old(self)@,
                    old(flag).spec_requested(),
                    now as int,
                    open_ok,
                ));
            }
            return false;
        }
        false
    }

    /// Writes one line: routes it by category, rotates the whole set first
    /// when the line would not fit (`open_ok` again reporting the host's
    /// creates), and accounts the line to its file. Returns whether a
    /// rotation happened and the index the host must append the line's
    /// bytes at. Appending itself is the host's; a failure there is fatal
    /// to the process, as a logging pipeline that cannot write is broken.
    pub fn write_line(&mut self, line: &str, target: &str, now: i64, open_ok: bool) -> (r: (
        bool,
        usize,
    ))
        requires
            old(self)@.wf(),
            0 <= now <= MAX_TIME_MILLIS,
            old(self)@.writer.files[route(old(self)@.writer.files, target@)].bytes + byte_len(
                line@,
            ) <= usize::MAX,
        ensures
            final(self)@ == spec_write_line(old(self)@, target@, line@, now as int, open_ok),
            final(self)@.wf(),
            r.0 == (write_rolls(old(self)@, target@, line@) && open_ok),
            r.1 == route(old(self)@.writer.files, target@),
            r.1 < final(self)@.writer.files.len(),
    {
        let idx = self.find_file(target);
        let len = line.len();
        let fits = len <= self.config.roll_size
            && self.writer.log_files[idx].bytes_written <= self.config.roll_size - len;
        if fits {
            let f = &mut self.writer.log_files[idx];
            f.write_all(line);
            proof {
                assert(self@.writer.files =~= set_after_write(
                    old(self)@.writer,
                    idx as int,
                    line@,
                ).files);
                assert(self@ =~= spec_write_line(old(self)@, target@, line@, now as int, open_ok));
            }
            (false, idx)
        } else {
            if open_ok {
                self.writer = self.config.create_log_writer(now);
                proof {
                    lemma_fresh_set_wf(self.config@, now as int);
                }
            } else {
                let f = &mut self.writer.log_files[idx];
                f.bytes_written = f.bytes_written / 2;
                proof {
                    assert(self@.writer =~= halve_file(old(self)@.writer, idx as int));
                }
            }
            let f = &mut self.writer.log_files[idx];
            f.write_all(line);
            proof {
                assert(self@ =~= spec_write_line(old(self)@, target@, line@, now as int, open_ok));
            }
            (open_ok, idx)
        }
    }
}

/// What one delivered record asks for: a line to write, a flush of the
/// current set, or the final flush at shutdown.
#[derive(Debug, Clone, Copy, PartialEq, Eq, Structural)]
pub enum LogCommand {
    Record,
    Flush,
    Shutdown,
}

/// One delivered record, as the writer sees it.
#[verifier::ext_equal]
pub struct RecordView {
    pub command: LogCommand,
    pub target: Seq<char>,
    pub line: Seq<char>,
}

/// One record of a batch: the command, the category, and the already
/// formatted line.
#[derive(Debug)]
pub struct LogRecord {
    pub command: LogCommand,
    pub target: String,
    pub line: String,
}

impl View for LogRecord {
    type V = RecordView;

    open spec fn view(&self) -> RecordView {
        RecordView { command: self.command, target: self.target@, line: self.line@ }
    }
}

/// What one record of a batch leaves behind: a written line for `Record`,
/// nothing the writer sees for `Flush` and `Shutdown`.
pub open spec fn spec_apply_record(v: RollerView, r: RecordView, now: int, open_ok: bool) -> RollerView {
    match r.command {
        LogCommand::Record => spec_write_line(v, r.target, r.line, now, open_ok),
        LogCommand::Flush => v,
        LogCommand::Shutdown => v,
    }
}

/// A batch's records applied in delivery order.
pub open spec fn spec_apply_records(
    v: RollerView,
    recs: Seq<RecordView>,
    now: int,
    open_ok: bool,
) -> RollerView
    decreases recs.len(),
{
    if recs.len() == 0 {
        v
    } else {
        spec_apply_records(spec_apply_record(v, recs[0], now, open_ok), recs.drop_first(), now, open_ok)
    }
}

/// The byte counter a record's line lands on stays representable.
pub open spec fn record_fits(v: RollerView, r: RecordView) -> bool {
    r.command == LogCommand::Record ==> v.writer.files[route(v.writer.files, r.target)].bytes
        + byte_len(r.line) <= usize::MAX
}

/// `record_fits`, along the whole batch.
pub open spec fn records_fit(v: RollerView, recs: Seq<RecordView>, now: int, open_ok: bool) -> bool
    decreases recs.len(),
{
    recs.len() == 0 || (record_fits(v, recs[0]) && records_fit(
        spec_apply_record(v, recs[0], now, open_ok),
        recs.drop_first(),
        now,
        open_ok,
    ))
}

/// Applying a batch and then one more record is applying the extended
/// batch.
pub proof fn lemma_apply_snoc(
    v: RollerView,
    recs: Seq<RecordView>,
    r: RecordView,
    now: int,
    open_ok: bool,
)
    ensures
        spec_apply_records(v, recs.push(r), now, open_ok) == spec_apply_record(
            spec_apply_records(v, recs, now, open_ok),
            r,
            now,
            open_ok,
        ),
    decreases recs.len(),
{
    let s = recs.push(r);
    if recs.len() == 0 {
        assert(s[0] == r);
        assert(s.drop_first() =~= Seq::<RecordView>::empty());
        assert(spec_apply_records(v, recs, now, open_ok) == v);
        assert(spec_apply_records(v, s, now, open_ok) == spec_apply_records(
            spec_apply_record(v, r, now, open_ok),
            s.drop_first(),
            now,
            open_ok,
        ));
        assert(spec_apply_records(spec_apply_record(v, r, now, open_ok), s.drop_first(), now, open_ok)
            == spec_apply_record(v, r, now, open_ok));
    } else {
        assert(s[0] == recs[0]);
        assert(s.drop_first() =~= recs.drop_first().push(r));
        let applied = spec_apply_record(v, recs[0], now, open_ok);
        assert(spec_apply_records(v, s, now, open_ok) == spec_apply_records(
            applied,
            s.drop_first(),
            now,
            open_ok,
        ));
        assert(spec_apply_records(v, recs, now, open_ok) == spec_apply_records(
            applied,
            recs.drop_first(),
            now,
            open_ok,
        ));
        lemma_apply_snoc(applied, recs.drop_first(), r, now, open_ok);
    }
}

impl LogRoller {
    /// Processes one delivered batch: one rotation check first (signal,
    /// then time), then each record in order — lines are written, flushes
    /// and shutdowns flush the current set. The flag is observed and
    /// cleared exactly once, whatever the batch holds.
    pub fn process_batch(
        &mut self,
        flag: &mut RotationFlag,
        records: &Vec<LogRecord>,
        now: i64,
        open_ok: bool,
    )
        requires
            old(self)@.wf(),
            0 <= now <= MAX_TIME_MILLIS,
            records_fit(
                spec_check_roll(old(self)@, old(flag).spec_requested(), now as int, open_ok),
                records@.map_values(|r: LogRecord| r@),
                now as int,
                open_ok,
            ),
        ensures
            final(self)@ == spec_apply_records(
                spec_check_roll(old(self)@, old(flag).spec_requested(), now as int, open_ok),
                records@.map_values(|r: LogRecord| r@),
                now as int,
                open_ok,
            ),
            !final(flag).spec_requested(),
            final(self)@.wf(),
            final(self)@.config == old(self)@.config,
    {
        self.check_log_roll(flag, now, open_ok);
        let ghost recs = records@.map_values(|r: LogRecord| r@);
        let ghost v0 = self@;
        let mut i: usize = 0;
        proof {
            assert(recs.subrange(0, 0) =~= Seq::<RecordView>::empty());
            assert(recs.subrange(0, recs.len() as int) =~= recs);
        }
        while i < records.len()
            invariant
                i <= records.len(),
                recs == records@.map_values(|r: LogRecord| r@),
                recs.len() == records@.len(),
                0 <= now <= MAX_TIME_MILLIS,
                self@ == spec_apply_records(v0, recs.subrange(0, i as int), now as int, open_ok),
                records_fit(self@, recs.subrange(i as int, recs.len() as int), now as int, open_ok),
                self@.wf(),
                self@.config == v0.config,
            decreases records.len() - i,
        {
            let ghost suffix = recs.subrange(i as int, recs.len() as int);
            proof {
                assert(suffix[0] == recs[i as int]);
                assert(suffix.drop_first() =~= recs.subrange(i as int + 1, recs.len() as int));
            }
            let rec = &records[i];
            match rec.command {
                LogCommand::Record => {
                    self.write_line(rec.line.as_str(), rec.target.as_str(), now, open_ok);
                },
                LogCommand::Flush => {
                    self.writer.flush();
                },
                LogCommand::Shutdown => {
                    self.writer.flush();
                },
            }
            proof {
                lemma_apply_snoc(v0, recs.subrange(0, i as int), recs[i as int], now as int, open_ok);
                assert(recs.subrange(0, i as int + 1) =~= recs.subrange(0, i as int).push(
                    recs[i as int],
                ));
            }
            i = i + 1;
        }
        proof {
            assert(recs.subrange(0, recs.len() as int) =~= recs);
        }
    }
}

/// The rotation configuration a program gets by default: the instance name
/// as the file stem, the default size and interval limits, and the four
/// standard outputs — metrics to the log directory, alerts and developer
/// notifications to the alerts directory, and everything else, last and
/// catch-all, to the log directory.
pub fn default_roller_config(instance: &str, config: &CommonConfig) -> (c: LogRollerConfig)
    ensures
        c@.base_name == instance@,
        c@.roll_size == DEFAULT_ROLL_SIZE as nat,
        c@.roll_interval == DEFAULT_ROLL_INTERVAL_MILLIS as int,
        c@.outputs.len() == 4,
        c@.outputs[0] == (OutputView {
            target: "METRICS"@,
            directory: config.log_path@,
            postfix: "_metrics"@,
        }),
        c@.outputs[1] == (OutputView {
            target: "ALERTS"@,
            directory: config.alerts_path@,
            postfix: "_alerts"@,
        }),
        c@.outputs[2] == (OutputView {
            target: "NOTIFICATIONS"@,
            directory: config.alerts_path@,
            postfix: "_devnotification"@,
        }),
        c@.outputs[3] == (OutputView {
            target: ""@,
            directory: config.log_path@,
            postfix: ""@,
        }),
        c@.wf(),
{
    let mut outputs: Vec<LogFileConfig> = Vec::new();
    outputs.push(LogFileConfig::new("METRICS", config.log_path.as_str(), "_metrics"));
    outputs.push(LogFileConfig::new("ALERTS", config.alerts_path.as_str(), "_alerts"));
    outputs.push(
        LogFileConfig::new("NOTIFICATIONS", config.alerts_path.as_str(), "_devnotification"),
    );
    outputs.push(LogFileConfig::new("", config.log_path.as_str(), ""));
    LogRollerConfig {
        base_name: instance.to_owned(),
        roll_size: DEFAULT_ROLL_SIZE,
        roll_interval: DEFAULT_ROLL_INTERVAL_MILLIS,
        outputs,
    }
}

impl LogRoller {
    /// How many files the current set holds.
    pub fn file_count(&self) -> (n: usize)
        ensures
            n == self@.writer.files.len(),
    {
        self.writer.log_files.len()
    }

    /// The bytes accounted to file `i` of the current set.
    pub fn bytes_written(&self, i: usize) -> (b: usize)
        requires
            i < self@.writer.files.len(),
        ensures
            b == self@.writer.files[i as int].bytes,
    {
        self.writer.log_files[i].bytes_written
    }

    /// The category file `i` of the current set serves.
    pub fn file_target(&self, i: usize) -> (t: &String)
        requires
            i < self@.writer.files.len(),
        ensures
            t@ == self@.writer.files[i as int].target,
    {
        &self.writer.log_files[i].target
    }

    /// The path of file `i` of the current set.
    pub fn file_path(&self, i: usize) -> (p: &String)
        requires
            i < self@.writer.files.len(),
        ensures
            p@ == self@.writer.files[i as int].path,
    {
        &self.writer.log_files[i].path
    }

    /// The instant the current set stops being valid.
    pub fn write_until(&self) -> (t: i64)
        ensures
            t == self@.writer.write_until,
    {
        self.writer.write_until
    }

    /// Flushes the current set; never fails the caller.
    pub fn flush(&mut self)
        ensures
            final(self)@ == old(self)@,
    {
        self.writer.flush();
    }
}

/// A record with a category lands at an index of the set.
pub proof fn lemma_route_in_range(files: Seq<FileView>, target: Seq<char>)
    requires
        files.len() >= 1,
    ensures
        0 <= route(files, target) < files.len(),
{
    lemma_find_target(files, target);
}

/// A rotation check with neither trigger — no raised flag, a deadline not
/// yet reached — keeps the file set exactly as it is.
pub proof fn lemma_no_trigger_keeps_set(v: RollerView, now: int, open_ok: bool)
    requires
        now <= v.writer.write_until,
    ensures
        spec_check_roll(v, false, now, open_ok) == v,
{
}

/// Flushing, once or twice or any number of times, writes nothing and
/// cannot fail: a batch holding no `Record` command leaves the writer
/// exactly as it was.
pub proof fn lemma_flush_only_batch(v: RollerView, recs: Seq<RecordView>, now: int, open_ok: bool)
    requires
        forall|k: int| 0 <= k < recs.len() ==> recs[k].command != LogCommand::Record,
    ensures
        spec_apply_records(v, recs, now, open_ok) == v,
    decreases recs.len(),
{
    if recs.len() > 0 {
        assert(recs[0].command != LogCommand::Record);
        assert(spec_apply_record(v, recs[0], now, open_ok) == v);
        assert(forall|k: int|
            0 <= k < recs.drop_first().len() ==> recs.drop_first()[k] == recs[k + 1]);
        lemma_flush_only_batch(v, recs.drop_first(), now, open_ok);
    }
}

/// A single trigger rotates every category's file at once: whichever
/// trigger forced the rotation, the whole set is replaced by fresh, empty
/// files under names from the same instant — per-category rotation does
/// not exist.
pub proof fn lemma_rotation_is_set_wide(v: RollerView, flag: bool, now: int)
    requires
        v.wf(),
        check_rolls(v, flag, now, true),
    ensures
        spec_check_roll(v, flag, now, true).writer == fresh_set(v.config, now),
        spec_check_roll(v, flag, now, true).writer.files.len() == v.config.outputs.len(),
        forall|k: int|
            0 <= k < v.config.outputs.len() ==> {
                let f = #[trigger] spec_check_roll(v, flag, now, true).writer.files[k];
                &&& f.bytes == 0
                &&& f.lines.len() == 0
                &&& f.target == v.config.outputs[k].target
                &&& f.path == path_of(v.config.outputs[k], v.config.base_name, clock::minute_stamp(now))
            },
{
}

/// After the rotation flag is observed, the writer stands on an entirely
/// fresh set whose deadline lies after `now`; the lines written before the
/// rotation stay exactly where they were, in the superseded set's files,
/// and none is split or duplicated into the new one.
pub proof fn lemma_signal_rotation(v: RollerView, now: int)
    requires
        v.wf(),
        0 <= now,
    ensures
        spec_check_roll(v, true, now, true) == (RollerView {
            config: v.config,
            writer: fresh_set(v.config, now),
        }),
        forall|k: int|
            0 <= k < fresh_set(v.config, now).files.len() ==> fresh_set(
                v.config,
                now,
            ).files[k].lines.len() == 0,
        fresh_set(v.config, now).write_until > now,
{
    clock::lemma_roll_time_bounds(now, v.config.roll_interval);
}

/// A write that would push its file past the size limit rotates the whole
/// set before it is performed, and then succeeds in the new set: its file
/// holds exactly the one line, the byte count starting at the line's own
/// length, and every other file of the new set is empty.
pub proof fn lemma_size_rotation(v: RollerView, target: Seq<char>, line: Seq<char>, now: int)
    requires
        v.wf(),
        write_rolls(v, target, line),
    ensures
        ({
            let w = spec_write_line(v, target, line, now, true);
            let i = route(v.writer.files, target);
            &&& w.config == v.config
            &&& w.writer.write_until == clock::roll_time(now, v.config.roll_interval)
            &&& w.writer.files.len() == v.writer.files.len()
            &&& w.writer.files[i].bytes == byte_len(line)
            &&& w.writer.files[i].lines =~= Seq::<Seq<char>>::empty().push(line)
            &&& forall|k: int|
                0 <= k < w.writer.files.len() && k != i ==> w.writer.files[k].bytes == 0
                    && w.writer.files[k].lines.len() == 0
        }),
{
    lemma_route_in_range(v.writer.files, target);
}

/// The bytes of the lines among `recs` that route to file `i` of a set
/// with `files`'s categories.
pub open spec fn routed_bytes(files: Seq<FileView>, recs: Seq<RecordView>, i: int) -> nat
    decreases recs.len(),
{
    if recs.len() == 0 {
        0
    } else {
        (if recs[0].command == LogCommand::Record && route(files, recs[0].target) == i {
            byte_len(recs[0].line)
        } else {
            0
        }) + routed_bytes(files, recs.drop_first(), i)
    }
}

/// The lines among `recs` that route to file `i`, in submission order.
pub open spec fn routed_lines(files: Seq<FileView>, recs: Seq<RecordView>, i: int) -> Seq<Seq<char>>
    decreases recs.len(),
{
    if recs.len() == 0 {
        Seq::empty()
    } else {
        (if recs[0].command == LogCommand::Record && route(files, recs[0].target) == i {
            Seq::<Seq<char>>::empty().push(recs[0].line)
        } else {
            Seq::empty()
        }) + routed_lines(files, recs.drop_first(), i)
    }
}

/// Routing, and with it the routed byte and line tallies, depends on the
/// categories of the set alone.
pub proof fn lemma_routed_same_targets(
    a: Seq<FileView>,
    b: Seq<FileView>,
    recs: Seq<RecordView>,
    i: int,
)
    requires
        a.len() == b.len(),
        forall|k: int| 0 <= k < a.len() ==> a[k].target == b[k].target,
    ensures
        routed_bytes(a, recs, i) == routed_bytes(b, recs, i),
        routed_lines(a, recs, i) == routed_lines(b, recs, i),
    decreases recs.len(),
{
    if recs.len() > 0 {
        lemma_route_by_targets(a, b, recs[0].target);
        lemma_routed_same_targets(a, b, recs.drop_first(), i);
    }
}

/// Under the limits nothing rotates: when every record of a batch is a
/// line, and each file's accounted bytes plus everything routed to it
/// stay within the size limit, the set is kept — every line lands in the
/// one file of its category, in submission order, and the deadline, the
/// paths and the categories all stand.
pub proof fn lemma_no_rotation_within_limits(
    v: RollerView,
    recs: Seq<RecordView>,
    now: int,
    open_ok: bool,
)
    requires
        v.wf(),
        forall|k: int| 0 <= k < recs.len() ==> recs[k].command == LogCommand::Record,
        forall|i: int|
            0 <= i < v.writer.files.len() ==> v.writer.files[i].bytes + routed_bytes(
                v.writer.files,
                recs,
                i,
            ) <= v.config.roll_size,
    ensures
        ({
            let w = spec_apply_records(v, recs, now, open_ok);
            &&& w.config == v.config
            &&& w.writer.write_until == v.writer.write_until
            &&& w.writer.files.len() == v.writer.files.len()
            &&& forall|i: int|
                0 <= i < v.writer.files.len() ==> {
                    let f = #[trigger] w.writer.files[i];
                    &&& f.target == v.writer.files[i].target
                    &&& f.path == v.writer.files[i].path
                    &&& f.bytes == v.writer.files[i].bytes + routed_bytes(v.writer.files, recs, i)
                    &&& f.lines == v.writer.files[i].lines + routed_lines(v.writer.files, recs, i)
                }
        }),
    decreases recs.len(),
{
    let files = v.writer.files;
    if recs.len() == 0 {
        assert forall|i: int| 0 <= i < files.len() implies v.writer.files[i].lines
            == v.writer.files[i].lines + routed_lines(files, recs, i) by {
            assert(v.writer.files[i].lines + routed_lines(files, recs, i) =~= v.writer.files[i].lines);
        }
    } else {
        let r = recs[0];
        let i0 = route(files, r.target);
        lemma_route_in_range(files, r.target);
        assert(files[i0].bytes + routed_bytes(files, recs, i0) <= v.config.roll_size);
        assert(routed_bytes(files, recs, i0) == byte_len(r.line) + routed_bytes(
            files,
            recs.drop_first(),
            i0,
        ));
        assert(!write_rolls(v, r.target, r.line));
        let v1 = spec_apply_record(v, r, now, open_ok);
        assert(v1.writer.files =~= files.update(i0, file_after_write(files[i0], r.line)));
        assert(v1.wf());
        assert forall|k: int|
            0 <= k < recs.drop_first().len() implies recs.drop_first()[k].command
            == LogCommand::Record by {
            assert(recs.drop_first()[k] == recs[k + 1]);
        }
        assert forall|i: int| 0 <= i < v1.writer.files.len() implies v1.writer.files[i].bytes
            + routed_bytes(v1.writer.files, recs.drop_first(), i) <= v1.config.roll_size by {
            lemma_routed_same_targets(v1.writer.files, files, recs.drop_first(), i);
            if i == i0 {
                assert(v1.writer.files[i].bytes == files[i0].bytes + byte_len(r.line));
            } else {
                assert(v1.writer.files[i].bytes == files[i].bytes);
                assert(routed_bytes(files, recs, i) == routed_bytes(files, recs.drop_first(), i));
            }
        }
        lemma_no_rotation_within_limits(v1, recs.drop_first(), now, open_ok);
        let w = spec_apply_records(v, recs, now, open_ok);
        assert(w == spec_apply_records(v1, recs.drop_first(), now, open_ok));
        assert forall|i: int| 0 <= i < files.len() implies {
            let f = #[trigger] w.writer.files[i];
            &&& f.target == files[i].target
            &&& f.path == files[i].path
            &&& f.bytes == files[i].bytes + routed_bytes(files, recs, i)
            &&& f.lines == files[i].lines + routed_lines(files, recs, i)
        } by {
            lemma_routed_same_targets(v1.writer.files, files, recs.drop_first(), i);
            if i == i0 {
                assert(v1.writer.files[i0].lines == files[i0].lines.push(r.line));
                assert(routed_lines(files, recs, i0) == Seq::<Seq<char>>::empty().push(r.line)
                    + routed_lines(files, recs.drop_first(), i0));
                assert(w.writer.files[i0].lines == files[i0].lines.push(r.line) + routed_lines(
                    files,
                    recs.drop_first(),
                    i0,
                ));
                assert(files[i0].lines.push(r.line) + routed_lines(files, recs.drop_first(), i0)
                    =~= files[i0].lines + routed_lines(files, recs, i0));
            } else {
                assert(v1.writer.files[i].lines == files[i].lines);
                assert(routed_lines(files, recs, i) =~= routed_lines(files, recs.drop_first(), i));
                assert(routed_bytes(files, recs, i) == routed_bytes(files, recs.drop_first(), i));
            }
        }
    }
}

} // verus!
