//! Persistence decisions: what a store file's text means, and the order of steps
//! by which one is replaced.
//!
//! Writes are atomic (temp file in the same directory + rename), the one corner
//! we never cut: a crash mid-write can never corrupt the task list.

use crate::text;
use vstd::prelude::*;
use vstd::string::*;

verus! {

/// What reading a file came to.
pub enum FileText {
    /// There is no such file; the message says so.
    Missing(String),
    /// It could not be read, for the given reason.
    Failed(String),
    /// Its text.
    Text(String),
}

/// What a store file holds.
pub enum Contents {
    /// No tasks.
    Empty,
    /// The given JSON, which is not blank.
    Json(String),
    /// Nothing that can be had, for the given reason.
    Error(String),
}

/// What the text of a store file means: a blank file is an empty list.
pub open spec fn text_holds(data: Seq<char>, c: Contents) -> bool {
    if text::trim(data).len() == 0 {
        c is Empty
    } else {
        c matches Contents::Json(s) && s@ == data
    }
}

/// What reading a file that the user named comes to: a missing one is an error.
pub open spec fn named_file_holds(file: FileText, c: Contents) -> bool {
    match file {
        FileText::Missing(e) => c matches Contents::Error(m) && m@ == e@,
        FileText::Failed(e) => c matches Contents::Error(m) && m@ == e@,
        FileText::Text(data) => text_holds(data@, c),
    }
}

/// What reading the store comes to: a missing file is an empty list.
pub open spec fn store_holds(file: FileText, c: Contents) -> bool {
    match file {
        FileText::Missing(_) => c is Empty,
        FileText::Failed(e) => c matches Contents::Error(m) && m@ == e@,
        FileText::Text(data) => text_holds(data@, c),
    }
}

/// Read tasks from a file that the user named: a missing file is an error.
pub fn import(file: FileText) -> (r: Contents)
    ensures
        named_file_holds(file, r),
{
    match file {
        FileText::Missing(e) => Contents::Error(e),
        FileText::Failed(e) => Contents::Error(e),
        FileText::Text(data) => if text::trimmed(data.as_str()).as_str().is_empty() {
            Contents::Empty
        } else {
            Contents::Json(data)
        },
    }
}

/// Load the store, treating a missing file as an empty list (first run).
pub fn load(file: FileText) -> (r: Contents)
    ensures
        store_holds(file, r),
{
    match file {
        FileText::Missing(_) => Contents::Empty,
        other => import(other),
    }
}

/// A step in replacing a file.
#[derive(Debug, Clone, Copy, PartialEq, Eq, Structural)]
pub enum WriteStep {
    /// Create the directories above the target.
    MakeDirs,
    /// Create the temporary file beside the target.
    Create,
    /// Write the whole text into it.
    Write,
    /// Make it durable on disk.
    Sync,
    /// Move it over the target.
    Rename,
    /// Remove it; whether that succeeds does not matter.
    Discard,
    /// The target is replaced.
    Done,
    /// The target is what it was.
    Failed,
}

impl WriteStep {
    /// The step after this one.
    pub open spec fn after(self, ok: bool) -> WriteStep {
        match self {
            WriteStep::MakeDirs => if ok {
                WriteStep::Create
            } else {
                WriteStep::Failed
            },
            WriteStep::Create => if ok {
                WriteStep::Write
            } else {
                WriteStep::Discard
            },
            WriteStep::Write => if ok {
                WriteStep::Sync
            } else {
                WriteStep::Discard
            },
            WriteStep::Sync => if ok {
                WriteStep::Rename
            } else {
                WriteStep::Discard
            },
            WriteStep::Rename => if ok {
                WriteStep::Done
            } else {
                WriteStep::Discard
            },
            WriteStep::Discard => WriteStep::Failed,
            WriteStep::Done => WriteStep::Done,
            WriteStep::Failed => WriteStep::Failed,
        }
    }

    /// The step to take once this one succeeded or failed.
    pub fn next(self, ok: bool) -> (r: WriteStep)
        ensures
            r == self.after(ok),
    {
        match self {
            WriteStep::MakeDirs => if ok {
                WriteStep::Create
            } else {
                WriteStep::Failed
            },
            WriteStep::Create => if ok {
                WriteStep::Write
            } else {
                WriteStep::Discard
            },
            WriteStep::Write => if ok {
                WriteStep::Sync
            } else {
                WriteStep::Discard
            },
            WriteStep::Sync => if ok {
                WriteStep::Rename
            } else {
                WriteStep::Discard
            },
            WriteStep::Rename => if ok {
                WriteStep::Done
            } else {
                WriteStep::Discard
            },
            WriteStep::Discard => WriteStep::Failed,
            WriteStep::Done => WriteStep::Done,
            WriteStep::Failed => WriteStep::Failed,
        }
    }
}

/// The first step: directories are made only where the path names any.
pub open spec fn first_step(parent: Option<Seq<char>>) -> WriteStep {
    if parent matches Some(p) && p.len() > 0 {
        WriteStep::MakeDirs
    } else {
        WriteStep::Create
    }
}

/// Persist the store atomically: where to begin, given the directory part of the
/// target's path.
pub fn save(parent: &Option<String>) -> (r: WriteStep)
    ensures
        r == first_step(text::opt_text(*parent)),
{
    match parent {
        Some(p) => if p.as_str().is_empty() {
            WriteStep::Create
        } else {
            WriteStep::MakeDirs
        },
        None => WriteStep::Create,
    }
}

/// Write tasks to an arbitrary path: the same steps as for the store.
pub fn export(parent: &Option<String>) -> (r: WriteStep)
    ensures
        r == first_step(text::opt_text(*parent)),
{
    save(parent)
}

/// The name of the temporary file beside a target.
pub open spec fn temp_name_of(name: Option<Seq<char>>, pid: u32) -> Seq<char> {
    (match name {
        Some(n) => n,
        None => "tasks.json"@,
    }) + "."@ + text::decimal(pid as nat) + ".tmp"@
}

/// The temporary file's name: in the same directory, so that the rename stays on
/// one filesystem, and tagged with the process id, so that two concurrent
/// invocations do not clobber each other's.
pub fn temp_name(name: Option<String>, pid: u32) -> (r: String)
    ensures
        r@ == temp_name_of(text::opt_text(name), pid),
{
    let mut r = match name {
        Some(n) => n,
        None => "tasks.json".to_owned(),
    };
    r.append(".");
    r.append(text::to_decimal(pid as u64).as_str());
    r.append(".tmp");
    r
}

/// The two files that a replacement concerns, by what they hold.
pub struct Disk {
    pub target: Option<Seq<char>>,
    pub temp: Option<Seq<char>>,
}

/// What taking a step, with the given success, may do to the files. What a failed
/// step leaves in the temporary file is left open, but for removing it: that never
/// makes one.
pub open spec fn step_effect(step: WriteStep, ok: bool, data: Seq<char>, a: Disk, b: Disk) -> bool {
    match step {
        WriteStep::MakeDirs | WriteStep::Done | WriteStep::Failed => b == a,
        WriteStep::Create => b.target == a.target && (ok ==> b.temp == Some(Seq::<char>::empty())),
        WriteStep::Write => b.target == a.target && (ok ==> b.temp == Some(data)),
        WriteStep::Sync => b.target == a.target && (ok ==> b.temp == a.temp),
        WriteStep::Rename => if ok {
            b.target == a.temp && b.temp is None
        } else {
            b.target == a.target
        },
        WriteStep::Discard => {
            &&& b.target == a.target
            &&& ok || a.temp is None ==> b.temp is None
        },
    }
}

/// Where a replacement stands: the step to take next, and the files.
pub struct Progress {
    pub step: WriteStep,
    pub disk: Disk,
}

/// Whether `run` is a replacement of a target that held `old_text` by `data`,
/// observed from the first step on and after each step, `oks` saying which steps
/// succeeded.
pub open spec fn is_run(
    parent: Option<Seq<char>>,
    old_text: Option<Seq<char>>,
    data: Seq<char>,
    oks: Seq<bool>,
    run: Seq<Progress>,
) -> bool {
    &&& run.len() == oks.len() + 1
    &&& run[0].step == first_step(parent)
    &&& run[0].disk.target == old_text
    &&& forall|i: int| 0 <= i < oks.len() ==> #[trigger] goes_on(data, oks[i], run[i], run[i + 1])
}

/// Whether `b` follows `a` by one step.
pub open spec fn goes_on(data: Seq<char>, ok: bool, a: Progress, b: Progress) -> bool {
    step_effect(a.step, ok, data, a.disk, b.disk) && b.step == a.step.after(ok)
}

/// Before the rename the target holds what it held; the rename is only reached
/// with the whole text in the temporary file.
pub open spec fn intact(old_text: Option<Seq<char>>, data: Seq<char>, p: Progress) -> bool {
    match p.step {
        WriteStep::Done => p.disk.target == Some(data),
        WriteStep::Sync | WriteStep::Rename => p.disk.target == old_text && p.disk.temp == Some(data),
        _ => p.disk.target == old_text,
    }
}

/// A crash mid-write can never corrupt the list: wherever a replacement stops,
/// the target holds either what it held before or the whole new text. It holds
/// the new text once the replacement is done, and the old one if it failed.
pub proof fn writes_are_atomic(
    parent: Option<Seq<char>>,
    old_text: Option<Seq<char>>,
    data: Seq<char>,
    oks: Seq<bool>,
    run: Seq<Progress>,
    i: int,
)
    requires
        is_run(parent, old_text, data, oks, run),
        0 <= i < run.len(),
    ensures
        run[i].disk.target == old_text || run[i].disk.target == Some(data),
        run[i].step == WriteStep::Done ==> run[i].disk.target == Some(data),
        run[i].step == WriteStep::Failed ==> run[i].disk.target == old_text,
{
    stays_intact(parent, old_text, data, oks, run, i);
}

/// Every point of a replacement is intact.
proof fn stays_intact(
    parent: Option<Seq<char>>,
    old_text: Option<Seq<char>>,
    data: Seq<char>,
    oks: Seq<bool>,
    run: Seq<Progress>,
    i: int,
)
    requires
        is_run(parent, old_text, data, oks, run),
        0 <= i < run.len(),
    ensures
        intact(old_text, data, run[i]),
    decreases i,
{
    if i > 0 {
        stays_intact(parent, old_text, data, oks, run, i - 1);
        assert(goes_on(data, oks[i - 1], run[i - 1], run[i - 1 + 1]));
    }
}

/// What was saved is what is loaded: once a replacement is done, reading the target
/// gives back the very text that was written, which is not blank.
pub proof fn saved_text_is_loaded(
    parent: Option<Seq<char>>,
    old_text: Option<Seq<char>>,
    data: Seq<char>,
    oks: Seq<bool>,
    run: Seq<Progress>,
    read: Contents,
)
    requires
        is_run(parent, old_text, data, oks, run),
        run.last().step == WriteStep::Done,
        run.last().disk.target is Some ==> text_holds(run.last().disk.target->0, read),
        text::trim(data).len() > 0,
    ensures
        read matches Contents::Json(s) && s@ == data,
{
    stays_intact(parent, old_text, data, oks, run, run.len() - 1);
}

/// No temporary file is left behind. Once a replacement is done, it was moved away.
/// Once one has failed, it was removed, if removing what there was to remove
/// succeeded and no such file was lying there before.
pub proof fn no_temporary_file_is_left(
    parent: Option<Seq<char>>,
    old_text: Option<Seq<char>>,
    data: Seq<char>,
    oks: Seq<bool>,
    run: Seq<Progress>,
    i: int,
)
    requires
        is_run(parent, old_text, data, oks, run),
        0 <= i < run.len(),
    ensures
        run[i].step == WriteStep::Done ==> run[i].disk.temp is None,
        run[i].step == WriteStep::Failed && run[0].disk.temp is None && (forall|k: int|
            0 <= k < oks.len() && (#[trigger] run[k]).step == WriteStep::Discard ==> oks[k]
                || run[k].disk.temp is None) ==> run[i].disk.temp is None,
    decreases i,
{
    if i > 0 {
        no_temporary_file_is_left(parent, old_text, data, oks, run, i - 1);
        assert(goes_on(data, oks[i - 1], run[i - 1], run[i - 1 + 1]));
        if run[i - 1].step == WriteStep::MakeDirs {
            directories_come_first(parent, old_text, data, oks, run, i - 1);
        }
    }
}

/// Directories are made in the first step or never.
proof fn directories_come_first(
    parent: Option<Seq<char>>,
    old_text: Option<Seq<char>>,
    data: Seq<char>,
    oks: Seq<bool>,
    run: Seq<Progress>,
    i: int,
)
    requires
        is_run(parent, old_text, data, oks, run),
        0 <= i < run.len(),
        run[i].step == WriteStep::MakeDirs,
    ensures
        i == 0,
{
    if i > 0 {
        assert(goes_on(data, oks[i - 1], run[i - 1], run[i - 1 + 1]));
    }
}

/// A replacement is done only if the directories above the target were made, where
/// its path names any.
pub proof fn directories_are_made(
    parent: Option<Seq<char>>,
    old_text: Option<Seq<char>>,
    data: Seq<char>,
    oks: Seq<bool>,
    run: Seq<Progress>,
    i: int,
)
    requires
        is_run(parent, old_text, data, oks, run),
        parent matches Some(p) && p.len() > 0,
        0 <= i < run.len(),
    ensures
        run[0].step == WriteStep::MakeDirs,
        i > 0 && !oks[0] ==> run[i].step == WriteStep::Failed,
        run[i].step == WriteStep::Done ==> oks[0],
    decreases i,
{
    if i > 0 {
        directories_are_made(parent, old_text, data, oks, run, i - 1);
        assert(goes_on(data, oks[i - 1], run[i - 1], run[i - 1 + 1]));
    }
}

/// Exporting writes what saving writes: two replacements by the same text, both
/// done, leave the same text, whatever their targets held and wherever they are.
pub proof fn exports_and_saves_are_alike(
    save_parent: Option<Seq<char>>,
    saved_over: Option<Seq<char>>,
    save_oks: Seq<bool>,
    saving: Seq<Progress>,
    export_parent: Option<Seq<char>>,
    exported_over: Option<Seq<char>>,
    export_oks: Seq<bool>,
    exporting: Seq<Progress>,
    data: Seq<char>,
)
    requires
        is_run(save_parent, saved_over, data, save_oks, saving),
        is_run(export_parent, exported_over, data, export_oks, exporting),
        saving.last().step == WriteStep::Done,
        exporting.last().step == WriteStep::Done,
    ensures
        saving.last().disk.target == exporting.last().disk.target,
        saving.last().disk.target == Some(data),
{
    stays_intact(save_parent, saved_over, data, save_oks, saving, saving.len() - 1);
    stays_intact(export_parent, exported_over, data, export_oks, exporting, exporting.len() - 1);
}

/// How many steps may still follow.
pub open spec fn steps_left(step: WriteStep) -> int {
    match step {
        WriteStep::MakeDirs => 7,
        WriteStep::Create => 6,
        WriteStep::Write => 5,
        WriteStep::Sync => 4,
        WriteStep::Rename => 3,
        WriteStep::Discard => 2,
        WriteStep::Done | WriteStep::Failed => 0,
    }
}

/// A replacement ends: every step but the two last ones leads strictly closer to
/// the end, whether it succeeds or fails.
pub proof fn writes_end(step: WriteStep, ok: bool)
    ensures
        steps_left(step) > 0 ==> steps_left(step.after(ok)) < steps_left(step),
        steps_left(step) == 0 <==> step == WriteStep::Done || step == WriteStep::Failed,
{
}

/// A failure after the temporary file was begun leads to its removal.
pub proof fn failures_clean_up(step: WriteStep)
    requires
        step == WriteStep::Create || step == WriteStep::Write || step == WriteStep::Sync || step
            == WriteStep::Rename,
    ensures
        step.after(false) == WriteStep::Discard,
        step.after(false).after(true) == WriteStep::Failed,
        step.after(false).after(false) == WriteStep::Failed,
{
}

/// The file that a board's tasks are kept in.
pub open spec fn board_file_of(board: Seq<char>) -> Seq<char> {
    board + ".json"@
}

/// The file that a board's tasks are kept in.
pub fn board_file(board: &str) -> (r: String)
    ensures
        r@ == board_file_of(board@),
{
    let mut r = board.to_owned();
    r.append(".json");
    r
}

/// Whether a file name is that of a board's file.
pub open spec fn is_board_file(file: Seq<char>) -> bool {
    file.len() > 5 && file.skip(file.len() - 5) == ".json"@
}

/// The board that a file belongs to, by the file's name.
pub fn board_of_file(file: &str) -> (r: Option<String>)
    ensures
        r is Some <==> is_board_file(file@),
        r matches Some(b) ==> file@ == board_file_of(b@),
{
    let v = text::chars_of(file);
    proof {
        reveal_strlit(".json");
    }
    if v.len() <= 5 {
        return None;
    }
    let stem: usize = v.len() - 5;
    let ending = text::text_of(&v, stem, v.len());
    assert(ending@ =~= file@.skip(file@.len() - 5));
    if text::same_text(ending.as_str(), ".json") {
        let board = text::text_of(&v, 0, stem);
        assert(file@ =~= board@ + ending@);
        Some(board)
    } else {
        None
    }
}

/// No two boards share a file.
pub proof fn boards_have_their_own_files(a: Seq<char>, b: Seq<char>)
    requires
        a != b,
    ensures
        board_file_of(a) != board_file_of(b),
{
    let x = board_file_of(a);
    let y = board_file_of(b);
    if x == y {
        assert(x.len() == a.len() + ".json"@.len());
        assert(y.len() == b.len() + ".json"@.len());
        assert(x.take(a.len() as int) =~= a);
        assert(y.take(b.len() as int) =~= b);
    }
}

/// Every board's file is recognized as such.
pub proof fn board_files_are_recognized(board: Seq<char>)
    requires
        board.len() > 0,
    ensures
        is_board_file(board_file_of(board)),
{
    reveal_strlit(".json");
    let f = board_file_of(board);
    assert(f.skip(f.len() - 5) =~= ".json"@);
}

} // verus!
