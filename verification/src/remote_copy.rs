//! Recursive remote copy as an explicit work-stack state machine. FTP has no
//! server-side copy verb, so a file is copied by downloading it to memory and
//! uploading it again, and a directory by creating the destination, listing
//! the source, and recursing depth-first over the children. Any child failure
//! aborts the whole copy; no further sibling is attempted.

use vstd::prelude::*;
use crate::listing::{parse_list_entries, parse_lines_spec, entry_views, EntryView, is_dot_name,
    is_dot_name_exec};
use crate::path::{join_remote, join_remote_spec};
use crate::text::seq_views;
use crate::upload::TransferFault;

verus! {

/// One unit of pending copy work; the engine's stack holds these, the top
/// being the pending one.
pub enum CopyTask {
    /// Create the destination directory, then go on to list the source.
    MkDir { from: String, to: String },
    /// List the source directory and queue its children.
    ListDir { from: String, to: String },
    /// Copy one file.
    CopyFile { from: String, to: String },
}

/// The mathematical value of a task.
pub enum TaskView {
    MkDir { from: Seq<char>, to: Seq<char> },
    ListDir { from: Seq<char>, to: Seq<char> },
    CopyFile { from: Seq<char>, to: Seq<char> },
}

impl View for CopyTask {
    type V = TaskView;

    open spec fn view(&self) -> TaskView {
        match self {
            CopyTask::MkDir { from, to } => TaskView::MkDir { from: from@, to: to@ },
            CopyTask::ListDir { from, to } => TaskView::ListDir { from: from@, to: to@ },
            CopyTask::CopyFile { from, to } => TaskView::CopyFile { from: from@, to: to@ },
        }
    }
}

pub open spec fn task_views(ts: Seq<CopyTask>) -> Seq<TaskView> {
    ts.map_values(|t: CopyTask| t@)
}

/// What the engine asks the caller to do next.
pub enum CopyAction {
    /// Create this remote directory; a refusal because it already exists is
    /// tolerated.
    MakeDir { path: String },
    /// Fetch the raw listing lines of this remote directory.
    ReadListing { path: String },
    /// Copy this remote file, download-to-memory then upload.
    TransferFile { from: String, to: String },
    /// The whole copy finished.
    Done,
    /// The copy failed with this message; nothing further is attempted.
    Failed { message: String },
}

/// What the caller reports back about the action it performed.
pub enum CopyEvent {
    /// The directory was created (or already existed).
    DirCreated,
    /// The raw listing lines of the directory read.
    Listing { lines: Vec<String> },
    /// The file was copied.
    FileCopied,
    /// The pending action failed with this message.
    Failed { message: String },
}

/// The event a MKD attempt reports, decided from the reduced fault: a
/// refusal the server answered is tolerated as "created" (an already
/// existing destination arrives as such a refusal — FTP has no dedicated
/// code for it); a connection-level or any other failure ends the copy with
/// its message.
pub fn mkdir_event_of(result: Result<(), TransferFault>) -> (e: CopyEvent)
    ensures
        match result {
            Ok(_) => e is DirCreated,
            Err(f) => match f {
                TransferFault::Protocol { .. } => e is DirCreated,
                TransferFault::Connection { message, .. } => (e matches CopyEvent::Failed {
                    message: m,
                } && m@ == message@),
                TransferFault::Other { message } => (e matches CopyEvent::Failed { message: m }
                    && m@ == message@),
            },
        },
{
    match result {
        Ok(_) => CopyEvent::DirCreated,
        Err(TransferFault::Protocol { code: _, message: _ }) => CopyEvent::DirCreated,
        Err(TransferFault::Connection { timed_out: _, os_code: _, message }) => CopyEvent::Failed {
            message,
        },
        Err(TransferFault::Other { message }) => CopyEvent::Failed { message },
    }
}

/// Reduce the FTP client's MKD result and decide as `mkdir_event_of` does,
/// whatever fault the reduction returned.
pub fn mkdir_ftp_event(result: Result<(), suppaftp::FtpError>) -> (e: CopyEvent)
    ensures
        result is Ok ==> e is DirCreated,
        e is DirCreated || e is Failed,
{
    match result {
        Ok(_) => CopyEvent::DirCreated,
        Err(err) => mkdir_event_of(Err(crate::upload::fault_of_ftp_error(&err))),
    }
}

/// The tasks a parsed listing queues, in listing order: `.` and `..` are
/// skipped, child paths are slash-joined onto the source and destination,
/// directories recurse and files are copied.
pub open spec fn child_tasks(entries: Seq<EntryView>, from: Seq<char>, to: Seq<char>) -> Seq<
    TaskView,
>
    decreases entries.len(),
{
    if entries.len() == 0 {
        Seq::empty()
    } else {
        child_tasks(entries.drop_last(), from, to) + ({
            let e = entries.last();
            if is_dot_name(e.name) {
                Seq::empty()
            } else if e.is_dir {
                seq![
                    TaskView::MkDir {
                        from: join_remote_spec(from, e.name),
                        to: join_remote_spec(to, e.name),
                    },
                ]
            } else {
                seq![
                    TaskView::CopyFile {
                        from: join_remote_spec(from, e.name),
                        to: join_remote_spec(to, e.name),
                    },
                ]
            }
        })
    }
}

/// The work-stack state of one recursive copy.
pub struct CopyEngine {
    pub stack: Vec<CopyTask>,
    pub failure: Option<String>,
}

impl CopyEngine {
    /// Whether `event` is the report the pending action expects.
    pub open spec fn expects(&self, event: CopyEvent) -> bool {
        self.failure is None && match event {
            CopyEvent::Failed { .. } => self.stack@.len() > 0,
            CopyEvent::DirCreated => self.stack@.len() > 0 && self.stack@.last()@ is MkDir,
            CopyEvent::Listing { .. } => self.stack@.len() > 0 && self.stack@.last()@ is ListDir,
            CopyEvent::FileCopied => self.stack@.len() > 0 && self.stack@.last()@ is CopyFile,
        }
    }

    /// Start a copy of one file, or of one directory tree.
    pub fn new(from: String, to: String, is_dir: bool) -> (e: CopyEngine)
        ensures
            e.failure is None,
            e.stack@.len() == 1,
            is_dir ==> e.stack@[0]@ == (TaskView::MkDir { from: from@, to: to@ }),
            !is_dir ==> e.stack@[0]@ == (TaskView::CopyFile { from: from@, to: to@ }),
    {
        let task = if is_dir {
            CopyTask::MkDir { from, to }
        } else {
            CopyTask::CopyFile { from, to }
        };
        let mut stack: Vec<CopyTask> = Vec::new();
        stack.push(task);
        CopyEngine { stack, failure: None }
    }

    /// The action the current state asks for: the pending task's action, or
    /// `Done` on an empty stack, or `Failed` once a failure was reported.
    pub fn next_action(&self) -> (a: CopyAction)
        ensures
            match a {
                CopyAction::Failed { message } => self.failure matches Some(m) && message@ == m@,
                CopyAction::Done => self.failure is None && self.stack@.len() == 0,
                CopyAction::MakeDir { path } => self.failure is None && self.stack@.len() > 0 && (
                self.stack@.last()@ matches TaskView::MkDir { from, to } && path@ == to),
                CopyAction::ReadListing { path } => self.failure is None && self.stack@.len() > 0
                    && (self.stack@.last()@ matches TaskView::ListDir { from, to } && path@
                    == from),
                CopyAction::TransferFile { from, to } => self.failure is None && self.stack@.len()
                    > 0 && (self.stack@.last()@ matches TaskView::CopyFile {
                    from: f,
                    to: t,
                } && from@ == f && to@ == t),
            },
    {
        match &self.failure {
            Some(m) => CopyAction::Failed { message: m.clone() },
            None => {
                if self.stack.len() == 0 {
                    CopyAction::Done
                } else {
                    match &self.stack[self.stack.len() - 1] {
                        CopyTask::MkDir { from: _, to } => CopyAction::MakeDir {
                            path: to.clone(),
                        },
                        CopyTask::ListDir { from, to: _ } => CopyAction::ReadListing {
                            path: from.clone(),
                        },
                        CopyTask::CopyFile { from, to } => CopyAction::TransferFile {
                            from: from.clone(),
                            to: to.clone(),
                        },
                    }
                }
            },
        }
    }

    /// Advance on the caller's report: a created directory moves its task to
    /// the listing step; a listing replaces its task by the children's tasks,
    /// queued so that they run in listing order, depth-first; a copied file
    /// retires its task; a failure ends the whole copy with that message.
    pub fn on_event(&mut self, event: CopyEvent)
        requires
            old(self).expects(event),
        ensures
            match event {
                CopyEvent::DirCreated => final(self).failure is None && (task_views(
                    old(self).stack@,
                ).last() matches TaskView::MkDir { from, to } && task_views(final(self).stack@)
                    == task_views(old(self).stack@).update(
                    old(self).stack@.len() - 1,
                    TaskView::ListDir { from, to },
                )),
                CopyEvent::Listing { lines } => final(self).failure is None && (task_views(
                    old(self).stack@,
                ).last() matches TaskView::ListDir { from, to } && task_views(final(self).stack@)
                    == task_views(old(self).stack@).drop_last() + child_tasks(
                    parse_lines_spec(seq_views(lines@)),
                    from,
                    to,
                ).reverse()),
                CopyEvent::FileCopied => final(self).failure is None && task_views(
                    final(self).stack@,
                ) == task_views(old(self).stack@).drop_last(),
                CopyEvent::Failed { message } => final(self).failure matches Some(m) && m@
                    == message@,
            },
    {
        let ghost old_views = task_views(self.stack@);
        let ghost old_stack = self.stack@;
        proof {
            if old_stack.len() > 0 {
                assert(old_views.last() == old_stack.last()@);
            }
            assert(old_views.len() == old_stack.len());
        }
        match event {
            CopyEvent::DirCreated => {
                let top = self.stack.pop();
                match top {
                    Some(CopyTask::MkDir { from, to }) => {
                        self.stack.push(CopyTask::ListDir { from, to });
                        proof {
                            assert(task_views(self.stack@) =~= old_views.update(
                                old_views.len() - 1,
                                self.stack@.last()@,
                            ));
                        }
                    },
                    _ => {
                        proof {
                            assert(false);
                        }
                    },
                }
            },
            CopyEvent::Listing { lines } => {
                let top = self.stack.pop();
                match top {
                    Some(CopyTask::ListDir { from, to }) => {
                        let entries = parse_list_entries(lines);
                        let ghost evs = entry_views(entries@);
                        let ghost cv = child_tasks(evs, from@, to@);
                        let mut children: Vec<CopyTask> = Vec::new();
                        let mut i: usize = 0;
                        proof {
                            assert(task_views(children@) =~= child_tasks(evs.take(0), from@, to@));
                        }
                        while i < entries.len()
                            invariant
                                i <= entries@.len(),
                                evs == entry_views(entries@),
                                evs.len() == entries@.len(),
                                forall|k: int| 0 <= k < evs.len() ==> evs[k] == entries@[k]@,
                                task_views(children@) == child_tasks(
                                    evs.take(i as int),
                                    from@,
                                    to@,
                                ),
                            decreases entries@.len() - i,
                        {
                            let ghost pre = task_views(children@);
                            proof {
                                assert(evs.take(i + 1).drop_last() =~= evs.take(i as int));
                                assert(evs.take(i + 1).last() == evs[i as int]);
                            }
                            let e = &entries[i];
                            if !is_dot_name_exec(e.name.as_str()) {
                                let f = join_remote(from.as_str(), e.name.as_str());
                                let t = join_remote(to.as_str(), e.name.as_str());
                                let task = if e.is_dir {
                                    CopyTask::MkDir { from: f, to: t }
                                } else {
                                    CopyTask::CopyFile { from: f, to: t }
                                };
                                proof {
                                    assert(pre.push(task@) =~= pre + seq![task@]);
                                }
                                children.push(task);
                                proof {
                                    assert(task_views(children@) =~= pre.push(
                                        children@.last()@,
                                    ));
                                }
                            } else {
                                proof {
                                    assert(pre + Seq::<TaskView>::empty() =~= pre);
                                }
                            }
                            i = i + 1;
                        }
                        proof {
                            assert(evs.take(entries@.len() as int) =~= evs);
                        }
                        let ghost base = task_views(self.stack@);
                        while children.len() > 0
                            invariant
                                self.failure is None,
                                base + cv.reverse() =~= task_views(self.stack@) + task_views(
                                    children@,
                                ).reverse(),
                            decreases children@.len(),
                        {
                            let ghost sv = task_views(self.stack@);
                            let ghost chv = task_views(children@);
                            let t = children.pop();
                            match t {
                                Some(task) => {
                                    self.stack.push(task);
                                    proof {
                                        assert(chv.reverse() =~= seq![chv.last()]
                                            + task_views(children@).reverse());
                                        assert(task_views(self.stack@) =~= sv.push(task@));
                                        assert(sv + (seq![chv.last()] + task_views(
                                            children@,
                                        ).reverse()) =~= sv.push(chv.last()) + task_views(
                                            children@,
                                        ).reverse());
                                    }
                                },
                                None => {
                                    proof {
                                        assert(false);
                                    }
                                },
                            }
                        }
                        proof {
                            assert(task_views(children@).reverse() =~= Seq::<TaskView>::empty());
                            assert(task_views(self.stack@) =~= base + cv.reverse());
                            assert(base =~= old_views.drop_last());
                        }
                    },
                    _ => {
                        proof {
                            assert(false);
                        }
                    },
                }
            },
            CopyEvent::FileCopied => {
                self.stack.pop();
                proof {
                    assert(task_views(self.stack@) =~= old_views.drop_last());
                }
            },
            CopyEvent::Failed { message } => {
                self.failure = Some(message);
            },
        }
    }
}

} // verus!
