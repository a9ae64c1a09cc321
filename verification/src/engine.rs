//! The action-tree resolution engine.
//!
//! A `Session` walks the configuration tree one interactive step at a time.
//! Each step returns a `Request` — show a picker, read a line, run a shell
//! command — and the caller feeds the result back through the matching
//! `on_*` method.  The walk ends in a `Request::Finished` carrying the
//! session's outcome.
//!
//! Cancellation is cooperative: the caller reads the process-wide
//! cancellation flag before every step and passes it in; an observed flag
//! ends the session at once with `Outcome::Aborted`, before any further
//! picker call or shell execution.  A picker returning no selection is not
//! an error: the whole resolution completes quietly with
//! `Outcome::Cancelled` and nothing is executed.

use vstd::prelude::*;
use vstd::pervasive::unreached;
use crate::template::subst;
use crate::template::substitute;
use crate::text::key_of;
use crate::text::lines_of;
use crate::text::selection_key;
use crate::text::split_lines;
use crate::tree::Action;
use crate::tree::Entry;
use crate::tree::Widget;
use crate::tree::candidates_of;
use crate::tree::clone_widget;
use crate::tree::find_label;
use crate::tree::join_labels;
use crate::tree::labels_joined;
use crate::tree::lookup;
use crate::tree::select_candidates;

verus! {

/// Why a captured shell run handed back no text.
pub enum ShellFailure {
    /// The subprocess could not be started.
    Spawn,
    /// The captured bytes were not valid text.
    Decode,
}

/// The failures a resolution can end in.
pub enum EngineError {
    /// The pre-supplied first selection matches no label; `available` lists
    /// the labels that would have matched, joined by `", "`.
    InvalidPreselection { available: String },
    /// A free-text read was interrupted or hit end-of-input.
    InputAborted,
    /// A subprocess could not be started.
    ShellSpawnFailure,
    /// Captured subprocess output was not valid text.
    ShellCaptureDecodeFailure,
    /// A selected label matched no child; unreachable when the candidates
    /// were built from the same children.
    ChildNotFound,
}

/// How a resolution ended.
pub enum Outcome {
    /// The final command was handed to the shell.
    Completed,
    /// The user backed out of a picker: a successful no-op.
    Cancelled,
    /// The cancellation flag was observed set: the process must end with
    /// the reserved exit code.
    Aborted,
    /// A real failure; the process must end with a non-zero exit code.
    Failed { error: EngineError },
}

/// What the engine asks its caller to do next.
pub enum Request {
    /// Offer `candidates` in a picker, with an optional preview-command
    /// template, and report the selection through `on_picked`.
    Pick { candidates: Vec<String>, preview: Option<String> },
    /// Read one line of user input and report it through `on_line`.
    ReadLine,
    /// Run `command` in a subshell, capture its output, and report it
    /// through `on_output`.
    RunCaptured { command: String },
    /// Run `command` in a subshell on the inherited terminal and report
    /// through `on_ran`; the command's own exit status is of no interest.
    RunInteractive { command: String },
    /// The resolution is over.
    Finished { outcome: Outcome },
}

/// The progress of one `Command` evaluation: arguments already collected,
/// one per completed widget.
pub struct CommandFrame {
    pub template: String,
    pub widgets: Vec<Widget>,
    pub args: Vec<String>,
}

impl CommandFrame {
    /// Arguments never outnumber widgets.
    pub open spec fn wf(self) -> bool {
        self.args@.len() <= self.widgets@.len()
    }

    /// Every widget has collected its argument.
    pub open spec fn done(self) -> bool {
        self.args@.len() == self.widgets@.len()
    }

    /// The widget the next collected value belongs to.
    pub open spec fn current_widget(self) -> Widget {
        self.widgets@[self.args@.len() as int]
    }
}

/// Where a session stands between two requests.
pub enum Phase {
    /// Not yet started; `start` resolves `node`.
    Ready { node: Action },
    /// A picker over a `Select`'s candidates is open.
    AwaitSelection { options: Vec<Entry> },
    /// A free-text prompt is open.
    AwaitLine { frame: CommandFrame },
    /// A widget's candidate-producing command is running.
    AwaitOutput { frame: CommandFrame, preview: Option<String> },
    /// A picker over a widget's candidate lines is open.
    AwaitWidgetSelection { frame: CommandFrame },
    /// The final command is running.
    AwaitRun,
    /// The session has ended; no step accepts this phase.
    Finished,
}

impl Phase {
    /// The data each phase carries is consistent: progress within bounds
    /// and the current widget of the right kind.
    pub open spec fn wf(self) -> bool {
        match self {
            Phase::AwaitLine { frame } => frame.wf() && !frame.done() && frame.current_widget()
                is FreeText,
            Phase::AwaitOutput { frame, preview } => frame.wf() && !frame.done()
                && (frame.current_widget() matches Widget::FromCommand { preview: p, .. }
                && preview == p),
            Phase::AwaitWidgetSelection { frame } => frame.wf() && !frame.done()
                && frame.current_widget() is FromCommand,
            _ => true,
        }
    }
}

/// One resolution of the tree: the pre-supplied first selection, consumed
/// by the first `Select` reached, and the current phase.
pub struct Session {
    pub preselection: Option<String>,
    pub phase: Phase,
}

/// The process exit code reserved for an observed cancellation flag.
pub const CANCEL_EXIT_CODE: u8 = 130;

/// The process exit code for any failure, the invalid pre-supplied
/// selection among them.
pub const FAILURE_EXIT_CODE: u8 = 1;

/// The exit code an outcome calls for: zero exactly on the quiet outcomes,
/// the reserved code on an observed cancellation flag.
pub fn exit_code(outcome: &Outcome) -> (c: u8)
    ensures
        c == 0 <==> (outcome is Completed || outcome is Cancelled),
        outcome is Aborted ==> c == CANCEL_EXIT_CODE,
        outcome is Failed ==> c == FAILURE_EXIT_CODE,
{
    match outcome {
        Outcome::Completed => 0,
        Outcome::Cancelled => 0,
        Outcome::Aborted => CANCEL_EXIT_CODE,
        Outcome::Failed { .. } => FAILURE_EXIT_CODE,
    }
}

/// The step observed the cancellation flag: the session is over and the
/// caller must end the process with the reserved exit code.
pub open spec fn aborted_step(post: Session, req: Request) -> bool {
    &&& post.phase is Finished
    &&& req == (Request::Finished { outcome: Outcome::Aborted })
}

/// The user backed out of a picker: the session is over, quietly, with
/// nothing executed.
pub open spec fn cancelled_step(post: Session, req: Request) -> bool {
    &&& post.phase is Finished
    &&& req == (Request::Finished { outcome: Outcome::Cancelled })
}

/// The step failed: the session is over with the given error.
pub open spec fn failed_step(post: Session, req: Request, error: EngineError) -> bool {
    &&& post.phase is Finished
    &&& req == (Request::Finished { outcome: Outcome::Failed { error } })
}

/// What advancing a command evaluation yields, given the collected argument
/// views.  With every widget done, the fully substituted template goes out
/// for interactive execution; otherwise the next widget decides: a free
/// text step opens a prompt, a candidate-producing step substitutes the
/// already-collected arguments into its own template and runs it captured.
pub open spec fn command_step_spec(
    pre: Option<String>,
    template: String,
    widgets: Vec<Widget>,
    args: Seq<Seq<char>>,
    post: Session,
    req: Request,
) -> bool {
    &&& post.preselection == pre
    &&& (if args.len() == widgets@.len() {
        post.phase is AwaitRun && (req matches Request::RunInteractive { command } && command@
            == subst(template@, args))
    } else if args.len() < widgets@.len() {
        match widgets@[args.len() as int] {
            Widget::FreeText => (post.phase matches Phase::AwaitLine { frame }
                && frame.template == template && frame.widgets == widgets
                && frame.args.deep_view() == args) && req == Request::ReadLine,
            Widget::FromCommand { command, preview } => (post.phase matches Phase::AwaitOutput {
                frame,
                preview: p,
            } && frame.template == template && frame.widgets == widgets && frame.args.deep_view()
                == args && p == preview) && (req matches Request::RunCaptured { command: c } && c@
                == subst(command@, args)),
        }
    } else {
        false
    })
}

/// What entering a node yields.  A `Select` opens a picker over its
/// formatted candidates, with no preview; a `Command` begins collecting
/// arguments with nothing collected yet.
pub open spec fn dispatch_spec(pre: Option<String>, node: Action, post: Session, req: Request) -> bool {
    match node {
        Action::Select { options, .. } => {
            &&& post.preselection == pre
            &&& (post.phase matches Phase::AwaitSelection { options: o } && o == options)
            &&& (req matches Request::Pick { candidates, preview } && candidates.deep_view()
                == candidates_of(options@) && preview is None)
        },
        Action::Command { command, widgets, .. } => command_step_spec(
            pre,
            command,
            widgets,
            Seq::empty(),
            post,
            req,
        ),
    }
}

/// What `start` yields when the flag is clear.  A pre-supplied selection is
/// consumed by the first `Select`: a matching label enters that child with
/// no picker call; a mismatch ends the whole session with
/// `InvalidPreselection` listing the labels, again without any picker call.
pub open spec fn start_spec(pre: Session, post: Session, req: Request) -> bool {
    let node = pre.phase->node;
    match node {
        Action::Select { options, .. } => {
            match pre.preselection {
                Some(p) => {
                    match lookup(options@, p@) {
                        Some(child) => dispatch_spec(None, child, post, req),
                        None => (post.phase is Finished && (req matches Request::Finished { outcome }
                            && (outcome matches Outcome::Failed { error } && (error
                            matches EngineError::InvalidPreselection { available } && available@
                            == labels_joined(options@))))),
                    }
                },
                None => dispatch_spec(None, node, post, req),
            }
        },
        Action::Command { .. } => dispatch_spec(pre.preselection, node, post, req),
    }
}

/// What handling a `Select` picker's selection yields: the selection is
/// split on its first colon to recover the child key, and the matching
/// child is entered; a key no child carries ends the session with
/// `ChildNotFound`.
pub open spec fn select_pick_spec(pre: Session, sel: Seq<char>, post: Session, req: Request) -> bool {
    let options = pre.phase->options;
    match lookup(options@, key_of(sel)) {
        Some(child) => dispatch_spec(pre.preselection, child, post, req),
        None => failed_step(post, req, EngineError::ChildNotFound),
    }
}

/// What handling a widget picker's selection yields: the selected line is
/// collected verbatim and the command evaluation advances.
pub open spec fn widget_pick_spec(pre: Session, sel: String, post: Session, req: Request) -> bool {
    let frame = pre.phase->AwaitWidgetSelection_frame;
    command_step_spec(
        pre.preselection,
        frame.template,
        frame.widgets,
        frame.args.deep_view().push(sel@),
        post,
        req,
    )
}

/// What handling a prompt line yields: the line is collected exactly as
/// read and the command evaluation advances.
pub open spec fn line_spec(pre: Session, line: String, post: Session, req: Request) -> bool {
    let frame = pre.phase->AwaitLine_frame;
    command_step_spec(
        pre.preselection,
        frame.template,
        frame.widgets,
        frame.args.deep_view().push(line@),
        post,
        req,
    )
}

/// What handling captured widget output yields: the text splits into lines
/// and a picker opens over them with the widget's own preview template.
pub open spec fn output_spec(pre: Session, text: String, post: Session, req: Request) -> bool {
    let frame = pre.phase->AwaitOutput_frame;
    let preview = pre.phase->preview;
    &&& post.preselection == pre.preselection
    &&& (post.phase matches Phase::AwaitWidgetSelection { frame: f } && f == frame)
    &&& (req matches Request::Pick { candidates, preview: p } && candidates.deep_view() == lines_of(
        text@,
    ) && p == preview)
}

fn command_step(preselection: Option<String>, frame: CommandFrame) -> (r: (Session, Request))
    requires
        frame.wf(),
    ensures
        r.0.phase.wf(),
        command_step_spec(
            preselection,
            frame.template,
            frame.widgets,
            frame.args.deep_view(),
            r.0,
            r.1,
        ),
{
    let args_len = frame.args.len();
    if args_len == frame.widgets.len() {
        let cmd = substitute(frame.template.as_str(), &frame.args);
        (
            Session { preselection, phase: Phase::AwaitRun },
            Request::RunInteractive { command: cmd },
        )
    } else {
        let cur = clone_widget(&frame.widgets[args_len]);
        match cur {
            Widget::FreeText => (
                Session { preselection, phase: Phase::AwaitLine { frame } },
                Request::ReadLine,
            ),
            Widget::FromCommand { command, preview } => {
                let cmd = substitute(command.as_str(), &frame.args);
                (
                    Session { preselection, phase: Phase::AwaitOutput { frame, preview } },
                    Request::RunCaptured { command: cmd },
                )
            },
        }
    }
}

fn dispatch(preselection: Option<String>, node: Action) -> (r: (Session, Request))
    ensures
        r.0.phase.wf(),
        dispatch_spec(preselection, node, r.0, r.1),
{
    match node {
        Action::Select { description: _, options } => {
            let candidates = select_candidates(&options);
            (
                Session { preselection, phase: Phase::AwaitSelection { options } },
                Request::Pick { candidates, preview: None },
            )
        },
        Action::Command { description, command, widgets } => {
            let frame = CommandFrame { template: command, widgets, args: Vec::new() };
            proof {
                assert(frame.args.deep_view() =~= Seq::<Seq<char>>::empty());
            }
            command_step(preselection, frame)
        },
    }
}

impl Session {
    /// A session over `root`, with an optional pre-supplied first
    /// selection.
    pub fn new(root: Action, preselection: Option<String>) -> (s: Session)
        ensures
            s.phase == (Phase::Ready { node: root }),
            s.preselection == preselection,
            s.phase.wf(),
    {
        Session { preselection, phase: Phase::Ready { node: root } }
    }

    /// Resolve the root node to the first request.
    pub fn start(self, cancelled: bool) -> (r: (Session, Request))
        requires
            self.phase.wf(),
            self.phase is Ready,
        ensures
            r.0.phase.wf(),
            cancelled ==> aborted_step(r.0, r.1),
            !cancelled ==> start_spec(self, r.0, r.1),
    {
        let Session { preselection, phase } = self;
        match phase {
            Phase::Ready { node } => {
                if cancelled {
                    return (
                        Session { preselection, phase: Phase::Finished },
                        Request::Finished { outcome: Outcome::Aborted },
                    );
                }
                match node {
                    Action::Select { description, options } => {
                        match preselection {
                            Some(p) => {
                                let mut options = options;
                                match find_label(&options, p.as_str()) {
                                    Some(i) => {
                                        let entry = options.remove(i);
                                        dispatch(None, entry.action)
                                    },
                                    None => {
                                        let available = join_labels(&options);
                                        (
                                            Session { preselection: None, phase: Phase::Finished },
                                            Request::Finished {
                                                outcome: Outcome::Failed {
                                                    error: EngineError::InvalidPreselection {
                                                        available,
                                                    },
                                                },
                                            },
                                        )
                                    },
                                }
                            },
                            None => dispatch(
                                None,
                                Action::Select { description, options },
                            ),
                        }
                    },
                    Action::Command { description, command, widgets } => dispatch(
                        preselection,
                        Action::Command { description, command, widgets },
                    ),
                }
            },
            _ => unreached(),
        }
    }

    /// Feed back a picker's result.  No selection ends the whole session
    /// quietly — cancelling a menu or a widget is a successful no-op, and
    /// nothing further runs.
    pub fn on_picked(self, cancelled: bool, selection: Option<String>) -> (r: (Session, Request))
        requires
            self.phase.wf(),
            self.phase is AwaitSelection || self.phase is AwaitWidgetSelection,
        ensures
            r.0.phase.wf(),
            cancelled ==> aborted_step(r.0, r.1),
            !cancelled && selection is None ==> cancelled_step(r.0, r.1),
            !cancelled && self.phase is AwaitSelection ==> (selection matches Some(sel)
                ==> select_pick_spec(self, sel@, r.0, r.1)),
            !cancelled && self.phase is AwaitWidgetSelection ==> (selection matches Some(sel)
                ==> widget_pick_spec(self, sel, r.0, r.1)),
    {
        let Session { preselection, phase } = self;
        if cancelled {
            return (
                Session { preselection, phase: Phase::Finished },
                Request::Finished { outcome: Outcome::Aborted },
            );
        }
        match phase {
            Phase::AwaitSelection { options } => {
                match selection {
                    None => (
                        Session { preselection, phase: Phase::Finished },
                        Request::Finished { outcome: Outcome::Cancelled },
                    ),
                    Some(sel) => {
                        let key = selection_key(sel.as_str());
                        let mut options = options;
                        match find_label(&options, key.as_str()) {
                            Some(i) => {
                                let entry = options.remove(i);
                                dispatch(preselection, entry.action)
                            },
                            None => (
                                Session { preselection, phase: Phase::Finished },
                                Request::Finished {
                                    outcome: Outcome::Failed {
                                        error: EngineError::ChildNotFound,
                                    },
                                },
                            ),
                        }
                    },
                }
            },
            Phase::AwaitWidgetSelection { frame } => {
                match selection {
                    None => (
                        Session { preselection, phase: Phase::Finished },
                        Request::Finished { outcome: Outcome::Cancelled },
                    ),
                    Some(sel) => {
                        let mut frame = frame;
                        let ghost args_old = frame.args.deep_view();
                        frame.args.push(sel);
                        proof {
                            assert(frame.args.deep_view() =~= args_old.push(sel@));
                        }
                        command_step(preselection, frame)
                    },
                }
            },
            _ => unreached(),
        }
    }

    /// Feed back a prompt's line, or its failure: an interrupted or
    /// exhausted read aborts the whole command with `InputAborted`.
    pub fn on_line(self, cancelled: bool, line: Option<String>) -> (r: (Session, Request))
        requires
            self.phase.wf(),
            self.phase is AwaitLine,
        ensures
            r.0.phase.wf(),
            cancelled ==> aborted_step(r.0, r.1),
            !cancelled && line is None ==> failed_step(r.0, r.1, EngineError::InputAborted),
            !cancelled ==> (line matches Some(l) ==> line_spec(self, l, r.0, r.1)),
    {
        let Session { preselection, phase } = self;
        if cancelled {
            return (
                Session { preselection, phase: Phase::Finished },
                Request::Finished { outcome: Outcome::Aborted },
            );
        }
        match phase {
            Phase::AwaitLine { frame } => {
                match line {
                    None => (
                        Session { preselection, phase: Phase::Finished },
                        Request::Finished {
                            outcome: Outcome::Failed { error: EngineError::InputAborted },
                        },
                    ),
                    Some(l) => {
                        let mut frame = frame;
                        let ghost args_old = frame.args.deep_view();
                        frame.args.push(l);
                        proof {
                            assert(frame.args.deep_view() =~= args_old.push(l@));
                        }
                        command_step(preselection, frame)
                    },
                }
            },
            _ => unreached(),
        }
    }

    /// Feed back a captured run's output, or its failure.
    pub fn on_output(self, cancelled: bool, output: Result<String, ShellFailure>) -> (r: (
        Session,
        Request,
    ))
        requires
            self.phase.wf(),
            self.phase is AwaitOutput,
        ensures
            r.0.phase.wf(),
            cancelled ==> aborted_step(r.0, r.1),
            !cancelled ==> (output matches Err(ShellFailure::Spawn) ==> failed_step(
                r.0,
                r.1,
                EngineError::ShellSpawnFailure,
            )),
            !cancelled ==> (output matches Err(ShellFailure::Decode) ==> failed_step(
                r.0,
                r.1,
                EngineError::ShellCaptureDecodeFailure,
            )),
            !cancelled ==> (output matches Ok(text) ==> output_spec(self, text, r.0, r.1)),
    {
        let Session { preselection, phase } = self;
        if cancelled {
            return (
                Session { preselection, phase: Phase::Finished },
                Request::Finished { outcome: Outcome::Aborted },
            );
        }
        match phase {
            Phase::AwaitOutput { frame, preview } => {
                match output {
                    Err(ShellFailure::Spawn) => (
                        Session { preselection, phase: Phase::Finished },
                        Request::Finished {
                            outcome: Outcome::Failed { error: EngineError::ShellSpawnFailure },
                        },
                    ),
                    Err(ShellFailure::Decode) => (
                        Session { preselection, phase: Phase::Finished },
                        Request::Finished {
                            outcome: Outcome::Failed {
                                error: EngineError::ShellCaptureDecodeFailure,
                            },
                        },
                    ),
                    Ok(text) => {
                        let lines = split_lines(text.as_str());
                        (
                            Session { preselection, phase: Phase::AwaitWidgetSelection { frame } },
                            Request::Pick { candidates: lines, preview },
                        )
                    },
                }
            },
            _ => unreached(),
        }
    }

    /// Feed back whether the final interactive command was started.  Its
    /// own exit status is of no interest: the engine's work ends at a
    /// successful spawn.
    pub fn on_ran(self, cancelled: bool, spawned: bool) -> (r: (Session, Request))
        requires
            self.phase.wf(),
            self.phase is AwaitRun,
        ensures
            r.0.phase.wf(),
            cancelled ==> aborted_step(r.0, r.1),
            !cancelled && !spawned ==> failed_step(r.0, r.1, EngineError::ShellSpawnFailure),
            !cancelled && spawned ==> r.0.phase is Finished && r.1 == (Request::Finished {
                outcome: Outcome::Completed,
            }),
    {
        let Session { preselection, phase } = self;
        if cancelled {
            return (
                Session { preselection, phase: Phase::Finished },
                Request::Finished { outcome: Outcome::Aborted },
            );
        }
        if spawned {
            (
                Session { preselection, phase: Phase::Finished },
                Request::Finished { outcome: Outcome::Completed },
            )
        } else {
            (
                Session { preselection, phase: Phase::Finished },
                Request::Finished { outcome: Outcome::Failed { error: EngineError::ShellSpawnFailure } },
            )
        }
    }
}

} // verus!
