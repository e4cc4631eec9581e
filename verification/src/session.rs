//! The device session: the page-oriented protocol through which one raster is
//! handed to a printing device, and the orderly retreat when a step fails.
//!
//! The session performs no device call itself. It says which action comes
//! next; the caller performs it and reports how it went.

use vstd::prelude::*;
use vstd::string::StringExecFns;

verus! {

/// Where a device session stands.
#[derive(Clone, Copy, Debug, PartialEq, Eq, Structural)]
pub enum SessionState {
    /// Nothing is open: before the job, and after it went through.
    Closed,
    /// The device is open.
    Opened,
    /// A document is started on the device.
    DocumentStarted,
    /// A page is started in the document.
    PageStarted,
    /// A step was rejected. Terminal.
    Aborted,
}

/// A step of the protocol.
#[derive(Clone, Copy, Debug, PartialEq, Eq, Structural)]
pub enum Command {
    /// Open the device of the job's printer.
    Open,
    /// Start a document under the job's label.
    BeginDocument,
    /// Start the page.
    BeginPage,
    /// Draw the raster into its destination on the printable area, which
    /// is where [`destination_rect`](crate::geometry::destination_rect)
    /// puts it.
    SubmitRaster,
    /// End the page.
    EndPage,
    /// End the document, which hands it to the spooler.
    EndDocument,
    /// Close the device.
    Close,
}

/// What a session holds open on the device.
#[derive(Clone, Copy, Debug, PartialEq, Eq, Structural)]
pub enum Resource {
    /// The handle of the opened device.
    Device,
    /// The document that was started on the device.
    Document,
    /// The page that was started in the document.
    Page,
}

/// What the caller has to do next.
#[derive(Clone, Copy, Debug, PartialEq, Eq, Structural)]
pub enum Action {
    /// Perform this protocol step and report how it went.
    Issue(Command),
    /// Give this resource back to the device (best effort) and report.
    Release(Resource),
    /// The job is printed and the session is closed.
    Succeed,
    /// The job failed and everything is released: surface the error.
    Fail,
}

/// The protocol's transition table. `None` where the command is not allowed
/// in the state.
pub open spec fn transition(state: SessionState, command: Command) -> Option<SessionState> {
    match (state, command) {
        (SessionState::Closed, Command::Open) => Some(SessionState::Opened),
        (SessionState::Opened, Command::BeginDocument) => Some(SessionState::DocumentStarted),
        (SessionState::DocumentStarted, Command::BeginPage) => Some(SessionState::PageStarted),
        (SessionState::PageStarted, Command::SubmitRaster) => Some(SessionState::PageStarted),
        (SessionState::PageStarted, Command::EndPage) => Some(SessionState::DocumentStarted),
        (SessionState::DocumentStarted, Command::EndDocument) => Some(SessionState::Opened),
        (SessionState::Opened, Command::Close) => Some(SessionState::Closed),
        _ => None,
    }
}

/// The resource that a command acquires when it succeeds.
pub open spec fn acquires(command: Command) -> Option<Resource> {
    match command {
        Command::Open => Some(Resource::Device),
        Command::BeginDocument => Some(Resource::Document),
        Command::BeginPage => Some(Resource::Page),
        _ => None,
    }
}

/// The resource that a command gives back when it succeeds.
pub open spec fn releases(command: Command) -> Option<Resource> {
    match command {
        Command::EndPage => Some(Resource::Page),
        Command::EndDocument => Some(Resource::Document),
        Command::Close => Some(Resource::Device),
        _ => None,
    }
}

/// The resources open in a state, in the order in which they were acquired.
pub open spec fn held_in(state: SessionState) -> Seq<Resource> {
    match state {
        SessionState::Closed => seq![],
        SessionState::Opened => seq![Resource::Device],
        SessionState::DocumentStarted => seq![Resource::Device, Resource::Document],
        SessionState::PageStarted => seq![Resource::Device, Resource::Document, Resource::Page],
        SessionState::Aborted => seq![],
    }
}

/// Number of steps in a job.
pub const SCRIPT_LEN: u8 = 7;

/// The steps of a job, in order: one document, one page, one raster.
pub open spec fn script() -> Seq<Command> {
    seq![
        Command::Open,
        Command::BeginDocument,
        Command::BeginPage,
        Command::SubmitRaster,
        Command::EndPage,
        Command::EndDocument,
        Command::Close,
    ]
}

/// The state of a session in which the first `completed` steps of the script
/// have succeeded.
pub open spec fn state_after(completed: nat) -> SessionState {
    if completed == 1 || completed == 6 {
        SessionState::Opened
    } else if completed == 2 || completed == 5 {
        SessionState::DocumentStarted
    } else if completed == 3 || completed == 4 {
        SessionState::PageStarted
    } else {
        SessionState::Closed
    }
}

/// Book-keeping of acquisitions and releases along a run of successful
/// commands: what has been acquired and not given back, oldest first.
pub open spec fn ledger(commands: Seq<Command>) -> Seq<Resource>
    decreases commands.len(),
{
    if commands.len() == 0 {
        seq![]
    } else {
        let before = ledger(commands.drop_last());
        let command = commands.last();
        if acquires(command) is Some {
            before.push(acquires(command).unwrap())
        } else if releases(command) is Some && before.len() > 0 && before.last() == releases(
            command,
        ).unwrap() {
            before.drop_last()
        } else {
            before
        }
    }
}

/// The mathematical content of a [`DeviceSession`].
pub struct SessionView {
    /// Name of the printer this session is for.
    pub printer_name: Seq<char>,
    /// How many steps of the script have succeeded.
    pub completed: nat,
    /// The device's words on the step it rejected, if it rejected one.
    pub failure: Option<Seq<char>>,
    /// What is open on the device and not yet released, oldest first.
    pub held: Seq<Resource>,
}

impl SessionView {
    /// What holds of every session, whatever has been reported to it.
    pub open spec fn well_formed(self) -> bool {
        &&& self.completed <= SCRIPT_LEN
        &&& self.failure is None ==> self.held == held_in(state_after(self.completed))
        &&& self.failure is Some ==> {
            &&& self.completed < SCRIPT_LEN
            &&& self.held.len() <= held_in(state_after(self.completed)).len()
            &&& self.held == held_in(state_after(self.completed)).take(self.held.len() as int)
        }
    }

    /// A fresh session for the printer of this name.
    pub open spec fn fresh(printer_name: Seq<char>) -> SessionView {
        SessionView { printer_name, completed: 0, failure: None, held: seq![] }
    }

    /// Where the session stands in the protocol.
    pub open spec fn state(self) -> SessionState {
        if self.failure is Some {
            SessionState::Aborted
        } else {
            state_after(self.completed)
        }
    }

    /// What the caller has to do next.
    pub open spec fn pending(self) -> Action {
        if self.failure is Some {
            if self.held.len() > 0 {
                Action::Release(self.held.last())
            } else {
                Action::Fail
            }
        } else if self.completed < SCRIPT_LEN {
            Action::Issue(script()[self.completed as int])
        } else {
            Action::Succeed
        }
    }

    /// The session after the pending action succeeded.
    pub open spec fn after_success(self) -> SessionView {
        match self.pending() {
            Action::Issue(_) => SessionView {
                completed: self.completed + 1,
                held: held_in(state_after(self.completed + 1)),
                ..self
            },
            Action::Release(_) => SessionView { held: self.held.drop_last(), ..self },
            _ => self,
        }
    }

    /// The session after the pending action failed, in the words of `detail`.
    /// A rejected step aborts the session and keeps what was held. A failed
    /// release is not tried again: the resource counts as given back.
    pub open spec fn after_failure(self, detail: Seq<char>) -> SessionView {
        match self.pending() {
            Action::Issue(_) => SessionView { failure: Some(detail), ..self },
            Action::Release(_) => SessionView { held: self.held.drop_last(), ..self },
            _ => self,
        }
    }

    /// The step that was rejected, if one was.
    pub open spec fn failed_command(self) -> Option<Command> {
        if self.failure is Some && self.completed < SCRIPT_LEN {
            Some(script()[self.completed as int])
        } else {
            None
        }
    }

    /// The session after one report.
    pub open spec fn after(self, report: Report) -> SessionView {
        match report {
            Report::Succeeded => self.after_success(),
            Report::Failed(detail) => self.after_failure(detail),
        }
    }

    /// The session after a run of reports, first to last.
    pub open spec fn after_all(self, reports: Seq<Report>) -> SessionView
        decreases reports.len(),
    {
        if reports.len() == 0 {
            self
        } else {
            self.after_all(reports.drop_last()).after(reports.last())
        }
    }
}

/// What the caller reports of an action: that it succeeded, or that it
/// failed, with the device's words on it.
pub enum Report {
    Succeeded,
    Failed(Seq<char>),
}

/// Why a device session was aborted.
#[derive(Clone, Debug, PartialEq, Eq)]
pub struct DeviceError {
    /// The step of the session that the device rejected. `None` where the
    /// job was handed to a print command as a whole and that command failed.
    pub command: Option<Command>,
    /// The printer that the job was for.
    pub printer: String,
    /// The device's own words, as far as it had any.
    pub detail: String,
}

/// How a command is called in messages.
pub open spec fn command_label(command: Command) -> Seq<char> {
    match command {
        Command::Open => "open"@,
        Command::BeginDocument => "begin document"@,
        Command::BeginPage => "begin page"@,
        Command::SubmitRaster => "submit raster"@,
        Command::EndPage => "end page"@,
        Command::EndDocument => "end document"@,
        Command::Close => "close"@,
    }
}

fn command_name(command: Command) -> (name: &'static str)
    ensures
        name@ == command_label(command),
{
    match command {
        Command::Open => "open",
        Command::BeginDocument => "begin document",
        Command::BeginPage => "begin page",
        Command::SubmitRaster => "submit raster",
        Command::EndPage => "end page",
        Command::EndDocument => "end document",
        Command::Close => "close",
    }
}

impl DeviceError {
    /// The text of [`DeviceError::message`]: it names the printer, the step
    /// and the device's words.
    pub open spec fn message_text(self) -> Seq<char> {
        "Device error on printer '"@ + self.printer@ + "' ("@ + (match self.command {
            Some(command) => command_label(command),
            None => "print command"@,
        }) + "): "@ + self.detail@
    }

    /// The error as one line for the operator.
    pub fn message(&self) -> (text: String)
        ensures
            text@ == self.message_text(),
    {
        let mut text = String::from_str("Device error on printer '");
        text.append(self.printer.as_str());
        text.append("' (");
        match self.command {
            Some(command) => {
                text.append(command_name(command));
            },
            None => {
                text.append("print command");
            },
        }
        text.append("): ");
        text.append(self.detail.as_str());
        text
    }
}

/// One job's session with a printing device.
///
/// A session is made for one job and never used again. It starts `Closed`,
/// walks the script step by step as the caller reports each success, and on
/// the first rejected step turns `Aborted`, has everything that is still open
/// released, newest first, and then fails.
pub struct DeviceSession {
    printer_name: String,
    completed: u8,
    failure: Option<String>,
    given_back: u8,
}

fn held_count(completed: u8) -> (count: u8)
    ensures
        count == held_in(state_after(completed as nat)).len(),
        count <= 3,
{
    if completed == 1 || completed == 6 {
        1
    } else if completed == 2 || completed == 5 {
        2
    } else if completed == 3 || completed == 4 {
        3
    } else {
        0
    }
}

fn script_command(step: u8) -> (command: Command)
    requires
        step < SCRIPT_LEN,
    ensures
        command == script()[step as int],
{
    if step == 0 {
        Command::Open
    } else if step == 1 {
        Command::BeginDocument
    } else if step == 2 {
        Command::BeginPage
    } else if step == 3 {
        Command::SubmitRaster
    } else if step == 4 {
        Command::EndPage
    } else if step == 5 {
        Command::EndDocument
    } else {
        Command::Close
    }
}

fn acquired_at(position: u8) -> (resource: Resource)
    requires
        position < 3,
    ensures
        forall|state: SessionState|
            position < held_in(state).len() ==> #[trigger] held_in(state)[position as int]
                == resource,
{
    if position == 0 {
        Resource::Device
    } else if position == 1 {
        Resource::Document
    } else {
        Resource::Page
    }
}

impl View for DeviceSession {
    type V = SessionView;

    closed spec fn view(&self) -> SessionView {
        let full = held_in(state_after(self.completed as nat));
        SessionView {
            printer_name: self.printer_name@,
            completed: self.completed as nat,
            failure: match self.failure {
                Some(detail) => Some(detail@),
                None => None,
            },
            held: full.take(full.len() - self.given_back),
        }
    }
}

impl DeviceSession {
    #[verifier::type_invariant]
    spec fn consistent(self) -> bool {
        &&& self.completed <= SCRIPT_LEN
        &&& self.given_back <= held_in(state_after(self.completed as nat)).len()
        &&& self.failure is None ==> self.given_back == 0
        &&& self.failure is Some ==> self.completed < SCRIPT_LEN
    }

    /// A session for one job on the printer of this name. Nothing is open
    /// yet.
    pub fn new(printer_name: String) -> (session: DeviceSession)
        ensures
            session@ == SessionView::fresh(printer_name@),
            session@.well_formed(),
    {
        let session = DeviceSession { printer_name, completed: 0, failure: None, given_back: 0 };
        assert(session@.held =~= Seq::<Resource>::empty());
        session
    }

    /// The printer this session is for.
    pub fn printer_name(&self) -> (name: &str)
        ensures
            name@ == self@.printer_name,
    {
        self.printer_name.as_str()
    }

    /// Where the session stands in the protocol.
    pub fn state(&self) -> (state: SessionState)
        ensures
            state == self@.state(),
            self@.well_formed(),
    {
        proof {
            use_type_invariant(self);
            self.view_is_well_formed();
        }
        if self.failure.is_some() {
            SessionState::Aborted
        } else if self.completed == 1 || self.completed == 6 {
            SessionState::Opened
        } else if self.completed == 2 || self.completed == 5 {
            SessionState::DocumentStarted
        } else if self.completed == 3 || self.completed == 4 {
            SessionState::PageStarted
        } else {
            SessionState::Closed
        }
    }

    proof fn view_is_well_formed(self)
        requires
            self.consistent(),
        ensures
            self@.well_formed(),
    {
        let full = held_in(state_after(self.completed as nat));
        assert(full.take(full.len() as int) =~= full);
        let held = self@.held;
        assert(held =~= full.take(held.len() as int));
    }

    /// What is open on the device and not yet released, oldest first.
    pub fn held(&self) -> (held: Vec<Resource>)
        ensures
            held@ == self@.held,
            self@.well_formed(),
    {
        proof {
            use_type_invariant(self);
            self.view_is_well_formed();
        }
        let count: u8 = held_count(self.completed) - self.given_back;
        let mut held: Vec<Resource> = Vec::new();
        let mut position: u8 = 0;
        while position < count
            invariant
                position <= count,
                count <= 3,
                count == self@.held.len(),
                count <= held_in(state_after(self.completed as nat)).len(),
                self@.held == held_in(state_after(self.completed as nat)).take(count as int),
                held@ == self@.held.take(position as int),
            decreases count - position,
        {
            let resource = acquired_at(position);
            assert(held_in(state_after(self.completed as nat))[position as int] == resource);
            held.push(resource);
            position = position + 1;
            assert(held@ =~= self@.held.take(position as int));
        }
        assert(self@.held.take(count as int) =~= self@.held);
        held
    }

    /// What the caller has to do next.
    pub fn next_action(&self) -> (action: Action)
        ensures
            action == self@.pending(),
            self@.well_formed(),
    {
        proof {
            use_type_invariant(self);
            self.view_is_well_formed();
        }
        if self.failure.is_some() {
            let count: u8 = held_count(self.completed) - self.given_back;
            if count > 0 {
                Action::Release(acquired_at(count - 1))
            } else {
                Action::Fail
            }
        } else if self.completed < SCRIPT_LEN {
            Action::Issue(script_command(self.completed))
        } else {
            Action::Succeed
        }
    }

    /// Reports that the pending action succeeded. At the end of a session
    /// there is nothing to report and nothing changes.
    pub fn report_success(&mut self)
        ensures
            final(self)@ == old(self)@.after_success(),
            final(self)@.well_formed(),
    {
        proof {
            use_type_invariant(&*self);
            self.view_is_well_formed();
            lemma_reports_keep_well_formed(self@, seq![]);
        }
        if self.failure.is_some() {
            if self.given_back < held_count(self.completed) {
                self.given_back = self.given_back + 1;
            }
        } else if self.completed < SCRIPT_LEN {
            self.completed = self.completed + 1;
        }
        assert(self@.held =~= old(self)@.after_success().held);
    }

    /// Reports that the pending action failed, with the device's words on
    /// it. A rejected step aborts the session. A release that fails is not
    /// tried again. At the end of a session nothing changes.
    pub fn report_failure(&mut self, detail: String)
        ensures
            final(self)@ == old(self)@.after_failure(detail@),
            final(self)@.well_formed(),
    {
        proof {
            use_type_invariant(&*self);
            self.view_is_well_formed();
            lemma_reports_keep_well_formed(self@, detail@);
        }
        if self.failure.is_some() {
            if self.given_back < held_count(self.completed) {
                self.given_back = self.given_back + 1;
            }
        } else if self.completed < SCRIPT_LEN {
            self.failure = Some(detail);
        }
        assert(self@.held =~= old(self)@.after_failure(detail@).held);
    }

    /// The error of an aborted session: the rejected step, the printer and
    /// the device's words. `None` while nothing was rejected.
    pub fn error(&self) -> (error: Option<DeviceError>)
        ensures
            error is Some <==> self@.failure is Some,
            error matches Some(e) ==> {
                &&& e.command == self@.failed_command()
                &&& e.command is Some
                &&& e.printer@ == self@.printer_name
                &&& Some(e.detail@) == self@.failure
            },
    {
        proof {
            use_type_invariant(self);
        }
        match &self.failure {
            Some(detail) => Some(
                DeviceError {
                    command: Some(script_command(self.completed)),
                    printer: self.printer_name.clone(),
                    detail: detail.clone(),
                },
            ),
            None => None,
        }
    }
}

/// The script is a walk through the transition table from `Closed` back to
/// `Closed`.
pub proof fn lemma_script_follows_transitions(step: nat)
    requires
        step < SCRIPT_LEN,
    ensures
        transition(state_after(step), script()[step as int]) == Some(state_after(step + 1)),
        state_after(0) == SessionState::Closed,
        state_after(SCRIPT_LEN as nat) == SessionState::Closed,
{
}

/// Before each step of the script, what the state holds open is exactly what
/// the earlier steps acquired and did not give back.
pub proof fn lemma_held_matches_ledger(step: nat)
    requires
        step <= SCRIPT_LEN,
    ensures
        held_in(state_after(step)) == ledger(script().take(step as int)),
    decreases step,
{
    let commands = script().take(step as int);
    if step == 0 {
        assert(commands.len() == 0);
    } else {
        lemma_held_matches_ledger((step - 1) as nat);
        assert(commands.drop_last() == script().take(step - 1));
        assert(commands.last() == script()[step - 1]);
        let before = ledger(commands.drop_last());
        assert(before == held_in(state_after((step - 1) as nat)));
        assert(held_in(state_after(step)) =~= ledger(commands));
    }
}

/// A job whose every step succeeds walks the script in order, holds at each
/// step what the protocol's state says, and ends closed with nothing held.
pub proof fn lemma_accepted_job_ends_closed(printer_name: Seq<char>, reports: Seq<Report>)
    requires
        reports.len() <= SCRIPT_LEN,
        forall|i: int| 0 <= i < reports.len() ==> reports[i] is Succeeded,
    ensures
        ({
            let steps = reports.len();
            let session = SessionView::fresh(printer_name).after_all(reports);
            &&& session.well_formed()
            &&& session.completed == steps
            &&& session.failure is None
            &&& session.state() == state_after(steps)
            &&& steps < SCRIPT_LEN ==> session.pending() == Action::Issue(script()[steps as int])
            &&& steps == SCRIPT_LEN ==> session.pending() == Action::Succeed
                && session.state() == SessionState::Closed && session.held.len() == 0
        }),
    decreases reports.len(),
{
    if reports.len() > 0 {
        lemma_accepted_job_ends_closed(printer_name, reports.drop_last());
    } else {
        assert(SessionView::fresh(printer_name).held =~= held_in(state_after(0)));
    }
}

/// Every report leaves a well-formed session well-formed, and a release
/// leaves the same session behind whether it succeeded or not.
pub proof fn lemma_reports_keep_well_formed(session: SessionView, detail: Seq<char>)
    requires
        session.well_formed(),
    ensures
        session.after_success().well_formed(),
        session.after_failure(detail).well_formed(),
        session.pending() is Release ==> session.after_failure(detail) == session.after_success(),
{
    let held = session.held;
    let full = held_in(state_after(session.completed));
    if session.failure is Some && held.len() > 0 {
        assert(held.drop_last() =~= full.take(held.len() - 1));
    }
    if session.failure is None && session.completed < SCRIPT_LEN {
        assert(held =~= full.take(held.len() as int));
    }
}

/// A rejected step acquires nothing and loses nothing: the aborted session
/// holds exactly what the earlier steps had acquired and not given back.
pub proof fn lemma_rejection_keeps_earlier_acquisitions(session: SessionView, detail: Seq<char>)
    requires
        session.well_formed(),
        session.pending() is Issue,
    ensures
        session.after_failure(detail).state() == SessionState::Aborted,
        session.after_failure(detail).held == ledger(script().take(session.completed as int)),
        session.after_failure(detail).failed_command() == Some(session.pending()->Issue_0),
        acquires(session.pending()->Issue_0) matches Some(resource) ==> !session.after_failure(
            detail,
        ).held.contains(resource),
{
    lemma_held_matches_ledger(session.completed);
}

/// An aborted session gives back everything it holds, newest first, and
/// only then fails: with `n` resources held, its next `n` actions are the
/// releases of those resources in reverse order of acquisition, whatever is
/// reported of each, and the action after them is `Fail`.
pub proof fn lemma_abort_releases_in_reverse(session: SessionView, reports: Seq<Report>)
    requires
        session.well_formed(),
        session.failure is Some,
        reports.len() <= session.held.len(),
    ensures
        ({
            let k = reports.len();
            let later = session.after_all(reports);
            &&& later.well_formed()
            &&& later.failure == session.failure
            &&& later.completed == session.completed
            &&& later.held == session.held.take(session.held.len() - k)
            &&& k < session.held.len() ==> later.pending() == Action::Release(
                session.held[session.held.len() - 1 - k],
            )
            &&& k == session.held.len() ==> later.pending() == Action::Fail
        }),
    decreases reports.len(),
{
    if reports.len() == 0 {
        assert(session.held.take(session.held.len() as int) =~= session.held);
    } else {
        lemma_abort_releases_in_reverse(session, reports.drop_last());
        let before = session.after_all(reports.drop_last());
        match reports.last() {
            Report::Succeeded => {
                lemma_reports_keep_well_formed(before, seq![]);
            },
            Report::Failed(detail) => {
                lemma_reports_keep_well_formed(before, detail);
            },
        }
        assert(before.held.drop_last() =~= session.held.take(
            session.held.len() - reports.len(),
        ));
    }
}

/// A failure at any step of a job leaks nothing and releases nothing that
/// was not acquired: when step `step` is rejected after the steps before it
/// succeeded, the session is aborted holding exactly what those earlier
/// steps acquired and had not given back; its next actions release exactly
/// that, newest first, whatever is reported of each release; and then it
/// fails, holding nothing.
pub proof fn lemma_failure_at_any_step_leaks_nothing(
    printer_name: Seq<char>,
    step: nat,
    detail: Seq<char>,
    releases: Seq<Report>,
)
    requires
        step < SCRIPT_LEN,
        releases.len() <= ledger(script().take(step as int)).len(),
    ensures
        ({
            let accepted = Seq::new(step, |i: int| Report::Succeeded);
            let aborted = SessionView::fresh(printer_name).after_all(accepted).after(
                Report::Failed(detail),
            );
            let acquired = ledger(script().take(step as int));
            let later = aborted.after_all(releases);
            &&& aborted.state() == SessionState::Aborted
            &&& aborted.failed_command() == Some(script()[step as int])
            &&& aborted.failure == Some(detail)
            &&& aborted.held == acquired
            &&& releases.len() < acquired.len() ==> later.pending() == Action::Release(
                acquired[acquired.len() - 1 - releases.len()],
            )
            &&& releases.len() == acquired.len() ==> later.pending() == Action::Fail
                && later.held.len() == 0
        }),
{
    let accepted = Seq::new(step, |i: int| Report::Succeeded);
    let running = SessionView::fresh(printer_name).after_all(accepted);
    lemma_accepted_job_ends_closed(printer_name, accepted);
    lemma_rejection_keeps_earlier_acquisitions(running, detail);
    lemma_reports_keep_well_formed(running, detail);
    lemma_abort_releases_in_reverse(running.after_failure(detail), releases);
}

/// A session that has come to its end, either way, holds nothing, and no
/// report brings it back to life: a session serves one job.
pub proof fn lemma_ended_session_stays_ended(session: SessionView, report: Report)
    requires
        session.well_formed(),
        session.pending() == Action::Succeed || session.pending() == Action::Fail,
    ensures
        session.held.len() == 0,
        session.after(report) == session,
{
}

} // verus!
