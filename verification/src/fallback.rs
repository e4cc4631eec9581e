//! The fallback chain: an ordered list of external viewers that can print a
//! document silently, tried one after the other until one reports success.
//!
//! The chain launches nothing itself. It says what to look for, what to run
//! and how long to wait; the caller does so and reports how it went.

use vstd::prelude::*;
use vstd::string::StringExecFns;
use crate::text::{append_signed_decimal, join, joined, signed_decimal, texts};

verus! {

/// One piece of a candidate's command line.
#[derive(Clone, Debug, PartialEq, Eq)]
pub enum Argument {
    /// Passed as it stands.
    Literal(String),
    /// Replaced by the name of the printer.
    PrinterName,
    /// Replaced by the path of the document.
    DocumentPath,
}

/// An external executable that can submit a document to a printer.
#[derive(Clone, Debug, PartialEq, Eq)]
pub struct Candidate {
    /// Where the executable is expected.
    pub path: String,
    /// Its command line, in order.
    pub arguments: Vec<Argument>,
    /// How long to wait after a successful exit before the job counts as
    /// printed, for viewers that return before the spooler is done.
    /// Zero: the exit status alone decides.
    pub wait_millis: u64,
}

/// What the caller has to do next. `candidate` is an index into the list
/// that the chain was made with.
#[derive(Clone, Copy, Debug, PartialEq, Eq, Structural)]
pub enum ChainAction {
    /// Look whether the candidate's executable is present; report success
    /// if so, failure if not.
    Probe { candidate: usize },
    /// Run the candidate; report success if it exits successfully.
    Launch { candidate: usize },
    /// Wait this long, then report.
    Wait { candidate: usize, millis: u64 },
    /// This candidate printed the document.
    Succeed { candidate: usize },
    /// Every candidate was absent or failed.
    Fail,
}

/// Where the chain stands with its current candidate.
#[derive(Clone, Copy, Debug, PartialEq, Eq, Structural)]
pub enum Step {
    Probe,
    Launch,
    Wait,
    Done,
}

/// What one argument stands for on a command line for `printer` and
/// `document`.
pub open spec fn expanded_argument(
    argument: Argument,
    printer: Seq<char>,
    document: Seq<char>,
) -> Seq<char> {
    match argument {
        Argument::Literal(text) => text@,
        Argument::PrinterName => printer,
        Argument::DocumentPath => document,
    }
}

/// The command line that `arguments` stand for.
pub open spec fn expanded(arguments: Seq<Argument>, printer: Seq<char>, document: Seq<char>) -> Seq<
    Seq<char>,
> {
    Seq::new(arguments.len(), |i: int| expanded_argument(arguments[i], printer, document))
}

/// The note left for a candidate whose executable is not there.
pub open spec fn absent_note(candidate: Candidate) -> Seq<char> {
    candidate.path@ + ": not found"@
}

/// The note left for a candidate that ran and failed, in the words of
/// `detail`.
pub open spec fn failed_note(candidate: Candidate, detail: Seq<char>) -> Seq<char> {
    candidate.path@ + ": "@ + detail
}

/// What is said of a candidate that ran and did not exit successfully: its
/// exit code, if it has one, and what it wrote.
pub open spec fn exit_detail_text(exit_code: Option<i32>, output: Seq<char>, error_output: Seq<char>) -> Seq<
    char,
> {
    "print failed (exit code "@ + (match exit_code {
        Some(code) => "Some("@ + signed_decimal(code as int) + ")"@,
        None => "None"@,
    }) + "). stdout: "@ + output + " stderr: "@ + error_output
}

/// Puts into words how a candidate failed, for [`FallbackChain::report_failure`].
pub fn exit_detail(exit_code: Option<i32>, output: &str, error_output: &str) -> (detail: String)
    ensures
        detail@ == exit_detail_text(exit_code, output@, error_output@),
{
    let mut detail = String::from_str("print failed (exit code ");
    match exit_code {
        Some(code) => {
            detail.append("Some(");
            append_signed_decimal(&mut detail, code as i64);
            detail.append(")");
            assert(detail@ =~= "print failed (exit code "@ + ("Some("@ + signed_decimal(code as int)
                + ")"@));
        },
        None => {
            detail.append("None");
        },
    }
    detail.append("). stdout: ");
    detail.append(output);
    detail.append(" stderr: ");
    detail.append(error_output);
    detail
}

impl Candidate {
    /// The arguments to run this candidate with, for this printer and this
    /// document.
    pub fn command_line(&self, printer: &str, document: &str) -> (line: Vec<String>)
        ensures
            texts(line@) == expanded(self.arguments@, printer@, document@),
    {
        let mut line: Vec<String> = Vec::new();
        let mut i: usize = 0;
        while i < self.arguments.len()
            invariant
                i <= self.arguments.len(),
                line@.len() == i,
                texts(line@) == expanded(self.arguments@, printer@, document@).take(i as int),
            decreases self.arguments.len() - i,
        {
            let argument = &self.arguments[i];
            let piece = match argument {
                Argument::Literal(text) => text.clone(),
                Argument::PrinterName => String::from_str(printer),
                Argument::DocumentPath => String::from_str(document),
            };
            assert(piece@ == expanded_argument(self.arguments@[i as int], printer@, document@));
            let ghost before = line@;
            line.push(piece);
            i += 1;
            assert forall|j: int| 0 <= j < i implies #[trigger] texts(line@)[j] == expanded(
                self.arguments@,
                printer@,
                document@,
            )[j] by {
                if j < i - 1 {
                    assert(texts(before)[j] == before[j]@);
                }
            }
            assert(texts(line@) =~= expanded(self.arguments@, printer@, document@).take(i as int));
        }
        assert(expanded(self.arguments@, printer@, document@).take(i as int) =~= expanded(
            self.arguments@,
            printer@,
            document@,
        ));
        line
    }
}

/// The mathematical content of a [`FallbackChain`].
pub struct ChainView {
    /// The candidates, in order of priority.
    pub candidates: Seq<Candidate>,
    /// One note for each candidate that was tried and did not print, in
    /// order. The current candidate is the one after them.
    pub attempts: Seq<Seq<char>>,
    /// Where the chain stands with the current candidate.
    pub step: Step,
}

impl ChainView {
    /// What holds of every chain, whatever has been reported to it.
    pub open spec fn well_formed(self) -> bool {
        &&& self.attempts.len() <= self.candidates.len() <= usize::MAX
        &&& forall|i: int|
            0 <= i < self.attempts.len() ==> self.candidates[i].path@.is_prefix_of(
                #[trigger] self.attempts[i],
            )
    }

    /// A chain that has tried nothing yet.
    pub open spec fn fresh(candidates: Seq<Candidate>) -> ChainView {
        ChainView { candidates, attempts: seq![], step: Step::Probe }
    }

    /// Index of the current candidate.
    pub open spec fn position(self) -> nat {
        self.attempts.len()
    }

    /// The candidate that the chain is busy with.
    pub open spec fn current(self) -> Candidate
        recommends
            self.position() < self.candidates.len(),
    {
        self.candidates[self.position() as int]
    }

    /// What the caller has to do next.
    pub open spec fn pending(self) -> ChainAction {
        let candidate = self.position() as usize;
        if self.position() >= self.candidates.len() {
            ChainAction::Fail
        } else {
            match self.step {
                Step::Probe => ChainAction::Probe { candidate },
                Step::Launch => ChainAction::Launch { candidate },
                Step::Wait => ChainAction::Wait { candidate, millis: self.current().wait_millis },
                Step::Done => ChainAction::Succeed { candidate },
            }
        }
    }

    /// The chain after the pending action succeeded: a candidate that is
    /// present is launched; one that exits successfully has printed, after
    /// its wait if it has one.
    pub open spec fn after_success(self) -> ChainView {
        match self.pending() {
            ChainAction::Probe { .. } => ChainView { step: Step::Launch, ..self },
            ChainAction::Launch { .. } => ChainView {
                step: if self.current().wait_millis > 0 {
                    Step::Wait
                } else {
                    Step::Done
                },
                ..self
            },
            ChainAction::Wait { .. } => ChainView { step: Step::Done, ..self },
            _ => self,
        }
    }

    /// The chain after the pending action failed, in the words of `detail`:
    /// a candidate that is absent or exits with a failure is noted and the
    /// next one is taken up. A wait has no way to fail and counts as over.
    pub open spec fn after_failure(self, detail: Seq<char>) -> ChainView {
        match self.pending() {
            ChainAction::Probe { .. } => ChainView {
                attempts: self.attempts.push(absent_note(self.current())),
                step: Step::Probe,
                ..self
            },
            ChainAction::Launch { .. } => ChainView {
                attempts: self.attempts.push(failed_note(self.current(), detail)),
                step: Step::Probe,
                ..self
            },
            ChainAction::Wait { .. } => ChainView { step: Step::Done, ..self },
            _ => self,
        }
    }

    /// The chain after `count` failures in a row.
    pub open spec fn after_failures(self, count: nat, detail: Seq<char>) -> ChainView
        decreases count,
    {
        if count == 0 {
            self
        } else {
            self.after_failures((count - 1) as nat, detail).after_failure(detail)
        }
    }
}

/// Every candidate of a fallback chain was absent or failed.
#[derive(Clone, Debug, PartialEq, Eq)]
pub struct NoBackendAvailable {
    /// One note for each candidate that was tried, in order: its path and
    /// what went wrong with it.
    pub attempts: Vec<String>,
}

impl NoBackendAvailable {
    /// The text of [`NoBackendAvailable::message`]: it lists what was tried.
    pub open spec fn message_text(self) -> Seq<char> {
        "No print backend available. Tried: "@ + joined(texts(self.attempts@), "; "@)
    }

    /// The error as one line for the operator.
    pub fn message(&self) -> (text: String)
        ensures
            text@ == self.message_text(),
    {
        let mut text = String::from_str("No print backend available. Tried: ");
        let list = join(&self.attempts, "; ");
        text.append(list.as_str());
        text
    }
}

/// A fallback chain at work on one job.
pub struct FallbackChain {
    candidates: Vec<Candidate>,
    attempts: Vec<String>,
    step: Step,
}

impl View for FallbackChain {
    type V = ChainView;

    closed spec fn view(&self) -> ChainView {
        ChainView {
            candidates: self.candidates@,
            attempts: texts(self.attempts@),
            step: self.step,
        }
    }
}

impl FallbackChain {
    #[verifier::type_invariant]
    spec fn consistent(self) -> bool {
        &&& self.attempts@.len() <= self.candidates@.len()
        &&& forall|i: int|
            0 <= i < self.attempts@.len() ==> self.candidates@[i].path@.is_prefix_of(
                #[trigger] self.attempts@[i]@,
            )
    }

    proof fn view_is_well_formed(self)
        requires
            self.consistent(),
            self.candidates@.len() <= usize::MAX,
        ensures
            self@.well_formed(),
    {
        assert forall|i: int| 0 <= i < self@.attempts.len() implies self@.candidates[i].path@.is_prefix_of(
            #[trigger] self@.attempts[i],
        ) by {
            assert(self@.attempts[i] == self.attempts@[i]@);
        }
    }

    /// A chain over these candidates, first to last. Nothing is tried yet.
    pub fn new(candidates: Vec<Candidate>) -> (chain: FallbackChain)
        ensures
            chain@ == ChainView::fresh(candidates@),
            chain@.well_formed(),
    {
        let count: usize = candidates.len();
        let chain = FallbackChain { candidates, attempts: Vec::new(), step: Step::Probe };
        assert(chain@.attempts =~= Seq::<Seq<char>>::empty());
        chain
    }

    /// The candidates, in order of priority.
    pub fn candidates(&self) -> (candidates: &Vec<Candidate>)
        ensures
            candidates@ == self@.candidates,
    {
        &self.candidates
    }

    /// One note for each candidate that was tried and did not print.
    pub fn attempts(&self) -> (attempts: &Vec<String>)
        ensures
            texts(attempts@) == self@.attempts,
    {
        &self.attempts
    }

    /// What the caller has to do next.
    pub fn next_action(&self) -> (action: ChainAction)
        ensures
            action == self@.pending(),
            self@.well_formed(),
    {
        let count: usize = self.candidates.len();
        proof {
            use_type_invariant(self);
            self.view_is_well_formed();
        }
        let candidate: usize = self.attempts.len();
        if candidate >= count {
            ChainAction::Fail
        } else {
            match self.step {
                Step::Probe => ChainAction::Probe { candidate },
                Step::Launch => ChainAction::Launch { candidate },
                Step::Wait => ChainAction::Wait {
                    candidate,
                    millis: self.candidates[candidate].wait_millis,
                },
                Step::Done => ChainAction::Succeed { candidate },
            }
        }
    }

    /// Reports that the pending action succeeded: the executable is there,
    /// the candidate exited successfully, or the wait is over. At the end of
    /// a chain nothing changes.
    pub fn report_success(&mut self)
        ensures
            final(self)@ == old(self)@.after_success(),
            final(self)@.well_formed(),
    {
        let count: usize = self.candidates.len();
        proof {
            use_type_invariant(&*self);
            self.view_is_well_formed();
            lemma_reports_keep_well_formed(self@, seq![]);
        }
        let candidate: usize = self.attempts.len();
        if candidate < self.candidates.len() {
            match self.step {
                Step::Probe => {
                    self.step = Step::Launch;
                },
                Step::Launch => {
                    if self.candidates[candidate].wait_millis > 0 {
                        self.step = Step::Wait;
                    } else {
                        self.step = Step::Done;
                    }
                },
                Step::Wait => {
                    self.step = Step::Done;
                },
                Step::Done => {},
            }
        }
    }

    /// Adds the note of the current candidate, which thereby is done with.
    fn note(&mut self, note: String)
        requires
            old(self).attempts@.len() < old(self).candidates@.len(),
            old(self).candidates@[old(self).attempts@.len() as int].path@.is_prefix_of(note@),
        ensures
            final(self).candidates == old(self).candidates,
            final(self).step == old(self).step,
            final(self).attempts@ == old(self).attempts@.push(note),
    {
        proof {
            use_type_invariant(&*self);
        }
        let mut attempts: Vec<String> = Vec::new();
        std::mem::swap(&mut self.attempts, &mut attempts);
        attempts.push(note);
        std::mem::swap(&mut self.attempts, &mut attempts);
    }

    /// Reports that the pending action failed: the executable is not there,
    /// or the candidate could not be run or exited with a failure, of which
    /// `detail` says what is known. The chain notes it and takes up the next
    /// candidate. At the end of a chain nothing changes.
    pub fn report_failure(&mut self, detail: String)
        ensures
            final(self)@ == old(self)@.after_failure(detail@),
            final(self)@.well_formed(),
    {
        let count: usize = self.candidates.len();
        proof {
            use_type_invariant(&*self);
            self.view_is_well_formed();
            lemma_reports_keep_well_formed(self@, detail@);
        }
        let candidate: usize = self.attempts.len();
        if candidate < self.candidates.len() {
            match self.step {
                Step::Probe => {
                    let mut note = self.candidates[candidate].path.clone();
                    note.append(": not found");
                    self.note(note);
                    assert(texts(self.attempts@) =~= old(self)@.after_failure(detail@).attempts);
                },
                Step::Launch => {
                    let mut note = self.candidates[candidate].path.clone();
                    note.append(": ");
                    note.append(detail.as_str());
                    self.note(note);
                    self.step = Step::Probe;
                    assert(texts(self.attempts@) =~= old(self)@.after_failure(detail@).attempts);
                },
                Step::Wait => {
                    self.step = Step::Done;
                },
                Step::Done => {},
            }
        }
    }

    /// The error of an exhausted chain, with its notes. `None` while a
    /// candidate is left or one has printed.
    pub fn error(&self) -> (error: Option<NoBackendAvailable>)
        ensures
            error is Some <==> self@.pending() == ChainAction::Fail,
            error matches Some(e) ==> texts(e.attempts@) == self@.attempts,
    {
        if self.attempts.len() >= self.candidates.len() {
            let mut attempts: Vec<String> = Vec::new();
            let mut i: usize = 0;
            while i < self.attempts.len()
                invariant
                    i <= self.attempts.len(),
                    attempts@.len() == i,
                    forall|j: int| 0 <= j < i ==> attempts@[j]@ == self.attempts@[j]@,
                decreases self.attempts.len() - i,
            {
                attempts.push(self.attempts[i].clone());
                i += 1;
            }
            assert(texts(attempts@) =~= texts(self.attempts@));
            Some(NoBackendAvailable { attempts })
        } else {
            None
        }
    }
}

/// Every report leaves a well-formed chain well-formed, with the same
/// candidates, and never takes a note back.
pub proof fn lemma_reports_keep_well_formed(chain: ChainView, detail: Seq<char>)
    requires
        chain.well_formed(),
    ensures
        chain.after_success().well_formed(),
        chain.after_failure(detail).well_formed(),
        chain.after_success().candidates == chain.candidates,
        chain.after_failure(detail).candidates == chain.candidates,
        chain.after_success().attempts == chain.attempts,
        chain.attempts.is_prefix_of(chain.after_failure(detail).attempts),
{
    let next = chain.after_failure(detail);
    if chain.position() < chain.candidates.len() {
        let candidate = chain.candidates[chain.position() as int];
        assert(candidate.path@.is_prefix_of(absent_note(candidate)));
        assert(candidate.path@.is_prefix_of(failed_note(candidate, detail))) by {
            assert(failed_note(candidate, detail) =~= candidate.path@ + (": "@ + detail));
        }
    }
}

/// The chain succeeds only with the first candidate that is present and
/// exits successfully: when it says `Succeed`, every candidate before the
/// winner has its note, and the chain is done with the winner.
pub proof fn lemma_winner_follows_failed_candidates(chain: ChainView)
    requires
        chain.well_formed(),
        chain.pending() is Succeed,
    ensures
        chain.pending()->Succeed_candidate == chain.attempts.len(),
        chain.pending()->Succeed_candidate < chain.candidates.len(),
        chain.step == Step::Done,
{
}

/// What a truthful caller makes of the chain's pending action, in a world
/// where candidate `i` is there where `present[i]` says so and exits
/// successfully where `works[i]` says so, with `details[i]` as its words
/// where it fails. A wait comes to its end.
pub open spec fn truthful_step(
    chain: ChainView,
    present: Seq<bool>,
    works: Seq<bool>,
    details: Seq<Seq<char>>,
) -> ChainView {
    let i = chain.position() as int;
    match chain.pending() {
        ChainAction::Probe { .. } => if present[i] {
            chain.after_success()
        } else {
            chain.after_failure(details[i])
        },
        ChainAction::Launch { .. } => if works[i] {
            chain.after_success()
        } else {
            chain.after_failure(details[i])
        },
        _ => chain.after_success(),
    }
}

/// The chain after `steps` actions of a truthful caller.
pub open spec fn truthful_run(
    chain: ChainView,
    present: Seq<bool>,
    works: Seq<bool>,
    details: Seq<Seq<char>>,
    steps: nat,
) -> ChainView
    decreases steps,
{
    if steps == 0 {
        chain
    } else {
        truthful_run(
            truthful_step(chain, present, works, details),
            present,
            works,
            details,
            (steps - 1) as nat,
        )
    }
}

/// The first candidate at or after `from` that is there and works.
pub open spec fn first_working(present: Seq<bool>, works: Seq<bool>, from: int) -> Option<int>
    decreases present.len() - from,
{
    if from < 0 || from >= present.len() {
        None
    } else if present[from] && works[from] {
        Some(from)
    } else {
        first_working(present, works, from + 1)
    }
}

/// A chain that has come to its end stays there.
pub proof fn lemma_end_is_final(
    chain: ChainView,
    present: Seq<bool>,
    works: Seq<bool>,
    details: Seq<Seq<char>>,
    steps: nat,
)
    requires
        chain.pending() is Succeed || chain.pending() is Fail,
    ensures
        truthful_run(chain, present, works, details, steps) == chain,
    decreases steps,
{
    if steps > 0 {
        lemma_end_is_final(chain, present, works, details, (steps - 1) as nat);
    }
}

/// The first candidate that is there and works wins, and no other: a chain
/// that is about to probe a candidate, driven truthfully for three actions
/// per candidate left, ends with `Succeed` for the first of the candidates
/// left that is present and exits successfully, and with `Fail` where there
/// is none, every candidate noted.
pub proof fn lemma_first_working_candidate_wins(
    chain: ChainView,
    present: Seq<bool>,
    works: Seq<bool>,
    details: Seq<Seq<char>>,
    steps: nat,
)
    requires
        chain.well_formed(),
        chain.step == Step::Probe,
        present.len() == chain.candidates.len(),
        works.len() == chain.candidates.len(),
        details.len() == chain.candidates.len(),
        steps >= 3 * (chain.candidates.len() - chain.position()),
    ensures
        ({
            let end = truthful_run(chain, present, works, details, steps);
            &&& end.well_formed()
            &&& end.candidates == chain.candidates
            &&& match first_working(present, works, chain.position() as int) {
                Some(winner) => end.pending() == (ChainAction::Succeed {
                    candidate: winner as usize,
                }),
                None => end.pending() == ChainAction::Fail && end.attempts.len()
                    == chain.candidates.len(),
            }
        }),
    decreases chain.candidates.len() - chain.position(),
{
    let position = chain.position() as int;
    if position >= chain.candidates.len() {
        lemma_end_is_final(chain, present, works, details, steps);
    } else {
        let probed = truthful_step(chain, present, works, details);
        lemma_reports_keep_well_formed(chain, details[position]);
        assert(truthful_run(chain, present, works, details, steps) == truthful_run(
            probed,
            present,
            works,
            details,
            (steps - 1) as nat,
        ));
        if !present[position] {
            lemma_first_working_candidate_wins(probed, present, works, details, (steps - 1) as nat);
        } else {
            let launched = truthful_step(probed, present, works, details);
            lemma_reports_keep_well_formed(probed, details[position]);
            assert(truthful_run(probed, present, works, details, (steps - 1) as nat)
                == truthful_run(launched, present, works, details, (steps - 2) as nat));
            if !works[position] {
                lemma_first_working_candidate_wins(
                    launched,
                    present,
                    works,
                    details,
                    (steps - 2) as nat,
                );
            } else if launched.step == Step::Done {
                lemma_end_is_final(launched, present, works, details, (steps - 2) as nat);
            } else {
                let waited = truthful_step(launched, present, works, details);
                lemma_reports_keep_well_formed(launched, details[position]);
                assert(truthful_run(launched, present, works, details, (steps - 2) as nat)
                    == truthful_run(waited, present, works, details, (steps - 3) as nat));
                lemma_end_is_final(waited, present, works, details, (steps - 3) as nat);
            }
        }
    }
}

/// With no candidate present, the chain probes each in turn and then fails,
/// having noted every path in order.
pub proof fn lemma_all_absent_exhausts(candidates: Seq<Candidate>, detail: Seq<char>, k: nat)
    requires
        k <= candidates.len(),
        candidates.len() <= usize::MAX,
    ensures
        ({
            let chain = ChainView::fresh(candidates).after_failures(k, detail);
            &&& chain.well_formed()
            &&& chain.candidates == candidates
            &&& chain.attempts == Seq::new(k, |i: int| absent_note(candidates[i]))
            &&& k < candidates.len() ==> chain.pending() == (ChainAction::Probe {
                candidate: k as usize,
            })
            &&& k == candidates.len() ==> chain.pending() == ChainAction::Fail
        }),
    decreases k,
{
    let chain = ChainView::fresh(candidates).after_failures(k, detail);
    if k == 0 {
        assert(chain.attempts =~= Seq::new(0, |i: int| absent_note(candidates[i])));
    } else {
        lemma_all_absent_exhausts(candidates, detail, (k - 1) as nat);
        let before = ChainView::fresh(candidates).after_failures((k - 1) as nat, detail);
        lemma_reports_keep_well_formed(before, detail);
        assert(chain.attempts =~= Seq::new(k, |i: int| absent_note(candidates[i])));
    }
}

} // verus!
