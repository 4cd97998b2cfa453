//! The log correlator: a scan of a transaction's log lines that follows the
//! invocations of the target program and captures the payload of each
//! top-level creation that closed with success.

use vstd::prelude::*;
use vstd::string::StringExecFns;
use crate::text::{
    contains, contains_chars, starts_with, starts_with_chars, to_chars, trim_start_matches,
    trimmed_start,
};

verus! {

/// The program whose invocations are followed.
pub const PUMPFUN_PROGRAM_ID: &'static str = "6EF8rrecthR5Dkzon8Nwu78hRvfCKubJ14M5uBEwF6P";

/// The instruction that a top-level invocation runs.
#[derive(Clone, Copy, Debug, PartialEq, Eq, Structural)]
pub enum InstructionKind {
    Create,
    Trade,
}

/// What marks a line as an invocation of the target program.
pub open spec fn invoke_marker() -> Seq<char> {
    "Program "@ + PUMPFUN_PROGRAM_ID@ + " invoke"@
}

/// What marks a line as a successful return of the target program.
pub open spec fn success_marker() -> Seq<char> {
    "Program "@ + PUMPFUN_PROGRAM_ID@ + " success"@
}

/// What marks a line as naming an instruction.
pub open spec fn instruction_marker() -> Seq<char> {
    "Program log: Instruction:"@
}

/// What a data line begins with.
pub open spec fn data_prefix() -> Seq<char> {
    "Program data: "@
}

/// The line invokes the target program.
pub open spec fn is_invoke(line: Seq<char>) -> bool {
    contains(line, invoke_marker())
}

/// The line reports a successful return of the target program.
pub open spec fn is_success(line: Seq<char>) -> bool {
    contains(line, success_marker())
}

/// The line names an instruction.
pub open spec fn is_instruction(line: Seq<char>) -> bool {
    contains(line, instruction_marker())
}

/// The line is a data line.
pub open spec fn is_data(line: Seq<char>) -> bool {
    starts_with(line, data_prefix())
}

/// The instruction that an instruction line names, if it is one that the
/// scan knows.
pub open spec fn named_kind(line: Seq<char>) -> Option<InstructionKind> {
    if contains(line, "Create"@) {
        Some(InstructionKind::Create)
    } else if contains(line, "Buy"@) || contains(line, "Sell"@) {
        Some(InstructionKind::Trade)
    } else {
        None
    }
}

/// The payload of a data line: the line without its prefix, however often
/// the prefix is repeated.
pub open spec fn payload_of(line: Seq<char>) -> Seq<char> {
    trim_start_matches(line, data_prefix())
}

/// The state of a scan.
pub struct CorrelationModel {
    /// How many invocations of the target program are open.
    pub depth: nat,
    /// The instruction of the open top-level invocation, once a line has
    /// named it.
    pub pending_kind: Option<InstructionKind>,
    /// The longest payload since the open top-level invocation began.
    pub best_payload: Seq<char>,
}

/// A payload together with the instruction that emitted it.
pub struct CaptureModel {
    pub kind: InstructionKind,
    pub payload: Seq<char>,
}

/// The state in which a scan starts.
pub open spec fn initial() -> CorrelationModel {
    CorrelationModel { depth: 0, pending_kind: None, best_payload: Seq::empty() }
}

/// The best payload once `line` has been looked at as a data line: a
/// longer payload replaces the one held, an equally long one does not.
pub open spec fn with_candidate(best: Seq<char>, line: Seq<char>) -> Seq<char> {
    if is_data(line) && payload_of(line).len() > best.len() {
        payload_of(line)
    } else {
        best
    }
}

/// Whether `line` is looked at as a data line and as a return in state `s`:
/// it is no invocation, the scan is inside one, and the line does not name
/// the instruction of the top-level invocation.
pub open spec fn is_inner(s: CorrelationModel, line: Seq<char>) -> bool {
    &&& !is_invoke(line)
    &&& s.depth >= 1
    &&& !(s.depth == 1 && is_instruction(line))
}

/// The state after `line`.
pub open spec fn step(s: CorrelationModel, line: Seq<char>) -> CorrelationModel {
    if is_invoke(line) {
        if s.depth == 0 {
            CorrelationModel { depth: 1, pending_kind: None, best_payload: Seq::empty() }
        } else {
            CorrelationModel { depth: (s.depth + 1) as nat, ..s }
        }
    } else if s.depth == 0 {
        s
    } else if s.depth == 1 && is_instruction(line) {
        match named_kind(line) {
            Some(kind) => CorrelationModel { pending_kind: Some(kind), ..s },
            None => s,
        }
    } else {
        CorrelationModel {
            depth: if is_success(line) {
                (s.depth - 1) as nat
            } else {
                s.depth
            },
            best_payload: with_candidate(s.best_payload, line),
            ..s
        }
    }
}

/// What `line` emits in state `s`: the best payload, when the line closes a
/// top-level creation and a payload was captured.
pub open spec fn emitted(s: CorrelationModel, line: Seq<char>) -> Option<CaptureModel> {
    if is_inner(s, line) && is_success(line) && s.depth == 1 && s.pending_kind == Some(
        InstructionKind::Create,
    ) && with_candidate(s.best_payload, line).len() > 0 {
        Some(
            CaptureModel {
                kind: InstructionKind::Create,
                payload: with_candidate(s.best_payload, line),
            },
        )
    } else {
        None
    }
}

/// The state after `lines`, from state `s`.
pub open spec fn run_from(s: CorrelationModel, lines: Seq<Seq<char>>) -> CorrelationModel
    decreases lines.len(),
{
    if lines.len() == 0 {
        s
    } else {
        step(run_from(s, lines.drop_last()), lines.last())
    }
}

/// What `lines` emit, from state `s`, in order.
pub open spec fn captures_from(s: CorrelationModel, lines: Seq<Seq<char>>) -> Seq<CaptureModel>
    decreases lines.len(),
{
    if lines.len() == 0 {
        Seq::empty()
    } else {
        let before = captures_from(s, lines.drop_last());
        match emitted(run_from(s, lines.drop_last()), lines.last()) {
            Some(capture) => before.push(capture),
            None => before,
        }
    }
}

/// What the log lines of one transaction emit.
pub open spec fn captures(lines: Seq<Seq<char>>) -> Seq<CaptureModel> {
    captures_from(initial(), lines)
}

/// The lines as character sequences.
pub open spec fn lines_of(logs: Seq<String>) -> Seq<Seq<char>> {
    logs.map_values(|line: String| line@)
}

/// A payload together with the instruction that emitted it.
#[derive(Clone, Debug, PartialEq, Eq)]
pub struct Capture {
    pub kind: InstructionKind,
    pub payload: String,
}

impl View for Capture {
    type V = CaptureModel;

    open spec fn view(&self) -> CaptureModel {
        CaptureModel { kind: self.kind, payload: self.payload@ }
    }
}

/// The captures as their models.
pub open spec fn captures_of(found: Seq<Capture>) -> Seq<CaptureModel> {
    found.map_values(|capture: Capture| capture@)
}

/// The markers as characters.
struct Patterns {
    invoke: Vec<char>,
    success: Vec<char>,
    instruction: Vec<char>,
    data: Vec<char>,
    create: Vec<char>,
    buy: Vec<char>,
    sell: Vec<char>,
}

impl Patterns {
    spec fn wf(&self) -> bool {
        &&& self.invoke@ == invoke_marker()
        &&& self.success@ == success_marker()
        &&& self.instruction@ == instruction_marker()
        &&& self.data@ == data_prefix()
        &&& self.create@ == "Create"@
        &&& self.buy@ == "Buy"@
        &&& self.sell@ == "Sell"@
    }

    fn new() -> (patterns: Patterns)
        ensures
            patterns.wf(),
    {
        let mut invoke = "Program ".to_owned();
        invoke.append(PUMPFUN_PROGRAM_ID);
        invoke.append(" invoke");
        let mut success = "Program ".to_owned();
        success.append(PUMPFUN_PROGRAM_ID);
        success.append(" success");
        Patterns {
            invoke: to_chars(invoke.as_str()),
            success: to_chars(success.as_str()),
            instruction: to_chars("Program log: Instruction:"),
            data: to_chars("Program data: "),
            create: to_chars("Create"),
            buy: to_chars("Buy"),
            sell: to_chars("Sell"),
        }
    }
}

/// A scan in progress.
pub struct LogCorrelator {
    patterns: Patterns,
    depth: usize,
    pending_kind: Option<InstructionKind>,
    best_payload: String,
    best_len: usize,
}

impl View for LogCorrelator {
    type V = CorrelationModel;

    closed spec fn view(&self) -> CorrelationModel {
        CorrelationModel {
            depth: self.depth as nat,
            pending_kind: self.pending_kind,
            best_payload: self.best_payload@,
        }
    }
}

impl LogCorrelator {
    /// The scan holds its markers, and the length of its best payload.
    pub closed spec fn wf(&self) -> bool {
        &&& self.patterns.wf()
        &&& self.best_len == self.best_payload@.len()
    }

    /// A scan that has seen no line.
    pub fn new() -> (scan: LogCorrelator)
        ensures
            scan.wf(),
            scan@ == initial(),
    {
        LogCorrelator {
            patterns: Patterns::new(),
            depth: 0,
            pending_kind: None,
            best_payload: String::new(),
            best_len: 0,
        }
    }

    /// Takes the next line of the transaction, and returns what it emits.
    pub fn feed(&mut self, line: &str) -> (emission: Option<Capture>)
        requires
            old(self).wf(),
            old(self)@.depth < usize::MAX,
        ensures
            final(self).wf(),
            final(self)@ == step(old(self)@, line@),
            match emitted(old(self)@, line@) {
                Some(capture) => emission matches Some(got) && got@ == capture,
                None => emission is None,
            },
    {
        let chars = to_chars(line);
        let hay = chars.as_slice();
        if contains_chars(hay, self.patterns.invoke.as_slice()) {
            self.depth = self.depth + 1;
            if self.depth == 1 {
                self.pending_kind = None;
                self.best_payload = String::new();
                self.best_len = 0;
            }
            return None;
        }
        if self.depth == 0 {
            return None;
        }
        if self.depth == 1 && contains_chars(hay, self.patterns.instruction.as_slice()) {
            if contains_chars(hay, self.patterns.create.as_slice()) {
                self.pending_kind = Some(InstructionKind::Create);
            } else if contains_chars(hay, self.patterns.buy.as_slice()) || contains_chars(
                hay,
                self.patterns.sell.as_slice(),
            ) {
                self.pending_kind = Some(InstructionKind::Trade);
            }
            return None;
        }
        if starts_with_chars(hay, self.patterns.data.as_slice()) {
            let start: usize = trimmed_start(hay, self.patterns.data.as_slice());
            let len: usize = hay.len() - start;
            if len > self.best_len {
                self.best_payload = line.substring_char(start, hay.len()).to_owned();
                self.best_len = len;
            }
        }
        if contains_chars(hay, self.patterns.success.as_slice()) {
            self.depth = self.depth - 1;
            if self.depth == 0 && self.best_len > 0 {
                match self.pending_kind {
                    Some(InstructionKind::Create) => {
                        return Some(
                            Capture {
                                kind: InstructionKind::Create,
                                payload: self.best_payload.clone(),
                            },
                        );
                    },
                    _ => {},
                }
            }
        }
        None
    }
}

/// Scans the log lines of one transaction, and returns in order what they
/// emit: for each top-level invocation of the target program that named
/// its instruction as a creation, captured a payload and returned with
/// success, the longest payload it logged.
pub fn correlate(logs: &[String]) -> (found: Vec<Capture>)
    ensures
        captures_of(found@) == captures(lines_of(logs@)),
{
    let mut scan = LogCorrelator::new();
    let mut found: Vec<Capture> = Vec::new();
    let mut i: usize = 0;
    while i < logs.len()
        invariant
            i <= logs@.len(),
            scan.wf(),
            scan@.depth <= i,
            scan@ == run_from(initial(), lines_of(logs@).take(i as int)),
            captures_of(found@) == captures(lines_of(logs@).take(i as int)),
        decreases logs@.len() - i,
    {
        proof {
            let lines = lines_of(logs@);
            assert(lines.take(i + 1).drop_last() =~= lines.take(i as int));
            assert(lines.take(i + 1).last() == logs@[i as int]@);
        }
        let ghost before = found@;
        match scan.feed(logs[i].as_str()) {
            Some(capture) => {
                found.push(capture);
                assert(captures_of(found@) =~= captures_of(before).push(capture@));
            },
            None => {},
        }
        i += 1;
    }
    assert(lines_of(logs@).take(i as int) =~= lines_of(logs@));
    found
}

} // verus!
