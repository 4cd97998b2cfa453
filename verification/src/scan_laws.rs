//! What holds of every scan of log lines.

use vstd::prelude::*;
use crate::correlator::{
    captures, captures_from, emitted, initial, is_data, is_inner, is_instruction, is_invoke,
    is_success, named_kind, payload_of, run_from, step, with_candidate, CaptureModel,
    CorrelationModel, InstructionKind,
};

verus! {

/// The state after all of `lines`, from the start of a transaction.
pub open spec fn state_after(lines: Seq<Seq<char>>) -> CorrelationModel {
    run_from(initial(), lines)
}

/// A scan of lines with one more line goes one step further.
pub proof fn lemma_run_push(s: CorrelationModel, lines: Seq<Seq<char>>, line: Seq<char>)
    ensures
        run_from(s, lines.push(line)) == step(run_from(s, lines), line),
        captures_from(s, lines.push(line)) == match emitted(run_from(s, lines), line) {
            Some(capture) => captures_from(s, lines).push(capture),
            None => captures_from(s, lines),
        },
{
    assert(lines.push(line).drop_last() =~= lines);
}

/// A scan of two runs of lines is the scan of the first, followed by the
/// scan of the second from where the first ended.
pub proof fn lemma_run_concat(s: CorrelationModel, first: Seq<Seq<char>>, second: Seq<Seq<char>>)
    ensures
        run_from(s, first + second) == run_from(run_from(s, first), second),
        captures_from(s, first + second) == captures_from(s, first) + captures_from(
            run_from(s, first),
            second,
        ),
    decreases second.len(),
{
    if second.len() == 0 {
        assert(first + second =~= first);
        assert(captures_from(s, first) + Seq::<CaptureModel>::empty() =~= captures_from(s, first));
    } else {
        let shorter = second.drop_last();
        lemma_run_concat(s, first, shorter);
        assert((first + second).drop_last() =~= first + shorter);
        assert((first + second).last() == second.last());
        let mid = run_from(s, first);
        match emitted(run_from(mid, shorter), second.last()) {
            Some(capture) => {
                assert(captures_from(s, first) + captures_from(mid, shorter).push(capture)
                    =~= (captures_from(s, first) + captures_from(mid, shorter)).push(capture));
            },
            None => {},
        }
    }
}

/// A line that is met inside a nested invocation leaves the instruction of
/// the top-level invocation as it is.
pub proof fn lemma_nested_line_keeps_kind(s: CorrelationModel, line: Seq<char>)
    requires
        s.depth >= 2,
    ensures
        step(s, line).pending_kind == s.pending_kind,
{
}

/// The instruction of the top-level invocation changes only where a
/// top-level invocation begins, or at a line that names an instruction
/// directly under the top-level invocation.
pub proof fn lemma_kind_changes_only_at_top(s: CorrelationModel, line: Seq<char>)
    requires
        step(s, line).pending_kind != s.pending_kind,
    ensures
        (s.depth == 0 && is_invoke(line)) || (s.depth == 1 && !is_invoke(line) && is_instruction(
            line,
        )),
{
}

/// Every line of `lines` is met with at least `depth` invocations open.
pub open spec fn met_at_depth(s: CorrelationModel, lines: Seq<Seq<char>>, depth: nat) -> bool {
    forall|k: int| 0 <= k < lines.len() ==> (#[trigger] run_from(s, lines.take(k))).depth >= depth
}

/// Lines that are all met inside nested invocations leave the instruction
/// of the top-level invocation as it is.
pub proof fn lemma_nested_lines_keep_kind(s: CorrelationModel, lines: Seq<Seq<char>>)
    requires
        met_at_depth(s, lines, 2),
    ensures
        run_from(s, lines).pending_kind == s.pending_kind,
    decreases lines.len(),
{
    if lines.len() > 0 {
        let shorter = lines.drop_last();
        assert forall|k: int| 0 <= k < shorter.len() implies (#[trigger] run_from(
            s,
            shorter.take(k),
        )).depth >= 2 by {
            assert(shorter.take(k) =~= lines.take(k));
        }
        lemma_nested_lines_keep_kind(s, shorter);
        assert(lines.take(lines.len() - 1) =~= shorter);
        lemma_nested_line_keeps_kind(run_from(s, shorter), lines.last());
    }
}

/// A nested invocation leaves the instruction of the top-level invocation
/// as it is: an invocation line met inside an invocation, and after it
/// lines that are all met inside the nested invocation, its return among
/// them.
pub proof fn lemma_nested_invocation_keeps_kind(
    s: CorrelationModel,
    invoke_line: Seq<char>,
    nested: Seq<Seq<char>>,
)
    requires
        s.depth >= 1,
        is_invoke(invoke_line),
        met_at_depth(step(s, invoke_line), nested, 2),
    ensures
        run_from(s, seq![invoke_line] + nested).pending_kind == s.pending_kind,
{
    lemma_run_concat(s, seq![invoke_line], nested);
    lemma_run_push(s, Seq::empty(), invoke_line);
    assert(Seq::<Seq<char>>::empty().push(invoke_line) =~= seq![invoke_line]);
    lemma_nested_lines_keep_kind(step(s, invoke_line), nested);
}

/// A line emits only where it closes a top-level creation that captured a
/// payload; what it emits is the payload captured.
pub proof fn lemma_emission_closes_creation(s: CorrelationModel, line: Seq<char>)
    requires
        emitted(s, line) is Some,
    ensures
        s.depth == 1,
        step(s, line).depth == 0,
        is_success(line),
        s.pending_kind == Some(InstructionKind::Create),
        emitted(s, line)->Some_0.kind == InstructionKind::Create,
        emitted(s, line)->Some_0.payload == step(s, line).best_payload,
        emitted(s, line)->Some_0.payload.len() > 0,
{
}

/// After every line of `lines` an invocation is open.
pub open spec fn stays_open(s: CorrelationModel, lines: Seq<Seq<char>>) -> bool {
    forall|k: int| 1 <= k <= lines.len() ==> (#[trigger] run_from(s, lines.take(k))).depth >= 1
}

/// Lines after which an invocation is always open emit nothing.
pub proof fn lemma_open_invocation_emits_nothing(s: CorrelationModel, lines: Seq<Seq<char>>)
    requires
        stays_open(s, lines),
    ensures
        captures_from(s, lines) == Seq::<CaptureModel>::empty(),
    decreases lines.len(),
{
    if lines.len() > 0 {
        let shorter = lines.drop_last();
        assert forall|k: int| 1 <= k <= shorter.len() implies (#[trigger] run_from(
            s,
            shorter.take(k),
        )).depth >= 1 by {
            assert(shorter.take(k) =~= lines.take(k));
        }
        lemma_open_invocation_emits_nothing(s, shorter);
        assert(lines.take(lines.len() as int) =~= lines);
        assert(run_from(s, lines.take(lines.len() as int)).depth >= 1);
        if emitted(run_from(s, shorter), lines.last()) is Some {
            lemma_emission_closes_creation(run_from(s, shorter), lines.last());
        }
    }
}

/// An invocation that is never closed emits nothing: if an invocation stays
/// open after every line of `rest`, the transaction emits what the lines
/// before `rest` emit.
pub proof fn lemma_unclosed_invocation_emits_nothing(
    before: Seq<Seq<char>>,
    rest: Seq<Seq<char>>,
)
    requires
        stays_open(state_after(before), rest),
    ensures
        captures(before + rest) == captures(before),
{
    lemma_run_concat(initial(), before, rest);
    lemma_open_invocation_emits_nothing(state_after(before), rest);
    assert(captures(before) + Seq::<CaptureModel>::empty() =~= captures(before));
}

/// Log lines without a line of return emit nothing.
pub proof fn lemma_no_return_no_capture(lines: Seq<Seq<char>>)
    requires
        forall|i: int| 0 <= i < lines.len() ==> !is_success(#[trigger] lines[i]),
    ensures
        captures(lines) == Seq::<CaptureModel>::empty(),
    decreases lines.len(),
{
    if lines.len() > 0 {
        lemma_no_return_no_capture(lines.drop_last());
    }
}

/// The best payload after `lines` have been looked at as data lines, in
/// order, with `best` held before.
pub open spec fn longest_from(best: Seq<char>, lines: Seq<Seq<char>>) -> Seq<char>
    decreases lines.len(),
{
    if lines.len() == 0 {
        best
    } else {
        with_candidate(longest_from(best, lines.drop_last()), lines.last())
    }
}

/// The longest payload among `lines`, the first of them where several are
/// as long; empty where no data line has a payload.
pub open spec fn longest_payload(lines: Seq<Seq<char>>) -> Seq<char> {
    longest_from(Seq::empty(), lines)
}

/// One more line is looked at as one more candidate.
pub proof fn lemma_longest_push(best: Seq<char>, lines: Seq<Seq<char>>, line: Seq<char>)
    ensures
        longest_from(best, lines.push(line)) == with_candidate(longest_from(best, lines), line),
{
    assert(lines.push(line).drop_last() =~= lines);
}

/// The best payload of two runs of lines is that of the second, with the
/// best of the first held before.
pub proof fn lemma_longest_concat(best: Seq<char>, first: Seq<Seq<char>>, second: Seq<Seq<char>>)
    ensures
        longest_from(best, first + second) == longest_from(longest_from(best, first), second),
    decreases second.len(),
{
    if second.len() == 0 {
        assert(first + second =~= first);
    } else {
        lemma_longest_concat(best, first, second.drop_last());
        assert((first + second).drop_last() =~= first + second.drop_last());
    }
}

/// Of the payloads of data lines the longest is held, and the first of
/// those that are as long: no data line has a longer payload, and if a
/// payload is held, it is that of a data line before which every data line
/// has a shorter one.
pub proof fn lemma_longest_payload_is_first_longest(lines: Seq<Seq<char>>)
    ensures
        forall|j: int|
            0 <= j < lines.len() && is_data(#[trigger] lines[j]) ==> payload_of(lines[j]).len()
                <= longest_payload(lines).len(),
        longest_payload(lines).len() > 0 ==> exists|i: int|
            {
                &&& 0 <= i < lines.len()
                &&& is_data(#[trigger] lines[i])
                &&& payload_of(lines[i]) == longest_payload(lines)
                &&& forall|j: int|
                    0 <= j < i && is_data(#[trigger] lines[j]) ==> payload_of(lines[j]).len()
                        < longest_payload(lines).len()
            },
    decreases lines.len(),
{
    if lines.len() > 0 {
        let shorter = lines.drop_last();
        let held = longest_payload(shorter);
        let last = lines.len() - 1;
        lemma_longest_payload_is_first_longest(shorter);
        assert forall|j: int| 0 <= j < shorter.len() implies shorter[j] == lines[j] by {}
        if is_data(lines.last()) && payload_of(lines.last()).len() > held.len() {
            assert(is_data(lines[last]) && payload_of(lines[last]) == longest_payload(lines));
            assert forall|j: int| 0 <= j < last && is_data(#[trigger] lines[j]) implies payload_of(
                lines[j],
            ).len() < longest_payload(lines).len() by {
                assert(shorter[j] == lines[j]);
            }
        } else if held.len() > 0 {
            let i = choose|i: int|
                {
                    &&& 0 <= i < shorter.len()
                    &&& is_data(#[trigger] shorter[i])
                    &&& payload_of(shorter[i]) == held
                    &&& forall|j: int|
                        0 <= j < i && is_data(#[trigger] shorter[j]) ==> payload_of(
                            shorter[j],
                        ).len() < held.len()
                };
            assert(is_data(lines[i]) && payload_of(lines[i]) == longest_payload(lines));
            assert forall|j: int| 0 <= j < i && is_data(#[trigger] lines[j]) implies payload_of(
                lines[j],
            ).len() < longest_payload(lines).len() by {
                assert(shorter[j] == lines[j]);
            }
        }
        assert forall|j: int| 0 <= j < lines.len() && is_data(
            #[trigger] lines[j],
        ) implies payload_of(lines[j]).len() <= longest_payload(lines).len() by {
            if j < last {
                assert(shorter[j] == lines[j]);
            }
        }
    }
}

/// The lines of `lines` that are looked at as data lines, in order, in a
/// scan from state `s`.
pub open spec fn data_candidates(s: CorrelationModel, lines: Seq<Seq<char>>) -> Seq<Seq<char>>
    decreases lines.len(),
{
    if lines.len() == 0 {
        Seq::empty()
    } else {
        let before = data_candidates(s, lines.drop_last());
        if is_inner(run_from(s, lines.drop_last()), lines.last()) {
            before.push(lines.last())
        } else {
            before
        }
    }
}

/// Inside a top-level invocation the best payload is the first longest of
/// all that was looked at: after lines that are all met inside the
/// invocation, nested invocations among them, it is the longest payload of
/// the lines looked at as data lines, with what was held before.
pub proof fn lemma_best_payload_is_longest_candidate(s: CorrelationModel, lines: Seq<Seq<char>>)
    requires
        met_at_depth(s, lines, 1),
    ensures
        run_from(s, lines).best_payload == longest_from(
            s.best_payload,
            data_candidates(s, lines),
        ),
    decreases lines.len(),
{
    if lines.len() > 0 {
        let shorter = lines.drop_last();
        assert forall|k: int| 0 <= k < shorter.len() implies (#[trigger] run_from(
            s,
            shorter.take(k),
        )).depth >= 1 by {
            assert(shorter.take(k) =~= lines.take(k));
        }
        lemma_best_payload_is_longest_candidate(s, shorter);
        assert(lines.take(lines.len() - 1) =~= shorter);
        assert(run_from(s, lines.take(lines.len() - 1)).depth >= 1);
        if is_inner(run_from(s, shorter), lines.last()) {
            lemma_longest_push(s.best_payload, data_candidates(s, shorter), lines.last());
        }
    }
}

/// What a top-level invocation emits, in full: after lines that left no
/// invocation open come the invocation, lines after each of which it is
/// still open, nested invocations among them, and the line that closes it.
/// If by then a line has named the creation and a payload is held, the
/// longest payload of the lines looked at as data lines is emitted, else
/// nothing; and nothing is emitted before the closing line.
pub proof fn lemma_top_level_invocation_emits_once(
    so_far: Seq<Seq<char>>,
    invoke_line: Seq<char>,
    inside: Seq<Seq<char>>,
    return_line: Seq<char>,
)
    requires
        state_after(so_far).depth == 0,
        is_invoke(invoke_line),
        stays_open(step(state_after(so_far), invoke_line), inside),
        run_from(step(state_after(so_far), invoke_line), inside).depth == 1,
        !is_invoke(return_line),
        !is_instruction(return_line),
        is_success(return_line),
    ensures
        ({
            let opened = step(state_after(so_far), invoke_line);
            let kind = run_from(opened, inside).pending_kind;
            let longest = longest_payload(data_candidates(opened, inside.push(return_line)));
            let lines = so_far.push(invoke_line) + inside.push(return_line);
            &&& captures(so_far.push(invoke_line) + inside) == captures(so_far)
            &&& captures(lines) == if kind == Some(InstructionKind::Create) && longest.len() > 0 {
                captures(so_far).push(
                    CaptureModel { kind: InstructionKind::Create, payload: longest },
                )
            } else {
                captures(so_far)
            }
            &&& state_after(lines).depth == 0
        }),
{
    let opened = step(state_after(so_far), invoke_line);
    let first = so_far.push(invoke_line);
    let all = inside.push(return_line);
    lemma_run_push(initial(), so_far, invoke_line);
    lemma_run_concat(initial(), first, inside);
    lemma_open_invocation_emits_nothing(opened, inside);
    assert(captures(first + inside) =~= captures(so_far));
    lemma_run_push(initial(), first + inside, return_line);
    assert((first + inside).push(return_line) =~= first + all);
    assert forall|k: int| 0 <= k < all.len() implies (#[trigger] run_from(opened, all.take(k))).depth
        >= 1 by {
        assert(all.take(k) =~= inside.take(k));
        if k == 0 {
            assert(inside.take(0) =~= Seq::<Seq<char>>::empty());
        }
    }
    lemma_best_payload_is_longest_candidate(opened, all);
    lemma_run_push(opened, inside, return_line);
}

/// Two states in which no invocation is open are followed by the same
/// emissions, and by the same state once an invocation has begun.
pub proof fn lemma_closed_states_agree(
    s: CorrelationModel,
    t: CorrelationModel,
    lines: Seq<Seq<char>>,
)
    requires
        s.depth == 0,
        t.depth == 0,
    ensures
        captures_from(s, lines) == captures_from(t, lines),
        run_from(s, lines) == run_from(t, lines) || (run_from(s, lines) == s && run_from(t, lines)
            == t),
    decreases lines.len(),
{
    if lines.len() > 0 {
        lemma_closed_states_agree(s, t, lines.drop_last());
    }
}

/// Top-level invocations are scanned each on its own: where the lines so
/// far have left no invocation open, what follows emits what it would emit
/// as a transaction of its own.
pub proof fn lemma_invocations_are_scanned_independently(
    so_far: Seq<Seq<char>>,
    rest: Seq<Seq<char>>,
)
    requires
        state_after(so_far).depth == 0,
    ensures
        captures(so_far + rest) == captures(so_far) + captures(rest),
{
    lemma_run_concat(initial(), so_far, rest);
    lemma_closed_states_agree(state_after(so_far), initial(), rest);
}

/// A line that is no invocation, no return, and names no instruction.
pub open spec fn is_plain(line: Seq<char>) -> bool {
    &&& !is_invoke(line)
    &&& !is_success(line)
    &&& !is_instruction(line)
}

/// Every line of `lines` is plain.
pub open spec fn all_plain(lines: Seq<Seq<char>>) -> bool {
    forall|i: int| 0 <= i < lines.len() ==> is_plain(#[trigger] lines[i])
}

/// Plain lines inside an invocation change the best payload and nothing
/// else, and emit nothing.
pub proof fn lemma_plain_lines(s: CorrelationModel, lines: Seq<Seq<char>>)
    requires
        s.depth >= 1,
        all_plain(lines),
    ensures
        run_from(s, lines) == (CorrelationModel {
            best_payload: longest_from(s.best_payload, lines),
            ..s
        }),
        captures_from(s, lines) == Seq::<CaptureModel>::empty(),
    decreases lines.len(),
{
    if lines.len() > 0 {
        let shorter = lines.drop_last();
        assert forall|i: int| 0 <= i < shorter.len() implies is_plain(#[trigger] shorter[i]) by {
            assert(shorter[i] == lines[i]);
        }
        lemma_plain_lines(s, shorter);
        assert(is_plain(lines[lines.len() - 1]));
    }
}

/// The lines of a top-level creation: the invocation, plain lines, the line
/// that names the instruction, plain lines, and the return.
pub open spec fn creation_block(
    invoke_line: Seq<char>,
    before: Seq<Seq<char>>,
    create_line: Seq<char>,
    after: Seq<Seq<char>>,
    return_line: Seq<char>,
) -> Seq<Seq<char>> {
    seq![invoke_line] + before + seq![create_line] + after + seq![return_line]
}

/// A top-level creation that returns emits its longest payload, and only
/// that.
///
/// The transaction so far has left no invocation open. Then come the
/// invocation, plain lines, a line that names the creation, more plain
/// lines, and the return. If a data line among the plain lines and the
/// return has a payload, the block emits the longest; if none has, it emits
/// nothing.
pub proof fn lemma_creation_emits_longest_payload(
    so_far: Seq<Seq<char>>,
    invoke_line: Seq<char>,
    before: Seq<Seq<char>>,
    create_line: Seq<char>,
    after: Seq<Seq<char>>,
    return_line: Seq<char>,
)
    requires
        state_after(so_far).depth == 0,
        is_invoke(invoke_line),
        all_plain(before),
        !is_invoke(create_line),
        is_instruction(create_line),
        named_kind(create_line) == Some(InstructionKind::Create),
        all_plain(after),
        !is_invoke(return_line),
        !is_instruction(return_line),
        is_success(return_line),
    ensures
        ({
            let block = creation_block(invoke_line, before, create_line, after, return_line);
            let longest = longest_payload(before + after + seq![return_line]);
            &&& captures(so_far + block) == if longest.len() > 0 {
                captures(so_far).push(
                    CaptureModel { kind: InstructionKind::Create, payload: longest },
                )
            } else {
                captures(so_far)
            }
            &&& state_after(so_far + block).depth == 0
        }),
{
    let s0 = state_after(so_far);
    let l1 = so_far.push(invoke_line);
    let l2 = l1 + before;
    let l3 = l2.push(create_line);
    let l4 = l3 + after;
    let l5 = l4.push(return_line);
    let block = creation_block(invoke_line, before, create_line, after, return_line);
    assert(so_far + block =~= l5);
    lemma_run_push(initial(), so_far, invoke_line);
    let s1 = state_after(l1);
    lemma_run_concat(initial(), l1, before);
    lemma_plain_lines(s1, before);
    let s2 = state_after(l2);
    assert(captures(l2) =~= captures(so_far));
    lemma_run_push(initial(), l2, create_line);
    let s3 = state_after(l3);
    lemma_run_concat(initial(), l3, after);
    lemma_plain_lines(s3, after);
    let s4 = state_after(l4);
    assert(captures(l4) =~= captures(so_far));
    lemma_run_push(initial(), l4, return_line);
    lemma_longest_concat(Seq::empty(), before, after);
    lemma_longest_push(Seq::empty(), before + after, return_line);
    assert((before + after).push(return_line) =~= before + after + seq![return_line]);
}

/// One creation with one data line emits the payload of that line: after
/// lines that left no invocation open, an invocation, a line that names the
/// creation, a data line with a payload, and the return emit exactly that
/// payload.
pub proof fn lemma_single_data_line_is_captured(
    so_far: Seq<Seq<char>>,
    invoke_line: Seq<char>,
    create_line: Seq<char>,
    data_line: Seq<char>,
    return_line: Seq<char>,
)
    requires
        state_after(so_far).depth == 0,
        is_invoke(invoke_line),
        !is_invoke(create_line),
        is_instruction(create_line),
        named_kind(create_line) == Some(InstructionKind::Create),
        is_plain(data_line),
        is_data(data_line),
        payload_of(data_line).len() > 0,
        !is_invoke(return_line),
        !is_instruction(return_line),
        is_success(return_line),
        !is_data(return_line),
    ensures
        captures(so_far + seq![invoke_line, create_line, data_line, return_line]) == captures(
            so_far,
        ).push(CaptureModel { kind: InstructionKind::Create, payload: payload_of(data_line) }),
        captures(so_far + seq![invoke_line, data_line, create_line, return_line]) == captures(
            so_far,
        ).push(CaptureModel { kind: InstructionKind::Create, payload: payload_of(data_line) }),
{
    let none = Seq::<Seq<char>>::empty();
    let one = seq![data_line];
    let lines = seq![data_line, return_line];
    lemma_longest_push(Seq::empty(), none, data_line);
    assert(none.push(data_line) =~= one);
    lemma_longest_push(Seq::empty(), one, return_line);
    assert(one.push(return_line) =~= lines);
    assert(longest_payload(lines) == payload_of(data_line));
    lemma_creation_emits_longest_payload(so_far, invoke_line, none, create_line, one, return_line);
    assert(none + one + seq![return_line] =~= lines);
    assert(creation_block(invoke_line, none, create_line, one, return_line) =~= seq![
        invoke_line,
        create_line,
        data_line,
        return_line,
    ]);
    lemma_creation_emits_longest_payload(so_far, invoke_line, one, create_line, none, return_line);
    assert(one + none + seq![return_line] =~= lines);
    assert(creation_block(invoke_line, one, create_line, none, return_line) =~= seq![
        invoke_line,
        data_line,
        create_line,
        return_line,
    ]);
}

} // verus!
