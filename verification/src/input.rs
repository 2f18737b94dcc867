//! The local-input task's policy.
//!
//! The task reads chunks from local standard input and emits them as
//! events.  A zero-length read signals end-of-input: with the ignore-EOF
//! option set the read is treated as spurious and the loop continues;
//! without it, exactly one close signal is emitted and the task ends.
//! Nonzero reads are emitted exactly as read, not padded and not
//! terminated.

use vstd::prelude::*;

use crate::session::SessionEvent;

verus! {

/// What the input task does with one local read.
#[derive(Debug, Clone, PartialEq, Eq)]
pub enum InputStep {
    /// Emit these bytes as an input event and keep reading.
    Emit(Vec<u8>),
    /// A spurious end-of-input under ignore-EOF: emit nothing, keep
    /// reading.
    Skip,
    /// End-of-input: emit one close signal and end the task.
    CloseAndStop,
}

/// Decides what one local read means.  The bytes of a nonzero read are
/// passed through exactly; a zero-length read is skipped under ignore-EOF
/// and otherwise ends the task with its one close signal.
pub fn input_step(chunk: Vec<u8>, ignore_eof: bool) -> (r: InputStep)
    ensures
        chunk@.len() == 0 && ignore_eof ==> r is Skip,
        chunk@.len() == 0 && !ignore_eof ==> r is CloseAndStop,
        chunk@.len() > 0 ==> (r matches InputStep::Emit(d) && d == chunk),
{
    if chunk.len() == 0 {
        if ignore_eof {
            InputStep::Skip
        } else {
            InputStep::CloseAndStop
        }
    } else {
        InputStep::Emit(chunk)
    }
}

/// One emission of the input task, abstractly: input bytes, or the close
/// signal.
pub enum InputEmission {
    Data(Seq<u8>),
    Close,
}

/// Everything the input task emits for a given sequence of local reads:
/// nonzero reads pass through in order; a zero-length read is dropped
/// under ignore-EOF and otherwise ends the stream with one close signal.
pub open spec fn spec_input_emissions(reads: Seq<Seq<u8>>, ignore_eof: bool) -> Seq<InputEmission>
    decreases reads.len(),
{
    if reads.len() == 0 {
        Seq::empty()
    } else if reads[0].len() == 0 {
        if ignore_eof {
            spec_input_emissions(reads.drop_first(), ignore_eof)
        } else {
            seq![InputEmission::Close]
        }
    } else {
        seq![InputEmission::Data(reads[0])] + spec_input_emissions(reads.drop_first(), ignore_eof)
    }
}

/// End-of-input policy law, ignore-EOF side: with ignore-EOF set, no
/// sequence of local reads — zero-length reads included — ever makes the
/// input task emit a close signal; everything emitted is input data.
pub proof fn lemma_ignore_eof_never_closes(reads: Seq<Seq<u8>>)
    ensures
        forall|i: int|
            0 <= i < spec_input_emissions(reads, true).len() ==> spec_input_emissions(
                reads,
                true,
            )[i] is Data,
    decreases reads.len(),
{
    if reads.len() > 0 {
        lemma_ignore_eof_never_closes(reads.drop_first());
    }
}

/// End-of-input policy law, closing side: without ignore-EOF, the input
/// task emits at most one close signal, always as its last emission; it
/// emits one exactly when some read is zero-length, and until then every
/// emission is the data of a nonzero read.
pub proof fn lemma_eof_closes_once(reads: Seq<Seq<u8>>)
    ensures
        forall|i: int|
            0 <= i < spec_input_emissions(reads, false).len() && spec_input_emissions(
                reads,
                false,
            )[i] is Close ==> i == spec_input_emissions(reads, false).len() - 1,
        (exists|k: int| 0 <= k < reads.len() && reads[k].len() == 0) ==> spec_input_emissions(
            reads,
            false,
        ).len() > 0 && spec_input_emissions(reads, false).last() is Close,
        (forall|k: int| 0 <= k < reads.len() ==> reads[k].len() > 0) ==> forall|i: int|
            0 <= i < spec_input_emissions(reads, false).len() ==> spec_input_emissions(
                reads,
                false,
            )[i] is Data,
    decreases reads.len(),
{
    if reads.len() > 0 && reads[0].len() > 0 {
        lemma_eof_closes_once(reads.drop_first());
        if exists|k: int| 0 <= k < reads.len() && reads[k].len() == 0 {
            let k = choose|k: int| 0 <= k < reads.len() && reads[k].len() == 0;
            assert(reads.drop_first()[k - 1].len() == 0);
        }
        if forall|k: int| 0 <= k < reads.len() ==> reads[k].len() > 0 {
            assert(forall|k: int|
                0 <= k < reads.drop_first().len() ==> reads.drop_first()[k].len() > 0);
        }
    }
}

/// The byte sequences of a queue of read chunks, in order.
pub open spec fn views_of(reads: Seq<Vec<u8>>) -> Seq<Seq<u8>> {
    reads.map_values(|v: Vec<u8>| v@)
}

/// Whether one emitted event is the given abstract emission.
pub open spec fn event_matches_emission(event: SessionEvent, emission: InputEmission) -> bool {
    match emission {
        InputEmission::Data(d) => event matches SessionEvent::Input(v) && v@ == d,
        InputEmission::Close => event is ConnectionClose,
    }
}

/// Runs the input task's loop over a queue of already-performed local
/// reads, emitting exactly the events the policy calls for, in order.
#[verifier::loop_isolation(false)]
pub fn run_input_reads(reads: Vec<Vec<u8>>, ignore_eof: bool) -> (events: Vec<SessionEvent>)
    ensures
        events@.len() == spec_input_emissions(
            views_of(reads@), ignore_eof).len(),
        forall|i: int|
            0 <= i < events@.len() ==> event_matches_emission(
                events@[i],
                spec_input_emissions(views_of(reads@), ignore_eof)[i],
            ),
{
    let ghost whole: Seq<Seq<u8>> = views_of(reads@);
    let mut pending = reads;
    let mut events: Vec<SessionEvent> = Vec::new();
    let ghost mut emitted: Seq<InputEmission> = Seq::empty();
    proof {
        assert(emitted + spec_input_emissions(whole, ignore_eof) =~= spec_input_emissions(
            whole,
            ignore_eof,
        ));
    }
    while pending.len() > 0
        invariant
            spec_input_emissions(whole, ignore_eof) == emitted + spec_input_emissions(
                views_of(pending@),
                ignore_eof,
            ),
            events@.len() == emitted.len(),
            forall|i: int|
                0 <= i < events@.len() ==> event_matches_emission(events@[i], emitted[i]),
        decreases pending@.len(),
    {
        let ghost pre_rest = views_of(pending@);
        let chunk = pending.remove(0);
        proof {
            assert(views_of(pending@) =~= pre_rest.drop_first());
            assert(pre_rest[0] == chunk@);
        }
        let ghost pre_emitted = emitted;
        match input_step(chunk, ignore_eof) {
            InputStep::Emit(data) => {
                proof {
                    emitted = pre_emitted.push(InputEmission::Data(data@));
                    assert(spec_input_emissions(pre_rest, ignore_eof)
                        == seq![InputEmission::Data(data@)] + spec_input_emissions(
                        pre_rest.drop_first(),
                        ignore_eof,
                    ));
                    assert(pre_emitted + (seq![InputEmission::Data(data@)] + spec_input_emissions(
                        pre_rest.drop_first(),
                        ignore_eof,
                    )) =~= emitted + spec_input_emissions(pre_rest.drop_first(), ignore_eof));
                }
                events.push(SessionEvent::Input(data));
            },
            InputStep::Skip => {},
            InputStep::CloseAndStop => {
                proof {
                    emitted = pre_emitted.push(InputEmission::Close);
                    assert(spec_input_emissions(pre_rest, ignore_eof) =~= seq![
                        InputEmission::Close,
                    ]);
                    assert(pre_emitted + seq![InputEmission::Close] =~= emitted);
                    assert(spec_input_emissions(whole, ignore_eof) == emitted);
                }
                events.push(SessionEvent::ConnectionClose);
                return events;
            },
        }
    }
    proof {
        assert(views_of(pending@) =~= Seq::<Seq<u8>>::empty());
        assert(spec_input_emissions(whole, ignore_eof) =~= emitted);
    }
    events
}

} // verus!
