//! What holds of a whole run: the controller followed along the reports of
//! its driver.

use crate::addr::MacAddr;
use crate::arp::{frame_bytes, spec_request_for, ArpOperation, Message};
use crate::error::Error;
use crate::spoof::{
    answer_in, in_time, next, owed, remaining, spec_corrective_message, spec_elapsed,
    spec_spoof_message, ActionView, Event, Phase, Session, State,
};
use vstd::prelude::*;

verus! {

/// The phase reached from `phase` after the reports of `trace`, each a clock
/// reading and an event, were taken in order.
pub open spec fn run(s: Session, phase: Phase, trace: Seq<(u64, Event)>) -> Phase
    decreases trace.len(),
{
    if trace.len() == 0 {
        phase
    } else {
        run(s, next(s, phase, trace[0].0, trace[0].1), trace.skip(1))
    }
}

/// The frames that went out along `trace`, in order: each frame that was
/// owed when the driver reported `Sent`.
pub open spec fn transmitted(s: Session, phase: Phase, trace: Seq<(u64, Event)>) -> Seq<Seq<u8>>
    decreases trace.len(),
{
    if trace.len() == 0 {
        Seq::empty()
    } else {
        let rest = transmitted(s, next(s, phase, trace[0].0, trace[0].1), trace.skip(1));
        match (owed(s, phase), trace[0].1) {
            (ActionView::Transmit(frame), Event::Sent) => seq![frame] + rest,
            _ => rest,
        }
    }
}

/// The number of spoofed replies that went out along `trace`.
pub open spec fn spoofs(s: Session, phase: Phase, trace: Seq<(u64, Event)>) -> nat
    decreases trace.len(),
{
    if trace.len() == 0 {
        0
    } else {
        let rest = spoofs(s, next(s, phase, trace[0].0, trace[0].1), trace.skip(1));
        if phase is Sending && trace[0].1 is Sent {
            1 + rest
        } else {
            rest
        }
    }
}

/// The number of intervals that were waited along `trace`.
pub open spec fn waits(s: Session, phase: Phase, trace: Seq<(u64, Event)>) -> nat
    decreases trace.len(),
{
    if trace.len() == 0 {
        0
    } else {
        let rest = waits(s, next(s, phase, trace[0].0, trace[0].1), trace.skip(1));
        if phase is Pausing && trace[0].1 is Waited {
            1 + rest
        } else {
            rest
        }
    }
}

/// How far a state is along the run.
pub open spec fn rank(state: State) -> nat {
    match state {
        State::Resolving => 0,
        State::Spoofing => 1,
        State::Despoofing => 2,
        State::Done => 3,
    }
}

/// Whether the report at position `i` of `trace` is a frame that answers the
/// request for the target with the hardware address `target`.
pub open spec fn target_resolved_at(
    s: Session,
    trace: Seq<(u64, Event)>,
    i: int,
    target: MacAddr,
) -> bool {
    &&& 0 <= i < trace.len()
    &&& trace[i].1 matches Event::Frame(frame)
    &&& answer_in(s, s.target_ip, frame@) == Some(target)
}

/// No event takes a run back to an earlier state.
pub proof fn lemma_step_forward(s: Session, phase: Phase, now: u64, event: Event)
    ensures
        rank(next(s, phase, now, event).spec_state()) >= rank(phase.spec_state()),
{
}

/// No run goes back to an earlier state.
pub proof fn lemma_run_forward(s: Session, phase: Phase, trace: Seq<(u64, Event)>)
    ensures
        rank(run(s, phase, trace).spec_state()) >= rank(phase.spec_state()),
    decreases trace.len(),
{
    if trace.len() > 0 {
        lemma_step_forward(s, phase, trace[0].0, trace[0].1);
        lemma_run_forward(s, next(s, phase, trace[0].0, trace[0].1), trace.skip(1));
    }
}

/// A run that is done stays as it is: it changes no more, sends nothing and
/// waits for nothing, whatever is reported to it.
pub proof fn lemma_done_is_final(s: Session, phase: Phase, trace: Seq<(u64, Event)>)
    requires
        phase.spec_state() == State::Done,
    ensures
        run(s, phase, trace) == phase,
        transmitted(s, phase, trace) == Seq::<Seq<u8>>::empty(),
        spoofs(s, phase, trace) == 0,
        waits(s, phase, trace) == 0,
    decreases trace.len(),
{
    if trace.len() > 0 {
        lemma_done_is_final(s, phase, trace.skip(1));
    }
}

/// While a run spoofs, frames and intervals take turns: one interval is
/// waited after each spoofed reply and one reply is sent after each interval
/// that ended without cancellation. So along any run the spoofed replies and
/// the intervals waited differ by one at most, and the reply comes first.
/// Once spoofing is over, no spoofed reply goes out and no interval is
/// waited.
pub proof fn lemma_spoof_paced(s: Session, phase: Phase, trace: Seq<(u64, Event)>)
    ensures
        phase is Pausing ==> spoofs(s, phase, trace) <= waits(s, phase, trace) <= spoofs(
            s,
            phase,
            trace,
        ) + 1,
        !(phase is Pausing) ==> waits(s, phase, trace) <= spoofs(s, phase, trace) <= waits(
            s,
            phase,
            trace,
        ) + 1,
        rank(phase.spec_state()) >= 2 ==> spoofs(s, phase, trace) == 0 && waits(s, phase, trace)
            == 0,
    decreases trace.len(),
{
    if trace.len() > 0 {
        lemma_spoof_paced(s, next(s, phase, trace[0].0, trace[0].1), trace.skip(1));
    }
}

/// Whether the report at position `i` of `trace` brings no answer to the
/// request for the victim: a frame that does not answer, or a read that
/// ended without a frame.
pub open spec fn no_answer_at(s: Session, trace: Seq<(u64, Event)>, i: int) -> bool {
    match trace[i].1 {
        Event::Frame(frame) => answer_in(s, s.victim_ip, frame@) is None,
        Event::Quiet => true,
        _ => false,
    }
}

/// Whether the clock of the report at position `i` of `trace` shows that the
/// time allowed for a resolution begun at `since` is used up.
pub open spec fn late_at(s: Session, since: u64, trace: Seq<(u64, Event)>, i: int) -> bool {
    spec_elapsed(trace[i].0, since) >= s.resolve_timeout
}

/// A read is never given more time than the resolution has left: what was
/// waited and what the read may wait make up the timeout.
pub proof fn lemma_receive_bounded(s: Session, since: u64, waited: u64)
    requires
        in_time(s, (Phase::AwaitingVictim { since, waited })),
    ensures
        owed(s, (Phase::AwaitingVictim { since, waited })) == (ActionView::Receive {
            within: remaining(s, waited),
        }),
        waited + remaining(s, waited) == s.resolve_timeout,
{
}

/// On a silent link a resolution ends at its timeout: the read that ended
/// without a frame when the time allowed was used up fails the run for want
/// of an answer, and one that ended before lets the wait go on.
pub proof fn lemma_silence_times_out(s: Session, since: u64, waited: u64, now: u64)
    ensures
        spec_elapsed(now, since) >= s.resolve_timeout ==> next(
            s,
            (Phase::AwaitingVictim { since, waited }),
            now,
            Event::Quiet,
        ) == Phase::Failed(Error::ResolveTimeout),
        spec_elapsed(now, since) < s.resolve_timeout ==> next(
            s,
            (Phase::AwaitingVictim { since, waited }),
            now,
            Event::Quiet,
        ) == (Phase::AwaitingVictim { since, waited: spec_elapsed(now, since) }),
{
}

/// While the victim's answer is awaited and nothing comes that answers, the
/// run waits on, and fails for want of an answer at the first report that
/// comes when the time allowed is used up: never before.
pub proof fn lemma_no_answer_times_out(
    s: Session,
    since: u64,
    waited: u64,
    trace: Seq<(u64, Event)>,
)
    requires
        forall|i: int| 0 <= i < trace.len() ==> #[trigger] no_answer_at(s, trace, i),
    ensures
        (exists|i: int| 0 <= i < trace.len() && #[trigger] late_at(s, since, trace, i)) ==> run(
            s,
            (Phase::AwaitingVictim { since, waited }),
            trace,
        ) == Phase::Failed(Error::ResolveTimeout),
        (forall|i: int| 0 <= i < trace.len() ==> !#[trigger] late_at(s, since, trace, i)) ==> run(
            s,
            (Phase::AwaitingVictim { since, waited }),
            trace,
        ) is AwaitingVictim && run(
            s,
            (Phase::AwaitingVictim { since, waited }),
            trace,
        )->AwaitingVictim_since == since,
    decreases trace.len(),
{
    let phase = Phase::AwaitingVictim { since, waited };
    if trace.len() > 0 {
        let rest = trace.skip(1);
        let then = next(s, phase, trace[0].0, trace[0].1);
        assert(no_answer_at(s, trace, 0));
        assert forall|i: int| 0 <= i < rest.len() implies #[trigger] no_answer_at(s, rest, i) by {
            assert(rest[i] == trace[i + 1]);
            assert(no_answer_at(s, trace, i + 1));
        }
        if late_at(s, since, trace, 0) {
            lemma_done_is_final(s, then, rest);
        } else {
            lemma_no_answer_times_out(s, since, spec_elapsed(trace[0].0, since), rest);
            if exists|i: int| 0 <= i < trace.len() && #[trigger] late_at(s, since, trace, i) {
                let i = choose|i: int| 0 <= i < trace.len() && #[trigger] late_at(s, since, trace, i);
                assert(rest[i - 1] == trace[i]);
                assert(late_at(s, since, rest, i - 1));
            } else {
                assert forall|i: int| 0 <= i < rest.len() implies !#[trigger] late_at(
                    s,
                    since,
                    rest,
                    i,
                ) by {
                    assert(rest[i] == trace[i + 1]);
                    assert(!late_at(s, since, trace, i + 1));
                }
            }
        }
    }
}

/// The first frame that answers the request for the victim ends the
/// resolution with the hardware address of its sender, provided that what
/// was reported before it came while time remained. The read that gave the
/// frame began while time remained, so the frame counts whenever it comes.
pub proof fn lemma_first_answer_resolves(
    s: Session,
    since: u64,
    waited: u64,
    trace: Seq<(u64, Event)>,
    victim: MacAddr,
)
    requires
        trace.len() > 0,
        trace.last().1 matches Event::Frame(frame) && answer_in(s, s.victim_ip, frame@) == Some(
            victim,
        ),
        forall|i: int|
            0 <= i < trace.len() - 1 ==> #[trigger] no_answer_at(s, trace, i) && !late_at(
                s,
                since,
                trace,
                i,
            ),
    ensures
        run(s, (Phase::AwaitingVictim { since, waited }), trace) == (Phase::Sending { victim }),
    decreases trace.len(),
{
    let phase = Phase::AwaitingVictim { since, waited };
    let rest = trace.skip(1);
    if trace.len() == 1 {
        assert(trace.last() == trace[0]);
        assert(rest.len() == 0);
        assert(run(s, next(s, phase, trace[0].0, trace[0].1), rest) == next(
            s,
            phase,
            trace[0].0,
            trace[0].1,
        ));
    } else {
        assert(no_answer_at(s, trace, 0) && !late_at(s, since, trace, 0));
        assert(rest.last() == trace.last());
        assert forall|i: int| 0 <= i < rest.len() - 1 implies #[trigger] no_answer_at(s, rest, i)
            && !late_at(s, since, rest, i) by {
            assert(rest[i] == trace[i + 1]);
            assert(no_answer_at(s, trace, i + 1));
        }
        lemma_first_answer_resolves(s, since, spec_elapsed(trace[0].0, since), rest, victim);
    }
}

/// Whether every report of `trace` is one that keeps spoofing going: a frame
/// was sent, or an interval ended without cancellation.
pub open spec fn uncancelled(trace: Seq<(u64, Event)>) -> bool {
    forall|i: int|
        0 <= i < trace.len() ==> (#[trigger] trace[i]).1 == Event::Sent || trace[i].1
            == (Event::Waited { cancelled: false })
}

/// Spoofing goes on until cancellation: as long as every frame is sent and
/// no interval ends with the cancellation signal, the run stays in the
/// spoofing state and keeps the victim's address.
pub proof fn lemma_spoofing_continues(
    s: Session,
    phase: Phase,
    victim: MacAddr,
    trace: Seq<(u64, Event)>,
)
    requires
        phase == (Phase::Sending { victim }) || phase == (Phase::Pausing { victim }),
        uncancelled(trace),
    ensures
        run(s, phase, trace) == (Phase::Sending { victim }) || run(s, phase, trace) == (
        Phase::Pausing { victim }),
    decreases trace.len(),
{
    if trace.len() > 0 {
        let rest = trace.skip(1);
        assert(trace[0].1 == Event::Sent || trace[0].1 == (Event::Waited { cancelled: false }));
        assert forall|i: int| 0 <= i < rest.len() implies (#[trigger] rest[i]).1 == Event::Sent
            || rest[i].1 == (Event::Waited { cancelled: false }) by {
            assert(rest[i] == trace[i + 1]);
        }
        lemma_spoofing_continues(s, next(s, phase, trace[0].0, trace[0].1), victim, rest);
    }
}

/// The frame that answers the request for the victim starts the spoofing:
/// from then on the reply owed claims the target's address for the local
/// hardware address and goes to the victim at the address just learnt.
pub proof fn lemma_spoof_after_resolution(
    s: Session,
    since: u64,
    waited: u64,
    now: u64,
    frame: Vec<u8>,
    victim: MacAddr,
)
    requires
        answer_in(s, s.victim_ip, frame@) == Some(victim),
    ensures
        next(s, (Phase::AwaitingVictim { since, waited }), now, Event::Frame(frame)) == (Phase::Sending {
            victim,
        }),
        owed(s, (Phase::Sending { victim })) == ActionView::Transmit(
            frame_bytes(
                (Message {
                    src: (s.src.0, s.target_ip),
                    dest: (victim, s.victim_ip),
                    op: ArpOperation(2),
                }),
            ),
        ),
{
}

/// Once cancellation was seen at the end of an interval, no further spoofed
/// reply goes out, whatever follows.
pub proof fn lemma_cancellation_stops_spoofing(
    s: Session,
    victim: MacAddr,
    now: u64,
    trace: Seq<(u64, Event)>,
)
    ensures
        spoofs(
            s,
            next(s, (Phase::Pausing { victim }), now, (Event::Waited { cancelled: true })),
            trace,
        ) == 0,
{
    lemma_spoof_paced(
        s,
        next(s, Phase::Pausing { victim }, now, Event::Waited { cancelled: true }),
        trace,
    );
}

/// Every frame that goes out while a run spoofs for `victim` is the same
/// forged reply: the first `spoofs` frames sent from there on.
pub proof fn lemma_spoofed_frames(
    s: Session,
    phase: Phase,
    victim: MacAddr,
    trace: Seq<(u64, Event)>,
    k: int,
)
    requires
        phase == (Phase::Sending { victim }) || phase == (Phase::Pausing { victim }),
        0 <= k < spoofs(s, phase, trace),
    ensures
        k < transmitted(s, phase, trace).len(),
        transmitted(s, phase, trace)[k] == frame_bytes(spec_spoof_message(s, victim)),
    decreases trace.len(),
{
    if trace.len() > 0 {
        let then = next(s, phase, trace[0].0, trace[0].1);
        let rest = trace.skip(1);
        if then.spec_state() == State::Spoofing {
            if phase is Sending && trace[0].1 is Sent {
                if k > 0 {
                    lemma_spoofed_frames(s, then, victim, rest, k - 1);
                }
            } else {
                lemma_spoofed_frames(s, then, victim, rest, k);
            }
        } else {
            lemma_spoof_paced(s, then, rest);
        }
    }
}

/// A run that finishes after the corrective reply was owed has sent that
/// reply once and nothing else.
pub proof fn lemma_corrective_once(
    s: Session,
    victim: MacAddr,
    target: MacAddr,
    trace: Seq<(u64, Event)>,
)
    requires
        run(s, (Phase::Correcting { victim, target }), trace) == Phase::Finished,
    ensures
        transmitted(s, (Phase::Correcting { victim, target }), trace) == seq![
            frame_bytes(spec_corrective_message(s, victim, target)),
        ],
    decreases trace.len(),
{
    let phase = Phase::Correcting { victim, target };
    if trace.len() > 0 {
        let then = next(s, phase, trace[0].0, trace[0].1);
        let rest = trace.skip(1);
        if then == phase {
            lemma_corrective_once(s, victim, target, rest);
        } else {
            lemma_done_is_final(s, then, rest);
            assert(transmitted(s, phase, trace) =~= seq![
                frame_bytes(spec_corrective_message(s, victim, target)),
            ]);
        }
    }
}

/// A run that finishes after it awaited the target's answer was told the
/// target's hardware address by a frame, and has sent one frame since: the
/// corrective reply that carries that address and goes to the victim.
pub proof fn lemma_answer_then_corrective(
    s: Session,
    victim: MacAddr,
    since: u64,
    waited: u64,
    trace: Seq<(u64, Event)>,
)
    requires
        run(s, (Phase::AwaitingTarget { victim, since, waited }), trace) == Phase::Finished,
    ensures
        exists|i: int, target: MacAddr| #[trigger]
            target_resolved_at(s, trace, i, target) && transmitted(
                s,
                (Phase::AwaitingTarget { victim, since, waited }),
                trace,
            ) == seq![frame_bytes(spec_corrective_message(s, victim, target))],
    decreases trace.len(),
{
    let phase = Phase::AwaitingTarget { victim, since, waited };
    if trace.len() > 0 {
        let then = next(s, phase, trace[0].0, trace[0].1);
        let rest = trace.skip(1);
        if then is AwaitingTarget {
            let later = then->AwaitingTarget_waited;
            assert(then == (Phase::AwaitingTarget { victim, since, waited: later }));
            lemma_answer_then_corrective(s, victim, since, later, rest);
            let (i, target) = choose|i: int, target: MacAddr| #[trigger]
                target_resolved_at(s, rest, i, target) && transmitted(s, then, rest) == seq![
                    frame_bytes(spec_corrective_message(s, victim, target)),
                ];
            assert(rest[i] == trace[i + 1]);
            assert(target_resolved_at(s, trace, i + 1, target));
        } else if then is Correcting {
            let target = then->Correcting_target;
            lemma_corrective_once(s, victim, target, rest);
            assert(target_resolved_at(s, trace, 0, target));
        } else {
            lemma_done_is_final(s, then, rest);
        }
    }
}

/// When despoofing succeeds, two frames have gone out since it began: the
/// request for the target's address, and then exactly one corrective reply,
/// which carries the hardware address that a frame gave for the target and
/// goes to the victim.
pub proof fn lemma_despoof_sends_one_corrective(
    s: Session,
    victim: MacAddr,
    trace: Seq<(u64, Event)>,
)
    requires
        run(s, (Phase::RequestingTarget { victim }), trace) == Phase::Finished,
    ensures
        exists|i: int, target: MacAddr| #[trigger]
            target_resolved_at(s, trace, i, target) && transmitted(
                s,
                (Phase::RequestingTarget { victim }),
                trace,
            ) == seq![
                frame_bytes(spec_request_for(s.src, s.target_ip)),
                frame_bytes(spec_corrective_message(s, victim, target)),
            ],
    decreases trace.len(),
{
    let phase = Phase::RequestingTarget { victim };
    if trace.len() > 0 {
        let then = next(s, phase, trace[0].0, trace[0].1);
        let rest = trace.skip(1);
        if then == phase {
            lemma_despoof_sends_one_corrective(s, victim, rest);
            let (i, target) = choose|i: int, target: MacAddr| #[trigger]
                target_resolved_at(s, rest, i, target) && transmitted(s, phase, rest) == seq![
                    frame_bytes(spec_request_for(s.src, s.target_ip)),
                    frame_bytes(spec_corrective_message(s, victim, target)),
                ];
            assert(rest[i] == trace[i + 1]);
            assert(target_resolved_at(s, trace, i + 1, target));
        } else if then is AwaitingTarget {
            let since = then->AwaitingTarget_since;
            assert(then == (Phase::AwaitingTarget { victim, since, waited: 0 }));
            lemma_answer_then_corrective(s, victim, since, 0, rest);
            let (i, target) = choose|i: int, target: MacAddr| #[trigger]
                target_resolved_at(s, rest, i, target) && transmitted(s, then, rest) == seq![
                    frame_bytes(spec_corrective_message(s, victim, target)),
                ];
            assert(rest[i] == trace[i + 1]);
            assert(target_resolved_at(s, trace, i + 1, target));
            assert(transmitted(s, phase, trace) =~= seq![
                frame_bytes(spec_request_for(s.src, s.target_ip)),
                frame_bytes(spec_corrective_message(s, victim, target)),
            ]);
        } else {
            lemma_done_is_final(s, then, rest);
        }
    }
}

/// What went out from the first spoofed reply to the end of a run that
/// finished: `n` times the forged reply for `victim`, and then, where the
/// victim's cache was to be restored, the request for the target's address
/// and the corrective reply that gives it as `target`.
pub open spec fn frames_from_spoofing(s: Session, victim: MacAddr, n: nat, target: MacAddr) -> Seq<
    Seq<u8>,
> {
    Seq::new(n, |i: int| frame_bytes(spec_spoof_message(s, victim))) + if s.should_despoof {
        seq![
            frame_bytes(spec_request_for(s.src, s.target_ip)),
            frame_bytes(spec_corrective_message(s, victim, target)),
        ]
    } else {
        Seq::empty()
    }
}

/// A run that finishes after it began to spoof for `victim` has sent the
/// forged reply as often as it spoofed and after that only what restores the
/// victim's cache; it has sent the forged reply at least once if one was
/// still owed.
pub proof fn lemma_frames_from_spoofing(
    s: Session,
    phase: Phase,
    victim: MacAddr,
    trace: Seq<(u64, Event)>,
)
    requires
        phase == (Phase::Sending { victim }) || phase == (Phase::Pausing { victim }),
        run(s, phase, trace) == Phase::Finished,
    ensures
        exists|target: MacAddr|
            transmitted(s, phase, trace) == #[trigger] frames_from_spoofing(
                s,
                victim,
                spoofs(s, phase, trace),
                target,
            ),
        phase is Sending ==> spoofs(s, phase, trace) >= 1,
    decreases trace.len(),
{
    let forged = frame_bytes(spec_spoof_message(s, victim));
    if trace.len() > 0 {
        let then = next(s, phase, trace[0].0, trace[0].1);
        let rest = trace.skip(1);
        if then.spec_state() == State::Spoofing {
            lemma_frames_from_spoofing(s, then, victim, rest);
            let target = choose|target: MacAddr|
                transmitted(s, then, rest) == #[trigger] frames_from_spoofing(
                    s,
                    victim,
                    spoofs(s, then, rest),
                    target,
                );
            assert(transmitted(s, phase, trace) =~= frames_from_spoofing(
                s,
                victim,
                spoofs(s, phase, trace),
                target,
            ));
        } else if then is RequestingTarget {
            lemma_despoof_sends_one_corrective(s, victim, rest);
            lemma_spoof_paced(s, then, rest);
            let (i, target) = choose|i: int, target: MacAddr| #[trigger]
                target_resolved_at(s, rest, i, target) && transmitted(s, then, rest) == seq![
                    frame_bytes(spec_request_for(s.src, s.target_ip)),
                    frame_bytes(spec_corrective_message(s, victim, target)),
                ];
            assert(transmitted(s, phase, trace) =~= frames_from_spoofing(s, victim, 0, target));
        } else {
            lemma_done_is_final(s, then, rest);
            assert(transmitted(s, phase, trace) =~= frames_from_spoofing(s, victim, 0, victim));
        }
    }
}

/// A run that finishes after it awaited the victim's answer has sent, from
/// then on, the forged reply for the address it was told, at least once, and
/// after that only what restores the victim's cache.
pub proof fn lemma_frames_after_request(
    s: Session,
    since: u64,
    waited: u64,
    trace: Seq<(u64, Event)>,
)
    requires
        run(s, (Phase::AwaitingVictim { since, waited }), trace) == Phase::Finished,
    ensures
        exists|victim: MacAddr, target: MacAddr|
            transmitted(s, (Phase::AwaitingVictim { since, waited }), trace)
                == #[trigger] frames_from_spoofing(
                s,
                victim,
                spoofs(s, (Phase::AwaitingVictim { since, waited }), trace),
                target,
            ),
        spoofs(s, (Phase::AwaitingVictim { since, waited }), trace) >= 1,
    decreases trace.len(),
{
    let phase = Phase::AwaitingVictim { since, waited };
    if trace.len() > 0 {
        let then = next(s, phase, trace[0].0, trace[0].1);
        let rest = trace.skip(1);
        if then is AwaitingVictim {
            let later = then->AwaitingVictim_waited;
            assert(then == (Phase::AwaitingVictim { since, waited: later }));
            lemma_frames_after_request(s, since, later, rest);
            let (victim, target) = choose|victim: MacAddr, target: MacAddr|
                transmitted(s, then, rest) == #[trigger] frames_from_spoofing(
                    s,
                    victim,
                    spoofs(s, then, rest),
                    target,
                );
            assert(transmitted(s, phase, trace) == frames_from_spoofing(
                s,
                victim,
                spoofs(s, phase, trace),
                target,
            ));
        } else if then is Sending {
            let victim = then->Sending_victim;
            lemma_frames_from_spoofing(s, then, victim, rest);
            let target = choose|target: MacAddr|
                transmitted(s, then, rest) == #[trigger] frames_from_spoofing(
                    s,
                    victim,
                    spoofs(s, then, rest),
                    target,
                );
            assert(transmitted(s, phase, trace) == frames_from_spoofing(
                s,
                victim,
                spoofs(s, phase, trace),
                target,
            ));
        } else {
            lemma_done_is_final(s, then, rest);
        }
    }
}

/// The frames of a whole run that finished, in order: the request for the
/// victim's address; the forged reply, at least once and always the same;
/// and then, where the victim's cache was to be restored, the request for
/// the target's address and one corrective reply. Nothing else goes out.
pub proof fn lemma_frames_of_a_finished_run(s: Session, trace: Seq<(u64, Event)>)
    requires
        run(s, Phase::RequestingVictim, trace) == Phase::Finished,
    ensures
        exists|victim: MacAddr, target: MacAddr|
            transmitted(s, Phase::RequestingVictim, trace) == seq![
                frame_bytes(spec_request_for(s.src, s.victim_ip)),
            ] + #[trigger] frames_from_spoofing(
                s,
                victim,
                spoofs(s, Phase::RequestingVictim, trace),
                target,
            ),
        spoofs(s, Phase::RequestingVictim, trace) >= 1,
    decreases trace.len(),
{
    let phase = Phase::RequestingVictim;
    if trace.len() > 0 {
        let then = next(s, phase, trace[0].0, trace[0].1);
        let rest = trace.skip(1);
        if then == phase {
            lemma_frames_of_a_finished_run(s, rest);
            let (victim, target) = choose|victim: MacAddr, target: MacAddr|
                transmitted(s, phase, rest) == seq![
                    frame_bytes(spec_request_for(s.src, s.victim_ip)),
                ] + #[trigger] frames_from_spoofing(s, victim, spoofs(s, phase, rest), target);
            assert(transmitted(s, phase, trace) == seq![
                frame_bytes(spec_request_for(s.src, s.victim_ip)),
            ] + frames_from_spoofing(s, victim, spoofs(s, phase, trace), target));
        } else if then is AwaitingVictim {
            let since = then->AwaitingVictim_since;
            assert(then == (Phase::AwaitingVictim { since, waited: 0 }));
            lemma_frames_after_request(s, since, 0, rest);
            let (victim, target) = choose|victim: MacAddr, target: MacAddr|
                transmitted(s, then, rest) == #[trigger] frames_from_spoofing(
                    s,
                    victim,
                    spoofs(s, then, rest),
                    target,
                );
            assert(transmitted(s, phase, trace) == seq![
                frame_bytes(spec_request_for(s.src, s.victim_ip)),
            ] + frames_from_spoofing(s, victim, spoofs(s, phase, trace), target));
        } else {
            lemma_done_is_final(s, then, rest);
        }
    }
}

} // verus!
