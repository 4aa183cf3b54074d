//! The examination of one host: the port check first, then the probes in
//! their order until one of them names a model.

use crate::probe::{interpret, reading, ProbeKind, Reply};
use crate::text::text_of;
use vstd::prelude::*;
use vstd::string::StringExecFns;

verus! {

/// A printer that was found.
#[derive(Clone, Debug, PartialEq, Eq)]
pub struct PrinterInfo {
    /// The IPv4 address of the host, as a number.
    pub ip: u32,
    /// The model, as the probe read it.
    pub model: String,
    /// The name of the probe that read it.
    pub source: String,
}

/// What a `PrinterInfo` says.
pub struct Record {
    pub ip: u32,
    pub model: Seq<char>,
    pub source: Seq<char>,
}

impl View for PrinterInfo {
    type V = Record;

    open spec fn view(&self) -> Record {
        Record { ip: self.ip, model: self.model@, source: self.source@ }
    }
}

/// The record that is made when probe `kind` reads `model` from the host at
/// `ip`. A banner is marked as raw.
pub open spec fn finding(ip: u32, kind: ProbeKind, model: Seq<char>) -> Record {
    Record {
        ip,
        model: if kind == ProbeKind::RawBanner {
            "Raw: "@ + model
        } else {
            model
        },
        source: kind.tag(),
    }
}

/// Where the examination of a host stands.
#[derive(Clone, Copy, Debug, PartialEq, Eq, Structural)]
pub enum Phase {
    /// The answer of the port check is awaited.
    Reachability,
    /// The answer to a probe is awaited.
    Probing(ProbeKind),
    /// The examination is over.
    Finished,
}

/// What the caller is asked to do next for a host.
#[derive(Clone, Debug, PartialEq, Eq)]
pub enum Action {
    /// Try to connect to the printer port, once, and report `Reply::Port`.
    CheckPort,
    /// Run the probe and report what came back.
    Probe(ProbeKind),
    /// Stop: the examination ended with this result.
    Finish(Option<PrinterInfo>),
}

/// What an `Action` says.
pub enum Instruction {
    CheckPort,
    Probe(ProbeKind),
    Finish(Option<Record>),
}

impl View for Action {
    type V = Instruction;

    open spec fn view(&self) -> Instruction {
        match self {
            Action::CheckPort => Instruction::CheckPort,
            Action::Probe(kind) => Instruction::Probe(*kind),
            Action::Finish(Some(info)) => Instruction::Finish(Some(info@)),
            Action::Finish(None) => Instruction::Finish(None),
        }
    }
}

/// The phase and the instruction that follow when probe `kind` has read
/// `found` from the host at `ip`: a model ends the examination with its
/// record; without one the next probe is due, and after the last probe the
/// examination ends without a record.
pub open spec fn verdict(ip: u32, kind: ProbeKind, found: Option<Seq<char>>) -> (
    Phase,
    Instruction,
) {
    match found {
        Some(model) => (Phase::Finished, Instruction::Finish(Some(finding(ip, kind, model)))),
        None => match kind.successor() {
            Some(next) => (Phase::Probing(next), Instruction::Probe(next)),
            None => (Phase::Finished, Instruction::Finish(None)),
        },
    }
}

/// The phase and the instruction that follow `reply` in `phase`. A port
/// that is not reported open ends the examination at once.
pub open spec fn step(ip: u32, phase: Phase, reply: Reply) -> (Phase, Instruction) {
    match phase {
        Phase::Reachability => if reply == Reply::Port(true) {
            (Phase::Probing(ProbeKind::ZebraSgd), Instruction::Probe(ProbeKind::ZebraSgd))
        } else {
            (Phase::Finished, Instruction::Finish(None))
        },
        Phase::Probing(kind) => verdict(ip, kind, reading(kind, reply)),
        Phase::Finished => (Phase::Finished, Instruction::Finish(None)),
    }
}

/// The examination of one host.
#[derive(Clone, Copy, Debug, PartialEq, Eq)]
pub struct Orchestrator {
    ip: u32,
    phase: Phase,
}

impl Orchestrator {
    /// The address of the host.
    pub closed spec fn address(&self) -> u32 {
        self.ip
    }

    /// Where the examination stands.
    pub closed spec fn stage(&self) -> Phase {
        self.phase
    }

    /// Begins the examination of the host at `ip`. The first thing to do is
    /// the port check.
    pub fn new(ip: u32) -> (r: (Orchestrator, Action))
        ensures
            r.0.address() == ip,
            r.0.stage() == Phase::Reachability,
            r.1@ == Instruction::CheckPort,
    {
        (Orchestrator { ip, phase: Phase::Reachability }, Action::CheckPort)
    }

    /// The address of the host.
    pub fn ip(&self) -> (r: u32)
        ensures
            r == self.address(),
    {
        self.ip
    }

    /// Where the examination stands.
    pub fn phase(&self) -> (r: Phase)
        ensures
            r == self.stage(),
    {
        self.phase
    }

    /// Takes what the current probe has read and says what to do next.
    /// Outside a probe the examination ends without a record.
    pub fn conclude(&mut self, found: Option<String>) -> (r: Action)
        ensures
            final(self).address() == old(self).address(),
            (final(self).stage(), r@) == (match old(self).stage() {
                Phase::Probing(kind) => verdict(old(self).address(), kind, text_of(found)),
                _ => (Phase::Finished, Instruction::Finish(None)),
            }),
    {
        match self.phase {
            Phase::Probing(kind) => {
                match found {
                    Some(model) => {
                        let model = match kind {
                            ProbeKind::RawBanner => {
                                let mut marked = String::from_str("Raw: ");
                                marked.append(model.as_str());
                                marked
                            },
                            _ => model,
                        };
                        self.phase = Phase::Finished;
                        Action::Finish(
                            Some(PrinterInfo { ip: self.ip, model, source: kind.source_tag() }),
                        )
                    },
                    None => {
                        match kind.next() {
                            Some(next) => {
                                self.phase = Phase::Probing(next);
                                Action::Probe(next)
                            },
                            None => {
                                self.phase = Phase::Finished;
                                Action::Finish(None)
                            },
                        }
                    },
                }
            },
            _ => {
                self.phase = Phase::Finished;
                Action::Finish(None)
            },
        }
    }

    /// Takes the reply to the last instruction and says what to do next.
    pub fn advance(&mut self, reply: &Reply) -> (r: Action)
        ensures
            final(self).address() == old(self).address(),
            (final(self).stage(), r@) == step(old(self).address(), old(self).stage(), *reply),
    {
        match self.phase {
            Phase::Reachability => {
                match reply {
                    Reply::Port(true) => {
                        self.phase = Phase::Probing(ProbeKind::ZebraSgd);
                        Action::Probe(ProbeKind::ZebraSgd)
                    },
                    _ => {
                        self.phase = Phase::Finished;
                        Action::Finish(None)
                    },
                }
            },
            Phase::Probing(kind) => {
                let found = interpret(kind, reply);
                self.conclude(found)
            },
            Phase::Finished => Action::Finish(None),
        }
    }
}


/// The instructions that an examination gives, one after each reply, when
/// it stands in `phase` and the replies come in the order of `replies`.
pub open spec fn trace(ip: u32, phase: Phase, replies: Seq<Reply>) -> Seq<Instruction>
    decreases replies.len(),
{
    if replies.len() == 0 {
        Seq::empty()
    } else {
        let (next, instruction) = step(ip, phase, replies.first());
        seq![instruction] + trace(ip, next, replies.drop_first())
    }
}

/// There is one instruction for each reply.
pub proof fn lemma_trace_len(ip: u32, phase: Phase, replies: Seq<Reply>)
    ensures
        trace(ip, phase, replies).len() == replies.len(),
    decreases replies.len(),
{
    if replies.len() > 0 {
        lemma_trace_len(ip, step(ip, phase, replies.first()).0, replies.drop_first());
    }
}

/// An examination that is over stays over: whatever is reported to it, it
/// asks for nothing and yields no record.
pub proof fn lemma_finished_stays_finished(ip: u32, replies: Seq<Reply>, i: int)
    requires
        0 <= i < replies.len(),
    ensures
        trace(ip, Phase::Finished, replies)[i] == Instruction::Finish(None),
    decreases replies.len(),
{
    lemma_trace_len(ip, Phase::Finished, replies.drop_first());
    if i > 0 {
        lemma_finished_stays_finished(ip, replies.drop_first(), i - 1);
    }
}

/// Once an examination has said to stop, every later instruction is to stop
/// without a record. So a host yields at most one record, and no probe runs
/// after the one that succeeded.
pub proof fn lemma_nothing_after_finish(
    ip: u32,
    phase: Phase,
    replies: Seq<Reply>,
    i: int,
    j: int,
)
    requires
        0 <= i < j < replies.len(),
        trace(ip, phase, replies)[i] is Finish,
    ensures
        trace(ip, phase, replies)[j] == Instruction::Finish(None),
    decreases replies.len(),
{
    let next = step(ip, phase, replies.first()).0;
    lemma_trace_len(ip, next, replies.drop_first());
    if i == 0 {
        assert(next == Phase::Finished);
        lemma_finished_stays_finished(ip, replies.drop_first(), j - 1);
    } else {
        lemma_nothing_after_finish(ip, next, replies.drop_first(), i - 1, j - 1);
    }
}

/// A host whose printer port is not reported open yields no record, and no
/// probe is ever asked for: every instruction is to stop.
pub proof fn lemma_closed_port_ends_examination(ip: u32, replies: Seq<Reply>, i: int)
    requires
        0 <= i < replies.len(),
        replies[0] != Reply::Port(true),
    ensures
        trace(ip, Phase::Reachability, replies)[i] == Instruction::Finish(None),
{
    lemma_trace_len(ip, Phase::Finished, replies.drop_first());
    if i > 0 {
        lemma_finished_stays_finished(ip, replies.drop_first(), i - 1);
    }
}

/// The probes are asked for in their order, each at most once: the
/// instruction that follows reply `i` of an examination can only be the
/// probe of rank `i`.
pub proof fn lemma_probes_in_order(ip: u32, replies: Seq<Reply>, i: int, kind: ProbeKind)
    requires
        0 <= i < replies.len(),
        trace(ip, Phase::Reachability, replies)[i] == Instruction::Probe(kind),
    ensures
        kind.rank() == i,
{
    let next = step(ip, Phase::Reachability, replies.first()).0;
    lemma_trace_len(ip, next, replies.drop_first());
    if i > 0 {
        if next == Phase::Finished {
            lemma_finished_stays_finished(ip, replies.drop_first(), i - 1);
        } else {
            lemma_probes_follow(ip, ProbeKind::ZebraSgd, replies.drop_first(), i - 1, kind);
        }
    }
}

/// While probe `current` is out, the instruction that follows reply `i` can
/// only be the probe that stands `i + 1` places after `current`.
pub proof fn lemma_probes_follow(
    ip: u32,
    current: ProbeKind,
    replies: Seq<Reply>,
    i: int,
    kind: ProbeKind,
)
    requires
        0 <= i < replies.len(),
        trace(ip, Phase::Probing(current), replies)[i] == Instruction::Probe(kind),
    ensures
        kind.rank() == current.rank() + 1 + i,
    decreases replies.len(),
{
    let next = step(ip, Phase::Probing(current), replies.first()).0;
    lemma_trace_len(ip, next, replies.drop_first());
    if i > 0 {
        match next {
            Phase::Probing(following) => {
                lemma_probes_follow(ip, following, replies.drop_first(), i - 1, kind);
            },
            Phase::Finished => {
                lemma_finished_stays_finished(ip, replies.drop_first(), i - 1);
            },
            Phase::Reachability => {},
        }
    }
}

/// A model that the SGD probe reads is the result of the examination,
/// under the name of that probe, whatever the later probes would have
/// read: they are not asked for.
pub proof fn lemma_sgd_takes_precedence(ip: u32, replies: Seq<Reply>, model: Seq<char>)
    requires
        2 <= replies.len(),
        replies[0] == Reply::Port(true),
        reading(ProbeKind::ZebraSgd, replies[1]) == Some(model),
    ensures
        trace(ip, Phase::Reachability, replies)[0] == Instruction::Probe(ProbeKind::ZebraSgd),
        trace(ip, Phase::Reachability, replies)[1] == Instruction::Finish(
            Some(Record { ip, model, source: "SGD (Zebra)"@ }),
        ),
        forall|i: int|
            2 <= i < replies.len() ==> #[trigger] trace(ip, Phase::Reachability, replies)[i]
                == Instruction::Finish(None),
{
    let rest = replies.drop_first();
    lemma_trace_len(ip, Phase::Probing(ProbeKind::ZebraSgd), rest);
    lemma_trace_len(ip, Phase::Finished, rest.drop_first());
    assert(rest.first() == replies[1]);
    assert(trace(ip, Phase::Probing(ProbeKind::ZebraSgd), rest)[0] == Instruction::Finish(
        Some(finding(ip, ProbeKind::ZebraSgd, model)),
    ));
    assert forall|i: int| 2 <= i < replies.len() implies #[trigger] trace(
        ip,
        Phase::Reachability,
        replies,
    )[i] == Instruction::Finish(None) by {
        lemma_finished_stays_finished(ip, rest.drop_first(), i - 2);
    }
}

} // verus!
