use vstd::prelude::*;

verus! {

/// Writes of one report tried within a single tick before it is left for the
/// next tick.
pub const MAX_WRITE_ATTEMPTS: u32 = 8;

/// Device state as the USB stack reports it.
#[derive(Clone, Copy, Debug, PartialEq, Eq, Structural)]
pub enum DeviceState {
    Default,
    Addressed,
    Configured,
    Suspended,
}

/// Out-of-band signal of the layout resolver's custom key, from one tick.
#[derive(Clone, Copy, Debug, PartialEq, Eq, Structural)]
pub enum CustomSignal {
    NoEvent,
    Press,
    Release,
}

/// What the surrounding task observed since the emitter last decided.
#[derive(Clone, Copy, Debug, PartialEq, Eq, Structural)]
pub enum EmitterEvent {
    /// The resolver's timers were advanced; its signal and the device state.
    Ticked { signal: CustomSignal, device: DeviceState },
    /// The transport took the new report, or was busy.
    ReportSet { accepted: bool },
    /// A write of the report put `count` bytes on the transport.
    Written { count: usize },
    /// A write of the report failed.
    WriteFailed,
}

/// What the surrounding task must do next.
#[derive(Clone, Copy, Debug, PartialEq, Eq, Structural)]
pub enum EmitterAction {
    /// Nothing more this tick.
    Idle,
    /// Jump to the bootloader; nothing else is done after it.
    JumpToBootloader,
    /// Pull the resolver's key codes and hand them to the transport.
    SetReport,
    /// Write the report bytes to the transport.
    WriteReport,
}

/// Where the report cycle stands.
#[derive(Clone, Copy, Debug, PartialEq, Eq, Structural)]
pub enum EmitterPhase {
    /// Waiting for the next tick.
    Waiting,
    /// A report was offered to the transport.
    Setting,
    /// The report is being written; `attempts` writes were asked for.
    Writing { attempts: u32 },
    /// The bootloader jump was asked for; nothing follows.
    Halted,
}

/// The phase and action that follow `ev` in phase `p`.
pub open spec fn step_spec(p: EmitterPhase, ev: EmitterEvent) -> (EmitterPhase, EmitterAction) {
    match p {
        EmitterPhase::Halted => (EmitterPhase::Halted, EmitterAction::Idle),
        _ => match ev {
            EmitterEvent::Ticked { signal, device } => if signal == CustomSignal::Release {
                (EmitterPhase::Halted, EmitterAction::JumpToBootloader)
            } else if device != DeviceState::Configured {
                (EmitterPhase::Waiting, EmitterAction::Idle)
            } else {
                (EmitterPhase::Setting, EmitterAction::SetReport)
            },
            EmitterEvent::ReportSet { accepted } => if p == EmitterPhase::Setting && accepted {
                (EmitterPhase::Writing { attempts: 1 }, EmitterAction::WriteReport)
            } else {
                (EmitterPhase::Waiting, EmitterAction::Idle)
            },
            EmitterEvent::Written { count } => match p {
                EmitterPhase::Writing { attempts } => if count == 0 && attempts
                    < MAX_WRITE_ATTEMPTS {
                    (EmitterPhase::Writing { attempts: (attempts + 1) as u32 }, EmitterAction::WriteReport)
                } else {
                    (EmitterPhase::Waiting, EmitterAction::Idle)
                },
                _ => (EmitterPhase::Waiting, EmitterAction::Idle),
            },
            EmitterEvent::WriteFailed => (EmitterPhase::Waiting, EmitterAction::Idle),
        },
    }
}

/// The phase after every event of `evs`, in order, starting in `p`.
pub open spec fn run_phase(p: EmitterPhase, evs: Seq<EmitterEvent>) -> EmitterPhase
    decreases evs.len(),
{
    if evs.len() == 0 {
        p
    } else {
        step_spec(run_phase(p, evs.drop_last()), evs.last()).0
    }
}

/// The actions asked for, in order, while `evs` is handled starting in `p`.
pub open spec fn run_actions(p: EmitterPhase, evs: Seq<EmitterEvent>) -> Seq<EmitterAction>
    decreases evs.len(),
{
    if evs.len() == 0 {
        Seq::empty()
    } else {
        run_actions(p, evs.drop_last()).push(
            step_spec(run_phase(p, evs.drop_last()), evs.last()).1,
        )
    }
}

/// An action that touches the HID transport.
pub open spec fn is_transport_write(a: EmitterAction) -> bool {
    a == EmitterAction::SetReport || a == EmitterAction::WriteReport
}

/// An event that is no tick, or a tick that shows the device anything but
/// configured.
pub open spec fn unconfigured(ev: EmitterEvent) -> bool {
    ev matches EmitterEvent::Ticked { device, .. } ==> device != DeviceState::Configured
}

/// The per-tick report cycle: advance the resolver, honour the bootloader
/// escape, offer the report when the host has configured the device, and
/// write it with a bounded number of retries.
pub struct ReportEmitter {
    phase: EmitterPhase,
}

impl ReportEmitter {
    #[verifier::type_invariant]
    spec fn inv(self) -> bool {
        self.phase matches EmitterPhase::Writing { attempts } ==> 1 <= attempts
            <= MAX_WRITE_ATTEMPTS
    }

    /// The phase the cycle stands in.
    pub closed spec fn phase_spec(&self) -> EmitterPhase {
        self.phase
    }

    /// An emitter waiting for its first tick.
    pub fn new() -> (r: ReportEmitter)
        ensures
            r.phase_spec() == EmitterPhase::Waiting,
    {
        ReportEmitter { phase: EmitterPhase::Waiting }
    }

    /// The phase the cycle stands in.
    pub fn phase(&self) -> (r: EmitterPhase)
        ensures
            r == self.phase_spec(),
    {
        self.phase
    }

    /// Takes what was observed and says what to do next.
    pub fn handle(&mut self, ev: EmitterEvent) -> (r: EmitterAction)
        ensures
            (final(self).phase_spec(), r) == step_spec(old(self).phase_spec(), ev),
    {
        proof {
            use_type_invariant(&*self);
        }
        let (p, a) = match self.phase {
            EmitterPhase::Halted => (EmitterPhase::Halted, EmitterAction::Idle),
            _ => match ev {
                EmitterEvent::Ticked { signal, device } => {
                    if signal == CustomSignal::Release {
                        (EmitterPhase::Halted, EmitterAction::JumpToBootloader)
                    } else if device != DeviceState::Configured {
                        (EmitterPhase::Waiting, EmitterAction::Idle)
                    } else {
                        (EmitterPhase::Setting, EmitterAction::SetReport)
                    }
                },
                EmitterEvent::ReportSet { accepted } => {
                    if self.phase == EmitterPhase::Setting && accepted {
                        (EmitterPhase::Writing { attempts: 1 }, EmitterAction::WriteReport)
                    } else {
                        (EmitterPhase::Waiting, EmitterAction::Idle)
                    }
                },
                EmitterEvent::Written { count } => match self.phase {
                    EmitterPhase::Writing { attempts } => {
                        if count == 0 && attempts < MAX_WRITE_ATTEMPTS {
                            (EmitterPhase::Writing { attempts: attempts + 1 }, EmitterAction::WriteReport)
                        } else {
                            (EmitterPhase::Waiting, EmitterAction::Idle)
                        }
                    },
                    _ => (EmitterPhase::Waiting, EmitterAction::Idle),
                },
                EmitterEvent::WriteFailed => (EmitterPhase::Waiting, EmitterAction::Idle),
            },
        };
        self.phase = p;
        a
    }
}

/// While the device is never seen configured, the report cycle asks for no
/// transport write at all, whatever the resolver signals and however many
/// ticks pass.
pub proof fn lemma_unconfigured_never_writes(evs: Seq<EmitterEvent>)
    requires
        forall|i: int| 0 <= i < evs.len() ==> unconfigured(#[trigger] evs[i]),
    ensures
        forall|i: int|
            0 <= i < run_actions(EmitterPhase::Waiting, evs).len() ==> !is_transport_write(
                #[trigger] run_actions(EmitterPhase::Waiting, evs)[i],
            ),
        run_actions(EmitterPhase::Waiting, evs).len() == evs.len(),
    decreases evs.len(),
{
    if evs.len() > 0 {
        let p = evs.drop_last();
        assert forall|i: int| 0 <= i < p.len() implies unconfigured(#[trigger] p[i]) by {
            assert(p[i] == evs[i]);
        }
        lemma_unconfigured_never_writes(p);
        lemma_unconfigured_phase(p);
        assert(unconfigured(evs[evs.len() - 1]));
    }
}

proof fn lemma_unconfigured_phase(evs: Seq<EmitterEvent>)
    requires
        forall|i: int| 0 <= i < evs.len() ==> unconfigured(#[trigger] evs[i]),
    ensures
        run_phase(EmitterPhase::Waiting, evs) == EmitterPhase::Waiting || run_phase(
            EmitterPhase::Waiting,
            evs,
        ) == EmitterPhase::Halted,
    decreases evs.len(),
{
    if evs.len() > 0 {
        let p = evs.drop_last();
        assert forall|i: int| 0 <= i < p.len() implies unconfigured(#[trigger] p[i]) by {
            assert(p[i] == evs[i]);
        }
        lemma_unconfigured_phase(p);
        assert(unconfigured(evs[evs.len() - 1]));
    }
}

} // verus!
