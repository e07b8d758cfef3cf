//! Phases and schedules of training.

use vstd::prelude::*;

use crate::double::Double;

verus! {

/// Which parameter group an acoustic training step is intended to update.
#[derive(Debug, Clone, Copy, PartialEq, Eq, Structural)]
pub enum AcousticTrainingPhase {
    Alignment,
    Decoder,
    Acoustic,
    DurationPredictor,
    Joint,
}

impl AcousticTrainingPhase {
    /// The place of the phase in the order of training.
    pub open spec fn place(self) -> int {
        match self {
            AcousticTrainingPhase::Alignment => 0,
            AcousticTrainingPhase::Decoder => 1,
            AcousticTrainingPhase::Acoustic => 2,
            AcousticTrainingPhase::DurationPredictor => 3,
            AcousticTrainingPhase::Joint => 4,
        }
    }
}

/// Which parameter group a vocoder training step updates.
#[derive(Debug, Clone, Copy, PartialEq, Eq, Structural)]
pub enum VocoderTrainingPhase {
    Generator,
    Discriminator,
    Joint,
}

/// The losses that a training step returns.
#[derive(Debug, Clone, Copy, PartialEq, Eq, Structural)]
pub struct VocoderLosses {
    pub generator: bool,
    pub discriminator: bool,
}

impl VocoderTrainingPhase {
    /// The losses that a step of the phase returns: those of the groups that it updates.
    pub fn losses(self) -> (out: VocoderLosses)
        ensures
            out.generator == (self != VocoderTrainingPhase::Discriminator),
            out.discriminator == (self != VocoderTrainingPhase::Generator),
    {
        match self {
            VocoderTrainingPhase::Generator => VocoderLosses {
                generator: true,
                discriminator: false,
            },
            VocoderTrainingPhase::Discriminator => VocoderLosses {
                generator: false,
                discriminator: true,
            },
            VocoderTrainingPhase::Joint => VocoderLosses { generator: true, discriminator: true },
        }
    }
}

/// When generator and discriminator are updated.
#[derive(Debug, Clone, Copy, PartialEq, Eq, Structural)]
pub enum VocoderAdversarialUpdateSchedule {
    /// Both with every batch.
    EveryBatch,
    /// First the discriminator for some steps, then the generator for some, and so on.
    Cycle { discriminator_steps: u64, generator_steps: u64 },
}

impl VocoderAdversarialUpdateSchedule {
    /// A cycle has steps, and they can be counted.
    pub open spec fn wf(self) -> bool {
        self matches VocoderAdversarialUpdateSchedule::Cycle {
            discriminator_steps,
            generator_steps,
        } ==> 0 < discriminator_steps + generator_steps <= u64::MAX
    }

    /// The steps after which a schedule repeats itself.
    pub open spec fn period(self) -> int {
        match self {
            VocoderAdversarialUpdateSchedule::EveryBatch => 1,
            VocoderAdversarialUpdateSchedule::Cycle { discriminator_steps, generator_steps } =>
                discriminator_steps + generator_steps,
        }
    }

    /// The phase of a step.
    pub open spec fn phase_at(self, step: int) -> VocoderTrainingPhase {
        match self {
            VocoderAdversarialUpdateSchedule::EveryBatch => VocoderTrainingPhase::Joint,
            VocoderAdversarialUpdateSchedule::Cycle { discriminator_steps, .. } => if step
                % self.period() < discriminator_steps {
                VocoderTrainingPhase::Discriminator
            } else {
                VocoderTrainingPhase::Generator
            },
        }
    }

    pub fn training_phase(self, global_step: u64) -> (out: VocoderTrainingPhase)
        requires
            self.wf(),
        ensures
            out == self.phase_at(global_step as int),
    {
        match self {
            VocoderAdversarialUpdateSchedule::EveryBatch => VocoderTrainingPhase::Joint,
            VocoderAdversarialUpdateSchedule::Cycle { discriminator_steps, generator_steps } => {
                if global_step % (discriminator_steps + generator_steps) < discriminator_steps {
                    VocoderTrainingPhase::Discriminator
                } else {
                    VocoderTrainingPhase::Generator
                }
            },
        }
    }
}

/// A schedule starts over after each of its periods.
pub proof fn schedules_repeat(schedule: VocoderAdversarialUpdateSchedule, step: int, periods: int)
    requires
        schedule.wf(),
        0 <= step,
        0 <= periods,
    ensures
        schedule.phase_at(step + periods * schedule.period()) == schedule.phase_at(step),
{
    let period = schedule.period();
    vstd::arithmetic::div_mod::lemma_mod_multiples_vanish(periods, step, period);
    assert(period * periods + step == step + periods * period) by (nonlinear_arith);
}

/// Within a period the discriminator comes first and takes its steps, and the generator takes
/// the rest.
pub proof fn cycles_give_each_its_steps(discriminator_steps: u64, generator_steps: u64, step: int)
    requires
        0 <= step < discriminator_steps + generator_steps <= u64::MAX,
    ensures
        ({
            let schedule = VocoderAdversarialUpdateSchedule::Cycle {
                discriminator_steps,
                generator_steps,
            };
            schedule.phase_at(step) == if step < discriminator_steps {
                VocoderTrainingPhase::Discriminator
            } else {
                VocoderTrainingPhase::Generator
            }
        }),
{
    vstd::arithmetic::div_mod::lemma_small_mod(
        step as nat,
        (discriminator_steps + generator_steps) as nat,
    );
}

/// How far training has come with a step.
#[derive(Debug, Clone, Copy, PartialEq, Eq, Structural)]
pub struct VocoderTrainingProgress {
    pub phase: VocoderTrainingPhase,
    pub generator_updates: u64,
    pub discriminator_updates: u64,
}

impl VocoderAdversarialUpdateSchedule {
    /// The updates of the generator in the first steps.
    pub open spec fn generator_updates(self, steps: nat) -> nat
        decreases steps,
    {
        if steps == 0 {
            0
        } else {
            self.generator_updates((steps - 1) as nat) + if self.phase_at(steps - 1)
                != VocoderTrainingPhase::Discriminator {
                1nat
            } else {
                0nat
            }
        }
    }

    /// The updates of the discriminator in the first steps.
    pub open spec fn discriminator_updates(self, steps: nat) -> nat
        decreases steps,
    {
        if steps == 0 {
            0
        } else {
            self.discriminator_updates((steps - 1) as nat) + if self.phase_at(steps - 1)
                != VocoderTrainingPhase::Generator {
                1nat
            } else {
                0nat
            }
        }
    }

    /// How far training has come once a step is done.
    pub fn progress(self, global_step: u64) -> (out: VocoderTrainingProgress)
        requires
            self.wf(),
            global_step < u64::MAX,
        ensures
            out.phase == self.phase_at(global_step as int),
            out.generator_updates == self.generator_updates(global_step as nat + 1),
            out.discriminator_updates == self.discriminator_updates(global_step as nat + 1),
    {
        let phase = self.training_phase(global_step);
        match self {
            VocoderAdversarialUpdateSchedule::EveryBatch => {
                proof {
                    every_batch_counts(global_step as nat + 1);
                }
                VocoderTrainingProgress {
                    phase,
                    generator_updates: global_step + 1,
                    discriminator_updates: global_step + 1,
                }
            },
            VocoderAdversarialUpdateSchedule::Cycle { discriminator_steps, generator_steps } => {
                let period: u64 = discriminator_steps + generator_steps;
                let cycles: u64 = global_step / period;
                let taken: u64 = global_step % period + 1;
                let last: u64 = if taken < discriminator_steps {
                    taken
                } else {
                    discriminator_steps
                };
                proof {
                    cycle_counts(discriminator_steps, generator_steps, global_step as nat);
                    updates_add_up(self, global_step as nat + 1);
                    vstd::arithmetic::div_mod::lemma_fundamental_div_mod(
                        global_step as int,
                        period as int,
                    );
                    assert(0 <= cycles * discriminator_steps <= cycles * period) by (nonlinear_arith)
                        requires
                            discriminator_steps <= period,
                            0 <= cycles,
                            0 <= discriminator_steps,
                    ;
                    assert(cycles * period == period * cycles) by (nonlinear_arith);
                }
                let discriminator_updates: u64 = cycles * discriminator_steps + last;
                VocoderTrainingProgress {
                    phase,
                    generator_updates: global_step + 1 - discriminator_updates,
                    discriminator_updates,
                }
            },
        }
    }
}

proof fn every_batch_counts(steps: nat)
    ensures
        VocoderAdversarialUpdateSchedule::EveryBatch.generator_updates(steps) == steps,
        VocoderAdversarialUpdateSchedule::EveryBatch.discriminator_updates(steps) == steps,
    decreases steps,
{
    if steps > 0 {
        every_batch_counts((steps - 1) as nat);
    }
}

/// Every step of a cycle updates one of the two: their updates add up to the steps.
pub proof fn updates_add_up(schedule: VocoderAdversarialUpdateSchedule, steps: nat)
    requires
        schedule is Cycle,
    ensures
        schedule.generator_updates(steps) + schedule.discriminator_updates(steps) == steps,
    decreases steps,
{
    if steps > 0 {
        updates_add_up(schedule, (steps - 1) as nat);
    }
}

proof fn cycle_counts(discriminator_steps: u64, generator_steps: u64, step: nat)
    requires
        0 < discriminator_steps + generator_steps,
    ensures
        ({
            let schedule = VocoderAdversarialUpdateSchedule::Cycle {
                discriminator_steps,
                generator_steps,
            };
            let period = discriminator_steps + generator_steps;
            let cycles = step as int / period;
            let taken = step as int % period + 1;
            schedule.discriminator_updates(step + 1) == cycles * discriminator_steps + if taken
                < discriminator_steps {
                taken
            } else {
                discriminator_steps as int
            }
        }),
    decreases step,
{
    let schedule = VocoderAdversarialUpdateSchedule::Cycle { discriminator_steps, generator_steps };
    let period = discriminator_steps + generator_steps;
    let d = discriminator_steps as int;
    if step == 0 {
        assert(schedule.discriminator_updates(0) == 0);
        vstd::arithmetic::div_mod::lemma_small_mod(0, period as nat);
        vstd::arithmetic::div_mod::lemma_basic_div(0, period);
        assert(0 * d == 0) by (nonlinear_arith);
    } else {
        let before = step as int - 1;
        cycle_counts(discriminator_steps, generator_steps, before as nat);
        vstd::arithmetic::div_mod::lemma_fundamental_div_mod(before, period);
        let cycles = before / period;
        let place = before % period;
        assert(0 <= place < period);
        assert(cycles * period == period * cycles) by (nonlinear_arith);
        assert((cycles + 1) * period == cycles * period + period) by (nonlinear_arith);
        assert((cycles + 1) * d == cycles * d + d) by (nonlinear_arith);
        if place + 1 < period {
            vstd::arithmetic::div_mod::lemma_fundamental_div_mod_converse(
                step as int,
                period,
                cycles,
                place + 1,
            );
        } else {
            vstd::arithmetic::div_mod::lemma_fundamental_div_mod_converse(
                step as int,
                period,
                cycles + 1,
                0,
            );
        }
    }
}

/// Whether the spectrogram loss of a HiFi-GAN generator is computed: where it weighs something,
/// which takes a way to compute spectrograms.
pub fn needs_mel_loss(weight: Double, contract: bool) -> (out: Result<bool, String>)
    ensures
        match out {
            Ok(needed) => needed == weight.positive() && (needed ==> contract),
            Err(message) => weight.positive() && !contract && message@
                == "enabled HiFi-GAN mel loss requires a differentiable mel contract"@,
        },
{
    if !Double::zero().is_less(weight) {
        return Ok(false);
    }
    if !contract {
        return Err(
            "enabled HiFi-GAN mel loss requires a differentiable mel contract".to_owned(),
        );
    }
    Ok(true)
}

/// The samples over which a MelGAN waveform is compared: as many as both have, where the
/// comparison weighs something.
pub fn compared_samples(weight: Double, target: usize, predicted: usize) -> (out: Option<usize>)
    ensures
        out == (if !weight.positive() {
            None
        } else if target < predicted {
            Some(target)
        } else {
            Some(predicted)
        }),
{
    if !Double::zero().is_less(weight) {
        return None;
    }
    if target < predicted {
        Some(target)
    } else {
        Some(predicted)
    }
}

/// The phase of a step: with every batch both, and in a cycle the discriminator for its first steps,
/// counted from the start of the cycle, and the generator for the rest.
pub proof fn cycles_decide_phases(
    schedule: VocoderAdversarialUpdateSchedule,
    cycle: int,
    place: int,
    global_step: u64,
    phase: VocoderTrainingPhase,
)
    requires
        schedule.wf(),
        0 <= cycle,
        0 <= place < schedule.period(),
        global_step == cycle * schedule.period() + place,
        call_ensures(
            VocoderAdversarialUpdateSchedule::training_phase,
            (schedule, global_step),
            phase,
        ),
    ensures
        phase == VocoderTrainingPhase::Joint <==> schedule is EveryBatch,
        schedule matches VocoderAdversarialUpdateSchedule::Cycle {
            discriminator_steps,
            generator_steps,
        } ==> schedule.period() == discriminator_steps + generator_steps && (phase
            == VocoderTrainingPhase::Discriminator <==> place < discriminator_steps) && (phase
            == VocoderTrainingPhase::Generator <==> place >= discriminator_steps),
{
    let period = schedule.period();
    vstd::arithmetic::div_mod::lemma_fundamental_div_mod_converse(
        global_step as int,
        period,
        cycle,
        place,
    );
}

/// A step updates what its phase names, and returns the losses of what it updates: the counts of
/// updates grow by one from one step to the next where the group is trained, and stay where it is
/// not.
pub proof fn steps_update_what_they_train(
    schedule: VocoderAdversarialUpdateSchedule,
    step: u64,
    before: VocoderTrainingProgress,
    after: VocoderTrainingProgress,
    phase: VocoderTrainingPhase,
    losses: VocoderLosses,
)
    requires
        schedule.wf(),
        step + 1 < u64::MAX,
        call_ensures(VocoderAdversarialUpdateSchedule::progress, (schedule, step), before),
        call_ensures(
            VocoderAdversarialUpdateSchedule::progress,
            (schedule, (step + 1) as u64),
            after,
        ),
        call_ensures(
            VocoderAdversarialUpdateSchedule::training_phase,
            (schedule, (step + 1) as u64),
            phase,
        ),
        call_ensures(VocoderTrainingPhase::losses, (phase,), losses),
    ensures
        after.phase == phase,
        after.generator_updates == before.generator_updates + if losses.generator {
            1int
        } else {
            0int
        },
        after.discriminator_updates == before.discriminator_updates + if losses.discriminator {
            1int
        } else {
            0int
        },
        losses.generator || losses.discriminator,
        losses.generator && losses.discriminator <==> phase == VocoderTrainingPhase::Joint,
        losses.discriminator <==> phase != VocoderTrainingPhase::Generator,
{
    assert(schedule.generator_updates((step + 2) as nat) == schedule.generator_updates(
        (step + 1) as nat,
    ) + if schedule.phase_at(step + 1) != VocoderTrainingPhase::Discriminator {
        1nat
    } else {
        0nat
    });
    assert(schedule.discriminator_updates((step + 2) as nat) == schedule.discriminator_updates(
        (step + 1) as nat,
    ) + if schedule.phase_at(step + 1) != VocoderTrainingPhase::Generator {
        1nat
    } else {
        0nat
    });
}

/// The first step updates what it trains, for the first time.
pub proof fn first_steps_update_once(
    schedule: VocoderAdversarialUpdateSchedule,
    progress: VocoderTrainingProgress,
)
    requires
        schedule.wf(),
        call_ensures(VocoderAdversarialUpdateSchedule::progress, (schedule, 0), progress),
    ensures
        progress.generator_updates == if progress.phase == VocoderTrainingPhase::Discriminator {
            0int
        } else {
            1int
        },
        progress.discriminator_updates == if progress.phase == VocoderTrainingPhase::Generator {
            0int
        } else {
            1int
        },
{
    assert(schedule.generator_updates(0) == 0);
    assert(schedule.discriminator_updates(0) == 0);
    assert(schedule.generator_updates(1) == schedule.generator_updates(0)
        + if schedule.phase_at(0) != VocoderTrainingPhase::Discriminator {
        1nat
    } else {
        0nat
    });
    assert(schedule.discriminator_updates(1) == schedule.discriminator_updates(0)
        + if schedule.phase_at(0) != VocoderTrainingPhase::Generator {
        1nat
    } else {
        0nat
    });
}

/// A loss is computed where it weighs something: that of spectrograms needs a way to compute them,
/// and that of waveforms reaches over the samples that both have.
pub proof fn weights_decide_losses(
    weight: Double,
    contract: bool,
    target: usize,
    predicted: usize,
    mel: Result<bool, String>,
    samples: Option<usize>,
)
    requires
        call_ensures(needs_mel_loss, (weight, contract), mel),
        call_ensures(compared_samples, (weight, target, predicted), samples),
    ensures
        ({
            let weighs = !weight.nan() && weight.rank() > 0;
            &&& mel == Ok::<bool, String>(true) <==> weighs && contract
            &&& mel is Err <==> weighs && !contract
            &&& samples is Some <==> weighs
            &&& samples matches Some(count) ==> count <= target && count <= predicted && (count
                == target || count == predicted)
        }),
{
}

} // verus!
