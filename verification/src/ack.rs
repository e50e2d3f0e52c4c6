use vstd::prelude::*;
use crate::config::Config;
use crate::dlq::DlqReason;

verus! {

/// The classified outcome a handler reports for one delivery.
#[derive(Debug, Clone)]
pub enum Outcome {
    /// The handler finished; the delivery is consumed.
    Success,
    /// The handler failed. `abort` declares the failure non-transient;
    /// `message` is the rendered error.
    Failure {
        /// Non-transient failures are never retried.
        abort: bool,
        /// Rendered error message, carried into the DLQ record.
        message: Vec<u8>,
    },
}

impl Outcome {
    /// A failure declared non-transient by the handler.
    pub open spec fn is_abort(self) -> bool {
        self matches Outcome::Failure { abort: true, .. }
    }

    /// A failure the handler considers retryable.
    pub open spec fn is_transient(self) -> bool {
        self matches Outcome::Failure { abort: false, .. }
    }
}

/// What the ack handler tells the broker to do with one delivery.
#[derive(Debug, Clone, Copy, PartialEq, Eq, Structural)]
pub enum AckAction {
    /// Acknowledge: the job is consumed and leaves the work queue.
    Ack,
    /// Publish a DLQ record, and acknowledge the original only after that
    /// publish succeeded.
    DlqThenAck {
        /// Why the job is routed to the DLQ.
        reason: DlqReason,
    },
    /// Terminate: discard without redelivery.
    Term,
    /// Negative acknowledgement: the broker redelivers after the delay.
    Nak {
        /// Requested redelivery delay in milliseconds.
        delay_ms: u64,
    },
}

/// Which backoff entry applies to a delivery: `min(delivered - 1, len - 1)`,
/// so the last entry repeats once attempts exceed the list.
pub open spec fn backoff_index(delivered: u64, len: int) -> int {
    if delivered - 1 <= len - 1 {
        delivered - 1
    } else {
        len - 1
    }
}

/// The retry delay for a transient failure on the given delivery.
pub open spec fn backoff_delay(cfg: Config, delivered: u64) -> u64 {
    cfg.nak_backoff_ms@[backoff_index(delivered, cfg.nak_backoff_ms@.len() as int)]
}

/// The acknowledgement state machine: which broker action resolves one
/// delivery, given the outcome, the broker-reported delivery count, and the
/// configuration.
pub open spec fn spec_decide(o: Outcome, delivered: u64, cfg: Config) -> AckAction {
    match o {
        Outcome::Success => AckAction::Ack,
        Outcome::Failure { abort, message: _ } => if abort {
            if cfg.enable_dlq {
                AckAction::DlqThenAck { reason: DlqReason::AbortError }
            } else {
                AckAction::Term
            }
        } else if delivered >= cfg.max_deliver {
            if cfg.enable_dlq {
                AckAction::DlqThenAck { reason: DlqReason::MaxDeliverExceeded }
            } else {
                AckAction::Term
            }
        } else {
            AckAction::Nak { delay_ms: backoff_delay(cfg, delivered) }
        },
    }
}

/// Decide the broker action for one delivery outcome.
pub fn decide_ack(o: &Outcome, delivered: u64, cfg: &Config) -> (a: AckAction)
    requires
        cfg.wf(),
        delivered >= 1,
    ensures
        a == spec_decide(*o, delivered, *cfg),
{
    match o {
        Outcome::Success => AckAction::Ack,
        Outcome::Failure { abort, message: _ } => {
            if *abort {
                if cfg.enable_dlq {
                    AckAction::DlqThenAck { reason: DlqReason::AbortError }
                } else {
                    AckAction::Term
                }
            } else if delivered >= cfg.max_deliver {
                if cfg.enable_dlq {
                    AckAction::DlqThenAck { reason: DlqReason::MaxDeliverExceeded }
                } else {
                    AckAction::Term
                }
            } else {
                let last = cfg.nak_backoff_ms.len() - 1;
                let d = delivered - 1;
                let idx = if d < last as u64 {
                    d as usize
                } else {
                    last
                };
                AckAction::Nak { delay_ms: cfg.nak_backoff_ms[idx] }
            }
        },
    }
}

/// The broker-side life of one delivery, as the ack handler drives it.
pub enum DeliveryState {
    /// Not yet resolved; `delivered` counts deliveries so far.
    Pending {
        /// Broker-reported delivery count.
        delivered: u64,
    },
    /// Acknowledged after success: consumed.
    Acked,
    /// Terminated: discarded without redelivery.
    Termed,
    /// Acknowledged after a DLQ record was written.
    DlqAcked,
}

/// A delivery is resolved once it leaves `Pending`.
pub open spec fn is_terminal(st: DeliveryState) -> bool {
    !(st is Pending)
}

/// Apply one decided action to a delivery. The second component counts DLQ
/// records written. A failed DLQ publish leaves the delivery pending, so the
/// broker redelivers it after `ack_wait`; a negative acknowledgement raises
/// the delivery count by one.
pub open spec fn apply_action(st: DeliveryState, a: AckAction, dlq_ok: bool) -> (
    DeliveryState,
    int,
) {
    match st {
        DeliveryState::Pending { delivered } => match a {
            AckAction::Ack => (DeliveryState::Acked, 0),
            AckAction::Term => (DeliveryState::Termed, 0),
            AckAction::DlqThenAck { reason: _ } => if dlq_ok {
                (DeliveryState::DlqAcked, 1)
            } else {
                (st, 0)
            },
            AckAction::Nak { delay_ms: _ } => (
                DeliveryState::Pending { delivered: (delivered + 1) as u64 },
                0,
            ),
        },
        _ => (st, 0),
    }
}

/// One delivery round: the handler's outcome is decided and applied.
pub open spec fn deliver_step(st: DeliveryState, o: Outcome, cfg: Config, dlq_ok: bool) -> (
    DeliveryState,
    int,
) {
    match st {
        DeliveryState::Pending { delivered } => apply_action(
            st,
            spec_decide(o, delivered, cfg),
            dlq_ok,
        ),
        _ => (st, 0),
    }
}

/// Run one delivery through successive handler outcomes, with every DLQ
/// publish succeeding; the second component totals the DLQ records written.
pub open spec fn run_deliveries(st: DeliveryState, outcomes: Seq<Outcome>, cfg: Config) -> (
    DeliveryState,
    int,
)
    decreases outcomes.len(),
{
    if outcomes.len() == 0 {
        (st, 0)
    } else {
        let first = deliver_step(st, outcomes[0], cfg, true);
        let rest = run_deliveries(first.0, outcomes.drop_first(), cfg);
        (rest.0, first.1 + rest.1)
    }
}

/// A resolved delivery stays resolved: terminal states absorb every
/// further outcome, and write no further DLQ record.
pub proof fn lemma_terminal_absorbing(st: DeliveryState, outcomes: Seq<Outcome>, cfg: Config)
    requires
        is_terminal(st),
    ensures
        run_deliveries(st, outcomes, cfg) == (st, 0int),
    decreases outcomes.len(),
{
    if outcomes.len() != 0 {
        lemma_terminal_absorbing(st, outcomes.drop_first(), cfg);
    }
}

/// Every outcome maps to exactly one action, selected by the conditions of
/// the acknowledgement table.
pub proof fn lemma_decide_total(o: Outcome, delivered: u64, cfg: Config)
    requires
        cfg.wf(),
        delivered >= 1,
    ensures
        (spec_decide(o, delivered, cfg) == AckAction::Ack) <==> (o is Success),
        (spec_decide(o, delivered, cfg) matches AckAction::DlqThenAck { .. }) <==> (
        cfg.enable_dlq && (o.is_abort() || (o.is_transient() && delivered >= cfg.max_deliver))),
        (spec_decide(o, delivered, cfg) == AckAction::Term) <==> (!cfg.enable_dlq && (o.is_abort()
            || (o.is_transient() && delivered >= cfg.max_deliver))),
        (spec_decide(o, delivered, cfg) matches AckAction::Nak { .. }) <==> (o.is_transient()
            && delivered < cfg.max_deliver),
{
}

/// Every published job resolves in exactly one terminal transition: once
/// enough outcomes arrive, the delivery is acknowledged, terminated, or
/// dead-lettered-then-acknowledged, and exactly one DLQ record exists in
/// the last case, none otherwise.
pub proof fn lemma_exactly_one_terminal(outcomes: Seq<Outcome>, cfg: Config, d0: u64)
    requires
        cfg.wf(),
        1 <= d0,
        outcomes.len() >= 1,
        d0 + outcomes.len() > cfg.max_deliver,
    ensures
        is_terminal(run_deliveries(DeliveryState::Pending { delivered: d0 }, outcomes, cfg).0),
        run_deliveries(DeliveryState::Pending { delivered: d0 }, outcomes, cfg).1 == (
        if run_deliveries(DeliveryState::Pending { delivered: d0 }, outcomes, cfg).0
            is DlqAcked {
            1int
        } else {
            0int
        }),
    decreases outcomes.len(),
{
    let st0 = DeliveryState::Pending { delivered: d0 };
    let first = deliver_step(st0, outcomes[0], cfg, true);
    if is_terminal(first.0) {
        lemma_terminal_absorbing(first.0, outcomes.drop_first(), cfg);
    } else {
        assert(spec_decide(outcomes[0], d0, cfg) matches AckAction::Nak { .. });
        assert(d0 < cfg.max_deliver);
        assert(first.0 == (DeliveryState::Pending { delivered: (d0 + 1) as u64 }));
        assert(outcomes.len() >= 2);
        lemma_exactly_one_terminal(outcomes.drop_first(), cfg, (d0 + 1) as u64);
    }
}

/// A failed DLQ publish resolves nothing: the delivery stays pending with
/// its count unchanged, so the broker redelivers it after `ack_wait`, and
/// no DLQ record is counted.
pub proof fn lemma_dlq_publish_failure_leaves_pending(o: Outcome, delivered: u64, cfg: Config)
    requires
        cfg.wf(),
        delivered >= 1,
        spec_decide(o, delivered, cfg) matches AckAction::DlqThenAck { .. },
    ensures
        deliver_step(DeliveryState::Pending { delivered }, o, cfg, false) == (
            DeliveryState::Pending { delivered },
            0int,
        ),
{
}

/// An abort outcome with the DLQ enabled writes exactly one DLQ record and
/// acknowledges the original, in one step.
pub proof fn lemma_abort_one_dlq_record(o: Outcome, delivered: u64, cfg: Config)
    requires
        cfg.wf(),
        delivered >= 1,
        cfg.enable_dlq,
        o.is_abort(),
    ensures
        spec_decide(o, delivered, cfg) == (AckAction::DlqThenAck {
            reason: DlqReason::AbortError,
        }),
        deliver_step(DeliveryState::Pending { delivered }, o, cfg, true) == (
            DeliveryState::DlqAcked,
            1int,
        ),
{
}

/// A transient failure under the delivery limit is negatively acknowledged
/// with exactly the configured backoff delay for that attempt.
pub proof fn lemma_transient_backoff(o: Outcome, delivered: u64, cfg: Config)
    requires
        cfg.wf(),
        1 <= delivered < cfg.max_deliver,
        o.is_transient(),
    ensures
        spec_decide(o, delivered, cfg) == (AckAction::Nak {
            delay_ms: cfg.nak_backoff_ms@[backoff_index(
                delivered,
                cfg.nak_backoff_ms@.len() as int,
            )],
        }),
{
}

} // verus!
