use crate::body::BoxBody;
use crate::codec;
use crate::seeder::Guard;
use crate::seeder::HttpRequest;
use crate::seeder::HttpResponse;
use crate::seeder::Respondent;
use crate::seeder::BoxedFactory;
use crate::seeder::BoxedSeeder;
use crate::seeder::StatusCode;
use vstd::prelude::*;
use vstd::utf8::encode_utf8;

verus! {

/// How a request leaves the pipeline: handed to the router while accessible,
/// or answered directly by a terminal response.
pub enum Outcome {
    /// The chain ended with an accessible request; the router receives it.
    Routed(HttpRequest),
    /// A terminal response was produced; the router is never consulted.
    Responded(HttpResponse),
}

/// A pipeline configuration fault: a bug in chain assembly, surfaced to the
/// top of the request's unit of work rather than suppressed.
#[derive(Debug, PartialEq, Eq, Structural)]
pub enum PipelineFault {
    /// An `Other` resolution named a capability no handler is registered for.
    UnregisteredCapability(u64),
    /// A `Reseed` resolution named a factory that was never registered.
    UnregisteredFactory(u64),
}

/// What one chain position leaves behind: the next position and its guard,
/// a terminal response, or a configuration fault.
pub enum Step {
    /// The traversal continues at this position with this guard.
    Next(usize, Guard<HttpRequest>),
    /// A `Respond` resolution halted the chain with this response.
    Halted(HttpResponse),
    /// The resolution named an unregistered factory or capability.
    Fault(PipelineFault),
}

/// What the resolution protocol directs the pipeline driver to do with the
/// guard a stage returned.
pub enum Resolution {
    /// Continue the forward chain with this guard.
    Forward(Guard<HttpRequest>),
    /// Stop and produce this response directly.
    Halt(HttpResponse),
    /// Construct a fresh stage from the named registered factory and invoke
    /// it on this guard.
    Invoke(u64, Guard<HttpRequest>),
    /// Hand this guard to the handler registered for the capability.
    Consult(u64, Guard<HttpRequest>),
}

/// Applies the resolution protocol to one guard.
///
/// An accessible guard is forwarded untouched.  An inaccessible one is
/// disposed of as its respondent directs: `Respond` halts the chain with the
/// carried response; `Ignore` discards the rejection and forwards the same
/// request as accessible; `Reseed` and `Other` hand the guard onward exactly
/// as it stands — the same guard, respondent included — to a fresh stage or
/// a registered handler.
pub fn resolve(g: Guard<HttpRequest>) -> (r: Resolution)
    ensures
        g matches Guard::Accessible(q) ==> r == Resolution::Forward(
            Guard::<HttpRequest>::Accessible(q),
        ),
        g matches Guard::Inaccessible {
            request,
            respondent: Respondent::Ignore,
            ..
        } ==> r == Resolution::Forward(Guard::<HttpRequest>::Accessible(request)),
        g matches Guard::Inaccessible {
            respondent: Respondent::Respond(resp),
            ..
        } ==> r == Resolution::Halt(resp),
        g matches Guard::Inaccessible {
            respondent: Respondent::Reseed(f),
            ..
        } ==> r == Resolution::Invoke(f, g),
        g matches Guard::Inaccessible {
            respondent: Respondent::Other(x),
            ..
        } ==> r == Resolution::Consult(x.capability, g),
        r matches Resolution::Forward(f) ==> f is Accessible,
{
    match g {
        Guard::Accessible(q) => Resolution::Forward(Guard::Accessible(q)),
        Guard::Inaccessible { request, respondent, reason, status_code } => match respondent {
            Respondent::Ignore => Resolution::Forward(Guard::Accessible(request)),
            Respondent::Respond(resp) => Resolution::Halt(resp),
            Respondent::Reseed(f) => Resolution::Invoke(
                f,
                Guard::Inaccessible {
                    request,
                    respondent: Respondent::Reseed(f),
                    reason,
                    status_code,
                },
            ),
            Respondent::Other(x) => {
                let capability = x.capability;
                Resolution::Consult(
                    capability,
                    Guard::Inaccessible {
                        request,
                        respondent: Respondent::Other(x),
                        reason,
                        status_code,
                    },
                )
            },
        },
    }
}

/// The bytes of the body that the default final translation gives a
/// rejection: the reason's text, or nothing when no reason was given.
pub open spec fn spec_fallback_body(reason: Option<String>) -> Seq<u8> {
    match reason {
        Some(s) => encode_utf8(s@),
        None => Seq::<u8>::empty(),
    }
}

/// The default final disposition of a rejection that reaches chain exit
/// unresolved: translate its status code and reason into a response whose
/// body is the reason's text, or empty when no reason was given.
pub fn fallback_response(status_code: StatusCode, reason: Option<String>) -> (r: HttpResponse)
    ensures
        r.status == status_code,
        r.body@ == spec_fallback_body(reason),
{
    let bytes: Vec<u8> = match &reason {
        Some(s) => codec::encode_text(s.as_str()),
        None => Vec::new(),
    };
    HttpResponse { status: status_code, body: BoxBody::new(bytes) }
}

/// The ordered chain of stages one request traverses, together with the
/// handlers the host registered for `Other` resolutions.
pub struct Pipeline {
    stages: Vec<BoxedSeeder>,
    handlers: Vec<(u64, BoxedSeeder)>,
    factories: Vec<(u64, BoxedFactory)>,
}

impl Pipeline {
    /// How many stages the chain holds.
    pub closed spec fn spec_stage_count(&self) -> nat {
        self.stages@.len()
    }

    /// The capabilities with registered handlers, in registration order.
    pub closed spec fn spec_handler_keys(&self) -> Seq<u64> {
        self.handlers@.map_values(|p: (u64, BoxedSeeder)| p.0)
    }

    /// The identifiers of the registered stage factories, in registration
    /// order.
    pub closed spec fn spec_factory_ids(&self) -> Seq<u64> {
        self.factories@.map_values(|p: (u64, BoxedFactory)| p.0)
    }

    /// Whether a handler is registered for the given capability.
    pub open spec fn spec_handles(&self, capability: u64) -> bool {
        self.spec_handler_keys().contains(capability)
    }

    /// Whether a stage factory is registered under the given identifier.
    pub open spec fn spec_has_factory(&self, id: u64) -> bool {
        self.spec_factory_ids().contains(id)
    }

    /// An empty pipeline: no stages, no registered handlers.
    pub fn new() -> (p: Pipeline)
        ensures
            p.spec_stage_count() == 0,
            p.spec_handler_keys() == Seq::<u64>::empty(),
            p.spec_factory_ids() == Seq::<u64>::empty(),
    {
        let p = Pipeline { stages: Vec::new(), handlers: Vec::new(), factories: Vec::new() };
        proof {
            assert(p.spec_handler_keys() =~= Seq::<u64>::empty());
            assert(p.spec_factory_ids() =~= Seq::<u64>::empty());
        }
        p
    }

    /// Appends one stage at the end of the chain.
    pub fn push_stage(&mut self, stage: BoxedSeeder)
        ensures
            final (self).spec_stage_count() == old(self).spec_stage_count() + 1,
            final (self).spec_handler_keys() == old(self).spec_handler_keys(),
            final (self).spec_factory_ids() == old(self).spec_factory_ids(),
    {
        self.stages.push(stage);
    }

    /// Registers the handler consulted for `Other` resolutions that name the
    /// given capability.
    pub fn register_handler(&mut self, capability: u64, handler: BoxedSeeder)
        ensures
            final (self).spec_handler_keys() == old(self).spec_handler_keys().push(capability),
            final (self).spec_handles(capability),
            final (self).spec_stage_count() == old(self).spec_stage_count(),
            final (self).spec_factory_ids() == old(self).spec_factory_ids(),
    {
        self.handlers.push((capability, handler));
        proof {
            assert(self.spec_handler_keys() =~= old(self).spec_handler_keys().push(capability));
            vstd::seq_lib::lemma_seq_contains_after_push(
                old(self).spec_handler_keys(),
                capability,
                capability,
            );
        }
    }

    /// Registers the stage factory that `Reseed` resolutions may name.
    pub fn register_factory(&mut self, id: u64, factory: BoxedFactory)
        ensures
            final (self).spec_factory_ids() == old(self).spec_factory_ids().push(id),
            final (self).spec_has_factory(id),
            final (self).spec_stage_count() == old(self).spec_stage_count(),
            final (self).spec_handler_keys() == old(self).spec_handler_keys(),
    {
        self.factories.push((id, factory));
        proof {
            assert(self.spec_factory_ids() =~= old(self).spec_factory_ids().push(id));
            vstd::seq_lib::lemma_seq_contains_after_push(old(self).spec_factory_ids(), id, id);
        }
    }

    /// How many stages the chain holds.
    pub fn stage_count(&self) -> (n: usize)
        ensures
            n == self.spec_stage_count(),
    {
        self.stages.len()
    }

    /// Looks up the handler registered for a capability; absent exactly when
    /// none is registered, and otherwise one of the entries registered under
    /// that capability.
    fn find_handler(&self, capability: u64) -> (r: Option<&BoxedSeeder>)
        ensures
            r is Some <==> self.spec_handles(capability),
            r matches Some(h) ==> exists|j: int|
                0 <= j < self.handlers@.len() && #[trigger] self.handlers@[j].0 == capability
                    && self.handlers@[j].1 == *h,
    {
        let mut j: usize = 0;
        while j < self.handlers.len()
            invariant
                j <= self.handlers@.len(),
                forall|t: int| 0 <= t < j ==> self.handlers@[t].0 != capability,
            decreases self.handlers@.len() - j,
        {
            if self.handlers[j].0 == capability {
                proof {
                    assert(self.spec_handler_keys()[j as int] == capability);
                    assert(self.handlers@[j as int].0 == capability);
                }
                return Some(&self.handlers[j].1);
            }
            j += 1;
        }
        proof {
            if self.spec_handles(capability) {
                let t = choose|t: int|
                    0 <= t < self.spec_handler_keys().len() && self.spec_handler_keys()[t]
                        == capability;
                assert(self.handlers@[t].0 == capability);
            }
        }
        None
    }

    /// Looks up the stage factory registered under an identifier; absent
    /// exactly when none is registered, and otherwise one of the entries
    /// registered under that identifier.
    fn find_factory(&self, id: u64) -> (r: Option<&BoxedFactory>)
        ensures
            r is Some <==> self.spec_has_factory(id),
            r matches Some(h) ==> exists|j: int|
                0 <= j < self.factories@.len() && #[trigger] self.factories@[j].0 == id
                    && self.factories@[j].1 == *h,
    {
        let mut j: usize = 0;
        while j < self.factories.len()
            invariant
                j <= self.factories@.len(),
                forall|t: int| 0 <= t < j ==> self.factories@[t].0 != id,
            decreases self.factories@.len() - j,
        {
            if self.factories[j].0 == id {
                proof {
                    assert(self.spec_factory_ids()[j as int] == id);
                    assert(self.factories@[j as int].0 == id);
                }
                return Some(&self.factories[j].1);
            }
            j += 1;
        }
        proof {
            if self.spec_has_factory(id) {
                let t = choose|t: int|
                    0 <= t < self.spec_factory_ids().len() && self.spec_factory_ids()[t] == id;
                assert(self.factories@[t].0 == id);
            }
        }
        None
    }

    /// The disposition of a guard at chain exit after its last resolution:
    /// an accessible request is handed to the router, and a rejection with no
    /// further resolution is translated into a response by the default final
    /// behavior, from its carried status code and reason.
    fn settle_exit(g: Guard<HttpRequest>) -> (r: Outcome)
        ensures
            g matches Guard::Accessible(q) ==> r == Outcome::Routed(q),
            g matches Guard::Inaccessible { reason, status_code, .. } ==> r matches
                Outcome::Responded(resp) && resp.status == status_code && resp.body@
                == spec_fallback_body(reason),
    {
        match g {
            Guard::Accessible(q) => Outcome::Routed(q),
            Guard::Inaccessible { reason, status_code, .. } => Outcome::Responded(
                fallback_response(status_code, reason),
            ),
        }
    }

    /// Disposes of the guard left when the chain has no further stage: its
    /// respondent is applied one last time.  `Respond` answers directly;
    /// `Ignore` waives the rejection and hands the request to the router; a
    /// `Reseed` or `Other` invokes the fresh stage or registered handler once
    /// more on the guard as it stands, and whatever that invocation leaves —
    /// with no stage left to resolve it — receives the default final
    /// disposition (`settle_exit`).  A rejection naming an unregistered
    /// factory or capability is surfaced as the matching fault, never
    /// dropped.
    fn finish(&self, g: Guard<HttpRequest>) -> (r: Result<Outcome, PipelineFault>)
        ensures
            g matches Guard::Accessible(q) ==> r == Ok::<Outcome, PipelineFault>(
                Outcome::Routed(q),
            ),
            g matches Guard::Inaccessible {
                respondent: Respondent::Respond(resp),
                ..
            } ==> r == Ok::<Outcome, PipelineFault>(Outcome::Responded(resp)),
            g matches Guard::Inaccessible {
                request,
                respondent: Respondent::Ignore,
                ..
            } ==> r == Ok::<Outcome, PipelineFault>(Outcome::Routed(request)),
            g matches Guard::Inaccessible {
                respondent: Respondent::Reseed(f),
                ..
            } ==> (!self.spec_has_factory(f) ==> r == Err::<Outcome, PipelineFault>(
                PipelineFault::UnregisteredFactory(f),
            )),
            g matches Guard::Inaccessible {
                respondent: Respondent::Reseed(f),
                ..
            } ==> (self.spec_has_factory(f) ==> r is Ok),
            g matches Guard::Inaccessible {
                respondent: Respondent::Other(x),
                ..
            } ==> (!self.spec_handles(x.capability) ==> r == Err::<Outcome, PipelineFault>(
                PipelineFault::UnregisteredCapability(x.capability),
            )),
            g matches Guard::Inaccessible {
                respondent: Respondent::Other(x),
                ..
            } ==> (self.spec_handles(x.capability) ==> r is Ok),
            r matches Err(PipelineFault::UnregisteredCapability(c)) ==> !self.spec_handles(c),
            r matches Err(PipelineFault::UnregisteredFactory(f)) ==> !self.spec_has_factory(f),
    {
        match resolve(g) {
            Resolution::Halt(resp) => Ok(Outcome::Responded(resp)),
            Resolution::Forward(forwarded) => Ok(Outcome::Routed(forwarded.unwrap())),
            Resolution::Invoke(id, same) => match self.find_factory(id) {
                Some(factory) => {
                    let fresh = factory.inner.create();
                    Ok(Self::settle_exit(fresh.inner.seed(same)))
                },
                None => Err(PipelineFault::UnregisteredFactory(id)),
            },
            Resolution::Consult(capability, same) => match self.find_handler(capability) {
                Some(handler) => Ok(Self::settle_exit(handler.inner.seed(same))),
                None => Err(PipelineFault::UnregisteredCapability(capability)),
            },
        }
    }

    /// Executes the chain position at index `i` on the guard the previous
    /// position left: resolves that guard first — halting on `Respond`,
    /// waiving on `Ignore`, invoking the fresh stage or registered handler on
    /// the guard unchanged for `Reseed` and `Other` — and, unless the chain
    /// halted or faulted, feeds the outcome to the stage at position `i`.
    /// The traversal then continues exactly at position `i + 1`, never
    /// earlier: a reseed re-enters a fresh stage instance, not the chain.
    /// An accessible or waived guard, and a rejection whose named factory or
    /// capability is registered, always continue; only a `Respond` halts and
    /// only an unregistered name faults.
    pub fn step_at(&self, i: usize, g: Guard<HttpRequest>) -> (r: Step)
        requires
            i < self.spec_stage_count(),
        ensures
            r matches Step::Next(j, _) ==> j == i + 1,
            g is Accessible ==> r is Next,
            g matches Guard::Inaccessible { respondent: Respondent::Ignore, .. } ==> r is Next,
            g matches Guard::Inaccessible {
                respondent: Respondent::Respond(resp),
                ..
            } ==> r == Step::Halted(resp),
            g matches Guard::Inaccessible {
                respondent: Respondent::Reseed(f),
                ..
            } ==> (!self.spec_has_factory(f) ==> r == Step::Fault(
                PipelineFault::UnregisteredFactory(f),
            )),
            g matches Guard::Inaccessible {
                respondent: Respondent::Reseed(f),
                ..
            } ==> (self.spec_has_factory(f) ==> r is Next),
            g matches Guard::Inaccessible {
                respondent: Respondent::Other(x),
                ..
            } ==> (!self.spec_handles(x.capability) ==> r == Step::Fault(
                PipelineFault::UnregisteredCapability(x.capability),
            )),
            g matches Guard::Inaccessible {
                respondent: Respondent::Other(x),
                ..
            } ==> (self.spec_handles(x.capability) ==> r is Next),
            r matches Step::Fault(PipelineFault::UnregisteredCapability(c))
                ==> !self.spec_handles(c),
            r matches Step::Fault(PipelineFault::UnregisteredFactory(f)) ==> !self.spec_has_factory(
                f,
            ),
    {
        let handed: Guard<HttpRequest> = match resolve(g) {
            Resolution::Halt(resp) => {
                return Step::Halted(resp);
            },
            Resolution::Forward(forwarded) => forwarded,
            Resolution::Invoke(id, same) => {
                match self.find_factory(id) {
                    Some(factory) => {
                        let fresh = factory.inner.create();
                        fresh.inner.seed(same)
                    },
                    None => {
                        return Step::Fault(PipelineFault::UnregisteredFactory(id));
                    },
                }
            },
            Resolution::Consult(capability, same) => {
                match self.find_handler(capability) {
                    Some(handler) => handler.inner.seed(same),
                    None => {
                        return Step::Fault(PipelineFault::UnregisteredCapability(capability));
                    },
                }
            },
        };
        let count = self.stages.len();
        proof {
            // the next position exists as a number: i is below the count
            assert(i + 1 <= count);
        }
        Step::Next(i + 1, self.stages[i].inner.seed(handed))
    }

    /// Drives one request through the chain.
    ///
    /// The request starts as an accessible guard at the first stage.  The
    /// guard each stage returns is disposed of by the resolution protocol
    /// before the next position runs (`step_at`): a `Respond` halts at once
    /// with its response; an `Ignore` waives the rejection; a `Reseed`
    /// invokes a fresh stage from the named registered factory, and an
    /// `Other` invokes the registered handler, both on the guard exactly as
    /// the rejecting stage left it — either invocation's output, of either
    /// variant, becomes the guard the next position receives, so the chain
    /// always continues from the position after the rejecting stage, subject
    /// to further resolution downstream.  Naming an unregistered factory or
    /// capability is a configuration fault.  Past the last stage, `finish`
    /// applies one final resolution and the default translation of an
    /// unresolved rejection.
    pub fn run(&self, request: HttpRequest) -> (r: Result<Outcome, PipelineFault>)
        ensures
            self.spec_stage_count() == 0 ==> r == Ok::<Outcome, PipelineFault>(
                Outcome::Routed(request),
            ),
            r matches Err(PipelineFault::UnregisteredCapability(c)) ==> !self.spec_handles(c),
            r matches Err(PipelineFault::UnregisteredFactory(f)) ==> !self.spec_has_factory(f),
    {
        let n = self.stages.len();
        let mut g = Guard::Accessible(request);
        let mut i: usize = 0;
        loop
            invariant
                i <= n,
                n == self.spec_stage_count(),
                n == 0 ==> g == Guard::<HttpRequest>::Accessible(request),
            decreases n - i,
        {
            if i < n {
                match self.step_at(i, g) {
                    Step::Next(j, g2) => {
                        i = j;
                        g = g2;
                    },
                    Step::Halted(resp) => {
                        return Ok(Outcome::Responded(resp));
                    },
                    Step::Fault(fault) => {
                        return Err(fault);
                    },
                }
            } else {
                return self.finish(g);
            }
        }
    }
}

} // verus!
