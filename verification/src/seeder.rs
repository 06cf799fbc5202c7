use crate::body::BoxBody;
use vstd::prelude::*;

verus! {

/// An HTTP status code in the standard numeric range.
#[derive(Clone, Copy, PartialEq, Eq, Structural, Debug)]
pub struct StatusCode {
    pub code: u16,
}

impl StatusCode {
    /// True of codes in the standard numeric range.
    pub open spec fn wf(&self) -> bool {
        100 <= self.code < 1000
    }

    /// Constructs a status code, rejecting numbers outside the standard range.
    pub fn new(code: u16) -> (r: Option<StatusCode>)
        ensures
            r is Some <==> 100 <= code < 1000,
            r matches Some(s) ==> s.code == code && s.wf(),
    {
        if 100 <= code && code < 1000 {
            Some(StatusCode { code })
        } else {
            None
        }
    }

    /// The numeric value of this status code.
    pub fn as_u16(&self) -> (r: u16)
        ensures
            r == self.code,
    {
        self.code
    }
}

/// A request at the pipeline boundary: a value wrapping a shared body buffer.
/// The upstream decoder frames the wire format; the pipeline itself is
/// format-agnostic above the byte-buffer boundary.
pub struct HttpRequest {
    pub body: BoxBody,
}

/// A response at the pipeline boundary: a status code and its own body buffer.
pub struct HttpResponse {
    pub status: StatusCode,
    pub body: BoxBody,
}

/// A closed extension payload for resolutions the pipeline itself does not
/// know: a capability identifier, resolved by a handler the host registers.
pub struct Extension {
    pub capability: u64,
}

/// How the pipeline disposes of an `Inaccessible` guard.
pub enum Respondent {
    /// Terminal: produce this response to the client directly, skipping the
    /// remaining stages and the router.
    Respond(HttpResponse),
    /// Invoke a freshly constructed stage on the same guard state, then
    /// continue from the position after the rejecting stage.  The number
    /// names a stage factory registered with the pipeline; naming an
    /// unregistered factory is a configuration fault.
    Reseed(u64),
    /// Delegate to capability-specific handling registered by the host; an
    /// unregistered capability is a configuration fault.
    Other(Extension),
    /// Discard the rejection and continue as if the guard were `Accessible`.
    Ignore,
}

/// The accessibility judgment attached to a request as it moves through the
/// chain.  A guard never mutates the request: each stage consumes a guard and
/// reconstructs a new one around the same (moved) request value.
pub enum Guard<T> {
    /// The check passed; the chain continues toward the requested resource.
    Accessible(T),
    /// The check failed; the rejection carries an optional reason, a status
    /// code, and the respondent describing how it is to be resolved.
    Inaccessible { request: T, respondent: Respondent, reason: Option<String>, status_code: StatusCode },
}

impl<T> Guard<T> {
    /// Whether this guard is accessible.
    pub fn accessible(&self) -> (r: bool)
        ensures
            r == (self is Accessible),
    {
        match self {
            Guard::Accessible(_) => true,
            Guard::Inaccessible { .. } => false,
        }
    }

    /// Whether this guard is inaccessible.
    pub fn inaccessible(&self) -> (r: bool)
        ensures
            r == (self is Inaccessible),
    {
        match self {
            Guard::Accessible(_) => false,
            Guard::Inaccessible { .. } => true,
        }
    }

    /// Exposes the value held by an `Accessible` guard.  Calling this on an
    /// `Inaccessible` guard is a programmer error — a misconfigured chain —
    /// so that case is ruled out by contract rather than handled at run time.
    pub fn unwrap(self) -> (r: T)
        requires
            self is Accessible,
        ensures
            Guard::Accessible(r) == self,
    {
        match self {
            Guard::Accessible(value) => value,
            Guard::Inaccessible { .. } => vstd::pervasive::unreached(),
        }
    }
}

/// One unit of middleware logic: given a guard, produce a new guard.  A stage
/// is stateless (or internally synchronized) and may serve many concurrent
/// requests; per-request state lives only in the guard it is handed.
pub trait Seeder {
    /// Transforms one guard into the next.  A stage that does not understand
    /// a rejection may return an inaccessible guard unchanged.
    fn seed(&self, input: Guard<HttpRequest>) -> Guard<HttpRequest>;
}

/// A stage instance, boxed for dynamic dispatch.
pub struct BoxedSeeder {
    pub inner: Box<dyn Seeder>,
}

/// A stage factory, boxed for dynamic dispatch.
pub struct BoxedFactory {
    pub inner: Box<dyn SeederFactory>,
}

/// A stateless constructor of fresh `Seeder` instances, used by the `Reseed`
/// resolution so that re-entry never relies on per-request state in the
/// original stage instance.
pub trait SeederFactory {
    /// Creates a fresh stage.
    fn create(&self) -> BoxedSeeder;
}

/// The upstream decoder collaborator: frames a raw byte stream into one
/// request wrapping a shared body buffer, without interpreting the body.
pub trait Unpacker {
    /// Unpacks a received byte stream into a request object.
    fn unpack(&self, stream: &[u8]) -> HttpRequest;
}

} // verus!
