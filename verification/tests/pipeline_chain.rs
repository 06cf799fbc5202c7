use grazie::{
    BoxBody, BoxedFactory, BoxedSeeder, Guard, HttpRequest, HttpResponse, Outcome, Pipeline,
    PipelineFault, Respondent, Seeder, SeederFactory, StatusCode,
};
use grazie::Extension;
use grazie::Unpacker;
use grazie::fallback_response;

fn request_with(text: &str) -> HttpRequest {
    HttpRequest { body: BoxBody::new(text.as_bytes().to_vec()) }
}

fn body_text(body: &BoxBody) -> String {
    body.open().expect("body holds text")
}

/// Appends one marker letter to the request body and passes the guard on in
/// the same state it arrived.
struct MarkStage(char);

impl Seeder for MarkStage {
    fn seed(&self, input: Guard<HttpRequest>) -> Guard<HttpRequest> {
        match input {
            Guard::Accessible(mut req) => {
                let mut text = body_text(&req.body);
                text.push(self.0);
                let _ = req.body.close_text(&text);
                Guard::Accessible(req)
            }
            other => other,
        }
    }
}

/// Marks every accessible request inaccessible with the given metadata, after
/// appending its marker letter.
struct RejectStage {
    mark: char,
    status: u16,
    reason: &'static str,
    respondent: fn() -> Respondent,
}

impl Seeder for RejectStage {
    fn seed(&self, input: Guard<HttpRequest>) -> Guard<HttpRequest> {
        match input {
            Guard::Accessible(mut req) => {
                let mut text = body_text(&req.body);
                text.push(self.mark);
                let _ = req.body.close_text(&text);
                Guard::Inaccessible {
                    request: req,
                    respondent: (self.respondent)(),
                    reason: Some(self.reason.to_string()),
                    status_code: StatusCode::new(self.status).unwrap(),
                }
            }
            other => other,
        }
    }
}

/// A stage that must never run: reaching it fails the test.
struct ForbiddenStage;

impl Seeder for ForbiddenStage {
    fn seed(&self, _input: Guard<HttpRequest>) -> Guard<HttpRequest> {
        panic!("a stage past a terminal Respond resolution was invoked");
    }
}

/// A factory whose fresh stages waive the rejection they receive and append a
/// marker, so re-entry is observable in the body.
struct ReentryFactory;

impl SeederFactory for ReentryFactory {
    fn create(&self) -> BoxedSeeder {
        BoxedSeeder { inner: Box::new(ReentryStage) }
    }
}

struct ReentryStage;

impl Seeder for ReentryStage {
    fn seed(&self, input: Guard<HttpRequest>) -> Guard<HttpRequest> {
        match input {
            Guard::Inaccessible { request: mut req, respondent, reason, status_code } => {
                // The fresh stage receives the original guard state intact,
                // its consumed respondent included.
                assert!(matches!(respondent, Respondent::Reseed(7)));
                assert_eq!(reason, Some("auth required".to_string()));
                assert_eq!(status_code, StatusCode::new(401).unwrap());
                let mut text = body_text(&req.body);
                text.push('F');
                let _ = req.body.close_text(&text);
                Guard::Accessible(req)
            }
            accessible => accessible,
        }
    }
}

/// The handler registered for an extension capability: it can read the
/// payload it was registered for, waives the rejection, and appends a marker.
struct HandlerStage;

impl Seeder for HandlerStage {
    fn seed(&self, input: Guard<HttpRequest>) -> Guard<HttpRequest> {
        match input {
            Guard::Inaccessible { request: mut req, respondent, .. } => {
                assert!(matches!(respondent, Respondent::Other(Extension { capability: 3 })));
                let mut text = body_text(&req.body);
                text.push('F');
                let _ = req.body.close_text(&text);
                Guard::Accessible(req)
            }
            accessible => accessible,
        }
    }
}

/// A factory whose fresh stages keep re-rejecting, so the rejection is still
/// unresolved at chain exit.
struct StubbornFactory;

impl SeederFactory for StubbornFactory {
    fn create(&self) -> BoxedSeeder {
        BoxedSeeder { inner: Box::new(StubbornStage) }
    }
}

/// Re-rejects whatever it receives, always asking for another reseed.
struct StubbornStage;

impl Seeder for StubbornStage {
    fn seed(&self, input: Guard<HttpRequest>) -> Guard<HttpRequest> {
        let req = match input {
            Guard::Accessible(req) => req,
            Guard::Inaccessible { request, .. } => request,
        };
        Guard::Inaccessible {
            request: req,
            respondent: Respondent::Reseed(7),
            reason: Some("not found".to_string()),
            status_code: StatusCode::new(404).unwrap(),
        }
    }
}

#[test]
fn empty_chain_routes_the_request_unchanged() {
    let pipeline = Pipeline::new();
    match pipeline.run(request_with("payload")).unwrap() {
        Outcome::Routed(req) => assert_eq!(body_text(&req.body), "payload"),
        Outcome::Responded(_) => panic!("an empty chain must hand the request to the router"),
    }
}

#[test]
fn accessible_chain_runs_stages_in_order() {
    let mut pipeline = Pipeline::new();
    pipeline.push_stage(BoxedSeeder { inner: Box::new(MarkStage('a')) });
    pipeline.push_stage(BoxedSeeder { inner: Box::new(MarkStage('b')) });
    assert_eq!(pipeline.stage_count(), 2);
    match pipeline.run(request_with("")).unwrap() {
        Outcome::Routed(req) => assert_eq!(body_text(&req.body), "ab"),
        Outcome::Responded(_) => panic!("an accessible chain must reach the router"),
    }
}

#[test]
fn respond_halts_the_chain_and_skips_the_router() {
    let mut pipeline = Pipeline::new();
    pipeline.push_stage(BoxedSeeder {
        inner: Box::new(RejectStage {
            mark: 'a',
            status: 401,
            reason: "missing token",
            respondent: || {
                let mut body = BoxBody::new(Vec::new());
                let _ = body.close_json(&vec![("error".to_string(), "missing token".to_string())]);
                Respondent::Respond(HttpResponse {
                    status: StatusCode::new(401).unwrap(),
                    body,
                })
            },
        }),
    });
    pipeline.push_stage(BoxedSeeder { inner: Box::new(ForbiddenStage) });
    match pipeline.run(request_with("")).unwrap() {
        Outcome::Responded(resp) => {
            assert_eq!(resp.status.as_u16(), 401);
            assert_eq!(resp.body.raw_bytes(), b"{\"error\":\"missing token\"}");
        }
        Outcome::Routed(_) => panic!("a Respond resolution must not reach the router"),
    }
}

#[test]
fn ignore_waives_the_rejection_and_forwards_the_original_request() {
    let mut pipeline = Pipeline::new();
    pipeline.push_stage(BoxedSeeder {
        inner: Box::new(RejectStage {
            mark: 'a',
            status: 404,
            reason: "not found",
            respondent: || Respondent::Ignore,
        }),
    });
    pipeline.push_stage(BoxedSeeder { inner: Box::new(MarkStage('b')) });
    match pipeline.run(request_with("")).unwrap() {
        Outcome::Routed(req) => assert_eq!(body_text(&req.body), "ab"),
        Outcome::Responded(_) => panic!("an Ignore resolution must continue the forward chain"),
    }
}

#[test]
fn reseed_invokes_a_fresh_stage_and_continues_after_the_reseed_point() {
    let mut pipeline = Pipeline::new();
    pipeline.register_factory(7, BoxedFactory { inner: Box::new(ReentryFactory) });
    pipeline.push_stage(BoxedSeeder {
        inner: Box::new(RejectStage {
            mark: 'a',
            status: 401,
            reason: "auth required",
            respondent: || Respondent::Reseed(7),
        }),
    });
    pipeline.push_stage(BoxedSeeder { inner: Box::new(MarkStage('b')) });
    match pipeline.run(request_with("")).unwrap() {
        // 'a' ran once, the fresh stage 'F' ran on the same guard, and the
        // chain continued at 'b': never back at 'a'.
        Outcome::Routed(req) => assert_eq!(body_text(&req.body), "aFb"),
        Outcome::Responded(_) => panic!("a waived reseed must reach the router"),
    }
}

#[test]
fn reseed_naming_an_unregistered_factory_is_a_fault() {
    let mut pipeline = Pipeline::new();
    pipeline.push_stage(BoxedSeeder {
        inner: Box::new(RejectStage {
            mark: 'a',
            status: 401,
            reason: "auth required",
            respondent: || Respondent::Reseed(9),
        }),
    });
    match pipeline.run(request_with("")) {
        Err(PipelineFault::UnregisteredFactory(9)) => {}
        _ => panic!("naming an unregistered factory must surface a configuration fault"),
    }
}

#[test]
fn other_consults_the_registered_handler() {
    let mut pipeline = Pipeline::new();
    pipeline.register_handler(3, BoxedSeeder { inner: Box::new(HandlerStage) });
    pipeline.push_stage(BoxedSeeder {
        inner: Box::new(RejectStage {
            mark: 'a',
            status: 401,
            reason: "auth required",
            respondent: || Respondent::Other(Extension { capability: 3 }),
        }),
    });
    pipeline.push_stage(BoxedSeeder { inner: Box::new(MarkStage('b')) });
    match pipeline.run(request_with("")).unwrap() {
        Outcome::Routed(req) => assert_eq!(body_text(&req.body), "aFb"),
        Outcome::Responded(_) => panic!("a resolved rejection must reach the router"),
    }
}

#[test]
fn other_with_no_registered_handler_is_a_fault() {
    let mut pipeline = Pipeline::new();
    pipeline.push_stage(BoxedSeeder {
        inner: Box::new(RejectStage {
            mark: 'a',
            status: 401,
            reason: "auth required",
            respondent: || Respondent::Other(Extension { capability: 5 }),
        }),
    });
    match pipeline.run(request_with("")) {
        Err(PipelineFault::UnregisteredCapability(5)) => {}
        _ => panic!("an unregistered capability must surface a configuration fault"),
    }
}

#[test]
fn unresolved_rejection_at_chain_exit_gets_the_default_translation() {
    let mut pipeline = Pipeline::new();
    pipeline.register_factory(7, BoxedFactory { inner: Box::new(StubbornFactory) });
    pipeline.push_stage(BoxedSeeder {
        inner: Box::new(RejectStage {
            mark: 'a',
            status: 404,
            reason: "not found",
            respondent: || Respondent::Reseed(7),
        }),
    });
    match pipeline.run(request_with("")).unwrap() {
        Outcome::Responded(resp) => {
            assert_eq!(resp.status.as_u16(), 404);
            assert_eq!(resp.body.raw_bytes(), b"not found");
        }
        Outcome::Routed(_) => panic!("an unresolved rejection must not reach the router"),
    }
}

#[test]
fn fallback_response_carries_status_and_reason() {
    let resp = fallback_response(StatusCode::new(503).unwrap(), Some("overloaded".to_string()));
    assert_eq!(resp.status.as_u16(), 503);
    assert_eq!(resp.body.raw_bytes(), b"overloaded");
    let bare = fallback_response(StatusCode::new(500).unwrap(), None);
    assert_eq!(bare.body.raw_bytes(), b"");
}

#[test]
fn status_codes_outside_the_standard_range_are_rejected() {
    assert_eq!(StatusCode::new(99), None);
    assert_eq!(StatusCode::new(1000), None);
    assert_eq!(StatusCode::new(100).unwrap().as_u16(), 100);
    assert_eq!(StatusCode::new(999).unwrap().as_u16(), 999);
}

#[test]
fn guard_judgments_and_unwrap() {
    let accessible = Guard::<u32>::Accessible(5);
    assert!(accessible.accessible());
    assert!(!accessible.inaccessible());
    assert_eq!(accessible.unwrap(), 5);
    let rejected = Guard::<u32>::Inaccessible {
        request: 5,
        respondent: Respondent::Ignore,
        reason: None,
        status_code: StatusCode::new(403).unwrap(),
    };
    assert!(!rejected.accessible());
    assert!(rejected.inaccessible());
}

/// A decoder that frames the received bytes into a request wholesale.
struct RawUnpacker;

impl Unpacker for RawUnpacker {
    fn unpack(&self, stream: &[u8]) -> HttpRequest {
        HttpRequest { body: BoxBody::new(stream.to_vec()) }
    }
}

#[test]
fn unpacker_frames_a_request_for_the_chain() {
    let request = RawUnpacker.unpack(b"framed payload");
    let pipeline = Pipeline::new();
    match pipeline.run(request).unwrap() {
        Outcome::Routed(req) => assert_eq!(req.body.raw_bytes(), b"framed payload"),
        Outcome::Responded(_) => panic!("the framed request must reach the router"),
    }
}

/// A factory whose fresh stages answer directly with a response.
struct AnswerFactory;

impl SeederFactory for AnswerFactory {
    fn create(&self) -> BoxedSeeder {
        BoxedSeeder { inner: Box::new(AnswerStage) }
    }
}

/// Re-rejects with a terminal `Respond` carrying status 401.
struct AnswerStage;

impl Seeder for AnswerStage {
    fn seed(&self, input: Guard<HttpRequest>) -> Guard<HttpRequest> {
        let req = match input {
            Guard::Accessible(req) => req,
            Guard::Inaccessible { request, .. } => request,
        };
        Guard::Inaccessible {
            request: req,
            respondent: Respondent::Respond(HttpResponse {
                status: StatusCode::new(401).unwrap(),
                body: BoxBody::new(b"denied".to_vec()),
            }),
            reason: Some("auth required".to_string()),
            status_code: StatusCode::new(401).unwrap(),
        }
    }
}

#[test]
fn inaccessible_guard_passes_through_a_forwarding_stage_before_resolution() {
    let mut pipeline = Pipeline::new();
    pipeline.register_factory(7, BoxedFactory { inner: Box::new(AnswerFactory) });
    pipeline.push_stage(BoxedSeeder {
        inner: Box::new(RejectStage {
            mark: 'a',
            status: 401,
            reason: "auth required",
            respondent: || Respondent::Reseed(7),
        }),
    });
    // This stage only understands accessible guards; the fresh stage's
    // rejection flows through it untouched and is resolved right after.
    pipeline.push_stage(BoxedSeeder { inner: Box::new(MarkStage('b')) });
    match pipeline.run(request_with("")).unwrap() {
        Outcome::Responded(resp) => {
            assert_eq!(resp.status.as_u16(), 401);
            assert_eq!(resp.body.raw_bytes(), b"denied");
        }
        Outcome::Routed(_) => panic!("the fresh stage's Respond resolution must halt the chain"),
    }
}
