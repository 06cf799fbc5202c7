//! Request-processing core of an HTTP middleware framework: a shared body
//! buffer with pluggable codecs, an accessibility guard attached to each
//! request, a resolution protocol for rejected requests, and a pipeline that
//! drives a request through an ordered chain of stages.

pub mod body;
pub mod codec;
pub mod pipeline;
pub mod seeder;
pub mod structured;

pub use body::BoxBody;
pub use pipeline::fallback_response;
pub use pipeline::Outcome;
pub use pipeline::Pipeline;
pub use pipeline::PipelineFault;
pub use seeder::Extension;
pub use seeder::Guard;
pub use seeder::HttpRequest;
pub use seeder::HttpResponse;
pub use seeder::Respondent;
pub use seeder::Seeder;
pub use seeder::BoxedFactory;
pub use seeder::BoxedSeeder;
pub use seeder::SeederFactory;
pub use seeder::StatusCode;
pub use seeder::Unpacker;
