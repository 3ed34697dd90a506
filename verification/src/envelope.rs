//! The envelope around the engines: where a request goes by its method name,
//! what a health check answers, and the shape of a response.

use vstd::prelude::*;
use crate::error::ProcessError;
use crate::options::ProcessOptions;
use crate::processor::Method;
use crate::text::same_text;
use crate::value::lemma_object_view;
use crate::value::member;
use crate::value::text_value;
use crate::value::Json;
use crate::value::Value;

verus! {

/// Where a request goes.
#[derive(Debug, Clone, Copy, PartialEq, Eq)]
pub enum Route {
    /// To the concurrent processor.
    Concurrent,
    /// To the cryptography engine.
    Crypto,
    /// To the memory manager.
    Memory,
    /// To the optimizer.
    Optimizer,
    /// To the health check.
    HealthCheck,
    /// To the list of capabilities.
    Capabilities,
    /// To the performance metrics.
    Metrics,
    /// Nowhere: the method is unknown.
    Unknown,
}

/// Whether `text` begins with `prefix`.
pub open spec fn starts_with(text: Seq<char>, prefix: Seq<char>) -> bool {
    prefix.len() <= text.len() && text.subrange(0, prefix.len() as int) == prefix
}

/// The route of a method: by its prefix first, then by its whole name.
pub open spec fn route_of(method: Seq<char>) -> Route {
    if starts_with(method, "concurrent_"@) {
        Route::Concurrent
    } else if starts_with(method, "crypto_"@) {
        Route::Crypto
    } else if starts_with(method, "memory_"@) {
        Route::Memory
    } else if starts_with(method, "optimize_"@) {
        Route::Optimizer
    } else if method == "health_check"@ {
        Route::HealthCheck
    } else if method == "get_capabilities"@ {
        Route::Capabilities
    } else if method == "get_metrics"@ {
        Route::Metrics
    } else {
        Route::Unknown
    }
}

/// The method of the concurrent processor that a method of the envelope
/// names: each of the four has one name here, matched exactly.
pub open spec fn concurrent_method_of(method: Seq<char>) -> Option<Method> {
    if method == "concurrent_parallel_process"@ {
        Some(Method::ParallelProcess)
    } else if method == "concurrent_batch_process"@ {
        Some(Method::BatchProcess)
    } else if method == "concurrent_map_reduce"@ {
        Some(Method::MapReduce)
    } else if method == "concurrent_pipeline"@ {
        Some(Method::Pipeline)
    } else {
        None
    }
}

/// What a health check answers.
pub open spec fn health() -> Json {
    Json::Object(
        seq![
            ("status"@, Json::Text("healthy"@)),
            ("language"@, Json::Text("rust"@)),
            (
                "components"@,
                Json::Object(
                    seq![
                        ("concurrent_processor"@, Json::Text("active"@)),
                        ("crypto_engine"@, Json::Text("active"@)),
                        ("memory_manager"@, Json::Text("active"@)),
                        ("optimizer"@, Json::Text("active"@)),
                    ],
                ),
            ),
            ("uptime"@, Json::Text("simulation"@)),
        ],
    )
}

/// The text of the error for a method that has no route.
pub open spec fn unknown_method_text(method: Seq<char>) -> Seq<char> {
    "Unknown method: "@ + method
}

/// Whether `text` begins with `prefix`.
pub fn has_prefix(text: &str, prefix: &str) -> (yes: bool)
    ensures
        yes == starts_with(text@, prefix@),
{
    let length = prefix.unicode_len();
    if text.unicode_len() < length {
        false
    } else {
        same_text(text.substring_char(0, length), prefix)
    }
}

/// Routes a method by its name.
pub fn route(method: &str) -> (to: Route)
    ensures
        to == route_of(method@),
{
    if has_prefix(method, "concurrent_") {
        Route::Concurrent
    } else if has_prefix(method, "crypto_") {
        Route::Crypto
    } else if has_prefix(method, "memory_") {
        Route::Memory
    } else if has_prefix(method, "optimize_") {
        Route::Optimizer
    } else if same_text(method, "health_check") {
        Route::HealthCheck
    } else if same_text(method, "get_capabilities") {
        Route::Capabilities
    } else if same_text(method, "get_metrics") {
        Route::Metrics
    } else {
        Route::Unknown
    }
}

/// The method of the concurrent processor for a method of the envelope, or
/// the error that names the method as the request gave it.
pub fn concurrent_method(method: &str) -> (result: Result<Method, ProcessError>)
    ensures
        match concurrent_method_of(method@) {
            Some(known) => result == Ok::<Method, ProcessError>(known),
            None => result matches Err(ProcessError::UnknownMethod(name)) && name@ == method@,
        },
{
    if same_text(method, "concurrent_parallel_process") {
        Ok(Method::ParallelProcess)
    } else if same_text(method, "concurrent_batch_process") {
        Ok(Method::BatchProcess)
    } else if same_text(method, "concurrent_map_reduce") {
        Ok(Method::MapReduce)
    } else if same_text(method, "concurrent_pipeline") {
        Ok(Method::Pipeline)
    } else {
        Err(ProcessError::UnknownMethod(String::from_str(method)))
    }
}

/// Answers a health check.
pub fn health_check() -> (report: Value)
    ensures
        report@ == health(),
{
    let mut components: Vec<(String, Value)> = Vec::new();
    components.push(member("concurrent_processor", text_value("active")));
    components.push(member("crypto_engine", text_value("active")));
    components.push(member("memory_manager", text_value("active")));
    components.push(member("optimizer", text_value("active")));
    let parts = Value::Object(components);
    proof {
        lemma_object_view(parts);
        assert(parts@->Object_0 =~= health()->Object_0[2].1->Object_0);
    }
    let mut members: Vec<(String, Value)> = Vec::new();
    members.push(member("status", text_value("healthy")));
    members.push(member("language", text_value("rust")));
    members.push(member("components", parts));
    members.push(member("uptime", text_value("simulation")));
    let report = Value::Object(members);
    proof {
        lemma_object_view(report);
        assert(report@->Object_0 =~= health()->Object_0);
    }
    report
}

/// The error for a method that has no route.
pub fn unknown_method(method: &str) -> (message: String)
    ensures
        message@ == unknown_method_text(method@),
{
    String::from_str("Unknown method: ").concat(method)
}

/// A request: a method, a value, options and the identifier to answer under.
#[derive(Debug)]
pub struct ProcessingRequest {
    pub method: String,
    pub data: Value,
    pub options: ProcessOptions,
    pub request_id: String,
}

/// A response: the identifier of its request and either a result with its
/// metadata or an error.
#[derive(Debug, PartialEq)]
pub struct ProcessingResponse {
    pub request_id: String,
    pub success: bool,
    pub result: Option<Value>,
    pub error: Option<String>,
    pub metadata: Option<Vec<(String, String)>>,
}

/// The metadata of a successful response, given the processing time as text.
pub open spec fn success_metadata(processing_time: Seq<char>) -> Seq<(Seq<char>, Seq<char>)> {
    seq![("processing_time"@, processing_time), ("language"@, "rust"@)]
}

/// The keys and values of a list of text pairs.
pub open spec fn pair_texts(pairs: Seq<(String, String)>) -> Seq<(Seq<char>, Seq<char>)> {
    Seq::new(pairs.len(), |i: int| (pairs[i].0@, pairs[i].1@))
}

impl ProcessingResponse {
    /// The response to the request `request_id` for the outcome `outcome`: a
    /// success carries the result and the metadata, a failure only the error.
    pub fn respond(request_id: String, outcome: Result<Value, String>, processing_time: String) -> (response:
        ProcessingResponse)
        ensures
            response.request_id == request_id,
            match outcome {
                Ok(data) => {
                    &&& response.success
                    &&& response.result == Some(data)
                    &&& response.error is None
                    &&& response.metadata matches Some(pairs)
                    &&& pair_texts(pairs@) == success_metadata(processing_time@)
                },
                Err(error) => {
                    &&& !response.success
                    &&& response.result is None
                    &&& response.error == Some(error)
                    &&& response.metadata is None
                },
            },
    {
        match outcome {
            Ok(data) => {
                let mut pairs: Vec<(String, String)> = Vec::new();
                pairs.push((String::from_str("processing_time"), processing_time));
                pairs.push((String::from_str("language"), String::from_str("rust")));
                assert(pair_texts(pairs@) =~= success_metadata(processing_time@));
                ProcessingResponse {
                    request_id,
                    success: true,
                    result: Some(data),
                    error: None,
                    metadata: Some(pairs),
                }
            },
            Err(error) => ProcessingResponse {
                request_id,
                success: false,
                result: None,
                error: Some(error),
                metadata: None,
            },
        }
    }
}

} // verus!
