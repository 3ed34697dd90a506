//! The processor: it routes a request by its method name to one of the four
//! engines, and reports its capabilities and limits.

use vstd::prelude::*;
use crate::batch::BatchRun;
use crate::error::ProcessError;
use crate::map_reduce::numbers_of;
use crate::map_reduce::MapReducePlan;
use crate::map_reduce::ReduceOp;
use crate::options::ProcessOptions;
use crate::parallel::parallel_process;
use crate::parallel::parallel_report;
use crate::pipeline::PipelineRun;
use crate::text::same_text;
use crate::text::texts;
use crate::value::Json;
use crate::value::Value;

verus! {

/// How many admission permits a processor has.
pub const MAX_CONCURRENT_TASKS: usize = 16;

/// The four methods.
#[derive(Debug, Clone, Copy, PartialEq, Eq)]
pub enum Method {
    ParallelProcess,
    BatchProcess,
    MapReduce,
    Pipeline,
}

impl Method {
    /// The method that `name` names, if any: the four names are matched
    /// exactly.
    pub open spec fn named(name: Seq<char>) -> Option<Method> {
        if name == "parallel_process"@ {
            Some(Method::ParallelProcess)
        } else if name == "batch_process"@ {
            Some(Method::BatchProcess)
        } else if name == "map_reduce"@ {
            Some(Method::MapReduce)
        } else if name == "pipeline_process"@ {
            Some(Method::Pipeline)
        } else {
            None
        }
    }

    /// Reads the name of a method.
    pub fn parse(name: &str) -> (method: Option<Method>)
        ensures
            method == Method::named(name@),
    {
        if same_text(name, "parallel_process") {
            Some(Method::ParallelProcess)
        } else if same_text(name, "batch_process") {
            Some(Method::BatchProcess)
        } else if same_text(name, "map_reduce") {
            Some(Method::MapReduce)
        } else if same_text(name, "pipeline_process") {
            Some(Method::Pipeline)
        } else {
            None
        }
    }
}

/// What a request has come to once it is routed: an answer, or a job that the
/// host drives on, obtaining admission permits and doing the binary64
/// arithmetic and the measuring that the job asks for.
pub enum Task {
    /// Parallel processing is done; this is its answer.
    Finished(Value),
    /// A batch job, to be run chunk by chunk.
    Batch(BatchRun),
    /// A reduction, to be computed and reported.
    Reduce(MapReducePlan),
    /// A pipeline, to be run stage by stage.
    Pipeline(PipelineRun),
}

/// The capability tags of a processor.
pub open spec fn capabilities() -> Seq<Seq<char>> {
    seq![
        "parallel_processing"@,
        "batch_processing"@,
        "map_reduce"@,
        "pipeline_processing"@,
        "concurrent_task_management"@,
        "resource_pooling"@,
    ]
}

/// What the engine of a method answers.
pub open spec fn dispatched(
    method: Method,
    data: Json,
    options: ProcessOptions,
    result: Result<Task, ProcessError>,
) -> bool {
    match method {
        Method::ParallelProcess => match result {
            Ok(Task::Finished(report)) => data is Array && report@ == parallel_report(
                data->Array_0,
            ),
            Ok(_) => false,
            Err(error) => !(data is Array) && error == ProcessError::InputShape,
        },
        Method::BatchProcess => match result {
            Ok(Task::Batch(run)) => {
                &&& data is Array
                &&& run.inputs() == data->Array_0
                &&& run.chunk_size() == options.chunk_size()
                &&& run.done() == 0
            },
            Ok(_) => false,
            Err(error) => !(data is Array) && error == ProcessError::InputShape,
        },
        Method::MapReduce => match result {
            Ok(Task::Reduce(plan)) => {
                &&& data is Array
                &&& ReduceOp::named(options.reduction()) == Some(plan.operation)
                &&& plan.inputs@ == numbers_of(data->Array_0)
            },
            Ok(_) => false,
            Err(error) => if data is Array {
                &&& ReduceOp::named(options.reduction()) is None
                &&& error matches ProcessError::UnknownOperation(name)
                &&& name@ == options.reduction()
            } else {
                error == ProcessError::InputShape
            },
        },
        Method::Pipeline => match result {
            Ok(Task::Pipeline(run)) => {
                &&& run.initial() == data
                &&& run.current() == data
                &&& run.stage_names() == options.stage_names()
                &&& run.sizes().len() == 0
                &&& !run.is_running()
            },
            _ => false,
        },
    }
}

/// What routing answers for a method name: what the engine of that name
/// answers, or that the name is unknown.
pub open spec fn routed(
    method: Seq<char>,
    data: Json,
    options: ProcessOptions,
    result: Result<Task, ProcessError>,
) -> bool {
    match Method::named(method) {
        Some(known) => dispatched(known, data, options, result),
        None => {
            &&& result matches Err(ProcessError::UnknownMethod(name))
            &&& name@ == method
        },
    }
}

/// The façade of the engines. Its limit is fixed when it is made. Its
/// registry of active tasks is made empty and nothing ever enters it.
pub struct ConcurrentProcessor {
    max_concurrent_tasks: usize,
    active_tasks: Vec<String>,
}

impl ConcurrentProcessor {
    #[verifier::type_invariant]
    spec fn consistent(&self) -> bool {
        self.active_tasks@.len() == 0
    }

    /// The number of admission permits.
    pub closed spec fn limit(&self) -> nat {
        self.max_concurrent_tasks as nat
    }

    /// A processor with sixteen permits and an empty registry.
    pub fn new() -> (made: Result<ConcurrentProcessor, ProcessError>)
        ensures
            made matches Ok(processor) && processor.limit() == MAX_CONCURRENT_TASKS,
    {
        Ok(
            ConcurrentProcessor {
                max_concurrent_tasks: MAX_CONCURRENT_TASKS,
                active_tasks: Vec::new(),
            },
        )
    }

    /// Routes a request to its engine by the name of its method.
    pub fn process(&self, method: &str, data: &Value, options: &ProcessOptions) -> (result: Result<
        Task,
        ProcessError,
    >)
        ensures
            routed(method@, data@, *options, result),
    {
        match Method::parse(method) {
            Some(known) => self.dispatch(known, data, options),
            None => Err(ProcessError::UnknownMethod(String::from_str(method))),
        }
    }

    /// Hands a request to the engine of `method`.
    pub fn dispatch(&self, method: Method, data: &Value, options: &ProcessOptions) -> (result:
        Result<Task, ProcessError>)
        ensures
            dispatched(method, data@, *options, result),
    {
        match method {
            Method::ParallelProcess => match parallel_process(data) {
                Ok(report) => Ok(Task::Finished(report)),
                Err(error) => Err(error),
            },
            Method::BatchProcess => match BatchRun::start(data, options) {
                Ok(run) => Ok(Task::Batch(run)),
                Err(error) => Err(error),
            },
            Method::MapReduce => match MapReducePlan::new(data, options) {
                Ok(plan) => Ok(Task::Reduce(plan)),
                Err(error) => Err(error),
            },
            Method::Pipeline => Ok(
                Task::Pipeline(PipelineRun::start(data, options.resolved_stages())),
            ),
        }
    }

    /// The six capability tags, the same on every call.
    pub fn get_capabilities(&self) -> (tags: Vec<String>)
        ensures
            texts(tags@) == capabilities(),
    {
        let mut tags: Vec<String> = Vec::new();
        tags.push(String::from_str("parallel_processing"));
        tags.push(String::from_str("batch_processing"));
        tags.push(String::from_str("map_reduce"));
        tags.push(String::from_str("pipeline_processing"));
        tags.push(String::from_str("concurrent_task_management"));
        tags.push(String::from_str("resource_pooling"));
        assert(texts(tags@) =~= capabilities());
        tags
    }

    /// The size of the registry of active tasks: always zero.
    pub fn get_active_task_count(&self) -> (count: usize)
        ensures
            count == 0,
    {
        proof {
            use_type_invariant(self);
        }
        self.active_tasks.len()
    }

    /// The limit that the processor was made with.
    pub fn get_max_concurrent_tasks(&self) -> (limit: usize)
        ensures
            limit == self.limit(),
    {
        self.max_concurrent_tasks
    }
}

} // verus!
