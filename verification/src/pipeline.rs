//! The staged pipeline: named stages run strictly in order, each on the
//! output of the one before, each as one admission-gated unit.

use vstd::prelude::*;
use crate::error::ProcessError;
use crate::options::ProcessOptions;
use crate::text::same_text;
use crate::text::texts;
use crate::value::count_value;
use crate::value::lemma_array_view;
use crate::value::lemma_object_view;
use crate::value::member;
use crate::value::text_value;
use crate::value::Json;
use crate::value::Number;
use crate::value::Value;

verus! {

/// The confidence that validation reports: 0.95, as a binary64 bit pattern.
pub const VALIDATION_SCORE: u64 = 0x3fee_6666_6666_6666;

/// The four stages.
#[derive(Debug, Clone, Copy, PartialEq, Eq)]
pub enum Stage {
    Validate,
    Transform,
    Enrich,
    Aggregate,
}

/// What validation makes of `data`.
pub open spec fn validated(data: Json) -> Json {
    Json::Object(
        seq![
            ("validated"@, Json::Bool(true)),
            ("original_data"@, data),
            ("validation_score"@, Json::Number(Number::Float(VALIDATION_SCORE))),
        ],
    )
}

/// What transformation makes of `data`.
pub open spec fn transformed_stage(data: Json) -> Json {
    Json::Object(
        seq![
            ("transformed"@, Json::Bool(true)),
            ("source"@, data),
            ("transform_type"@, Json::Text("normalize"@)),
        ],
    )
}

/// What enrichment makes of `data`.
pub open spec fn enriched(data: Json) -> Json {
    Json::Object(
        seq![
            ("enriched"@, Json::Bool(true)),
            ("base_data"@, data),
            ("enrichment_level"@, Json::Text("high"@)),
            (
                "additional_fields"@,
                Json::Array(
                    seq![
                        Json::Text("metadata"@),
                        Json::Text("context"@),
                        Json::Text("relationships"@),
                    ],
                ),
            ),
        ],
    )
}

/// What aggregation makes of `data`.
pub open spec fn aggregated(data: Json) -> Json {
    Json::Object(
        seq![
            ("aggregated"@, Json::Bool(true)),
            ("source_data"@, data),
            ("aggregation_method"@, Json::Text("statistical_summary"@)),
        ],
    )
}

impl Stage {
    /// The stage that `name` names, if any.
    pub open spec fn named(name: Seq<char>) -> Option<Stage> {
        if name == "validate"@ {
            Some(Stage::Validate)
        } else if name == "transform"@ {
            Some(Stage::Transform)
        } else if name == "enrich"@ {
            Some(Stage::Enrich)
        } else if name == "aggregate"@ {
            Some(Stage::Aggregate)
        } else {
            None
        }
    }

    /// The output of the stage on `data`.
    pub open spec fn applied(self, data: Json) -> Json {
        match self {
            Stage::Validate => validated(data),
            Stage::Transform => transformed_stage(data),
            Stage::Enrich => enriched(data),
            Stage::Aggregate => aggregated(data),
        }
    }

    /// Reads the name of a stage.
    pub fn parse(name: &str) -> (stage: Option<Stage>)
        ensures
            stage == Stage::named(name@),
    {
        if same_text(name, "validate") {
            Some(Stage::Validate)
        } else if same_text(name, "transform") {
            Some(Stage::Transform)
        } else if same_text(name, "enrich") {
            Some(Stage::Enrich)
        } else if same_text(name, "aggregate") {
            Some(Stage::Aggregate)
        } else {
            None
        }
    }

    /// Runs the stage on `data`.
    pub fn apply(self, data: Value) -> (out: Value)
        ensures
            out@ == self.applied(data@),
    {
        match self {
            Stage::Validate => validate_stage(data),
            Stage::Transform => transform_stage(data),
            Stage::Enrich => enrich_stage(data),
            Stage::Aggregate => aggregate_stage(data),
        }
    }
}

/// Wraps `data` as validated, with the validation score.
pub fn validate_stage(data: Value) -> (out: Value)
    ensures
        out@ == validated(data@),
{
    let mut members: Vec<(String, Value)> = Vec::new();
    members.push(member("validated", Value::Bool(true)));
    members.push(member("original_data", data));
    members.push(member("validation_score", Value::Number(Number::Float(VALIDATION_SCORE))));
    let out = Value::Object(members);
    proof {
        lemma_object_view(out);
        assert(out@->Object_0 =~= validated(data@)->Object_0);
    }
    out
}

/// Wraps `data` as transformed, with the kind of transformation.
pub fn transform_stage(data: Value) -> (out: Value)
    ensures
        out@ == transformed_stage(data@),
{
    let mut members: Vec<(String, Value)> = Vec::new();
    members.push(member("transformed", Value::Bool(true)));
    members.push(member("source", data));
    members.push(member("transform_type", text_value("normalize")));
    let out = Value::Object(members);
    proof {
        lemma_object_view(out);
        assert(out@->Object_0 =~= transformed_stage(data@)->Object_0);
    }
    out
}

/// Wraps `data` as enriched, with the level and the names of the added fields.
pub fn enrich_stage(data: Value) -> (out: Value)
    ensures
        out@ == enriched(data@),
{
    let mut fields: Vec<Value> = Vec::new();
    fields.push(text_value("metadata"));
    fields.push(text_value("context"));
    fields.push(text_value("relationships"));
    let additional = Value::Array(fields);
    proof {
        lemma_array_view(additional);
        assert(additional@->Array_0 =~= seq![
            Json::Text("metadata"@),
            Json::Text("context"@),
            Json::Text("relationships"@),
        ]);
    }
    let mut members: Vec<(String, Value)> = Vec::new();
    members.push(member("enriched", Value::Bool(true)));
    members.push(member("base_data", data));
    members.push(member("enrichment_level", text_value("high")));
    members.push(member("additional_fields", additional));
    let out = Value::Object(members);
    proof {
        lemma_object_view(out);
        assert(out@->Object_0 =~= enriched(data@)->Object_0);
    }
    out
}

/// Wraps `data` as aggregated, with the method of aggregation.
pub fn aggregate_stage(data: Value) -> (out: Value)
    ensures
        out@ == aggregated(data@),
{
    let mut members: Vec<(String, Value)> = Vec::new();
    members.push(member("aggregated", Value::Bool(true)));
    members.push(member("source_data", data));
    members.push(member("aggregation_method", text_value("statistical_summary")));
    let out = Value::Object(members);
    proof {
        lemma_object_view(out);
        assert(out@->Object_0 =~= aggregated(data@)->Object_0);
    }
    out
}

/// `data` after the stages named by `names` have run on it in order. Where a
/// name names no stage, the value passes unchanged.
pub open spec fn staged(data: Json, names: Seq<Seq<char>>) -> Json
    decreases names.len(),
{
    if names.len() == 0 {
        data
    } else {
        match Stage::named(names.last()) {
            Some(stage) => stage.applied(staged(data, names.drop_last())),
            None => staged(data, names.drop_last()),
        }
    }
}

/// Whether every name names a stage.
pub open spec fn all_known(names: Seq<Seq<char>>) -> bool {
    forall|j: int| 0 <= j < names.len() ==> Stage::named(#[trigger] names[j]) is Some
}

/// One more stage: where the first `position` names are known and the next
/// one names a stage, the first `position + 1` names are known, and the value
/// after them is that stage's output on the value before.
pub proof fn lemma_staged_step(data: Json, names: Seq<Seq<char>>, position: int)
    requires
        0 <= position < names.len(),
        all_known(names.take(position)),
        Stage::named(names[position]) is Some,
    ensures
        all_known(names.take(position + 1)),
        staged(data, names.take(position + 1)) == Stage::named(names[position])->0.applied(
            staged(data, names.take(position)),
        ),
{
    let longer = names.take(position + 1);
    assert(longer.drop_last() =~= names.take(position));
    assert(longer.last() == names[position]);
    assert forall|j: int| 0 <= j < longer.len() implies Stage::named(#[trigger] longer[j])
        is Some by {
        if j < position {
            assert(longer[j] == names.take(position)[j]);
        }
    }
}

/// What the answer tells of one stage: its name, its position counted from
/// one, and the size of its output when serialized.
pub open spec fn stage_record(name: Seq<char>, number: nat, output_size: nat) -> Json {
    Json::Object(
        seq![
            ("stage"@, Json::Text(name)),
            ("stage_number"@, Json::Number(Number::PosInt(number as u64))),
            ("output_size"@, Json::Number(Number::PosInt(output_size as u64))),
        ],
    )
}

/// What the pipeline answers: the last output, one record per stage, and the
/// number of stages.
pub open spec fn pipeline_report(last: Json, names: Seq<Seq<char>>, sizes: Seq<usize>) -> Json {
    Json::Object(
        seq![
            ("final_result"@, last),
            (
                "stages"@,
                Json::Array(
                    Seq::new(
                        sizes.len(),
                        |j: int| stage_record(names[j], (j + 1) as nat, sizes[j] as nat),
                    ),
                ),
            ),
            ("pipeline_length"@, Json::Number(Number::PosInt(names.len() as u64))),
        ],
    )
}

/// A pipeline in progress. Between two stages it is at rest; from `enter` to
/// `leave` a stage is running. The host obtains one admission permit before
/// `enter`, measures the stage's output, and gives the permit back after
/// `leave`.
pub struct PipelineRun {
    data: Value,
    stages: Vec<String>,
    sizes: Vec<usize>,
    running: bool,
    initial: Ghost<Json>,
}

impl PipelineRun {
    #[verifier::type_invariant]
    spec fn consistent(&self) -> bool {
        &&& self.entered() <= self.stages@.len()
        &&& all_known(self.stage_names().take(self.entered() as int))
        &&& self.data@ == staged(self.initial@, self.stage_names().take(self.entered() as int))
    }

    /// How many stages have been entered.
    pub closed spec fn entered(&self) -> nat {
        if self.running {
            self.sizes@.len() + 1
        } else {
            self.sizes@.len()
        }
    }

    /// The value that the pipeline started on.
    pub closed spec fn initial(&self) -> Json {
        self.initial@
    }

    /// The names of all stages, in order.
    pub closed spec fn stage_names(&self) -> Seq<Seq<char>> {
        texts(self.stages@)
    }

    /// The output sizes of the stages that have been left, in order.
    pub closed spec fn sizes(&self) -> Seq<usize> {
        self.sizes@
    }

    /// Whether a stage has been entered and not yet left.
    pub closed spec fn is_running(&self) -> bool {
        self.running
    }

    /// The output of the last stage entered; the initial value before the first.
    pub closed spec fn current(&self) -> Json {
        self.data@
    }

    /// At rest with a stage still to run.
    pub open spec fn is_pending(&self) -> bool {
        !self.is_running() && self.sizes().len() < self.stage_names().len()
    }

    /// At rest with every stage run.
    pub open spec fn is_completed(&self) -> bool {
        !self.is_running() && self.sizes().len() == self.stage_names().len()
    }

    /// Starts a pipeline of the stages named by `stages` on a copy of `data`.
    pub fn start(data: &Value, stages: Vec<String>) -> (run: PipelineRun)
        ensures
            run.initial() == data@,
            run.current() == data@,
            run.stage_names() == texts(stages@),
            run.sizes().len() == 0,
            !run.is_running(),
    {
        let run = PipelineRun {
            data: data.clone(),
            stages,
            sizes: Vec::new(),
            running: false,
            initial: Ghost(data@),
        };
        assert(run.stage_names().take(0) =~= Seq::<Seq<char>>::empty());
        run
    }

    /// Whether the host is to obtain a permit and enter the next stage.
    pub fn pending(&self) -> (yes: bool)
        ensures
            yes == self.is_pending(),
    {
        proof {
            use_type_invariant(self);
        }
        !self.running && self.sizes.len() < self.stages.len()
    }

    /// Whether every stage has run.
    pub fn completed(&self) -> (yes: bool)
        ensures
            yes == self.is_completed(),
    {
        proof {
            use_type_invariant(self);
        }
        !self.running && self.sizes.len() == self.stages.len()
    }

    /// Enters the next stage and runs it on the current value. A name that
    /// names no stage ends the pipeline with an error.
    pub fn enter(self) -> (result: Result<PipelineRun, ProcessError>)
        requires
            self.is_pending(),
        ensures
            match result {
                Ok(next) => {
                    &&& Stage::named(self.stage_names()[self.sizes().len() as int]) matches Some(
                        stage,
                    )
                    &&& next.current() == stage.applied(self.current())
                    &&& next.is_running()
                    &&& next.initial() == self.initial()
                    &&& next.stage_names() == self.stage_names()
                    &&& next.sizes() == self.sizes()
                },
                Err(error) => {
                    &&& Stage::named(self.stage_names()[self.sizes().len() as int]) is None
                    &&& error matches ProcessError::UnknownStage(name)
                    &&& name@ == self.stage_names()[self.sizes().len() as int]
                },
            },
    {
        proof {
            use_type_invariant(&self);
        }
        let position = self.sizes.len();
        let ghost names = self.stage_names();
        assert(names[position as int] == self.stages@[position as int]@);
        match Stage::parse(self.stages[position].as_str()) {
            Some(stage) => {
                let out = stage.apply(self.data);
                proof {
                    lemma_staged_step(self.initial@, names, position as int);
                }
                let next = PipelineRun {
                    data: out,
                    stages: self.stages,
                    sizes: self.sizes,
                    running: true,
                    initial: self.initial,
                };
                Ok(next)
            },
            None => Err(ProcessError::UnknownStage(self.stages[position].clone())),
        }
    }

    /// The output of the stage that is running, for the host to measure.
    pub fn output(&self) -> (out: &Value)
        ensures
            out@ == self.current(),
    {
        &self.data
    }

    /// Leaves the running stage, recording the size of its output.
    pub fn leave(self, output_size: usize) -> (next: PipelineRun)
        requires
            self.is_running(),
        ensures
            next.sizes() == self.sizes().push(output_size),
            !next.is_running(),
            next.current() == self.current(),
            next.initial() == self.initial(),
            next.stage_names() == self.stage_names(),
    {
        proof {
            use_type_invariant(&self);
        }
        let mut sizes = self.sizes;
        sizes.push(output_size);
        PipelineRun {
            data: self.data,
            stages: self.stages,
            sizes,
            running: false,
            initial: self.initial,
        }
    }

    /// The answer, once every stage has run.
    pub fn finish(self) -> (report: Value)
        requires
            self.is_completed(),
        ensures
            all_known(self.stage_names()),
            self.current() == staged(self.initial(), self.stage_names()),
            report@ == pipeline_report(self.current(), self.stage_names(), self.sizes()),
    {
        proof {
            use_type_invariant(&self);
            assert(self.stage_names().take(self.stages@.len() as int) =~= self.stage_names());
        }
        let count = self.stages.len();
        let ghost names = self.stage_names();
        let ghost sizes = self.sizes@;
        let mut records: Vec<Value> = Vec::new();
        let mut j: usize = 0;
        while j < count
            invariant
                j <= count,
                count == self.stages@.len(),
                count == self.sizes@.len(),
                names == texts(self.stages@),
                sizes == self.sizes@,
                records@.len() == j,
                forall|k: int|
                    0 <= k < j ==> (#[trigger] records@[k])@ == stage_record(
                        names[k],
                        (k + 1) as nat,
                        sizes[k] as nat,
                    ),
            decreases count - j,
        {
            let mut members: Vec<(String, Value)> = Vec::new();
            members.push(member("stage", text_value(self.stages[j].as_str())));
            members.push(member("stage_number", count_value(j + 1)));
            members.push(member("output_size", count_value(self.sizes[j])));
            let record = Value::Object(members);
            proof {
                lemma_object_view(record);
                assert(record@->Object_0 =~= stage_record(
                    names[j as int],
                    (j + 1) as nat,
                    sizes[j as int] as nat,
                )->Object_0);
            }
            records.push(record);
            j += 1;
        }
        let telemetry = Value::Array(records);
        let ghost last = self.data@;
        let mut members: Vec<(String, Value)> = Vec::new();
        members.push(member("final_result", self.data));
        members.push(member("stages", telemetry));
        members.push(member("pipeline_length", count_value(count)));
        let report = Value::Object(members);
        proof {
            lemma_object_view(report);
            lemma_array_view(telemetry);
            let expected = pipeline_report(last, names, sizes);
            assert(telemetry@->Array_0 =~= expected->Object_0[1].1->Array_0);
            assert(report@->Object_0 =~= expected->Object_0);
        }
        report
    }
}

/// Whether `size` is what `measure` gave for a value that stands for `output`.
pub open spec fn measured_by<M: Fn(&Value) -> usize>(measure: M, output: Json, size: usize) -> bool {
    exists|value: Value| value@ == output && call_ensures(measure, (&value,), size)
}

/// What a whole pipeline run comes to. Where every name names a stage, the
/// answer holds the last output and one record per stage, with the sizes that
/// `measure` gave for the outputs in turn. Else the error names the first
/// name that names no stage.
pub open spec fn pipeline_outcome<M: Fn(&Value) -> usize>(
    data: Json,
    names: Seq<Seq<char>>,
    measure: M,
    result: Result<Value, ProcessError>,
) -> bool {
    match result {
        Ok(report) => {
            &&& all_known(names)
            &&& exists|sizes: Seq<usize>|
                {
                    &&& sizes.len() == names.len()
                    &&& #[trigger] pipeline_report(staged(data, names), names, sizes) == report@
                    &&& forall|j: int|
                        0 <= j < names.len() ==> measured_by(
                            measure,
                            staged(data, names.take(j + 1)),
                            #[trigger] sizes[j],
                        )
                }
        },
        Err(error) => exists|j: int|
            {
                &&& 0 <= j < names.len()
                &&& all_known(names.take(j))
                &&& Stage::named(#[trigger] names[j]) is None
                &&& error matches ProcessError::UnknownStage(name)
                &&& name@ == names[j]
            },
    }
}

/// Runs the stages that `options` name on `data`, one after the other, for a
/// host that gates nothing; `measure` gives the serialized size of an output.
pub fn pipeline_process<M: Fn(&Value) -> usize>(
    data: &Value,
    options: &ProcessOptions,
    measure: M,
) -> (result: Result<Value, ProcessError>)
    requires
        forall|value: Value| call_requires(measure, (&value,)),
    ensures
        pipeline_outcome(data@, options.stage_names(), measure, result),
{
    run_stages(data, options.resolved_stages(), measure)
}

/// Runs the stages named by `stages` on `data`, one after the other, for a
/// host that gates nothing. A list without names is a pipeline that changes
/// nothing.
pub fn run_stages<M: Fn(&Value) -> usize>(data: &Value, stages: Vec<String>, measure: M) -> (result:
    Result<Value, ProcessError>)
    requires
        forall|value: Value| call_requires(measure, (&value,)),
    ensures
        pipeline_outcome(data@, texts(stages@), measure, result),
{
    let ghost names = texts(stages@);
    let mut run = PipelineRun::start(data, stages);
    assert(names.take(0) =~= Seq::<Seq<char>>::empty());
    while run.pending()
        invariant
            forall|value: Value| call_requires(measure, (&value,)),
            names == texts(stages@),
            run.stage_names() == names,
            run.initial() == data@,
            !run.is_running(),
            run.sizes().len() <= names.len(),
            all_known(names.take(run.sizes().len() as int)),
            run.current() == staged(data@, names.take(run.sizes().len() as int)),
            forall|j: int|
                0 <= j < run.sizes().len() ==> measured_by(
                    measure,
                    staged(data@, names.take(j + 1)),
                    #[trigger] run.sizes()[j],
                ),
        decreases names.len() - run.sizes().len(),
    {
        let ghost position = run.sizes().len() as int;
        let ghost before = run.sizes();
        match run.enter() {
            Ok(entered) => {
                let size = measure(entered.output());
                proof {
                    lemma_staged_step(data@, names, position);
                    assert(measured_by(measure, staged(data@, names.take(position + 1)), size));
                }
                run = entered.leave(size);
                assert forall|j: int| 0 <= j < run.sizes().len() implies measured_by(
                    measure,
                    staged(data@, names.take(j + 1)),
                    #[trigger] run.sizes()[j],
                ) by {
                    if j < position {
                        assert(run.sizes()[j] == before[j]);
                    }
                }
            },
            Err(error) => {
                return Err(error);
            },
        }
    }
    let ghost sizes = run.sizes();
    assert(names.take(names.len() as int) =~= names);
    let report = run.finish();
    assert(pipeline_report(staged(data@, names), names, sizes) == report@);
    Ok(report)
}

/// A pipeline without stages answers with the value it was given, no record
/// and length zero.
pub proof fn lemma_empty_pipeline(data: Json)
    ensures
        staged(data, Seq::empty()) == data,
        pipeline_report(staged(data, Seq::empty()), Seq::empty(), Seq::empty()) == Json::Object(
            seq![
                ("final_result"@, data),
                ("stages"@, Json::Array(Seq::empty())),
                ("pipeline_length"@, Json::Number(Number::PosInt(0))),
            ],
        ),
{
    let report = pipeline_report(staged(data, Seq::empty()), Seq::empty(), Seq::empty());
    assert(report->Object_0[1].1->Array_0 =~= Seq::<Json>::empty());
}

} // verus!
