use concurrent_engine::batch::batch_process;
use concurrent_engine::batch::wrap_item;
use concurrent_engine::batch::BatchRun;
use concurrent_engine::error::ProcessError;
use concurrent_engine::map_reduce::map_reduce;
use concurrent_engine::map_reduce::numeric_inputs;
use concurrent_engine::map_reduce::MapReducePlan;
use concurrent_engine::map_reduce::ReduceOp;
use concurrent_engine::map_reduce::NEGATIVE_INFINITY;
use concurrent_engine::map_reduce::NOT_A_NUMBER;
use concurrent_engine::map_reduce::POSITIVE_INFINITY;
use concurrent_engine::options::ProcessOptions;
use concurrent_engine::parallel::parallel_process;
use concurrent_engine::parallel::transform_item;
use concurrent_engine::pipeline::aggregate_stage;
use concurrent_engine::pipeline::enrich_stage;
use concurrent_engine::pipeline::pipeline_process;
use concurrent_engine::pipeline::run_stages;
use concurrent_engine::pipeline::transform_stage;
use concurrent_engine::pipeline::validate_stage;
use concurrent_engine::pipeline::PipelineRun;
use concurrent_engine::pipeline::Stage;
use concurrent_engine::processor::ConcurrentProcessor;
use concurrent_engine::processor::Method;
use concurrent_engine::processor::Task;
use concurrent_engine::processor::MAX_CONCURRENT_TASKS;
use concurrent_engine::value::count_value;
use concurrent_engine::value::member;
use concurrent_engine::value::text_value;
use concurrent_engine::value::Number;
use concurrent_engine::value::Value;

fn whole(u: u64) -> Value {
    Value::Number(Number::PosInt(u))
}

fn float(x: f64) -> Value {
    Value::Number(Number::Float(x.to_bits()))
}

fn text(s: &str) -> Value {
    Value::String(s.to_string())
}

fn object(members: Vec<(&str, Value)>) -> Value {
    Value::Object(members.into_iter().map(|(k, v)| (k.to_string(), v)).collect())
}

fn get<'a>(value: &'a Value, key: &str) -> &'a Value {
    match value {
        Value::Object(members) => match members.iter().find(|(k, _)| k == key) {
            Some((_, v)) => v,
            None => panic!("no member {}", key),
        },
        _ => panic!("not an object"),
    }
}

fn items(value: &Value) -> &Vec<Value> {
    match value {
        Value::Array(items) => items,
        _ => panic!("not an array"),
    }
}

fn keys(value: &Value) -> Vec<String> {
    match value {
        Value::Object(members) => members.iter().map(|(k, _)| k.clone()).collect(),
        _ => panic!("not an object"),
    }
}

fn to_json(value: &Value) -> serde_json::Value {
    match value {
        Value::Null => serde_json::Value::Null,
        Value::Bool(b) => serde_json::Value::Bool(*b),
        Value::Number(Number::PosInt(u)) => serde_json::Value::from(*u),
        Value::Number(Number::NegInt(i)) => serde_json::Value::from(*i),
        Value::Number(Number::Float(bits)) => serde_json::Value::from(f64::from_bits(*bits)),
        Value::String(s) => serde_json::Value::String(s.clone()),
        Value::Array(items) => serde_json::Value::Array(items.iter().map(to_json).collect()),
        Value::Object(members) => {
            let mut map = serde_json::Map::new();
            for (k, v) in members {
                map.insert(k.clone(), to_json(v));
            }
            serde_json::Value::Object(map)
        }
    }
}

fn parsed(json: &str) -> serde_json::Value {
    serde_json::from_str(json).unwrap()
}

fn with_batch_size(size: &str) -> ProcessOptions {
    ProcessOptions { batch_size: Some(size.to_string()), operation: None, stages: None }
}

fn with_operation(name: &str) -> ProcessOptions {
    ProcessOptions { batch_size: None, operation: Some(name.to_string()), stages: None }
}

fn with_stages(list: &str) -> ProcessOptions {
    ProcessOptions { batch_size: None, operation: None, stages: Some(list.to_string()) }
}

fn names(list: &[&str]) -> Vec<String> {
    list.iter().map(|s| s.to_string()).collect()
}

fn reduce(plan: &MapReducePlan) -> f64 {
    fold(plan.operation, &plan.inputs)
}

fn fold(operation: ReduceOp, inputs: &Vec<Number>) -> f64 {
    let squares: Vec<f64> = inputs
        .iter()
        .map(|n| {
            let x = f64::from_bits(n.to_binary64());
            x * x
        })
        .collect();
    match operation {
        ReduceOp::Sum => squares.iter().sum::<f64>(),
        ReduceOp::Avg => squares.iter().sum::<f64>() / squares.len() as f64,
        ReduceOp::Max => squares.iter().fold(f64::NEG_INFINITY, |a, &b| a.max(b)),
        ReduceOp::Min => squares.iter().fold(f64::INFINITY, |a, &b| a.min(b)),
    }
}

fn number_or_null(x: f64) -> Value {
    if x.is_finite() {
        float(x)
    } else {
        Value::Null
    }
}

fn kernel(operation: ReduceOp, inputs: &Vec<Number>) -> Value {
    number_or_null(fold(operation, inputs))
}

fn measure(value: &Value) -> usize {
    to_json(value).to_string().len()
}

fn run_pipeline(data: &Value, stages: Vec<String>) -> Result<Value, ProcessError> {
    let mut run = PipelineRun::start(data, stages);
    while run.pending() {
        run = run.enter()?;
        let size = measure(run.output());
        run = run.leave(size);
    }
    assert!(run.completed());
    Ok(run.finish())
}

#[test]
fn parallel_process_keeps_length_and_order() {
    let data = Value::Array(vec![
        whole(1),
        text("a"),
        Value::Null,
        Value::Bool(true),
        float(1.5),
        Value::Array(vec![whole(1)]),
        object(vec![("k", whole(2))]),
        text(""),
    ]);
    let report = parallel_process(&data).unwrap();
    let results = items(get(&report, "results"));
    assert_eq!(
        results,
        &vec![
            float(2.0),
            text("processed_a"),
            Value::Null,
            Value::Bool(true),
            float(3.0),
            Value::Array(vec![whole(1)]),
            object(vec![("k", whole(2))]),
            text("processed_"),
        ]
    );
    assert_eq!(get(&report, "processed_count"), &whole(8));
    assert_eq!(get(&report, "processing_method"), &text("parallel"));
    assert_eq!(keys(&report), vec!["results", "processed_count", "processing_method"]);
}

#[test]
fn parallel_process_follows_the_rule_item_by_item_on_a_long_array() {
    let mut input = Vec::new();
    for i in 0..5000u64 {
        if i % 3 == 0 {
            input.push(whole(i));
        } else if i % 3 == 1 {
            input.push(text(&format!("s{}", i)));
        } else {
            input.push(Value::Bool(i % 2 == 0));
        }
    }
    let data = Value::Array(input.clone());
    let report = parallel_process(&data).unwrap();
    let results = items(get(&report, "results"));
    assert_eq!(results.len(), 5000);
    for i in 0..5000usize {
        assert_eq!(results[i], transform_item(&input[i]));
    }
    assert_eq!(results[3], float(6.0));
    assert_eq!(results[4], text("processed_s4"));
    assert_eq!(results[5], Value::Bool(false));
}

#[test]
fn parallel_process_of_an_empty_array() {
    let report = parallel_process(&Value::Array(vec![])).unwrap();
    assert_eq!(get(&report, "results"), &Value::Array(vec![]));
    assert_eq!(get(&report, "processed_count"), &whole(0));
}

#[test]
fn parallel_process_needs_an_array() {
    assert_eq!(parallel_process(&whole(1)), Err(ProcessError::InputShape));
    assert_eq!(parallel_process(&Value::Null), Err(ProcessError::InputShape));
    assert_eq!(parallel_process(&object(vec![])), Err(ProcessError::InputShape));
    assert_eq!(parallel_process(&text("x")).unwrap_err().message(), "Input must be an array");
}

#[test]
fn batch_process_cuts_into_chunks_rounded_up() {
    let input: Vec<Value> = (0..25u64).map(whole).collect();
    let report = batch_process(&Value::Array(input), &ProcessOptions::new()).unwrap();
    let batches = items(get(&report, "batches"));
    assert_eq!(batches.len(), 3);
    assert_eq!(items(&batches[0]).len(), 10);
    assert_eq!(items(&batches[1]).len(), 10);
    assert_eq!(items(&batches[2]).len(), 5);
    assert_eq!(get(&report, "batch_count"), &whole(3));
    assert_eq!(get(&report, "batch_size"), &whole(10));
    assert_eq!(keys(&report), vec!["batches", "batch_count", "batch_size"]);
    for (k, batch) in batches.iter().enumerate() {
        for (i, element) in items(batch).iter().enumerate() {
            assert_eq!(
                element,
                &object(vec![
                    ("input", whole((k * 10 + i) as u64)),
                    ("processed", Value::Bool(true)),
                    ("batch_id", whole(k as u64)),
                ])
            );
        }
    }
}

#[test]
fn batch_process_last_chunk_is_full_when_the_size_divides() {
    let input: Vec<Value> = (0..12u64).map(whole).collect();
    let report = batch_process(&Value::Array(input), &with_batch_size("4")).unwrap();
    let batches = items(get(&report, "batches"));
    assert_eq!(batches.len(), 3);
    assert_eq!(items(&batches[2]).len(), 4);
    assert_eq!(get(&report, "batch_size"), &whole(4));
}

#[test]
fn batch_process_of_an_empty_array_has_no_chunks() {
    let report = batch_process(&Value::Array(vec![]), &with_batch_size("3")).unwrap();
    assert_eq!(get(&report, "batches"), &Value::Array(vec![]));
    assert_eq!(get(&report, "batch_count"), &whole(0));
    assert_eq!(get(&report, "batch_size"), &whole(3));
}

#[test]
fn batch_process_with_a_chunk_larger_than_the_array() {
    let input: Vec<Value> = vec![text("a"), text("b")];
    let report = batch_process(&Value::Array(input), &with_batch_size("100")).unwrap();
    let batches = items(get(&report, "batches"));
    assert_eq!(batches.len(), 1);
    assert_eq!(items(&batches[0]).len(), 2);
    assert_eq!(get(&items(&batches[0])[1], "input"), &text("b"));
}

#[test]
fn batch_process_with_chunks_of_one() {
    let input: Vec<Value> = vec![text("a"), text("b"), text("c")];
    let report = batch_process(&Value::Array(input), &with_batch_size("1")).unwrap();
    let batches = items(get(&report, "batches"));
    assert_eq!(batches.len(), 3);
    assert_eq!(get(&items(&batches[2])[0], "batch_id"), &whole(2));
}

#[test]
fn batch_process_falls_back_to_ten_on_a_size_it_cannot_use() {
    let input: Vec<Value> = (0..11u64).map(whole).collect();
    for size in ["0", "ten", "", "-1"] {
        let report = batch_process(&Value::Array(input.clone()), &with_batch_size(size)).unwrap();
        assert_eq!(get(&report, "batch_size"), &whole(10));
        assert_eq!(get(&report, "batch_count"), &whole(2));
    }
}

#[test]
fn batch_process_needs_an_array() {
    assert_eq!(batch_process(&whole(1), &ProcessOptions::new()), Err(ProcessError::InputShape));
}

#[test]
fn batch_run_is_driven_chunk_by_chunk() {
    let input: Vec<Value> = (0..7u64).map(whole).collect();
    let data = Value::Array(input);
    let options = with_batch_size("3");
    let mut run = match BatchRun::start(&data, &options) {
        Ok(run) => run,
        Err(_) => panic!("an array starts a run"),
    };
    let mut chunks = 0;
    while run.pending() {
        run = run.run_chunk();
        chunks += 1;
    }
    assert_eq!(chunks, 3);
    assert_eq!(run.finish(), batch_process(&data, &options).unwrap());
}

#[test]
fn wrap_item_carries_the_item_and_the_batch_id() {
    assert_eq!(
        wrap_item(&text("x"), 4),
        object(vec![("input", text("x")), ("processed", Value::Bool(true)), ("batch_id", whole(4))])
    );
}

#[test]
fn map_reduce_sums_the_squares() {
    let data = Value::Array(vec![whole(2), whole(3), whole(4)]);
    let plan = MapReducePlan::new(&data, &with_operation("sum")).unwrap();
    assert_eq!(plan.operation, ReduceOp::Sum);
    assert_eq!(plan.inputs, vec![Number::PosInt(2), Number::PosInt(3), Number::PosInt(4)]);
    let squares: Vec<f64> =
        plan.inputs.iter().map(|n| f64::from_bits(n.to_binary64()).powi(2)).collect();
    assert_eq!(squares, vec![4.0, 9.0, 16.0]);
    assert_eq!(reduce(&plan), 29.0);
    let report = map_reduce(&data, &with_operation("sum"), kernel).unwrap();
    assert_eq!(
        report,
        object(vec![
            ("mapped_count", whole(3)),
            ("operation", text("sum")),
            ("result", float(29.0)),
            ("intermediate_results", whole(3)),
        ])
    );
}

#[test]
fn map_reduce_average_of_nothing_is_not_a_number() {
    let data = Value::Array(vec![]);
    let plan = MapReducePlan::new(&data, &with_operation("avg")).unwrap();
    assert!(plan.inputs.is_empty());
    assert!(reduce(&plan).is_nan());
    assert_eq!(plan.settled(), Some(Value::Number(Number::Float(NOT_A_NUMBER))));
    let report = map_reduce(&data, &with_operation("avg"), kernel).unwrap();
    assert_eq!(get(&report, "mapped_count"), &whole(0));
    assert_eq!(get(&report, "result"), &Value::Number(Number::Float(NOT_A_NUMBER)));
    assert_eq!(get(&report, "operation"), &text("avg"));
    assert_eq!(get(&report, "intermediate_results"), &whole(0));
    assert_eq!(to_json(get(&report, "result")), serde_json::Value::Null);
}

#[test]
fn not_a_number_is_one() {
    assert!(f64::from_bits(NOT_A_NUMBER).is_nan());
    assert_eq!(NOT_A_NUMBER, f64::NAN.to_bits());
}

#[test]
fn map_reduce_average_of_nothing_divides_nothing() {
    let data = Value::Array(vec![text("no number"), Value::Null]);
    let report = map_reduce(&data, &with_operation("avg"), |_, _| panic!("nothing to reduce"));
    assert_eq!(get(&report.unwrap(), "result"), &Value::Number(Number::Float(NOT_A_NUMBER)));
    let plan = MapReducePlan::new(&data, &with_operation("avg")).unwrap();
    assert_eq!(plan.report(Value::Null), plan.report(float(1.0)));
}

#[test]
fn map_reduce_maximum_and_minimum_of_nothing_are_the_seeds_of_the_folds() {
    let none = Value::Array(vec![]);
    assert_eq!(NEGATIVE_INFINITY, f64::NEG_INFINITY.to_bits());
    assert_eq!(POSITIVE_INFINITY, f64::INFINITY.to_bits());
    let plan = MapReducePlan::new(&none, &with_operation("max")).unwrap();
    assert_eq!(reduce(&plan), f64::NEG_INFINITY);
    assert_eq!(plan.settled(), Some(Value::Number(Number::Float(NEGATIVE_INFINITY))));
    let plan = MapReducePlan::new(&none, &with_operation("min")).unwrap();
    assert_eq!(reduce(&plan), f64::INFINITY);
    assert_eq!(plan.settled(), Some(Value::Number(Number::Float(POSITIVE_INFINITY))));
    let report = map_reduce(&none, &with_operation("max"), |_, _| panic!("nothing to fold"));
    let report = report.unwrap();
    assert_eq!(get(&report, "result"), &Value::Number(Number::Float(NEGATIVE_INFINITY)));
    assert_eq!(get(&report, "mapped_count"), &whole(0));
    assert_eq!(to_json(get(&report, "result")), serde_json::Value::Null);
    let report = map_reduce(&none, &with_operation("min"), |_, _| panic!("nothing to fold"));
    assert_eq!(get(&report.unwrap(), "result"), &Value::Number(Number::Float(POSITIVE_INFINITY)));
}

#[test]
fn map_reduce_settles_nothing_else() {
    let none = Value::Array(vec![]);
    let some = Value::Array(vec![whole(3)]);
    assert_eq!(MapReducePlan::new(&none, &with_operation("sum")).unwrap().settled(), None);
    for name in ["sum", "avg", "max", "min"] {
        assert_eq!(MapReducePlan::new(&some, &with_operation(name)).unwrap().settled(), None);
        assert_eq!(
            get(&map_reduce(&some, &with_operation(name), kernel).unwrap(), "result"),
            &float(9.0)
        );
    }
    match get(&map_reduce(&none, &with_operation("sum"), kernel).unwrap(), "result") {
        Value::Number(Number::Float(bits)) => assert_eq!(f64::from_bits(*bits), 0.0),
        _ => panic!("the sum of nothing is zero"),
    }
}

#[test]
fn map_reduce_rejects_an_unknown_operation() {
    let data = Value::Array(vec![whole(1), whole(2), whole(3)]);
    let error = map_reduce(&data, &with_operation("bogus"), kernel).unwrap_err();
    assert_eq!(error, ProcessError::UnknownOperation("bogus".to_string()));
    assert_eq!(error.message(), "Unknown operation: bogus");
}

#[test]
fn map_reduce_defaults_to_sum() {
    let data = Value::Array(vec![whole(1), float(0.5)]);
    let report = map_reduce(&data, &ProcessOptions::new(), kernel).unwrap();
    assert_eq!(get(&report, "operation"), &text("sum"));
    assert_eq!(get(&report, "result"), &float(1.25));
}

#[test]
fn map_reduce_max_min_and_avg() {
    let data = Value::Array(vec![whole(3), Value::Number(Number::NegInt(-5)), float(1.5)]);
    assert_eq!(get(&map_reduce(&data, &with_operation("max"), kernel).unwrap(), "result"), &float(25.0));
    assert_eq!(get(&map_reduce(&data, &with_operation("min"), kernel).unwrap(), "result"), &float(2.25));
    assert_eq!(
        get(&map_reduce(&data, &with_operation("avg"), kernel).unwrap(), "result"),
        &float((9.0 + 25.0 + 2.25) / 3.0)
    );
}

#[test]
fn map_reduce_drops_what_is_not_a_number() {
    let data = Value::Array(vec![
        text("5"),
        whole(2),
        Value::Null,
        Value::Bool(true),
        Value::Array(vec![whole(9)]),
        float(0.5),
        object(vec![("n", whole(1))]),
    ]);
    let plan = MapReducePlan::new(&data, &ProcessOptions::new()).unwrap();
    assert_eq!(plan.inputs, vec![Number::PosInt(2), Number::Float(0.5f64.to_bits())]);
    assert_eq!(numeric_inputs(items(&data)), plan.inputs);
}

#[test]
fn map_reduce_counts_at_most_ten_intermediate_results() {
    let ten: Vec<Value> = (0..10u64).map(whole).collect();
    let eleven: Vec<Value> = (0..11u64).map(whole).collect();
    let many: Vec<Value> = (0..250u64).map(whole).collect();
    let report = map_reduce(&Value::Array(ten), &ProcessOptions::new(), kernel).unwrap();
    assert_eq!(get(&report, "intermediate_results"), &whole(10));
    let report = map_reduce(&Value::Array(eleven), &ProcessOptions::new(), kernel).unwrap();
    assert_eq!(get(&report, "intermediate_results"), &whole(10));
    assert_eq!(get(&report, "mapped_count"), &whole(11));
    let report = map_reduce(&Value::Array(many), &ProcessOptions::new(), kernel).unwrap();
    assert_eq!(get(&report, "intermediate_results"), &whole(10));
    assert_eq!(get(&report, "mapped_count"), &whole(250));
}

#[test]
fn map_reduce_needs_an_array_before_it_looks_at_the_operation() {
    assert_eq!(
        MapReducePlan::new(&whole(1), &with_operation("bogus")),
        Err(ProcessError::InputShape)
    );
    assert_eq!(MapReducePlan::new(&Value::Null, &ProcessOptions::new()), Err(ProcessError::InputShape));
}

#[test]
fn reduce_op_names() {
    assert_eq!(ReduceOp::parse("sum"), Some(ReduceOp::Sum));
    assert_eq!(ReduceOp::parse("avg"), Some(ReduceOp::Avg));
    assert_eq!(ReduceOp::parse("max"), Some(ReduceOp::Max));
    assert_eq!(ReduceOp::parse("min"), Some(ReduceOp::Min));
    assert_eq!(ReduceOp::parse("SUM"), None);
    assert_eq!(ReduceOp::parse(""), None);
    assert_eq!(ReduceOp::Sum.as_text(), "sum");
    assert_eq!(ReduceOp::Avg.as_text(), "avg");
    assert_eq!(ReduceOp::Max.as_text(), "max");
    assert_eq!(ReduceOp::Min.as_text(), "min");
}

#[test]
fn pipeline_fails_on_an_unknown_stage_after_running_the_ones_before() {
    let data = object(vec![("a", whole(1))]);
    let mut run = PipelineRun::start(&data, names(&["validate", "bogus"]));
    assert!(run.pending());
    run = match run.enter() {
        Ok(run) => run,
        Err(_) => panic!("validate is a stage"),
    };
    assert_eq!(run.output(), &validate_stage(data.clone()));
    run = run.leave(66);
    assert!(run.pending());
    assert!(!run.completed());
    match run.enter() {
        Ok(_) => panic!("bogus is no stage"),
        Err(error) => {
            assert_eq!(error, ProcessError::UnknownStage("bogus".to_string()));
            assert_eq!(error.message(), "Unknown pipeline stage: bogus");
        }
    }
    assert_eq!(
        run_pipeline(&data, names(&["validate", "bogus"])),
        Err(ProcessError::UnknownStage("bogus".to_string()))
    );
    assert_eq!(
        pipeline_process(&data, &with_stages("validate,bogus"), measure),
        Err(ProcessError::UnknownStage("bogus".to_string()))
    );
    assert_eq!(
        pipeline_process(&data, &with_stages("bogus,nothing"), measure),
        Err(ProcessError::UnknownStage("bogus".to_string()))
    );
}

#[test]
fn pipeline_without_stages_returns_the_value_unchanged() {
    let data = object(vec![("a", Value::Array(vec![whole(1), text("x")]))]);
    let run = PipelineRun::start(&data, vec![]);
    assert!(!run.pending());
    assert!(run.completed());
    assert_eq!(
        run.finish(),
        object(vec![
            ("final_result", data.clone()),
            ("stages", Value::Array(vec![])),
            ("pipeline_length", whole(0)),
        ])
    );
}

#[test]
fn run_stages_on_an_empty_list_returns_the_value_unchanged() {
    let data = object(vec![("a", Value::Array(vec![whole(1), text("x")]))]);
    assert_eq!(
        run_stages(&data, vec![], |_| panic!("nothing to measure")),
        Ok(object(vec![
            ("final_result", data.clone()),
            ("stages", Value::Array(vec![])),
            ("pipeline_length", whole(0)),
        ]))
    );
}

#[test]
fn run_stages_runs_the_list_it_is_given() {
    let data = whole(7);
    assert_eq!(
        run_stages(&data, names(&["aggregate", "validate"]), measure),
        pipeline_process(&data, &with_stages("aggregate,validate"), measure)
    );
    assert_eq!(
        run_stages(&data, names(&["validate", "bogus", "nothing"]), measure),
        Err(ProcessError::UnknownStage("bogus".to_string()))
    );
}

#[test]
fn pipeline_runs_the_default_stages_in_order() {
    let data = object(vec![("a", whole(1))]);
    let report = pipeline_process(&data, &ProcessOptions::new(), measure).unwrap();
    assert_eq!(run_pipeline(&data, ProcessOptions::new().resolved_stages()).unwrap(), report);
    let first = r#"{"original_data":{"a":1},"validated":true,"validation_score":0.95}"#;
    let second = format!(r#"{{"source":{},"transform_type":"normalize","transformed":true}}"#, first);
    let third = format!(
        r#"{{"additional_fields":["metadata","context","relationships"],"base_data":{},"enriched":true,"enrichment_level":"high"}}"#,
        second
    );
    assert_eq!(to_json(get(&report, "final_result")), parsed(&third));
    assert_eq!(get(&report, "pipeline_length"), &whole(3));
    assert_eq!(
        get(&report, "stages"),
        &Value::Array(vec![
            object(vec![
                ("stage", text("validate")),
                ("stage_number", whole(1)),
                ("output_size", whole(first.len() as u64)),
            ]),
            object(vec![
                ("stage", text("transform")),
                ("stage_number", whole(2)),
                ("output_size", whole(second.len() as u64)),
            ]),
            object(vec![
                ("stage", text("enrich")),
                ("stage_number", whole(3)),
                ("output_size", whole(third.len() as u64)),
            ]),
        ])
    );
    assert_eq!(keys(&report), vec!["final_result", "stages", "pipeline_length"]);
}

#[test]
fn pipeline_runs_the_stages_that_the_options_list() {
    let data = whole(7);
    let report = pipeline_process(&data, &with_stages("aggregate,validate"), measure).unwrap();
    assert_eq!(
        to_json(get(&report, "final_result")),
        parsed(
            r#"{"validated":true,"validation_score":0.95,"original_data":
               {"aggregated":true,"aggregation_method":"statistical_summary","source_data":7}}"#
        )
    );
    assert_eq!(get(&report, "pipeline_length"), &whole(2));
    assert_eq!(get(&items(get(&report, "stages"))[1], "stage"), &text("validate"));
    assert_eq!(get(&items(get(&report, "stages"))[1], "stage_number"), &whole(2));
}

#[test]
fn pipeline_with_an_empty_stage_list_in_the_options_has_one_unknown_stage() {
    let error = pipeline_process(&whole(1), &with_stages(""), measure).unwrap_err();
    assert_eq!(error, ProcessError::UnknownStage(String::new()));
    assert_eq!(error.message(), "Unknown pipeline stage: ");
}

#[test]
fn each_stage_wraps_its_input() {
    let data = text("d");
    assert_eq!(
        validate_stage(data.clone()),
        object(vec![
            ("validated", Value::Bool(true)),
            ("original_data", text("d")),
            ("validation_score", float(0.95)),
        ])
    );
    assert_eq!(
        transform_stage(data.clone()),
        object(vec![
            ("transformed", Value::Bool(true)),
            ("source", text("d")),
            ("transform_type", text("normalize")),
        ])
    );
    assert_eq!(
        enrich_stage(data.clone()),
        object(vec![
            ("enriched", Value::Bool(true)),
            ("base_data", text("d")),
            ("enrichment_level", text("high")),
            (
                "additional_fields",
                Value::Array(vec![text("metadata"), text("context"), text("relationships")])
            ),
        ])
    );
    assert_eq!(
        aggregate_stage(data.clone()),
        object(vec![
            ("aggregated", Value::Bool(true)),
            ("source_data", text("d")),
            ("aggregation_method", text("statistical_summary")),
        ])
    );
}

#[test]
fn stage_names() {
    assert_eq!(Stage::parse("validate"), Some(Stage::Validate));
    assert_eq!(Stage::parse("transform"), Some(Stage::Transform));
    assert_eq!(Stage::parse("enrich"), Some(Stage::Enrich));
    assert_eq!(Stage::parse("aggregate"), Some(Stage::Aggregate));
    assert_eq!(Stage::parse(" validate"), None);
    assert_eq!(Stage::parse("bogus"), None);
    assert_eq!(Stage::Enrich.apply(whole(1)), enrich_stage(whole(1)));
}

#[test]
fn processor_reports_the_same_capabilities_on_every_call() {
    let processor = ConcurrentProcessor::new().unwrap();
    let expected = vec![
        "parallel_processing",
        "batch_processing",
        "map_reduce",
        "pipeline_processing",
        "concurrent_task_management",
        "resource_pooling",
    ];
    assert_eq!(processor.get_capabilities(), expected);
    assert_eq!(processor.get_capabilities(), processor.get_capabilities());
}

#[test]
fn processor_keeps_its_limit_and_an_empty_registry() {
    let processor = ConcurrentProcessor::new().unwrap();
    assert_eq!(MAX_CONCURRENT_TASKS, 16);
    assert_eq!(processor.get_max_concurrent_tasks(), 16);
    assert_eq!(processor.get_active_task_count(), 0);
    let data = Value::Array(vec![whole(1)]);
    assert!(processor.process("parallel_process", &data, &ProcessOptions::new()).is_ok());
    assert!(processor.process("batch_process", &data, &ProcessOptions::new()).is_ok());
    assert_eq!(processor.get_max_concurrent_tasks(), 16);
    assert_eq!(processor.get_active_task_count(), 0);
}

#[test]
fn processor_construction_succeeds() {
    assert!(ConcurrentProcessor::new().is_ok());
}

#[test]
fn process_rejects_an_unknown_method() {
    let processor = ConcurrentProcessor::new().unwrap();
    for name in ["nothing", "", "concurrent_parallel_process", "PIPELINE_PROCESS", "pipeline"] {
        match processor.process(name, &Value::Null, &ProcessOptions::new()) {
            Ok(_) => panic!("{} is no method", name),
            Err(error) => {
                assert_eq!(error, ProcessError::UnknownMethod(name.to_string()));
                assert_eq!(error.message(), format!("Unknown concurrent method: {}", name));
            }
        }
    }
}

#[test]
fn process_routes_each_method_to_its_engine() {
    let processor = ConcurrentProcessor::new().unwrap();
    let data = Value::Array(vec![whole(2), whole(3), whole(4)]);
    let options = ProcessOptions {
        batch_size: Some("2".to_string()),
        operation: Some("max".to_string()),
        stages: Some("transform".to_string()),
    };
    match processor.process("parallel_process", &data, &options) {
        Ok(Task::Finished(report)) => assert_eq!(report, parallel_process(&data).unwrap()),
        _ => panic!("parallel processing finishes at once"),
    }
    match processor.process("batch_process", &data, &options) {
        Ok(Task::Batch(mut run)) => {
            while run.pending() {
                run = run.run_chunk();
            }
            let report = run.finish();
            assert_eq!(get(&report, "batch_count"), &whole(2));
            assert_eq!(report, batch_process(&data, &options).unwrap());
        }
        _ => panic!("batch processing starts a run"),
    }
    match processor.process("map_reduce", &data, &options) {
        Ok(Task::Reduce(plan)) => {
            assert_eq!(plan.operation, ReduceOp::Max);
            assert_eq!(plan.inputs.len(), 3);
            assert_eq!(reduce(&plan), 16.0);
        }
        _ => panic!("map-reduce plans a reduction"),
    }
    match processor.process("pipeline_process", &data, &options) {
        Ok(Task::Pipeline(mut run)) => {
            assert!(run.pending());
            run = match run.enter() {
                Ok(run) => run,
                Err(_) => panic!("transform is a stage"),
            };
            assert_eq!(run.output(), &transform_stage(data.clone()));
            run = run.leave(1);
            assert!(run.completed());
        }
        _ => panic!("a pipeline starts a run"),
    }
}

#[test]
fn process_reports_the_shape_error_of_each_array_engine() {
    let processor = ConcurrentProcessor::new().unwrap();
    for name in ["parallel_process", "batch_process", "map_reduce"] {
        match processor.process(name, &text("no array"), &ProcessOptions::new()) {
            Ok(_) => panic!("{} needs an array", name),
            Err(error) => assert_eq!(error, ProcessError::InputShape),
        }
    }
    assert!(processor.process("pipeline_process", &text("any"), &ProcessOptions::new()).is_ok());
}

#[test]
fn method_names() {
    assert_eq!(Method::parse("parallel_process"), Some(Method::ParallelProcess));
    assert_eq!(Method::parse("batch_process"), Some(Method::BatchProcess));
    assert_eq!(Method::parse("map_reduce"), Some(Method::MapReduce));
    assert_eq!(Method::parse("pipeline_process"), Some(Method::Pipeline));
    assert_eq!(Method::parse("pipeline"), None);
    assert_eq!(Method::parse("concurrent_parallel_process"), None);
    assert_eq!(Method::parse("concurrent_pipeline"), None);
    assert_eq!(Method::parse("Parallel_process"), None);
    assert_eq!(Method::parse("map_reduce "), None);
}

#[test]
fn value_helpers_and_clone() {
    assert_eq!(text_value("t"), text("t"));
    assert_eq!(count_value(5), whole(5));
    assert_eq!(member("k", whole(1)), ("k".to_string(), whole(1)));
    let deep = object(vec![
        ("a", Value::Array(vec![whole(1), float(2.5), Value::Null, object(vec![("b", text("c"))])])),
        ("d", Value::Bool(false)),
    ]);
    assert_eq!(deep.clone(), deep);
}
