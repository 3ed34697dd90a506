//! The data-parallel map: one fixed rule applied to every item of an array,
//! on all available threads, with the results in input order.

use rayon::iter::IntoParallelRefIterator;
use rayon::iter::ParallelIterator;
use vstd::prelude::*;
use crate::binary64::doubled;
use crate::binary64::doubled_bits;
use crate::binary64::exponent_field;
use crate::binary64::is_negative;
use crate::binary64::lemma_doubled_is_twice;
use crate::binary64::magnitude;
use crate::error::ProcessError;


use crate::value::count_value;
use crate::value::lemma_array_view;
use crate::value::lemma_object_view;
use crate::value::member;
use crate::value::text_value;
use crate::value::Json;
use crate::value::Number;
use crate::value::Value;

verus! {

/// Applies `f` to every item on rayon's thread pool and gathers the results.
/// Rayon's `par_iter`, `map` and `collect`: the slice iterator is indexed, so
/// the collected vector has one result per item, at the item's own position,
/// whichever thread finished first.
#[verifier::external_body]
pub(crate) fn parallel_map<F>(items: &[Value], f: F) -> (out: Vec<Value>) where
    F: Fn(&Value) -> Value + Sync + Send,

    requires
        forall|i: int| 0 <= i < items@.len() ==> call_requires(f, (&items@[i],)),
    ensures
        out@.len() == items@.len(),
        forall|i: int|
            0 <= i < items@.len() ==> call_ensures(f, (&items@[i],), #[trigger] out@[i]),
{
    items.par_iter().map(|item| f(item)).collect()
}

/// The fixed rule: a number is doubled (and becomes `Null` where its double
/// is not finite), a text gets the prefix `processed_`, anything else stays.
pub open spec fn transformed(item: Json) -> Json {
    match item {
        Json::Number(n) => match doubled_bits(n.as_binary64()) {
            Some(twice) => Json::Number(Number::Float(twice)),
            None => Json::Null,
        },
        Json::Text(text) => Json::Text("processed_"@ + text),
        other => other,
    }
}

/// What parallel processing answers for an array of `items`.
pub open spec fn parallel_report(items: Seq<Json>) -> Json {
    Json::Object(
        seq![
            ("results"@, Json::Array(Seq::new(items.len(), |i: int| transformed(items[i])))),
            ("processed_count"@, Json::Number(Number::PosInt(items.len() as u64))),
            ("processing_method"@, Json::Text("parallel"@)),
        ],
    )
}

/// Applies the fixed rule to one item.
pub fn transform_item(item: &Value) -> (out: Value)
    ensures
        out@ == transformed(item@),
{
    match item {
        Value::Number(n) => match doubled(n.to_binary64()) {
            Some(twice) => Value::Number(Number::Float(twice)),
            None => Value::Null,
        },
        Value::String(text) => Value::String(String::from_str("processed_").concat(text.as_str())),
        other => other.clone(),
    }
}

/// Transforms every item of an array in parallel.
pub fn parallel_process(data: &Value) -> (result: Result<Value, ProcessError>)
    ensures
        match result {
            Ok(report) => data@ is Array && report@ == parallel_report(data@->Array_0),
            Err(error) => !(data@ is Array) && error == ProcessError::InputShape,
        },
{
    match data {
        Value::Array(items) => {
            let results = parallel_map(items.as_slice(), transform_item);
            let count = results.len();
            let ghost inputs = data@->Array_0;
            let answers = Value::Array(results);
            proof {
                lemma_array_view(*data);
                lemma_array_view(answers);
                assert(answers@->Array_0 =~= Seq::new(
                    inputs.len(),
                    |i: int| transformed(inputs[i]),
                ));
            }
            let mut members: Vec<(String, Value)> = Vec::new();
            members.push(member("results", answers));
            members.push(member("processed_count", count_value(count)));
            members.push(member("processing_method", text_value("parallel")));
            let report = Value::Object(members);
            proof {
                lemma_object_view(report);
                assert(report@->Object_0 =~= parallel_report(inputs)->Object_0);
            }
            Ok(report)
        },
        _ => Err(ProcessError::InputShape),
    }
}

/// The results of a parallel report, in order.
pub open spec fn report_results(items: Seq<Json>) -> Seq<Json> {
    parallel_report(items)->Object_0[0].1->Array_0
}

/// Parallel processing keeps length and order, and result `i` is item `i`
/// under the fixed rule. A number becomes a well-formed binary64 number of the
/// same sign and twice the magnitude, or `Null` where its exponent leaves no
/// room to double; a text gets its prefix; anything else is unchanged.
pub proof fn lemma_parallel_rule(items: Seq<Json>)
    ensures
        report_results(items).len() == items.len(),
        forall|i: int|
            0 <= i < items.len() ==> match items[i] {
                Json::Number(n) => if exponent_field(n.as_binary64()) >= 2046 {
                    #[trigger] report_results(items)[i] == Json::Null
                } else {
                    &&& report_results(items)[i] matches Json::Number(Number::Float(twice))
                    &&& Number::Float(twice).well_formed()
                    &&& is_negative(twice) == is_negative(n.as_binary64())
                    &&& magnitude(twice) == 2 * magnitude(n.as_binary64())
                },
                Json::Text(text) => report_results(items)[i] == Json::Text("processed_"@ + text),
                other => report_results(items)[i] == other,
            },
{
    assert forall|i: int| 0 <= i < items.len() implies match items[i] {
        Json::Number(n) => if exponent_field(n.as_binary64()) >= 2046 {
            #[trigger] report_results(items)[i] == Json::Null
        } else {
            &&& report_results(items)[i] matches Json::Number(Number::Float(twice))
            &&& Number::Float(twice).well_formed()
            &&& is_negative(twice) == is_negative(n.as_binary64())
            &&& magnitude(twice) == 2 * magnitude(n.as_binary64())
        },
        Json::Text(text) => report_results(items)[i] == Json::Text("processed_"@ + text),
        other => report_results(items)[i] == other,
    } by {
        assert(report_results(items)[i] == transformed(items[i]));
        if let Json::Number(n) = items[i] {
            if exponent_field(n.as_binary64()) < 2046 {
                lemma_doubled_is_twice(n.as_binary64());
            }
        }
    }
}

} // verus!
