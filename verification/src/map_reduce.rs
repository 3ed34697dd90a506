//! Map-reduce: the numbers of an array are squared and folded into one
//! result. The arithmetic is binary64 and is the host's; what is fixed here is
//! which reduction runs, on which inputs, and what the answer holds.

use vstd::prelude::*;
use crate::binary64::fraction_field;
use crate::binary64::is_finite;
use crate::binary64::is_negative;
use crate::error::ProcessError;
use crate::options::ProcessOptions;
use crate::text::same_text;
use crate::value::count_value;
use crate::value::lemma_array_view;
use crate::value::lemma_object_view;
use crate::value::member;
use crate::value::text_value;
use crate::value::Json;
use crate::value::Number;
use crate::value::Value;

verus! {

/// At most this many intermediate results are counted in the answer.
pub const INTERMEDIATE_LIMIT: usize = 10;

/// The bit pattern of the binary64 not-a-number that stands for the average of
/// no numbers. Like the infinities it is no JSON number: a host that writes
/// JSON writes `null` for it.
pub const NOT_A_NUMBER: u64 = 0x7ff8_0000_0000_0000;

/// The bit pattern of negative infinity, from which the maximum is folded.
pub const NEGATIVE_INFINITY: u64 = 0xfff0_0000_0000_0000;

/// The bit pattern of positive infinity, from which the minimum is folded.
pub const POSITIVE_INFINITY: u64 = 0x7ff0_0000_0000_0000;

/// The four reductions.
#[derive(Debug, Clone, Copy, PartialEq, Eq)]
pub enum ReduceOp {
    /// The sum of the squares.
    Sum,
    /// The sum of the squares divided by their count.
    Avg,
    /// The largest square, folded from negative infinity.
    Max,
    /// The smallest square, folded from positive infinity.
    Min,
}

impl ReduceOp {
    /// The reduction that `name` names, if any.
    pub open spec fn named(name: Seq<char>) -> Option<ReduceOp> {
        if name == "sum"@ {
            Some(ReduceOp::Sum)
        } else if name == "avg"@ {
            Some(ReduceOp::Avg)
        } else if name == "max"@ {
            Some(ReduceOp::Max)
        } else if name == "min"@ {
            Some(ReduceOp::Min)
        } else {
            None
        }
    }

    /// The name of the reduction.
    pub open spec fn name(self) -> Seq<char> {
        match self {
            ReduceOp::Sum => "sum"@,
            ReduceOp::Avg => "avg"@,
            ReduceOp::Max => "max"@,
            ReduceOp::Min => "min"@,
        }
    }

    /// Reads the name of a reduction.
    pub fn parse(name: &str) -> (operation: Option<ReduceOp>)
        ensures
            operation == ReduceOp::named(name@),
    {
        if same_text(name, "sum") {
            Some(ReduceOp::Sum)
        } else if same_text(name, "avg") {
            Some(ReduceOp::Avg)
        } else if same_text(name, "max") {
            Some(ReduceOp::Max)
        } else if same_text(name, "min") {
            Some(ReduceOp::Min)
        } else {
            None
        }
    }

    /// The name of the reduction, as the answer shows it.
    pub fn as_text(&self) -> (name: &'static str)
        ensures
            name@ == self.name(),
    {
        match self {
            ReduceOp::Sum => "sum",
            ReduceOp::Avg => "avg",
            ReduceOp::Max => "max",
            ReduceOp::Min => "min",
        }
    }
}

/// The numbers among `items`, in order; every other item is dropped.
pub open spec fn numbers_of(items: Seq<Json>) -> Seq<Number>
    decreases items.len(),
{
    if items.len() == 0 {
        Seq::empty()
    } else {
        match items.last() {
            Json::Number(n) => numbers_of(items.drop_last()).push(n),
            _ => numbers_of(items.drop_last()),
        }
    }
}

/// The result where it takes no arithmetic, which is on no numbers: their
/// average is defined as not-a-number, and nothing is divided; their maximum
/// and their minimum are the values that the folds start from. Every other
/// result is the host's to compute.
pub open spec fn settled_result(operation: ReduceOp, mapped: nat) -> Option<Json> {
    if mapped != 0 {
        None
    } else {
        match operation {
            ReduceOp::Sum => None,
            ReduceOp::Avg => Some(Json::Number(Number::Float(NOT_A_NUMBER))),
            ReduceOp::Max => Some(Json::Number(Number::Float(NEGATIVE_INFINITY))),
            ReduceOp::Min => Some(Json::Number(Number::Float(POSITIVE_INFINITY))),
        }
    }
}

/// The result that the answer shows: the settled one where there is one, else
/// the one that was computed.
pub open spec fn shown_result(operation: ReduceOp, mapped: nat, reduced: Json) -> Json {
    match settled_result(operation, mapped) {
        Some(settled) => settled,
        None => reduced,
    }
}

/// The settled patterns are what they are called. None is finite: the
/// exponent bits are all set. Not-a-number has a fraction that is not zero;
/// the infinities have none, and the negative one has its sign bit set.
pub proof fn lemma_settled_patterns()
    ensures
        !is_finite(NOT_A_NUMBER),
        fraction_field(NOT_A_NUMBER) != 0,
        !is_finite(NEGATIVE_INFINITY),
        fraction_field(NEGATIVE_INFINITY) == 0,
        is_negative(NEGATIVE_INFINITY),
        !is_finite(POSITIVE_INFINITY),
        fraction_field(POSITIVE_INFINITY) == 0,
        !is_negative(POSITIVE_INFINITY),
{
}

/// What map-reduce answers: how many numbers were mapped, the reduction, its
/// result, and the count of intermediate results, capped.
pub open spec fn map_reduce_report(operation: ReduceOp, mapped: nat, reduced: Json) -> Json {
    Json::Object(
        seq![
            ("mapped_count"@, Json::Number(Number::PosInt(mapped as u64))),
            ("operation"@, Json::Text(operation.name())),
            ("result"@, reduced),
            (
                "intermediate_results"@,
                Json::Number(
                    Number::PosInt(
                        if mapped <= INTERMEDIATE_LIMIT {
                            mapped as u64
                        } else {
                            INTERMEDIATE_LIMIT as u64
                        },
                    ),
                ),
            ),
        ],
    )
}

/// The numbers among the items of an array, in order.
pub fn numeric_inputs(items: &Vec<Value>) -> (numbers: Vec<Number>)
    ensures
        numbers@ == numbers_of(Seq::new(items@.len(), |i: int| items@[i]@)),
{
    let ghost models = Seq::new(items@.len(), |i: int| items@[i]@);
    let mut numbers: Vec<Number> = Vec::new();
    let mut i: usize = 0;
    assert(models.take(0) =~= Seq::<Json>::empty());
    while i < items.len()
        invariant
            i <= items.len(),
            models == Seq::new(items@.len(), |i: int| items@[i]@),
            numbers@ == numbers_of(models.take(i as int)),
        decreases items.len() - i,
    {
        assert(models.take(i + 1).drop_last() =~= models.take(i as int));
        assert(models.take(i + 1).last() == items@[i as int]@);
        match &items[i] {
            Value::Number(n) => {
                numbers.push(*n);
            },
            _ => {},
        }
        i += 1;
    }
    assert(models.take(i as int) =~= models);
    numbers
}

/// A reduction that is ready to run: which one, and on which numbers. Unless
/// the result is settled, the host squares each input as a binary64 value,
/// folds the squares with the reduction, and hands the result to `report`.
#[derive(Debug, PartialEq)]
pub struct MapReducePlan {
    pub operation: ReduceOp,
    pub inputs: Vec<Number>,
}

impl MapReducePlan {
    /// Plans the reduction that `options` name over the numbers of `data`,
    /// which has to be an array.
    pub fn new(data: &Value, options: &ProcessOptions) -> (result: Result<
        MapReducePlan,
        ProcessError,
    >)
        ensures
            match result {
                Ok(plan) => {
                    &&& data@ is Array
                    &&& ReduceOp::named(options.reduction()) == Some(plan.operation)
                    &&& plan.inputs@ == numbers_of(data@->Array_0)
                },
                Err(error) => if data@ is Array {
                    &&& ReduceOp::named(options.reduction()) is None
                    &&& error matches ProcessError::UnknownOperation(name)
                    &&& name@ == options.reduction()
                } else {
                    error == ProcessError::InputShape
                },
            },
    {
        let name = options.resolved_operation();
        match data {
            Value::Array(items) => {
                proof {
                    lemma_array_view(*data);
                    assert(data@->Array_0 =~= Seq::new(items@.len(), |i: int| items@[i]@));
                }
                match ReduceOp::parse(name.as_str()) {
                    Some(operation) => Ok(
                        MapReducePlan { operation, inputs: numeric_inputs(items) },
                    ),
                    None => Err(ProcessError::UnknownOperation(name)),
                }
            },
            _ => Err(ProcessError::InputShape),
        }
    }

    /// The result, where it is settled without arithmetic.
    pub fn settled(&self) -> (result: Option<Value>)
        ensures
            match result {
                Some(value) => settled_result(self.operation, self.inputs@.len()) == Some(value@),
                None => settled_result(self.operation, self.inputs@.len()) is None,
            },
    {
        if self.inputs.len() != 0 {
            None
        } else {
            match self.operation {
                ReduceOp::Sum => None,
                ReduceOp::Avg => Some(Value::Number(Number::Float(NOT_A_NUMBER))),
                ReduceOp::Max => Some(Value::Number(Number::Float(NEGATIVE_INFINITY))),
                ReduceOp::Min => Some(Value::Number(Number::Float(POSITIVE_INFINITY))),
            }
        }
    }

    /// The answer, given the result of the reduction. Where the result is
    /// settled, the answer shows the settled one whatever `reduced` is.
    pub fn report(&self, reduced: Value) -> (report: Value)
        ensures
            report@ == map_reduce_report(
                self.operation,
                self.inputs@.len(),
                shown_result(self.operation, self.inputs@.len(), reduced@),
            ),
    {
        let reduced = match self.settled() {
            Some(settled) => settled,
            None => reduced,
        };
        let mapped = self.inputs.len();
        let shown = if mapped <= INTERMEDIATE_LIMIT {
            mapped
        } else {
            INTERMEDIATE_LIMIT
        };
        let mut members: Vec<(String, Value)> = Vec::new();
        members.push(member("mapped_count", count_value(mapped)));
        members.push(member("operation", text_value(self.operation.as_text())));
        members.push(member("result", reduced));
        members.push(member("intermediate_results", count_value(shown)));
        let report = Value::Object(members);
        proof {
            lemma_object_view(report);
            assert(report@->Object_0 =~= map_reduce_report(
                self.operation,
                self.inputs@.len(),
                reduced@,
            )->Object_0);
        }
        report
    }
}

/// What a whole map-reduce comes to: the answer for the numbers of the array
/// and their result, or the error. The result is the settled one where there
/// is one, and `reduce` is then not asked; else it is what `reduce` gave for
/// the numbers.
pub open spec fn map_reduce_outcome<R: Fn(ReduceOp, &Vec<Number>) -> Value>(
    data: Json,
    options: ProcessOptions,
    reduce: R,
    result: Result<Value, ProcessError>,
) -> bool {
    match result {
        Ok(report) => {
            &&& data is Array
            &&& ReduceOp::named(options.reduction()) matches Some(operation)
            &&& match settled_result(operation, numbers_of(data->Array_0).len()) {
                Some(settled) => report@ == map_reduce_report(
                    operation,
                    numbers_of(data->Array_0).len(),
                    settled,
                ),
                None => exists|inputs: Vec<Number>, reduced: Value|
                    {
                        &&& inputs@ == numbers_of(data->Array_0)
                        &&& #[trigger] call_ensures(reduce, (operation, &inputs), reduced)
                        &&& report@ == map_reduce_report(operation, inputs@.len(), reduced@)
                    },
            }
        },
        Err(error) => if data is Array {
            &&& ReduceOp::named(options.reduction()) is None
            &&& error matches ProcessError::UnknownOperation(name)
            &&& name@ == options.reduction()
        } else {
            error == ProcessError::InputShape
        },
    }
}

/// Reduces the numbers of `data` with the reduction that `options` name;
/// `reduce` squares the inputs as binary64 values and folds the squares.
pub fn map_reduce<R: Fn(ReduceOp, &Vec<Number>) -> Value>(
    data: &Value,
    options: &ProcessOptions,
    reduce: R,
) -> (result: Result<Value, ProcessError>)
    requires
        forall|operation: ReduceOp, inputs: Vec<Number>|
            call_requires(reduce, (operation, &inputs)),
    ensures
        map_reduce_outcome(data@, *options, reduce, result),
{
    match MapReducePlan::new(data, options) {
        Ok(plan) => match plan.settled() {
            Some(settled) => Ok(plan.report(settled)),
            None => {
                let reduced = reduce(plan.operation, &plan.inputs);
                let ghost witness = reduced;
                let report = plan.report(reduced);
                assert(call_ensures(reduce, (plan.operation, &plan.inputs), witness));
                Ok(report)
            },
        },
        Err(error) => Err(error),
    }
}

} // verus!
