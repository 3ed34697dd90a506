//! Chunked batch processing: the array is cut into consecutive chunks, and
//! each chunk is one admission-gated unit whose items are wrapped in parallel.

use vstd::arithmetic::div_mod::lemma_fundamental_div_mod;
use vstd::prelude::*;
use vstd::slice::slice_subrange;
use crate::error::ProcessError;
use crate::options::ProcessOptions;
use crate::parallel::parallel_map;
use crate::value::count_value;
use crate::value::lemma_array_view;
use crate::value::lemma_object_view;
use crate::value::member;
use crate::value::Json;
use crate::value::Number;
use crate::value::Value;

verus! {

/// How many chunks of at most `size` items an array of `n` items makes: `n /
/// size`, rounded up.
pub open spec fn chunk_count(n: nat, size: nat) -> nat {
    if n % size == 0 {
        n / size
    } else {
        n / size + 1
    }
}

/// Where chunk `k` ends: a full chunk further, or at the end of the array.
pub open spec fn chunk_end(n: nat, size: nat, k: nat) -> nat {
    if (k + 1) * size <= n {
        (k + 1) * size
    } else {
        n
    }
}

/// The items of chunk `k`.
pub open spec fn chunk(items: Seq<Json>, size: nat, k: nat) -> Seq<Json> {
    items.subrange((k * size) as int, chunk_end(items.len(), size, k) as int)
}

/// What batch processing makes of one item of chunk `batch_id`.
pub open spec fn wrapped(item: Json, batch_id: nat) -> Json {
    Json::Object(
        seq![
            ("input"@, item),
            ("processed"@, Json::Bool(true)),
            ("batch_id"@, Json::Number(Number::PosInt(batch_id as u64))),
        ],
    )
}

/// Chunk `k` after processing: each of its items wrapped, in order.
pub open spec fn processed_chunk(items: Seq<Json>, size: nat, k: nat) -> Json {
    Json::Array(
        Seq::new(chunk(items, size, k).len(), |i: int| wrapped(chunk(items, size, k)[i], k)),
    )
}

/// What batch processing answers for an array of `items` cut into chunks of
/// `size`.
pub open spec fn batch_report(items: Seq<Json>, size: nat) -> Json {
    Json::Object(
        seq![
            (
                "batches"@,
                Json::Array(
                    Seq::new(
                        chunk_count(items.len(), size),
                        |k: int| processed_chunk(items, size, k as nat),
                    ),
                ),
            ),
            ("batch_count"@, Json::Number(Number::PosInt(chunk_count(items.len(), size) as u64))),
            ("batch_size"@, Json::Number(Number::PosInt(size as u64))),
        ],
    )
}

/// Chunk `k` exists exactly when it starts inside the array, and then it
/// holds between one and `size` items.
pub proof fn lemma_chunk_bounds(n: nat, size: nat, k: nat)
    requires
        size > 0,
    ensures
        k < chunk_count(n, size) <==> k * size < n,
        k < chunk_count(n, size) ==> k * size < chunk_end(n, size, k) <= n && chunk_end(n, size, k)
            - k * size <= size,
        chunk_count(n, size) <= n,
{
    lemma_fundamental_div_mod(n as int, size as int);
    let q = n / size;
    let r = n % size;
    assert(n == size * q + r);
    assert(0 <= r < size);
    assert((k + 1) * size == k * size + size) by (nonlinear_arith);
    if k < q {
        assert(k * size + size <= size * q) by (nonlinear_arith)
            requires
                k + 1 <= q,
                size > 0,
        ;
    } else if k == q {
        assert(k * size == size * q) by (nonlinear_arith)
            requires
                k == q,
        ;
    } else {
        assert(k * size >= size * q + size) by (nonlinear_arith)
            requires
                k >= q + 1,
                size > 0,
        ;
    }
    assert(size * q >= q) by (nonlinear_arith)
        requires
            size > 0,
            q >= 0,
    ;
}

/// The chunks of a batch report, in order.
pub open spec fn report_batches(items: Seq<Json>, size: nat) -> Seq<Json> {
    batch_report(items, size)->Object_0[0].1->Array_0
}

/// Cutting `n` items into chunks of `size` gives `n / size` rounded up
/// chunks. Every chunk but the last is full; the last holds `n mod size`
/// items, or is full where `size` divides `n`. Item `i` of chunk `k` is item
/// `k * size + i` of the array, wrapped with batch id `k`.
pub proof fn lemma_batch_shape(items: Seq<Json>, size: nat)
    requires
        size > 0,
    ensures
        report_batches(items, size).len() == chunk_count(items.len(), size),
        (chunk_count(items.len(), size) - 1) * size < items.len() || items.len() == 0,
        items.len() <= chunk_count(items.len(), size) * size,
        forall|k: int|
            0 <= k < chunk_count(items.len(), size) ==> {
                let batch = #[trigger] report_batches(items, size)[k];
                &&& batch is Array
                &&& batch->Array_0.len() == if k + 1 < chunk_count(items.len(), size) {
                    size
                } else if items.len() % size == 0 {
                    size
                } else {
                    items.len() % size
                }
                &&& forall|i: int|
                    0 <= i < batch->Array_0.len() ==> 0 <= k * size + i < items.len()
                        && #[trigger] batch->Array_0[i] == wrapped(items[k * size + i], k as nat)
            },
{
    let n = items.len();
    let count = chunk_count(n, size);
    lemma_fundamental_div_mod(n as int, size as int);
    assert(size * (n / size) == (n / size) * size) by (nonlinear_arith);
    assert((n / size + 1) * size == (n / size) * size + size) by (nonlinear_arith);
    assert((n / size - 1) * size == (n / size) * size - size) by (nonlinear_arith);
    if n > 0 {
        lemma_chunk_bounds(n, size, (count - 1) as nat);
    }
    assert forall|k: int| 0 <= k < count implies {
        let batch = #[trigger] report_batches(items, size)[k];
        &&& batch is Array
        &&& batch->Array_0.len() == if k + 1 < count {
            size
        } else if n % size == 0 {
            size
        } else {
            n % size
        }
        &&& forall|i: int|
            0 <= i < batch->Array_0.len() ==> 0 <= k * size + i < n && #[trigger] batch->Array_0[i]
                == wrapped(items[k * size + i], k as nat)
    } by {
        let batch = report_batches(items, size)[k];
        assert(batch == processed_chunk(items, size, k as nat));
        lemma_chunk_bounds(n, size, k as nat);
        lemma_chunk_bounds(n, size, (k + 1) as nat);
        assert((k + 1) * size == k * size + size) by (nonlinear_arith);
        if k + 1 < count {
            assert((k + 1) * size < n);
        } else {
            assert(k + 1 == count);
            let q = (n / size) as int;
            let r = (n % size) as int;
            if r == 0 {
                assert(k * size == n - size) by (nonlinear_arith)
                    requires
                        k + 1 == q,
                        n == size * q,
                ;
            } else {
                assert(k * size == n - r) by (nonlinear_arith)
                    requires
                        k == q,
                        n == size * q + r,
                ;
            }
        }
    }
}

/// Wraps one item of chunk `batch_id`.
pub fn wrap_item(item: &Value, batch_id: usize) -> (out: Value)
    ensures
        out@ == wrapped(item@, batch_id as nat),
{
    let mut members: Vec<(String, Value)> = Vec::new();
    members.push(member("input", item.clone()));
    members.push(member("processed", Value::Bool(true)));
    members.push(member("batch_id", count_value(batch_id)));
    let out = Value::Object(members);
    proof {
        lemma_object_view(out);
        assert(out@->Object_0 =~= wrapped(item@, batch_id as nat)->Object_0);
    }
    out
}

/// A batch job in progress: the items, the chunk size, and the chunks
/// processed so far. The host obtains one admission permit before each call of
/// `run_chunk` and gives it back after.
pub struct BatchRun {
    items: Vec<Value>,
    batch_size: usize,
    batches: Vec<Value>,
}

impl BatchRun {
    #[verifier::type_invariant]
    spec fn consistent(&self) -> bool {
        &&& self.batch_size > 0
        &&& self.batches@.len() <= chunk_count(self.items@.len(), self.batch_size as nat)
        &&& forall|k: int|
            0 <= k < self.batches@.len() ==> (#[trigger] self.batches@[k])@ == processed_chunk(
                self.inputs(),
                self.batch_size as nat,
                k as nat,
            )
    }

    /// The items of the job.
    pub closed spec fn inputs(&self) -> Seq<Json> {
        Seq::new(self.items@.len(), |i: int| self.items@[i]@)
    }

    /// The size of a full chunk.
    pub closed spec fn chunk_size(&self) -> nat {
        self.batch_size as nat
    }

    /// How many chunks have been processed.
    pub closed spec fn done(&self) -> nat {
        self.batches@.len()
    }

    /// Whether a chunk is still to be processed.
    pub open spec fn is_pending(&self) -> bool {
        self.done() < chunk_count(self.inputs().len(), self.chunk_size())
    }

    /// Starts a job on `data`, which has to be an array, with the chunk size
    /// that `options` give.
    pub fn start(data: &Value, options: &ProcessOptions) -> (result: Result<BatchRun, ProcessError>)
        ensures
            match result {
                Ok(run) => data@ is Array && run.inputs() == data@->Array_0 && run.chunk_size()
                    == options.chunk_size() && run.done() == 0,
                Err(error) => !(data@ is Array) && error == ProcessError::InputShape,
            },
    {
        match data {
            Value::Array(items) => {
                let mut copies: Vec<Value> = Vec::new();
                let mut i: usize = 0;
                while i < items.len()
                    invariant
                        i <= items.len(),
                        copies@.len() == i,
                        forall|j: int| 0 <= j < i ==> copies@[j]@ == items@[j]@,
                    decreases items.len() - i,
                {
                    copies.push(items[i].clone());
                    i += 1;
                }
                let run = BatchRun {
                    items: copies,
                    batch_size: options.resolved_batch_size(),
                    batches: Vec::new(),
                };
                proof {
                    lemma_array_view(*data);
                    assert(run.inputs() =~= data@->Array_0);
                }
                Ok(run)
            },
            _ => Err(ProcessError::InputShape),
        }
    }

    /// Whether the host is to obtain a permit and run the next chunk.
    pub fn pending(&self) -> (yes: bool)
        ensures
            yes == self.is_pending(),
    {
        proof {
            use_type_invariant(self);
            lemma_chunk_bounds(
                self.items@.len(),
                self.batch_size as nat,
                self.batches@.len(),
            );
        }
        let n = self.items.len();
        let k = self.batches.len();
        let full = n / self.batch_size;
        k < full || (k == full && n % self.batch_size != 0)
    }

    /// Processes the next chunk: its items are wrapped in parallel.
    pub fn run_chunk(self) -> (next: BatchRun)
        requires
            self.is_pending(),
        ensures
            next.inputs() == self.inputs(),
            next.chunk_size() == self.chunk_size(),
            next.done() == self.done() + 1,
    {
        proof {
            use_type_invariant(&self);
            lemma_chunk_bounds(
                self.items@.len(),
                self.batch_size as nat,
                self.batches@.len(),
            );
        }
        let n = self.items.len();
        let k = self.batches.len();
        let start = k * self.batch_size;
        let end = if n - start > self.batch_size {
            start + self.batch_size
        } else {
            n
        };
        let part = slice_subrange(self.items.as_slice(), start, end);
        let rule = |item: &Value| -> (out: Value)
            ensures
                out@ == wrapped(item@, k as nat),
            { wrap_item(item, k) };
        let results = parallel_map(part, rule);
        let ghost inputs = self.inputs();
        let ghost size = self.batch_size as nat;
        let processed = Value::Array(results);
        proof {
            lemma_array_view(processed);
            assert((k + 1) * size == k * size + size) by (nonlinear_arith);
            assert(end == chunk_end(n as nat, size, k as nat));
            assert(processed@->Array_0 =~= processed_chunk(inputs, size, k as nat)->Array_0);
        }
        let mut batches = self.batches;
        batches.push(processed);
        let next = BatchRun { items: self.items, batch_size: self.batch_size, batches };
        next
    }

    /// The answer, once every chunk has been processed.
    pub fn finish(self) -> (report: Value)
        requires
            !self.is_pending(),
        ensures
            report@ == batch_report(self.inputs(), self.chunk_size()),
    {
        proof {
            use_type_invariant(&self);
        }
        let count = self.batches.len();
        let ghost inputs = self.inputs();
        let ghost size = self.batch_size as nat;
        let mut members: Vec<(String, Value)> = Vec::new();
        members.push(member("batches", Value::Array(self.batches)));
        members.push(member("batch_count", count_value(count)));
        members.push(member("batch_size", count_value(self.batch_size)));
        let report = Value::Object(members);
        proof {
            lemma_object_view(report);
            lemma_array_view(members@[0].1);
            let expected = batch_report(inputs, size);
            assert(members@[0].1@->Array_0 =~= expected->Object_0[0].1->Array_0);
            assert(report@->Object_0 =~= expected->Object_0);
        }
        report
    }
}

/// Processes `data` chunk by chunk, one chunk after the other, for a host
/// that gates nothing.
pub fn batch_process(data: &Value, options: &ProcessOptions) -> (result: Result<
    Value,
    ProcessError,
>)
    ensures
        match result {
            Ok(report) => data@ is Array && report@ == batch_report(
                data@->Array_0,
                options.chunk_size(),
            ),
            Err(error) => !(data@ is Array) && error == ProcessError::InputShape,
        },
{
    match BatchRun::start(data, options) {
        Ok(started) => {
            let mut run = started;
            while run.pending()
                invariant
                    data@ is Array,
                    run.inputs() == data@->Array_0,
                    run.chunk_size() == options.chunk_size(),
                decreases chunk_count(run.inputs().len(), run.chunk_size()) - run.done(),
            {
                run = run.run_chunk();
            }
            Ok(run.finish())
        },
        Err(error) => Err(error),
    }
}

} // verus!
