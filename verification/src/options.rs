//! The options of a request, and the defaults that stand in for absent ones.

use vstd::prelude::*;
use crate::text::comma_pieces;
use crate::text::decimal_literal;
use crate::text::parse_count;
use crate::text::split_commas;
use crate::text::texts;

verus! {

/// The chunk size used where the request names none that can be used.
pub const DEFAULT_BATCH_SIZE: usize = 10;

/// The three options that the engines read, each as the request wrote it.
#[derive(Debug, Clone, PartialEq, Eq)]
pub struct ProcessOptions {
    pub batch_size: Option<String>,
    pub operation: Option<String>,
    pub stages: Option<String>,
}

/// The stages that run where the request lists none.
pub open spec fn default_stages() -> Seq<Seq<char>> {
    seq!["validate"@, "transform"@, "enrich"@]
}

impl ProcessOptions {
    /// Options with nothing set: every engine runs on its defaults.
    pub fn new() -> (options: ProcessOptions)
        ensures
            options.batch_size is None,
            options.operation is None,
            options.stages is None,
    {
        ProcessOptions { batch_size: None, operation: None, stages: None }
    }

    /// The chunk size: what `batch_size` writes where that is a positive
    /// decimal count that fits in `usize`, else the default.
    pub open spec fn chunk_size(self) -> nat {
        match self.batch_size {
            Some(text) => match decimal_literal(text@) {
                Some(n) => if 0 < n <= usize::MAX {
                    n
                } else {
                    DEFAULT_BATCH_SIZE as nat
                },
                None => DEFAULT_BATCH_SIZE as nat,
            },
            None => DEFAULT_BATCH_SIZE as nat,
        }
    }

    /// The name of the reduction: `operation`, or `sum` where it is absent.
    pub open spec fn reduction(self) -> Seq<char> {
        match self.operation {
            Some(name) => name@,
            None => "sum"@,
        }
    }

    /// The names of the stages, in order: the pieces of `stages` between its
    /// commas, or the default list where it is absent.
    pub open spec fn stage_names(self) -> Seq<Seq<char>> {
        match self.stages {
            Some(list) => comma_pieces(list@),
            None => default_stages(),
        }
    }

    /// The chunk size to use.
    pub fn resolved_batch_size(&self) -> (size: usize)
        ensures
            size == self.chunk_size(),
            size > 0,
    {
        match &self.batch_size {
            Some(text) => match parse_count(text.as_str()) {
                Some(n) => if n > 0 {
                    n
                } else {
                    DEFAULT_BATCH_SIZE
                },
                None => DEFAULT_BATCH_SIZE,
            },
            None => DEFAULT_BATCH_SIZE,
        }
    }

    /// The name of the reduction to use.
    pub fn resolved_operation(&self) -> (name: String)
        ensures
            name@ == self.reduction(),
    {
        match &self.operation {
            Some(name) => name.clone(),
            None => String::from_str("sum"),
        }
    }

    /// The names of the stages to run, in order.
    pub fn resolved_stages(&self) -> (names: Vec<String>)
        ensures
            texts(names@) == self.stage_names(),
    {
        match &self.stages {
            Some(list) => split_commas(list.as_str()),
            None => {
                let mut names: Vec<String> = Vec::new();
                names.push(String::from_str("validate"));
                names.push(String::from_str("transform"));
                names.push(String::from_str("enrich"));
                assert(texts(names@) =~= default_stages());
                names
            },
        }
    }
}

} // verus!
