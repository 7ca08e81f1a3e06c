//! Request parameters: engine kind, workload identifier, problem size.
//! These are closed tagged enumerations, not a registry: the benchmark suite
//! is fixed and auditable.

use vstd::prelude::*;
use vstd::utf8::encode_utf8;

verus! {

/// Which engine drives the workload.
#[derive(Clone, Copy, PartialEq, Eq, Structural, Debug)]
pub enum EngineName {
    Starlark,
    Python,
}

/// The fixed, closed set of workloads.
#[derive(Clone, Copy, PartialEq, Eq, Structural, Debug)]
pub enum WorkloadName {
    Arithmetic,
    DataStructures,
    StringParsing,
    JsonBuilding,
    FunctionCalls,
}

/// Predefined problem sizes.
#[derive(Clone, Copy, PartialEq, Eq, Structural, Debug)]
pub enum Size {
    S,
    M,
    L,
}

impl Size {
    /// The problem size N that each label stands for.
    pub open spec fn spec_to_n(self) -> int {
        match self {
            Size::S => 1000,
            Size::M => 50000,
            Size::L => 500000,
        }
    }

    pub fn to_n(&self) -> (r: usize)
        ensures
            r == self.spec_to_n(),
    {
        match self {
            Size::S => 1_000,
            Size::M => 50_000,
            Size::L => 500_000,
        }
    }

    pub open spec fn spec_label(self) -> Seq<char> {
        match self {
            Size::S => "S"@,
            Size::M => "M"@,
            Size::L => "L"@,
        }
    }

    pub fn label(&self) -> (r: &'static str)
        ensures
            r@ == self.spec_label(),
    {
        match self {
            Size::S => "S",
            Size::M => "M",
            Size::L => "L",
        }
    }
}

impl EngineName {
    pub open spec fn spec_label(self) -> Seq<char> {
        match self {
            EngineName::Starlark => "starlark"@,
            EngineName::Python => "python"@,
        }
    }

    pub fn label(&self) -> (r: &'static str)
        ensures
            r@ == self.spec_label(),
    {
        match self {
            EngineName::Starlark => "starlark",
            EngineName::Python => "python",
        }
    }

    /// Directory under the scripts root that holds this engine's scripts,
    /// with the trailing separator.
    pub open spec fn spec_dir(self) -> Seq<char> {
        match self {
            EngineName::Starlark => "starlark/"@,
            EngineName::Python => "python/"@,
        }
    }

    pub fn dir(&self) -> (r: &'static str)
        ensures
            r@ == self.spec_dir(),
    {
        match self {
            EngineName::Starlark => "starlark/",
            EngineName::Python => "python/",
        }
    }

    /// File extension of this engine's scripts, with the leading dot.
    pub open spec fn spec_ext(self) -> Seq<char> {
        match self {
            EngineName::Starlark => ".star"@,
            EngineName::Python => ".py"@,
        }
    }

    pub fn ext(&self) -> (r: &'static str)
        ensures
            r@ == self.spec_ext(),
    {
        match self {
            EngineName::Starlark => ".star",
            EngineName::Python => ".py",
        }
    }
}

impl WorkloadName {
    pub open spec fn spec_file_stem(self) -> Seq<char> {
        match self {
            WorkloadName::Arithmetic => "arithmetic"@,
            WorkloadName::DataStructures => "data_structures"@,
            WorkloadName::StringParsing => "string_parsing"@,
            WorkloadName::JsonBuilding => "json_building"@,
            WorkloadName::FunctionCalls => "function_calls"@,
        }
    }

    pub fn file_stem(&self) -> (r: &'static str)
        ensures
            r@ == self.spec_file_stem(),
    {
        match self {
            WorkloadName::Arithmetic => "arithmetic",
            WorkloadName::DataStructures => "data_structures",
            WorkloadName::StringParsing => "string_parsing",
            WorkloadName::JsonBuilding => "json_building",
            WorkloadName::FunctionCalls => "function_calls",
        }
    }
}

/// The script location relative to the scripts root:
/// `<engine dir>/<workload stem><engine extension>`, as UTF-8 bytes.
pub open spec fn spec_rel_script_path(e: EngineName, w: WorkloadName) -> Seq<u8> {
    encode_utf8(e.spec_dir()) + encode_utf8(w.spec_file_stem()) + encode_utf8(e.spec_ext())
}

pub fn rel_script_path(engine: &EngineName, workload: &WorkloadName) -> (r: Vec<u8>)
    ensures
        r@ == spec_rel_script_path(*engine, *workload),
{
    let mut out: Vec<u8> = Vec::new();
    out.extend_from_slice(engine.dir().as_bytes());
    out.extend_from_slice(workload.file_stem().as_bytes());
    out.extend_from_slice(engine.ext().as_bytes());
    out
}

/// A validated benchmark request: immutable once constructed, with N >= 1.
#[derive(Clone, Copy, Debug)]
pub struct BenchRequest {
    pub engine: EngineName,
    pub workload: WorkloadName,
    pub size: Size,
    pub n: usize,
    pub seed: u64,
    pub warmup: u32,
    pub iters: u32,
}

impl BenchRequest {
    /// The request invariant: the problem size is a positive integer.
    pub open spec fn wf(self) -> bool {
        self.n >= 1
    }

    /// The problem size a request resolves to: an explicit override wins
    /// over the size label's predefined value.
    pub open spec fn spec_resolved_n(size: Size, n_override: Option<usize>) -> int {
        match n_override {
            Option::Some(m) => m as int,
            Option::None => size.spec_to_n(),
        }
    }

    /// Validated constructor: yields a request exactly when the resolved
    /// problem size is positive.
    pub fn new(
        engine: EngineName,
        workload: WorkloadName,
        size: Size,
        n_override: Option<usize>,
        seed: u64,
        warmup: u32,
        iters: u32,
    ) -> (r: Option<BenchRequest>)
        ensures
            Self::spec_resolved_n(size, n_override) >= 1 <==> r is Some,
            r matches Some(q) ==> {
                &&& q.wf()
                &&& q.engine == engine
                &&& q.workload == workload
                &&& q.size == size
                &&& q.n == Self::spec_resolved_n(size, n_override)
                &&& q.seed == seed
                &&& q.warmup == warmup
                &&& q.iters == iters
            },
    {
        let n: usize = match n_override {
            Option::Some(m) => m,
            Option::None => size.to_n(),
        };
        if n >= 1 {
            Some(BenchRequest { engine, workload, size, n, seed, warmup, iters })
        } else {
            None
        }
    }
}

} // verus!
