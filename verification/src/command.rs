use vstd::prelude::*;
use vstd::string::StringExecFns;

verus! {

broadcast use vstd::string::group_string_axioms;

/// A program to run: its name or path, its arguments, and the directory to run it
/// in (`None`: the current one).
#[derive(Debug, Clone, PartialEq, Eq)]
pub struct CommandSpec {
    pub program: String,
    pub args: Vec<String>,
    pub dir: Option<String>,
}

/// What a finished program reported.
#[derive(Debug, Clone, PartialEq, Eq)]
pub struct CommandOutput {
    pub success: bool,
    pub stdout: Vec<u8>,
    pub stderr: Vec<u8>,
}

/// `c` runs `program` with `args` in `dir`.
pub open spec fn runs(
    c: CommandSpec,
    program: Seq<char>,
    args: Seq<Seq<char>>,
    dir: Option<Seq<char>>,
) -> bool {
    &&& c.program@ == program
    &&& c.args.deep_view() == args
    &&& match c.dir {
        Some(d) => dir == Some(d@),
        None => dir is None,
    }
}

/// `a` followed by `b`.
pub fn concat(a: &str, b: &str) -> (r: String)
    ensures
        r@ == a@ + b@,
{
    let mut s = a.to_string();
    s.append(b);
    s
}

/// A list of strings from a list of string slices.
pub fn owned_strings(v: &Vec<&str>) -> (r: Vec<String>)
    ensures
        r.len() == v.len(),
        forall|i: int| 0 <= i < v.len() ==> (#[trigger] r[i])@ == v[i]@,
        r.deep_view() =~= Seq::new(v.len() as nat, |i: int| v[i]@),
{
    let mut r: Vec<String> = Vec::new();
    let mut i: usize = 0;
    while i < v.len()
        invariant
            i <= v.len(),
            r.len() == i,
            forall|k: int| 0 <= k < i ==> (#[trigger] r[k])@ == v[k]@,
        decreases v.len() - i,
    {
        r.push(v[i].to_string());
        i = i + 1;
    }
    r
}

} // verus!
