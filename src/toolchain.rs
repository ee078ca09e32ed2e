//! What the C compiler is given, and how its diagnostics are judged.
use vstd::prelude::*;
use crate::exporter::ExportError;
use crate::text::push_str;

verus! {

/// Whether `pat` occurs in `s` starting at `i`.
pub open spec fn occurs_at(s: Seq<char>, pat: Seq<char>, i: int) -> bool {
    0 <= i && i + pat.len() <= s.len() && s.subrange(i, i + pat.len()) == pat
}

/// Whether `pat` occurs anywhere in `s`.
pub open spec fn occurs(s: Seq<char>, pat: Seq<char>) -> bool {
    exists|i: int| occurs_at(s, pat, i)
}

/// The marker of an error-level diagnostic.
pub open spec fn error_marker() -> Seq<char> {
    "error"@
}

/// The compiler's arguments: debug symbols, the sanitizer or optimisation
/// flag, output and source, the math library, and no strict aliasing.
pub open spec fn compiler_args_spec(output: Seq<char>, source: Seq<char>, sanitize: bool) -> Seq<Seq<char>> {
    seq![
        "-g"@,
        if sanitize { "-fsanitize=undefined"@ } else { "-O"@ },
        "-o"@,
        output,
        source,
        "-lm"@,
        "-fno-strict-aliasing"@,
    ]
}

fn owned(s: &str) -> (r: String)
    ensures
        r@ == s@,
{
    let mut r = String::new();
    push_str(&mut r, s);
    proof {
        assert(r@ =~= s@);
    }
    r
}

/// The arguments for compiling `source` into `output`.
pub fn compiler_args(output: &str, source: &str, sanitize: bool) -> (r: Vec<String>)
    ensures
        r@.map_values(|a: String| a@) == compiler_args_spec(output@, source@, sanitize),
{
    let mut r: Vec<String> = Vec::new();
    r.push(owned("-g"));
    if sanitize {
        r.push(owned("-fsanitize=undefined"));
    } else {
        r.push(owned("-O"));
    }
    r.push(owned("-o"));
    r.push(owned(output));
    r.push(owned(source));
    r.push(owned("-lm"));
    r.push(owned("-fno-strict-aliasing"));
    proof {
        assert(r@.map_values(|a: String| a@) =~= compiler_args_spec(output@, source@, sanitize));
    }
    r
}

fn occurs_at_exec(s: &str, n: usize, pat: &str, m: usize, i: usize) -> (r: bool)
    requires
        n == s@.len(),
        m == pat@.len(),
        i + m <= n,
    ensures
        r == occurs_at(s@, pat@, i as int),
{
    let mut k: usize = 0;
    while k < m
        invariant
            n == s@.len(),
            m == pat@.len(),
            i + m <= n,
            k <= m,
            s@.subrange(i as int, i + k) == pat@.subrange(0, k as int),
        decreases m - k,
    {
        if s.get_char(i + k) != pat.get_char(k) {
            proof {
                assert(s@.subrange(i as int, i + m)[k as int] != pat@[k as int]);
            }
            return false;
        }
        proof {
            assert(s@.subrange(i as int, i + k + 1) =~= s@.subrange(i as int, i + k).push(s@[i + k]));
            assert(pat@.subrange(0, k + 1) =~= pat@.subrange(0, k as int).push(pat@[k as int]));
        }
        k = k + 1;
    }
    proof {
        assert(pat@.subrange(0, m as int) =~= pat@);
    }
    true
}

/// Whether `pat` occurs in `s`.
pub fn contains_str(s: &str, pat: &str) -> (r: bool)
    ensures
        r == occurs(s@, pat@),
{
    let n = s.unicode_len();
    let m = pat.unicode_len();
    if m > n {
        return false;
    }
    let last = n - m;
    let mut i: usize = 0;
    while i < last
        invariant
            n == s@.len(),
            m == pat@.len(),
            m <= n,
            last == n - m,
            i <= last,
            forall|j: int| 0 <= j < i ==> !occurs_at(s@, pat@, j),
        decreases last - i,
    {
        if occurs_at_exec(s, n, pat, m, i) {
            return true;
        }
        i = i + 1;
    }
    if occurs_at_exec(s, n, pat, m, last) {
        return true;
    }
    proof {
        assert forall|j: int| !occurs_at(s@, pat@, j) by {
            if 0 <= j < i {
            }
        }
    }
    false
}

/// Judges the compiler's diagnostics: any error-level one fails the build,
/// carrying the whole text.
pub fn check_compiler_output(stderr: &str) -> (r: Result<(), ExportError>)
    ensures
        r is Ok <==> !occurs(stderr@, error_marker()),
        r matches Err(e) ==> e matches ExportError::CompilerError(d) && d@ == stderr@,
{
    if contains_str(stderr, "error") {
        Err(ExportError::CompilerError(owned(stderr)))
    } else {
        Ok(())
    }
}

/// An operating system that the code generator may be built for.
#[derive(Clone, Copy, Debug, PartialEq, Eq)]
pub enum TargetOs {
    Linux,
    Windows,
    MacOs,
    Other,
}

/// The backend library as the compiler's `-Z` option expects it, by
/// operating system.
pub open spec fn backend_path_spec(os: TargetOs) -> Seq<char> {
    match os {
        TargetOs::Linux => "codegen-backend=../../target/debug/librustc_codegen_clr.so"@,
        TargetOs::Windows => "codegen-backend=../../target/debug/rustc_codegen_clr.dll"@,
        _ => "codegen-backend=../../target/debug/librustc_codegen_clr.dylib"@,
    }
}

/// Where the backend library is found; there is none for other systems.
pub fn backend_path(os: TargetOs) -> (r: &'static str)
    requires
        os != TargetOs::Other,
    ensures
        r@ == backend_path_spec(os),
{
    match os {
        TargetOs::Linux => "codegen-backend=../../target/debug/librustc_codegen_clr.so",
        TargetOs::Windows => "codegen-backend=../../target/debug/rustc_codegen_clr.dll",
        _ => "codegen-backend=../../target/debug/librustc_codegen_clr.dylib",
    }
}

} // verus!
