//! The language catalog: each supported language variant, its lookup codes,
//! and the resolution of an options map into a concrete build-and-run
//! recipe.

use vstd::prelude::*;

use crate::options_parser::{lookup, Options};
use crate::runner::RunSpec;

verus! {

/// A language variant's `resolve` rejected the options map.
#[derive(Debug, Clone, PartialEq, Eq)]
pub enum OptionsError {
    /// Keys no variant option consumes, in input order.
    UnknownKeys(Vec<String>),
    /// A consumed key held a value outside the supported set.
    UnknownValue(String),
}

/// One supported language variant. The set is closed: the catalog is built
/// once from this enumeration, not from an open registry.
#[derive(Clone, Copy, Debug, PartialEq, Eq, Structural)]
pub enum Lang {
    Sh,
    Bash,
    Zsh,
    Python,
    JavaScript,
    Perl,
    Ruby,
    Go,
    Java,
    C,
    Cpp,
    Rust,
    Fortran,
}

// ---------------------------------------------------------------------------
// Case-insensitive code lookup
// ---------------------------------------------------------------------------

/// A character's codepoint with an ASCII capital letter folded to its small
/// letter: 65 through 90 are 'A' through 'Z', 32 the case offset.
pub open spec fn lower_code_point(c: char) -> int {
    if 65 <= c as u32 && c as u32 <= 90 {
        c as u32 + 32
    } else {
        c as u32 as int
    }
}

/// ASCII-case-insensitive equality of two character sequences.
pub open spec fn code_eq_ci(a: Seq<char>, b: Seq<char>) -> bool {
    a.len() == b.len() && forall|i: int|
        0 <= i < a.len() ==> lower_code_point(a[i]) == lower_code_point(b[i])
}

/// ASCII-case-insensitive string comparison.
pub fn str_eq_ci(a: &str, b: &str) -> (r: bool)
    ensures
        r == code_eq_ci(a@, b@),
{
    let na = a.unicode_len();
    let nb = b.unicode_len();
    if na != nb {
        return false;
    }
    for i in 0..na
        invariant
            na == a@.len(),
            na == b@.len(),
            forall|j: int| 0 <= j < i ==> lower_code_point(a@[j]) == lower_code_point(b@[j]),
    {
        let ca = a.get_char(i) as u32;
        let cb = b.get_char(i) as u32;
        let la: u32 = if 65 <= ca && ca <= 90 {
            ca + 32
        } else {
            ca
        };
        let lb: u32 = if 65 <= cb && cb <= 90 {
            cb + 32
        } else {
            cb
        };
        if la != lb {
            return false;
        }
    }
    true
}

/// The variant a lookup code denotes, compared case-insensitively against
/// every variant's code list, in catalog order. The code lists follow the
/// common syntax-highlighting aliases.
pub open spec fn lang_of_code(q: Seq<char>) -> Option<Lang> {
    if code_eq_ci(q, "sh"@) {
        Some(Lang::Sh)
    } else if code_eq_ci(q, "bash"@) {
        Some(Lang::Bash)
    } else if code_eq_ci(q, "zsh"@) {
        Some(Lang::Zsh)
    } else if code_eq_ci(q, "python"@) || code_eq_ci(q, "py"@) || code_eq_ci(q, "gyp"@) {
        Some(Lang::Python)
    } else if code_eq_ci(q, "javascript"@) || code_eq_ci(q, "js"@) || code_eq_ci(q, "jsx"@) {
        Some(Lang::JavaScript)
    } else if code_eq_ci(q, "perl"@) || code_eq_ci(q, "pl"@) || code_eq_ci(q, "pm"@) {
        Some(Lang::Perl)
    } else if code_eq_ci(q, "ruby"@) || code_eq_ci(q, "rb"@) || code_eq_ci(q, "gemspec"@)
        || code_eq_ci(q, "podspec"@) || code_eq_ci(q, "thor"@) || code_eq_ci(q, "irb"@) {
        Some(Lang::Ruby)
    } else if code_eq_ci(q, "go"@) || code_eq_ci(q, "golang"@) {
        Some(Lang::Go)
    } else if code_eq_ci(q, "java"@) || code_eq_ci(q, "jsp"@) {
        Some(Lang::Java)
    } else if code_eq_ci(q, "c"@) || code_eq_ci(q, "h"@) {
        Some(Lang::C)
    } else if code_eq_ci(q, "cpp"@) || code_eq_ci(q, "hpp"@) || code_eq_ci(q, "cc"@) || code_eq_ci(
        q,
        "hh"@,
    ) || code_eq_ci(q, "c++"@) || code_eq_ci(q, "h++"@) || code_eq_ci(q, "cxx"@) || code_eq_ci(
        q,
        "hxx"@,
    ) {
        Some(Lang::Cpp)
    } else if code_eq_ci(q, "rust"@) || code_eq_ci(q, "rs"@) {
        Some(Lang::Rust)
    } else if code_eq_ci(q, "fortran"@) || code_eq_ci(q, "f90"@) || code_eq_ci(q, "f95"@) {
        Some(Lang::Fortran)
    } else {
        None
    }
}

/// The variant's lookup codes, in catalog order.
pub open spec fn codes_spec(l: Lang) -> Seq<Seq<char>> {
    match l {
        Lang::Sh => seq!["sh"@],
        Lang::Bash => seq!["bash"@],
        Lang::Zsh => seq!["zsh"@],
        Lang::Python => seq!["python"@, "py"@, "gyp"@],
        Lang::JavaScript => seq!["javascript"@, "js"@, "jsx"@],
        Lang::Perl => seq!["perl"@, "pl"@, "pm"@],
        Lang::Ruby => seq!["ruby"@, "rb"@, "gemspec"@, "podspec"@, "thor"@, "irb"@],
        Lang::Go => seq!["go"@, "golang"@],
        Lang::Java => seq!["java"@, "jsp"@],
        Lang::C => seq!["c"@, "h"@],
        Lang::Cpp => seq!["cpp"@, "hpp"@, "cc"@, "hh"@, "c++"@, "h++"@, "cxx"@, "hxx"@],
        Lang::Rust => seq!["rust"@, "rs"@],
        Lang::Fortran => seq!["fortran"@, "f90"@, "f95"@],
    }
}

/// Finds the language variant for a lookup code, case-insensitively.
pub fn get_lang_by_code(code: &str) -> (r: Option<Lang>)
    ensures
        r == lang_of_code(code@),
{
    if str_eq_ci(code, "sh") {
        Some(Lang::Sh)
    } else if str_eq_ci(code, "bash") {
        Some(Lang::Bash)
    } else if str_eq_ci(code, "zsh") {
        Some(Lang::Zsh)
    } else if str_eq_ci(code, "python") || str_eq_ci(code, "py") || str_eq_ci(code, "gyp") {
        Some(Lang::Python)
    } else if str_eq_ci(code, "javascript") || str_eq_ci(code, "js") || str_eq_ci(code, "jsx") {
        Some(Lang::JavaScript)
    } else if str_eq_ci(code, "perl") || str_eq_ci(code, "pl") || str_eq_ci(code, "pm") {
        Some(Lang::Perl)
    } else if str_eq_ci(code, "ruby") || str_eq_ci(code, "rb") || str_eq_ci(code, "gemspec")
        || str_eq_ci(code, "podspec") || str_eq_ci(code, "thor") || str_eq_ci(code, "irb") {
        Some(Lang::Ruby)
    } else if str_eq_ci(code, "go") || str_eq_ci(code, "golang") {
        Some(Lang::Go)
    } else if str_eq_ci(code, "java") || str_eq_ci(code, "jsp") {
        Some(Lang::Java)
    } else if str_eq_ci(code, "c") || str_eq_ci(code, "h") {
        Some(Lang::C)
    } else if str_eq_ci(code, "cpp") || str_eq_ci(code, "hpp") || str_eq_ci(code, "cc")
        || str_eq_ci(code, "hh") || str_eq_ci(code, "c++") || str_eq_ci(code, "h++") || str_eq_ci(
        code,
        "cxx",
    ) || str_eq_ci(code, "hxx") {
        Some(Lang::Cpp)
    } else if str_eq_ci(code, "rust") || str_eq_ci(code, "rs") {
        Some(Lang::Rust)
    } else if str_eq_ci(code, "fortran") || str_eq_ci(code, "f90") || str_eq_ci(code, "f95") {
        Some(Lang::Fortran)
    } else {
        None
    }
}

/// Every variant, in catalog order.
pub fn all_langs() -> (r: Vec<Lang>)
    ensures
        r@ == seq![
            Lang::Sh,
            Lang::Bash,
            Lang::Zsh,
            Lang::Python,
            Lang::JavaScript,
            Lang::Perl,
            Lang::Ruby,
            Lang::Go,
            Lang::Java,
            Lang::C,
            Lang::Cpp,
            Lang::Rust,
            Lang::Fortran,
        ],
{
    let r = vec![
        Lang::Sh,
        Lang::Bash,
        Lang::Zsh,
        Lang::Python,
        Lang::JavaScript,
        Lang::Perl,
        Lang::Ruby,
        Lang::Go,
        Lang::Java,
        Lang::C,
        Lang::Cpp,
        Lang::Rust,
        Lang::Fortran,
    ];
    proof {
        assert(r@ =~= seq![
            Lang::Sh,
            Lang::Bash,
            Lang::Zsh,
            Lang::Python,
            Lang::JavaScript,
            Lang::Perl,
            Lang::Ruby,
            Lang::Go,
            Lang::Java,
            Lang::C,
            Lang::Cpp,
            Lang::Rust,
            Lang::Fortran,
        ]);
    }
    r
}

impl Lang {
    /// The variant's display name.
    pub fn name(&self) -> (r: &'static str)
        ensures
            r@ == match *self {
                Lang::Sh => "Sh"@,
                Lang::Bash => "Bash"@,
                Lang::Zsh => "Zsh"@,
                Lang::Python => "Python"@,
                Lang::JavaScript => "JavaScript"@,
                Lang::Perl => "Perl"@,
                Lang::Ruby => "Ruby"@,
                Lang::Go => "Go"@,
                Lang::Java => "Java"@,
                Lang::C => "C"@,
                Lang::Cpp => "Cpp"@,
                Lang::Rust => "Rust"@,
                Lang::Fortran => "Fortran"@,
            },
    {
        match *self {
            Lang::Sh => "Sh",
            Lang::Bash => "Bash",
            Lang::Zsh => "Zsh",
            Lang::Python => "Python",
            Lang::JavaScript => "JavaScript",
            Lang::Perl => "Perl",
            Lang::Ruby => "Ruby",
            Lang::Go => "Go",
            Lang::Java => "Java",
            Lang::C => "C",
            Lang::Cpp => "Cpp",
            Lang::Rust => "Rust",
            Lang::Fortran => "Fortran",
        }
    }

    /// The variant's lookup codes, in catalog order.
    pub fn codes(&self) -> (r: Vec<&'static str>)
        ensures
            r@.map_values(|s: &'static str| s@) == codes_spec(*self),
    {
        let r: Vec<&'static str> = match *self {
            Lang::Sh => vec!["sh"],
            Lang::Bash => vec!["bash"],
            Lang::Zsh => vec!["zsh"],
            Lang::Python => vec!["python", "py", "gyp"],
            Lang::JavaScript => vec!["javascript", "js", "jsx"],
            Lang::Perl => vec!["perl", "pl", "pm"],
            Lang::Ruby => vec!["ruby", "rb", "gemspec", "podspec", "thor", "irb"],
            Lang::Go => vec!["go", "golang"],
            Lang::Java => vec!["java", "jsp"],
            Lang::C => vec!["c", "h"],
            Lang::Cpp => vec!["cpp", "hpp", "cc", "hh", "c++", "h++", "cxx", "hxx"],
            Lang::Rust => vec!["rust", "rs"],
            Lang::Fortran => vec!["fortran", "f90", "f95"],
        };
        proof {
            assert(r@.map_values(|s: &'static str| s@) =~= codes_spec(*self));
        }
        r
    }
}

// ---------------------------------------------------------------------------
// Resolution of an options map into a recipe
// ---------------------------------------------------------------------------

/// The keys of a pair list, in order.
pub open spec fn keys_of(pairs: Seq<(Seq<char>, Seq<char>)>) -> Seq<Seq<char>> {
    pairs.map_values(|p: (Seq<char>, Seq<char>)| p.0)
}

/// The pair list with every entry under `k` taken out.
pub open spec fn pairs_without(pairs: Seq<(Seq<char>, Seq<char>)>, k: Seq<char>) -> Seq<
    (Seq<char>, Seq<char>),
>
    decreases pairs.len(),
{
    if pairs.len() == 0 {
        Seq::empty()
    } else if pairs[0].0 == k {
        pairs_without(pairs.drop_first(), k)
    } else {
        seq![pairs[0]] + pairs_without(pairs.drop_first(), k)
    }
}

/// Membership in a set of supported values.
pub open spec fn value_in(allowed: Seq<Seq<char>>, v: Seq<char>) -> bool {
    exists|i: int| 0 <= i < allowed.len() && allowed[i] == v
}

/// What resolving an options map yields: the recipe's three parts, or the
/// rejection.
pub enum Resolved {
    Spec { image: Seq<char>, path: Seq<char>, dockerfile: Seq<char> },
    UnknownKeys { keys: Seq<Seq<char>> },
    UnknownValue { value: Seq<char> },
}

/// A variant with no options: every key is unknown.
pub open spec fn resolve_fixed_spec(
    pairs: Seq<(Seq<char>, Seq<char>)>,
    image: Seq<char>,
    path: Seq<char>,
    dockerfile: Seq<char>,
) -> Resolved {
    if pairs.len() == 0 {
        Resolved::Spec { image, path, dockerfile }
    } else {
        Resolved::UnknownKeys { keys: keys_of(pairs) }
    }
}

/// A variant with one `version` option drawn from a supported set; the
/// image name and recipe embed the resolved version.
pub open spec fn resolve_versioned_spec(
    pairs: Seq<(Seq<char>, Seq<char>)>,
    allowed: Seq<Seq<char>>,
    default: Seq<char>,
    image_prefix: Seq<char>,
    path: Seq<char>,
    df_prefix: Seq<char>,
    df_suffix: Seq<char>,
) -> Resolved {
    let v = match lookup(pairs, "version"@) {
        Some(x) => x,
        None => default,
    };
    let rem = pairs_without(pairs, "version"@);
    if rem.len() > 0 {
        Resolved::UnknownKeys { keys: keys_of(rem) }
    } else if !value_in(allowed, v) {
        Resolved::UnknownValue { value: v }
    } else {
        Resolved::Spec { image: image_prefix + v, path, dockerfile: df_prefix + v + df_suffix }
    }
}

// ---------------------------------------------------------------------------
// Lemmas connecting map removal to the specification
// ---------------------------------------------------------------------------

proof fn lemma_no_key_pairs_without(pairs: Seq<(Seq<char>, Seq<char>)>, k: Seq<char>)
    requires
        forall|j: int| 0 <= j < pairs.len() ==> (#[trigger] pairs[j]).0 != k,
    ensures
        pairs_without(pairs, k) =~= pairs,
    decreases pairs.len(),
{
    if pairs.len() > 0 {
        lemma_no_key_pairs_without(pairs.drop_first(), k);
        assert(pairs_without(pairs, k) =~= seq![pairs[0]] + pairs.drop_first());
        assert(seq![pairs[0]] + pairs.drop_first() =~= pairs);
    }
}

proof fn lemma_lookup_none_no_key(pairs: Seq<(Seq<char>, Seq<char>)>, k: Seq<char>)
    requires
        lookup(pairs, k) is None,
    ensures
        forall|j: int| 0 <= j < pairs.len() ==> (#[trigger] pairs[j]).0 != k,
    decreases pairs.len(),
{
    if pairs.len() > 0 {
        lemma_lookup_none_no_key(pairs.drop_first(), k);
        assert(forall|j: int|
            1 <= j < pairs.len() ==> (#[trigger] pairs[j]).0 == pairs.drop_first()[j - 1].0);
    }
}

proof fn lemma_remove_at_pairs_without(pairs: Seq<(Seq<char>, Seq<char>)>, k: Seq<char>, i: int)
    requires
        0 <= i < pairs.len(),
        pairs[i].0 == k,
        forall|j: int| 0 <= j < pairs.len() && j != i ==> (#[trigger] pairs[j]).0 != k,
    ensures
        pairs_without(pairs, k) =~= pairs.remove(i),
    decreases pairs.len(),
{
    if i == 0 {
        assert(forall|j: int|
            0 <= j < pairs.drop_first().len() ==> (#[trigger] pairs.drop_first()[j]).0 == pairs[j
                + 1].0);
        lemma_no_key_pairs_without(pairs.drop_first(), k);
        assert(pairs.remove(0) =~= pairs.drop_first());
    } else {
        assert(forall|j: int|
            0 <= j < pairs.drop_first().len() ==> (#[trigger] pairs.drop_first()[j]).0 == pairs[j
                + 1].0);
        lemma_remove_at_pairs_without(pairs.drop_first(), k, i - 1);
        assert(pairs.remove(i).drop_first() =~= pairs.drop_first().remove(i - 1));
        assert(pairs_without(pairs, k) =~= seq![pairs[0]] + pairs.drop_first().remove(i - 1));
        assert(seq![pairs[0]] + pairs.drop_first().remove(i - 1) =~= pairs.remove(i));
    }
}

/// After `Options::remove(k)`, what is left is exactly the pair list with
/// `k` filtered out.
proof fn lemma_remove_gives_pairs_without(pre: Options, post: Options, k: Seq<char>, r: Option<Seq<char>>)
    requires
        pre.wf(),
        match r {
            Some(v) => {
                &&& lookup(pre.pairs(), k) == Some(v)
                &&& exists|i: int|
                    0 <= i < pre.pairs().len() && pre.pairs()[i].0 == k && post.pairs()
                        == pre.pairs().remove(i)
            },
            None => {
                &&& lookup(pre.pairs(), k) is None
                &&& post == pre
            },
        },
    ensures
        post.pairs() =~= pairs_without(pre.pairs(), k),
{
    match r {
        Some(v) => {
            let i = choose|i: int|
                0 <= i < pre.pairs().len() && pre.pairs()[i].0 == k && post.pairs()
                    == pre.pairs().remove(i);
            assert forall|j: int|
                0 <= j < pre.pairs().len() && j != i implies (#[trigger] pre.pairs()[j]).0
                != k by {
                if j < i {
                    assert((pre.pairs()[j]).0 != (pre.pairs()[i]).0);
                } else {
                    assert((pre.pairs()[i]).0 != (pre.pairs()[j]).0);
                }
            }
            lemma_remove_at_pairs_without(pre.pairs(), k, i);
        },
        None => {
            lemma_lookup_none_no_key(pre.pairs(), k);
            lemma_no_key_pairs_without(pre.pairs(), k);
        },
    }
}

// ---------------------------------------------------------------------------
// Executable resolution
// ---------------------------------------------------------------------------

/// Clones the keys of a map, in order.
fn collect_keys(opts: &Options) -> (r: Vec<String>)
    ensures
        r@.map_values(|s: String| s@) == keys_of(opts.pairs()),
{
    let mut r: Vec<String> = Vec::new();
    let n = opts.len();
    for i in 0..n
        invariant
            n == opts.spec_len(),
            r@.len() == i,
            forall|j: int| 0 <= j < i ==> (#[trigger] r@[j])@ == opts.pairs()[j].0,
    {
        r.push(opts.key_at(i).clone());
    }
    proof {
        assert(r@.map_values(|s: String| s@) =~= keys_of(opts.pairs()));
    }
    r
}

/// Resolves a variant that takes no options.
fn resolve_fixed(
    opts: Options,
    image: &'static str,
    path: &'static str,
    dockerfile: &'static str,
) -> (r: Result<RunSpec, OptionsError>)
    requires
        opts.wf(),
    ensures
        match resolve_fixed_spec(opts.pairs(), image@, path@, dockerfile@) {
            Resolved::Spec { image: im, path: pa, dockerfile: df } => (match r {
                Ok(rs) => rs.image_name@ == im && rs.code_path@ == pa && rs.dockerfile@ == df,
                Err(_) => false,
            }),
            Resolved::UnknownKeys { keys } => (match r {
                Err(OptionsError::UnknownKeys(ks)) => ks@.map_values(|s: String| s@) == keys,
                _ => false,
            }),
            Resolved::UnknownValue { .. } => false,
        },
{
    if !opts.is_empty() {
        return Err(OptionsError::UnknownKeys(collect_keys(&opts)));
    }
    Ok(
        RunSpec {
            code_path: path,
            image_name: String::from_str(image),
            dockerfile: String::from_str(dockerfile),
        },
    )
}

/// Tests a value against a supported set.
fn value_allowed(v: &str, allowed: &Vec<&'static str>) -> (r: bool)
    ensures
        r == value_in(allowed@.map_values(|s: &'static str| s@), v@),
{
    let n = allowed.len();
    for i in 0..n
        invariant
            n == allowed@.len(),
            forall|j: int| 0 <= j < i ==> (#[trigger] allowed@[j])@ != v@,
    {
        if crate::options_parser::str_eq(v, allowed[i]) {
            proof {
                let ga = allowed@.map_values(|s: &'static str| s@);
                assert(ga[i as int] == v@);
            }
            return true;
        }
    }
    proof {
        let ga = allowed@.map_values(|s: &'static str| s@);
        assert forall|j: int| 0 <= j < ga.len() implies #[trigger] ga[j] != v@ by {
            assert(ga[j] == (allowed@[j])@);
        }
    }
    false
}

/// Resolves a variant whose one option is a `version` from a supported set.
fn resolve_versioned(
    opts: Options,
    allowed: &Vec<&'static str>,
    default: &'static str,
    image_prefix: &'static str,
    path: &'static str,
    df_prefix: &'static str,
    df_suffix: &'static str,
) -> (r: Result<RunSpec, OptionsError>)
    requires
        opts.wf(),
    ensures
        match resolve_versioned_spec(
            opts.pairs(),
            allowed@.map_values(|s: &'static str| s@),
            default@,
            image_prefix@,
            path@,
            df_prefix@,
            df_suffix@,
        ) {
            Resolved::Spec { image: im, path: pa, dockerfile: df } => (match r {
                Ok(rs) => rs.image_name@ == im && rs.code_path@ == pa && rs.dockerfile@ == df,
                Err(_) => false,
            }),
            Resolved::UnknownKeys { keys } => (match r {
                Err(OptionsError::UnknownKeys(ks)) => ks@.map_values(|s: String| s@) == keys,
                _ => false,
            }),
            Resolved::UnknownValue { value } => (match r {
                Err(OptionsError::UnknownValue(v)) => v@ == value,
                _ => false,
            }),
        },
{
    let ghost pre = opts;
    let mut opts = opts;
    let removed = opts.remove("version");
    proof {
        lemma_remove_gives_pairs_without(
            pre,
            opts,
            "version"@,
            match removed {
                Some(ref v) => Some(v@),
                None => None,
            },
        );
    }
    let version = match removed {
        Some(v) => v,
        None => String::from_str(default),
    };
    if !opts.is_empty() {
        return Err(OptionsError::UnknownKeys(collect_keys(&opts)));
    }
    if !value_allowed(version.as_str(), allowed) {
        return Err(OptionsError::UnknownValue(version));
    }
    let mut image = String::from_str(image_prefix);
    image.append(version.as_str());
    let mut dockerfile = String::from_str(df_prefix);
    dockerfile.append(version.as_str());
    dockerfile.append(df_suffix);
    Ok(RunSpec { code_path: path, image_name: image, dockerfile })
}

/// Resolves the Python variant: a `version` and a package `bundle`, each
/// from a supported set; the scientific bundle adds an install step.
fn resolve_python(opts: Options) -> (r: Result<RunSpec, OptionsError>)
    requires
        opts.wf(),
    ensures
        match resolve_python_spec(opts.pairs()) {
            Resolved::Spec { image: im, path: pa, dockerfile: df } => (match r {
                Ok(rs) => rs.image_name@ == im && rs.code_path@ == pa && rs.dockerfile@ == df,
                Err(_) => false,
            }),
            Resolved::UnknownKeys { keys } => (match r {
                Err(OptionsError::UnknownKeys(ks)) => ks@.map_values(|s: String| s@) == keys,
                _ => false,
            }),
            Resolved::UnknownValue { value } => (match r {
                Err(OptionsError::UnknownValue(v)) => v@ == value,
                _ => false,
            }),
        },
{
    let ghost pre = opts;
    let mut opts = opts;
    proof {
        reveal_strlit("version");
        reveal_strlit("bundle");
        assert("version"@.len() == 7);
        assert("bundle"@.len() == 6);
    }
    let removed_v = opts.remove("version");
    let ghost mid = opts;
    proof {
        lemma_remove_gives_pairs_without(
            pre,
            mid,
            "version"@,
            match removed_v {
                Some(ref v) => Some(v@),
                None => None,
            },
        );
    }
    let removed_b = opts.remove("bundle");
    proof {
        lemma_remove_gives_pairs_without(
            mid,
            opts,
            "bundle"@,
            match removed_b {
                Some(ref v) => Some(v@),
                None => None,
            },
        );
        lemma_lookup_pairs_without_other(pre.pairs(), "version"@, "bundle"@);
    }
    let version = match removed_v {
        Some(v) => v,
        None => String::from_str("3.9"),
    };
    let bundle = match removed_b {
        Some(v) => v,
        None => String::from_str("scipy"),
    };
    if !opts.is_empty() {
        return Err(OptionsError::UnknownKeys(collect_keys(&opts)));
    }
    let vs = version.as_str();
    if !(crate::options_parser::str_eq(vs, "3.9") || crate::options_parser::str_eq(vs, "3.8")
        || crate::options_parser::str_eq(vs, "3.7") || crate::options_parser::str_eq(vs, "3.6")) {
        return Err(OptionsError::UnknownValue(version));
    }
    let bs = bundle.as_str();
    let pip_install: &'static str = if crate::options_parser::str_eq(bs, "none") {
        ""
    } else if crate::options_parser::str_eq(bs, "scipy") {
        "RUN pip install numpy scipy sympy"
    } else {
        return Err(OptionsError::UnknownValue(bundle));
    };
    let mut image = String::from_str("python");
    image.append(version.as_str());
    image.append("-");
    image.append(bundle.as_str());
    let mut dockerfile = String::from_str("\nFROM python:");
    dockerfile.append(version.as_str());
    dockerfile.append("-slim-buster\nENV PYTHONUNBUFFERED=1\n");
    dockerfile.append(pip_install);
    dockerfile.append("\nCMD python /tmp/run.py\n");
    Ok(RunSpec { code_path: "/tmp/run.py", image_name: image, dockerfile })
}

/// Python's resolution: `version` and `bundle` with defaults, validated
/// against their supported sets; the recipe embeds both.
pub open spec fn resolve_python_spec(pairs: Seq<(Seq<char>, Seq<char>)>) -> Resolved {
    let v = match lookup(pairs, "version"@) {
        Some(x) => x,
        None => "3.9"@,
    };
    let b = match lookup(pairs, "bundle"@) {
        Some(x) => x,
        None => "scipy"@,
    };
    let rem = pairs_without(pairs_without(pairs, "version"@), "bundle"@);
    if rem.len() > 0 {
        Resolved::UnknownKeys { keys: keys_of(rem) }
    } else if !(v == "3.9"@ || v == "3.8"@ || v == "3.7"@ || v == "3.6"@) {
        Resolved::UnknownValue { value: v }
    } else if !(b == "none"@ || b == "scipy"@) {
        Resolved::UnknownValue { value: b }
    } else {
        let pip = if b == "none"@ {
            ""@
        } else {
            "RUN pip install numpy scipy sympy"@
        };
        Resolved::Spec {
            image: "python"@ + v + "-"@ + b,
            path: "/tmp/run.py"@,
            dockerfile: "\nFROM python:"@ + v + "-slim-buster\nENV PYTHONUNBUFFERED=1\n"@ + pip
                + "\nCMD python /tmp/run.py\n"@,
        }
    }
}

/// Filtering one key out leaves lookups of any other key unchanged.
proof fn lemma_lookup_pairs_without_other(pairs: Seq<(Seq<char>, Seq<char>)>, k: Seq<char>, other: Seq<char>)
    requires
        k != other,
    ensures
        lookup(pairs_without(pairs, k), other) == lookup(pairs, other),
    decreases pairs.len(),
{
    if pairs.len() > 0 {
        lemma_lookup_pairs_without_other(pairs.drop_first(), k, other);
        if pairs[0].0 == k {
        } else {
            let rest = pairs_without(pairs.drop_first(), k);
            assert((seq![pairs[0]] + rest).drop_first() =~= rest);
        }
    }
}

/// What resolving `pairs` under each variant yields.
pub open spec fn resolve_spec(l: Lang, pairs: Seq<(Seq<char>, Seq<char>)>) -> Resolved {
    match l {
        Lang::Sh => resolve_fixed_spec(
            pairs,
            "sh"@,
            "/tmp/run.sh"@,
            "\nFROM alpine:3.13\nCMD sh /tmp/run.sh\n"@,
        ),
        Lang::Bash => resolve_fixed_spec(
            pairs,
            "bash"@,
            "/tmp/run.sh"@,
            "\nFROM alpine:3.13\nRUN apk add --no-cache bash\nCMD bash /tmp/run.sh\n"@,
        ),
        Lang::Zsh => resolve_fixed_spec(
            pairs,
            "zsh"@,
            "/tmp/run.sh"@,
            "\nFROM alpine:3.13\nRUN apk add --no-cache zsh\nCMD zsh /tmp/run.sh\n"@,
        ),
        Lang::Python => resolve_python_spec(pairs),
        Lang::JavaScript => resolve_versioned_spec(
            pairs,
            seq!["15"@, "14"@, "12"@, "10"@],
            "15"@,
            "nodejs"@,
            "/tmp/index.js"@,
            "\nFROM node:"@,
            "-alpine\nCMD node /tmp/index.js\n"@,
        ),
        Lang::Perl => resolve_fixed_spec(
            pairs,
            "perl"@,
            "/tmp/run.pl"@,
            "\nFROM perl:slim-buster\nCMD perl /tmp/run.pl\n"@,
        ),
        Lang::Ruby => resolve_versioned_spec(
            pairs,
            seq!["3.0"@, "2.7"@, "2.6"@, "2.5"@],
            "3.0"@,
            "ruby"@,
            "/tmp/run.rb"@,
            "\nFROM ruby:"@,
            "-alpine\nCMD ruby /tmp/run.rb\n"@,
        ),
        Lang::Go => resolve_versioned_spec(
            pairs,
            seq!["1.16"@, "1.15"@],
            "1.16"@,
            "golang"@,
            "/tmp/main.go"@,
            "\nFROM golang:"@,
            "-alpine\n# So that we can build code\nENV GOCACHE=/tmp/.cache/go\nCMD go run /tmp/main.go\n"@,
        ),
        Lang::Java => resolve_versioned_spec(
            pairs,
            seq!["17"@, "16"@, "15"@, "11"@, "8"@],
            "15"@,
            "openjdk"@,
            "/tmp/code"@,
            "\nFROM openjdk:"@,
            "-jdk-slim-buster\n# The sed command grabs the classname from `public class Ident`\nCMD sh -c \\\n    'class=$(sed -n \"s/public\\s\\+class\\s\\+\\(\\w\\+\\).*/\\1/p\" code); \\\n     ln -s code $class.java && javac $class.java && java $class'\n"@,
        ),
        Lang::C => resolve_fixed_spec(
            pairs,
            "c-gcc"@,
            "/tmp/main.c"@,
            "\nFROM gcc:latest\nCMD sh -c 'gcc -Wall -Wextra main.c -o main && ./main'\n"@,
        ),
        Lang::Cpp => resolve_fixed_spec(
            pairs,
            "cpp-gcc"@,
            "/tmp/main.cpp"@,
            "\nFROM gcc:latest\nCMD sh -c 'g++ -Wall -Wextra main.cpp -o main && ./main'\n"@,
        ),
        Lang::Rust => resolve_fixed_spec(
            pairs,
            "rust"@,
            "/tmp/main.rs"@,
            "\nFROM rust:alpine\nCMD sh -c 'rustc main.rs -o main && ./main'\n"@,
        ),
        Lang::Fortran => resolve_fixed_spec(
            pairs,
            "fortran"@,
            "/tmp/main.f95"@,
            "\nFROM gcc:latest\nCMD sh -c 'gfortran -Wall -Wextra main.f95 -o main && ./main'\n"@,
        ),
    }
}

impl Lang {
    /// Resolves an options map into the variant's run recipe: consumes the
    /// variant's declared keys with defaults for absent ones, rejects
    /// leftover keys and unsupported values, and otherwise builds the
    /// recipe whose image name is determined by the resolved values.
    pub fn run_spec(&self, opts: Options) -> (r: Result<RunSpec, OptionsError>)
        requires
            opts.wf(),
        ensures
            match resolve_spec(*self, opts.pairs()) {
                Resolved::Spec { image, path, dockerfile } => (match r {
                    Ok(rs) => rs.image_name@ == image && rs.code_path@ == path && rs.dockerfile@
                        == dockerfile,
                    Err(_) => false,
                }),
                Resolved::UnknownKeys { keys } => (match r {
                    Err(OptionsError::UnknownKeys(ks)) => ks@.map_values(|s: String| s@) == keys,
                    _ => false,
                }),
                Resolved::UnknownValue { value } => (match r {
                    Err(OptionsError::UnknownValue(v)) => v@ == value,
                    _ => false,
                }),
            },
    {
        match *self {
            Lang::Sh => resolve_fixed(
                opts,
                "sh",
                "/tmp/run.sh",
                "\nFROM alpine:3.13\nCMD sh /tmp/run.sh\n",
            ),
            Lang::Bash => resolve_fixed(
                opts,
                "bash",
                "/tmp/run.sh",
                "\nFROM alpine:3.13\nRUN apk add --no-cache bash\nCMD bash /tmp/run.sh\n",
            ),
            Lang::Zsh => resolve_fixed(
                opts,
                "zsh",
                "/tmp/run.sh",
                "\nFROM alpine:3.13\nRUN apk add --no-cache zsh\nCMD zsh /tmp/run.sh\n",
            ),
            Lang::Python => resolve_python(opts),
            Lang::JavaScript => {
                let allowed: Vec<&'static str> = vec!["15", "14", "12", "10"];
                proof {
                    assert(allowed@.map_values(|s: &'static str| s@) =~= seq![
                        "15"@,
                        "14"@,
                        "12"@,
                        "10"@,
                    ]);
                }
                resolve_versioned(
                    opts,
                    &allowed,
                    "15",
                    "nodejs",
                    "/tmp/index.js",
                    "\nFROM node:",
                    "-alpine\nCMD node /tmp/index.js\n",
                )
            },
            Lang::Perl => resolve_fixed(
                opts,
                "perl",
                "/tmp/run.pl",
                "\nFROM perl:slim-buster\nCMD perl /tmp/run.pl\n",
            ),
            Lang::Ruby => {
                let allowed: Vec<&'static str> = vec!["3.0", "2.7", "2.6", "2.5"];
                proof {
                    assert(allowed@.map_values(|s: &'static str| s@) =~= seq![
                        "3.0"@,
                        "2.7"@,
                        "2.6"@,
                        "2.5"@,
                    ]);
                }
                resolve_versioned(
                    opts,
                    &allowed,
                    "3.0",
                    "ruby",
                    "/tmp/run.rb",
                    "\nFROM ruby:",
                    "-alpine\nCMD ruby /tmp/run.rb\n",
                )
            },
            Lang::Go => {
                let allowed: Vec<&'static str> = vec!["1.16", "1.15"];
                proof {
                    assert(allowed@.map_values(|s: &'static str| s@) =~= seq!["1.16"@, "1.15"@]);
                }
                resolve_versioned(
                    opts,
                    &allowed,
                    "1.16",
                    "golang",
                    "/tmp/main.go",
                    "\nFROM golang:",
                    "-alpine\n# So that we can build code\nENV GOCACHE=/tmp/.cache/go\nCMD go run /tmp/main.go\n",
                )
            },
            Lang::Java => {
                let allowed: Vec<&'static str> = vec!["17", "16", "15", "11", "8"];
                proof {
                    assert(allowed@.map_values(|s: &'static str| s@) =~= seq![
                        "17"@,
                        "16"@,
                        "15"@,
                        "11"@,
                        "8"@,
                    ]);
                }
                resolve_versioned(
                    opts,
                    &allowed,
                    "15",
                    "openjdk",
                    "/tmp/code",
                    "\nFROM openjdk:",
                    "-jdk-slim-buster\n# The sed command grabs the classname from `public class Ident`\nCMD sh -c \\\n    'class=$(sed -n \"s/public\\s\\+class\\s\\+\\(\\w\\+\\).*/\\1/p\" code); \\\n     ln -s code $class.java && javac $class.java && java $class'\n",
                )
            },
            Lang::C => resolve_fixed(
                opts,
                "c-gcc",
                "/tmp/main.c",
                "\nFROM gcc:latest\nCMD sh -c 'gcc -Wall -Wextra main.c -o main && ./main'\n",
            ),
            Lang::Cpp => resolve_fixed(
                opts,
                "cpp-gcc",
                "/tmp/main.cpp",
                "\nFROM gcc:latest\nCMD sh -c 'g++ -Wall -Wextra main.cpp -o main && ./main'\n",
            ),
            Lang::Rust => resolve_fixed(
                opts,
                "rust",
                "/tmp/main.rs",
                "\nFROM rust:alpine\nCMD sh -c 'rustc main.rs -o main && ./main'\n",
            ),
            Lang::Fortran => resolve_fixed(
                opts,
                "fortran",
                "/tmp/main.f95",
                "\nFROM gcc:latest\nCMD sh -c 'gfortran -Wall -Wextra main.f95 -o main && ./main'\n",
            ),
        }
    }
}

// ---------------------------------------------------------------------------
// Laws of resolution
// ---------------------------------------------------------------------------

/// Resolution is deterministic and pure: it is a function of the variant
/// and the pair list alone, and `run_spec`'s contract pins every field of
/// its result to this function, so identical inputs always give a recipe
/// with identical image name and build recipe.
pub proof fn lemma_resolve_deterministic(
    l: Lang,
    p1: Seq<(Seq<char>, Seq<char>)>,
    p2: Seq<(Seq<char>, Seq<char>)>,
)
    requires
        p1 == p2,
    ensures
        resolve_spec(l, p1) == resolve_spec(l, p2),
{
}

/// Resolving with an empty options map succeeds for every variant: each
/// declared key falls back to its default, and every default is in its
/// supported set.
pub proof fn lemma_resolve_defaults(l: Lang)
    ensures
        resolve_spec(l, Seq::<(Seq<char>, Seq<char>)>::empty()) is Spec,
{
    let pairs = Seq::<(Seq<char>, Seq<char>)>::empty();
    match l {
        Lang::Python => {
            assert(pairs_without(pairs, "version"@) =~= pairs);
            assert(pairs_without(pairs_without(pairs, "version"@), "bundle"@) =~= pairs);
        },
        Lang::JavaScript => {
            assert(pairs_without(pairs, "version"@) =~= pairs);
            assert(value_in(seq!["15"@, "14"@, "12"@, "10"@], "15"@)) by {
                assert(seq!["15"@, "14"@, "12"@, "10"@][0] == "15"@);
            }
        },
        Lang::Ruby => {
            assert(pairs_without(pairs, "version"@) =~= pairs);
            assert(value_in(seq!["3.0"@, "2.7"@, "2.6"@, "2.5"@], "3.0"@)) by {
                assert(seq!["3.0"@, "2.7"@, "2.6"@, "2.5"@][0] == "3.0"@);
            }
        },
        Lang::Go => {
            assert(pairs_without(pairs, "version"@) =~= pairs);
            assert(value_in(seq!["1.16"@, "1.15"@], "1.16"@)) by {
                assert(seq!["1.16"@, "1.15"@][0] == "1.16"@);
            }
        },
        Lang::Java => {
            assert(pairs_without(pairs, "version"@) =~= pairs);
            assert(value_in(seq!["17"@, "16"@, "15"@, "11"@, "8"@], "15"@)) by {
                assert(seq!["17"@, "16"@, "15"@, "11"@, "8"@][2] == "15"@);
            }
        },
        _ => {},
    }
}

// ---------------------------------------------------------------------------
// Global uniqueness of lookup codes
// ---------------------------------------------------------------------------

/// A query that matches any listed code of a variant finds that variant
/// and no other: the lookup codes are globally unique across the whole
/// catalog, so the catalog order of `lang_of_code` never decides.
pub proof fn lemma_codes_globally_unique(l: Lang, i: int, q: Seq<char>)
    requires
        0 <= i < codes_spec(l).len(),
        code_eq_ci(q, codes_spec(l)[i]),
    ensures
        lang_of_code(q) == Some(l),
{
    reveal_strlit("sh");
    reveal_strlit("bash");
    reveal_strlit("zsh");
    reveal_strlit("python");
    reveal_strlit("py");
    reveal_strlit("gyp");
    reveal_strlit("javascript");
    reveal_strlit("js");
    reveal_strlit("jsx");
    reveal_strlit("perl");
    reveal_strlit("pl");
    reveal_strlit("pm");
    reveal_strlit("ruby");
    reveal_strlit("rb");
    reveal_strlit("gemspec");
    reveal_strlit("podspec");
    reveal_strlit("thor");
    reveal_strlit("irb");
    reveal_strlit("go");
    reveal_strlit("golang");
    reveal_strlit("java");
    reveal_strlit("jsp");
    reveal_strlit("c");
    reveal_strlit("h");
    reveal_strlit("cpp");
    reveal_strlit("hpp");
    reveal_strlit("cc");
    reveal_strlit("hh");
    reveal_strlit("c++");
    reveal_strlit("h++");
    reveal_strlit("cxx");
    reveal_strlit("hxx");
    reveal_strlit("rust");
    reveal_strlit("rs");
    reveal_strlit("fortran");
    reveal_strlit("f90");
    reveal_strlit("f95");
    match l {
        Lang::Sh => {
            assert(codes_spec(l)[i] == "sh"@);
        },
        Lang::Bash => {
            assert(codes_spec(l)[i] == "bash"@);
        },
        Lang::Zsh => {
            assert(codes_spec(l)[i] == "zsh"@);
        },
        Lang::Python => {
            if i == 0 {
                assert(codes_spec(l)[i] == "python"@);
            }
            else if i == 1 {
                assert(codes_spec(l)[i] == "py"@);
                assert(!code_eq_ci(q, "sh"@)) by {
                    if code_eq_ci(q, "sh"@) {
                        assert(lower_code_point("py"@[0]) == lower_code_point(q[0]));
                        assert(lower_code_point("sh"@[0]) == lower_code_point(q[0]));
                    }
                }
            }
            else {
                assert(codes_spec(l)[i] == "gyp"@);
                assert(!code_eq_ci(q, "zsh"@)) by {
                    if code_eq_ci(q, "zsh"@) {
                        assert(lower_code_point("gyp"@[0]) == lower_code_point(q[0]));
                        assert(lower_code_point("zsh"@[0]) == lower_code_point(q[0]));
                    }
                }
            }
        },
        Lang::JavaScript => {
            if i == 0 {
                assert(codes_spec(l)[i] == "javascript"@);
            }
            else if i == 1 {
                assert(codes_spec(l)[i] == "js"@);
                assert(!code_eq_ci(q, "sh"@)) by {
                    if code_eq_ci(q, "sh"@) {
                        assert(lower_code_point("js"@[0]) == lower_code_point(q[0]));
                        assert(lower_code_point("sh"@[0]) == lower_code_point(q[0]));
                    }
                }
                assert(!code_eq_ci(q, "py"@)) by {
                    if code_eq_ci(q, "py"@) {
                        assert(lower_code_point("js"@[0]) == lower_code_point(q[0]));
                        assert(lower_code_point("py"@[0]) == lower_code_point(q[0]));
                    }
                }
            }
            else {
                assert(codes_spec(l)[i] == "jsx"@);
                assert(!code_eq_ci(q, "zsh"@)) by {
                    if code_eq_ci(q, "zsh"@) {
                        assert(lower_code_point("jsx"@[0]) == lower_code_point(q[0]));
                        assert(lower_code_point("zsh"@[0]) == lower_code_point(q[0]));
                    }
                }
                assert(!code_eq_ci(q, "gyp"@)) by {
                    if code_eq_ci(q, "gyp"@) {
                        assert(lower_code_point("jsx"@[0]) == lower_code_point(q[0]));
                        assert(lower_code_point("gyp"@[0]) == lower_code_point(q[0]));
                    }
                }
            }
        },
        Lang::Perl => {
            if i == 0 {
                assert(codes_spec(l)[i] == "perl"@);
                assert(!code_eq_ci(q, "bash"@)) by {
                    if code_eq_ci(q, "bash"@) {
                        assert(lower_code_point("perl"@[0]) == lower_code_point(q[0]));
                        assert(lower_code_point("bash"@[0]) == lower_code_point(q[0]));
                    }
                }
            }
            else if i == 1 {
                assert(codes_spec(l)[i] == "pl"@);
                assert(!code_eq_ci(q, "sh"@)) by {
                    if code_eq_ci(q, "sh"@) {
                        assert(lower_code_point("pl"@[0]) == lower_code_point(q[0]));
                        assert(lower_code_point("sh"@[0]) == lower_code_point(q[0]));
                    }
                }
                assert(!code_eq_ci(q, "py"@)) by {
                    if code_eq_ci(q, "py"@) {
                        assert(lower_code_point("pl"@[1]) == lower_code_point(q[1]));
                        assert(lower_code_point("py"@[1]) == lower_code_point(q[1]));
                    }
                }
                assert(!code_eq_ci(q, "js"@)) by {
                    if code_eq_ci(q, "js"@) {
                        assert(lower_code_point("pl"@[0]) == lower_code_point(q[0]));
                        assert(lower_code_point("js"@[0]) == lower_code_point(q[0]));
                    }
                }
            }
            else {
                assert(codes_spec(l)[i] == "pm"@);
                assert(!code_eq_ci(q, "sh"@)) by {
                    if code_eq_ci(q, "sh"@) {
                        assert(lower_code_point("pm"@[0]) == lower_code_point(q[0]));
                        assert(lower_code_point("sh"@[0]) == lower_code_point(q[0]));
                    }
                }
                assert(!code_eq_ci(q, "py"@)) by {
                    if code_eq_ci(q, "py"@) {
                        assert(lower_code_point("pm"@[1]) == lower_code_point(q[1]));
                        assert(lower_code_point("py"@[1]) == lower_code_point(q[1]));
                    }
                }
                assert(!code_eq_ci(q, "js"@)) by {
                    if code_eq_ci(q, "js"@) {
                        assert(lower_code_point("pm"@[0]) == lower_code_point(q[0]));
                        assert(lower_code_point("js"@[0]) == lower_code_point(q[0]));
                    }
                }
            }
        },
        Lang::Ruby => {
            if i == 0 {
                assert(codes_spec(l)[i] == "ruby"@);
                assert(!code_eq_ci(q, "bash"@)) by {
                    if code_eq_ci(q, "bash"@) {
                        assert(lower_code_point("ruby"@[0]) == lower_code_point(q[0]));
                        assert(lower_code_point("bash"@[0]) == lower_code_point(q[0]));
                    }
                }
                assert(!code_eq_ci(q, "perl"@)) by {
                    if code_eq_ci(q, "perl"@) {
                        assert(lower_code_point("ruby"@[0]) == lower_code_point(q[0]));
                        assert(lower_code_point("perl"@[0]) == lower_code_point(q[0]));
                    }
                }
            }
            else if i == 1 {
                assert(codes_spec(l)[i] == "rb"@);
                assert(!code_eq_ci(q, "sh"@)) by {
                    if code_eq_ci(q, "sh"@) {
                        assert(lower_code_point("rb"@[0]) == lower_code_point(q[0]));
                        assert(lower_code_point("sh"@[0]) == lower_code_point(q[0]));
                    }
                }
                assert(!code_eq_ci(q, "py"@)) by {
                    if code_eq_ci(q, "py"@) {
                        assert(lower_code_point("rb"@[0]) == lower_code_point(q[0]));
                        assert(lower_code_point("py"@[0]) == lower_code_point(q[0]));
                    }
                }
                assert(!code_eq_ci(q, "js"@)) by {
                    if code_eq_ci(q, "js"@) {
                        assert(lower_code_point("rb"@[0]) == lower_code_point(q[0]));
                        assert(lower_code_point("js"@[0]) == lower_code_point(q[0]));
                    }
                }
                assert(!code_eq_ci(q, "pl"@)) by {
                    if code_eq_ci(q, "pl"@) {
                        assert(lower_code_point("rb"@[0]) == lower_code_point(q[0]));
                        assert(lower_code_point("pl"@[0]) == lower_code_point(q[0]));
                    }
                }
                assert(!code_eq_ci(q, "pm"@)) by {
                    if code_eq_ci(q, "pm"@) {
                        assert(lower_code_point("rb"@[0]) == lower_code_point(q[0]));
                        assert(lower_code_point("pm"@[0]) == lower_code_point(q[0]));
                    }
                }
            }
            else if i == 2 {
                assert(codes_spec(l)[i] == "gemspec"@);
            }
            else if i == 3 {
                assert(codes_spec(l)[i] == "podspec"@);
            }
            else if i == 4 {
                assert(codes_spec(l)[i] == "thor"@);
                assert(!code_eq_ci(q, "bash"@)) by {
                    if code_eq_ci(q, "bash"@) {
                        assert(lower_code_point("thor"@[0]) == lower_code_point(q[0]));
                        assert(lower_code_point("bash"@[0]) == lower_code_point(q[0]));
                    }
                }
                assert(!code_eq_ci(q, "perl"@)) by {
                    if code_eq_ci(q, "perl"@) {
                        assert(lower_code_point("thor"@[0]) == lower_code_point(q[0]));
                        assert(lower_code_point("perl"@[0]) == lower_code_point(q[0]));
                    }
                }
            }
            else {
                assert(codes_spec(l)[i] == "irb"@);
                assert(!code_eq_ci(q, "zsh"@)) by {
                    if code_eq_ci(q, "zsh"@) {
                        assert(lower_code_point("irb"@[0]) == lower_code_point(q[0]));
                        assert(lower_code_point("zsh"@[0]) == lower_code_point(q[0]));
                    }
                }
                assert(!code_eq_ci(q, "gyp"@)) by {
                    if code_eq_ci(q, "gyp"@) {
                        assert(lower_code_point("irb"@[0]) == lower_code_point(q[0]));
                        assert(lower_code_point("gyp"@[0]) == lower_code_point(q[0]));
                    }
                }
                assert(!code_eq_ci(q, "jsx"@)) by {
                    if code_eq_ci(q, "jsx"@) {
                        assert(lower_code_point("irb"@[0]) == lower_code_point(q[0]));
                        assert(lower_code_point("jsx"@[0]) == lower_code_point(q[0]));
                    }
                }
            }
        },
        Lang::Go => {
            if i == 0 {
                assert(codes_spec(l)[i] == "go"@);
                assert(!code_eq_ci(q, "sh"@)) by {
                    if code_eq_ci(q, "sh"@) {
                        assert(lower_code_point("go"@[0]) == lower_code_point(q[0]));
                        assert(lower_code_point("sh"@[0]) == lower_code_point(q[0]));
                    }
                }
                assert(!code_eq_ci(q, "py"@)) by {
                    if code_eq_ci(q, "py"@) {
                        assert(lower_code_point("go"@[0]) == lower_code_point(q[0]));
                        assert(lower_code_point("py"@[0]) == lower_code_point(q[0]));
                    }
                }
                assert(!code_eq_ci(q, "js"@)) by {
                    if code_eq_ci(q, "js"@) {
                        assert(lower_code_point("go"@[0]) == lower_code_point(q[0]));
                        assert(lower_code_point("js"@[0]) == lower_code_point(q[0]));
                    }
                }
                assert(!code_eq_ci(q, "pl"@)) by {
                    if code_eq_ci(q, "pl"@) {
                        assert(lower_code_point("go"@[0]) == lower_code_point(q[0]));
                        assert(lower_code_point("pl"@[0]) == lower_code_point(q[0]));
                    }
                }
                assert(!code_eq_ci(q, "pm"@)) by {
                    if code_eq_ci(q, "pm"@) {
                        assert(lower_code_point("go"@[0]) == lower_code_point(q[0]));
                        assert(lower_code_point("pm"@[0]) == lower_code_point(q[0]));
                    }
                }
                assert(!code_eq_ci(q, "rb"@)) by {
                    if code_eq_ci(q, "rb"@) {
                        assert(lower_code_point("go"@[0]) == lower_code_point(q[0]));
                        assert(lower_code_point("rb"@[0]) == lower_code_point(q[0]));
                    }
                }
            }
            else {
                assert(codes_spec(l)[i] == "golang"@);
                assert(!code_eq_ci(q, "python"@)) by {
                    if code_eq_ci(q, "python"@) {
                        assert(lower_code_point("golang"@[0]) == lower_code_point(q[0]));
                        assert(lower_code_point("python"@[0]) == lower_code_point(q[0]));
                    }
                }
            }
        },
        Lang::Java => {
            if i == 0 {
                assert(codes_spec(l)[i] == "java"@);
                assert(!code_eq_ci(q, "bash"@)) by {
                    if code_eq_ci(q, "bash"@) {
                        assert(lower_code_point("java"@[0]) == lower_code_point(q[0]));
                        assert(lower_code_point("bash"@[0]) == lower_code_point(q[0]));
                    }
                }
                assert(!code_eq_ci(q, "perl"@)) by {
                    if code_eq_ci(q, "perl"@) {
                        assert(lower_code_point("java"@[0]) == lower_code_point(q[0]));
                        assert(lower_code_point("perl"@[0]) == lower_code_point(q[0]));
                    }
                }
                assert(!code_eq_ci(q, "ruby"@)) by {
                    if code_eq_ci(q, "ruby"@) {
                        assert(lower_code_point("java"@[0]) == lower_code_point(q[0]));
                        assert(lower_code_point("ruby"@[0]) == lower_code_point(q[0]));
                    }
                }
                assert(!code_eq_ci(q, "thor"@)) by {
                    if code_eq_ci(q, "thor"@) {
                        assert(lower_code_point("java"@[0]) == lower_code_point(q[0]));
                        assert(lower_code_point("thor"@[0]) == lower_code_point(q[0]));
                    }
                }
            }
            else {
                assert(codes_spec(l)[i] == "jsp"@);
                assert(!code_eq_ci(q, "zsh"@)) by {
                    if code_eq_ci(q, "zsh"@) {
                        assert(lower_code_point("jsp"@[0]) == lower_code_point(q[0]));
                        assert(lower_code_point("zsh"@[0]) == lower_code_point(q[0]));
                    }
                }
                assert(!code_eq_ci(q, "gyp"@)) by {
                    if code_eq_ci(q, "gyp"@) {
                        assert(lower_code_point("jsp"@[0]) == lower_code_point(q[0]));
                        assert(lower_code_point("gyp"@[0]) == lower_code_point(q[0]));
                    }
                }
                assert(!code_eq_ci(q, "jsx"@)) by {
                    if code_eq_ci(q, "jsx"@) {
                        assert(lower_code_point("jsp"@[2]) == lower_code_point(q[2]));
                        assert(lower_code_point("jsx"@[2]) == lower_code_point(q[2]));
                    }
                }
                assert(!code_eq_ci(q, "irb"@)) by {
                    if code_eq_ci(q, "irb"@) {
                        assert(lower_code_point("jsp"@[0]) == lower_code_point(q[0]));
                        assert(lower_code_point("irb"@[0]) == lower_code_point(q[0]));
                    }
                }
            }
        },
        Lang::C => {
            if i == 0 {
                assert(codes_spec(l)[i] == "c"@);
            }
            else {
                assert(codes_spec(l)[i] == "h"@);
            }
        },
        Lang::Cpp => {
            if i == 0 {
                assert(codes_spec(l)[i] == "cpp"@);
                assert(!code_eq_ci(q, "zsh"@)) by {
                    if code_eq_ci(q, "zsh"@) {
                        assert(lower_code_point("cpp"@[0]) == lower_code_point(q[0]));
                        assert(lower_code_point("zsh"@[0]) == lower_code_point(q[0]));
                    }
                }
                assert(!code_eq_ci(q, "gyp"@)) by {
                    if code_eq_ci(q, "gyp"@) {
                        assert(lower_code_point("cpp"@[0]) == lower_code_point(q[0]));
                        assert(lower_code_point("gyp"@[0]) == lower_code_point(q[0]));
                    }
                }
                assert(!code_eq_ci(q, "jsx"@)) by {
                    if code_eq_ci(q, "jsx"@) {
                        assert(lower_code_point("cpp"@[0]) == lower_code_point(q[0]));
                        assert(lower_code_point("jsx"@[0]) == lower_code_point(q[0]));
                    }
                }
                assert(!code_eq_ci(q, "irb"@)) by {
                    if code_eq_ci(q, "irb"@) {
                        assert(lower_code_point("cpp"@[0]) == lower_code_point(q[0]));
                        assert(lower_code_point("irb"@[0]) == lower_code_point(q[0]));
                    }
                }
                assert(!code_eq_ci(q, "jsp"@)) by {
                    if code_eq_ci(q, "jsp"@) {
                        assert(lower_code_point("cpp"@[0]) == lower_code_point(q[0]));
                        assert(lower_code_point("jsp"@[0]) == lower_code_point(q[0]));
                    }
                }
            }
            else if i == 1 {
                assert(codes_spec(l)[i] == "hpp"@);
                assert(!code_eq_ci(q, "zsh"@)) by {
                    if code_eq_ci(q, "zsh"@) {
                        assert(lower_code_point("hpp"@[0]) == lower_code_point(q[0]));
                        assert(lower_code_point("zsh"@[0]) == lower_code_point(q[0]));
                    }
                }
                assert(!code_eq_ci(q, "gyp"@)) by {
                    if code_eq_ci(q, "gyp"@) {
                        assert(lower_code_point("hpp"@[0]) == lower_code_point(q[0]));
                        assert(lower_code_point("gyp"@[0]) == lower_code_point(q[0]));
                    }
                }
                assert(!code_eq_ci(q, "jsx"@)) by {
                    if code_eq_ci(q, "jsx"@) {
                        assert(lower_code_point("hpp"@[0]) == lower_code_point(q[0]));
                        assert(lower_code_point("jsx"@[0]) == lower_code_point(q[0]));
                    }
                }
                assert(!code_eq_ci(q, "irb"@)) by {
                    if code_eq_ci(q, "irb"@) {
                        assert(lower_code_point("hpp"@[0]) == lower_code_point(q[0]));
                        assert(lower_code_point("irb"@[0]) == lower_code_point(q[0]));
                    }
                }
                assert(!code_eq_ci(q, "jsp"@)) by {
                    if code_eq_ci(q, "jsp"@) {
                        assert(lower_code_point("hpp"@[0]) == lower_code_point(q[0]));
                        assert(lower_code_point("jsp"@[0]) == lower_code_point(q[0]));
                    }
                }
            }
            else if i == 2 {
                assert(codes_spec(l)[i] == "cc"@);
                assert(!code_eq_ci(q, "sh"@)) by {
                    if code_eq_ci(q, "sh"@) {
                        assert(lower_code_point("cc"@[0]) == lower_code_point(q[0]));
                        assert(lower_code_point("sh"@[0]) == lower_code_point(q[0]));
                    }
                }
                assert(!code_eq_ci(q, "py"@)) by {
                    if code_eq_ci(q, "py"@) {
                        assert(lower_code_point("cc"@[0]) == lower_code_point(q[0]));
                        assert(lower_code_point("py"@[0]) == lower_code_point(q[0]));
                    }
                }
                assert(!code_eq_ci(q, "js"@)) by {
                    if code_eq_ci(q, "js"@) {
                        assert(lower_code_point("cc"@[0]) == lower_code_point(q[0]));
                        assert(lower_code_point("js"@[0]) == lower_code_point(q[0]));
                    }
                }
                assert(!code_eq_ci(q, "pl"@)) by {
                    if code_eq_ci(q, "pl"@) {
                        assert(lower_code_point("cc"@[0]) == lower_code_point(q[0]));
                        assert(lower_code_point("pl"@[0]) == lower_code_point(q[0]));
                    }
                }
                assert(!code_eq_ci(q, "pm"@)) by {
                    if code_eq_ci(q, "pm"@) {
                        assert(lower_code_point("cc"@[0]) == lower_code_point(q[0]));
                        assert(lower_code_point("pm"@[0]) == lower_code_point(q[0]));
                    }
                }
                assert(!code_eq_ci(q, "rb"@)) by {
                    if code_eq_ci(q, "rb"@) {
                        assert(lower_code_point("cc"@[0]) == lower_code_point(q[0]));
                        assert(lower_code_point("rb"@[0]) == lower_code_point(q[0]));
                    }
                }
                assert(!code_eq_ci(q, "go"@)) by {
                    if code_eq_ci(q, "go"@) {
                        assert(lower_code_point("cc"@[0]) == lower_code_point(q[0]));
                        assert(lower_code_point("go"@[0]) == lower_code_point(q[0]));
                    }
                }
            }
            else if i == 3 {
                assert(codes_spec(l)[i] == "hh"@);
                assert(!code_eq_ci(q, "sh"@)) by {
                    if code_eq_ci(q, "sh"@) {
                        assert(lower_code_point("hh"@[0]) == lower_code_point(q[0]));
                        assert(lower_code_point("sh"@[0]) == lower_code_point(q[0]));
                    }
                }
                assert(!code_eq_ci(q, "py"@)) by {
                    if code_eq_ci(q, "py"@) {
                        assert(lower_code_point("hh"@[0]) == lower_code_point(q[0]));
                        assert(lower_code_point("py"@[0]) == lower_code_point(q[0]));
                    }
                }
                assert(!code_eq_ci(q, "js"@)) by {
                    if code_eq_ci(q, "js"@) {
                        assert(lower_code_point("hh"@[0]) == lower_code_point(q[0]));
                        assert(lower_code_point("js"@[0]) == lower_code_point(q[0]));
                    }
                }
                assert(!code_eq_ci(q, "pl"@)) by {
                    if code_eq_ci(q, "pl"@) {
                        assert(lower_code_point("hh"@[0]) == lower_code_point(q[0]));
                        assert(lower_code_point("pl"@[0]) == lower_code_point(q[0]));
                    }
                }
                assert(!code_eq_ci(q, "pm"@)) by {
                    if code_eq_ci(q, "pm"@) {
                        assert(lower_code_point("hh"@[0]) == lower_code_point(q[0]));
                        assert(lower_code_point("pm"@[0]) == lower_code_point(q[0]));
                    }
                }
                assert(!code_eq_ci(q, "rb"@)) by {
                    if code_eq_ci(q, "rb"@) {
                        assert(lower_code_point("hh"@[0]) == lower_code_point(q[0]));
                        assert(lower_code_point("rb"@[0]) == lower_code_point(q[0]));
                    }
                }
                assert(!code_eq_ci(q, "go"@)) by {
                    if code_eq_ci(q, "go"@) {
                        assert(lower_code_point("hh"@[0]) == lower_code_point(q[0]));
                        assert(lower_code_point("go"@[0]) == lower_code_point(q[0]));
                    }
                }
            }
            else if i == 4 {
                assert(codes_spec(l)[i] == "c++"@);
                assert(!code_eq_ci(q, "zsh"@)) by {
                    if code_eq_ci(q, "zsh"@) {
                        assert(lower_code_point("c++"@[0]) == lower_code_point(q[0]));
                        assert(lower_code_point("zsh"@[0]) == lower_code_point(q[0]));
                    }
                }
                assert(!code_eq_ci(q, "gyp"@)) by {
                    if code_eq_ci(q, "gyp"@) {
                        assert(lower_code_point("c++"@[0]) == lower_code_point(q[0]));
                        assert(lower_code_point("gyp"@[0]) == lower_code_point(q[0]));
                    }
                }
                assert(!code_eq_ci(q, "jsx"@)) by {
                    if code_eq_ci(q, "jsx"@) {
                        assert(lower_code_point("c++"@[0]) == lower_code_point(q[0]));
                        assert(lower_code_point("jsx"@[0]) == lower_code_point(q[0]));
                    }
                }
                assert(!code_eq_ci(q, "irb"@)) by {
                    if code_eq_ci(q, "irb"@) {
                        assert(lower_code_point("c++"@[0]) == lower_code_point(q[0]));
                        assert(lower_code_point("irb"@[0]) == lower_code_point(q[0]));
                    }
                }
                assert(!code_eq_ci(q, "jsp"@)) by {
                    if code_eq_ci(q, "jsp"@) {
                        assert(lower_code_point("c++"@[0]) == lower_code_point(q[0]));
                        assert(lower_code_point("jsp"@[0]) == lower_code_point(q[0]));
                    }
                }
            }
            else if i == 5 {
                assert(codes_spec(l)[i] == "h++"@);
                assert(!code_eq_ci(q, "zsh"@)) by {
                    if code_eq_ci(q, "zsh"@) {
                        assert(lower_code_point("h++"@[0]) == lower_code_point(q[0]));
                        assert(lower_code_point("zsh"@[0]) == lower_code_point(q[0]));
                    }
                }
                assert(!code_eq_ci(q, "gyp"@)) by {
                    if code_eq_ci(q, "gyp"@) {
                        assert(lower_code_point("h++"@[0]) == lower_code_point(q[0]));
                        assert(lower_code_point("gyp"@[0]) == lower_code_point(q[0]));
                    }
                }
                assert(!code_eq_ci(q, "jsx"@)) by {
                    if code_eq_ci(q, "jsx"@) {
                        assert(lower_code_point("h++"@[0]) == lower_code_point(q[0]));
                        assert(lower_code_point("jsx"@[0]) == lower_code_point(q[0]));
                    }
                }
                assert(!code_eq_ci(q, "irb"@)) by {
                    if code_eq_ci(q, "irb"@) {
                        assert(lower_code_point("h++"@[0]) == lower_code_point(q[0]));
                        assert(lower_code_point("irb"@[0]) == lower_code_point(q[0]));
                    }
                }
                assert(!code_eq_ci(q, "jsp"@)) by {
                    if code_eq_ci(q, "jsp"@) {
                        assert(lower_code_point("h++"@[0]) == lower_code_point(q[0]));
                        assert(lower_code_point("jsp"@[0]) == lower_code_point(q[0]));
                    }
                }
            }
            else if i == 6 {
                assert(codes_spec(l)[i] == "cxx"@);
                assert(!code_eq_ci(q, "zsh"@)) by {
                    if code_eq_ci(q, "zsh"@) {
                        assert(lower_code_point("cxx"@[0]) == lower_code_point(q[0]));
                        assert(lower_code_point("zsh"@[0]) == lower_code_point(q[0]));
                    }
                }
                assert(!code_eq_ci(q, "gyp"@)) by {
                    if code_eq_ci(q, "gyp"@) {
                        assert(lower_code_point("cxx"@[0]) == lower_code_point(q[0]));
                        assert(lower_code_point("gyp"@[0]) == lower_code_point(q[0]));
                    }
                }
                assert(!code_eq_ci(q, "jsx"@)) by {
                    if code_eq_ci(q, "jsx"@) {
                        assert(lower_code_point("cxx"@[0]) == lower_code_point(q[0]));
                        assert(lower_code_point("jsx"@[0]) == lower_code_point(q[0]));
                    }
                }
                assert(!code_eq_ci(q, "irb"@)) by {
                    if code_eq_ci(q, "irb"@) {
                        assert(lower_code_point("cxx"@[0]) == lower_code_point(q[0]));
                        assert(lower_code_point("irb"@[0]) == lower_code_point(q[0]));
                    }
                }
                assert(!code_eq_ci(q, "jsp"@)) by {
                    if code_eq_ci(q, "jsp"@) {
                        assert(lower_code_point("cxx"@[0]) == lower_code_point(q[0]));
                        assert(lower_code_point("jsp"@[0]) == lower_code_point(q[0]));
                    }
                }
            }
            else {
                assert(codes_spec(l)[i] == "hxx"@);
                assert(!code_eq_ci(q, "zsh"@)) by {
                    if code_eq_ci(q, "zsh"@) {
                        assert(lower_code_point("hxx"@[0]) == lower_code_point(q[0]));
                        assert(lower_code_point("zsh"@[0]) == lower_code_point(q[0]));
                    }
                }
                assert(!code_eq_ci(q, "gyp"@)) by {
                    if code_eq_ci(q, "gyp"@) {
                        assert(lower_code_point("hxx"@[0]) == lower_code_point(q[0]));
                        assert(lower_code_point("gyp"@[0]) == lower_code_point(q[0]));
                    }
                }
                assert(!code_eq_ci(q, "jsx"@)) by {
                    if code_eq_ci(q, "jsx"@) {
                        assert(lower_code_point("hxx"@[0]) == lower_code_point(q[0]));
                        assert(lower_code_point("jsx"@[0]) == lower_code_point(q[0]));
                    }
                }
                assert(!code_eq_ci(q, "irb"@)) by {
                    if code_eq_ci(q, "irb"@) {
                        assert(lower_code_point("hxx"@[0]) == lower_code_point(q[0]));
                        assert(lower_code_point("irb"@[0]) == lower_code_point(q[0]));
                    }
                }
                assert(!code_eq_ci(q, "jsp"@)) by {
                    if code_eq_ci(q, "jsp"@) {
                        assert(lower_code_point("hxx"@[0]) == lower_code_point(q[0]));
                        assert(lower_code_point("jsp"@[0]) == lower_code_point(q[0]));
                    }
                }
            }
        },
        Lang::Rust => {
            if i == 0 {
                assert(codes_spec(l)[i] == "rust"@);
                assert(!code_eq_ci(q, "bash"@)) by {
                    if code_eq_ci(q, "bash"@) {
                        assert(lower_code_point("rust"@[0]) == lower_code_point(q[0]));
                        assert(lower_code_point("bash"@[0]) == lower_code_point(q[0]));
                    }
                }
                assert(!code_eq_ci(q, "perl"@)) by {
                    if code_eq_ci(q, "perl"@) {
                        assert(lower_code_point("rust"@[0]) == lower_code_point(q[0]));
                        assert(lower_code_point("perl"@[0]) == lower_code_point(q[0]));
                    }
                }
                assert(!code_eq_ci(q, "ruby"@)) by {
                    if code_eq_ci(q, "ruby"@) {
                        assert(lower_code_point("rust"@[2]) == lower_code_point(q[2]));
                        assert(lower_code_point("ruby"@[2]) == lower_code_point(q[2]));
                    }
                }
                assert(!code_eq_ci(q, "thor"@)) by {
                    if code_eq_ci(q, "thor"@) {
                        assert(lower_code_point("rust"@[0]) == lower_code_point(q[0]));
                        assert(lower_code_point("thor"@[0]) == lower_code_point(q[0]));
                    }
                }
                assert(!code_eq_ci(q, "java"@)) by {
                    if code_eq_ci(q, "java"@) {
                        assert(lower_code_point("rust"@[0]) == lower_code_point(q[0]));
                        assert(lower_code_point("java"@[0]) == lower_code_point(q[0]));
                    }
                }
            }
            else {
                assert(codes_spec(l)[i] == "rs"@);
                assert(!code_eq_ci(q, "sh"@)) by {
                    if code_eq_ci(q, "sh"@) {
                        assert(lower_code_point("rs"@[0]) == lower_code_point(q[0]));
                        assert(lower_code_point("sh"@[0]) == lower_code_point(q[0]));
                    }
                }
                assert(!code_eq_ci(q, "py"@)) by {
                    if code_eq_ci(q, "py"@) {
                        assert(lower_code_point("rs"@[0]) == lower_code_point(q[0]));
                        assert(lower_code_point("py"@[0]) == lower_code_point(q[0]));
                    }
                }
                assert(!code_eq_ci(q, "js"@)) by {
                    if code_eq_ci(q, "js"@) {
                        assert(lower_code_point("rs"@[0]) == lower_code_point(q[0]));
                        assert(lower_code_point("js"@[0]) == lower_code_point(q[0]));
                    }
                }
                assert(!code_eq_ci(q, "pl"@)) by {
                    if code_eq_ci(q, "pl"@) {
                        assert(lower_code_point("rs"@[0]) == lower_code_point(q[0]));
                        assert(lower_code_point("pl"@[0]) == lower_code_point(q[0]));
                    }
                }
                assert(!code_eq_ci(q, "pm"@)) by {
                    if code_eq_ci(q, "pm"@) {
                        assert(lower_code_point("rs"@[0]) == lower_code_point(q[0]));
                        assert(lower_code_point("pm"@[0]) == lower_code_point(q[0]));
                    }
                }
                assert(!code_eq_ci(q, "rb"@)) by {
                    if code_eq_ci(q, "rb"@) {
                        assert(lower_code_point("rs"@[1]) == lower_code_point(q[1]));
                        assert(lower_code_point("rb"@[1]) == lower_code_point(q[1]));
                    }
                }
                assert(!code_eq_ci(q, "go"@)) by {
                    if code_eq_ci(q, "go"@) {
                        assert(lower_code_point("rs"@[0]) == lower_code_point(q[0]));
                        assert(lower_code_point("go"@[0]) == lower_code_point(q[0]));
                    }
                }
                assert(!code_eq_ci(q, "cc"@)) by {
                    if code_eq_ci(q, "cc"@) {
                        assert(lower_code_point("rs"@[0]) == lower_code_point(q[0]));
                        assert(lower_code_point("cc"@[0]) == lower_code_point(q[0]));
                    }
                }
                assert(!code_eq_ci(q, "hh"@)) by {
                    if code_eq_ci(q, "hh"@) {
                        assert(lower_code_point("rs"@[0]) == lower_code_point(q[0]));
                        assert(lower_code_point("hh"@[0]) == lower_code_point(q[0]));
                    }
                }
            }
        },
        Lang::Fortran => {
            if i == 0 {
                assert(codes_spec(l)[i] == "fortran"@);
                assert(!code_eq_ci(q, "gemspec"@)) by {
                    if code_eq_ci(q, "gemspec"@) {
                        assert(lower_code_point("fortran"@[0]) == lower_code_point(q[0]));
                        assert(lower_code_point("gemspec"@[0]) == lower_code_point(q[0]));
                    }
                }
                assert(!code_eq_ci(q, "podspec"@)) by {
                    if code_eq_ci(q, "podspec"@) {
                        assert(lower_code_point("fortran"@[0]) == lower_code_point(q[0]));
                        assert(lower_code_point("podspec"@[0]) == lower_code_point(q[0]));
                    }
                }
            }
            else if i == 1 {
                assert(codes_spec(l)[i] == "f90"@);
                assert(!code_eq_ci(q, "zsh"@)) by {
                    if code_eq_ci(q, "zsh"@) {
                        assert(lower_code_point("f90"@[0]) == lower_code_point(q[0]));
                        assert(lower_code_point("zsh"@[0]) == lower_code_point(q[0]));
                    }
                }
                assert(!code_eq_ci(q, "gyp"@)) by {
                    if code_eq_ci(q, "gyp"@) {
                        assert(lower_code_point("f90"@[0]) == lower_code_point(q[0]));
                        assert(lower_code_point("gyp"@[0]) == lower_code_point(q[0]));
                    }
                }
                assert(!code_eq_ci(q, "jsx"@)) by {
                    if code_eq_ci(q, "jsx"@) {
                        assert(lower_code_point("f90"@[0]) == lower_code_point(q[0]));
                        assert(lower_code_point("jsx"@[0]) == lower_code_point(q[0]));
                    }
                }
                assert(!code_eq_ci(q, "irb"@)) by {
                    if code_eq_ci(q, "irb"@) {
                        assert(lower_code_point("f90"@[0]) == lower_code_point(q[0]));
                        assert(lower_code_point("irb"@[0]) == lower_code_point(q[0]));
                    }
                }
                assert(!code_eq_ci(q, "jsp"@)) by {
                    if code_eq_ci(q, "jsp"@) {
                        assert(lower_code_point("f90"@[0]) == lower_code_point(q[0]));
                        assert(lower_code_point("jsp"@[0]) == lower_code_point(q[0]));
                    }
                }
                assert(!code_eq_ci(q, "cpp"@)) by {
                    if code_eq_ci(q, "cpp"@) {
                        assert(lower_code_point("f90"@[0]) == lower_code_point(q[0]));
                        assert(lower_code_point("cpp"@[0]) == lower_code_point(q[0]));
                    }
                }
                assert(!code_eq_ci(q, "hpp"@)) by {
                    if code_eq_ci(q, "hpp"@) {
                        assert(lower_code_point("f90"@[0]) == lower_code_point(q[0]));
                        assert(lower_code_point("hpp"@[0]) == lower_code_point(q[0]));
                    }
                }
                assert(!code_eq_ci(q, "c++"@)) by {
                    if code_eq_ci(q, "c++"@) {
                        assert(lower_code_point("f90"@[0]) == lower_code_point(q[0]));
                        assert(lower_code_point("c++"@[0]) == lower_code_point(q[0]));
                    }
                }
                assert(!code_eq_ci(q, "h++"@)) by {
                    if code_eq_ci(q, "h++"@) {
                        assert(lower_code_point("f90"@[0]) == lower_code_point(q[0]));
                        assert(lower_code_point("h++"@[0]) == lower_code_point(q[0]));
                    }
                }
                assert(!code_eq_ci(q, "cxx"@)) by {
                    if code_eq_ci(q, "cxx"@) {
                        assert(lower_code_point("f90"@[0]) == lower_code_point(q[0]));
                        assert(lower_code_point("cxx"@[0]) == lower_code_point(q[0]));
                    }
                }
                assert(!code_eq_ci(q, "hxx"@)) by {
                    if code_eq_ci(q, "hxx"@) {
                        assert(lower_code_point("f90"@[0]) == lower_code_point(q[0]));
                        assert(lower_code_point("hxx"@[0]) == lower_code_point(q[0]));
                    }
                }
            }
            else {
                assert(codes_spec(l)[i] == "f95"@);
                assert(!code_eq_ci(q, "zsh"@)) by {
                    if code_eq_ci(q, "zsh"@) {
                        assert(lower_code_point("f95"@[0]) == lower_code_point(q[0]));
                        assert(lower_code_point("zsh"@[0]) == lower_code_point(q[0]));
                    }
                }
                assert(!code_eq_ci(q, "gyp"@)) by {
                    if code_eq_ci(q, "gyp"@) {
                        assert(lower_code_point("f95"@[0]) == lower_code_point(q[0]));
                        assert(lower_code_point("gyp"@[0]) == lower_code_point(q[0]));
                    }
                }
                assert(!code_eq_ci(q, "jsx"@)) by {
                    if code_eq_ci(q, "jsx"@) {
                        assert(lower_code_point("f95"@[0]) == lower_code_point(q[0]));
                        assert(lower_code_point("jsx"@[0]) == lower_code_point(q[0]));
                    }
                }
                assert(!code_eq_ci(q, "irb"@)) by {
                    if code_eq_ci(q, "irb"@) {
                        assert(lower_code_point("f95"@[0]) == lower_code_point(q[0]));
                        assert(lower_code_point("irb"@[0]) == lower_code_point(q[0]));
                    }
                }
                assert(!code_eq_ci(q, "jsp"@)) by {
                    if code_eq_ci(q, "jsp"@) {
                        assert(lower_code_point("f95"@[0]) == lower_code_point(q[0]));
                        assert(lower_code_point("jsp"@[0]) == lower_code_point(q[0]));
                    }
                }
                assert(!code_eq_ci(q, "cpp"@)) by {
                    if code_eq_ci(q, "cpp"@) {
                        assert(lower_code_point("f95"@[0]) == lower_code_point(q[0]));
                        assert(lower_code_point("cpp"@[0]) == lower_code_point(q[0]));
                    }
                }
                assert(!code_eq_ci(q, "hpp"@)) by {
                    if code_eq_ci(q, "hpp"@) {
                        assert(lower_code_point("f95"@[0]) == lower_code_point(q[0]));
                        assert(lower_code_point("hpp"@[0]) == lower_code_point(q[0]));
                    }
                }
                assert(!code_eq_ci(q, "c++"@)) by {
                    if code_eq_ci(q, "c++"@) {
                        assert(lower_code_point("f95"@[0]) == lower_code_point(q[0]));
                        assert(lower_code_point("c++"@[0]) == lower_code_point(q[0]));
                    }
                }
                assert(!code_eq_ci(q, "h++"@)) by {
                    if code_eq_ci(q, "h++"@) {
                        assert(lower_code_point("f95"@[0]) == lower_code_point(q[0]));
                        assert(lower_code_point("h++"@[0]) == lower_code_point(q[0]));
                    }
                }
                assert(!code_eq_ci(q, "cxx"@)) by {
                    if code_eq_ci(q, "cxx"@) {
                        assert(lower_code_point("f95"@[0]) == lower_code_point(q[0]));
                        assert(lower_code_point("cxx"@[0]) == lower_code_point(q[0]));
                    }
                }
                assert(!code_eq_ci(q, "hxx"@)) by {
                    if code_eq_ci(q, "hxx"@) {
                        assert(lower_code_point("f95"@[0]) == lower_code_point(q[0]));
                        assert(lower_code_point("hxx"@[0]) == lower_code_point(q[0]));
                    }
                }
            }
        },
    }
}

// ---------------------------------------------------------------------------
// Injectivity of image names
// ---------------------------------------------------------------------------

/// The first character of every image name a variant can resolve to.
pub open spec fn image_first_char(l: Lang) -> char {
    match l {
        Lang::Sh => 's',
        Lang::Bash => 'b',
        Lang::Zsh => 'z',
        Lang::Python => 'p',
        Lang::JavaScript => 'n',
        Lang::Perl => 'p',
        Lang::Ruby => 'r',
        Lang::Go => 'g',
        Lang::Java => 'o',
        Lang::C => 'c',
        Lang::Cpp => 'c',
        Lang::Rust => 'r',
        Lang::Fortran => 'f',
    }
}

/// The lengths an image name of a variant can have.
pub open spec fn image_len_ok(l: Lang, n: int) -> bool {
    match l {
        Lang::Sh => n == 2,
        Lang::Bash => n == 4,
        Lang::Zsh => n == 3,
        Lang::Python => n == 14 || n == 15,
        Lang::JavaScript => n == 8,
        Lang::Perl => n == 4,
        Lang::Ruby => n == 7,
        Lang::Go => n == 10,
        Lang::Java => n == 8 || n == 9,
        Lang::C => n == 5,
        Lang::Cpp => n == 7,
        Lang::Rust => n == 4,
        Lang::Fortran => n == 7,
    }
}

/// The version a versioned variant resolved, with its default.
pub open spec fn resolved_version(pairs: Seq<(Seq<char>, Seq<char>)>, default: Seq<char>) -> Seq<
    char,
> {
    match lookup(pairs, "version"@) {
        Some(x) => x,
        None => default,
    }
}

/// The bundle the Python variant resolved.
pub open spec fn resolved_bundle(pairs: Seq<(Seq<char>, Seq<char>)>) -> Seq<char> {
    match lookup(pairs, "bundle"@) {
        Some(x) => x,
        None => "scipy"@,
    }
}

/// Shape of a successfully resolved image name: its first character names
/// the variant's family and its length is one the variant can produce.
proof fn lemma_image_shape(l: Lang, pairs: Seq<(Seq<char>, Seq<char>)>)
    requires
        resolve_spec(l, pairs) is Spec,
    ensures
        resolve_spec(l, pairs)->Spec_image.len() > 0,
        resolve_spec(l, pairs)->Spec_image[0] == image_first_char(l),
        image_len_ok(l, resolve_spec(l, pairs)->Spec_image.len() as int),
{
    reveal_strlit("sh");
    reveal_strlit("bash");
    reveal_strlit("zsh");
    reveal_strlit("perl");
    reveal_strlit("c-gcc");
    reveal_strlit("cpp-gcc");
    reveal_strlit("rust");
    reveal_strlit("fortran");
    reveal_strlit("python");
    reveal_strlit("nodejs");
    reveal_strlit("ruby");
    reveal_strlit("golang");
    reveal_strlit("openjdk");
    reveal_strlit("-");
    reveal_strlit("3.9");
    reveal_strlit("3.8");
    reveal_strlit("3.7");
    reveal_strlit("3.6");
    reveal_strlit("none");
    reveal_strlit("scipy");
    reveal_strlit("15");
    reveal_strlit("14");
    reveal_strlit("12");
    reveal_strlit("10");
    reveal_strlit("3.0");
    reveal_strlit("2.7");
    reveal_strlit("2.6");
    reveal_strlit("2.5");
    reveal_strlit("1.16");
    reveal_strlit("1.15");
    reveal_strlit("17");
    reveal_strlit("16");
    reveal_strlit("11");
    reveal_strlit("8");
    let img = resolve_spec(l, pairs)->Spec_image;
    match l {
        Lang::Sh | Lang::Bash | Lang::Zsh | Lang::Perl | Lang::C | Lang::Cpp | Lang::Rust
            | Lang::Fortran => {},
        Lang::Python => {
            let v = resolved_version(pairs, "3.9"@);
            let b = resolved_bundle(pairs);
            assert(img == "python"@ + v + "-"@ + b);
            assert(v == "3.9"@ || v == "3.8"@ || v == "3.7"@ || v == "3.6"@);
            assert(b == "none"@ || b == "scipy"@);
            assert(v.len() == 3);
            assert(img.len() == 10 + b.len());
            assert(img[0] == "python"@[0]);
        },
        Lang::JavaScript => {
            let v = resolved_version(pairs, "15"@);
            let a = seq!["15"@, "14"@, "12"@, "10"@];
            assert(value_in(a, v));
            let k = choose|k: int| 0 <= k < a.len() && a[k] == v;
            assert(v == a[k]);
            assert(v == "15"@ || v == "14"@ || v == "12"@ || v == "10"@);
            assert(img == "nodejs"@ + v);
            assert(v.len() == 2);
            assert(img[0] == "nodejs"@[0]);
        },
        Lang::Ruby => {
            let v = resolved_version(pairs, "3.0"@);
            let a = seq!["3.0"@, "2.7"@, "2.6"@, "2.5"@];
            assert(value_in(a, v));
            let k = choose|k: int| 0 <= k < a.len() && a[k] == v;
            assert(v == a[k]);
            assert(v == "3.0"@ || v == "2.7"@ || v == "2.6"@ || v == "2.5"@);
            assert(img == "ruby"@ + v);
            assert(v.len() == 3);
            assert(img[0] == "ruby"@[0]);
        },
        Lang::Go => {
            let v = resolved_version(pairs, "1.16"@);
            let a = seq!["1.16"@, "1.15"@];
            assert(value_in(a, v));
            let k = choose|k: int| 0 <= k < a.len() && a[k] == v;
            assert(v == a[k]);
            assert(v == "1.16"@ || v == "1.15"@);
            assert(img == "golang"@ + v);
            assert(v.len() == 4);
            assert(img[0] == "golang"@[0]);
        },
        Lang::Java => {
            let v = resolved_version(pairs, "15"@);
            let a = seq!["17"@, "16"@, "15"@, "11"@, "8"@];
            assert(value_in(a, v));
            let k = choose|k: int| 0 <= k < a.len() && a[k] == v;
            assert(v == a[k]);
            assert(v == "17"@ || v == "16"@ || v == "15"@ || v == "11"@ || v == "8"@);
            assert(img == "openjdk"@ + v);
            assert(v.len() == 1 || v.len() == 2);
            assert(img[0] == "openjdk"@[0]);
        },
    }
}

/// Image names are injective: two successful resolutions that share an
/// image name come from the same variant with the same resolved values,
/// so a cached image can never serve a different configuration's recipe.
pub proof fn lemma_image_name_injective(
    l1: Lang,
    p1: Seq<(Seq<char>, Seq<char>)>,
    l2: Lang,
    p2: Seq<(Seq<char>, Seq<char>)>,
)
    requires
        resolve_spec(l1, p1) is Spec,
        resolve_spec(l2, p2) is Spec,
        resolve_spec(l1, p1)->Spec_image == resolve_spec(l2, p2)->Spec_image,
    ensures
        l1 == l2,
        resolve_spec(l1, p1) == resolve_spec(l2, p2),
{
    reveal_strlit("3.9");
    reveal_strlit("3.8");
    reveal_strlit("3.7");
    reveal_strlit("3.6");
    reveal_strlit("none");
    reveal_strlit("scipy");
    reveal_strlit("15");
    reveal_strlit("14");
    reveal_strlit("12");
    reveal_strlit("10");
    reveal_strlit("3.0");
    reveal_strlit("2.7");
    reveal_strlit("2.6");
    reveal_strlit("2.5");
    reveal_strlit("1.16");
    reveal_strlit("1.15");
    reveal_strlit("17");
    reveal_strlit("16");
    reveal_strlit("11");
    reveal_strlit("8");
    reveal_strlit("python");
    reveal_strlit("nodejs");
    reveal_strlit("ruby");
    reveal_strlit("golang");
    reveal_strlit("openjdk");
    reveal_strlit("-");
    lemma_image_shape(l1, p1);
    lemma_image_shape(l2, p2);
    let img1 = resolve_spec(l1, p1)->Spec_image;
    let img2 = resolve_spec(l2, p2)->Spec_image;
    assert(l1 == l2);
    match l1 {
        Lang::Sh | Lang::Bash | Lang::Zsh | Lang::Perl | Lang::C | Lang::Cpp | Lang::Rust
            | Lang::Fortran => {},
        Lang::Python => {
            let v1 = resolved_version(p1, "3.9"@);
            let b1 = resolved_bundle(p1);
            let v2 = resolved_version(p2, "3.9"@);
            let b2 = resolved_bundle(p2);
            assert(v1 == "3.9"@ || v1 == "3.8"@ || v1 == "3.7"@ || v1 == "3.6"@);
            assert(v2 == "3.9"@ || v2 == "3.8"@ || v2 == "3.7"@ || v2 == "3.6"@);
            assert(b1 == "none"@ || b1 == "scipy"@);
            assert(b2 == "none"@ || b2 == "scipy"@);
            assert(v1.len() == 3 && v2.len() == 3);
            assert(img1 == "python"@ + v1 + "-"@ + b1);
            assert(img2 == "python"@ + v2 + "-"@ + b2);
            assert(img1.len() == 10 + b1.len());
            assert(img2.len() == 10 + b2.len());
            assert(b1.len() == b2.len());
            assert(b1 == b2);
            assert(img1[8] == v1[2]);
            assert(img2[8] == v2[2]);
            assert(v1 == v2);
        },
        Lang::JavaScript => {
            let v1 = resolved_version(p1, "15"@);
            let v2 = resolved_version(p2, "15"@);
            let a = seq!["15"@, "14"@, "12"@, "10"@];
            assert(value_in(a, v1) && value_in(a, v2));
            let k1 = choose|k: int| 0 <= k < a.len() && a[k] == v1;
            let k2 = choose|k: int| 0 <= k < a.len() && a[k] == v2;
            assert(v1 == a[k1] && v2 == a[k2]);
            assert(v1 == "15"@ || v1 == "14"@ || v1 == "12"@ || v1 == "10"@);
            assert(v2 == "15"@ || v2 == "14"@ || v2 == "12"@ || v2 == "10"@);
            assert(img1 == "nodejs"@ + v1);
            assert(img2 == "nodejs"@ + v2);
            assert(img1[7] == v1[1]);
            assert(img2[7] == v2[1]);
            assert(v1 == v2);
        },
        Lang::Ruby => {
            let v1 = resolved_version(p1, "3.0"@);
            let v2 = resolved_version(p2, "3.0"@);
            let a = seq!["3.0"@, "2.7"@, "2.6"@, "2.5"@];
            assert(value_in(a, v1) && value_in(a, v2));
            let k1 = choose|k: int| 0 <= k < a.len() && a[k] == v1;
            let k2 = choose|k: int| 0 <= k < a.len() && a[k] == v2;
            assert(v1 == a[k1] && v2 == a[k2]);
            assert(v1 == "3.0"@ || v1 == "2.7"@ || v1 == "2.6"@ || v1 == "2.5"@);
            assert(v2 == "3.0"@ || v2 == "2.7"@ || v2 == "2.6"@ || v2 == "2.5"@);
            assert(img1 == "ruby"@ + v1);
            assert(img2 == "ruby"@ + v2);
            assert(img1[6] == v1[2]);
            assert(img2[6] == v2[2]);
            assert(v1 == v2);
        },
        Lang::Go => {
            let v1 = resolved_version(p1, "1.16"@);
            let v2 = resolved_version(p2, "1.16"@);
            let a = seq!["1.16"@, "1.15"@];
            assert(value_in(a, v1) && value_in(a, v2));
            let k1 = choose|k: int| 0 <= k < a.len() && a[k] == v1;
            let k2 = choose|k: int| 0 <= k < a.len() && a[k] == v2;
            assert(v1 == a[k1] && v2 == a[k2]);
            assert(v1 == "1.16"@ || v1 == "1.15"@);
            assert(v2 == "1.16"@ || v2 == "1.15"@);
            assert(img1 == "golang"@ + v1);
            assert(img2 == "golang"@ + v2);
            assert(img1[9] == v1[3]);
            assert(img2[9] == v2[3]);
            assert(v1 == v2);
        },
        Lang::Java => {
            let v1 = resolved_version(p1, "15"@);
            let v2 = resolved_version(p2, "15"@);
            let a = seq!["17"@, "16"@, "15"@, "11"@, "8"@];
            assert(value_in(a, v1) && value_in(a, v2));
            let k1 = choose|k: int| 0 <= k < a.len() && a[k] == v1;
            let k2 = choose|k: int| 0 <= k < a.len() && a[k] == v2;
            assert(v1 == a[k1] && v2 == a[k2]);
            assert(v1 == "17"@ || v1 == "16"@ || v1 == "15"@ || v1 == "11"@ || v1 == "8"@);
            assert(v2 == "17"@ || v2 == "16"@ || v2 == "15"@ || v2 == "11"@ || v2 == "8"@);
            assert(img1 == "openjdk"@ + v1);
            assert(img2 == "openjdk"@ + v2);
            assert(v1.len() == v2.len());
            if v1 == "8"@ {
                assert(v2.len() == 1);
                assert(v2 == "8"@);
            } else {
                assert(v1.len() == 2 && v2.len() == 2);
                assert(img1[8] == v1[1]);
                assert(img2[8] == v2[1]);
                assert(v1 == v2);
            }
        },
    }
}

} // verus!
