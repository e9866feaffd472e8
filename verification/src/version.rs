use vstd::prelude::*;
use vstd::string::StrSliceExecFns;
use vstd::string::StringExecFns;

use crate::errors::TerraError;

verus! {

// ---------------------------------------------------------------------------
// The version-constraint grammar.
//
// A constraint string such as `">= 1.2"` or `"~> 1.2.3"` carries at most one
// useful datum: the first dotted run of decimal digits.  The match begins at
// the first digit of the string, takes a maximal run of digits, and extends
// over up to two further `.`-separated digit runs.  A match of fewer than
// three components is padded with `.0` until it has exactly three.
// ---------------------------------------------------------------------------
/// Whether `c` is a decimal digit.
pub open spec fn is_digit(c: char) -> bool {
    48 <= c as u32 && c as u32 <= 57
}

/// Whether every character of `s` is a decimal digit.
pub open spec fn all_digits(s: Seq<char>) -> bool {
    forall|i: int| 0 <= i < s.len() ==> is_digit(s[i])
}

/// The position of the first digit of `s` at or after `i`, or `s.len()` if
/// there is none.
pub open spec fn first_digit_at(s: Seq<char>, i: int) -> int
    decreases s.len() - i,
{
    if i >= s.len() {
        s.len() as int
    } else if is_digit(s[i]) {
        i
    } else {
        first_digit_at(s, i + 1)
    }
}

/// The end of the maximal run of digits of `s` that starts at `i`.
pub open spec fn run_end(s: Seq<char>, i: int) -> int
    decreases s.len() - i,
{
    if i >= s.len() {
        i
    } else if is_digit(s[i]) {
        run_end(s, i + 1)
    } else {
        i
    }
}

/// Extends a match ending at `e` over one further `.`-separated digit run,
/// when one follows immediately; otherwise leaves `e` unchanged.
pub open spec fn ext_end(s: Seq<char>, e: int) -> int {
    if e + 1 < s.len() && s[e] == '.' && is_digit(s[e + 1]) {
        run_end(s, e + 1)
    } else {
        e
    }
}

/// Where the match of `s` begins: at the first digit.
pub open spec fn match_start(s: Seq<char>) -> int {
    first_digit_at(s, 0)
}

/// The end of the first component of the match.
pub open spec fn match_end1(s: Seq<char>) -> int {
    run_end(s, match_start(s))
}

/// The end of the match after at most two components.
pub open spec fn match_end2(s: Seq<char>) -> int {
    ext_end(s, match_end1(s))
}

/// The end of the whole match, after at most three components.
pub open spec fn match_end3(s: Seq<char>) -> int {
    if match_end2(s) > match_end1(s) {
        ext_end(s, match_end2(s))
    } else {
        match_end2(s)
    }
}

/// How many dotted components the match of `s` has (1, 2 or 3).
pub open spec fn component_count(s: Seq<char>) -> int {
    1 + (if match_end2(s) > match_end1(s) {
        1 as int
    } else {
        0 as int
    }) + (if match_end3(s) > match_end2(s) {
        1 as int
    } else {
        0 as int
    })
}

/// The `.0` padding appended to a match of `3 - k` components.
pub open spec fn pad_suffix(k: int) -> Seq<char> {
    if k == 1 {
        seq!['.', '0']
    } else if k == 2 {
        seq!['.', '0', '.', '0']
    } else {
        Seq::<char>::empty()
    }
}

/// The normalized three-component version extracted from constraint text
/// `s`, or `None` when `s` holds no digit.
pub open spec fn spec_normalize(s: Seq<char>) -> Option<Seq<char>> {
    if match_start(s) < s.len() {
        Some(s.subrange(match_start(s), match_end3(s)) + pad_suffix(3 - component_count(s)))
    } else {
        None
    }
}

/// Whether `s` splits as `a.b.c` with `a`, `b`, `c` non-empty digit runs.
pub open spec fn is_version_triple(s: Seq<char>, a: Seq<char>, b: Seq<char>, c: Seq<char>) -> bool {
    &&& a.len() > 0
    &&& b.len() > 0
    &&& c.len() > 0
    &&& all_digits(a)
    &&& all_digits(b)
    &&& all_digits(c)
    &&& s == a + seq!['.'] + b + seq!['.'] + c
}

/// The invariant of a resolved version: exactly three non-empty dot-separated
/// runs of decimal digits.
pub open spec fn is_normal_version(s: Seq<char>) -> bool {
    exists|a: Seq<char>, b: Seq<char>, c: Seq<char>| #[trigger] is_version_triple(s, a, b, c)
}

/// `first_digit_at(s, i)` is `k` exactly when no digit stands in `[i, k)` and
/// `k` is the length of `s` or holds a digit.
proof fn lemma_first_digit_char(s: Seq<char>, i: int, k: int)
    requires
        0 <= i <= k <= s.len(),
        forall|j: int| i <= j < k ==> !is_digit(s[j]),
        k == s.len() || is_digit(s[k]),
    ensures
        first_digit_at(s, i) == k,
    decreases k - i,
{
    if i < k {
        lemma_first_digit_char(s, i + 1, k);
    }
}

/// `run_end(s, i)` is `k` exactly when `[i, k)` is all digits and `k` is the
/// length of `s` or holds a non-digit.
proof fn lemma_run_end_char(s: Seq<char>, i: int, k: int)
    requires
        0 <= i <= k <= s.len(),
        forall|j: int| i <= j < k ==> is_digit(s[j]),
        k == s.len() || !is_digit(s[k]),
    ensures
        run_end(s, i) == k,
    decreases k - i,
{
    if i < k {
        lemma_run_end_char(s, i + 1, k);
    }
}

/// Bounds and digit-ness of a maximal digit run.
proof fn lemma_run_end_bounds(s: Seq<char>, i: int)
    requires
        0 <= i <= s.len(),
    ensures
        i <= run_end(s, i) <= s.len(),
        forall|j: int| i <= j < run_end(s, i) ==> is_digit(s[j]),
    decreases s.len() - i,
{
    if i < s.len() && is_digit(s[i]) {
        lemma_run_end_bounds(s, i + 1);
    }
}

/// Bounds of the first-digit search, and that it lands on a digit when it
/// lands inside the string.
proof fn lemma_first_digit_bounds(s: Seq<char>, i: int)
    requires
        0 <= i <= s.len(),
    ensures
        i <= first_digit_at(s, i) <= s.len(),
        first_digit_at(s, i) < s.len() ==> is_digit(s[first_digit_at(s, i)]),
    decreases s.len() - i,
{
    if i < s.len() && !is_digit(s[i]) {
        lemma_first_digit_bounds(s, i + 1);
    }
}

/// Whatever normalization returns satisfies the resolved-version invariant:
/// three non-empty dot-separated digit runs.
pub proof fn lemma_normalize_normal(s: Seq<char>)
    requires
        spec_normalize(s) is Some,
    ensures
        spec_normalize(s) matches Some(v) ==> is_normal_version(v),
{
    let start = match_start(s);
    let e1 = match_end1(s);
    let e2 = match_end2(s);
    let e3 = match_end3(s);
    lemma_first_digit_bounds(s, 0);
    lemma_run_end_bounds(s, start);
    let v = spec_normalize(s)->0;
    let comp1 = s.subrange(start, e1);
    assert(e1 > start) by {
        assert(is_digit(s[start]));
        lemma_run_end_bounds(s, start + 1);
    }
    if e2 > e1 {
        lemma_run_end_bounds(s, e1 + 1);
        let comp2 = s.subrange(e1 + 1, e2);
        assert(e2 > e1 + 1) by {
            assert(is_digit(s[e1 + 1]));
            lemma_run_end_bounds(s, e1 + 2);
        }
        if e3 > e2 {
            lemma_run_end_bounds(s, e2 + 1);
            let comp3 = s.subrange(e2 + 1, e3);
            assert(e3 > e2 + 1) by {
                assert(is_digit(s[e2 + 1]));
                lemma_run_end_bounds(s, e2 + 2);
            }
            assert(v =~= comp1 + seq!['.'] + comp2 + seq!['.'] + comp3);
            assert(is_version_triple(v, comp1, comp2, comp3));
        } else {
            assert(e3 == e2) by {
                if e2 + 1 < s.len() && s[e2] == '.' && is_digit(s[e2 + 1]) {
                    lemma_run_end_bounds(s, e2 + 1);
                }
            }
            let comp3 = seq!['0'];
            assert(is_digit('0'));
            assert(all_digits(comp3));
            assert(v =~= comp1 + seq!['.'] + comp2 + seq!['.'] + comp3);
            assert(is_version_triple(v, comp1, comp2, comp3));
        }
    } else {
        assert(e2 == e1) by {
            if e1 + 1 < s.len() && s[e1] == '.' && is_digit(s[e1 + 1]) {
                lemma_run_end_bounds(s, e1 + 1);
            }
        }
        let comp2 = seq!['0'];
        let comp3 = seq!['0'];
        assert(is_digit('0'));
        assert(all_digits(comp2));
        assert(v =~= comp1 + seq!['.'] + comp2 + seq!['.'] + comp3);
        assert(is_version_triple(v, comp1, comp2, comp3));
    }
}

/// A constraint text with no digit at all normalizes to nothing.
pub proof fn lemma_normalize_no_digits(s: Seq<char>)
    requires
        forall|i: int| 0 <= i < s.len() ==> !is_digit(s[i]),
    ensures
        spec_normalize(s) is None,
{
    lemma_first_digit_char(s, 0, s.len() as int);
}

/// A constraint of the shape `<prefix>X.Y`, with a digit-free prefix and two
/// digit-run components, normalizes to exactly `X.Y.0`.
pub proof fn lemma_normalize_two_components(prefix: Seq<char>, x: Seq<char>, y: Seq<char>)
    requires
        forall|i: int| 0 <= i < prefix.len() ==> !is_digit(prefix[i]),
        x.len() > 0,
        all_digits(x),
        y.len() > 0,
        all_digits(y),
    ensures
        spec_normalize(prefix + x + seq!['.'] + y) == Some(x + seq!['.'] + y + seq!['.', '0']),
{
    let s = prefix + x + seq!['.'] + y;
    let p = prefix.len() as int;
    let xl = x.len() as int;
    assert(!is_digit('.'));
    lemma_first_digit_char(s, 0, p);
    lemma_run_end_char(s, p, p + xl);
    assert(match_end1(s) == p + xl);
    assert(s[p + xl] == '.');
    assert(is_digit(s[p + xl + 1]));
    lemma_run_end_char(s, p + xl + 1, s.len() as int);
    assert(match_end2(s) == s.len());
    assert(match_end3(s) == s.len());
    assert(component_count(s) == 2);
    assert(s.subrange(p, s.len() as int) =~= x + seq!['.'] + y);
    assert(s.subrange(match_start(s), match_end3(s)) + pad_suffix(1) =~= x + seq!['.'] + y + seq![
        '.',
        '0',
    ]);
}

/// A constraint of the shape `<prefix>X.Y.Z`, with a digit-free prefix and
/// three digit-run components, normalizes to exactly `X.Y.Z`, unchanged.
pub proof fn lemma_normalize_three_components(
    prefix: Seq<char>,
    x: Seq<char>,
    y: Seq<char>,
    z: Seq<char>,
)
    requires
        forall|i: int| 0 <= i < prefix.len() ==> !is_digit(prefix[i]),
        x.len() > 0,
        all_digits(x),
        y.len() > 0,
        all_digits(y),
        z.len() > 0,
        all_digits(z),
    ensures
        spec_normalize(prefix + x + seq!['.'] + y + seq!['.'] + z) == Some(
            x + seq!['.'] + y + seq!['.'] + z,
        ),
{
    let s = prefix + x + seq!['.'] + y + seq!['.'] + z;
    let p = prefix.len() as int;
    let xl = x.len() as int;
    let yl = y.len() as int;
    assert(!is_digit('.'));
    lemma_first_digit_char(s, 0, p);
    lemma_run_end_char(s, p, p + xl);
    assert(match_end1(s) == p + xl);
    assert(s[p + xl] == '.');
    assert(is_digit(s[p + xl + 1]));
    lemma_run_end_char(s, p + xl + 1, p + xl + 1 + yl);
    assert(match_end2(s) == p + xl + 1 + yl);
    assert(s[p + xl + 1 + yl] == '.');
    assert(is_digit(s[p + xl + 1 + yl + 1]));
    lemma_run_end_char(s, p + xl + 1 + yl + 1, s.len() as int);
    assert(match_end3(s) == s.len());
    assert(component_count(s) == 3);
    assert(pad_suffix(0) =~= Seq::<char>::empty());
    assert(s.subrange(p, s.len() as int) =~= x + seq!['.'] + y + seq!['.'] + z);
    assert(s.subrange(match_start(s), match_end3(s)) + pad_suffix(0) =~= x + seq!['.'] + y + seq![
        '.',
    ] + z);
}

/// Whether `c` is a decimal digit.
fn digit_char(c: char) -> (b: bool)
    ensures
        b == is_digit(c),
{
    let v = c as u32;
    48 <= v && v <= 57
}

/// The end of the maximal digit run of `content` starting at `from`.
fn scan_digit_run(content: &str, from: usize) -> (e: usize)
    requires
        from <= content@.len(),
    ensures
        e == run_end(content@, from as int),
        from <= e <= content@.len(),
{
    let n = content.unicode_len();
    let mut i = from;
    while i < n && digit_char(content.get_char(i))
        invariant
            from <= i <= n,
            n == content@.len(),
            forall|j: int| from <= j < i ==> is_digit(content@[j]),
        decreases n - i,
    {
        i = i + 1;
    }
    proof {
        lemma_run_end_char(content@, from as int, i as int);
    }
    i
}

/// Extracts the first dotted digit sequence of a version-constraint string
/// and pads it with `.0` until it has exactly three components; yields
/// nothing when the string holds no digit.
pub fn terraform_required(content: &str) -> (r: Option<String>)
    ensures
        match r {
            Some(v) => spec_normalize(content@) == Some(v@),
            None => spec_normalize(content@) is None,
        },
{
    let ghost s = content@;
    let n = content.unicode_len();
    let mut start: usize = 0;
    while start < n && !digit_char(content.get_char(start))
        invariant
            0 <= start <= n,
            s == content@,
            n == s.len(),
            forall|j: int| 0 <= j < start ==> !is_digit(s[j]),
        decreases n - start,
    {
        start = start + 1;
    }
    proof {
        lemma_first_digit_char(s, 0, start as int);
    }
    if start == n {
        return None;
    }
    let e1 = scan_digit_run(content, start);
    assert(e1 == match_end1(s));
    let mut end = e1;
    let mut comps: usize = 1;
    if end < n && content.get_char(end) == '.' && end + 1 < n && digit_char(
        content.get_char(end + 1),
    ) {
        proof {
            lemma_run_end_bounds(s, end as int + 1);
        }
        end = scan_digit_run(content, end + 1);
        comps = 2;
    }
    assert(end == match_end2(s));
    assert(comps == 2 <==> match_end2(s) > match_end1(s));
    if comps == 2 && end < n && content.get_char(end) == '.' && end + 1 < n && digit_char(
        content.get_char(end + 1),
    ) {
        proof {
            lemma_run_end_bounds(s, end as int + 1);
        }
        end = scan_digit_run(content, end + 1);
        comps = 3;
    }
    assert(end == match_end3(s));
    assert(comps == component_count(s));
    let matched = content.substring_char(start, end);
    let mut out = String::from_str(matched);
    if comps == 1 {
        out.append(".0");
        out.append(".0");
    } else if comps == 2 {
        out.append(".0");
    }
    proof {
        reveal_strlit(".0");
        assert(".0"@ =~= seq!['.', '0']);
        assert(out@ =~= s.subrange(match_start(s), match_end3(s)) + pad_suffix(
            3 - component_count(s),
        ));
    }
    Some(out)
}

// ---------------------------------------------------------------------------
// Scanning a directory's configuration files for a version constraint.
// ---------------------------------------------------------------------------
/// One candidate configuration file: its name and its raw text.
pub struct ConfigFile {
    pub name: String,
    pub content: String,
}

/// Whether a file name marks a project configuration file: it ends in
/// `.tf` or `.hcl`.
pub open spec fn has_config_ext(s: Seq<char>) -> bool {
    ||| (s.len() >= 3 && s[s.len() - 3] == '.' && s[s.len() - 2] == 't' && s[s.len() - 1] == 'f')
    ||| (s.len() >= 4 && s[s.len() - 4] == '.' && s[s.len() - 3] == 'h' && s[s.len() - 2] == 'c'
        && s[s.len() - 1] == 'l')
}

/// Whether `name` carries a configuration-file extension.
pub fn is_config_file(name: &str) -> (r: bool)
    ensures
        r == has_config_ext(name@),
{
    let n = name.unicode_len();
    if n >= 3 && name.get_char(n - 3) == '.' && name.get_char(n - 2) == 't' && name.get_char(n - 1)
        == 'f' {
        return true;
    }
    if n >= 4 && name.get_char(n - 4) == '.' && name.get_char(n - 3) == 'h' && name.get_char(n - 2)
        == 'c' && name.get_char(n - 1) == 'l' {
        return true;
    }
    false
}

/// Whether one file's extracted constraint yields a usable version.
pub open spec fn constraint_succeeds(c: Option<Seq<char>>) -> bool {
    c matches Some(t) && spec_normalize(t) is Some
}

/// The resolution policy over the per-file constraints, in scan order: the
/// first constraint that normalizes to a version wins; a file without a
/// constraint, or whose constraint holds no digits, is passed over.
pub open spec fn spec_resolve(cs: Seq<Option<Seq<char>>>) -> Option<Seq<char>>
    decreases cs.len(),
{
    if cs.len() == 0 {
        None
    } else if constraint_succeeds(cs[0]) {
        spec_normalize(cs[0]->0)
    } else {
        spec_resolve(cs.drop_first())
    }
}

/// Whatever the resolver selects satisfies the resolved-version invariant.
pub proof fn lemma_resolve_normal(cs: Seq<Option<Seq<char>>>)
    ensures
        spec_resolve(cs) matches Some(v) ==> is_normal_version(v),
    decreases cs.len(),
{
    if cs.len() > 0 {
        if constraint_succeeds(cs[0]) {
            lemma_normalize_normal(cs[0]->0);
        } else {
            lemma_resolve_normal(cs.drop_first());
        }
    }
}

/// First match wins: when no file before `i` yields a usable constraint and
/// file `i` does, the resolver returns file `i`'s normalized version — in
/// particular, a version declared only by a later-scanned file is still
/// found.
pub proof fn lemma_first_declared_version_wins(cs: Seq<Option<Seq<char>>>, i: int)
    requires
        0 <= i < cs.len(),
        forall|j: int| 0 <= j < i ==> !constraint_succeeds(cs[j]),
        constraint_succeeds(cs[i]),
    ensures
        spec_resolve(cs) == spec_normalize(cs[i]->0),
    decreases i,
{
    if i > 0 {
        lemma_first_declared_version_wins(cs.drop_first(), i - 1);
    }
}

/// Applies the resolution policy to the constraints extracted from each
/// scanned file, normalizing the winning one.
pub fn resolve_constraints(constraints: &Vec<Option<String>>) -> (r: Result<String, TerraError>)
    ensures
        spec_resolve(constraints.deep_view()) matches Some(v) ==> (r matches Ok(out) && out@ == v),
        spec_resolve(constraints.deep_view()) is None ==> r == Err::<String, TerraError>(
            TerraError::NoVersionFound,
        ),
{
    let ghost cs = constraints.deep_view();
    proof {
        assert(cs.skip(0) =~= cs);
    }
    let n = constraints.len();
    let mut i: usize = 0;
    while i < n
        invariant
            0 <= i <= n,
            cs == constraints.deep_view(),
            n == constraints.len(),
            spec_resolve(cs) == spec_resolve(cs.skip(i as int)),
        decreases n - i,
    {
        proof {
            assert(cs[i as int] == constraints@[i as int].deep_view());
            assert(cs.skip(i as int)[0] == cs[i as int]);
        }
        match &constraints[i] {
            Some(raw) => {
                match terraform_required(raw.as_str()) {
                    Some(v) => {
                        return Ok(v);
                    },
                    None => {
                        assert(!constraint_succeeds(cs[i as int]));
                    },
                }
            },
            None => {
                assert(!constraint_succeeds(cs[i as int]));
            },
        }
        proof {
            assert(cs.skip(i as int).drop_first() =~= cs.skip(i as int + 1));
        }
        i = i + 1;
    }
    proof {
        assert(cs.skip(n as int) =~= Seq::<Option<Seq<char>>>::empty());
    }
    Err(TerraError::NoVersionFound)
}

// ---------------------------------------------------------------------------
// Reading one configuration document through the HCL parser.
// ---------------------------------------------------------------------------
/// What the HCL parser yields for the string attribute named `field` of the
/// top-level block named `block` of the document `content`: `None` when the
/// document is not valid HCL, `Some(None)` when it parses but holds no such
/// string attribute, `Some(Some(text))` when it holds one.  The answer is a
/// function of the three texts alone.
pub uninterp spec fn hcl_block_field(
    content: Seq<char>,
    block: Seq<char>,
    field: Seq<char>,
) -> Option<Option<Seq<char>>>;

/// Relies on hcl::from_str and hcl::Value's object navigation (as_object,
/// the object map's get, as_str): parses one HCL document and reads the
/// string attribute named `field` of the top-level block named `block`.
/// The parse is deterministic, so the result is named `hcl_block_field` of
/// the three texts.
#[verifier::external_body]
fn parse_block_field(content: &str, block: &str, field: &str) -> (r: Option<Option<String>>)
    ensures
        r.deep_view() == hcl_block_field(content@, block@, field@),
{
    let doc: hcl::Value = match hcl::from_str(content) {
        Ok(v) => v,
        Err(_) => return None,
    };
    let value = doc
        .as_object()
        .and_then(|top| top.get(block))
        .and_then(|b| b.as_object())
        .and_then(|m| m.get(field))
        .and_then(|f| f.as_str());
    match value {
        Some(s) => Some(Some(s.to_string())),
        None => Some(None),
    }
}

/// Reads the `required_version` field of the `terraform` block of one
/// configuration document: `Ok(None)` exactly when the document parses but
/// has no such field, `Err(ConfigParseError)` exactly when it is not valid
/// HCL, and `Ok(Some(text))` exactly when the parser finds the field.
pub fn extract_constraint(content: &str) -> (r: Result<Option<String>, TerraError>)
    ensures
        ({
            let f = hcl_block_field(content@, "terraform"@, "required_version"@);
            match f {
                None => r == Err::<Option<String>, TerraError>(TerraError::ConfigParseError),
                Some(c) => (r matches Ok(o) && o.deep_view() == c),
            }
        }),
{
    match parse_block_field(content, "terraform", "required_version") {
        None => Err(TerraError::ConfigParseError),
        Some(o) => Ok(o),
    }
}

/// The constraint that one scanned file contributes: the named field of its
/// `terraform` block, or nothing when the file does not parse or has no
/// such field.
pub open spec fn spec_file_constraint(f: ConfigFile) -> Option<Seq<char>> {
    match hcl_block_field(f.content@, "terraform"@, "required_version"@) {
        None => None,
        Some(c) => c,
    }
}

/// The constraints that a scan of `files` gathers, in scan order: one entry
/// per file whose name carries a configuration extension.
pub open spec fn spec_scan_constraints(files: Seq<ConfigFile>) -> Seq<Option<Seq<char>>>
    decreases files.len(),
{
    if files.len() == 0 {
        Seq::<Option<Seq<char>>>::empty()
    } else if has_config_ext(files.last().name@) {
        spec_scan_constraints(files.drop_last()).push(spec_file_constraint(files.last()))
    } else {
        spec_scan_constraints(files.drop_last())
    }
}

/// A scan over files none of which carries a configuration extension
/// gathers nothing.
proof fn lemma_scan_no_config(files: Seq<ConfigFile>)
    requires
        forall|i: int| 0 <= i < files.len() ==> !has_config_ext(files[i].name@),
    ensures
        spec_scan_constraints(files) == Seq::<Option<Seq<char>>>::empty(),
    decreases files.len(),
{
    if files.len() > 0 {
        lemma_scan_no_config(files.drop_last());
    }
}

/// Scans the given directory entries for configuration files, extracts each
/// one's version constraint, and resolves them first-match-wins: the result
/// is exactly the resolution policy applied to the constraints the parser
/// yields for the configuration-named files, in scan order.  Fails with
/// `NoVersionFound` when no file yields a usable constraint — in particular
/// when the directory holds no configuration file at all.  A file that does
/// not parse is skipped.  Whatever version is returned is a normalized
/// three-component version.
pub fn find_required_version(files: &Vec<ConfigFile>) -> (r: Result<String, TerraError>)
    ensures
        ({
            let resolved = spec_resolve(spec_scan_constraints(files@));
            &&& (resolved matches Some(v) ==> (r matches Ok(out) && out@ == v))
            &&& (resolved is None ==> r == Err::<String, TerraError>(TerraError::NoVersionFound))
        }),
        r matches Ok(v) ==> is_normal_version(v@),
        r is Err ==> r == Err::<String, TerraError>(TerraError::NoVersionFound),
        (forall|i: int| 0 <= i < files@.len() ==> !has_config_ext(files@[i].name@)) ==> r
            == Err::<String, TerraError>(TerraError::NoVersionFound),
{
    let mut constraints: Vec<Option<String>> = Vec::new();
    proof {
        assert(files@.subrange(0, 0) =~= Seq::<ConfigFile>::empty());
        assert(constraints.deep_view() =~= spec_scan_constraints(files@.subrange(0, 0)));
    }
    let n = files.len();
    let mut i: usize = 0;
    while i < n
        invariant
            0 <= i <= n,
            n == files@.len(),
            constraints.deep_view() == spec_scan_constraints(files@.subrange(0, i as int)),
        decreases n - i,
    {
        let ghost pre = files@.subrange(0, i as int);
        let ghost post = files@.subrange(0, i as int + 1);
        proof {
            assert(post.drop_last() =~= pre);
            assert(post.last() == files@[i as int]);
        }
        let ghost old_dv = constraints.deep_view();
        let f = &files[i];
        if is_config_file(f.name.as_str()) {
            match extract_constraint(f.content.as_str()) {
                Ok(c) => {
                    proof {
                        assert(c.deep_view() == spec_file_constraint(files@[i as int]));
                    }
                    constraints.push(c);
                },
                Err(_) => {
                    proof {
                        assert(spec_file_constraint(files@[i as int]) is None);
                    }
                    constraints.push(None);
                },
            }
            proof {
                assert(constraints.deep_view() =~= old_dv.push(
                    spec_file_constraint(files@[i as int]),
                ));
            }
        }
        i = i + 1;
    }
    proof {
        assert(files@.subrange(0, n as int) =~= files@);
    }
    let r = resolve_constraints(&constraints);
    proof {
        lemma_resolve_normal(constraints.deep_view());
        if forall|j: int| 0 <= j < files@.len() ==> !has_config_ext(files@[j].name@) {
            lemma_scan_no_config(files@);
        }
    }
    r
}

} // verus!

