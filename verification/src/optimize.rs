//! Size optimization of `extern "C"` functions: the decisions of the `optimize::size`
//! attribute
//!
//! The attribute compiles the function on its own, for size, and replaces its body with the
//! resulting assembly. What is decided here: which compilation target the build is for, which
//! functions qualify, and how the compiler's assembly output is cut down to the function and
//! made fit to be embedded in `naked_asm!`.

use crate::text::{
    chars_of, decimal, decimal_of, eq_chars, find_char, index_of, lemma_index_of, line_views,
    lines, replace, spec_lines, spec_replace, spec_starts_with, spec_trim, starts_with_at,
    string_of, trim,
};
use std::hash::BuildHasher;
use vstd::prelude::*;

verus! {

/// A component of a path, as `std::path::Component` sees it: a normal name, or something else
/// (a prefix, the root directory, `.` or `..`)
#[derive(Debug)]
pub enum PathComponent {
    /// A normal component, e.g. `build`
    Normal(String),
    /// Any other component
    Other,
}

/// The characters of `build`
pub open spec fn spec_build() -> Seq<char> {
    seq!['b', 'u', 'i', 'l', 'd']
}

/// Component `c` is the normal component `build`
pub open spec fn is_build(c: PathComponent) -> bool {
    c matches PathComponent::Normal(name) && name@ == spec_build()
}

/// The index of the last `build` component among the first `n` components, if any
pub open spec fn last_build(components: Seq<PathComponent>, n: int) -> Option<int>
    decreases n,
{
    if n <= 0 {
        None
    } else if is_build(components[n - 1]) {
        Some(n - 1)
    } else {
        last_build(components, n - 1)
    }
}

/// The compilation target named in a Cargo `OUT_DIR` path whose components are
/// `components`: `<target dir>/<target>/<profile>/build/...`; the component two above the last
/// `build` component, if it is a normal one
pub open spec fn spec_target(components: Seq<PathComponent>) -> Option<Seq<char>> {
    match last_build(components, components.len() as int) {
        Some(i) => if i >= 2 && components[i - 2] is Normal {
            Some(components[i - 2]->Normal_0@)
        } else {
            None
        },
        None => None,
    }
}

fn is_build_component(c: &PathComponent) -> (r: bool)
    ensures
        r == is_build(*c),
{
    match c {
        PathComponent::Normal(name) => {
            let chars = chars_of(name.as_str());
            let build = ['b', 'u', 'i', 'l', 'd'];
            let r = eq_chars(chars.as_slice(), build.as_slice());
            proof {
                assert(build@ =~= spec_build());
            }
            r
        },
        PathComponent::Other => false,
    }
}

/// Extracts the compilation target from the components of Cargo's `OUT_DIR` path, if it can
/// be determined
pub fn try_extract_target(components: &[PathComponent]) -> (r: Option<String>)
    ensures
        match spec_target(components@) {
            Some(target) => r matches Some(s) && s@ == target,
            None => r is None,
        },
{
    let mut n = components.len();
    while n > 0
        invariant
            n <= components@.len(),
            last_build(components@, components@.len() as int) == last_build(components@, n as int),
        ensures
            last_build(components@, components@.len() as int) == last_build(components@, n as int),
            n > 0 ==> is_build(components@[n - 1]),
        decreases n,
    {
        if is_build_component(&components[n - 1]) {
            break;
        }
        n = n - 1;
    }
    if n < 3 {
        return None;
    }
    match &components[n - 3] {
        PathComponent::Normal(target) => Some(target.clone()),
        PathComponent::Other => None,
    }
}

/// Extracts the compilation target from the components of Cargo's `OUT_DIR` path, which
/// names it two components above its last `build` component
pub fn extract_target(components: &[PathComponent]) -> (r: String)
    requires
        spec_target(components@) is Some,
    ensures
        r@ == spec_target(components@)->Some_0,
{
    try_extract_target(components).unwrap()
}

/// The parts of a function signature that decide whether it can be optimized
#[derive(Debug)]
pub struct FnSignature {
    /// The function is `const`
    pub is_const: bool,
    /// The function is `async`
    pub is_async: bool,
    /// The generics have an opening `<`
    pub generics_lt: bool,
    /// The number of generic parameters
    pub generics_params: usize,
    /// The generics have a closing `>`
    pub generics_gt: bool,
    /// The function has a `where` clause
    pub where_clause: bool,
    /// The name of the ABI, when an ABI with a name is given (`extern "C"`)
    pub abi: Option<String>,
    /// The function is variadic
    pub is_variadic: bool,
}

/// Why a function cannot be optimized
#[derive(Debug, PartialEq, Eq)]
pub enum SignatureError {
    /// function must not be `const`
    Const,
    /// function must not be `async`
    Async,
    /// function must have no generics
    Generics,
    /// ABI must be `extern "C"`: no ABI name is given
    MissingAbi,
    /// ABI must be `extern "C"`: this ABI is given instead
    NotC(String),
    /// function must not be variadic
    Variadic,
}

/// The characters of `C`
pub open spec fn spec_c() -> Seq<char> {
    seq!['C']
}

/// Checks that the function with signature `sig` can be optimized; the checks are made in the
/// order of the variants of `SignatureError`, and the first that fails is reported
pub fn check_item(sig: &FnSignature) -> (r: Result<(), SignatureError>)
    ensures
        sig.is_const ==> r matches Err(SignatureError::Const),
        !sig.is_const && sig.is_async ==> r matches Err(SignatureError::Async),
        !sig.is_const && !sig.is_async && (sig.generics_lt || sig.generics_params != 0
            || sig.generics_gt || sig.where_clause) ==> r matches Err(SignatureError::Generics),
        !sig.is_const && !sig.is_async && !(sig.generics_lt || sig.generics_params != 0
            || sig.generics_gt || sig.where_clause) ==> match sig.abi {
            None => r matches Err(SignatureError::MissingAbi),
            Some(abi) => if abi@ != spec_c() {
                r matches Err(SignatureError::NotC(name)) && name@ == abi@
            } else if sig.is_variadic {
                r matches Err(SignatureError::Variadic)
            } else {
                r is Ok
            },
        },
        r is Ok <==> spec_qualifies(*sig),
{
    if sig.is_const {
        return Err(SignatureError::Const);
    }
    if sig.is_async {
        return Err(SignatureError::Async);
    }
    if sig.generics_lt || sig.generics_params != 0 || sig.generics_gt || sig.where_clause {
        return Err(SignatureError::Generics);
    }
    match &sig.abi {
        None => {
            return Err(SignatureError::MissingAbi);
        },
        Some(abi) => {
            let chars = chars_of(abi.as_str());
            let c = ['C'];
            proof {
                assert(c@ =~= spec_c());
            }
            if !eq_chars(chars.as_slice(), c.as_slice()) {
                return Err(SignatureError::NotC(abi.clone()));
            }
        },
    }
    if sig.is_variadic {
        return Err(SignatureError::Variadic);
    }
    Ok(())
}

/// The function with signature `sig` can be optimized: it is neither `const` nor `async`,
/// has no generics, has the ABI `extern "C"` and is not variadic
pub open spec fn spec_qualifies(sig: FnSignature) -> bool {
    &&& !sig.is_const
    &&& !sig.is_async
    &&& !(sig.generics_lt || sig.generics_params != 0 || sig.generics_gt || sig.where_clause)
    &&& sig.abi matches Some(abi) && abi@ == spec_c()
    &&& !sig.is_variadic
}

/// Validates a function that can be optimized (see `check_item` for the reasons one cannot)
pub fn validate_item(sig: &FnSignature)
    requires
        spec_qualifies(*sig),
{
    let r = check_item(sig);
    assert(r is Ok);
}

/// `a` comes strictly before `b` in the order of `str`: lexicographic, by code point
pub open spec fn lex_lt(a: Seq<char>, b: Seq<char>) -> bool
    decreases a.len(),
{
    if a.len() == 0 {
        b.len() > 0
    } else if b.len() == 0 {
        false
    } else if a[0] != b[0] {
        (a[0] as int) < (b[0] as int)
    } else {
        lex_lt(a.skip(1), b.skip(1))
    }
}

proof fn lemma_lex_irreflexive(a: Seq<char>)
    ensures
        !lex_lt(a, a),
    decreases a.len(),
{
    if a.len() > 0 {
        lemma_lex_irreflexive(a.skip(1));
    }
}

proof fn lemma_lex_transitive(a: Seq<char>, b: Seq<char>, c: Seq<char>)
    requires
        lex_lt(a, b),
        lex_lt(b, c),
    ensures
        lex_lt(a, c),
    decreases a.len(),
{
    if a.len() > 0 && b.len() > 0 && c.len() > 0 && a[0] == b[0] && b[0] == c[0] {
        lemma_lex_transitive(a.skip(1), b.skip(1), c.skip(1));
    }
}

proof fn lemma_lex_total(a: Seq<char>, b: Seq<char>)
    ensures
        a == b || lex_lt(a, b) || lex_lt(b, a),
    decreases a.len(),
{
    if a.len() > 0 && b.len() > 0 && a[0] == b[0] {
        lemma_lex_total(a.skip(1), b.skip(1));
        if a.skip(1) == b.skip(1) {
            assert(a =~= seq![a[0]] + a.skip(1));
            assert(b =~= seq![b[0]] + b.skip(1));
        }
    } else if a.len() > 0 && b.len() > 0 {
        assert((a[0] as int) != (b[0] as int));
    } else if a.len() == 0 && b.len() == 0 {
        assert(a =~= b);
    }
}

/// Returns whether `a` comes strictly before `b` in the order of `str`
fn lex_less(a: &[char], b: &[char]) -> (r: bool)
    ensures
        r == lex_lt(a@, b@),
{
    let mut i: usize = 0;
    proof {
        assert(a@.skip(0) =~= a@);
        assert(b@.skip(0) =~= b@);
    }
    while i < a.len() && i < b.len()
        invariant
            i <= a@.len(),
            i <= b@.len(),
            lex_lt(a@.skip(i as int), b@.skip(i as int)) == lex_lt(a@, b@),
        decreases a@.len() - i,
    {
        if a[i] != b[i] {
            return a[i] < b[i];
        }
        proof {
            assert(a@.skip(i as int).skip(1) =~= a@.skip(i + 1));
            assert(b@.skip(i as int).skip(1) =~= b@.skip(i + 1));
        }
        i = i + 1;
    }
    i == a.len() && i < b.len()
}

/// The characters of `.L`, the prefix of local labels
pub open spec fn spec_local_prefix() -> Seq<char> {
    seq!['.', 'L']
}

/// The local label that `line` defines, if any: the text before its first `:`, when that
/// text starts with `.L`
pub open spec fn label_of(line: Seq<char>) -> Option<Seq<char>> {
    let i = index_of(line, ':');
    if i < line.len() && spec_starts_with(line.take(i), spec_local_prefix()) {
        Some(line.take(i))
    } else {
        None
    }
}

/// The hash that `DefaultHasher` computes for the string `s`
pub uninterp spec fn str_hash(s: Seq<char>) -> u64;

/// `BuildHasher::hash_one` with the default hasher: the hash of `s` that a fresh
/// `DefaultHasher` computes, i.e. `DefaultHasher::new()`, `s.hash(&mut hasher)`,
/// `hasher.finish()`
#[verifier::external_body]
fn default_hash_of(s: &str) -> (r: u64)
    ensures
        r == str_hash(s@),
{
    std::hash::BuildHasherDefault::<std::hash::DefaultHasher>::default().hash_one(s)
}

/// Local labels and the unique names that replace them, ordered by label
pub struct LabelDict {
    entries: Vec<(Vec<char>, Vec<char>)>,
}

/// The labels of `entries` are non-empty and strictly increasing
pub open spec fn sorted_labels(entries: Seq<(Seq<char>, Seq<char>)>) -> bool {
    &&& forall|i: int| 0 <= i < entries.len() ==> #[trigger] entries[i].0.len() > 0
    &&& forall|i: int, j: int|
        0 <= i < j < entries.len() ==> lex_lt(#[trigger] entries[i].0, #[trigger] entries[j].0)
}

impl View for LabelDict {
    type V = Seq<(Seq<char>, Seq<char>)>;

    closed spec fn view(&self) -> Seq<(Seq<char>, Seq<char>)> {
        self.entries@.map_values(|e: (Vec<char>, Vec<char>)| (e.0@, e.1@))
    }
}

impl LabelDict {
    #[verifier::type_invariant]
    spec fn inv(&self) -> bool {
        sorted_labels(self@)
    }

    /// `label` is a key of the dictionary
    pub open spec fn has_label(&self, label: Seq<char>) -> bool {
        has_label_in(self@, label)
    }

    fn new() -> (r: Self)
        ensures
            r@ == Seq::<(Seq<char>, Seq<char>)>::empty(),
    {
        let r = LabelDict { entries: Vec::new() };
        assert(r@ =~= Seq::<(Seq<char>, Seq<char>)>::empty());
        r
    }

    /// Returns the number of labels
    pub fn len(&self) -> (r: usize)
        ensures
            r == self@.len(),
    {
        self.entries.len()
    }

    /// Returns the `i`-th label, in label order
    pub fn label(&self, i: usize) -> (r: String)
        requires
            i < self@.len(),
        ensures
            r@ == self@[i as int].0,
    {
        string_of(self.entries[i].0.as_slice())
    }

    /// Returns the name that replaces the `i`-th label
    pub fn replacement(&self, i: usize) -> (r: String)
        requires
            i < self@.len(),
        ensures
            r@ == self@[i as int].1,
    {
        string_of(self.entries[i].1.as_slice())
    }

    /// The dictionary with `label` added, named `label` followed by `suffix`; every name is
    /// made that way, so a label that is already a key keeps its name
    fn insert_label(self, label: Vec<char>, suffix: &[char]) -> (r: Self)
        requires
            label@.len() > 0,
            forall|i: int| 0 <= i < self@.len() ==> #[trigger] self@[i].1 == self@[i].0 + suffix@,
        ensures
            forall|k: Seq<char>| r.has_label(k) <==> (self.has_label(k) || k == label@),
            forall|i: int| 0 <= i < r@.len() ==> #[trigger] r@[i].1 == r@[i].0 + suffix@,
    {
        proof {
            use_type_invariant(&self);
        }
        let ghost old_view = self@;
        let LabelDict { mut entries } = self;
        let mut p: usize = 0;
        while p < entries.len() && lex_less(entries[p].0.as_slice(), label.as_slice())
            invariant
                p <= entries@.len(),
                entries@.map_values(|e: (Vec<char>, Vec<char>)| (e.0@, e.1@)) == old_view,
                forall|j: int| 0 <= j < p ==> lex_lt(#[trigger] old_view[j].0, label@),
            decreases entries@.len() - p,
        {
            p = p + 1;
        }
        assert(old_view.len() == entries@.len());
        if p < entries.len() && eq_chars(entries[p].0.as_slice(), label.as_slice()) {
            let r = LabelDict { entries };
            assert(r@ == old_view);
            assert(r@[p as int].0 == label@);
            return r;
        }
        let mut name = label.clone();
        let mut k: usize = 0;
        while k < suffix.len()
            invariant
                k <= suffix@.len(),
                name@ == label@ + suffix@.take(k as int),
            decreases suffix@.len() - k,
        {
            name.push(suffix[k]);
            proof {
                assert(suffix@.take(k + 1) =~= suffix@.take(k as int).push(suffix@[k as int]));
            }
            k = k + 1;
        }
        proof {
            assert(suffix@.take(suffix@.len() as int) =~= suffix@);
        }
        let ghost entry = (label@, name@);
        let ghost new_view = old_view.insert(p as int, entry);
        proof {
            if p < old_view.len() {
                lemma_lex_total(old_view[p as int].0, label@);
            }
            assert forall|i: int| 0 <= i < new_view.len() implies #[trigger] new_view[i].0.len()
                > 0 by {
                if i < p {
                    assert(new_view[i] == old_view[i]);
                } else if i > p {
                    assert(new_view[i] == old_view[i - 1]);
                }
            }
            assert forall|i: int, j: int| 0 <= i < j < new_view.len() implies lex_lt(
                #[trigger] new_view[i].0,
                #[trigger] new_view[j].0,
            ) by {
                if j == p {
                } else if i == p {
                    if j > p + 1 {
                        lemma_lex_transitive(label@, old_view[p as int].0, old_view[j - 1].0);
                    }
                } else if i < p && j > p {
                    assert(lex_lt(old_view[i].0, old_view[j - 1].0));
                } else if i > p {
                    assert(lex_lt(old_view[i - 1].0, old_view[j - 1].0));
                } else {
                    assert(lex_lt(old_view[i].0, old_view[j].0));
                }
            }
        }
        entries.insert(p, (label, name));
        proof {
            assert(entries@.map_values(|e: (Vec<char>, Vec<char>)| (e.0@, e.1@)) =~= new_view);
        }
        let r = LabelDict { entries };
        proof {
            assert(r@ == new_view);
            assert forall|key: Seq<char>| r.has_label(key) <==> (has_label_in(old_view, key) || key
                == label@) by {
                if r.has_label(key) {
                    let i = choose|i: int| 0 <= i < r@.len() && #[trigger] r@[i].0 == key;
                    if i < p {
                        assert(old_view[i].0 == key);
                    } else if i > p {
                        assert(old_view[i - 1].0 == key);
                    }
                }
                if has_label_in(old_view, key) {
                    let i = choose|i: int| 0 <= i < old_view.len() && #[trigger] old_view[i].0
                        == key;
                    if i < p {
                        assert(r@[i].0 == key);
                    } else {
                        assert(r@[i + 1].0 == key);
                    }
                }
                if key == label@ {
                    assert(r@[p as int].0 == key);
                }
            }
        }
        r
    }
}

/// `label` is a key of `dict`
pub open spec fn has_label_in(dict: Seq<(Seq<char>, Seq<char>)>, label: Seq<char>) -> bool {
    exists|i: int| 0 <= i < dict.len() && #[trigger] dict[i].0 == label
}

/// A line of `assembly` defines the local label `label`
pub open spec fn defines_label(assembly: Seq<char>, label: Seq<char>) -> bool {
    exists|j: int|
        0 <= j < spec_lines(assembly).len() && #[trigger] label_of(spec_lines(assembly)[j]) == Some(
            label,
        )
}

/// The labels and names of the dictionary that `assembly` gives rise to: every local label
/// defined by a line of `assembly`, named after itself followed by the decimal `hash`
pub open spec fn labels_of(dict: Seq<(Seq<char>, Seq<char>)>, assembly: Seq<char>, hash: u64) -> bool {
    &&& sorted_labels(dict)
    &&& forall|k: Seq<char>|
        #![trigger has_label_in(dict, k)]
        #![trigger defines_label(assembly, k)]
        has_label_in(dict, k) <==> defines_label(assembly, k)
    &&& forall|i: int| 0 <= i < dict.len() ==> #[trigger] dict[i].1 == dict[i].0 + decimal(
        hash as nat,
    )
}

/// The label dictionary of `assembly` whose names end in the decimal `hash`: the one
/// dictionary that `labels_of` describes (see `law_label_dictionary_is_determined`)
pub open spec fn spec_labels(assembly: Seq<char>, hash: u64) -> Seq<(Seq<char>, Seq<char>)> {
    choose|dict: Seq<(Seq<char>, Seq<char>)>| labels_of(dict, assembly, hash)
}

/// A dictionary that `labels_of` describes is `spec_labels`
proof fn lemma_spec_labels(dict: Seq<(Seq<char>, Seq<char>)>, assembly: Seq<char>, hash: u64)
    requires
        labels_of(dict, assembly, hash),
    ensures
        spec_labels(assembly, hash) == dict,
{
    assert(exists|d: Seq<(Seq<char>, Seq<char>)>| labels_of(d, assembly, hash));
    law_label_dictionary_is_determined(spec_labels(assembly, hash), dict, assembly, hash);
}

/// Computes the dictionary of the local labels that `assembly` defines: each is mapped to a
/// name made unique by appending the hash of the whole assembly
pub fn compute_labels_dictionary(assembly: &str) -> (r: LabelDict)
    ensures
        labels_of(r@, assembly@, str_hash(assembly@)),
        r@ == spec_labels(assembly@, str_hash(assembly@)),
{
    let hash = default_hash_of(assembly);
    let suffix = decimal_of(hash);
    let chars = chars_of(assembly);
    let all_lines = lines(chars.as_slice());
    let ghost ls = spec_lines(assembly@);
    let mut dict = LabelDict::new();
    let mut j: usize = 0;
    while j < all_lines.len()
        invariant
            j <= all_lines@.len(),
            line_views(all_lines@) == ls,
            ls == spec_lines(assembly@),
            suffix@ == decimal(hash as nat),
            forall|i: int| 0 <= i < dict@.len() ==> #[trigger] dict@[i].1 == dict@[i].0 + suffix@,
            forall|k: Seq<char>|
                dict.has_label(k) <==> (exists|l: int|
                    0 <= l < j && #[trigger] label_of(ls[l]) == Some(k)),
        decreases all_lines@.len() - j,
    {
        let line = &all_lines[j];
        let ghost lv = line@;
        assert(lv == ls[j as int]);
        let colon = find_char(line.as_slice(), 0, ':');
        proof {
            assert(line@.skip(0) =~= line@);
            lemma_index_of(line@, ':');
        }
        let ghost before = dict;
        if colon < line.len() {
            let mut label: Vec<char> = Vec::new();
            let mut k: usize = 0;
            while k < colon
                invariant
                    k <= colon < line@.len(),
                    label@ == line@.take(k as int),
                decreases colon - k,
            {
                label.push(line[k]);
                proof {
                    assert(line@.take(k + 1) =~= line@.take(k as int).push(line@[k as int]));
                }
                k = k + 1;
            }
            let prefix = ['.', 'L'];
            proof {
                assert(prefix@ =~= spec_local_prefix());
                assert(label@.skip(0) =~= label@);
            }
            if starts_with_at(label.as_slice(), 0, prefix.as_slice()) {
                let ghost key = label@;
                dict = dict.insert_label(label, suffix.as_slice());
                proof {
                    assert(label_of(ls[j as int]) == Some(key));
                }
            } else {
                proof {
                    assert(label_of(ls[j as int]) is None);
                }
            }
        } else {
            proof {
                assert(label_of(ls[j as int]) is None);
            }
        }
        proof {
            assert forall|k: Seq<char>| dict.has_label(k) <==> (exists|l: int|
                0 <= l < j + 1 && #[trigger] label_of(ls[l]) == Some(k)) by {
                if exists|l: int| 0 <= l < j + 1 && #[trigger] label_of(ls[l]) == Some(k) {
                    let l = choose|l: int| 0 <= l < j + 1 && #[trigger] label_of(ls[l]) == Some(k);
                    if l < j {
                        assert(before.has_label(k));
                    }
                }
            }
        }
        j = j + 1;
    }
    proof {
        use_type_invariant(&dict);
        assert(j == ls.len());
        assert forall|k: Seq<char>| has_label_in(dict@, k) <==> defines_label(assembly@, k) by {
            assert(dict.has_label(k) == has_label_in(dict@, k));
        }
        lemma_spec_labels(dict@, assembly@, hash);
    }
    dict
}

/// `line` with its braces doubled, so that it reads as itself in a format string
pub open spec fn escape_braces(line: Seq<char>) -> Seq<char> {
    spec_replace(spec_replace(line, seq!['{'], seq!['{', '{']), seq!['}'], seq!['}', '}'])
}

/// `s` with the first `n` labels of `dict` replaced, one after the other, by their names
pub open spec fn replace_labels(s: Seq<char>, dict: Seq<(Seq<char>, Seq<char>)>, n: int) -> Seq<
    char,
>
    decreases n,
{
    if n <= 0 {
        s
    } else {
        spec_replace(replace_labels(s, dict, n - 1), dict[n - 1].0, dict[n - 1].1)
    }
}

/// An assembly line made fit for `naked_asm!`: braces escaped, then every label of `dict`, in
/// label order, replaced by its name
pub open spec fn spec_sanitize(line: Seq<char>, dict: Seq<(Seq<char>, Seq<char>)>) -> Seq<char> {
    replace_labels(escape_braces(line), dict, dict.len() as int)
}

fn sanitize_chars(line: &[char], dict: &LabelDict) -> (r: Vec<char>)
    ensures
        r@ == spec_sanitize(line@, dict@),
{
    proof {
        use_type_invariant(dict);
    }
    let open = ['{'];
    let open2 = ['{', '{'];
    let close = ['}'];
    let close2 = ['}', '}'];
    proof {
        assert(open@ =~= seq!['{']);
        assert(open2@ =~= seq!['{', '{']);
        assert(close@ =~= seq!['}']);
        assert(close2@ =~= seq!['}', '}']);
    }
    let escaped = replace(line, open.as_slice(), open2.as_slice());
    let mut out = replace(escaped.as_slice(), close.as_slice(), close2.as_slice());
    let mut i: usize = 0;
    while i < dict.entries.len()
        invariant
            i <= dict@.len(),
            dict@.len() == dict.entries@.len(),
            sorted_labels(dict@),
            out@ == replace_labels(escape_braces(line@), dict@, i as int),
        decreases dict@.len() - i,
    {
        let entry = &dict.entries[i];
        proof {
            assert(dict@[i as int] == (entry.0@, entry.1@));
            assert(dict@[i as int].0.len() > 0);
        }
        out = replace(out.as_slice(), entry.0.as_slice(), entry.1.as_slice());
        i = i + 1;
    }
    out
}

/// Escapes the braces of an assembly `line` and replaces each label of `dict` by its name
pub fn sanitize_assembly_line(line: &str, dict: &LabelDict) -> (r: String)
    ensures
        r@ == spec_sanitize(line@, dict@),
{
    let chars = chars_of(line);
    let out = sanitize_chars(chars.as_slice(), dict);
    string_of(out.as_slice())
}

/// The characters of `.fnstart`
pub open spec fn spec_fnstart() -> Seq<char> {
    seq!['.', 'f', 'n', 's', 't', 'a', 'r', 't']
}

/// The characters of `.fnend`
pub open spec fn spec_fnend() -> Seq<char> {
    seq!['.', 'f', 'n', 'e', 'n', 'd']
}

/// The characters of `.size`
pub open spec fn spec_size_directive() -> Seq<char> {
    seq!['.', 's', 'i', 'z', 'e']
}

/// Why the compiler's assembly output cannot be used
#[derive(Clone, Copy, Debug, PartialEq, Eq, Structural)]
pub enum AssemblyError {
    /// more than one function in output assembly
    MoreThanOneFunction,
}

/// The state after the first `n` lines of `lines`: whether `.fnstart` and `.fnend` were seen,
/// and the output so far; `None` once a second `.fnstart` or `.fnend` shows up
pub open spec fn spec_extract(
    lines: Seq<Seq<char>>,
    dict: Seq<(Seq<char>, Seq<char>)>,
    n: int,
) -> Option<(bool, bool, Seq<char>)>
    decreases n,
{
    if n <= 0 {
        Some((false, false, Seq::empty()))
    } else {
        match spec_extract(lines, dict, n - 1) {
            None => None,
            Some((saw_start, saw_end, out)) => {
                let line = lines[n - 1];
                let t = spec_trim(line);
                if t == spec_fnstart() {
                    if saw_start {
                        None
                    } else {
                        Some((true, saw_end, out + line.push('\n')))
                    }
                } else if t == spec_fnend() {
                    if saw_end {
                        None
                    } else {
                        Some((saw_start, true, out + line.push('\n')))
                    }
                } else if spec_starts_with(t, spec_size_directive()) {
                    Some((saw_start, saw_end, out))
                } else if saw_start && !saw_end {
                    Some((saw_start, saw_end, out + spec_sanitize(line, dict).push('\n')))
                } else {
                    Some((saw_start, saw_end, out))
                }
            },
        }
    }
}

/// The part of `assembly` that the function's own code makes: the lines from `.fnstart` to
/// `.fnend`, both included, each sanitized but for those two, and without `.size` directives
pub open spec fn spec_function_assembly(
    assembly: Seq<char>,
    dict: Seq<(Seq<char>, Seq<char>)>,
) -> Option<Seq<char>> {
    let ls = spec_lines(assembly);
    match spec_extract(ls, dict, ls.len() as int) {
        Some((_, _, out)) => Some(out),
        None => None,
    }
}

/// Whether `.fnstart` and `.fnend` were seen in the first `n` lines of `lines`; `None` once
/// a second `.fnstart` or `.fnend` shows up
pub open spec fn spec_markers(lines: Seq<Seq<char>>, n: int) -> Option<(bool, bool)>
    decreases n,
{
    if n <= 0 {
        Some((false, false))
    } else {
        match spec_markers(lines, n - 1) {
            None => None,
            Some((saw_start, saw_end)) => {
                let t = spec_trim(lines[n - 1]);
                if t == spec_fnstart() {
                    if saw_start {
                        None
                    } else {
                        Some((true, saw_end))
                    }
                } else if t == spec_fnend() {
                    if saw_end {
                        None
                    } else {
                        Some((saw_start, true))
                    }
                } else {
                    Some((saw_start, saw_end))
                }
            },
        }
    }
}

/// `assembly` holds at most one function: no two lines that trim to `.fnstart`, and no two
/// that trim to `.fnend`
pub open spec fn spec_single_function(assembly: Seq<char>) -> bool {
    spec_markers(spec_lines(assembly), spec_lines(assembly).len() as int) is Some
}

/// Cutting the assembly fails exactly where the markers repeat, whatever the dictionary
proof fn lemma_extract_markers(lines: Seq<Seq<char>>, dict: Seq<(Seq<char>, Seq<char>)>, n: int)
    ensures
        spec_extract(lines, dict, n) is Some <==> spec_markers(lines, n) is Some,
        spec_extract(lines, dict, n) matches Some((a, b, _)) ==> spec_markers(lines, n) == Some(
            (a, b),
        ),
    decreases n,
{
    if n > 0 {
        lemma_extract_markers(lines, dict, n - 1);
    }
}

proof fn lemma_extract_stays_failed(
    lines: Seq<Seq<char>>,
    dict: Seq<(Seq<char>, Seq<char>)>,
    n: int,
    m: int,
)
    requires
        n <= m,
        spec_extract(lines, dict, n) is None,
    ensures
        spec_extract(lines, dict, m) is None,
    decreases m - n,
{
    if n < m {
        lemma_extract_stays_failed(lines, dict, n, m - 1);
    }
}

fn push_all(out: &mut Vec<char>, s: &[char])
    ensures
        final(out)@ == old(out)@ + s@,
{
    let mut k: usize = 0;
    while k < s.len()
        invariant
            k <= s@.len(),
            out@ == old(out)@ + s@.take(k as int),
        decreases s@.len() - k,
    {
        out.push(s[k]);
        proof {
            assert(s@.take(k + 1) =~= s@.take(k as int).push(s@[k as int]));
        }
        k = k + 1;
    }
    proof {
        assert(s@.take(s@.len() as int) =~= s@);
    }
}

/// Cuts the compiler's assembly output for the function's crate down to the function's code,
/// made fit to be embedded in `naked_asm!`: local labels are made unique (see
/// `compute_labels_dictionary`) and braces are escaped. Output with more than one function is
/// refused
pub fn try_produce_assembly(assembly: &str) -> (r: Result<String, AssemblyError>)
    ensures
        match spec_function_assembly(assembly@, spec_labels(assembly@, str_hash(assembly@))) {
            Some(out) => r matches Ok(s) && s@ == out,
            None => r == Err::<String, AssemblyError>(AssemblyError::MoreThanOneFunction),
        },
        r is Ok <==> spec_single_function(assembly@),
{
    proof {
        let ls = spec_lines(assembly@);
        lemma_extract_markers(ls, spec_labels(assembly@, str_hash(assembly@)), ls.len() as int);
    }
    let labels_dict = compute_labels_dictionary(assembly);
    let chars = chars_of(assembly);
    let all_lines = lines(chars.as_slice());
    let ghost ls = spec_lines(assembly@);
    let fnstart = ['.', 'f', 'n', 's', 't', 'a', 'r', 't'];
    let fnend = ['.', 'f', 'n', 'e', 'n', 'd'];
    let size = ['.', 's', 'i', 'z', 'e'];
    proof {
        assert(fnstart@ =~= spec_fnstart());
        assert(fnend@ =~= spec_fnend());
        assert(size@ =~= spec_size_directive());
    }
    let mut saw_fnstart = false;
    let mut saw_fnend = false;
    let mut output: Vec<char> = Vec::new();
    let mut j: usize = 0;
    while j < all_lines.len()
        invariant
            j <= all_lines@.len(),
            line_views(all_lines@) == ls,
            fnstart@ == spec_fnstart(),
            fnend@ == spec_fnend(),
            size@ == spec_size_directive(),
            ls == spec_lines(assembly@),
            labels_dict@ == spec_labels(assembly@, str_hash(assembly@)),
            spec_extract(ls, labels_dict@, j as int) == Some((saw_fnstart, saw_fnend, output@)),
        decreases all_lines@.len() - j,
    {
        let line = &all_lines[j];
        assert(line@ == ls[j as int]);
        let t = trim(line.as_slice());
        if eq_chars(t.as_slice(), fnstart.as_slice()) {
            if saw_fnstart {
                proof {
                    lemma_extract_stays_failed(ls, labels_dict@, j + 1, ls.len() as int);
                    lemma_extract_markers(ls, labels_dict@, ls.len() as int);
                }
                return Err(AssemblyError::MoreThanOneFunction);
            }
            saw_fnstart = true;
            push_all(&mut output, line.as_slice());
            output.push('\n');
        } else if eq_chars(t.as_slice(), fnend.as_slice()) {
            if saw_fnend {
                proof {
                    lemma_extract_stays_failed(ls, labels_dict@, j + 1, ls.len() as int);
                    lemma_extract_markers(ls, labels_dict@, ls.len() as int);
                }
                return Err(AssemblyError::MoreThanOneFunction);
            }
            saw_fnend = true;
            push_all(&mut output, line.as_slice());
            output.push('\n');
        } else if starts_with_at(t.as_slice(), 0, size.as_slice()) {
            proof {
                assert(t@.skip(0) =~= t@);
            }
        } else if saw_fnstart && !saw_fnend {
            proof {
                assert(t@.skip(0) =~= t@);
            }
            let sanitized = sanitize_chars(line.as_slice(), &labels_dict);
            push_all(&mut output, sanitized.as_slice());
            output.push('\n');
        } else {
            proof {
                assert(t@.skip(0) =~= t@);
            }
        }
        j = j + 1;
    }
    Ok(string_of(output.as_slice()))
}

/// Cuts the compiler's assembly output for the function's crate, which holds one function,
/// down to the function's code, made fit to be embedded in `naked_asm!` (see
/// `try_produce_assembly`)
pub fn produce_assembly(assembly: &str) -> (r: String)
    requires
        spec_single_function(assembly@),
    ensures
        spec_function_assembly(assembly@, spec_labels(assembly@, str_hash(assembly@))) matches Some(
            out,
        ) && r@ == out,
{
    proof {
        let ls = spec_lines(assembly@);
        lemma_extract_markers(ls, spec_labels(assembly@, str_hash(assembly@)), ls.len() as int);
    }
    try_produce_assembly(assembly).unwrap()
}

proof fn lemma_sorted_labels_equal(
    a: Seq<(Seq<char>, Seq<char>)>,
    b: Seq<(Seq<char>, Seq<char>)>,
    suffix: Seq<char>,
)
    requires
        sorted_labels(a),
        sorted_labels(b),
        forall|k: Seq<char>| has_label_in(a, k) <==> has_label_in(b, k),
        forall|i: int| 0 <= i < a.len() ==> #[trigger] a[i].1 == a[i].0 + suffix,
        forall|i: int| 0 <= i < b.len() ==> #[trigger] b[i].1 == b[i].0 + suffix,
    ensures
        a == b,
    decreases a.len(),
{
    if a.len() == 0 {
        if b.len() > 0 {
            assert(has_label_in(b, b[0].0));
        }
        assert(a =~= b);
    } else {
        assert(has_label_in(a, a[0].0));
        assert(b.len() > 0);
        assert(has_label_in(b, b[0].0));
        let j = choose|j: int| 0 <= j < b.len() && #[trigger] b[j].0 == a[0].0;
        let i = choose|i: int| 0 <= i < a.len() && #[trigger] a[i].0 == b[0].0;
        if j > 0 {
            assert(lex_lt(b[0].0, b[j].0));
            if i > 0 {
                assert(lex_lt(a[0].0, a[i].0));
                lemma_lex_transitive(a[0].0, a[i].0, a[0].0);
            }
            lemma_lex_irreflexive(a[0].0);
        }
        assert(a[0].0 == b[0].0);
        let a1 = a.skip(1);
        let b1 = b.skip(1);
        assert forall|k: Seq<char>| has_label_in(a1, k) <==> has_label_in(b1, k) by {
            if has_label_in(a1, k) {
                let x = choose|x: int| 0 <= x < a1.len() && #[trigger] a1[x].0 == k;
                assert(a[x + 1].0 == k);
                assert(lex_lt(a[0].0, a[x + 1].0));
                lemma_lex_irreflexive(k);
                assert(has_label_in(b, k));
                let y = choose|y: int| 0 <= y < b.len() && #[trigger] b[y].0 == k;
                assert(y != 0);
                assert(b1[y - 1].0 == k);
            }
            if has_label_in(b1, k) {
                let y = choose|y: int| 0 <= y < b1.len() && #[trigger] b1[y].0 == k;
                assert(b[y + 1].0 == k);
                assert(lex_lt(b[0].0, b[y + 1].0));
                lemma_lex_irreflexive(k);
                assert(has_label_in(a, k));
                let x = choose|x: int| 0 <= x < a.len() && #[trigger] a[x].0 == k;
                assert(x != 0);
                assert(a1[x - 1].0 == k);
            }
        }
        assert forall|x: int| 0 <= x < a1.len() implies #[trigger] a1[x].0.len() > 0 by {
            assert(a1[x] == a[x + 1]);
        }
        assert forall|x: int, y: int| 0 <= x < y < a1.len() implies lex_lt(
            #[trigger] a1[x].0,
            #[trigger] a1[y].0,
        ) by {
            assert(lex_lt(a[x + 1].0, a[y + 1].0));
        }
        assert forall|x: int| 0 <= x < b1.len() implies #[trigger] b1[x].0.len() > 0 by {
            assert(b1[x] == b[x + 1]);
        }
        assert forall|x: int, y: int| 0 <= x < y < b1.len() implies lex_lt(
            #[trigger] b1[x].0,
            #[trigger] b1[y].0,
        ) by {
            assert(lex_lt(b[x + 1].0, b[y + 1].0));
        }
        assert forall|x: int| 0 <= x < a1.len() implies #[trigger] a1[x].1 == a1[x].0 + suffix by {
            assert(a1[x] == a[x + 1]);
        }
        assert forall|x: int| 0 <= x < b1.len() implies #[trigger] b1[x].1 == b1[x].0 + suffix by {
            assert(b1[x] == b[x + 1]);
        }
        lemma_sorted_labels_equal(a1, b1, suffix);
        assert(a[0] == b[0]);
        assert(a =~= seq![a[0]] + a1);
        assert(b =~= seq![b[0]] + b1);
    }
}

/// The label dictionary is determined by the assembly: two dictionaries that both describe the
/// labels of `assembly` (as `compute_labels_dictionary` does) are the same, so the result of
/// `produce_assembly` is determined by its input
pub proof fn law_label_dictionary_is_determined(
    first: Seq<(Seq<char>, Seq<char>)>,
    second: Seq<(Seq<char>, Seq<char>)>,
    assembly: Seq<char>,
    hash: u64,
)
    requires
        labels_of(first, assembly, hash),
        labels_of(second, assembly, hash),
    ensures
        first == second,
{
    assert forall|k: Seq<char>| has_label_in(first, k) <==> has_label_in(second, k) by {
        assert(has_label_in(first, k) <==> defines_label(assembly, k));
        assert(has_label_in(second, k) <==> defines_label(assembly, k));
    }
    lemma_sorted_labels_equal(first, second, decimal(hash as nat));
}

/// What line `k` of `lines`, strictly inside the function, contributes to the output: nothing
/// where its trimmed text starts with `.size`, otherwise the line sanitized with `dict` and a
/// line break
pub open spec fn inner_line(
    lines: Seq<Seq<char>>,
    k: int,
    dict: Seq<(Seq<char>, Seq<char>)>,
) -> Seq<char> {
    if spec_starts_with(spec_trim(lines[k]), seq!['.', 's', 'i', 'z', 'e']) {
        Seq::empty()
    } else {
        spec_sanitize(lines[k], dict).push('\n')
    }
}

/// What the lines `from..to` of `lines` contribute, one after the other
pub open spec fn inner_lines(
    lines: Seq<Seq<char>>,
    from: int,
    to: int,
    dict: Seq<(Seq<char>, Seq<char>)>,
) -> Seq<char>
    decreases to - from,
{
    if to <= from {
        Seq::empty()
    } else {
        inner_lines(lines, from, to - 1, dict) + inner_line(lines, to - 1, dict)
    }
}

/// The state of the cut after the first `n` lines, for a single function whose `.fnstart`
/// line is `start` and whose `.fnend` line is `end`
proof fn lemma_extract_by_position(
    lines: Seq<Seq<char>>,
    dict: Seq<(Seq<char>, Seq<char>)>,
    start: int,
    end: int,
    n: int,
)
    requires
        0 <= start < end < lines.len(),
        spec_trim(lines[start]) == seq!['.', 'f', 'n', 's', 't', 'a', 'r', 't'],
        spec_trim(lines[end]) == seq!['.', 'f', 'n', 'e', 'n', 'd'],
        forall|k: int|
            0 <= k < lines.len() && k != start ==> spec_trim(#[trigger] lines[k]) != seq![
                '.',
                'f',
                'n',
                's',
                't',
                'a',
                'r',
                't',
            ],
        forall|k: int|
            0 <= k < lines.len() && k != end ==> spec_trim(#[trigger] lines[k]) != seq![
                '.',
                'f',
                'n',
                'e',
                'n',
                'd',
            ],
        0 <= n <= lines.len(),
    ensures
        n <= start ==> spec_extract(lines, dict, n) == Some((false, false, Seq::<char>::empty())),
        start < n <= end ==> spec_extract(lines, dict, n) == Some(
            (true, false, lines[start].push('\n') + inner_lines(lines, start + 1, n, dict)),
        ),
        end < n ==> spec_extract(lines, dict, n) == Some(
            (
                true,
                true,
                lines[start].push('\n') + inner_lines(lines, start + 1, end, dict) + lines[end].push(
                    '\n',
                ),
            ),
        ),
    decreases n,
{
    if n > 0 {
        lemma_extract_by_position(lines, dict, start, end, n - 1);
        let line = lines[n - 1];
        let t = spec_trim(line);
        assert(spec_fnstart() =~= seq!['.', 'f', 'n', 's', 't', 'a', 'r', 't']);
        assert(spec_fnend() =~= seq!['.', 'f', 'n', 'e', 'n', 'd']);
        assert(spec_size_directive() =~= seq!['.', 's', 'i', 'z', 'e']);
        if n - 1 == start {
            assert(Seq::<char>::empty() + line.push('\n') =~= line.push('\n') + inner_lines(
                lines,
                start + 1,
                n,
                dict,
            ));
        } else if n - 1 == end {
        } else if start < n - 1 && n - 1 < end {
            let before = lines[start].push('\n') + inner_lines(lines, start + 1, n - 1, dict);
            assert(before + inner_line(lines, n - 1, dict) =~= lines[start].push('\n')
                + inner_lines(lines, start + 1, n, dict));
            if !spec_starts_with(t, spec_size_directive()) {
                assert(inner_line(lines, n - 1, dict) == spec_sanitize(line, dict).push('\n'));
            } else {
                assert(before + Seq::<char>::empty() =~= before);
            }
        }
    }
}

/// Cutting out a single function keeps exactly its code: the `.fnstart` line, then every line
/// up to the `.fnend` line, sanitized, but those whose trimmed text starts with `.size`, then
/// the `.fnend` line; the lines before and after the function are left out
pub proof fn law_function_lines_are_kept(
    assembly: Seq<char>,
    dict: Seq<(Seq<char>, Seq<char>)>,
    start: int,
    end: int,
)
    requires
        0 <= start < end < spec_lines(assembly).len(),
        spec_trim(spec_lines(assembly)[start]) == seq!['.', 'f', 'n', 's', 't', 'a', 'r', 't'],
        spec_trim(spec_lines(assembly)[end]) == seq!['.', 'f', 'n', 'e', 'n', 'd'],
        forall|k: int|
            0 <= k < spec_lines(assembly).len() && k != start ==> spec_trim(
                #[trigger] spec_lines(assembly)[k],
            ) != seq!['.', 'f', 'n', 's', 't', 'a', 'r', 't'],
        forall|k: int|
            0 <= k < spec_lines(assembly).len() && k != end ==> spec_trim(
                #[trigger] spec_lines(assembly)[k],
            ) != seq!['.', 'f', 'n', 'e', 'n', 'd'],
    ensures
        spec_function_assembly(assembly, dict) == Some(
            spec_lines(assembly)[start].push('\n') + inner_lines(
                spec_lines(assembly),
                start + 1,
                end,
                dict,
            ) + spec_lines(assembly)[end].push('\n'),
        ),
{
    let ls = spec_lines(assembly);
    lemma_extract_by_position(ls, dict, start, end, ls.len() as int);
}

} // verus!
