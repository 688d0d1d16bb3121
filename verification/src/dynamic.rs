//! The dynamic-property mini-grammar embedded in declaration values: decides
//! whether a value is a literal or a `[[ id | default ]]` dynamic reference,
//! with a classified error for every malformed shape.

use vstd::prelude::*;
use vstd::string::StrSliceExecFns;
use crate::strutil::{spec_trim, trim_str, spec_find, find_char, is_digit_char};
use crate::props::{
    ParsedCssProperty, CssParsingError, CssParsingErrorModel, spec_from_kv, parse_res_models,
};

verus! {

/// A declaration whose value can change at runtime: a placeholder id and the
/// compiled-in default used when no override is active.
#[derive(PartialEq, Eq, Debug)]
pub struct DynamicCssProperty {
    pub dynamic_id: String,
    pub default: ParsedCssProperty,
}

impl Clone for DynamicCssProperty {
    fn clone(&self) -> (r: Self)
        ensures
            r == *self,
    {
        DynamicCssProperty { dynamic_id: self.dynamic_id.clone(), default: self.default }
    }
}

/// Mathematical image of a `DynamicCssProperty`.
pub struct DynamicCssPropertyModel {
    pub dynamic_id: Seq<char>,
    pub default: ParsedCssProperty,
}

impl View for DynamicCssProperty {
    type V = DynamicCssPropertyModel;

    open spec fn view(&self) -> DynamicCssPropertyModel {
        DynamicCssPropertyModel { dynamic_id: self.dynamic_id@, default: self.default }
    }
}

impl DynamicCssProperty {
    /// An override always parses through the same typed parser as the default,
    /// so inheritability follows the default's property kind.
    pub fn is_inheritable(&self) -> (r: bool)
        ensures
            r == self.default.spec_is_inheritable(),
    {
        self.default.is_inheritable()
    }
}

/// The value half of a rule: fixed at parse time or dynamically overridable.
#[derive(PartialEq, Eq, Debug)]
pub enum CssDeclaration {
    Static(ParsedCssProperty),
    Dynamic(DynamicCssProperty),
}

impl Clone for CssDeclaration {
    fn clone(&self) -> (r: Self)
        ensures
            r == *self,
    {
        match self {
            CssDeclaration::Static(p) => CssDeclaration::Static(*p),
            CssDeclaration::Dynamic(d) => CssDeclaration::Dynamic(d.clone()),
        }
    }
}

/// Mathematical image of a `CssDeclaration`.
pub enum CssDeclarationModel {
    Static(ParsedCssProperty),
    Dynamic(DynamicCssPropertyModel),
}

impl View for CssDeclaration {
    type V = CssDeclarationModel;

    open spec fn view(&self) -> CssDeclarationModel {
        match self {
            CssDeclaration::Static(p) => CssDeclarationModel::Static(*p),
            CssDeclaration::Dynamic(d) => CssDeclarationModel::Dynamic(d@),
        }
    }
}

impl CssDeclaration {
    pub open spec fn spec_is_inheritable(self) -> bool {
        match self {
            CssDeclaration::Static(p) => p.spec_is_inheritable(),
            CssDeclaration::Dynamic(d) => d.default.spec_is_inheritable(),
        }
    }

    /// Whether the declared property kind is inherited by child elements.
    pub fn is_inheritable(&self) -> (r: bool)
        ensures
            r == self.spec_is_inheritable(),
    {
        match self {
            CssDeclaration::Static(p) => p.is_inheritable(),
            CssDeclaration::Dynamic(d) => d.is_inheritable(),
        }
    }
}

/// Error classifying exactly one malformed aspect of a `[[ ... ]]` value.
#[derive(Clone, PartialEq, Eq, Debug)]
pub enum DynamicCssParseError {
    /// Only one side of the `[[` / `]]` pair is present.
    UnclosedBraces,
    /// There is a valid id but no default value.
    NoDefaultCase,
    /// There is no id, e.g. `[[ 400px ]]`.
    NoId,
    /// The id starts with a digit or is itself a parsable value for the key.
    InvalidId,
    /// The braces enclose only whitespace, e.g. `[[ ]]`.
    EmptyBraces,
    /// The default (or literal) value failed the typed parser.
    UnexpectedValue(CssParsingError),
}

/// Mathematical image of a `DynamicCssParseError`.
pub enum DynamicCssParseErrorModel {
    UnclosedBraces,
    NoDefaultCase,
    NoId,
    InvalidId,
    EmptyBraces,
    UnexpectedValue(CssParsingErrorModel),
}

impl View for DynamicCssParseError {
    type V = DynamicCssParseErrorModel;

    open spec fn view(&self) -> DynamicCssParseErrorModel {
        match self {
            DynamicCssParseError::UnclosedBraces => DynamicCssParseErrorModel::UnclosedBraces,
            DynamicCssParseError::NoDefaultCase => DynamicCssParseErrorModel::NoDefaultCase,
            DynamicCssParseError::NoId => DynamicCssParseErrorModel::NoId,
            DynamicCssParseError::InvalidId => DynamicCssParseErrorModel::InvalidId,
            DynamicCssParseError::EmptyBraces => DynamicCssParseErrorModel::EmptyBraces,
            DynamicCssParseError::UnexpectedValue(e) => DynamicCssParseErrorModel::UnexpectedValue(
                e@,
            ),
        }
    }
}

impl From<CssParsingError> for DynamicCssParseError {
    fn from(e: CssParsingError) -> (r: Self) {
        DynamicCssParseError::UnexpectedValue(e)
    }
}

impl vstd::std_specs::convert::FromSpecImpl<CssParsingError> for DynamicCssParseError {
    open spec fn obeys_from_spec() -> bool {
        true
    }

    open spec fn from_spec(e: CssParsingError) -> Self {
        DynamicCssParseError::UnexpectedValue(e)
    }
}

/// The trimmed value opens with `[[`.
pub open spec fn starts_with_braces(v: Seq<char>) -> bool {
    v.len() >= 2 && v[0] == '[' && v[1] == '['
}

/// The trimmed value closes with `]]`.
pub open spec fn ends_with_braces(v: Seq<char>) -> bool {
    v.len() >= 2 && v[v.len() - 1] == ']' && v[v.len() - 2] == ']'
}

/// Drops every leading `[[`.
pub open spec fn strip_start_braces(s: Seq<char>) -> Seq<char>
    decreases s.len(),
{
    if s.len() >= 2 && s[0] == '[' && s[1] == '[' {
        strip_start_braces(s.skip(2))
    } else {
        s
    }
}

/// Drops every trailing `]]`.
pub open spec fn strip_end_braces(s: Seq<char>) -> Seq<char>
    decreases s.len(),
{
    if s.len() >= 2 && s[s.len() - 1] == ']' && s[s.len() - 2] == ']' {
        strip_end_braces(s.take(s.len() - 2))
    } else {
        s
    }
}

/// The text inside the braces of a trimmed, brace-wrapped value, itself trimmed.
pub open spec fn spec_inner(v: Seq<char>) -> Seq<char> {
    spec_trim(strip_end_braces(strip_start_braces(v)))
}

/// What `determine_static_or_dynamic_css_property` returns for a declaration's
/// key and raw value text, per the dynamic-property grammar.
pub open spec fn spec_determine(key: Seq<char>, value: Seq<char>) -> Result<
    CssDeclarationModel,
    DynamicCssParseErrorModel,
> {
    let k = spec_trim(key);
    let v = spec_trim(value);
    if starts_with_braces(v) != ends_with_braces(v) {
        Err(DynamicCssParseErrorModel::UnclosedBraces)
    } else if starts_with_braces(v) {
        spec_determine_dynamic(k, spec_inner(v))
    } else {
        match spec_from_kv(k, v) {
            Ok(p) => Ok(CssDeclarationModel::Static(p)),
            Err(e) => Err(DynamicCssParseErrorModel::UnexpectedValue(e)),
        }
    }
}

/// The dynamic path of the grammar, over the trimmed inner text.
pub open spec fn spec_determine_dynamic(k: Seq<char>, inner: Seq<char>) -> Result<
    CssDeclarationModel,
    DynamicCssParseErrorModel,
> {
    match spec_find(inner, '|') {
        None => {
            if inner.len() == 0 {
                Err(DynamicCssParseErrorModel::EmptyBraces)
            } else if spec_from_kv(k, inner) is Ok {
                Err(DynamicCssParseErrorModel::NoId)
            } else {
                Err(DynamicCssParseErrorModel::NoDefaultCase)
            }
        },
        Some(p) => {
            let id = spec_trim(inner.subrange(0, p));
            let def = spec_trim(inner.subrange(p + 1, inner.len() as int));
            if id.len() == 0 && def.len() == 0 {
                Err(DynamicCssParseErrorModel::EmptyBraces)
            } else if id.len() == 0 {
                Err(DynamicCssParseErrorModel::NoId)
            } else if def.len() == 0 {
                Err(DynamicCssParseErrorModel::NoDefaultCase)
            } else if is_digit_char(id[0]) || spec_from_kv(k, id) is Ok {
                Err(DynamicCssParseErrorModel::InvalidId)
            } else {
                match spec_from_kv(k, def) {
                    Ok(prop) => Ok(
                        CssDeclarationModel::Dynamic(
                            DynamicCssPropertyModel { dynamic_id: id, default: prop },
                        ),
                    ),
                    Err(e) => Err(DynamicCssParseErrorModel::UnexpectedValue(e)),
                }
            }
        },
    }
}

/// `r` is the executable image of the specification result `s`.
pub open spec fn determine_res_models(
    r: Result<CssDeclaration, DynamicCssParseError>,
    s: Result<CssDeclarationModel, DynamicCssParseErrorModel>,
) -> bool {
    match (r, s) {
        (Ok(d), Ok(m)) => d@ == m,
        (Err(e), Err(f)) => e@ == f,
        _ => false,
    }
}

proof fn lemma_strip_start_at(s: Seq<char>, i: int)
    requires
        0 <= i <= s.len(),
        i % 2 == 0,
        forall|k: int| 0 <= k < i ==> s[k] == '[',
        !(i + 1 < s.len() && s[i] == '[' && s[i + 1] == '['),
    ensures
        strip_start_braces(s) == s.skip(i),
    decreases i,
{
    if i == 0 {
        assert(s.skip(0) =~= s);
    } else {
        assert(s[0] == '[' && s[1] == '[');
        let t = s.skip(2);
        assert(forall|k: int| 0 <= k < i - 2 ==> t[k] == s[k + 2]);
        lemma_strip_start_at(t, i - 2);
        assert(t.skip(i - 2) =~= s.skip(i));
    }
}

proof fn lemma_strip_end_at(s: Seq<char>, j: int)
    requires
        0 <= j <= s.len(),
        (s.len() - j) % 2 == 0,
        forall|k: int| j <= k < s.len() ==> s[k] == ']',
        !(j >= 2 && s[j - 1] == ']' && s[j - 2] == ']'),
    ensures
        strip_end_braces(s) == s.take(j),
    decreases s.len() - j,
{
    if j == s.len() {
        assert(s.take(j) =~= s);
    } else {
        assert(s[s.len() - 1] == ']' && s[s.len() - 2] == ']');
        let t = s.take(s.len() - 2);
        lemma_strip_end_at(t, j);
        assert(t.take(j) =~= s.take(j));
    }
}

/// Decides whether one declaration is static or dynamic, or reports which
/// aspect of the dynamic grammar the value violates.
pub fn determine_static_or_dynamic_css_property(key: &str, value: &str) -> (r: Result<
    CssDeclaration,
    DynamicCssParseError,
>)
    ensures
        determine_res_models(r, spec_determine(key@, value@)),
{
    let k = trim_str(key);
    let v = trim_str(value);
    let n: usize = v.unicode_len();
    let starts = n >= 2 && v.get_char(0) == '[' && v.get_char(1) == '[';
    let ends = n >= 2 && v.get_char(n - 1) == ']' && v.get_char(n - 2) == ']';
    if starts != ends {
        return Err(DynamicCssParseError::UnclosedBraces);
    }
    if !starts {
        return match ParsedCssProperty::from_kv(k, v) {
            Ok(p) => Ok(CssDeclaration::Static(p)),
            Err(e) => Err(DynamicCssParseError::UnexpectedValue(e)),
        };
    }
    // strip every leading `[[`
    let mut i: usize = 0;
    while i + 1 < n && v.get_char(i) == '[' && v.get_char(i + 1) == '['
        invariant
            0 <= i <= n,
            n == v@.len(),
            i % 2 == 0,
            forall|k2: int| 0 <= k2 < i ==> v@[k2] == '[',
        decreases n - i,
    {
        i = i + 2;
    }
    proof {
        lemma_strip_start_at(v@, i as int);
    }
    // strip every trailing `]]` of what is left
    let stripped = v.substring_char(i, n);
    let m: usize = n - i;
    let mut j: usize = m;
    while j >= 2 && stripped.get_char(j - 1) == ']' && stripped.get_char(j - 2) == ']'
        invariant
            0 <= j <= m,
            m == stripped@.len(),
            (m - j) % 2 == 0,
            forall|k2: int| j <= k2 < m ==> stripped@[k2] == ']',
        decreases j,
    {
        j = j - 2;
    }
    proof {
        lemma_strip_end_at(stripped@, j as int);
    }
    let inner = trim_str(stripped.substring_char(0, j));
    proof {
        assert(inner@ == spec_inner(v@));
    }
    let inner_len: usize = inner.unicode_len();
    match find_char(inner, '|') {
        None => {
            if inner_len == 0 {
                Err(DynamicCssParseError::EmptyBraces)
            } else if ParsedCssProperty::from_kv(k, inner).is_ok() {
                Err(DynamicCssParseError::NoId)
            } else {
                Err(DynamicCssParseError::NoDefaultCase)
            }
        },
        Some(p) => {
            let id = trim_str(inner.substring_char(0, p));
            let def = trim_str(inner.substring_char(p + 1, inner_len));
            let id_len: usize = id.unicode_len();
            let def_len: usize = def.unicode_len();
            if id_len == 0 && def_len == 0 {
                Err(DynamicCssParseError::EmptyBraces)
            } else if id_len == 0 {
                Err(DynamicCssParseError::NoId)
            } else if def_len == 0 {
                Err(DynamicCssParseError::NoDefaultCase)
            } else {
                let c0 = id.get_char(0);
                if ('0' <= c0 && c0 <= '9') || ParsedCssProperty::from_kv(k, id).is_ok() {
                    Err(DynamicCssParseError::InvalidId)
                } else {
                    match ParsedCssProperty::from_kv(k, def) {
                        Ok(prop) => Ok(
                            CssDeclaration::Dynamic(
                                DynamicCssProperty { dynamic_id: id.to_owned(), default: prop },
                            ),
                        ),
                        Err(e) => Err(DynamicCssParseError::UnexpectedValue(e)),
                    }
                }
            }
        },
    }
}

/// Law: a value that, after trimming, is wrapped on exactly one side by the
/// dynamic braces is always reported as `UnclosedBraces`, never anything else.
pub proof fn lemma_unclosed_braces(key: Seq<char>, value: Seq<char>)
    requires
        starts_with_braces(spec_trim(value)) != ends_with_braces(spec_trim(value)),
    ensures
        spec_determine(key, value) == Err::<CssDeclarationModel, _>(
            DynamicCssParseErrorModel::UnclosedBraces,
        ),
{
}

/// Law: a value that is not brace-wrapped resolves to the static parse of the
/// pair; in particular every valid non-wrapped pair yields `Static(parse)`.
pub proof fn lemma_static_resolution(key: Seq<char>, value: Seq<char>)
    requires
        !starts_with_braces(spec_trim(value)),
        !ends_with_braces(spec_trim(value)),
    ensures
        spec_determine(key, value) == match spec_from_kv(spec_trim(key), spec_trim(value)) {
            Ok(p) => Ok::<_, DynamicCssParseErrorModel>(CssDeclarationModel::Static(p)),
            Err(e) => Err(DynamicCssParseErrorModel::UnexpectedValue(e)),
        },
{
}

/// Law: a brace-wrapped value whose inner text splits at the first `|` into a
/// non-empty id that neither starts with a digit nor parses as a value for the
/// key, and a default that does parse, resolves to exactly that dynamic
/// property.
pub proof fn lemma_dynamic_resolution(
    key: Seq<char>,
    value: Seq<char>,
    p: int,
    prop: ParsedCssProperty,
)
    requires
        starts_with_braces(spec_trim(value)),
        ends_with_braces(spec_trim(value)),
        spec_find(spec_inner(spec_trim(value)), '|') == Some(p),
        spec_trim(spec_inner(spec_trim(value)).subrange(0, p)).len() > 0,
        !is_digit_char(spec_trim(spec_inner(spec_trim(value)).subrange(0, p))[0]),
        spec_from_kv(
            spec_trim(key),
            spec_trim(spec_inner(spec_trim(value)).subrange(0, p)),
        ) is Err,
        spec_from_kv(
            spec_trim(key),
            spec_trim(
                spec_inner(spec_trim(value)).subrange(
                    p + 1,
                    spec_inner(spec_trim(value)).len() as int,
                ),
            ),
        ) == Ok::<_, CssParsingErrorModel>(prop),
    ensures
        spec_determine(key, value) == Ok::<_, DynamicCssParseErrorModel>(
            CssDeclarationModel::Dynamic(
                DynamicCssPropertyModel {
                    dynamic_id: spec_trim(spec_inner(spec_trim(value)).subrange(0, p)),
                    default: prop,
                },
            ),
        ),
{
    let v = spec_trim(value);
    let inner = spec_inner(v);
    let def = spec_trim(inner.subrange(p + 1, inner.len() as int));
    if def.len() == 0 {
        crate::props::lemma_from_kv_empty_value(spec_trim(key), def);
    }
}

} // verus!
