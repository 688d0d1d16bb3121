//! The stylesheet value object and the rule builder: a verified state machine
//! that folds the tokenizer's stream into an ordered list of rules.

use vstd::prelude::*;
use vstd::string::StrSliceExecFns;
use crate::strutil::{str_eq, str_lex_lt, lex_lt, lemma_lex_trichotomy, lemma_lex_transitive};
use crate::props::{ParsedCssProperty, CssParsingError, CssParsingErrorModel};
use crate::dynamic::{
    CssDeclaration, CssDeclarationModel, DynamicCssParseError, DynamicCssParseErrorModel,
    determine_static_or_dynamic_css_property, spec_determine,
};
use crate::overrides::OverrideMap;
use crate::token::{
    CssToken, TokenModel, CssSyntaxError, token_stream, remaining_tokens, ascii_tokenizer,
    tokenizer_new, tokenizer_next, tokenizer_space, strip_end_spaces, strip_end_spaces_exec,
};

verus! {

/// Error from parsing a stylesheet source text.
#[derive(Clone, PartialEq, Eq, Debug)]
pub enum CssParseError {
    /// A hard error in the CSS syntax, from the tokenizer.
    ParseError(CssSyntaxError),
    /// Block braces are not balanced at the end of the input.
    UnclosedBlock,
    /// A selector token inside a block, or a declaration outside one.
    MalformedCss,
    /// Error in a declaration's dynamic-property syntax.
    DynamicCssParseError(DynamicCssParseError),
    /// Error parsing the value of a field.
    UnexpectedValue(CssParsingError),
}

/// Mathematical image of a `CssParseError`.
pub enum CssParseErrorModel {
    ParseError(CssSyntaxError),
    UnclosedBlock,
    MalformedCss,
    DynamicCssParseError(DynamicCssParseErrorModel),
    UnexpectedValue(CssParsingErrorModel),
}

impl View for CssParseError {
    type V = CssParseErrorModel;

    open spec fn view(&self) -> CssParseErrorModel {
        match self {
            CssParseError::ParseError(e) => CssParseErrorModel::ParseError(*e),
            CssParseError::UnclosedBlock => CssParseErrorModel::UnclosedBlock,
            CssParseError::MalformedCss => CssParseErrorModel::MalformedCss,
            CssParseError::DynamicCssParseError(e) => CssParseErrorModel::DynamicCssParseError(e@),
            CssParseError::UnexpectedValue(e) => CssParseErrorModel::UnexpectedValue(e@),
        }
    }
}

impl From<CssParsingError> for CssParseError {
    fn from(e: CssParsingError) -> (r: Self) {
        CssParseError::UnexpectedValue(e)
    }
}

impl vstd::std_specs::convert::FromSpecImpl<CssParsingError> for CssParseError {
    open spec fn obeys_from_spec() -> bool {
        true
    }

    open spec fn from_spec(e: CssParsingError) -> Self {
        CssParseError::UnexpectedValue(e)
    }
}

impl From<DynamicCssParseError> for CssParseError {
    fn from(e: DynamicCssParseError) -> (r: Self) {
        CssParseError::DynamicCssParseError(e)
    }
}

impl vstd::std_specs::convert::FromSpecImpl<DynamicCssParseError> for CssParseError {
    open spec fn obeys_from_spec() -> bool {
        true
    }

    open spec fn from_spec(e: DynamicCssParseError) -> Self {
        CssParseError::DynamicCssParseError(e)
    }
}

/// Error from hot-reloading a stylesheet from a watched file.
#[derive(Debug)]
pub enum HotReloadError {
    /// The file could not be read: the I/O failure's message and the path.
    Io(String, String),
    FailedToReload,
}

/// One selector with one declaration, e.g. `div#myid.myclass` with
/// `("justify-content", "center")`.  The atomic unit of a parsed stylesheet;
/// no cascading is applied.
#[derive(PartialEq, Eq, Debug)]
pub struct CssRule {
    /// The element type, `*` by default.
    pub html_type: String,
    /// The `#id`, if any.
    pub id: Option<String>,
    /// The `.class` names, lexicographically sorted and deduplicated.
    pub classes: Vec<String>,
    /// The property key and its parsed value.
    pub declaration: (String, CssDeclaration),
}

/// Mathematical image of a `CssRule`.
#[verifier::ext_equal]
pub struct RuleModel {
    pub html_type: Seq<char>,
    pub id: Option<Seq<char>>,
    pub classes: Seq<Seq<char>>,
    pub key: Seq<char>,
    pub declaration: CssDeclarationModel,
}

impl View for CssRule {
    type V = RuleModel;

    open spec fn view(&self) -> RuleModel {
        RuleModel {
            html_type: self.html_type@,
            id: self.id.deep_view(),
            classes: self.classes.deep_view(),
            key: self.declaration.0@,
            declaration: self.declaration.1@,
        }
    }
}

impl Clone for CssRule {
    fn clone(&self) -> (r: Self)
        ensures
            r@ == self@,
    {
        let r = CssRule {
            html_type: self.html_type.clone(),
            id: clone_opt_string(&self.id),
            classes: clone_string_vec(&self.classes),
            declaration: (self.declaration.0.clone(), self.declaration.1.clone()),
        };
        proof {
            assert(r@ =~= self@);
        }
        r
    }
}

impl CssRule {
    /// Whether a change to this rule requires recomputing layout.  Every
    /// property is treated as layout-affecting.
    pub fn needs_relayout(&self) -> (r: bool)
        ensures
            r == true,
    {
        true
    }
}

pub open spec fn rules_view(rs: Seq<CssRule>) -> Seq<RuleModel> {
    rs.map_values(|r: CssRule| r@)
}

/// Strictly ascending (hence duplicate-free) in lexicographic order.
pub open spec fn sorted_classes(cs: Seq<Seq<char>>) -> bool {
    forall|i: int, j: int| 0 <= i < j < cs.len() ==> lex_lt(cs[i], cs[j])
}

/// Where `c` belongs in the sorted class list `cs`: inserted in order, or
/// dropped when already present.
pub open spec fn spec_insert_class(cs: Seq<Seq<char>>, c: Seq<char>) -> Seq<Seq<char>>
    decreases cs.len(),
{
    if cs.len() == 0 {
        seq![c]
    } else if c == cs[0] {
        cs
    } else if lex_lt(c, cs[0]) {
        seq![c] + cs
    } else {
        seq![cs[0]] + spec_insert_class(cs.drop_first(), c)
    }
}

proof fn lemma_insert_class_props(cs: Seq<Seq<char>>, c: Seq<char>)
    requires
        sorted_classes(cs),
    ensures
        sorted_classes(spec_insert_class(cs, c)),
        forall|k: int|
            0 <= k < spec_insert_class(cs, c).len() ==> spec_insert_class(cs, c)[k] == c
                || cs.contains(spec_insert_class(cs, c)[k]),
    decreases cs.len(),
{
    let r = spec_insert_class(cs, c);
    if cs.len() == 0 {
    } else if c == cs[0] {
    } else if lex_lt(c, cs[0]) {
        assert forall|i: int, j: int| 0 <= i < j < r.len() implies lex_lt(r[i], r[j]) by {
            if i == 0 {
                if j == 1 {
                } else {
                    lemma_lex_transitive(c, cs[0], cs[j - 1]);
                }
            }
        }
    } else {
        lemma_lex_trichotomy(c, cs[0]);
        assert(lex_lt(cs[0], c));
        let tail = cs.drop_first();
        assert(sorted_classes(tail)) by {
            assert(forall|i: int, j: int|
                0 <= i < j < tail.len() ==> tail[i] == cs[i + 1] && tail[j] == cs[j + 1]);
        }
        lemma_insert_class_props(tail, c);
        let rt = spec_insert_class(tail, c);
        assert forall|i: int, j: int| 0 <= i < j < r.len() implies lex_lt(r[i], r[j]) by {
            if i == 0 {
                assert(r[j] == rt[j - 1]);
                if rt[j - 1] == c {
                } else {
                    assert(tail.contains(rt[j - 1]));
                    let w = choose|w: int| 0 <= w < tail.len() && tail[w] == rt[j - 1];
                    assert(cs[w + 1] == rt[j - 1]);
                    if w + 1 > 0 {
                        assert(lex_lt(cs[0], cs[w + 1]));
                    }
                }
            } else {
                assert(r[i] == rt[i - 1] && r[j] == rt[j - 1]);
            }
        }
        assert forall|k: int| 0 <= k < r.len() implies r[k] == c || cs.contains(r[k]) by {
            if k == 0 {
                assert(cs.contains(cs[0]));
            } else {
                assert(r[k] == rt[k - 1]);
                if rt[k - 1] != c {
                    assert(tail.contains(rt[k - 1]));
                    let w = choose|w: int| 0 <= w < tail.len() && tail[w] == rt[k - 1];
                    assert(cs[w + 1] == rt[k - 1]);
                }
            }
        }
    }
}

proof fn lemma_insert_class_at(cs: Seq<Seq<char>>, c: Seq<char>, i: int)
    requires
        sorted_classes(cs),
        0 <= i <= cs.len(),
        forall|k: int| 0 <= k < i ==> lex_lt(cs[k], c),
        i < cs.len() ==> !lex_lt(cs[i], c),
    ensures
        i < cs.len() && cs[i] == c ==> spec_insert_class(cs, c) == cs,
        !(i < cs.len() && cs[i] == c) ==> spec_insert_class(cs, c) =~= cs.take(i) + seq![c]
            + cs.skip(i),
    decreases i,
{
    if i == 0 {
        if cs.len() == 0 {
            assert(spec_insert_class(cs, c) =~= cs.take(0) + seq![c] + cs.skip(0));
        } else if cs[0] == c {
        } else {
            lemma_lex_trichotomy(c, cs[0]);
            assert(lex_lt(c, cs[0]));
            assert(seq![c] + cs =~= cs.take(0) + seq![c] + cs.skip(0));
        }
    } else {
        assert(lex_lt(cs[0], c));
        lemma_lex_trichotomy(c, cs[0]);
        let tail = cs.drop_first();
        assert(sorted_classes(tail)) by {
            assert(forall|a: int, b: int|
                0 <= a < b < tail.len() ==> tail[a] == cs[a + 1] && tail[b] == cs[b + 1]);
        }
        assert(forall|k: int| 0 <= k < i - 1 ==> tail[k] == cs[k + 1] && lex_lt(tail[k], c));
        if i - 1 < tail.len() {
            assert(tail[i - 1] == cs[i]);
        }
        lemma_insert_class_at(tail, c, i - 1);
        if i < cs.len() && cs[i] == c {
            assert(tail[i - 1] == c);
            assert(spec_insert_class(tail, c) == tail);
            assert(seq![cs[0]] + tail =~= cs);
        } else {
            assert(seq![cs[0]] + (tail.take(i - 1) + seq![c] + tail.skip(i - 1)) =~= cs.take(i)
                + seq![c] + cs.skip(i));
        }
    }
}

/// Inserts a class name into a sorted, duplicate-free class list.
fn insert_class(classes: &mut Vec<String>, c: String)
    requires
        sorted_classes(old(classes).deep_view()),
    ensures
        final(classes).deep_view() == spec_insert_class(old(classes).deep_view(), c@),
        sorted_classes(final(classes).deep_view()),
{
    let ghost cs = old(classes).deep_view();
    let mut i: usize = 0;
    while i < classes.len() && str_lex_lt(classes[i].as_str(), c.as_str())
        invariant
            *classes == *old(classes),
            0 <= i <= classes@.len(),
            cs == classes.deep_view(),
            forall|k: int| 0 <= k < i ==> lex_lt(cs[k], c@),
        decreases classes@.len() - i,
    {
        proof {
            assert(cs[i as int] == classes@[i as int]@);
        }
        i = i + 1;
    }
    proof {
        assert(cs.len() == classes@.len());
        if i < classes.len() {
            assert(cs[i as int] == classes@[i as int]@);
        }
    }
    if i < classes.len() && str_eq(classes[i].as_str(), c.as_str()) {
        proof {
            lemma_insert_class_at(cs, c@, i as int);
            lemma_insert_class_props(cs, c@);
        }
        return ;
    }
    proof {
        lemma_insert_class_at(cs, c@, i as int);
        lemma_insert_class_props(cs, c@);
    }
    classes.insert(i, c);
    proof {
        assert(classes.deep_view() =~= cs.take(i as int) + seq![c@] + cs.skip(i as int)) by {
            assert(classes@.len() == cs.len() + 1);
            assert(forall|k: int| 0 <= k < i ==> classes@[k]@ == cs[k]);
            assert(classes@[i as int]@ == c@);
            assert(forall|k: int| i < k < classes@.len() ==> classes@[k]@ == cs[k - 1]);
        }
    }
}

/// The rule builder's accumulated state between two tokens.
#[verifier::ext_equal]
pub struct BuilderState {
    pub in_block: bool,
    pub nesting: int,
    pub cur_type: Seq<char>,
    pub cur_id: Option<Seq<char>>,
    pub cur_classes: Seq<Seq<char>>,
    pub cur_pseudo: bool,
    pub rules: Seq<RuleModel>,
}

pub open spec fn init_state() -> BuilderState {
    BuilderState {
        in_block: false,
        nesting: 0,
        cur_type: "*"@,
        cur_id: None,
        cur_classes: Seq::empty(),
        cur_pseudo: false,
        rules: Seq::empty(),
    }
}

/// One transition of the rule builder.  Selector tokens are only legal
/// outside a block and declarations only inside one; a declaration under an
/// active pseudo-class selector is skipped; a block end resets the selector
/// context; a stray block end counts as unbalanced braces.
pub open spec fn spec_step(st: BuilderState, tok: TokenModel) -> Result<
    BuilderState,
    CssParseErrorModel,
> {
    match tok {
        TokenModel::TypeSelector(s) => if st.in_block {
            Err(CssParseErrorModel::MalformedCss)
        } else {
            Ok(BuilderState { cur_type: s, ..st })
        },
        TokenModel::IdSelector(s) => if st.in_block {
            Err(CssParseErrorModel::MalformedCss)
        } else {
            Ok(BuilderState { cur_id: Some(s), ..st })
        },
        TokenModel::ClassSelector(s) => if st.in_block {
            Err(CssParseErrorModel::MalformedCss)
        } else {
            Ok(BuilderState { cur_classes: spec_insert_class(st.cur_classes, s), ..st })
        },
        TokenModel::PseudoClass(_) => if st.in_block {
            Err(CssParseErrorModel::MalformedCss)
        } else {
            Ok(BuilderState { cur_pseudo: true, ..st })
        },
        TokenModel::BlockStart => Ok(
            BuilderState { in_block: true, nesting: st.nesting + 1, ..st },
        ),
        TokenModel::BlockEnd => if st.nesting == 0 {
            Err(CssParseErrorModel::UnclosedBlock)
        } else {
            Ok(
                BuilderState {
                    in_block: false,
                    nesting: st.nesting - 1,
                    cur_type: "*"@,
                    cur_id: None,
                    cur_classes: Seq::empty(),
                    cur_pseudo: false,
                    rules: st.rules,
                },
            )
        },
        TokenModel::Declaration(k, v) => if !st.in_block {
            Err(CssParseErrorModel::MalformedCss)
        } else if st.cur_pseudo {
            Ok(st)
        } else {
            match spec_determine(k, v) {
                Err(e) => Err(CssParseErrorModel::DynamicCssParseError(e)),
                Ok(d) => Ok(
                    BuilderState {
                        rules: st.rules.push(
                            RuleModel {
                                html_type: st.cur_type,
                                id: st.cur_id,
                                classes: st.cur_classes,
                                key: k,
                                declaration: d,
                            },
                        ),
                        ..st
                    },
                ),
            }
        },
        TokenModel::Ignored => Ok(st),
        TokenModel::EndOfStream => Ok(st),
        TokenModel::SyntaxError(_) => Ok(st),
    }
}

pub open spec fn spec_finish(st: BuilderState) -> Result<Seq<RuleModel>, CssParseErrorModel> {
    if st.nesting != 0 {
        Err(CssParseErrorModel::UnclosedBlock)
    } else {
        Ok(st.rules)
    }
}

/// Folds the builder over a token stream; the first error aborts the parse.
pub open spec fn spec_run(tokens: Seq<TokenModel>, st: BuilderState) -> Result<
    Seq<RuleModel>,
    CssParseErrorModel,
>
    decreases tokens.len(),
{
    if tokens.len() == 0 {
        spec_finish(st)
    } else {
        match tokens[0] {
            TokenModel::EndOfStream => spec_finish(st),
            TokenModel::SyntaxError(e) => Err(CssParseErrorModel::ParseError(e)),
            _ => match spec_step(st, tokens[0]) {
                Err(e) => Err(e),
                Ok(st2) => spec_run(tokens.drop_first(), st2),
            },
        }
    }
}

/// Index of the first character beyond ASCII, or the length when none is.
pub open spec fn first_non_ascii(s: Seq<char>) -> int
    decreases s.len(),
{
    if s.len() == 0 {
        0
    } else if !(s[0] <= '\u{7f}') {
        0
    } else {
        1 + first_non_ascii(s.drop_first())
    }
}

/// What parsing a full stylesheet source yields: its rules in source order,
/// or the first error.  Non-ASCII input is rejected up front, and trailing
/// whitespace is dropped before tokenizing, because the external tokenizer
/// cannot be fed either safely.
pub open spec fn spec_parse_css(s: Seq<char>) -> Result<Seq<RuleModel>, CssParseErrorModel> {
    if !vstd::utf8::is_ascii_chars(s) {
        Err(
            CssParseErrorModel::ParseError(CssSyntaxError::NonAscii(first_non_ascii(s) as usize)),
        )
    } else {
        spec_run(token_stream(strip_end_spaces(s)), init_state())
    }
}

proof fn lemma_strip_end_spaces_ascii(s: Seq<char>)
    requires
        vstd::utf8::is_ascii_chars(s),
    ensures
        vstd::utf8::is_ascii_chars(strip_end_spaces(s)),
    decreases s.len(),
{
    if s.len() > 0 && tokenizer_space(s.last()) {
        let t = s.drop_last();
        assert(vstd::utf8::is_ascii_chars(t)) by {
            assert(forall|i: int| 0 <= i < t.len() ==> t[i] == s[i]);
        }
        lemma_strip_end_spaces_ascii(t);
    }
}

proof fn lemma_first_non_ascii_at(s: Seq<char>, i: int)
    requires
        0 <= i < s.len(),
        forall|k: int| 0 <= k < i ==> s[k] <= '\u{7f}',
        !(s[i] <= '\u{7f}'),
    ensures
        first_non_ascii(s) == i,
    decreases i,
{
    if i > 0 {
        lemma_first_non_ascii_at(s.drop_first(), i - 1);
    }
}

/// Finds the first character beyond ASCII, if any.
fn find_non_ascii(s: &str) -> (r: Option<usize>)
    ensures
        match r {
            Some(i) => !vstd::utf8::is_ascii_chars(s@) && i as int == first_non_ascii(s@),
            None => vstd::utf8::is_ascii_chars(s@),
        },
{
    let n: usize = s.unicode_len();
    let mut i: usize = 0;
    while i < n
        invariant
            0 <= i <= n,
            n == s@.len(),
            forall|k: int| 0 <= k < i ==> '\0' <= #[trigger] s@[k] <= '\u{7f}',
        decreases n - i,
    {
        let c = s.get_char(i);
        if c > '\u{7f}' {
            proof {
                lemma_first_non_ascii_at(s@, i as int);
            }
            return Some(i);
        }
        proof {
            assert('\0' <= c);
        }
        i = i + 1;
    }
    proof {
        assert(vstd::utf8::is_ascii_chars(s@));
    }
    None
}

/// A parsed stylesheet: the immutable rule list, the per-frame override
/// table, and the relayout flag.
#[derive(PartialEq, Debug)]
pub struct Css {
    /// Path to hot-reload the stylesheet from, when watching a file.
    pub hot_reload_path: Option<String>,
    /// When hot-reloading, whether the file is appended to the native styles.
    pub hot_reload_override_native: bool,
    /// The rules making up the document, in source order.
    pub rules: Vec<CssRule>,
    /// The dynamic properties overridden for this frame.
    pub dynamic_css_overrides: OverrideMap,
    /// Whether the CSS changed in a way that needs a re-layout.
    pub needs_relayout: bool,
}

impl Css {
    /// An empty set of CSS rules.
    pub fn empty() -> (r: Self)
        ensures
            r.hot_reload_path is None,
            r.hot_reload_override_native == false,
            r.rules@.len() == 0,
            r.dynamic_css_overrides@ == Map::<Seq<char>, ParsedCssProperty>::empty(),
            r.needs_relayout == false,
    {
        Css {
            hot_reload_path: None,
            hot_reload_override_native: false,
            rules: Vec::new(),
            needs_relayout: false,
            dynamic_css_overrides: OverrideMap::new(),
        }
    }

    /// Parses a stylesheet source text into its rules, in source order.
    #[verifier::rlimit(60)]
    pub fn new_from_str(css_string: &str) -> (r: Result<Css, CssParseError>)
        ensures
            match r {
                Ok(css) => spec_parse_css(css_string@) == Ok::<_, CssParseErrorModel>(
                    rules_view(css.rules@),
                ) && css.needs_relayout == true && css.dynamic_css_overrides@ == Map::<
                    Seq<char>,
                    ParsedCssProperty,
                >::empty() && css.hot_reload_path is None && css.hot_reload_override_native
                    == false,
                Err(e) => spec_parse_css(css_string@) == Err::<Seq<RuleModel>, _>(e@),
            },
    {
        match find_non_ascii(css_string) {
            Some(i) => {
                return Err(CssParseError::ParseError(CssSyntaxError::NonAscii(i)));
            },
            None => {},
        }
        let stripped = strip_end_spaces_exec(css_string);
        proof {
            lemma_strip_end_spaces_ascii(css_string@);
        }
        let total: usize = stripped.unicode_len();
        let mut tokenizer = tokenizer_new(stripped);
        let ghost stream = token_stream(stripped@);
        proof {
            assert(spec_parse_css(css_string@) == spec_run(stream, init_state()));
        }
        let mut in_block = false;
        let mut nesting: usize = 0;
        let mut cur_type: String = "*".to_owned();
        let mut cur_id: Option<String> = None;
        let mut cur_classes: Vec<String> = Vec::new();
        let mut cur_pseudo = false;
        let mut rules: Vec<CssRule> = Vec::new();
        proof {
            assert(cur_classes.deep_view() =~= Seq::<Seq<char>>::empty());
            assert(rules_view(rules@) =~= Seq::<RuleModel>::empty());
            assert(BuilderState {
                in_block: in_block,
                nesting: nesting as int,
                cur_type: cur_type@,
                cur_id: cur_id.deep_view(),
                cur_classes: cur_classes.deep_view(),
                cur_pseudo: cur_pseudo,
                rules: rules_view(rules@),
            } =~= init_state());
        }
        loop
            invariant
                vstd::utf8::is_ascii_chars(css_string@),
                stream == token_stream(strip_end_spaces(css_string@)),
                ascii_tokenizer(tokenizer),
                total == strip_end_spaces(css_string@).len(),
                stream.len() <= total,
                nesting + remaining_tokens(tokenizer).len() <= stream.len(),
                sorted_classes(cur_classes.deep_view()),
                spec_run(stream, init_state()) == spec_run(
                    remaining_tokens(tokenizer),
                    BuilderState {
                        in_block: in_block,
                        nesting: nesting as int,
                        cur_type: cur_type@,
                        cur_id: cur_id.deep_view(),
                        cur_classes: cur_classes.deep_view(),
                        cur_pseudo: cur_pseudo,
                        rules: rules_view(rules@),
                    },
                ),
            decreases remaining_tokens(tokenizer).len(),
        {
            let ghost pre_rem = remaining_tokens(tokenizer);
            let ghost st_pre = BuilderState {
                in_block: in_block,
                nesting: nesting as int,
                cur_type: cur_type@,
                cur_id: cur_id.deep_view(),
                cur_classes: cur_classes.deep_view(),
                cur_pseudo: cur_pseudo,
                rules: rules_view(rules@),
            };
            let tok = tokenizer_next(&mut tokenizer);
            match tok {
                CssToken::EndOfStream => {
                    proof {
                        assert(spec_run(pre_rem, st_pre) == spec_finish(st_pre));
                    }
                    if nesting != 0 {
                        proof {
                            assert(spec_run(pre_rem, st_pre) == Err::<
                                Seq<RuleModel>,
                                CssParseErrorModel,
                            >(CssParseErrorModel::UnclosedBlock));
                        }
                        return Err(CssParseError::UnclosedBlock);
                    }
                    proof {
                        assert(spec_run(pre_rem, st_pre) == Ok::<_, CssParseErrorModel>(
                            rules_view(rules@),
                        ));
                    }
                    return Ok(
                        Css {
                            hot_reload_path: None,
                            hot_reload_override_native: false,
                            rules: rules,
                            needs_relayout: true,
                            dynamic_css_overrides: OverrideMap::new(),
                        },
                    );
                },
                CssToken::SyntaxError(e) => {
                    proof {
                        assert(pre_rem.len() > 0);
                        assert(spec_run(pre_rem, st_pre) == Err::<
                            Seq<RuleModel>,
                            CssParseErrorModel,
                        >(CssParseErrorModel::ParseError(e)));
                    }
                    return Err(CssParseError::ParseError(e));
                },
                CssToken::BlockStart => {
                    proof {
                        assert(pre_rem.len() > 0);
                    }
                    in_block = true;
                    nesting = nesting + 1;
                    proof {
                        assert(spec_step(st_pre, pre_rem[0]) == Ok::<_, CssParseErrorModel>(
                            BuilderState { in_block: true, nesting: st_pre.nesting + 1, ..st_pre },
                        ));
                    }
                },
                CssToken::BlockEnd => {
                    proof {
                        assert(pre_rem.len() > 0);
                    }
                    if nesting == 0 {
                        proof {
                            assert(spec_run(pre_rem, st_pre) == Err::<
                                Seq<RuleModel>,
                                CssParseErrorModel,
                            >(CssParseErrorModel::UnclosedBlock));
                        }
                        return Err(CssParseError::UnclosedBlock);
                    }
                    nesting = nesting - 1;
                    in_block = false;
                    cur_type = "*".to_owned();
                    cur_id = None;
                    cur_classes = Vec::new();
                    cur_pseudo = false;
                    proof {
                        assert(cur_classes.deep_view() =~= Seq::<Seq<char>>::empty());
                    }
                },
                CssToken::TypeSelector(s) => {
                    proof {
                        assert(pre_rem.len() > 0);
                    }
                    if in_block {
                        proof {
                            assert(spec_run(pre_rem, st_pre) == Err::<
                                Seq<RuleModel>,
                                CssParseErrorModel,
                            >(CssParseErrorModel::MalformedCss));
                        }
                        return Err(CssParseError::MalformedCss);
                    }
                    cur_type = s;
                },
                CssToken::IdSelector(s) => {
                    proof {
                        assert(pre_rem.len() > 0);
                    }
                    if in_block {
                        proof {
                            assert(spec_run(pre_rem, st_pre) == Err::<
                                Seq<RuleModel>,
                                CssParseErrorModel,
                            >(CssParseErrorModel::MalformedCss));
                        }
                        return Err(CssParseError::MalformedCss);
                    }
                    cur_id = Some(s);
                },
                CssToken::ClassSelector(s) => {
                    proof {
                        assert(pre_rem.len() > 0);
                    }
                    if in_block {
                        proof {
                            assert(spec_run(pre_rem, st_pre) == Err::<
                                Seq<RuleModel>,
                                CssParseErrorModel,
                            >(CssParseErrorModel::MalformedCss));
                        }
                        return Err(CssParseError::MalformedCss);
                    }
                    insert_class(&mut cur_classes, s);
                },
                CssToken::PseudoClass(_) => {
                    proof {
                        assert(pre_rem.len() > 0);
                    }
                    if in_block {
                        proof {
                            assert(spec_run(pre_rem, st_pre) == Err::<
                                Seq<RuleModel>,
                                CssParseErrorModel,
                            >(CssParseErrorModel::MalformedCss));
                        }
                        return Err(CssParseError::MalformedCss);
                    }
                    cur_pseudo = true;
                },
                CssToken::Ignored => {
                    proof {
                        assert(pre_rem.len() > 0);
                    }
                },
                CssToken::Declaration(key, val) => {
                    proof {
                        assert(pre_rem.len() > 0);
                    }
                    if !in_block {
                        proof {
                            assert(spec_run(pre_rem, st_pre) == Err::<
                                Seq<RuleModel>,
                                CssParseErrorModel,
                            >(CssParseErrorModel::MalformedCss));
                        }
                        return Err(CssParseError::MalformedCss);
                    }
                    if !cur_pseudo {
                        match determine_static_or_dynamic_css_property(key.as_str(), val.as_str()) {
                            Err(e) => {
                                proof {
                                    assert(spec_run(pre_rem, st_pre) == Err::<
                                        Seq<RuleModel>,
                                        CssParseErrorModel,
                                    >(CssParseErrorModel::DynamicCssParseError(e@)));
                                }
                                return Err(CssParseError::DynamicCssParseError(e));
                            },
                            Ok(decl) => {
                                let rule = CssRule {
                                    html_type: cur_type.clone(),
                                    id: clone_opt_string(&cur_id),
                                    classes: clone_string_vec(&cur_classes),
                                    declaration: (key, decl),
                                };
                                proof {
                                    assert(rule@ =~= RuleModel {
                                        html_type: st_pre.cur_type,
                                        id: st_pre.cur_id,
                                        classes: st_pre.cur_classes,
                                        key: rule.declaration.0@,
                                        declaration: rule.declaration.1@,
                                    });
                                }
                                let ghost pre_rules = rules@;
                                rules.push(rule);
                                proof {
                                    assert(rules_view(rules@) =~= rules_view(pre_rules).push(
                                        rule@,
                                    )) by {
                                        assert(rules@ =~= pre_rules.push(rule));
                                    }
                                }
                            },
                        }
                    }
                },
            }
            proof {
                let st_now = BuilderState {
                    in_block: in_block,
                    nesting: nesting as int,
                    cur_type: cur_type@,
                    cur_id: cur_id.deep_view(),
                    cur_classes: cur_classes.deep_view(),
                    cur_pseudo: cur_pseudo,
                    rules: rules_view(rules@),
                };
                assert(remaining_tokens(tokenizer) == pre_rem.drop_first());
                assert(spec_run(pre_rem, st_pre) == spec_run(pre_rem.drop_first(), st_now)) by {
                    assert(spec_step(st_pre, pre_rem[0]) matches Ok(st2) && st2 =~= st_now);
                }
            }
        }
    }

    /// Re-parses a stylesheet source and swaps in the new rules, preserving
    /// the overrides, the reload path and the append-to-native flag.  On any
    /// parse failure the stylesheet is left exactly as it was.
    pub fn reload_from_str(&mut self, css_string: &str) -> (r: Result<(), CssParseError>)
        ensures
            match r {
                Ok(_) => {
                    &&& spec_parse_css(css_string@) == Ok::<_, CssParseErrorModel>(
                        rules_view(final(self).rules@),
                    )
                    &&& final(self).needs_relayout == true
                    &&& final(self).dynamic_css_overrides == old(self).dynamic_css_overrides
                    &&& final(self).hot_reload_path == old(self).hot_reload_path
                    &&& final(self).hot_reload_override_native
                        == old(self).hot_reload_override_native
                },
                Err(e) => {
                    &&& spec_parse_css(css_string@) == Err::<Seq<RuleModel>, _>(e@)
                    &&& *final(self) == *old(self)
                },
            },
    {
        match Css::new_from_str(css_string) {
            Ok(parsed) => {
                self.rules = parsed.rules;
                self.needs_relayout = true;
                Ok(())
            },
            Err(e) => Err(e),
        }
    }
}

impl Clone for Css {
    fn clone(&self) -> (r: Self)
        ensures
            r.hot_reload_path == self.hot_reload_path,
            r.hot_reload_override_native == self.hot_reload_override_native,
            rules_view(r.rules@) == rules_view(self.rules@),
            r.dynamic_css_overrides@ == self.dynamic_css_overrides@,
            r.needs_relayout == self.needs_relayout,
    {
        let mut rules: Vec<CssRule> = Vec::new();
        let mut i: usize = 0;
        while i < self.rules.len()
            invariant
                0 <= i <= self.rules@.len(),
                rules@.len() == i,
                forall|k: int| 0 <= k < i ==> rules@[k]@ == self.rules@[k]@,
            decreases self.rules@.len() - i,
        {
            rules.push(self.rules[i].clone());
            i = i + 1;
        }
        proof {
            assert(rules_view(rules@) =~= rules_view(self.rules@));
        }
        Css {
            hot_reload_path: clone_opt_string(&self.hot_reload_path),
            hot_reload_override_native: self.hot_reload_override_native,
            rules,
            dynamic_css_overrides: self.dynamic_css_overrides.clone(),
            needs_relayout: self.needs_relayout,
        }
    }
}

/// Clones an optional string.
fn clone_opt_string(o: &Option<String>) -> (r: Option<String>)
    ensures
        r == *o,
{
    match o {
        Some(s) => Some(s.clone()),
        None => None,
    }
}

/// Clones a vector of strings, preserving its views.
fn clone_string_vec(v: &Vec<String>) -> (r: Vec<String>)
    ensures
        r.deep_view() == v.deep_view(),
{
    let mut out: Vec<String> = Vec::new();
    let mut i: usize = 0;
    while i < v.len()
        invariant
            0 <= i <= v@.len(),
            out@.len() == i,
            forall|k: int| 0 <= k < i ==> out@[k]@ == v@[k]@,
        decreases v@.len() - i,
    {
        out.push(v[i].clone());
        i = i + 1;
    }
    proof {
        assert(out.deep_view() =~= v.deep_view());
    }
    out
}

/// Law: every rule a successful run emits has a strictly sorted (hence
/// duplicate-free) class list, whatever the source order of the classes.
pub proof fn lemma_run_classes_sorted(
    tokens: Seq<TokenModel>,
    st: BuilderState,
    rs: Seq<RuleModel>,
)
    requires
        sorted_classes(st.cur_classes),
        forall|i: int| 0 <= i < st.rules.len() ==> sorted_classes(#[trigger] st.rules[i].classes),
        spec_run(tokens, st) == Ok::<_, CssParseErrorModel>(rs),
    ensures
        forall|i: int| 0 <= i < rs.len() ==> sorted_classes(#[trigger] rs[i].classes),
    decreases tokens.len(),
{
    if tokens.len() == 0 {
    } else {
        match tokens[0] {
            TokenModel::EndOfStream => {
            },
            TokenModel::SyntaxError(_) => {
            },
            _ => {
                match spec_step(st, tokens[0]) {
                    Err(_) => {
                    },
                    Ok(st2) => {
                        assert(sorted_classes(st2.cur_classes) && forall|i: int|
                            0 <= i < st2.rules.len() ==> sorted_classes(
                                #[trigger] st2.rules[i].classes,
                            )) by {
                            match tokens[0] {
                                TokenModel::ClassSelector(s) => {
                                    lemma_insert_class_props(st.cur_classes, s);
                                },
                                TokenModel::Declaration(k, v) => {
                                    assert(forall|i: int|
                                        0 <= i < st.rules.len() ==> st2.rules[i]
                                            == #[trigger] st.rules[i]);
                                },
                                _ => {},
                            }
                        }
                        lemma_run_classes_sorted(tokens.drop_first(), st2, rs);
                    },
                }
            },
        }
    }
}

/// Law: every rule of a successfully parsed stylesheet has its classes
/// strictly sorted in lexicographic order, regardless of source order.
pub proof fn lemma_parse_css_classes_sorted(s: Seq<char>, rs: Seq<RuleModel>)
    requires
        spec_parse_css(s) == Ok::<_, CssParseErrorModel>(rs),
    ensures
        forall|i: int| 0 <= i < rs.len() ==> sorted_classes(#[trigger] rs[i].classes),
{
    lemma_run_classes_sorted(token_stream(strip_end_spaces(s)), init_state(), rs);
}

} // verus!
