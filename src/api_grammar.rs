//! The grammar of API documents, one line at a time.
//!
//! A document is a sequence of lines. Blank lines and lines whose first
//! non-blank character is `#` are skipped. A line that starts in the first
//! column opens a section (`headers:`, `params:`, `query:`, `status_codes:`,
//! `headers_groups:`, `params_groups:`, `query_groups:`,
//! `status_codes_groups:`, `apis:`) or sets a header field (`title: ..`,
//! `version: ..`). An indented line is an item of the current section:
//!
//! - argument: `name [type] [alias other] [required] [(default)]: "description"`
//! - status code: `404: "description" [retryable]`
//! - group: `id: member, member, ...`
//! - under `apis:`, a path `/users/ {id}:` (its blank-separated pieces
//!   joined), a verb `get: "description"`, or an option
//!   `keyword: value, @group, ...` of the last verb.
use vstd::prelude::*;
use crate::project::{
    ArgSection, ArgV, DataType, GroupSection, GroupV, HttpMethod, ProjectArgument,
    ArgumentGroup, StatusCode, StatusV, views,
};
use crate::text::{
    chars_eq, chars_in, chars_of, find, find_char, is_blank, is_blank_char, is_quoted,
    lemma_deep_index, lemma_find_char,
    list_items, list_items_of, normalize, normalized, string_of, trim, trimmed, words, words_of,
};

verus! {

/// What a line of an API document is.
pub enum LineV {
    Skip,
    Title(Seq<char>),
    Version(Seq<char>),
    Catalog(ArgSection),
    StatusCodes,
    Groups(GroupSection),
    Apis,
    Item(Seq<char>),
    Bad,
}

/// The section that a top-level keyword opens.
pub open spec fn section_keyword(key: Seq<char>) -> LineV {
    if key == "headers"@ {
        LineV::Catalog(ArgSection::Headers)
    } else if key == "params"@ {
        LineV::Catalog(ArgSection::Params)
    } else if key == "query"@ {
        LineV::Catalog(ArgSection::Query)
    } else if key == "status_codes"@ {
        LineV::StatusCodes
    } else if key == "headers_groups"@ {
        LineV::Groups(GroupSection::Headers)
    } else if key == "params_groups"@ {
        LineV::Groups(GroupSection::Params)
    } else if key == "query_groups"@ {
        LineV::Groups(GroupSection::Query)
    } else if key == "status_codes_groups"@ {
        LineV::Groups(GroupSection::StatusCodes)
    } else if key == "apis"@ {
        LineV::Apis
    } else {
        LineV::Bad
    }
}

/// A line in the first column: `key: rest`.
pub open spec fn top_line(t: Seq<char>) -> LineV {
    match find_char(t, ':') {
        None => LineV::Bad,
        Some(c) => {
            let key = t.subrange(0, c);
            let rest = t.subrange(c + 1, t.len() as int);
            if key == "title"@ {
                LineV::Title(normalize(rest))
            } else if key == "version"@ {
                LineV::Version(normalize(rest))
            } else if trim(rest).len() != 0 {
                LineV::Bad
            } else {
                section_keyword(key)
            }
        },
    }
}

/// The meaning of one line of an API document.
pub open spec fn classify(line: Seq<char>) -> LineV {
    let t = trim(line);
    if t.len() == 0 || t[0] == '#' {
        LineV::Skip
    } else if is_blank(line[0]) {
        LineV::Item(t)
    } else {
        top_line(t)
    }
}

/// The type that a type word names.
pub open spec fn type_named(w: Seq<char>) -> DataType {
    if w == "string"@ {
        DataType::String
    } else if w == "number"@ {
        DataType::Number
    } else if w == "bool"@ {
        DataType::Boolean
    } else {
        DataType::Unknown
    }
}

/// A default value written in parentheses.
pub open spec fn is_default(w: Seq<char>) -> bool {
    w.len() >= 2 && w[0] == '(' && w.last() == ')'
}

/// Words that are modifiers rather than a type.
pub open spec fn is_modifier(w: Seq<char>) -> bool {
    w == "alias"@ || w == "required"@ || is_default(w)
}

/// The argument after the modifiers `ws` are applied, left to right.
pub open spec fn apply_modifiers(a: ArgV, ws: Seq<Seq<char>>) -> Option<ArgV>
    decreases ws.len(),
{
    if ws.len() == 0 {
        Some(a)
    } else if ws[0] == "alias"@ {
        if ws.len() >= 2 {
            apply_modifiers(ArgV { alias: ws[1], ..a }, ws.subrange(2, ws.len() as int))
        } else {
            None
        }
    } else if ws[0] == "required"@ {
        apply_modifiers(ArgV { required: true, ..a }, ws.subrange(1, ws.len() as int))
    } else if is_default(ws[0]) {
        apply_modifiers(
            ArgV { default_value: ws[0].subrange(1, ws[0].len() - 1), ..a },
            ws.subrange(1, ws.len() as int),
        )
    } else {
        None
    }
}

/// An argument declaration: `name [type] [modifiers]: "description"`.
pub open spec fn parse_arg(t: Seq<char>) -> Option<ArgV> {
    match find_char(t, ':') {
        None => None,
        Some(c) => {
            let ws = words(t.subrange(0, c));
            let right = trim(t.subrange(c + 1, t.len() as int));
            if !is_quoted(right) || ws.len() == 0 {
                None
            } else {
                let base = ArgV {
                    name: ws[0],
                    data_type: DataType::String,
                    alias: Seq::empty(),
                    required: false,
                    default_value: Seq::empty(),
                    description: right.subrange(1, right.len() - 1),
                };
                if ws.len() > 1 && !is_modifier(ws[1]) {
                    apply_modifiers(
                        ArgV { data_type: type_named(ws[1]), ..base },
                        ws.subrange(2, ws.len() as int),
                    )
                } else {
                    apply_modifiers(base, ws.subrange(1, ws.len() as int))
                }
            }
        },
    }
}

pub open spec fn all_digits(s: Seq<char>) -> bool {
    forall|i: int| 0 <= i < s.len() ==> '0' <= #[trigger] s[i] <= '9'
}

/// A status code declaration: `code: "description" [retryable]`.
pub open spec fn parse_status(t: Seq<char>) -> Option<StatusV> {
    match find_char(t, ':') {
        None => None,
        Some(c) => {
            let code = trim(t.subrange(0, c));
            let right = trim(t.subrange(c + 1, t.len() as int));
            if code.len() == 0 || !all_digits(code) || right.len() == 0 || right[0] != '"' {
                None
            } else {
                let body = right.drop_first();
                match find_char(body, '"') {
                    None => None,
                    Some(q) => {
                        let description = body.subrange(0, q);
                        let suffix = trim(body.subrange(q + 1, body.len() as int));
                        if suffix.len() == 0 {
                            Some(StatusV { code, description, is_retryable: false })
                        } else if suffix == "retryable"@ {
                            Some(StatusV { code, description, is_retryable: true })
                        } else {
                            None
                        }
                    },
                }
            }
        },
    }
}

/// A group declaration: `id: member, member, ...`.
pub open spec fn parse_group_line(t: Seq<char>) -> Option<GroupV> {
    match find_char(t, ':') {
        None => None,
        Some(c) => {
            let ids = words(t.subrange(0, c));
            if ids.len() != 1 {
                None
            } else {
                Some(GroupV { id: ids[0], items: list_items(t.subrange(c + 1, t.len() as int)) })
            }
        },
    }
}

/// The keywords of the option lines of a verb.
#[derive(Debug, Clone, Copy, PartialEq, Eq, Structural)]
pub enum ApiKeyword {
    Params,
    Query,
    Headers,
    Tags,
    Produces,
    Consumes,
    Example,
    StatusCodes,
    Operation,
    UseCases,
}

/// Whether `a` is the lowercase letter `lower`, in either case.
pub open spec fn same_letter(a: char, lower: char) -> bool {
    a == lower || ('A' <= a <= 'Z' && a as u32 + 32 == lower as u32)
}

/// Whether `s` spells the lowercase word `lower`, ignoring ASCII case.
pub open spec fn spells(s: Seq<char>, lower: Seq<char>) -> bool {
    s.len() == lower.len() && forall|i: int| 0 <= i < s.len() ==> same_letter(s[i], lower[i])
}

pub open spec fn verb_named(key: Seq<char>) -> Option<HttpMethod> {
    if spells(key, "get"@) {
        Some(HttpMethod::Get)
    } else if spells(key, "post"@) {
        Some(HttpMethod::Post)
    } else if spells(key, "put"@) {
        Some(HttpMethod::Put)
    } else if spells(key, "delete"@) {
        Some(HttpMethod::Delete)
    } else if spells(key, "patch"@) {
        Some(HttpMethod::Patch)
    } else {
        None
    }
}

pub open spec fn keyword_named(key: Seq<char>) -> Option<ApiKeyword> {
    if key == "params"@ {
        Some(ApiKeyword::Params)
    } else if key == "query"@ {
        Some(ApiKeyword::Query)
    } else if key == "headers"@ {
        Some(ApiKeyword::Headers)
    } else if key == "tags"@ {
        Some(ApiKeyword::Tags)
    } else if key == "produces"@ {
        Some(ApiKeyword::Produces)
    } else if key == "consumes"@ {
        Some(ApiKeyword::Consumes)
    } else if key == "example"@ {
        Some(ApiKeyword::Example)
    } else if key == "status_codes"@ {
        Some(ApiKeyword::StatusCodes)
    } else if key == "operation"@ {
        Some(ApiKeyword::Operation)
    } else if key == "use_cases"@ {
        Some(ApiKeyword::UseCases)
    } else {
        None
    }
}

/// The pieces joined, in order.
pub open spec fn concat_all(ws: Seq<Seq<char>>) -> Seq<char>
    decreases ws.len(),
{
    if ws.len() == 0 {
        Seq::empty()
    } else {
        concat_all(ws.drop_last()) + ws.last()
    }
}

/// What an item line of the `apis:` section is.
pub enum ApiItemV {
    Path(Seq<char>),
    Verb(HttpMethod, Seq<char>),
    Opt(ApiKeyword, Seq<char>),
    Bad,
}

/// The meaning of a trimmed item line of the `apis:` section.
pub open spec fn api_item(t: Seq<char>) -> ApiItemV {
    if t.len() == 0 {
        ApiItemV::Bad
    } else if t[0] == '/' {
        if t.last() == ':' {
            ApiItemV::Path(concat_all(words(t.subrange(0, t.len() - 1))))
        } else {
            ApiItemV::Bad
        }
    } else {
        match find_char(t, ':') {
            None => ApiItemV::Bad,
            Some(c) => {
                let key = t.subrange(0, c);
                let rest = t.subrange(c + 1, t.len() as int);
                match verb_named(key) {
                    Some(v) => ApiItemV::Verb(v, normalize(rest)),
                    None => match keyword_named(key) {
                        Some(k) => ApiItemV::Opt(k, rest),
                        None => ApiItemV::Bad,
                    },
                }
            },
        }
    }
}

} // verus!

verus! {

/// One classified line of an API document.
pub enum ApiLine {
    Skip,
    Title(Vec<char>),
    Version(Vec<char>),
    Catalog(ArgSection),
    StatusCodes,
    Groups(GroupSection),
    Apis,
    Item(Vec<char>),
    Bad,
}

impl View for ApiLine {
    type V = LineV;

    open spec fn view(&self) -> LineV {
        match self {
            ApiLine::Skip => LineV::Skip,
            ApiLine::Title(t) => LineV::Title(t@),
            ApiLine::Version(t) => LineV::Version(t@),
            ApiLine::Catalog(k) => LineV::Catalog(*k),
            ApiLine::StatusCodes => LineV::StatusCodes,
            ApiLine::Groups(k) => LineV::Groups(*k),
            ApiLine::Apis => LineV::Apis,
            ApiLine::Item(t) => LineV::Item(t@),
            ApiLine::Bad => LineV::Bad,
        }
    }
}

fn section_of_keyword(key: &[char]) -> (r: ApiLine)
    ensures
        r@ == section_keyword(key@),
{
    if chars_eq(key, "headers") {
        ApiLine::Catalog(ArgSection::Headers)
    } else if chars_eq(key, "params") {
        ApiLine::Catalog(ArgSection::Params)
    } else if chars_eq(key, "query") {
        ApiLine::Catalog(ArgSection::Query)
    } else if chars_eq(key, "status_codes") {
        ApiLine::StatusCodes
    } else if chars_eq(key, "headers_groups") {
        ApiLine::Groups(GroupSection::Headers)
    } else if chars_eq(key, "params_groups") {
        ApiLine::Groups(GroupSection::Params)
    } else if chars_eq(key, "query_groups") {
        ApiLine::Groups(GroupSection::Query)
    } else if chars_eq(key, "status_codes_groups") {
        ApiLine::Groups(GroupSection::StatusCodes)
    } else if chars_eq(key, "apis") {
        ApiLine::Apis
    } else {
        ApiLine::Bad
    }
}

/// Classifies one line of an API document.
pub fn classify_line(line: &[char]) -> (r: ApiLine)
    ensures
        r@ == classify(line@),
{
    let t = trimmed(line);
    if t.len() == 0 || t[0] == '#' {
        return ApiLine::Skip;
    }
    if is_blank_char(line[0]) {
        return ApiLine::Item(t);
    }
    match find(&t, ':') {
        None => ApiLine::Bad,
        Some(c) => {
            proof {
                lemma_find_char(t@, ':');
            }
            let key = chars_in(&t, 0, c);
            let rest = chars_in(&t, c + 1, t.len());
            if chars_eq(&key, "title") {
                ApiLine::Title(normalized(&rest))
            } else if chars_eq(&key, "version") {
                ApiLine::Version(normalized(&rest))
            } else if trimmed(&rest).len() != 0 {
                ApiLine::Bad
            } else {
                section_of_keyword(&key)
            }
        },
    }
}

pub open spec fn arg_opt_view(r: Option<ProjectArgument>) -> Option<ArgV> {
    match r {
        Some(a) => Some(a@),
        None => None,
    }
}

fn type_of_word(w: &[char]) -> (r: DataType)
    ensures
        r == type_named(w@),
{
    if chars_eq(w, "string") {
        DataType::String
    } else if chars_eq(w, "number") {
        DataType::Number
    } else if chars_eq(w, "bool") {
        DataType::Boolean
    } else {
        DataType::Unknown
    }
}

fn is_default_word(w: &[char]) -> (r: bool)
    ensures
        r == is_default(w@),
{
    w.len() >= 2 && w[0] == '(' && w[w.len() - 1] == ')'
}

fn is_modifier_word(w: &[char]) -> (r: bool)
    ensures
        r == is_modifier(w@),
{
    chars_eq(w, "alias") || chars_eq(w, "required") || is_default_word(w)
}

/// Parses an argument declaration.
pub(crate) fn argument_of(t: &[char]) -> (r: Option<ProjectArgument>)
    ensures
        arg_opt_view(r) == parse_arg(t@),
{
    let len = t.len();
    let found = find(t, ':');
    if found.is_none() {
        return None;
    }
    let c = found.unwrap();
    proof {
        lemma_find_char(t@, ':');
    }
    let ws = words_of(&chars_in(t, 0, c));
    let right = trimmed(&chars_in(t, c + 1, len));
    let n = right.len();
    if !(n >= 2 && right[0] == '"' && right[n - 1] == '"') || ws.len() == 0 {
        return None;
    }
    let ghost wv = ws.deep_view();
    proof {
        lemma_deep_index(ws, 0);
    }
    let mut arg = ProjectArgument {
        name: string_of(&ws[0]),
        data_type: DataType::String,
        alias: String::new(),
        required: false,
        default_value: String::new(),
        description: string_of(&chars_in(&right, 1, n - 1)),
    };
    let mut i: usize = 1;
    if ws.len() > 1 {
        proof {
            lemma_deep_index(ws, 1);
        }
        if !is_modifier_word(&ws[1]) {
            arg.data_type = type_of_word(&ws[1]);
            i = 2;
        }
    }
    assert(parse_arg(t@) == apply_modifiers(arg@, wv.subrange(i as int, wv.len() as int)));
    while i < ws.len()
        invariant
            1 <= i <= ws@.len(),
            wv == ws.deep_view(),
            parse_arg(t@) == apply_modifiers(arg@, wv.subrange(i as int, wv.len() as int)),
        decreases ws@.len() - i,
    {
        let ghost rest = wv.subrange(i as int, wv.len() as int);
        proof {
            lemma_deep_index(ws, i as int);
        }
        assert(rest[0] == ws@[i as int]@);
        if chars_eq(&ws[i], "alias") {
            if i + 1 < ws.len() {
                proof {
                    lemma_deep_index(ws, i + 1);
                }
                assert(rest[1] == ws@[i + 1]@);
                assert(rest.subrange(2, rest.len() as int) =~= wv.subrange(i + 2, wv.len() as int));
                arg.alias = string_of(&ws[i + 1]);
                i = i + 2;
            } else {
                return None;
            }
        } else if chars_eq(&ws[i], "required") {
            assert(rest.subrange(1, rest.len() as int) =~= wv.subrange(i + 1, wv.len() as int));
            arg.required = true;
            i = i + 1;
        } else if is_default_word(&ws[i]) {
            assert(rest.subrange(1, rest.len() as int) =~= wv.subrange(i + 1, wv.len() as int));
            let w = &ws[i];
            arg.default_value = string_of(&chars_in(w, 1, w.len() - 1));
            i = i + 1;
        } else {
            return None;
        }
    }
    assert(wv.subrange(i as int, wv.len() as int) =~= Seq::<Seq<char>>::empty());
    Some(arg)
}

/// Parses one argument declaration line, such as
/// `x-auth string alias auth required (none): "Credentials"`.
pub fn parse_argument(line: &str) -> (r: Option<ProjectArgument>)
    ensures
        arg_opt_view(r) == parse_arg(line@),
{
    argument_of(&chars_of(line))
}

fn all_digit_chars(s: &[char]) -> (r: bool)
    ensures
        r == all_digits(s@),
{
    let mut i: usize = 0;
    while i < s.len()
        invariant
            i <= s@.len(),
            forall|j: int| 0 <= j < i ==> '0' <= #[trigger] s@[j] <= '9',
        decreases s@.len() - i,
    {
        if !('0' <= s[i] && s[i] <= '9') {
            return false;
        }
        i = i + 1;
    }
    true
}

pub open spec fn status_opt_view(r: Option<StatusCode>) -> Option<StatusV> {
    match r {
        Some(s) => Some(s@),
        None => None,
    }
}

/// Parses a status code declaration.
pub fn status_code_of(t: &[char]) -> (r: Option<StatusCode>)
    ensures
        status_opt_view(r) == parse_status(t@),
{
    let len = t.len();
    let found = find(t, ':');
    if found.is_none() {
        return None;
    }
    let c = found.unwrap();
    proof {
        lemma_find_char(t@, ':');
    }
    let code = trimmed(&chars_in(t, 0, c));
    let right = trimmed(&chars_in(t, c + 1, len));
    if code.len() == 0 || !all_digit_chars(&code) || right.len() == 0 || right[0] != '"' {
        return None;
    }
    let body = chars_in(&right, 1, right.len());
    assert(body@ =~= right@.drop_first());
    let q = match find(&body, '"') {
        None => return None,
        Some(q) => q,
    };
    proof {
        lemma_find_char(body@, '"');
    }
    let description = chars_in(&body, 0, q);
    let suffix = trimmed(&chars_in(&body, q + 1, body.len()));
    let is_retryable = if suffix.len() == 0 {
        false
    } else if chars_eq(&suffix, "retryable") {
        true
    } else {
        return None;
    };
    Some(StatusCode { code: string_of(&code), description: string_of(&description), is_retryable })
}

pub open spec fn group_opt_view(r: Option<ArgumentGroup>) -> Option<GroupV> {
    match r {
        Some(g) => Some(g@),
        None => None,
    }
}

/// Strings holding the given character sequences.
fn strings_of(v: &Vec<Vec<char>>) -> (r: Vec<String>)
    ensures
        views(r@) == v.deep_view(),
{
    let mut out: Vec<String> = Vec::new();
    let mut i: usize = 0;
    while i < v.len()
        invariant
            i <= v@.len(),
            views(out@) == v.deep_view().subrange(0, i as int),
        decreases v@.len() - i,
    {
        proof {
            lemma_deep_index(*v, i as int);
        }
        let s = string_of(&v[i]);
        let ghost before = out@;
        out.push(s);
        proof {
            crate::project::lemma_views_push(before, s);
        }
        assert(views(out@) =~= v.deep_view().subrange(0, i as int + 1));
        i = i + 1;
    }
    assert(v.deep_view().subrange(0, i as int) =~= v.deep_view());
    out
}

/// Parses a group declaration.
pub fn group_of(t: &[char]) -> (r: Option<ArgumentGroup>)
    ensures
        group_opt_view(r) == parse_group_line(t@),
{
    let len = t.len();
    let found = find(t, ':');
    if found.is_none() {
        return None;
    }
    let c = found.unwrap();
    proof {
        lemma_find_char(t@, ':');
    }
    let ids = words_of(&chars_in(t, 0, c));
    if ids.len() != 1 {
        return None;
    }
    proof {
        lemma_deep_index(ids, 0);
    }
    let items = list_items_of(&chars_in(t, c + 1, len));
    Some(ArgumentGroup { id: string_of(&ids[0]), items: strings_of(&items) })
}

fn spells_word(v: &[char], lower: &str) -> (r: bool)
    ensures
        r == spells(v@, lower@),
{
    let w = chars_of(lower);
    if v.len() != w.len() {
        return false;
    }
    let mut i: usize = 0;
    while i < v.len()
        invariant
            i <= v@.len(),
            v@.len() == w@.len(),
            w@ == lower@,
            forall|j: int| 0 <= j < i ==> same_letter(v@[j], w@[j]),
        decreases v@.len() - i,
    {
        let a = v[i];
        let b = w[i];
        let same = a == b || ('A' <= a && a <= 'Z' && (a as u32) + 32 == (b as u32));
        if !same {
            assert(!same_letter(v@[i as int], w@[i as int]));
            return false;
        }
        i = i + 1;
    }
    true
}

fn verb_of(key: &[char]) -> (r: Option<HttpMethod>)
    ensures
        r == verb_named(key@),
{
    if spells_word(key, "get") {
        Some(HttpMethod::Get)
    } else if spells_word(key, "post") {
        Some(HttpMethod::Post)
    } else if spells_word(key, "put") {
        Some(HttpMethod::Put)
    } else if spells_word(key, "delete") {
        Some(HttpMethod::Delete)
    } else if spells_word(key, "patch") {
        Some(HttpMethod::Patch)
    } else {
        None
    }
}

fn keyword_of(key: &[char]) -> (r: Option<ApiKeyword>)
    ensures
        r == keyword_named(key@),
{
    if chars_eq(key, "params") {
        Some(ApiKeyword::Params)
    } else if chars_eq(key, "query") {
        Some(ApiKeyword::Query)
    } else if chars_eq(key, "headers") {
        Some(ApiKeyword::Headers)
    } else if chars_eq(key, "tags") {
        Some(ApiKeyword::Tags)
    } else if chars_eq(key, "produces") {
        Some(ApiKeyword::Produces)
    } else if chars_eq(key, "consumes") {
        Some(ApiKeyword::Consumes)
    } else if chars_eq(key, "example") {
        Some(ApiKeyword::Example)
    } else if chars_eq(key, "status_codes") {
        Some(ApiKeyword::StatusCodes)
    } else if chars_eq(key, "operation") {
        Some(ApiKeyword::Operation)
    } else if chars_eq(key, "use_cases") {
        Some(ApiKeyword::UseCases)
    } else {
        None
    }
}

/// One classified item line of the `apis:` section.
pub enum ApiItem {
    Path(Vec<char>),
    Verb(HttpMethod, Vec<char>),
    Opt(ApiKeyword, Vec<char>),
    Bad,
}

impl View for ApiItem {
    type V = ApiItemV;

    open spec fn view(&self) -> ApiItemV {
        match self {
            ApiItem::Path(p) => ApiItemV::Path(p@),
            ApiItem::Verb(v, d) => ApiItemV::Verb(*v, d@),
            ApiItem::Opt(k, r) => ApiItemV::Opt(*k, r@),
            ApiItem::Bad => ApiItemV::Bad,
        }
    }
}

/// The pieces joined into one sequence.
fn joined(ws: &Vec<Vec<char>>) -> (r: Vec<char>)
    ensures
        r@ == concat_all(ws.deep_view()),
{
    let ghost wv = ws.deep_view();
    let mut out: Vec<char> = Vec::new();
    let mut i: usize = 0;
    assert(wv.subrange(0, 0) =~= Seq::<Seq<char>>::empty());
    while i < ws.len()
        invariant
            i <= ws@.len(),
            wv == ws.deep_view(),
            out@ == concat_all(wv.subrange(0, i as int)),
        decreases ws@.len() - i,
    {
        proof {
            lemma_deep_index(*ws, i as int);
        }
        let ghost pre = wv.subrange(0, i as int + 1);
        assert(pre.drop_last() =~= wv.subrange(0, i as int));
        let ghost before = out@;
        let w = &ws[i];
        let mut k: usize = 0;
        while k < w.len()
            invariant
                k <= w@.len(),
                out@ == before + w@.subrange(0, k as int),
            decreases w@.len() - k,
        {
            out.push(w[k]);
            k = k + 1;
            assert(out@ =~= before + w@.subrange(0, k as int));
        }
        assert(w@.subrange(0, k as int) =~= w@);
        i = i + 1;
    }
    assert(wv.subrange(0, i as int) =~= wv);
    out
}

/// Classifies a trimmed item line of the `apis:` section.
pub fn api_item_of(t: &[char]) -> (r: ApiItem)
    ensures
        r@ == api_item(t@),
{
    let n = t.len();
    if n == 0 {
        return ApiItem::Bad;
    }
    if t[0] == '/' {
        if t[n - 1] == ':' {
            return ApiItem::Path(joined(&words_of(&chars_in(t, 0, n - 1))));
        } else {
            return ApiItem::Bad;
        }
    }
    let len = t.len();
    let found = find(t, ':');
    let c = match found {
        None => return ApiItem::Bad,
        Some(c) => c,
    };
    proof {
        lemma_find_char(t@, ':');
    }
    let key = chars_in(t, 0, c);
    let rest = chars_in(t, c + 1, n);
    match verb_of(&key) {
        Some(v) => ApiItem::Verb(v, normalized(&rest)),
        None => match keyword_of(&key) {
            Some(k) => ApiItem::Opt(k, rest),
            None => ApiItem::Bad,
        },
    }
}

} // verus!
