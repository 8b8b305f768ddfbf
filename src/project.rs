//! The resolved API project: argument catalogs, groups, status codes and
//! endpoints, with the lookups that resolve references against them.
use vstd::prelude::*;
use crate::text::{chars_eq, chars_of, trim, trimmed};
use crate::models::ProjectModel;
use crate::tables::{fallback_reason, fallback_status};

verus! {

/// JSON values of `serde_json`, carried through the project unread.
#[verifier::external_type_specification]
#[verifier::external_body]
pub struct ExValue(serde_json::Value);

/// The views of a sequence of strings.
pub open spec fn views(v: Seq<String>) -> Seq<Seq<char>> {
    v.map_values(|s: String| s@)
}

pub proof fn lemma_views_push(v: Seq<String>, s: String)
    ensures
        views(v.push(s)) == views(v).push(s@),
{
    assert(views(v.push(s)) =~= views(v).push(s@));
}

#[derive(Debug, Clone, Copy, PartialEq, Eq, Structural)]
pub enum DataType {
    String,
    Number,
    Boolean,
    Unknown,
}

pub open spec fn data_type_name(t: DataType) -> Seq<char> {
    match t {
        DataType::String => "string"@,
        DataType::Number => "number"@,
        DataType::Boolean => "boolean"@,
        DataType::Unknown => "unk"@,
    }
}

impl DataType {
    /// The name under which the type is written out.
    pub fn as_str(&self) -> (r: &'static str)
        ensures
            r@ == data_type_name(*self),
    {
        match *self {
            DataType::String => "string",
            DataType::Number => "number",
            DataType::Boolean => "boolean",
            DataType::Unknown => "unk",
        }
    }
}

#[derive(Debug)]
pub struct StatusCode {
    pub code: String,
    pub description: String,
    pub is_retryable: bool,
}

pub struct StatusV {
    pub code: Seq<char>,
    pub description: Seq<char>,
    pub is_retryable: bool,
}

impl View for StatusCode {
    type V = StatusV;

    open spec fn view(&self) -> StatusV {
        StatusV { code: self.code@, description: self.description@, is_retryable: self.is_retryable }
    }
}

impl StatusCode {
    /// A status code that is not retryable.
    pub fn new(code: &str, description: &str) -> (r: StatusCode)
        ensures
            r@ == (StatusV { code: code@, description: description@, is_retryable: false }),
    {
        StatusCode {
            code: String::from_str(code),
            description: String::from_str(description),
            is_retryable: false,
        }
    }

    pub fn duplicate(&self) -> (r: StatusCode)
        ensures
            r@ == self@,
    {
        StatusCode {
            code: self.code.clone(),
            description: self.description.clone(),
            is_retryable: self.is_retryable,
        }
    }
}

#[derive(Debug)]
pub struct ProjectArgument {
    pub name: String,
    pub data_type: DataType,
    pub alias: String,
    pub required: bool,
    pub default_value: String,
    pub description: String,
}

pub struct ArgV {
    pub name: Seq<char>,
    pub data_type: DataType,
    pub alias: Seq<char>,
    pub required: bool,
    pub default_value: Seq<char>,
    pub description: Seq<char>,
}

impl View for ProjectArgument {
    type V = ArgV;

    open spec fn view(&self) -> ArgV {
        ArgV {
            name: self.name@,
            data_type: self.data_type,
            alias: self.alias@,
            required: self.required,
            default_value: self.default_value@,
            description: self.description@,
        }
    }
}

/// Arguments compare by everything but their description.
pub open spec fn same_argument(a: ArgV, b: ArgV) -> bool {
    a.name == b.name && a.data_type == b.data_type && a.alias == b.alias && a.required
        == b.required && a.default_value == b.default_value
}

impl ProjectArgument {
    /// An argument with an empty description.
    pub fn new(
        name: &str,
        data_type: DataType,
        alias: &str,
        required: bool,
        default_value: &str,
    ) -> (r: ProjectArgument)
        ensures
            r@ == (ArgV {
                name: name@,
                data_type,
                alias: alias@,
                required,
                default_value: default_value@,
                description: Seq::empty(),
            }),
    {
        ProjectArgument {
            name: String::from_str(name),
            data_type,
            alias: String::from_str(alias),
            required,
            default_value: String::from_str(default_value),
            description: String::new(),
        }
    }
}

impl PartialEq for ProjectArgument {
    fn eq(&self, other: &ProjectArgument) -> (r: bool) {
        self.name == other.name && self.data_type == other.data_type && self.alias == other.alias
            && self.required == other.required && self.default_value == other.default_value
    }
}

impl vstd::std_specs::cmp::PartialEqSpecImpl for ProjectArgument {
    open spec fn obeys_eq_spec() -> bool {
        true
    }

    open spec fn eq_spec(&self, other: &ProjectArgument) -> bool {
        same_argument(self@, other@)
    }
}

/// Whether the argument answers to `name`, by its name or its alias.
pub open spec fn answers_to(a: ArgV, name: Seq<char>) -> bool {
    a.name == name || (a.alias.len() > 0 && a.alias == name)
}

/// Index of the first argument of the catalog that answers to `name`.
pub open spec fn lookup_arg(cat: Seq<ArgV>, name: Seq<char>) -> Option<int>
    decreases cat.len(),
{
    if cat.len() == 0 {
        None
    } else {
        match lookup_arg(cat.drop_last(), name) {
            Some(i) => Some(i),
            None => if answers_to(cat.last(), name) {
                Some(cat.len() - 1)
            } else {
                None
            },
        }
    }
}

pub proof fn lemma_lookup_arg(cat: Seq<ArgV>, name: Seq<char>)
    ensures
        match lookup_arg(cat, name) {
            Some(i) => 0 <= i < cat.len() && answers_to(cat[i], name) && forall|j: int|
                0 <= j < i ==> !answers_to(#[trigger] cat[j], name),
            None => forall|j: int| 0 <= j < cat.len() ==> !answers_to(#[trigger] cat[j], name),
        },
    decreases cat.len(),
{
    if cat.len() > 0 {
        lemma_lookup_arg(cat.drop_last(), name);
        assert(forall|j: int| 0 <= j < cat.len() - 1 ==> cat.drop_last()[j] == cat[j]);
    }
}

/// The catalog entries that the references resolve to, in reference order;
/// references that resolve to nothing are left out.
pub open spec fn resolve_args(cat: Seq<ArgV>, refs: Seq<Seq<char>>) -> Seq<ArgV>
    decreases refs.len(),
{
    if refs.len() == 0 {
        Seq::empty()
    } else {
        let rest = resolve_args(cat, refs.drop_last());
        match lookup_arg(cat, trim(refs.last())) {
            Some(i) => rest.push(cat[i]),
            None => rest,
        }
    }
}

/// The views of a sequence of arguments.
pub open spec fn arg_views(v: Seq<ProjectArgument>) -> Seq<ArgV> {
    v.map_values(|a: ProjectArgument| a@)
}

/// The status code that `code` resolves to: the first catalog entry with
/// that code, else the built-in table, else nothing.
pub open spec fn resolve_status(cat: Seq<StatusV>, code: Seq<char>) -> Option<StatusV> {
    match lookup_status(cat, code) {
        Some(i) => Some(cat[i]),
        None => match fallback_status(code) {
            Some(d) => Some(StatusV { code, description: d, is_retryable: false }),
            None => None,
        },
    }
}

/// Index of the first catalog entry with the given code.
pub open spec fn lookup_status(cat: Seq<StatusV>, code: Seq<char>) -> Option<int>
    decreases cat.len(),
{
    if cat.len() == 0 {
        None
    } else {
        match lookup_status(cat.drop_last(), code) {
            Some(i) => Some(i),
            None => if cat.last().code == code {
                Some(cat.len() - 1)
            } else {
                None
            },
        }
    }
}

pub proof fn lemma_lookup_status(cat: Seq<StatusV>, code: Seq<char>)
    ensures
        match lookup_status(cat, code) {
            Some(i) => 0 <= i < cat.len() && cat[i].code == code && forall|j: int|
                0 <= j < i ==> (#[trigger] cat[j]).code != code,
            None => forall|j: int| 0 <= j < cat.len() ==> (#[trigger] cat[j]).code != code,
        },
    decreases cat.len(),
{
    if cat.len() > 0 {
        lemma_lookup_status(cat.drop_last(), code);
        assert(forall|j: int| 0 <= j < cat.len() - 1 ==> cat.drop_last()[j] == cat[j]);
    }
}

/// The status codes that the references resolve to, in order.
pub open spec fn resolve_statuses(cat: Seq<StatusV>, refs: Seq<Seq<char>>) -> Seq<StatusV>
    decreases refs.len(),
{
    if refs.len() == 0 {
        Seq::empty()
    } else {
        let rest = resolve_statuses(cat, refs.drop_last());
        match resolve_status(cat, refs.last()) {
            Some(s) => rest.push(s),
            None => rest,
        }
    }
}

pub open spec fn status_views(v: Seq<StatusCode>) -> Seq<StatusV> {
    v.map_values(|s: StatusCode| s@)
}

/// The first argument of `cat` that answers to the trimmed `name`.
fn find_argument<'a>(cat: &'a Vec<ProjectArgument>, name: &str) -> (r: Option<&'a ProjectArgument>)
    ensures
        match lookup_arg(arg_views(cat@), trim(name@)) {
            Some(i) => r is Some && r->0@ == cat@[i]@,
            None => r is None,
        },
{
    let key = trimmed(&chars_of(name));
    let ghost cv = arg_views(cat@);
    proof {
        lemma_lookup_arg(cv, key@);
    }
    let mut i: usize = 0;
    while i < cat.len()
        invariant
            i <= cat@.len(),
            cv == arg_views(cat@),
            key@ == trim(name@),
            forall|j: int| 0 <= j < i ==> !answers_to(#[trigger] cv[j], key@),
        decreases cat@.len() - i,
    {
        let a = &cat[i];
        let by_name = chars_eq(&key, a.name.as_str());
        let by_alias = a.alias.as_str().unicode_len() > 0 && chars_eq(&key, a.alias.as_str());
        assert(cv[i as int] == a@);
        if by_name || by_alias {
            proof {
                lemma_lookup_arg(cv, key@);
                if let Some(k) = lookup_arg(cv, key@) {
                    if k < i {
                        assert(!answers_to(cv[k], key@));
                    }
                    if k > i {
                        assert(!answers_to(cv[i as int], key@));
                    }
                }
            }
            return Some(a);
        }
        i = i + 1;
    }
    proof {
        lemma_lookup_arg(cv, key@);
    }
    None
}

/// The views of a sequence of argument references.
pub open spec fn arg_ref_views(v: Seq<&ProjectArgument>) -> Seq<ArgV> {
    v.map_values(|a: &ProjectArgument| a@)
}

/// The arguments of `cat` that the references of `list` resolve to.
fn resolve_in<'a>(cat: &'a Vec<ProjectArgument>, list: &[String]) -> (r: Vec<&'a ProjectArgument>)
    ensures
        arg_ref_views(r@) == resolve_args(arg_views(cat@), views(list@)),
{
    let ghost refs = views(list@);
    let mut out: Vec<&'a ProjectArgument> = Vec::new();
    let mut i: usize = 0;
    assert(refs.subrange(0, 0) =~= Seq::<Seq<char>>::empty());
    assert(arg_ref_views(out@) =~= Seq::<ArgV>::empty());
    while i < list.len()
        invariant
            i <= list@.len(),
            refs == views(list@),
            arg_ref_views(out@) == resolve_args(arg_views(cat@), refs.subrange(0, i as int)),
        decreases list@.len() - i,
    {
        let ghost pre = refs.subrange(0, i as int + 1);
        assert(pre.drop_last() =~= refs.subrange(0, i as int));
        assert(pre.last() == list@[i as int]@);
        let ghost before = out@;
        proof {
            lemma_lookup_arg(arg_views(cat@), trim(list@[i as int]@));
        }
        match find_argument(cat, list[i].as_str()) {
            Some(a) => {
                out.push(a);
                assert(arg_ref_views(out@) =~= arg_ref_views(before).push(a@));
            },
            None => {},
        }
        i = i + 1;
    }
    assert(refs.subrange(0, list@.len() as int) =~= refs);
    out
}

/// The first status code of `cat` with the given code, else the one of the
/// built-in table.
fn find_status(cat: &Vec<StatusCode>, code: &str) -> (r: Option<StatusCode>)
    ensures
        match r {
            Some(s) => resolve_status(status_views(cat@), code@) == Some(s@),
            None => resolve_status(status_views(cat@), code@) is None,
        },
{
    let key = chars_of(code);
    let ghost cv = status_views(cat@);
    let mut i: usize = 0;
    while i < cat.len()
        invariant
            i <= cat@.len(),
            cv == status_views(cat@),
            key@ == code@,
            forall|j: int| 0 <= j < i ==> (#[trigger] cv[j]).code != key@,
        decreases cat@.len() - i,
    {
        assert(cv[i as int] == cat@[i as int]@);
        if chars_eq(&key, cat[i].code.as_str()) {
            proof {
                lemma_lookup_status(cv, key@);
                if let Some(k) = lookup_status(cv, key@) {
                    if k < i {
                        assert(cv[k].code != key@);
                    }
                    if k > i {
                        assert(cv[i as int].code != key@);
                    }
                }
            }
            return Some(cat[i].duplicate());
        }
        i = i + 1;
    }
    proof {
        lemma_lookup_status(cv, key@);
    }
    match fallback_reason(&key) {
        Some(d) => Some(StatusCode::new(code, d)),
        None => None,
    }
}

pub struct ArgumentGroup {
    pub id: String,
    pub items: Vec<String>,
}

pub struct GroupV {
    pub id: Seq<char>,
    pub items: Seq<Seq<char>>,
}

impl View for ArgumentGroup {
    type V = GroupV;

    open spec fn view(&self) -> GroupV {
        GroupV { id: self.id@, items: views(self.items@) }
    }
}

pub open spec fn group_views(v: Seq<ArgumentGroup>) -> Seq<GroupV> {
    v.map_values(|g: ArgumentGroup| g@)
}

/// The members of every group called `id`, in declaration order.
pub open spec fn spread(groups: Seq<GroupV>, id: Seq<char>) -> Seq<Seq<char>>
    decreases groups.len(),
{
    if groups.len() == 0 {
        Seq::empty()
    } else {
        let rest = spread(groups.drop_last(), id);
        if groups.last().id == id {
            rest + groups.last().items
        } else {
            rest
        }
    }
}

/// The catalogs that group references are resolved against.
#[derive(Debug, Clone, Copy, PartialEq, Eq, Structural)]
pub enum GroupSection {
    Headers,
    Params,
    Query,
    StatusCodes,
}

/// The argument catalogs.
#[derive(Debug, Clone, Copy, PartialEq, Eq, Structural)]
pub enum ArgSection {
    Headers,
    Params,
    Query,
}

pub struct APIConfiguration {
    pub description: String,
    pub operation: String,
    pub query_string: Vec<String>,
    pub path_params: Vec<String>,
    pub headers: Vec<String>,
    pub tags: Vec<String>,
    pub status_codes: Vec<String>,
    pub produces: Vec<String>,
    pub consumes: Vec<String>,
    pub use_cases: Vec<String>,
    pub example: String,
}

pub struct ConfigV {
    pub description: Seq<char>,
    pub operation: Seq<char>,
    pub query_string: Seq<Seq<char>>,
    pub path_params: Seq<Seq<char>>,
    pub headers: Seq<Seq<char>>,
    pub tags: Seq<Seq<char>>,
    pub status_codes: Seq<Seq<char>>,
    pub produces: Seq<Seq<char>>,
    pub consumes: Seq<Seq<char>>,
    pub use_cases: Seq<Seq<char>>,
    pub example: Seq<char>,
}

impl View for APIConfiguration {
    type V = ConfigV;

    open spec fn view(&self) -> ConfigV {
        ConfigV {
            description: self.description@,
            operation: self.operation@,
            query_string: views(self.query_string@),
            path_params: views(self.path_params@),
            headers: views(self.headers@),
            tags: views(self.tags@),
            status_codes: views(self.status_codes@),
            produces: views(self.produces@),
            consumes: views(self.consumes@),
            use_cases: views(self.use_cases@),
            example: self.example@,
        }
    }
}

/// A configuration with the given description and nothing else.
pub open spec fn empty_config(description: Seq<char>) -> ConfigV {
    ConfigV {
        description,
        operation: Seq::empty(),
        query_string: Seq::empty(),
        path_params: Seq::empty(),
        headers: Seq::empty(),
        tags: Seq::empty(),
        status_codes: Seq::empty(),
        produces: Seq::empty(),
        consumes: Seq::empty(),
        use_cases: Seq::empty(),
        example: Seq::empty(),
    }
}

impl APIConfiguration {
    pub fn new(description: String) -> (r: APIConfiguration)
        ensures
            r@ == empty_config(description@),
    {
        let r = APIConfiguration {
            description,
            operation: String::new(),
            query_string: Vec::new(),
            path_params: Vec::new(),
            headers: Vec::new(),
            tags: Vec::new(),
            status_codes: Vec::new(),
            produces: Vec::new(),
            consumes: Vec::new(),
            use_cases: Vec::new(),
            example: String::new(),
        };
        assert(r@.query_string =~= Seq::<Seq<char>>::empty());
        assert(r@.path_params =~= Seq::<Seq<char>>::empty());
        assert(r@.headers =~= Seq::<Seq<char>>::empty());
        assert(r@.tags =~= Seq::<Seq<char>>::empty());
        assert(r@.status_codes =~= Seq::<Seq<char>>::empty());
        assert(r@.produces =~= Seq::<Seq<char>>::empty());
        assert(r@.consumes =~= Seq::<Seq<char>>::empty());
        assert(r@.use_cases =~= Seq::<Seq<char>>::empty());
        r
    }
}

/// The HTTP verbs that an endpoint can be configured for.
#[derive(Debug, Clone, Copy, PartialEq, Eq, Structural)]
pub enum HttpMethod {
    Get,
    Post,
    Put,
    Delete,
    Patch,
}

pub struct APIDefinition {
    pub get: Option<APIConfiguration>,
    pub post: Option<APIConfiguration>,
    pub put: Option<APIConfiguration>,
    pub delete: Option<APIConfiguration>,
    pub patch: Option<APIConfiguration>,
}

pub struct DefV {
    pub get: Option<ConfigV>,
    pub post: Option<ConfigV>,
    pub put: Option<ConfigV>,
    pub delete: Option<ConfigV>,
    pub patch: Option<ConfigV>,
}

pub open spec fn config_view(c: Option<APIConfiguration>) -> Option<ConfigV> {
    match c {
        Some(c) => Some(c@),
        None => None,
    }
}

impl View for APIDefinition {
    type V = DefV;

    open spec fn view(&self) -> DefV {
        DefV {
            get: config_view(self.get),
            post: config_view(self.post),
            put: config_view(self.put),
            delete: config_view(self.delete),
            patch: config_view(self.patch),
        }
    }
}

pub open spec fn empty_definition() -> DefV {
    DefV { get: None, post: None, put: None, delete: None, patch: None }
}

/// `d` with the configuration of `verb` set to `c`.
pub open spec fn with_verb(d: DefV, verb: HttpMethod, c: ConfigV) -> DefV {
    match verb {
        HttpMethod::Get => DefV { get: Some(c), ..d },
        HttpMethod::Post => DefV { post: Some(c), ..d },
        HttpMethod::Put => DefV { put: Some(c), ..d },
        HttpMethod::Delete => DefV { delete: Some(c), ..d },
        HttpMethod::Patch => DefV { patch: Some(c), ..d },
    }
}

impl APIDefinition {
    pub fn new() -> (r: APIDefinition)
        ensures
            r@ == empty_definition(),
    {
        APIDefinition { get: None, post: None, put: None, delete: None, patch: None }
    }

    pub fn set(&mut self, verb: HttpMethod, c: APIConfiguration)
        ensures
            final(self)@ == with_verb(old(self)@, verb, c@),
    {
        match verb {
            HttpMethod::Get => self.get = Some(c),
            HttpMethod::Post => self.post = Some(c),
            HttpMethod::Put => self.put = Some(c),
            HttpMethod::Delete => self.delete = Some(c),
            HttpMethod::Patch => self.patch = Some(c),
        }
    }
}

pub struct Endpoint {
    pub path: String,
    pub definition: APIDefinition,
}

pub struct EndpointV {
    pub path: Seq<char>,
    pub definition: DefV,
}

impl View for Endpoint {
    type V = EndpointV;

    open spec fn view(&self) -> EndpointV {
        EndpointV { path: self.path@, definition: self.definition@ }
    }
}

pub open spec fn endpoint_views(v: Seq<Endpoint>) -> Seq<EndpointV> {
    v.map_values(|e: Endpoint| e@)
}

/// A set of request/response examples stored under one name.
pub struct Example {
    pub request: Option<serde_json::Value>,
    pub response: Option<serde_json::Value>,
}

pub struct ExampleEntry {
    pub name: String,
    pub examples: Vec<Example>,
}

pub struct Project {
    pub title: String,
    pub version: String,
    pub headers_groups: Vec<ArgumentGroup>,
    pub params_groups: Vec<ArgumentGroup>,
    pub query_groups: Vec<ArgumentGroup>,
    pub status_codes_groups: Vec<ArgumentGroup>,
    pub headers: Vec<ProjectArgument>,
    pub query: Vec<ProjectArgument>,
    pub params: Vec<ProjectArgument>,
    pub status_codes: Vec<StatusCode>,
    pub endpoints: Vec<Endpoint>,
    pub examples: Vec<ExampleEntry>,
    pub models: Option<ProjectModel>,
}

pub struct ProjectV {
    pub title: Seq<char>,
    pub version: Seq<char>,
    pub headers_groups: Seq<GroupV>,
    pub params_groups: Seq<GroupV>,
    pub query_groups: Seq<GroupV>,
    pub status_codes_groups: Seq<GroupV>,
    pub headers: Seq<ArgV>,
    pub query: Seq<ArgV>,
    pub params: Seq<ArgV>,
    pub status_codes: Seq<StatusV>,
    pub endpoints: Seq<EndpointV>,
}

impl View for Project {
    type V = ProjectV;

    open spec fn view(&self) -> ProjectV {
        ProjectV {
            title: self.title@,
            version: self.version@,
            headers_groups: group_views(self.headers_groups@),
            params_groups: group_views(self.params_groups@),
            query_groups: group_views(self.query_groups@),
            status_codes_groups: group_views(self.status_codes_groups@),
            headers: arg_views(self.headers@),
            query: arg_views(self.query@),
            params: arg_views(self.params@),
            status_codes: status_views(self.status_codes@),
            endpoints: endpoint_views(self.endpoints@),
        }
    }
}

/// The groups of a section.
pub open spec fn groups_of(p: ProjectV, section: GroupSection) -> Seq<GroupV> {
    match section {
        GroupSection::Headers => p.headers_groups,
        GroupSection::Params => p.params_groups,
        GroupSection::Query => p.query_groups,
        GroupSection::StatusCodes => p.status_codes_groups,
    }
}

/// The catalog of a section.
pub open spec fn catalog_of(p: ProjectV, section: ArgSection) -> Seq<ArgV> {
    match section {
        ArgSection::Headers => p.headers,
        ArgSection::Params => p.params,
        ArgSection::Query => p.query,
    }
}

/// Members of the groups called `id` of `groups`.
pub(crate) fn spread_in(groups: &Vec<ArgumentGroup>, id: &[char]) -> (r: Vec<String>)
    ensures
        views(r@) == spread(group_views(groups@), id@),
{
    let ghost gv = group_views(groups@);
    let mut out: Vec<String> = Vec::new();
    let mut i: usize = 0;
    assert(gv.subrange(0, 0) =~= Seq::<GroupV>::empty());
    assert(views(out@) =~= Seq::<Seq<char>>::empty());
    while i < groups.len()
        invariant
            i <= groups@.len(),
            gv == group_views(groups@),
            views(out@) == spread(gv.subrange(0, i as int), id@),
        decreases groups@.len() - i,
    {
        let ghost pre = gv.subrange(0, i as int + 1);
        assert(pre.drop_last() =~= gv.subrange(0, i as int));
        let g = &groups[i];
        assert(pre.last() == g@);
        if chars_eq(id, g.id.as_str()) {
            let ghost before = views(out@);
            let mut k: usize = 0;
            while k < g.items.len()
                invariant
                    k <= g.items@.len(),
                    views(out@) == before + views(g.items@).subrange(0, k as int),
                decreases g.items@.len() - k,
            {
                let ghost mid = out@;
                out.push(g.items[k].clone());
                proof {
                    lemma_views_push(mid, g.items@[k as int]);
                }
                k = k + 1;
                assert(views(g.items@).subrange(0, k as int) =~= views(g.items@).subrange(
                    0,
                    k - 1,
                ).push(g.items@[k - 1]@));
            }
            assert(views(g.items@).subrange(0, k as int) =~= views(g.items@));
        }
        i = i + 1;
    }
    assert(gv.subrange(0, groups@.len() as int) =~= gv);
    out
}

impl Project {
    /// An empty project that carries the given examples.
    pub fn new(examples: Vec<ExampleEntry>, models: Option<ProjectModel>) -> (r: Project)
        ensures
            r@ == empty_project(),
            r.examples == examples,
            r.models == models,
    {
        let r = Project {
            title: String::new(),
            version: String::new(),
            headers_groups: Vec::new(),
            params_groups: Vec::new(),
            query_groups: Vec::new(),
            status_codes_groups: Vec::new(),
            headers: Vec::new(),
            query: Vec::new(),
            params: Vec::new(),
            status_codes: Vec::new(),
            endpoints: Vec::new(),
            examples,
            models,
        };
        assert(r@.headers_groups =~= Seq::<GroupV>::empty());
        assert(r@.params_groups =~= Seq::<GroupV>::empty());
        assert(r@.query_groups =~= Seq::<GroupV>::empty());
        assert(r@.status_codes_groups =~= Seq::<GroupV>::empty());
        assert(r@.headers =~= Seq::<ArgV>::empty());
        assert(r@.query =~= Seq::<ArgV>::empty());
        assert(r@.params =~= Seq::<ArgV>::empty());
        assert(r@.status_codes =~= Seq::<StatusV>::empty());
        assert(r@.endpoints =~= Seq::<EndpointV>::empty());
        r
    }

    /// The header that answers to `name`, by name or alias.
    pub fn get_header(&self, name: &str) -> (r: Option<&ProjectArgument>)
        ensures
            match lookup_arg(self@.headers, trim(name@)) {
                Some(i) => r is Some && r->0@ == self@.headers[i],
                None => r is None,
            },
    {
        proof {
            lemma_lookup_arg(self@.headers, trim(name@));
        }
        find_argument(&self.headers, name)
    }

    /// The query-string argument that answers to `name`, by name or alias.
    pub fn get_query_string(&self, name: &str) -> (r: Option<&ProjectArgument>)
        ensures
            match lookup_arg(self@.query, trim(name@)) {
                Some(i) => r is Some && r->0@ == self@.query[i],
                None => r is None,
            },
    {
        proof {
            lemma_lookup_arg(self@.query, trim(name@));
        }
        find_argument(&self.query, name)
    }

    /// The path parameter that answers to `name`, by name or alias.
    pub fn get_path_param(&self, name: &str) -> (r: Option<&ProjectArgument>)
        ensures
            match lookup_arg(self@.params, trim(name@)) {
                Some(i) => r is Some && r->0@ == self@.params[i],
                None => r is None,
            },
    {
        proof {
            lemma_lookup_arg(self@.params, trim(name@));
        }
        find_argument(&self.params, name)
    }

    /// The status code that `code` resolves to.
    pub fn get_status_code(&self, code: &str) -> (r: Option<StatusCode>)
        ensures
            match r {
                Some(s) => resolve_status(self@.status_codes, code@) == Some(s@),
                None => resolve_status(self@.status_codes, code@) is None,
            },
    {
        find_status(&self.status_codes, code)
    }

    /// Returns the expanded headers associated to a list of references.
    pub fn get_headers(&self, list: &[String]) -> (r: Vec<&ProjectArgument>)
        ensures
            arg_ref_views(r@) == resolve_args(self@.headers, views(list@)),
    {
        resolve_in(&self.headers, list)
    }

    /// Returns the expanded query strings associated to a list of references.
    pub fn get_query_strings(&self, list: &[String]) -> (r: Vec<&ProjectArgument>)
        ensures
            arg_ref_views(r@) == resolve_args(self@.query, views(list@)),
    {
        resolve_in(&self.query, list)
    }

    /// Returns the expanded path parameters associated to a list of references.
    pub fn get_path_params(&self, list: &[String]) -> (r: Vec<&ProjectArgument>)
        ensures
            arg_ref_views(r@) == resolve_args(self@.params, views(list@)),
    {
        resolve_in(&self.params, list)
    }

    /// Returns the status codes that a list of references resolves to.
    pub fn get_status_codes(&self, list: &[String]) -> (r: Vec<StatusCode>)
        ensures
            status_views(r@) == resolve_statuses(self@.status_codes, views(list@)),
    {
        let ghost refs = views(list@);
        let mut out: Vec<StatusCode> = Vec::new();
        let mut i: usize = 0;
        assert(refs.subrange(0, 0) =~= Seq::<Seq<char>>::empty());
        assert(status_views(out@) =~= Seq::<StatusV>::empty());
        while i < list.len()
            invariant
                i <= list@.len(),
                refs == views(list@),
                status_views(out@) == resolve_statuses(
                    self@.status_codes,
                    refs.subrange(0, i as int),
                ),
            decreases list@.len() - i,
        {
            let ghost pre = refs.subrange(0, i as int + 1);
            assert(pre.drop_last() =~= refs.subrange(0, i as int));
            assert(pre.last() == list@[i as int]@);
            let ghost before = out@;
            match find_status(&self.status_codes, list[i].as_str()) {
                Some(s) => {
                    out.push(s);
                    assert(status_views(out@) =~= status_views(before).push(s@));
                },
                None => {},
            }
            i = i + 1;
        }
        assert(refs.subrange(0, list@.len() as int) =~= refs);
        out
    }

    /// The members of the groups called `id` among the groups of `section`.
    pub fn spread_group(&self, section: GroupSection, id: &[char]) -> (r: Vec<String>)
        ensures
            views(r@) == spread(groups_of(self@, section), id@),
    {
        match section {
            GroupSection::Headers => spread_in(&self.headers_groups, id),
            GroupSection::Params => spread_in(&self.params_groups, id),
            GroupSection::Query => spread_in(&self.query_groups, id),
            GroupSection::StatusCodes => spread_in(&self.status_codes_groups, id),
        }
    }
}

pub open spec fn empty_project() -> ProjectV {
    ProjectV {
        title: Seq::empty(),
        version: Seq::empty(),
        headers_groups: Seq::empty(),
        params_groups: Seq::empty(),
        query_groups: Seq::empty(),
        status_codes_groups: Seq::empty(),
        headers: Seq::empty(),
        query: Seq::empty(),
        params: Seq::empty(),
        status_codes: Seq::empty(),
        endpoints: Seq::empty(),
    }
}

} // verus!
