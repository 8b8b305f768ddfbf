//! The OpenAPI description of a project: one operation per configured verb,
//! with its parameters and responses resolved against the catalogs.
use vstd::prelude::*;
use crate::models::{index_of_key, lemma_index_of_key, put_by_key};
use crate::project::{
    arg_ref_views, config_view, data_type_name, resolve_args, resolve_statuses, status_views,
    views, APIConfiguration, APIDefinition, ArgV, ConfigV, DefV, EndpointV, Project,
    ProjectArgument, ProjectV, StatusCode, StatusV,
};
use crate::tables::{get_mime_types, mime_types};

verus! {

pub struct InfoSpec {
    pub title: String,
    pub version: String,
}

pub struct APIParamSchemaSpec {
    pub type_field: String,
}

pub struct APIParamSpec {
    pub name: String,
    pub where_in: String,
    pub description: String,
    pub required: bool,
    pub schema: APIParamSchemaSpec,
}

pub struct ParamV {
    pub name: Seq<char>,
    pub where_in: Seq<char>,
    pub description: Seq<char>,
    pub required: bool,
    pub type_field: Seq<char>,
}

impl View for APIParamSpec {
    type V = ParamV;

    open spec fn view(&self) -> ParamV {
        ParamV {
            name: self.name@,
            where_in: self.where_in@,
            description: self.description@,
            required: self.required,
            type_field: self.schema.type_field@,
        }
    }
}

pub struct APISchemaSpec {
    pub type_field: String,
}

pub struct APIResponseContentSpec {
    pub schema: APISchemaSpec,
}

pub struct APIResponseSpec {
    pub description: String,
    /// The schema of the body, by MIME type.
    pub content: Vec<(String, APIResponseContentSpec)>,
}

pub struct ResponseV {
    pub description: Seq<char>,
    pub content: Seq<(Seq<char>, Seq<char>)>,
}

pub open spec fn content_views(v: Seq<(String, APIResponseContentSpec)>) -> Seq<(Seq<char>, Seq<char>)> {
    v.map_values(|c: (String, APIResponseContentSpec)| (c.0@, c.1.schema.type_field@))
}

impl View for APIResponseSpec {
    type V = ResponseV;

    open spec fn view(&self) -> ResponseV {
        ResponseV { description: self.description@, content: content_views(self.content@) }
    }
}

pub struct APISpec {
    pub description: String,
    pub operation_id: String,
    pub parameters: Vec<APIParamSpec>,
    /// The responses, by status code.
    pub responses: Vec<(String, APIResponseSpec)>,
}

pub struct OperationV {
    pub description: Seq<char>,
    pub operation_id: Seq<char>,
    pub parameters: Seq<ParamV>,
    pub responses: Seq<(Seq<char>, ResponseV)>,
}

pub open spec fn param_views(v: Seq<APIParamSpec>) -> Seq<ParamV> {
    v.map_values(|p: APIParamSpec| p@)
}

pub open spec fn response_views(v: Seq<(String, APIResponseSpec)>) -> Seq<(Seq<char>, ResponseV)> {
    v.map_values(|r: (String, APIResponseSpec)| (r.0@, r.1@))
}

impl View for APISpec {
    type V = OperationV;

    open spec fn view(&self) -> OperationV {
        OperationV {
            description: self.description@,
            operation_id: self.operation_id@,
            parameters: param_views(self.parameters@),
            responses: response_views(self.responses@),
        }
    }
}

pub struct PathSpec {
    pub get: Option<APISpec>,
    pub post: Option<APISpec>,
    pub put: Option<APISpec>,
    pub delete: Option<APISpec>,
    pub patch: Option<APISpec>,
}

pub struct PathV {
    pub get: Option<OperationV>,
    pub post: Option<OperationV>,
    pub put: Option<OperationV>,
    pub delete: Option<OperationV>,
    pub patch: Option<OperationV>,
}

pub open spec fn operation_view(o: Option<APISpec>) -> Option<OperationV> {
    match o {
        Some(s) => Some(s@),
        None => None,
    }
}

impl View for PathSpec {
    type V = PathV;

    open spec fn view(&self) -> PathV {
        PathV {
            get: operation_view(self.get),
            post: operation_view(self.post),
            put: operation_view(self.put),
            delete: operation_view(self.delete),
            patch: operation_view(self.patch),
        }
    }
}

pub struct OpenAPI {
    pub openapi: String,
    pub info: InfoSpec,
    /// The operations, by path.
    pub paths: Vec<(String, PathSpec)>,
}

pub struct OpenApiV {
    pub openapi: Seq<char>,
    pub title: Seq<char>,
    pub version: Seq<char>,
    pub paths: Seq<(Seq<char>, PathV)>,
}

pub open spec fn path_views(v: Seq<(String, PathSpec)>) -> Seq<(Seq<char>, PathV)> {
    v.map_values(|p: (String, PathSpec)| (p.0@, p.1@))
}

impl View for OpenAPI {
    type V = OpenApiV;

    open spec fn view(&self) -> OpenApiV {
        OpenApiV {
            openapi: self.openapi@,
            title: self.info.title@,
            version: self.info.version@,
            paths: path_views(self.paths@),
        }
    }
}

/// The parameter that an argument becomes, found in `where_in`.
pub open spec fn param_of(a: ArgV, where_in: Seq<char>) -> ParamV {
    ParamV {
        name: a.name,
        where_in,
        description: a.description,
        required: a.required,
        type_field: data_type_name(a.data_type),
    }
}

pub open spec fn params_of(args: Seq<ArgV>, where_in: Seq<char>) -> Seq<ParamV> {
    args.map_values(|a: ArgV| param_of(a, where_in))
}

pub open spec fn by_first<X>() -> spec_fn((Seq<char>, X)) -> Seq<char> {
    |p: (Seq<char>, X)| p.0
}

/// The response content: a string schema for each MIME type, once.
pub open spec fn content_of(mimes: Seq<Seq<char>>) -> Seq<(Seq<char>, Seq<char>)>
    decreases mimes.len(),
{
    if mimes.len() == 0 {
        Seq::empty()
    } else {
        put_by_key(content_of(mimes.drop_last()), by_first(), (mimes.last(), "string"@))
    }
}

/// The responses by code; a later status with the same code wins.
pub open spec fn responses_of(codes: Seq<StatusV>, content: Seq<(Seq<char>, Seq<char>)>) -> Seq<
    (Seq<char>, ResponseV),
>
    decreases codes.len(),
{
    if codes.len() == 0 {
        Seq::empty()
    } else {
        let s = codes.last();
        put_by_key(
            responses_of(codes.drop_last(), content),
            by_first(),
            (s.code, ResponseV { description: s.description, content }),
        )
    }
}

/// The OpenAPI operation of one configuration.
pub open spec fn operation_of(p: ProjectV, c: ConfigV) -> OperationV {
    OperationV {
        description: c.description,
        operation_id: c.operation,
        parameters: params_of(resolve_args(p.headers, c.headers), "header"@) + params_of(
            resolve_args(p.query, c.query_string),
            "query"@,
        ) + params_of(resolve_args(p.params, c.path_params), "path"@),
        responses: responses_of(
            resolve_statuses(p.status_codes, c.status_codes),
            content_of(mime_types(c.produces)),
        ),
    }
}

pub open spec fn operation_of_opt(p: ProjectV, c: Option<ConfigV>) -> Option<OperationV> {
    match c {
        Some(c) => Some(operation_of(p, c)),
        None => None,
    }
}

pub open spec fn path_of(p: ProjectV, d: DefV) -> PathV {
    PathV {
        get: operation_of_opt(p, d.get),
        post: operation_of_opt(p, d.post),
        put: operation_of_opt(p, d.put),
        delete: operation_of_opt(p, d.delete),
        patch: operation_of_opt(p, d.patch),
    }
}

pub open spec fn paths_of(p: ProjectV) -> Seq<(Seq<char>, PathV)> {
    p.endpoints.map_values(|e: EndpointV| (e.path, path_of(p, e.definition)))
}

/// The OpenAPI description of a project.
pub open spec fn open_api_of(p: ProjectV) -> OpenApiV {
    OpenApiV { openapi: "3.0.3"@, title: p.title, version: p.version, paths: paths_of(p) }
}

/// Stores `x` under its key, replacing the first entry with the same key.
fn put_content(v: &mut Vec<(String, APIResponseContentSpec)>, x: (String, APIResponseContentSpec))
    ensures
        content_views(final(v)@) == put_by_key(content_views(old(v)@), by_first(), (x.0@, x.1.schema.type_field@)),
{
    let ghost sv = content_views(old(v)@);
    let ghost xv = (x.0@, x.1.schema.type_field@);
    let mut i: usize = 0;
    while i < v.len()
        invariant
            i <= v@.len(),
            v@ == old(v)@,
            sv == content_views(v@),
            xv == (x.0@, x.1.schema.type_field@),
            forall|j: int| 0 <= j < i ==> by_first()(#[trigger] sv[j]) != x.0@,
        decreases v@.len() - i,
    {
        assert(sv[i as int] == (v@[i as int].0@, v@[i as int].1.schema.type_field@));
        if v[i].0 == x.0 {
            proof {
                lemma_index_of_key(sv, by_first(), x.0@);
                if let Some(m) = index_of_key(sv, by_first(), x.0@) {
                    if m < i {
                        assert(by_first()(sv[m]) != x.0@);
                    }
                    if m > i {
                        assert(by_first()(sv[i as int]) != x.0@);
                    }
                }
            }
            v.set(i, x);
            assert(content_views(v@) =~= sv.update(i as int, xv));
            return;
        }
        i = i + 1;
    }
    proof {
        lemma_index_of_key(sv, by_first(), x.0@);
    }
    v.push(x);
    assert(content_views(v@) =~= sv.push(xv));
}

/// Stores `x` under its key, replacing the first entry with the same key.
fn put_response(v: &mut Vec<(String, APIResponseSpec)>, x: (String, APIResponseSpec))
    ensures
        response_views(final(v)@) == put_by_key(response_views(old(v)@), by_first(), (x.0@, x.1@)),
{
    let ghost sv = response_views(old(v)@);
    let ghost xv = (x.0@, x.1@);
    let mut i: usize = 0;
    while i < v.len()
        invariant
            i <= v@.len(),
            v@ == old(v)@,
            sv == response_views(v@),
            xv == (x.0@, x.1@),
            forall|j: int| 0 <= j < i ==> by_first()(#[trigger] sv[j]) != x.0@,
        decreases v@.len() - i,
    {
        assert(sv[i as int] == (v@[i as int].0@, v@[i as int].1@));
        if v[i].0 == x.0 {
            proof {
                lemma_index_of_key(sv, by_first(), x.0@);
                if let Some(m) = index_of_key(sv, by_first(), x.0@) {
                    if m < i {
                        assert(by_first()(sv[m]) != x.0@);
                    }
                    if m > i {
                        assert(by_first()(sv[i as int]) != x.0@);
                    }
                }
            }
            v.set(i, x);
            assert(response_views(v@) =~= sv.update(i as int, xv));
            return;
        }
        i = i + 1;
    }
    proof {
        lemma_index_of_key(sv, by_first(), x.0@);
    }
    v.push(x);
    assert(response_views(v@) =~= sv.push(xv));
}

/// The parameters that the arguments become, found in `group_name`.
fn args_to_params(list: Vec<&ProjectArgument>, group_name: &str) -> (r: Vec<APIParamSpec>)
    ensures
        param_views(r@) == params_of(arg_ref_views(list@), group_name@),
{
    let mut params: Vec<APIParamSpec> = Vec::new();
    let mut i: usize = 0;
    while i < list.len()
        invariant
            i <= list@.len(),
            param_views(params@) == params_of(arg_ref_views(list@), group_name@).subrange(0, i as int),
        decreases list@.len() - i,
    {
        let item = list[i];
        let param = APIParamSpec {
            name: item.name.clone(),
            where_in: String::from_str(group_name),
            description: item.description.clone(),
            required: item.required,
            schema: APIParamSchemaSpec { type_field: String::from_str(item.data_type.as_str()) },
        };
        let ghost before = params@;
        assert(arg_ref_views(list@)[i as int] == item@);
        assert(param@ == param_of(item@, group_name@));
        params.push(param);
        assert(param_views(params@) =~= param_views(before).push(param@));
        assert(param_views(params@) =~= params_of(arg_ref_views(list@), group_name@).subrange(
            0,
            i as int + 1,
        ));
        i = i + 1;
    }
    assert(params_of(arg_ref_views(list@), group_name@).subrange(0, i as int) =~= params_of(
        arg_ref_views(list@),
        group_name@,
    ));
    params
}

/// The content of a response whose body is a plain string.
fn empty_response() -> (r: APIResponseContentSpec)
    ensures
        r.schema.type_field@ == "string"@,
{
    APIResponseContentSpec { schema: APISchemaSpec { type_field: String::from_str("string") } }
}

fn clone_content(v: &Vec<(String, APIResponseContentSpec)>) -> (r: Vec<(String, APIResponseContentSpec)>)
    ensures
        content_views(r@) == content_views(v@),
{
    let mut out: Vec<(String, APIResponseContentSpec)> = Vec::new();
    let mut i: usize = 0;
    while i < v.len()
        invariant
            i <= v@.len(),
            content_views(out@) == content_views(v@).subrange(0, i as int),
        decreases v@.len() - i,
    {
        let c = (
            v[i].0.clone(),
            APIResponseContentSpec {
                schema: APISchemaSpec { type_field: v[i].1.schema.type_field.clone() },
            },
        );
        let ghost before = out@;
        assert((c.0@, c.1.schema.type_field@) == content_views(v@)[i as int]);
        out.push(c);
        assert(content_views(out@) =~= content_views(before).push((c.0@, c.1.schema.type_field@)));
        assert(content_views(out@) =~= content_views(v@).subrange(0, i as int + 1));
        i = i + 1;
    }
    assert(content_views(v@).subrange(0, i as int) =~= content_views(v@));
    out
}

/// The responses of the status codes, each with a string body of every
/// produced MIME type.
fn status_codes_to_response_spec(status_codes: Vec<StatusCode>, produces: &[String]) -> (r: Vec<
    (String, APIResponseSpec),
>)
    ensures
        response_views(r@) == responses_of(status_views(status_codes@), content_of(views(produces@))),
{
    let ghost pv = views(produces@);
    let mut content: Vec<(String, APIResponseContentSpec)> = Vec::new();
    let mut i: usize = 0;
    assert(content_views(content@) =~= content_of(pv.subrange(0, 0)));
    while i < produces.len()
        invariant
            i <= produces@.len(),
            pv == views(produces@),
            content_views(content@) == content_of(pv.subrange(0, i as int)),
        decreases produces@.len() - i,
    {
        let ghost pre = pv.subrange(0, i as int + 1);
        assert(pre.drop_last() =~= pv.subrange(0, i as int));
        put_content(&mut content, (produces[i].clone(), empty_response()));
        i = i + 1;
    }
    assert(pv.subrange(0, i as int) =~= pv);
    let ghost sv = status_views(status_codes@);
    let mut codes: Vec<(String, APIResponseSpec)> = Vec::new();
    let mut k: usize = 0;
    assert(response_views(codes@) =~= responses_of(sv.subrange(0, 0), content_views(content@)));
    while k < status_codes.len()
        invariant
            k <= status_codes@.len(),
            sv == status_views(status_codes@),
            content_views(content@) == content_of(pv),
            response_views(codes@) == responses_of(sv.subrange(0, k as int), content_views(content@)),
        decreases status_codes@.len() - k,
    {
        let ghost pre = sv.subrange(0, k as int + 1);
        assert(pre.drop_last() =~= sv.subrange(0, k as int));
        let sc = &status_codes[k];
        let response = APIResponseSpec {
            description: sc.description.clone(),
            content: clone_content(&content),
        };
        put_response(&mut codes, (sc.code.clone(), response));
        k = k + 1;
    }
    assert(sv.subrange(0, k as int) =~= sv);
    codes
}

/// The OpenAPI operation of a configuration, if there is one.
fn get_spec_from_endpoint(endpoint: &Option<APIConfiguration>, project: &Project) -> (r: Option<APISpec>)
    ensures
        operation_view(r) == operation_of_opt(project@, config_view(*endpoint)),
{
    match endpoint {
        Some(definition) => {
            let mut params = args_to_params(project.get_headers(definition.headers.as_slice()), "header");
            let mut query = args_to_params(project.get_query_strings(definition.query_string.as_slice()), "query");
            let mut path_params = args_to_params(project.get_path_params(definition.path_params.as_slice()), "path");
            let ghost (h, q, p) = (params@, query@, path_params@);
            params.append(&mut query);
            params.append(&mut path_params);
            assert(param_views(params@) =~= param_views(h) + param_views(q) + param_views(p));
            let mimes = get_mime_types(definition.produces.as_slice());
            let responses = status_codes_to_response_spec(
                project.get_status_codes(definition.status_codes.as_slice()),
                mimes.as_slice(),
            );
            Some(
                APISpec {
                    description: definition.description.clone(),
                    operation_id: definition.operation.clone(),
                    parameters: params,
                    responses,
                },
            )
        },
        None => None,
    }
}

/// The OpenAPI operations of an endpoint.
fn api_spec_from_endpoint(endpoint: &APIDefinition, project: &Project) -> (r: PathSpec)
    ensures
        r@ == path_of(project@, endpoint@),
{
    PathSpec {
        get: get_spec_from_endpoint(&endpoint.get, project),
        post: get_spec_from_endpoint(&endpoint.post, project),
        put: get_spec_from_endpoint(&endpoint.put, project),
        delete: get_spec_from_endpoint(&endpoint.delete, project),
        patch: get_spec_from_endpoint(&endpoint.patch, project),
    }
}

/// The OpenAPI operations of every endpoint, by path.
fn get_paths_from_project(project: &Project) -> (r: Vec<(String, PathSpec)>)
    ensures
        path_views(r@) == paths_of(project@),
{
    let mut response: Vec<(String, PathSpec)> = Vec::new();
    let mut i: usize = 0;
    while i < project.endpoints.len()
        invariant
            i <= project.endpoints@.len(),
            path_views(response@) == paths_of(project@).subrange(0, i as int),
        decreases project.endpoints@.len() - i,
    {
        let e = &project.endpoints[i];
        assert(project@.endpoints[i as int] == e@);
        let entry = (e.path.clone(), api_spec_from_endpoint(&e.definition, project));
        let ghost before = response@;
        assert((entry.0@, entry.1@) == paths_of(project@)[i as int]);
        response.push(entry);
        assert(path_views(response@) =~= path_views(before).push((entry.0@, entry.1@)));
        assert(path_views(response@) =~= paths_of(project@).subrange(0, i as int + 1));
        i = i + 1;
    }
    assert(paths_of(project@).subrange(0, i as int) =~= paths_of(project@));
    response
}

impl OpenAPI {
    /// The OpenAPI description of a project.
    pub fn new_from_project_spec(project: &Project) -> (r: OpenAPI)
        ensures
            r@ == open_api_of(project@),
    {
        OpenAPI {
            openapi: String::from_str("3.0.3"),
            info: InfoSpec { title: project.title.clone(), version: project.version.clone() },
            paths: get_paths_from_project(project),
        }
    }
}

} // verus!
