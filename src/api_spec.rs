//! The summary of a project that API-spec generators read: for each
//! endpoint and verb, the resolved arguments, status codes, MIME types and
//! examples.
use vstd::prelude::*;
use crate::models::{index_of_key, lemma_index_of_key, ModelV, ProjectModel};
use crate::project::{
    arg_ref_views, catalog_of, config_view, resolve_args, resolve_statuses, status_views, views,
    APIConfiguration, APIDefinition, ArgSection, ArgV, ConfigV, DataType, DefV, EndpointV,
    Example, ExampleEntry, Project, ProjectArgument, ProjectV, StatusCode, StatusV,
};
use crate::tables::{get_mime_types, mime_types};

verus! {

/// Relies on `serde_json::Value`'s `Clone`: a copy of a JSON value.
#[verifier::external_body]
fn clone_value(v: &serde_json::Value) -> serde_json::Value {
    v.clone()
}

impl Example {
    pub fn duplicate(&self) -> (r: Example)
        ensures
            r.request is Some == self.request is Some,
            r.response is Some == self.response is Some,
    {
        Example {
            request: match &self.request {
                Some(v) => Some(clone_value(v)),
                None => None,
            },
            response: match &self.response {
                Some(v) => Some(clone_value(v)),
                None => None,
            },
        }
    }
}

/// An argument as the summary shows it.
pub struct Argument {
    pub name: String,
    pub description: String,
    pub data_type: DataType,
    pub required: bool,
    pub default_value: String,
}

pub struct ArgumentV {
    pub name: Seq<char>,
    pub description: Seq<char>,
    pub data_type: DataType,
    pub required: bool,
    pub default_value: Seq<char>,
}

impl View for Argument {
    type V = ArgumentV;

    open spec fn view(&self) -> ArgumentV {
        ArgumentV {
            name: self.name@,
            description: self.description@,
            data_type: self.data_type,
            required: self.required,
            default_value: self.default_value@,
        }
    }
}

pub open spec fn argument_of(a: ArgV) -> ArgumentV {
    ArgumentV {
        name: a.name,
        description: a.description,
        data_type: a.data_type,
        required: a.required,
        default_value: a.default_value,
    }
}

pub open spec fn arguments_of(args: Seq<ArgV>) -> Seq<ArgumentV> {
    args.map_values(|a: ArgV| argument_of(a))
}

pub open spec fn argument_views(v: Seq<Argument>) -> Seq<ArgumentV> {
    v.map_values(|a: Argument| a@)
}

/// One verb of an endpoint, resolved.
pub struct APIEndpoint {
    pub description: String,
    pub operation: String,
    pub use_cases: Vec<String>,
    pub params: Vec<Argument>,
    pub query_strings: Vec<Argument>,
    pub headers: Vec<Argument>,
    pub tags: Vec<String>,
    pub status_codes: Vec<StatusCode>,
    pub produces: Vec<String>,
    pub consumes: Vec<String>,
    pub example: Option<Vec<Example>>,
}

pub struct EndpointSpecV {
    pub description: Seq<char>,
    pub operation: Seq<char>,
    pub use_cases: Seq<Seq<char>>,
    pub params: Seq<ArgumentV>,
    pub query_strings: Seq<ArgumentV>,
    pub headers: Seq<ArgumentV>,
    pub tags: Seq<Seq<char>>,
    pub status_codes: Seq<StatusV>,
    pub produces: Seq<Seq<char>>,
    pub consumes: Seq<Seq<char>>,
    /// How many examples are attached, if any are.
    pub examples: Option<nat>,
}

impl View for APIEndpoint {
    type V = EndpointSpecV;

    open spec fn view(&self) -> EndpointSpecV {
        EndpointSpecV {
            description: self.description@,
            operation: self.operation@,
            use_cases: views(self.use_cases@),
            params: argument_views(self.params@),
            query_strings: argument_views(self.query_strings@),
            headers: argument_views(self.headers@),
            tags: views(self.tags@),
            status_codes: status_views(self.status_codes@),
            produces: views(self.produces@),
            consumes: views(self.consumes@),
            examples: match self.example {
                Some(e) => Some(e@.len()),
                None => None,
            },
        }
    }
}

pub open spec fn by_example_name() -> spec_fn(ExampleEntry) -> Seq<char> {
    |e: ExampleEntry| e.name@
}

/// How many examples are stored under `key`, if any entry has that name.
pub open spec fn examples_under(ex: Seq<ExampleEntry>, key: Seq<char>) -> Option<nat> {
    match index_of_key(ex, by_example_name(), key) {
        Some(i) => Some(ex[i].examples@.len()),
        None => None,
    }
}

/// The summary of one configuration.
pub open spec fn endpoint_spec_of(p: ProjectV, ex: Seq<ExampleEntry>, c: ConfigV) -> EndpointSpecV {
    EndpointSpecV {
        description: c.description,
        operation: c.operation,
        use_cases: c.use_cases,
        params: arguments_of(resolve_args(p.params, c.path_params)),
        query_strings: arguments_of(resolve_args(p.query, c.query_string)),
        headers: arguments_of(resolve_args(p.headers, c.headers)),
        tags: c.tags,
        status_codes: resolve_statuses(p.status_codes, c.status_codes),
        produces: mime_types(c.produces),
        consumes: mime_types(c.consumes),
        examples: examples_under(ex, c.example),
    }
}

pub open spec fn endpoint_view(e: Option<APIEndpoint>) -> Option<EndpointSpecV> {
    match e {
        Some(e) => Some(e@),
        None => None,
    }
}

pub open spec fn endpoint_spec_opt(p: ProjectV, ex: Seq<ExampleEntry>, c: Option<ConfigV>) -> Option<
    EndpointSpecV,
> {
    match c {
        Some(c) => Some(endpoint_spec_of(p, ex, c)),
        None => None,
    }
}

/// The verbs of one endpoint, resolved.
pub struct API {
    pub get: Option<APIEndpoint>,
    pub post: Option<APIEndpoint>,
    pub put: Option<APIEndpoint>,
    pub delete: Option<APIEndpoint>,
    pub patch: Option<APIEndpoint>,
}

pub struct ApiV {
    pub get: Option<EndpointSpecV>,
    pub post: Option<EndpointSpecV>,
    pub put: Option<EndpointSpecV>,
    pub delete: Option<EndpointSpecV>,
    pub patch: Option<EndpointSpecV>,
}

impl View for API {
    type V = ApiV;

    open spec fn view(&self) -> ApiV {
        ApiV {
            get: endpoint_view(self.get),
            post: endpoint_view(self.post),
            put: endpoint_view(self.put),
            delete: endpoint_view(self.delete),
            patch: endpoint_view(self.patch),
        }
    }
}

pub open spec fn api_of(p: ProjectV, ex: Seq<ExampleEntry>, d: DefV) -> ApiV {
    ApiV {
        get: endpoint_spec_opt(p, ex, d.get),
        post: endpoint_spec_opt(p, ex, d.post),
        put: endpoint_spec_opt(p, ex, d.put),
        delete: endpoint_spec_opt(p, ex, d.delete),
        patch: endpoint_spec_opt(p, ex, d.patch),
    }
}

/// The summary of a whole project.
pub struct APISpec {
    pub title: String,
    pub version: String,
    /// The endpoints, by path.
    pub spec: Vec<(String, API)>,
    pub models: Option<ProjectModel>,
}

pub struct SummaryV {
    pub title: Seq<char>,
    pub version: Seq<char>,
    pub spec: Seq<(Seq<char>, ApiV)>,
    pub models: Option<ModelV>,
}

pub open spec fn api_views(v: Seq<(String, API)>) -> Seq<(Seq<char>, ApiV)> {
    v.map_values(|a: (String, API)| (a.0@, a.1@))
}

pub open spec fn model_view(m: Option<ProjectModel>) -> Option<ModelV> {
    match m {
        Some(m) => Some(m@),
        None => None,
    }
}

impl View for APISpec {
    type V = SummaryV;

    open spec fn view(&self) -> SummaryV {
        SummaryV {
            title: self.title@,
            version: self.version@,
            spec: api_views(self.spec@),
            models: model_view(self.models),
        }
    }
}

/// The summary of a project with the given examples.
pub open spec fn summary_of(p: ProjectV, ex: Seq<ExampleEntry>, m: Option<ModelV>) -> SummaryV {
    SummaryV {
        title: p.title,
        version: p.version,
        spec: p.endpoints.map_values(|e: EndpointV| (e.path, api_of(p, ex, e.definition))),
        models: m,
    }
}

impl APIEndpoint {
    pub fn argument_from_project(argument: &ProjectArgument) -> (r: Argument)
        ensures
            r@ == argument_of(argument@),
    {
        Argument {
            name: argument.name.clone(),
            description: argument.description.clone(),
            required: argument.required,
            data_type: argument.data_type,
            default_value: argument.default_value.clone(),
        }
    }

    pub fn transform_arguments(arguments: Vec<&ProjectArgument>) -> (r: Vec<Argument>)
        ensures
            argument_views(r@) == arguments_of(arg_ref_views(arguments@)),
    {
        let mut args: Vec<Argument> = Vec::new();
        let mut i: usize = 0;
        while i < arguments.len()
            invariant
                i <= arguments@.len(),
                argument_views(args@) == arguments_of(arg_ref_views(arguments@)).subrange(0, i as int),
            decreases arguments@.len() - i,
        {
            let arg = APIEndpoint::argument_from_project(arguments[i]);
            let ghost before = args@;
            assert(arg_ref_views(arguments@)[i as int] == arguments@[i as int]@);
            args.push(arg);
            assert(argument_views(args@) =~= argument_views(before).push(arg@));
            assert(argument_views(args@) =~= arguments_of(arg_ref_views(arguments@)).subrange(
                0,
                i as int + 1,
            ));
            i = i + 1;
        }
        assert(arguments_of(arg_ref_views(arguments@)).subrange(0, i as int) =~= arguments_of(
            arg_ref_views(arguments@),
        ));
        args
    }

    /// The arguments of a catalog that the references resolve to.
    pub fn get_arguments(section: ArgSection, project: &Project, from_list: &[String]) -> (r: Vec<
        Argument,
    >)
        ensures
            argument_views(r@) == arguments_of(
                resolve_args(catalog_of(project@, section), views(from_list@)),
            ),
    {
        match section {
            ArgSection::Headers => APIEndpoint::transform_arguments(project.get_headers(from_list)),
            ArgSection::Query => APIEndpoint::transform_arguments(
                project.get_query_strings(from_list),
            ),
            ArgSection::Params => APIEndpoint::transform_arguments(
                project.get_path_params(from_list),
            ),
        }
    }

    /// The examples stored under `key`, if an entry has that name.
    fn find_examples(examples: &Vec<ExampleEntry>, key: &String) -> (r: Option<Vec<Example>>)
        ensures
            match r {
                Some(v) => examples_under(examples@, key@) == Some(v@.len()),
                None => examples_under(examples@, key@) is None,
            },
    {
        let mut i: usize = 0;
        while i < examples.len()
            invariant
                i <= examples@.len(),
                forall|j: int| 0 <= j < i ==> by_example_name()(#[trigger] examples@[j]) != key@,
            decreases examples@.len() - i,
        {
            if examples[i].name == *key {
                proof {
                    lemma_index_of_key(examples@, by_example_name(), key@);
                    if let Some(m) = index_of_key(examples@, by_example_name(), key@) {
                        if m < i {
                            assert(by_example_name()(examples@[m]) != key@);
                        }
                        if m > i {
                            assert(by_example_name()(examples@[i as int]) != key@);
                        }
                    }
                }
                let items = &examples[i].examples;
                let mut out: Vec<Example> = Vec::new();
                let mut k: usize = 0;
                while k < items.len()
                    invariant
                        k <= items@.len(),
                        out@.len() == k,
                    decreases items@.len() - k,
                {
                    out.push(items[k].duplicate());
                    k = k + 1;
                }
                return Some(out);
            }
            i = i + 1;
        }
        proof {
            lemma_index_of_key(examples@, by_example_name(), key@);
        }
        None
    }

    /// The summary of a configuration, if there is one.
    pub fn new_from_api_configuration(configuration: &Option<APIConfiguration>, project: &Project) -> (r:
        Option<APIEndpoint>)
        ensures
            endpoint_view(r) == endpoint_spec_opt(
                project@,
                project.examples@,
                config_view(*configuration),
            ),
    {
        match configuration {
            Some(config) => {
                let endpoint = APIEndpoint {
                    description: config.description.clone(),
                    operation: config.operation.clone(),
                    use_cases: crate::models::clone_strings(&config.use_cases),
                    params: APIEndpoint::get_arguments(
                        ArgSection::Params,
                        project,
                        config.path_params.as_slice(),
                    ),
                    query_strings: APIEndpoint::get_arguments(
                        ArgSection::Query,
                        project,
                        config.query_string.as_slice(),
                    ),
                    headers: APIEndpoint::get_arguments(
                        ArgSection::Headers,
                        project,
                        config.headers.as_slice(),
                    ),
                    tags: crate::models::clone_strings(&config.tags),
                    status_codes: project.get_status_codes(config.status_codes.as_slice()),
                    produces: get_mime_types(config.produces.as_slice()),
                    consumes: get_mime_types(config.consumes.as_slice()),
                    example: APIEndpoint::find_examples(&project.examples, &config.example),
                };
                Some(endpoint)
            },
            None => None,
        }
    }
}

impl API {
    pub fn new_from_api_definition(def: &APIDefinition, project: &Project) -> (r: API)
        ensures
            r@ == api_of(project@, project.examples@, def@),
    {
        API {
            get: APIEndpoint::new_from_api_configuration(&def.get, project),
            post: APIEndpoint::new_from_api_configuration(&def.post, project),
            put: APIEndpoint::new_from_api_configuration(&def.put, project),
            delete: APIEndpoint::new_from_api_configuration(&def.delete, project),
            patch: APIEndpoint::new_from_api_configuration(&def.patch, project),
        }
    }

    /// The summary of a project: its header, its endpoints resolved, and a
    /// copy of its model.
    pub fn new_project_spec(project: &Project) -> (r: APISpec)
        ensures
            r@ == summary_of(project@, project.examples@, model_view(project.models)),
    {
        let ghost target = summary_of(project@, project.examples@, model_view(project.models));
        let mut api: Vec<(String, API)> = Vec::new();
        let mut i: usize = 0;
        while i < project.endpoints.len()
            invariant
                i <= project.endpoints@.len(),
                target == summary_of(project@, project.examples@, model_view(project.models)),
                api_views(api@) == target.spec.subrange(0, i as int),
            decreases project.endpoints@.len() - i,
        {
            let e = &project.endpoints[i];
            assert(project@.endpoints[i as int] == e@);
            let entry = (e.path.clone(), API::new_from_api_definition(&e.definition, project));
            let ghost before = api@;
            assert((entry.0@, entry.1@) == target.spec[i as int]);
            api.push(entry);
            assert(api_views(api@) =~= api_views(before).push((entry.0@, entry.1@)));
            assert(api_views(api@) =~= target.spec.subrange(0, i as int + 1));
            i = i + 1;
        }
        assert(target.spec.subrange(0, i as int) =~= target.spec);
        let models = match &project.models {
            Some(m) => Some(m.duplicate()),
            None => None,
        };
        APISpec {
            title: project.title.clone(),
            version: project.version.clone(),
            spec: api,
            models,
        }
    }
}

} // verus!
