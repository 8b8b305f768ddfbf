//! Builds a project from an API document, line by line in document order.
//! References to groups are expanded against the groups declared above the
//! reference; a group that is not declared yet expands to nothing.
use vstd::prelude::*;
use crate::api_grammar::{
    api_item, api_item_of, classify, classify_line, group_of, parse_arg, parse_group_line,
    parse_status, status_code_of, argument_of, ApiItem, ApiItemV, ApiKeyword, ApiLine, LineV,
};
use crate::project::{
    arg_views, empty_config, empty_definition, empty_project, endpoint_views, group_views,
    lemma_views_push, spread, spread_in, status_views, views, with_verb, APIConfiguration,
    APIDefinition, ArgSection, ArgumentGroup, ConfigV, DefV, Endpoint, EndpointV, ExampleEntry,
    GroupSection, GroupV, HttpMethod, Project, ProjectV,
};
use crate::models::ProjectModel;
use crate::text::{
    chars_in, chars_of, lemma_deep_index, list_items, list_items_of, normalize,
    normalized, split, split_on, string_of, trim, trimmed,
};

verus! {

/// The section that indented lines currently belong to.
#[derive(Debug, Clone, Copy, PartialEq, Eq, Structural)]
pub enum Section {
    Start,
    Catalog(ArgSection),
    StatusCodes,
    Groups(GroupSection),
    Apis,
}

/// The state of a build: the project so far, the open section, and the
/// endpoint and verb whose lines are being read.
pub struct BuildV {
    pub project: ProjectV,
    pub section: Section,
    pub path: Option<Seq<char>>,
    pub def: DefV,
    pub verb: Option<HttpMethod>,
    pub config: ConfigV,
}

pub open spec fn initial_build() -> BuildV {
    BuildV {
        project: empty_project(),
        section: Section::Start,
        path: None,
        def: empty_definition(),
        verb: None,
        config: empty_config(Seq::empty()),
    }
}

/// Stores the configuration being read under its verb.
pub open spec fn close_verb(b: BuildV) -> BuildV {
    match b.verb {
        Some(v) => BuildV {
            def: with_verb(b.def, v, b.config),
            verb: None,
            config: empty_config(Seq::empty()),
            ..b
        },
        None => b,
    }
}

/// Index of the endpoint with the given path.
pub open spec fn lookup_path(eps: Seq<EndpointV>, path: Seq<char>) -> Option<int>
    decreases eps.len(),
{
    if eps.len() == 0 {
        None
    } else {
        match lookup_path(eps.drop_last(), path) {
            Some(i) => Some(i),
            None => if eps.last().path == path {
                Some(eps.len() - 1)
            } else {
                None
            },
        }
    }
}

/// Endpoints with `e` stored under its path, replacing an earlier one.
pub open spec fn insert_endpoint(eps: Seq<EndpointV>, e: EndpointV) -> Seq<EndpointV> {
    match lookup_path(eps, e.path) {
        Some(i) => eps.update(i, e),
        None => eps.push(e),
    }
}

/// Stores the endpoint being read in the project.
pub open spec fn close_path(b: BuildV) -> BuildV {
    let b = close_verb(b);
    match b.path {
        Some(p) => BuildV {
            project: ProjectV {
                endpoints: insert_endpoint(b.project.endpoints, EndpointV { path: p, definition: b.def }),
                ..b.project
            },
            path: None,
            def: empty_definition(),
            ..b
        },
        None => b,
    }
}

/// Each item normalized.
pub open spec fn normalize_all(items: Seq<Seq<char>>) -> Seq<Seq<char>> {
    items.map_values(|s: Seq<char>| normalize(s))
}

/// The names that list items stand for: a plain item stands for itself,
/// normalized; `@id` stands for the members of the groups called `id`.
/// With `keep_empty` false, plain items that normalize to nothing are left out.
pub open spec fn expand(groups: Seq<GroupV>, items: Seq<Seq<char>>, keep_empty: bool) -> Seq<Seq<char>>
    decreases items.len(),
{
    if items.len() == 0 {
        Seq::empty()
    } else {
        let rest = expand(groups, items.drop_last(), keep_empty);
        let it = items.last();
        if it.len() > 0 && it[0] == '@' {
            rest + normalize_all(spread(groups, trim(it.drop_first())))
        } else if !keep_empty && normalize(it).len() == 0 {
            rest
        } else {
            rest.push(normalize(it))
        }
    }
}

/// The groups that references of an option list resolve against.
pub open spec fn keyword_groups(p: ProjectV, k: ApiKeyword) -> Seq<GroupV> {
    match k {
        ApiKeyword::Params => p.params_groups,
        ApiKeyword::Query => p.query_groups,
        ApiKeyword::Headers => p.headers_groups,
        ApiKeyword::StatusCodes => p.status_codes_groups,
        _ => Seq::empty(),
    }
}

/// The configuration after an option line `k: rest`.
pub open spec fn apply_option(p: ProjectV, c: ConfigV, k: ApiKeyword, rest: Seq<char>) -> ConfigV {
    let items = list_items(rest);
    let names = expand(keyword_groups(p, k), items, k != ApiKeyword::StatusCodes);
    match k {
        ApiKeyword::Operation => if normalize(rest).len() > 0 {
            ConfigV { operation: normalize(rest), ..c }
        } else {
            c
        },
        ApiKeyword::Example => ConfigV { example: normalize(rest), ..c },
        ApiKeyword::UseCases => ConfigV { use_cases: c.use_cases + normalize_all(items), ..c },
        ApiKeyword::Params => ConfigV { path_params: c.path_params + names, ..c },
        ApiKeyword::Query => ConfigV { query_string: c.query_string + names, ..c },
        ApiKeyword::Headers => ConfigV { headers: c.headers + names, ..c },
        ApiKeyword::Tags => ConfigV { tags: c.tags + names, ..c },
        ApiKeyword::Produces => ConfigV { produces: c.produces + names, ..c },
        ApiKeyword::Consumes => ConfigV { consumes: c.consumes + names, ..c },
        ApiKeyword::StatusCodes => ConfigV { status_codes: c.status_codes + names, ..c },
    }
}

/// The state after an item line of the `apis:` section.
pub open spec fn api_step(b: BuildV, item: ApiItemV) -> Option<BuildV> {
    match item {
        ApiItemV::Path(p) => {
            let b = close_path(b);
            Some(BuildV { path: Some(p), def: empty_definition(), ..b })
        },
        ApiItemV::Verb(v, d) => if b.path is None {
            None
        } else {
            let b = close_verb(b);
            Some(BuildV { verb: Some(v), config: empty_config(d), ..b })
        },
        ApiItemV::Opt(k, rest) => if b.verb is None {
            None
        } else {
            Some(BuildV { config: apply_option(b.project, b.config, k, rest), ..b })
        },
        ApiItemV::Bad => None,
    }
}

/// The project with a catalog replaced.
pub open spec fn with_catalog(p: ProjectV, k: ArgSection, cat: Seq<crate::project::ArgV>) -> ProjectV {
    match k {
        ArgSection::Headers => ProjectV { headers: cat, ..p },
        ArgSection::Params => ProjectV { params: cat, ..p },
        ArgSection::Query => ProjectV { query: cat, ..p },
    }
}

/// The project with the groups of a section replaced.
pub open spec fn with_groups(p: ProjectV, k: GroupSection, gs: Seq<GroupV>) -> ProjectV {
    match k {
        GroupSection::Headers => ProjectV { headers_groups: gs, ..p },
        GroupSection::Params => ProjectV { params_groups: gs, ..p },
        GroupSection::Query => ProjectV { query_groups: gs, ..p },
        GroupSection::StatusCodes => ProjectV { status_codes_groups: gs, ..p },
    }
}

/// Opens a new section after storing the endpoint being read.
pub open spec fn open_section(b: BuildV, s: Section) -> BuildV {
    BuildV { section: s, ..close_path(b) }
}

/// The state after one line, or `None` where the line breaks the grammar.
pub open spec fn step(b: BuildV, l: LineV) -> Option<BuildV> {
    match l {
        LineV::Skip => Some(b),
        LineV::Bad => None,
        LineV::Title(t) => {
            let b = open_section(b, Section::Start);
            Some(BuildV { project: ProjectV { title: t, ..b.project }, ..b })
        },
        LineV::Version(t) => {
            let b = open_section(b, Section::Start);
            Some(BuildV { project: ProjectV { version: t, ..b.project }, ..b })
        },
        LineV::Catalog(k) => {
            let b = open_section(b, Section::Catalog(k));
            Some(BuildV { project: with_catalog(b.project, k, Seq::empty()), ..b })
        },
        LineV::StatusCodes => Some(open_section(b, Section::StatusCodes)),
        LineV::Groups(k) => {
            let b = open_section(b, Section::Groups(k));
            Some(BuildV { project: with_groups(b.project, k, Seq::empty()), ..b })
        },
        LineV::Apis => Some(open_section(b, Section::Apis)),
        LineV::Item(t) => match b.section {
            Section::Start => None,
            Section::Catalog(k) => match parse_arg(t) {
                Some(a) => Some(
                    BuildV {
                        project: with_catalog(
                            b.project,
                            k,
                            crate::project::catalog_of(b.project, k).push(a),
                        ),
                        ..b
                    },
                ),
                None => None,
            },
            Section::StatusCodes => match parse_status(t) {
                Some(s) => Some(
                    BuildV {
                        project: ProjectV {
                            status_codes: b.project.status_codes.push(s),
                            ..b.project
                        },
                        ..b
                    },
                ),
                None => None,
            },
            Section::Groups(k) => match parse_group_line(t) {
                Some(g) => Some(
                    BuildV {
                        project: with_groups(
                            b.project,
                            k,
                            crate::project::groups_of(b.project, k).push(g),
                        ),
                        ..b
                    },
                ),
                None => None,
            },
            Section::Apis => api_step(b, api_item(t)),
        },
    }
}

/// The state after the given lines, or the index of the first line that
/// breaks the grammar.
pub open spec fn run(lines: Seq<Seq<char>>) -> Result<BuildV, int>
    decreases lines.len(),
{
    if lines.len() == 0 {
        Ok(initial_build())
    } else {
        match run(lines.drop_last()) {
            Err(e) => Err(e),
            Ok(b) => match step(b, classify(lines.last())) {
                Some(b2) => Ok(b2),
                None => Err(lines.len() - 1),
            },
        }
    }
}

/// The project that an API document describes, or the index of the first
/// line that breaks the grammar.
pub open spec fn api_document(text: Seq<char>) -> Result<ProjectV, int> {
    match run(split(text, '\n')) {
        Err(e) => Err(e),
        Ok(b) => Ok(close_path(b).project),
    }
}

} // verus!

verus! {

/// A grammar violation: the 1-based number of the first offending line.
#[derive(Debug, Clone, Copy, PartialEq, Eq, Structural)]
pub struct SyntaxError {
    pub line: usize,
}

pub proof fn lemma_lookup_path(eps: Seq<EndpointV>, path: Seq<char>)
    ensures
        match lookup_path(eps, path) {
            Some(i) => 0 <= i < eps.len() && eps[i].path == path && forall|j: int|
                0 <= j < i ==> (#[trigger] eps[j]).path != path,
            None => forall|j: int| 0 <= j < eps.len() ==> (#[trigger] eps[j]).path != path,
        },
    decreases eps.len(),
{
    if eps.len() > 0 {
        lemma_lookup_path(eps.drop_last(), path);
        assert(forall|j: int| 0 <= j < eps.len() - 1 ==> eps.drop_last()[j] == eps[j]);
    }
}

/// Stores `e` under its path, replacing an endpoint with the same path.
fn insert_endpoint_into(eps: &mut Vec<Endpoint>, e: Endpoint)
    ensures
        endpoint_views(final(eps)@) == insert_endpoint(endpoint_views(old(eps)@), e@),
{
    let ghost ev = endpoint_views(old(eps)@);
    proof {
        lemma_lookup_path(ev, e.path@);
    }
    let mut i: usize = 0;
    while i < eps.len()
        invariant
            i <= eps@.len(),
            eps@ == old(eps)@,
            ev == endpoint_views(eps@),
            forall|j: int| 0 <= j < i ==> (#[trigger] ev[j]).path != e.path@,
        decreases eps@.len() - i,
    {
        assert(ev[i as int] == eps@[i as int]@);
        if eps[i].path == e.path {
            proof {
                lemma_lookup_path(ev, e.path@);
                if let Some(k) = lookup_path(ev, e.path@) {
                    if k < i {
                        assert(ev[k].path != e.path@);
                    }
                    if k > i {
                        assert(ev[i as int].path != e.path@);
                    }
                }
            }
            let ghost ee = e@;
            eps.set(i, e);
            assert(endpoint_views(eps@) =~= ev.update(i as int, ee));
            return;
        }
        i = i + 1;
    }
    proof {
        lemma_lookup_path(ev, e.path@);
    }
    let ghost ee = e@;
    eps.push(e);
    assert(endpoint_views(eps@) =~= ev.push(ee));
}

/// Moves the strings of `src` to the end of `dst`.
fn append_strings(dst: &mut Vec<String>, src: Vec<String>)
    ensures
        views(final(dst)@) == views(old(dst)@) + views(src@),
{
    let mut src = src;
    let ghost s0 = src@;
    dst.append(&mut src);
    assert(views(dst@) =~= views(old(dst)@) + views(s0));
}

/// Each string normalized.
fn normalize_strings(v: &Vec<String>) -> (r: Vec<String>)
    ensures
        views(r@) == normalize_all(views(v@)),
{
    let mut out: Vec<String> = Vec::new();
    let mut i: usize = 0;
    while i < v.len()
        invariant
            i <= v@.len(),
            views(out@) == normalize_all(views(v@)).subrange(0, i as int),
        decreases v@.len() - i,
    {
        let n = string_of(&normalized(&chars_of(v[i].as_str())));
        let ghost before = out@;
        out.push(n);
        proof {
            lemma_views_push(before, n);
        }
        assert(views(out@) =~= normalize_all(views(v@)).subrange(0, i as int + 1));
        i = i + 1;
    }
    assert(normalize_all(views(v@)).subrange(0, i as int) =~= normalize_all(views(v@)));
    out
}

/// Each character sequence normalized.
fn normalize_items(v: &Vec<Vec<char>>) -> (r: Vec<String>)
    ensures
        views(r@) == normalize_all(v.deep_view()),
{
    let mut out: Vec<String> = Vec::new();
    let mut i: usize = 0;
    while i < v.len()
        invariant
            i <= v@.len(),
            views(out@) == normalize_all(v.deep_view()).subrange(0, i as int),
        decreases v@.len() - i,
    {
        proof {
            lemma_deep_index(*v, i as int);
        }
        let n = string_of(&normalized(&v[i]));
        let ghost before = out@;
        out.push(n);
        proof {
            lemma_views_push(before, n);
        }
        assert(views(out@) =~= normalize_all(v.deep_view()).subrange(0, i as int + 1));
        i = i + 1;
    }
    assert(normalize_all(v.deep_view()).subrange(0, i as int) =~= normalize_all(v.deep_view()));
    out
}

/// The names that the items stand for, with group references expanded
/// against `groups`.
fn expand_items(groups: &Vec<ArgumentGroup>, items: &Vec<Vec<char>>, keep_empty: bool) -> (r: Vec<
    String,
>)
    ensures
        views(r@) == expand(group_views(groups@), items.deep_view(), keep_empty),
{
    let ghost gv = group_views(groups@);
    let ghost iv = items.deep_view();
    let mut out: Vec<String> = Vec::new();
    let mut i: usize = 0;
    assert(iv.subrange(0, 0) =~= Seq::<Seq<char>>::empty());
    assert(views(out@) =~= Seq::<Seq<char>>::empty());
    while i < items.len()
        invariant
            i <= items@.len(),
            iv == items.deep_view(),
            gv == group_views(groups@),
            views(out@) == expand(gv, iv.subrange(0, i as int), keep_empty),
        decreases items@.len() - i,
    {
        proof {
            lemma_deep_index(*items, i as int);
        }
        let ghost pre = iv.subrange(0, i as int + 1);
        assert(pre.drop_last() =~= iv.subrange(0, i as int));
        let it = &items[i];
        if it.len() > 0 && it[0] == '@' {
            let rest = chars_in(it, 1, it.len());
            assert(rest@ =~= it@.drop_first());
            let id = trimmed(&rest);
            let members = spread_in(groups, &id);
            let names = normalize_strings(&members);
            append_strings(&mut out, names);
        } else {
            let n = normalized(it);
            if keep_empty || n.len() > 0 {
                let s = string_of(&n);
                let ghost before = out@;
                out.push(s);
                proof {
                    lemma_views_push(before, s);
                }
            }
        }
        i = i + 1;
    }
    assert(iv.subrange(0, i as int) =~= iv);
    out
}

pub open spec fn opt_string_view(o: Option<String>) -> Option<Seq<char>> {
    match o {
        Some(s) => Some(s@),
        None => None,
    }
}

/// The state of a build of a project from an API document.
pub struct ApiBuilder {
    pub project: Project,
    pub section: Section,
    pub path: Option<String>,
    pub def: APIDefinition,
    pub verb: Option<HttpMethod>,
    pub config: APIConfiguration,
}

impl View for ApiBuilder {
    type V = BuildV;

    open spec fn view(&self) -> BuildV {
        BuildV {
            project: self.project@,
            section: self.section,
            path: opt_string_view(self.path),
            def: self.def@,
            verb: self.verb,
            config: self.config@,
        }
    }
}

impl ApiBuilder {
    pub fn new(examples: Vec<ExampleEntry>, models: Option<ProjectModel>) -> (r: ApiBuilder)
        ensures
            r@ == initial_build(),
            r.project.examples == examples,
            r.project.models == models,
    {
        ApiBuilder {
            project: Project::new(examples, models),
            section: Section::Start,
            path: None,
            def: APIDefinition::new(),
            verb: None,
            config: APIConfiguration::new(String::new()),
        }
    }

    /// Stores the configuration being read under its verb.
    pub fn close_verb(&mut self)
        ensures
            final(self)@ == close_verb(old(self)@),
            final(self).project.examples == old(self).project.examples,
            final(self).project.models == old(self).project.models,
    {
        if let Some(v) = self.verb {
            let mut c = APIConfiguration::new(String::new());
            core::mem::swap(&mut c, &mut self.config);
            self.def.set(v, c);
            self.verb = None;
        }
    }

    /// Stores the endpoint being read in the project.
    pub fn close_path(&mut self)
        ensures
            final(self)@ == close_path(old(self)@),
            final(self).project.examples == old(self).project.examples,
            final(self).project.models == old(self).project.models,
    {
        self.close_verb();
        if self.path.is_some() {
            let p = self.path.take().unwrap();
            let mut d = APIDefinition::new();
            core::mem::swap(&mut d, &mut self.def);
            insert_endpoint_into(&mut self.project.endpoints, Endpoint { path: p, definition: d });
        }
    }

    pub fn open_section(&mut self, s: Section)
        ensures
            final(self)@ == open_section(old(self)@, s),
            final(self).project.examples == old(self).project.examples,
            final(self).project.models == old(self).project.models,
    {
        self.close_path();
        self.section = s;
    }

    /// Applies an option line of the verb being read.
    pub fn apply_option(&mut self, k: ApiKeyword, rest: &[char])
        ensures
            final(self)@ == (BuildV {
                config: apply_option(old(self)@.project, old(self)@.config, k, rest@),
                ..old(self)@
            }),
            final(self).project.examples == old(self).project.examples,
            final(self).project.models == old(self).project.models,
    {
        let items = list_items_of(rest);
        let none: Vec<ArgumentGroup> = Vec::new();
        assert(group_views(none@) =~= Seq::<GroupV>::empty());
        match k {
            ApiKeyword::Operation => {
                let n = normalized(rest);
                if n.len() > 0 {
                    self.config.operation = string_of(&n);
                }
            },
            ApiKeyword::Example => {
                self.config.example = string_of(&normalized(rest));
            },
            ApiKeyword::UseCases => {
                let names = normalize_items(&items);
                append_strings(&mut self.config.use_cases, names);
            },
            ApiKeyword::Params => {
                let names = expand_items(&self.project.params_groups, &items, true);
                append_strings(&mut self.config.path_params, names);
            },
            ApiKeyword::Query => {
                let names = expand_items(&self.project.query_groups, &items, true);
                append_strings(&mut self.config.query_string, names);
            },
            ApiKeyword::Headers => {
                let names = expand_items(&self.project.headers_groups, &items, true);
                append_strings(&mut self.config.headers, names);
            },
            ApiKeyword::Tags => {
                let names = expand_items(&none, &items, true);
                append_strings(&mut self.config.tags, names);
            },
            ApiKeyword::Produces => {
                let names = expand_items(&none, &items, true);
                append_strings(&mut self.config.produces, names);
            },
            ApiKeyword::Consumes => {
                let names = expand_items(&none, &items, true);
                append_strings(&mut self.config.consumes, names);
            },
            ApiKeyword::StatusCodes => {
                let names = expand_items(&self.project.status_codes_groups, &items, false);
                append_strings(&mut self.config.status_codes, names);
            },
        }
    }

    /// Applies an item line of the `apis:` section; false where it breaks
    /// the grammar.
    pub fn api_step(&mut self, item: ApiItem) -> (ok: bool)
        ensures
            match api_step(old(self)@, item@) {
                Some(b) => ok && final(self)@ == b,
                None => !ok,
            },
            final(self).project.examples == old(self).project.examples,
            final(self).project.models == old(self).project.models,
    {
        match item {
            ApiItem::Path(p) => {
                self.close_path();
                self.path = Some(string_of(&p));
                self.def = APIDefinition::new();
                true
            },
            ApiItem::Verb(v, d) => {
                if self.path.is_none() {
                    return false;
                }
                self.close_verb();
                self.verb = Some(v);
                self.config = APIConfiguration::new(string_of(&d));
                true
            },
            ApiItem::Opt(k, rest) => {
                if self.verb.is_none() {
                    return false;
                }
                self.apply_option(k, &rest);
                true
            },
            ApiItem::Bad => false,
        }
    }

    /// Applies one line; false where it breaks the grammar.
    pub fn step(&mut self, l: ApiLine) -> (ok: bool)
        ensures
            match step(old(self)@, l@) {
                Some(b) => ok && final(self)@ == b,
                None => !ok,
            },
            final(self).project.examples == old(self).project.examples,
            final(self).project.models == old(self).project.models,
    {
        match l {
            ApiLine::Skip => true,
            ApiLine::Bad => false,
            ApiLine::Title(t) => {
                self.open_section(Section::Start);
                self.project.title = string_of(&t);
                true
            },
            ApiLine::Version(t) => {
                self.open_section(Section::Start);
                self.project.version = string_of(&t);
                true
            },
            ApiLine::Catalog(k) => {
                self.open_section(Section::Catalog(k));
                match k {
                    ArgSection::Headers => self.project.headers = Vec::new(),
                    ArgSection::Params => self.project.params = Vec::new(),
                    ArgSection::Query => self.project.query = Vec::new(),
                }
                assert(arg_views(Seq::empty()) =~= Seq::<crate::project::ArgV>::empty());
                true
            },
            ApiLine::StatusCodes => {
                self.open_section(Section::StatusCodes);
                true
            },
            ApiLine::Groups(k) => {
                self.open_section(Section::Groups(k));
                match k {
                    GroupSection::Headers => self.project.headers_groups = Vec::new(),
                    GroupSection::Params => self.project.params_groups = Vec::new(),
                    GroupSection::Query => self.project.query_groups = Vec::new(),
                    GroupSection::StatusCodes => self.project.status_codes_groups = Vec::new(),
                }
                assert(group_views(Seq::empty()) =~= Seq::<GroupV>::empty());
                true
            },
            ApiLine::Apis => {
                self.open_section(Section::Apis);
                true
            },
            ApiLine::Item(t) => match self.section {
                Section::Start => false,
                Section::Catalog(k) => match argument_of(&t) {
                    Some(a) => {
                        let ghost av = a@;
                        match k {
                            ArgSection::Headers => {
                                let ghost before = self.project.headers@;
                                self.project.headers.push(a);
                                assert(arg_views(self.project.headers@) =~= arg_views(before).push(av));
                            },
                            ArgSection::Params => {
                                let ghost before = self.project.params@;
                                self.project.params.push(a);
                                assert(arg_views(self.project.params@) =~= arg_views(before).push(av));
                            },
                            ArgSection::Query => {
                                let ghost before = self.project.query@;
                                self.project.query.push(a);
                                assert(arg_views(self.project.query@) =~= arg_views(before).push(av));
                            },
                        }
                        true
                    },
                    None => false,
                },
                Section::StatusCodes => match status_code_of(&t) {
                    Some(s) => {
                        let ghost sv = s@;
                        let ghost before = self.project.status_codes@;
                        self.project.status_codes.push(s);
                        assert(status_views(self.project.status_codes@) =~= status_views(before).push(sv));
                        true
                    },
                    None => false,
                },
                Section::Groups(k) => match group_of(&t) {
                    Some(g) => {
                        let ghost gv = g@;
                        match k {
                            GroupSection::Headers => {
                                let ghost before = self.project.headers_groups@;
                                self.project.headers_groups.push(g);
                                assert(group_views(self.project.headers_groups@) =~= group_views(before).push(gv));
                            },
                            GroupSection::Params => {
                                let ghost before = self.project.params_groups@;
                                self.project.params_groups.push(g);
                                assert(group_views(self.project.params_groups@) =~= group_views(before).push(gv));
                            },
                            GroupSection::Query => {
                                let ghost before = self.project.query_groups@;
                                self.project.query_groups.push(g);
                                assert(group_views(self.project.query_groups@) =~= group_views(before).push(gv));
                            },
                            GroupSection::StatusCodes => {
                                let ghost before = self.project.status_codes_groups@;
                                self.project.status_codes_groups.push(g);
                                assert(group_views(self.project.status_codes_groups@) =~= group_views(before).push(gv));
                            },
                        }
                        true
                    },
                    None => false,
                },
                Section::Apis => self.api_step(api_item_of(&t)),
            },
        }
    }
}

/// Once a prefix of the lines breaks the grammar, so do all the lines, at
/// the same place.
pub proof fn lemma_run_err_extends(lines: Seq<Seq<char>>, k: int)
    requires
        0 <= k <= lines.len(),
        run(lines.subrange(0, k)) is Err,
    ensures
        run(lines) == run(lines.subrange(0, k)),
    decreases lines.len() - k,
{
    if k < lines.len() {
        let p = lines.subrange(0, k + 1);
        assert(p.drop_last() =~= lines.subrange(0, k));
        lemma_run_err_extends(lines, k + 1);
    } else {
        assert(lines.subrange(0, k) =~= lines);
    }
}

impl Project {
    /// Builds the project that an API document describes, carrying the given
    /// examples and model. A document that breaks the grammar gives the number
    /// of its first offending line, and no project.
    pub fn new_from_source(
        text: &str,
        examples: Vec<ExampleEntry>,
        models: Option<ProjectModel>,
    ) -> (r: Result<Project, SyntaxError>)
        ensures
            match r {
                Ok(p) => api_document(text@) == Ok::<ProjectV, int>(p@) && p.examples == examples
                    && p.models == models,
                Err(e) => e.line >= 1 && api_document(text@) == Err::<ProjectV, int>(e.line - 1),
            },
    {
        let chars = chars_of(text);
        let lines = split_on(&chars, '\n');
        let ghost lv = lines.deep_view();
        let mut b = ApiBuilder::new(examples, models);
        let mut i: usize = 0;
        assert(lv.subrange(0, 0) =~= Seq::<Seq<char>>::empty());
        while i < lines.len()
            invariant
                i <= lines@.len(),
                lv == lines.deep_view(),
                lv == split(text@, '\n'),
                run(lv.subrange(0, i as int)) == Ok::<BuildV, int>(b@),
                b.project.examples == examples,
                b.project.models == models,
            decreases lines@.len() - i,
        {
            proof {
                lemma_deep_index(lines, i as int);
            }
            let ghost pre = lv.subrange(0, i as int + 1);
            assert(pre.drop_last() =~= lv.subrange(0, i as int));
            let l = classify_line(&lines[i]);
            if !b.step(l) {
                proof {
                    lemma_run_err_extends(lv, i as int + 1);
                }
                return Err(SyntaxError { line: i + 1 });
            }
            i = i + 1;
        }
        assert(lv.subrange(0, i as int) =~= lv);
        b.close_path();
        Ok(b.project)
    }
}

} // verus!
