//! The grammar of data-model documents and the build of a model from one.
//!
//! A line in the first column declares an enum (`enum Mood:`) or an entity
//! (`type Person:`). The indented lines below an enum hold its values,
//! separated by commas; those below an entity each declare a field:
//! `identifier type[[]] [marker ...] [key:value ...] "description"`.
//! Blank lines and lines whose first non-blank character is `#` are skipped.
use vstd::prelude::*;
use crate::builder::SyntaxError;
use crate::models::{
    by_entity_name, by_enum_name, by_identifier, by_tag_key, field_views, index_of_key,
    lemma_index_of_key, put_by_key, put_entity, put_enum, put_field,
    put_tag, tag_value, tag_views, Entity, EntityV, Enum, EnumV, Field, FieldV, ModelV,
    ProjectModel,
};
use crate::project::{lemma_views_push, views};
use crate::text::{
    chars_eq, chars_in, chars_of, find, find_char, is_blank, is_blank_char, is_quoted,
    lemma_deep_index, lemma_find_char, list_items, list_items_of, split, split_on, string_of,
    trim, trimmed, words, words_of,
};

verus! {

/// What a line of a model document is.
pub enum ModelLineV {
    Skip,
    EnumDecl(Seq<char>),
    EntityDecl(Seq<char>),
    Item(Seq<char>),
    Bad,
}

/// The meaning of one line of a model document.
pub open spec fn classify_model(line: Seq<char>) -> ModelLineV {
    let t = trim(line);
    if t.len() == 0 || t[0] == '#' {
        ModelLineV::Skip
    } else if is_blank(line[0]) {
        ModelLineV::Item(t)
    } else if t.last() != ':' {
        ModelLineV::Bad
    } else {
        let ws = words(t.subrange(0, t.len() - 1));
        if ws.len() != 2 {
            ModelLineV::Bad
        } else if ws[0] == "enum"@ {
            ModelLineV::EnumDecl(ws[1])
        } else if ws[0] == "type"@ {
            ModelLineV::EntityDecl(ws[1])
        } else {
            ModelLineV::Bad
        }
    }
}

/// A type word that ends in `[]`.
pub open spec fn ends_in_brackets(w: Seq<char>) -> bool {
    w.len() >= 2 && w[w.len() - 2] == '[' && w.last() == ']'
}

/// The option words without a `:`, in order.
pub open spec fn field_markers(ws: Seq<Seq<char>>) -> Seq<Seq<char>>
    decreases ws.len(),
{
    if ws.len() == 0 {
        Seq::empty()
    } else {
        let rest = field_markers(ws.drop_last());
        if find_char(ws.last(), ':') is None {
            rest.push(ws.last())
        } else {
            rest
        }
    }
}

/// The option words `key:value`, as a mapping where a later key wins.
pub open spec fn field_tags(ws: Seq<Seq<char>>) -> Seq<(Seq<char>, Seq<char>)>
    decreases ws.len(),
{
    if ws.len() == 0 {
        Seq::empty()
    } else {
        let rest = field_tags(ws.drop_last());
        let w = ws.last();
        match find_char(w, ':') {
            Some(c) => put_by_key(
                rest,
                by_tag_key(),
                (w.subrange(0, c), w.subrange(c + 1, w.len() as int)),
            ),
            None => rest,
        }
    }
}

/// A field declaration.
pub open spec fn parse_field(t: Seq<char>) -> Option<FieldV> {
    match find_char(t, '"') {
        None => None,
        Some(q) => {
            let right = trim(t.subrange(q, t.len() as int));
            let ws = words(t.subrange(0, q));
            if !is_quoted(right) || ws.len() < 2 {
                None
            } else {
                let ty = ws[1];
                let is_array = ends_in_brackets(ty);
                let opts = ws.subrange(2, ws.len() as int);
                let tags = field_tags(opts);
                Some(
                    FieldV {
                        identifier: ws[0],
                        data_type: if is_array {
                            ty.subrange(0, ty.len() - 2)
                        } else {
                            ty
                        },
                        description: right.subrange(1, right.len() - 1),
                        is_array,
                        example: tag_value(tags, "example"@),
                        markers: field_markers(opts),
                        tags,
                        allowed_values: Seq::empty(),
                    },
                )
            }
        },
    }
}

/// The declaration being read.
pub enum DeclV {
    Nothing,
    Enum(EnumV),
    Entity(EntityV),
}

pub struct ModelBuildV {
    pub model: ModelV,
    pub current: DeclV,
}

/// Stores the declaration being read in the model, replacing one of the
/// same kind and name.
pub open spec fn close_decl(b: ModelBuildV) -> ModelBuildV {
    match b.current {
        DeclV::Nothing => b,
        DeclV::Enum(e) => ModelBuildV {
            model: ModelV { enums: put_by_key(b.model.enums, by_enum_name(), e), ..b.model },
            current: DeclV::Nothing,
        },
        DeclV::Entity(e) => ModelBuildV {
            model: ModelV {
                entities: put_by_key(b.model.entities, by_entity_name(), e),
                ..b.model
            },
            current: DeclV::Nothing,
        },
    }
}

/// The state after one line, or `None` where the line breaks the grammar.
pub open spec fn model_step(b: ModelBuildV, l: ModelLineV) -> Option<ModelBuildV> {
    match l {
        ModelLineV::Skip => Some(b),
        ModelLineV::Bad => None,
        ModelLineV::EnumDecl(n) => Some(
            ModelBuildV {
                current: DeclV::Enum(EnumV { name: n, values: Seq::empty() }),
                ..close_decl(b)
            },
        ),
        ModelLineV::EntityDecl(n) => Some(
            ModelBuildV {
                current: DeclV::Entity(EntityV { name: n, fields: Seq::empty() }),
                ..close_decl(b)
            },
        ),
        ModelLineV::Item(t) => match b.current {
            DeclV::Nothing => None,
            DeclV::Enum(e) => Some(
                ModelBuildV {
                    current: DeclV::Enum(EnumV { values: e.values + list_items(t), ..e }),
                    ..b
                },
            ),
            DeclV::Entity(e) => match parse_field(t) {
                Some(f) => Some(
                    ModelBuildV {
                        current: DeclV::Entity(
                            EntityV { fields: put_by_key(e.fields, by_identifier(), f), ..e },
                        ),
                        ..b
                    },
                ),
                None => None,
            },
        },
    }
}

pub open spec fn initial_model_build() -> ModelBuildV {
    ModelBuildV { model: ModelV { entities: Seq::empty(), enums: Seq::empty() }, current: DeclV::Nothing }
}

/// The state after the given lines, or the index of the first line that
/// breaks the grammar.
pub open spec fn model_run(lines: Seq<Seq<char>>) -> Result<ModelBuildV, int>
    decreases lines.len(),
{
    if lines.len() == 0 {
        Ok(initial_model_build())
    } else {
        match model_run(lines.drop_last()) {
            Err(e) => Err(e),
            Ok(b) => match model_step(b, classify_model(lines.last())) {
                Some(b2) => Ok(b2),
                None => Err(lines.len() - 1),
            },
        }
    }
}

/// The model that a model document describes, or the index of the first
/// line that breaks the grammar.
pub open spec fn model_document(text: Seq<char>) -> Result<ModelV, int> {
    match model_run(split(text, '\n')) {
        Err(e) => Err(e),
        Ok(b) => Ok(close_decl(b).model),
    }
}

} // verus!

verus! {

/// One classified line of a model document.
pub enum ModelLine {
    Skip,
    EnumDecl(Vec<char>),
    EntityDecl(Vec<char>),
    Item(Vec<char>),
    Bad,
}

impl View for ModelLine {
    type V = ModelLineV;

    open spec fn view(&self) -> ModelLineV {
        match self {
            ModelLine::Skip => ModelLineV::Skip,
            ModelLine::EnumDecl(n) => ModelLineV::EnumDecl(n@),
            ModelLine::EntityDecl(n) => ModelLineV::EntityDecl(n@),
            ModelLine::Item(t) => ModelLineV::Item(t@),
            ModelLine::Bad => ModelLineV::Bad,
        }
    }
}

/// Classifies one line of a model document.
pub fn classify_model_line(line: &[char]) -> (r: ModelLine)
    ensures
        r@ == classify_model(line@),
{
    let t = trimmed(line);
    let n = t.len();
    if n == 0 || t[0] == '#' {
        return ModelLine::Skip;
    }
    if is_blank_char(line[0]) {
        return ModelLine::Item(t);
    }
    if t[n - 1] != ':' {
        return ModelLine::Bad;
    }
    let ws = words_of(&chars_in(&t, 0, n - 1));
    if ws.len() != 2 {
        return ModelLine::Bad;
    }
    proof {
        lemma_deep_index(ws, 0);
        lemma_deep_index(ws, 1);
    }
    assert(ws@[1]@.subrange(0, ws@[1]@.len() as int) =~= ws@[1]@);
    if chars_eq(&ws[0], "enum") {
        ModelLine::EnumDecl(chars_in(&ws[1], 0, ws[1].len()))
    } else if chars_eq(&ws[0], "type") {
        ModelLine::EntityDecl(chars_in(&ws[1], 0, ws[1].len()))
    } else {
        ModelLine::Bad
    }
}

/// The value of the tag `key`, or an empty string.
fn tag_value_of(tags: &Vec<(String, String)>, key: &str) -> (r: String)
    ensures
        r@ == tag_value(tag_views(tags@), key@),
{
    let ghost tv = tag_views(tags@);
    let mut i: usize = 0;
    while i < tags.len()
        invariant
            i <= tags@.len(),
            tv == tag_views(tags@),
            forall|j: int| 0 <= j < i ==> by_tag_key()(#[trigger] tv[j]) != key@,
        decreases tags@.len() - i,
    {
        assert(tv[i as int] == (tags@[i as int].0@, tags@[i as int].1@));
        if chars_eq(&chars_of(tags[i].0.as_str()), key) {
            proof {
                lemma_index_of_key(tv, by_tag_key(), key@);
                if let Some(m) = index_of_key(tv, by_tag_key(), key@) {
                    if m < i {
                        assert(by_tag_key()(tv[m]) != key@);
                    }
                    if m > i {
                        assert(by_tag_key()(tv[i as int]) != key@);
                    }
                }
            }
            return tags[i].1.clone();
        }
        i = i + 1;
    }
    proof {
        lemma_index_of_key(tv, by_tag_key(), key@);
    }
    String::new()
}

/// Parses a field declaration.
pub fn field_of(t: &[char]) -> (r: Option<Field>)
    ensures
        match r {
            Some(f) => parse_field(t@) == Some(f@),
            None => parse_field(t@) is None,
        },
{
    let len = t.len();
    let found = find(t, '"');
    if found.is_none() {
        return None;
    }
    let q = found.unwrap();
    proof {
        lemma_find_char(t@, '"');
    }
    let right = trimmed(&chars_in(t, q, len));
    let n = right.len();
    let ws = words_of(&chars_in(t, 0, q));
    if !(n >= 2 && right[0] == '"' && right[n - 1] == '"') || ws.len() < 2 {
        return None;
    }
    let ghost wv = ws.deep_view();
    proof {
        lemma_deep_index(ws, 0);
        lemma_deep_index(ws, 1);
    }
    let ty = &ws[1];
    let tl = ty.len();
    let is_array = tl >= 2 && ty[tl - 2] == '[' && ty[tl - 1] == ']';
    let data_type = if is_array {
        chars_in(ty, 0, tl - 2)
    } else {
        chars_in(ty, 0, tl)
    };
    assert(ty@.subrange(0, tl as int) =~= ty@);
    let mut markers: Vec<String> = Vec::new();
    let mut tags: Vec<(String, String)> = Vec::new();
    let mut i: usize = 2;
    assert(wv.subrange(2, 2) =~= Seq::<Seq<char>>::empty());
    assert(views(markers@) =~= Seq::<Seq<char>>::empty());
    assert(tag_views(tags@) =~= Seq::<(Seq<char>, Seq<char>)>::empty());
    while i < ws.len()
        invariant
            2 <= i <= ws@.len(),
            wv == ws.deep_view(),
            views(markers@) == field_markers(wv.subrange(2, i as int)),
            tag_views(tags@) == field_tags(wv.subrange(2, i as int)),
        decreases ws@.len() - i,
    {
        proof {
            lemma_deep_index(ws, i as int);
        }
        let ghost pre = wv.subrange(2, i as int + 1);
        assert(pre.drop_last() =~= wv.subrange(2, i as int));
        let w = &ws[i];
        let wl = w.len();
        let colon = find(w, ':');
        proof {
            lemma_find_char(w@, ':');
        }
        match colon {
            Some(c) => {
                let k = string_of(&chars_in(w, 0, c));
                let v = string_of(&chars_in(w, c + 1, wl));
                put_tag(&mut tags, (k, v));
            },
            None => {
                let s = string_of(w);
                let ghost before = markers@;
                markers.push(s);
                proof {
                    lemma_views_push(before, s);
                }
            },
        }
        i = i + 1;
    }
    assert(wv.subrange(2, i as int) =~= wv.subrange(2, wv.len() as int));
    let example = tag_value_of(&tags, "example");
    let f = Field {
        identifier: string_of(&ws[0]),
        data_type: string_of(&data_type),
        description: string_of(&chars_in(&right, 1, n - 1)),
        is_array,
        example,
        markers,
        tags,
        allowed_values: Vec::new(),
    };
    assert(views(f.allowed_values@) =~= Seq::<Seq<char>>::empty());
    Some(f)
}

/// The declaration being read.
pub enum Decl {
    Nothing,
    Enum(Enum),
    Entity(Entity),
}

impl View for Decl {
    type V = DeclV;

    open spec fn view(&self) -> DeclV {
        match self {
            Decl::Nothing => DeclV::Nothing,
            Decl::Enum(e) => DeclV::Enum(e@),
            Decl::Entity(e) => DeclV::Entity(e@),
        }
    }
}

/// The state of a build of a model from a model document.
pub struct ModelBuilder {
    pub model: ProjectModel,
    pub current: Decl,
}

impl View for ModelBuilder {
    type V = ModelBuildV;

    open spec fn view(&self) -> ModelBuildV {
        ModelBuildV { model: self.model@, current: self.current@ }
    }
}

impl ModelBuilder {
    pub fn new() -> (r: ModelBuilder)
        ensures
            r@ == initial_model_build(),
    {
        let r = ModelBuilder {
            model: ProjectModel { entities: Vec::new(), enums: Vec::new() },
            current: Decl::Nothing,
        };
        assert(r@.model.entities =~= Seq::<EntityV>::empty());
        assert(r@.model.enums =~= Seq::<EnumV>::empty());
        r
    }

    /// Stores the declaration being read in the model.
    pub fn close_decl(&mut self)
        ensures
            final(self)@ == close_decl(old(self)@),
    {
        let mut d = Decl::Nothing;
        core::mem::swap(&mut d, &mut self.current);
        match d {
            Decl::Nothing => {},
            Decl::Enum(e) => put_enum(&mut self.model.enums, e),
            Decl::Entity(e) => put_entity(&mut self.model.entities, e),
        }
    }

    /// Applies one line; false where it breaks the grammar.
    pub fn step(&mut self, l: ModelLine) -> (ok: bool)
        ensures
            match model_step(old(self)@, l@) {
                Some(b) => ok && final(self)@ == b,
                None => !ok,
            },
    {
        match l {
            ModelLine::Skip => true,
            ModelLine::Bad => false,
            ModelLine::EnumDecl(n) => {
                self.close_decl();
                let e = Enum { name: string_of(&n), values: Vec::new() };
                assert(views(e.values@) =~= Seq::<Seq<char>>::empty());
                self.current = Decl::Enum(e);
                true
            },
            ModelLine::EntityDecl(n) => {
                self.close_decl();
                let e = Entity { name: string_of(&n), fields: Vec::new() };
                assert(field_views(e.fields@) =~= Seq::<FieldV>::empty());
                self.current = Decl::Entity(e);
                true
            },
            ModelLine::Item(t) => {
                let mut d = Decl::Nothing;
                core::mem::swap(&mut d, &mut self.current);
                match d {
                    Decl::Nothing => false,
                    Decl::Enum(e) => {
                        let mut e = e;
                        let items = list_items_of(&t);
                        let ghost before = views(e.values@);
                        let ghost name = e.name;
                        let mut k: usize = 0;
                        while k < items.len()
                            invariant
                                k <= items@.len(),
                                e.name == name,
                                views(e.values@) == before + items.deep_view().subrange(0, k as int),
                            decreases items@.len() - k,
                        {
                            proof {
                                lemma_deep_index(items, k as int);
                            }
                            let s = string_of(&items[k]);
                            let ghost mid = e.values@;
                            e.values.push(s);
                            proof {
                                lemma_views_push(mid, s);
                            }
                            k = k + 1;
                            assert(items.deep_view().subrange(0, k as int) =~= items.deep_view().subrange(
                                0,
                                k - 1,
                            ).push(items.deep_view()[k - 1]));
                        }
                        assert(items.deep_view().subrange(0, k as int) =~= items.deep_view());
                        self.current = Decl::Enum(e);
                        true
                    },
                    Decl::Entity(e) => match field_of(&t) {
                        Some(f) => {
                            let mut e = e;
                            put_field(&mut e.fields, f);
                            self.current = Decl::Entity(e);
                            true
                        },
                        None => false,
                    },
                }
            },
        }
    }
}

pub proof fn lemma_model_run_err_extends(lines: Seq<Seq<char>>, k: int)
    requires
        0 <= k <= lines.len(),
        model_run(lines.subrange(0, k)) is Err,
    ensures
        model_run(lines) == model_run(lines.subrange(0, k)),
    decreases lines.len() - k,
{
    if k < lines.len() {
        let p = lines.subrange(0, k + 1);
        assert(p.drop_last() =~= lines.subrange(0, k));
        lemma_model_run_err_extends(lines, k + 1);
    } else {
        assert(lines.subrange(0, k) =~= lines);
    }
}

/// Builds the model that a model document describes. A document that
/// breaks the grammar gives the number of its first offending line, and no
/// model.
pub fn get_models(from_model: &str) -> (r: Result<ProjectModel, SyntaxError>)
    ensures
        match r {
            Ok(m) => model_document(from_model@) == Ok::<ModelV, int>(m@),
            Err(e) => e.line >= 1 && model_document(from_model@) == Err::<ModelV, int>(e.line - 1),
        },
{
    let chars = chars_of(from_model);
    let lines = split_on(&chars, '\n');
    let ghost lv = lines.deep_view();
    let mut b = ModelBuilder::new();
    let mut i: usize = 0;
    assert(lv.subrange(0, 0) =~= Seq::<Seq<char>>::empty());
    while i < lines.len()
        invariant
            i <= lines@.len(),
            lv == lines.deep_view(),
            lv == split(from_model@, '\n'),
            model_run(lv.subrange(0, i as int)) == Ok::<ModelBuildV, int>(b@),
        decreases lines@.len() - i,
    {
        proof {
            lemma_deep_index(lines, i as int);
        }
        let ghost pre = lv.subrange(0, i as int + 1);
        assert(pre.drop_last() =~= lv.subrange(0, i as int));
        let l = classify_model_line(&lines[i]);
        if !b.step(l) {
            proof {
                lemma_model_run_err_extends(lv, i as int + 1);
            }
            return Err(SyntaxError { line: i + 1 });
        }
        i = i + 1;
    }
    assert(lv.subrange(0, i as int) =~= lv);
    b.close_decl();
    Ok(b.model)
}

} // verus!
