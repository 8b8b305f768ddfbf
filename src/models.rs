//! The data model: entities with their fields, and enums.
use vstd::prelude::*;
use crate::project::views;
use crate::text::{chars_eq, chars_of};

verus! {

pub struct Field {
    pub identifier: String,
    pub data_type: String,
    pub description: String,
    /// Whether the field holds an array of its type.
    pub is_array: bool,
    pub example: String,
    pub markers: Vec<String>,
    pub tags: Vec<(String, String)>,
    /// Used only for enums.
    pub allowed_values: Vec<String>,
}

pub struct FieldV {
    pub identifier: Seq<char>,
    pub data_type: Seq<char>,
    pub description: Seq<char>,
    pub is_array: bool,
    pub example: Seq<char>,
    pub markers: Seq<Seq<char>>,
    pub tags: Seq<(Seq<char>, Seq<char>)>,
    pub allowed_values: Seq<Seq<char>>,
}

pub open spec fn tag_views(v: Seq<(String, String)>) -> Seq<(Seq<char>, Seq<char>)> {
    v.map_values(|t: (String, String)| (t.0@, t.1@))
}

impl View for Field {
    type V = FieldV;

    open spec fn view(&self) -> FieldV {
        FieldV {
            identifier: self.identifier@,
            data_type: self.data_type@,
            description: self.description@,
            is_array: self.is_array,
            example: self.example@,
            markers: views(self.markers@),
            tags: tag_views(self.tags@),
            allowed_values: views(self.allowed_values@),
        }
    }
}

pub struct Entity {
    pub name: String,
    pub fields: Vec<Field>,
}

pub struct EntityV {
    pub name: Seq<char>,
    pub fields: Seq<FieldV>,
}

pub open spec fn field_views(v: Seq<Field>) -> Seq<FieldV> {
    v.map_values(|f: Field| f@)
}

impl View for Entity {
    type V = EntityV;

    open spec fn view(&self) -> EntityV {
        EntityV { name: self.name@, fields: field_views(self.fields@) }
    }
}

pub struct Enum {
    pub name: String,
    pub values: Vec<String>,
}

pub struct EnumV {
    pub name: Seq<char>,
    pub values: Seq<Seq<char>>,
}

impl View for Enum {
    type V = EnumV;

    open spec fn view(&self) -> EnumV {
        EnumV { name: self.name@, values: views(self.values@) }
    }
}

pub struct ProjectModel {
    pub entities: Vec<Entity>,
    pub enums: Vec<Enum>,
}

pub struct ModelV {
    pub entities: Seq<EntityV>,
    pub enums: Seq<EnumV>,
}

pub open spec fn entity_views(v: Seq<Entity>) -> Seq<EntityV> {
    v.map_values(|e: Entity| e@)
}

pub open spec fn enum_views(v: Seq<Enum>) -> Seq<EnumV> {
    v.map_values(|e: Enum| e@)
}

impl View for ProjectModel {
    type V = ModelV;

    open spec fn view(&self) -> ModelV {
        ModelV { entities: entity_views(self.entities@), enums: enum_views(self.enums@) }
    }
}

/// Index of the first element of `s` whose key is `k`.
pub open spec fn index_of_key<T>(s: Seq<T>, key: spec_fn(T) -> Seq<char>, k: Seq<char>) -> Option<
    int,
>
    decreases s.len(),
{
    if s.len() == 0 {
        None
    } else {
        match index_of_key(s.drop_last(), key, k) {
            Some(i) => Some(i),
            None => if key(s.last()) == k {
                Some(s.len() - 1)
            } else {
                None
            },
        }
    }
}

pub proof fn lemma_index_of_key<T>(s: Seq<T>, key: spec_fn(T) -> Seq<char>, k: Seq<char>)
    ensures
        match index_of_key(s, key, k) {
            Some(i) => 0 <= i < s.len() && key(s[i]) == k && forall|j: int|
                0 <= j < i ==> key(#[trigger] s[j]) != k,
            None => forall|j: int| 0 <= j < s.len() ==> key(#[trigger] s[j]) != k,
        },
    decreases s.len(),
{
    if s.len() > 0 {
        lemma_index_of_key(s.drop_last(), key, k);
        assert(forall|j: int| 0 <= j < s.len() - 1 ==> s.drop_last()[j] == s[j]);
    }
}

/// `s` with `x` stored under its key: it replaces the first element with
/// the same key, or comes last.
pub open spec fn put_by_key<T>(s: Seq<T>, key: spec_fn(T) -> Seq<char>, x: T) -> Seq<T> {
    match index_of_key(s, key, key(x)) {
        Some(i) => s.update(i, x),
        None => s.push(x),
    }
}

pub open spec fn by_tag_key() -> spec_fn((Seq<char>, Seq<char>)) -> Seq<char> {
    |t: (Seq<char>, Seq<char>)| t.0
}

pub open spec fn by_identifier() -> spec_fn(FieldV) -> Seq<char> {
    |f: FieldV| f.identifier
}

pub open spec fn by_entity_name() -> spec_fn(EntityV) -> Seq<char> {
    |e: EntityV| e.name
}

pub open spec fn by_enum_name() -> spec_fn(EnumV) -> Seq<char> {
    |e: EnumV| e.name
}

/// The value of the tag `k`, or nothing.
pub open spec fn tag_value(tags: Seq<(Seq<char>, Seq<char>)>, k: Seq<char>) -> Seq<char> {
    match index_of_key(tags, by_tag_key(), k) {
        Some(i) => tags[i].1,
        None => Seq::empty(),
    }
}

/// Stores `x` under its tag key, replacing the first element with the same one.
pub fn put_tag(v: &mut Vec<(String, String)>, x: (String, String))
    ensures
        tag_views(final(v)@) == put_by_key(tag_views(old(v)@), by_tag_key(), (x.0@, x.1@)),
{
    let ghost sv = tag_views(old(v)@);
    let ghost xv = (x.0@, x.1@);
    let ghost k = by_tag_key()(xv);
    let mut i: usize = 0;
    while i < v.len()
        invariant
            i <= v@.len(),
            v@ == old(v)@,
            sv == tag_views(v@),
            xv == (x.0@, x.1@),
            k == by_tag_key()(xv),
            forall|j: int| 0 <= j < i ==> by_tag_key()(#[trigger] sv[j]) != k,
        decreases v@.len() - i,
    {
        assert(sv[i as int] == (v@[i as int].0@, v@[i as int].1@));
        if v[i].0 == x.0 {
            proof {
                lemma_index_of_key(sv, by_tag_key(), k);
                if let Some(m) = index_of_key(sv, by_tag_key(), k) {
                    if m < i {
                        assert(by_tag_key()(sv[m]) != k);
                    }
                    if m > i {
                        assert(by_tag_key()(sv[i as int]) != k);
                    }
                }
            }
            v.set(i, x);
            assert(tag_views(v@) =~= sv.update(i as int, xv));
            return;
        }
        i = i + 1;
    }
    proof {
        lemma_index_of_key(sv, by_tag_key(), k);
    }
    v.push(x);
    assert(tag_views(v@) =~= sv.push(xv));
}

/// Stores `x` under its identifier, replacing the first element with the same one.
pub fn put_field(v: &mut Vec<Field>, x: Field)
    ensures
        field_views(final(v)@) == put_by_key(field_views(old(v)@), by_identifier(), x@),
{
    let ghost sv = field_views(old(v)@);
    let ghost xv = x@;
    let ghost k = by_identifier()(xv);
    let mut i: usize = 0;
    while i < v.len()
        invariant
            i <= v@.len(),
            v@ == old(v)@,
            sv == field_views(v@),
            xv == x@,
            k == by_identifier()(xv),
            forall|j: int| 0 <= j < i ==> by_identifier()(#[trigger] sv[j]) != k,
        decreases v@.len() - i,
    {
        assert(sv[i as int] == v@[i as int]@);
        if v[i].identifier == x.identifier {
            proof {
                lemma_index_of_key(sv, by_identifier(), k);
                if let Some(m) = index_of_key(sv, by_identifier(), k) {
                    if m < i {
                        assert(by_identifier()(sv[m]) != k);
                    }
                    if m > i {
                        assert(by_identifier()(sv[i as int]) != k);
                    }
                }
            }
            v.set(i, x);
            assert(field_views(v@) =~= sv.update(i as int, xv));
            return;
        }
        i = i + 1;
    }
    proof {
        lemma_index_of_key(sv, by_identifier(), k);
    }
    v.push(x);
    assert(field_views(v@) =~= sv.push(xv));
}

/// Stores `x` under its name, replacing the first element with the same one.
pub fn put_entity(v: &mut Vec<Entity>, x: Entity)
    ensures
        entity_views(final(v)@) == put_by_key(entity_views(old(v)@), by_entity_name(), x@),
{
    let ghost sv = entity_views(old(v)@);
    let ghost xv = x@;
    let ghost k = by_entity_name()(xv);
    let mut i: usize = 0;
    while i < v.len()
        invariant
            i <= v@.len(),
            v@ == old(v)@,
            sv == entity_views(v@),
            xv == x@,
            k == by_entity_name()(xv),
            forall|j: int| 0 <= j < i ==> by_entity_name()(#[trigger] sv[j]) != k,
        decreases v@.len() - i,
    {
        assert(sv[i as int] == v@[i as int]@);
        if v[i].name == x.name {
            proof {
                lemma_index_of_key(sv, by_entity_name(), k);
                if let Some(m) = index_of_key(sv, by_entity_name(), k) {
                    if m < i {
                        assert(by_entity_name()(sv[m]) != k);
                    }
                    if m > i {
                        assert(by_entity_name()(sv[i as int]) != k);
                    }
                }
            }
            v.set(i, x);
            assert(entity_views(v@) =~= sv.update(i as int, xv));
            return;
        }
        i = i + 1;
    }
    proof {
        lemma_index_of_key(sv, by_entity_name(), k);
    }
    v.push(x);
    assert(entity_views(v@) =~= sv.push(xv));
}

/// Stores `x` under its name, replacing the first element with the same one.
pub fn put_enum(v: &mut Vec<Enum>, x: Enum)
    ensures
        enum_views(final(v)@) == put_by_key(enum_views(old(v)@), by_enum_name(), x@),
{
    let ghost sv = enum_views(old(v)@);
    let ghost xv = x@;
    let ghost k = by_enum_name()(xv);
    let mut i: usize = 0;
    while i < v.len()
        invariant
            i <= v@.len(),
            v@ == old(v)@,
            sv == enum_views(v@),
            xv == x@,
            k == by_enum_name()(xv),
            forall|j: int| 0 <= j < i ==> by_enum_name()(#[trigger] sv[j]) != k,
        decreases v@.len() - i,
    {
        assert(sv[i as int] == v@[i as int]@);
        if v[i].name == x.name {
            proof {
                lemma_index_of_key(sv, by_enum_name(), k);
                if let Some(m) = index_of_key(sv, by_enum_name(), k) {
                    if m < i {
                        assert(by_enum_name()(sv[m]) != k);
                    }
                    if m > i {
                        assert(by_enum_name()(sv[i as int]) != k);
                    }
                }
            }
            v.set(i, x);
            assert(enum_views(v@) =~= sv.update(i as int, xv));
            return;
        }
        i = i + 1;
    }
    proof {
        lemma_index_of_key(sv, by_enum_name(), k);
    }
    v.push(x);
    assert(enum_views(v@) =~= sv.push(xv));
}

impl ProjectModel {
    /// The enum called `name`.
    pub fn get_enum(&self, name: &str) -> (r: Option<&Enum>)
        ensures
            match index_of_key(enum_views(self.enums@), by_enum_name(), name@) {
                Some(i) => r is Some && r->0@ == enum_views(self.enums@)[i],
                None => r is None,
            },
    {
        let ghost sv = enum_views(self.enums@);
        let mut i: usize = 0;
        while i < self.enums.len()
            invariant
                i <= self.enums@.len(),
                sv == enum_views(self.enums@),
                forall|j: int| 0 <= j < i ==> by_enum_name()(#[trigger] sv[j]) != name@,
            decreases self.enums@.len() - i,
        {
            assert(sv[i as int] == self.enums@[i as int]@);
            if chars_eq(&chars_of(self.enums[i].name.as_str()), name) {
                proof {
                    lemma_index_of_key(sv, by_enum_name(), name@);
                    if let Some(m) = index_of_key(sv, by_enum_name(), name@) {
                        if m < i {
                            assert(by_enum_name()(sv[m]) != name@);
                        }
                        if m > i {
                            assert(by_enum_name()(sv[i as int]) != name@);
                        }
                    }
                }
                return Some(&self.enums[i]);
            }
            i = i + 1;
        }
        proof {
            lemma_index_of_key(sv, by_enum_name(), name@);
        }
        None
    }
}

impl ProjectModel {
    /// The entity called `name`.
    pub fn get_entity(&self, name: &str) -> (r: Option<&Entity>)
        ensures
            match index_of_key(entity_views(self.entities@), by_entity_name(), name@) {
                Some(i) => r is Some && r->0@ == entity_views(self.entities@)[i],
                None => r is None,
            },
    {
        let ghost sv = entity_views(self.entities@);
        let mut i: usize = 0;
        while i < self.entities.len()
            invariant
                i <= self.entities@.len(),
                sv == entity_views(self.entities@),
                forall|j: int| 0 <= j < i ==> by_entity_name()(#[trigger] sv[j]) != name@,
            decreases self.entities@.len() - i,
        {
            assert(sv[i as int] == self.entities@[i as int]@);
            if chars_eq(&chars_of(self.entities[i].name.as_str()), name) {
                proof {
                    lemma_index_of_key(sv, by_entity_name(), name@);
                    if let Some(m) = index_of_key(sv, by_entity_name(), name@) {
                        if m < i {
                            assert(by_entity_name()(sv[m]) != name@);
                        }
                        if m > i {
                            assert(by_entity_name()(sv[i as int]) != name@);
                        }
                    }
                }
                return Some(&self.entities[i]);
            }
            i = i + 1;
        }
        proof {
            lemma_index_of_key(sv, by_entity_name(), name@);
        }
        None
    }
}

impl Entity {
    /// The field called `name`.
    pub fn get_field(&self, name: &str) -> (r: Option<&Field>)
        ensures
            match index_of_key(field_views(self.fields@), by_identifier(), name@) {
                Some(i) => r is Some && r->0@ == field_views(self.fields@)[i],
                None => r is None,
            },
    {
        let ghost sv = field_views(self.fields@);
        let mut i: usize = 0;
        while i < self.fields.len()
            invariant
                i <= self.fields@.len(),
                sv == field_views(self.fields@),
                forall|j: int| 0 <= j < i ==> by_identifier()(#[trigger] sv[j]) != name@,
            decreases self.fields@.len() - i,
        {
            assert(sv[i as int] == self.fields@[i as int]@);
            if chars_eq(&chars_of(self.fields[i].identifier.as_str()), name) {
                proof {
                    lemma_index_of_key(sv, by_identifier(), name@);
                    if let Some(m) = index_of_key(sv, by_identifier(), name@) {
                        if m < i {
                            assert(by_identifier()(sv[m]) != name@);
                        }
                        if m > i {
                            assert(by_identifier()(sv[i as int]) != name@);
                        }
                    }
                }
                return Some(&self.fields[i]);
            }
            i = i + 1;
        }
        proof {
            lemma_index_of_key(sv, by_identifier(), name@);
        }
        None
    }
}

/// A copy of a list of strings.
pub fn clone_strings(v: &Vec<String>) -> (r: Vec<String>)
    ensures
        views(r@) == views(v@),
{
    let mut out: Vec<String> = Vec::new();
    let mut i: usize = 0;
    while i < v.len()
        invariant
            i <= v@.len(),
            views(out@) == views(v@).subrange(0, i as int),
        decreases v@.len() - i,
    {
        let s = v[i].clone();
        let ghost before = out@;
        out.push(s);
        assert(views(out@) =~= views(before).push(s@));
        assert(views(out@) =~= views(v@).subrange(0, i as int + 1));
        i = i + 1;
    }
    assert(views(v@).subrange(0, i as int) =~= views(v@));
    out
}

pub(crate) fn clone_tags(v: &Vec<(String, String)>) -> (r: Vec<(String, String)>)
    ensures
        tag_views(r@) == tag_views(v@),
{
    let mut out: Vec<(String, String)> = Vec::new();
    let mut i: usize = 0;
    while i < v.len()
        invariant
            i <= v@.len(),
            tag_views(out@) == tag_views(v@).subrange(0, i as int),
        decreases v@.len() - i,
    {
        let t = (v[i].0.clone(), v[i].1.clone());
        let ghost before = out@;
        out.push(t);
        assert(tag_views(out@) =~= tag_views(before).push((t.0@, t.1@)));
        assert(tag_views(out@) =~= tag_views(v@).subrange(0, i as int + 1));
        i = i + 1;
    }
    assert(tag_views(v@).subrange(0, i as int) =~= tag_views(v@));
    out
}

impl Field {
    pub fn duplicate(&self) -> (r: Field)
        ensures
            r@ == self@,
    {
        Field {
            identifier: self.identifier.clone(),
            data_type: self.data_type.clone(),
            description: self.description.clone(),
            is_array: self.is_array,
            example: self.example.clone(),
            markers: clone_strings(&self.markers),
            tags: clone_tags(&self.tags),
            allowed_values: clone_strings(&self.allowed_values),
        }
    }
}

impl Entity {
    pub fn duplicate(&self) -> (r: Entity)
        ensures
            r@ == self@,
    {
        let mut fields: Vec<Field> = Vec::new();
        let mut i: usize = 0;
        while i < self.fields.len()
            invariant
                i <= self.fields@.len(),
                field_views(fields@) == field_views(self.fields@).subrange(0, i as int),
            decreases self.fields@.len() - i,
        {
            let f = self.fields[i].duplicate();
            let ghost before = fields@;
            fields.push(f);
            assert(field_views(fields@) =~= field_views(before).push(f@));
            assert(field_views(fields@) =~= field_views(self.fields@).subrange(0, i as int + 1));
            i = i + 1;
        }
        assert(field_views(self.fields@).subrange(0, i as int) =~= field_views(self.fields@));
        Entity { name: self.name.clone(), fields }
    }
}

impl Enum {
    pub fn duplicate(&self) -> (r: Enum)
        ensures
            r@ == self@,
    {
        Enum { name: self.name.clone(), values: clone_strings(&self.values) }
    }
}

impl ProjectModel {
    pub fn duplicate(&self) -> (r: ProjectModel)
        ensures
            r@ == self@,
    {
        let mut entities: Vec<Entity> = Vec::new();
        let mut i: usize = 0;
        while i < self.entities.len()
            invariant
                i <= self.entities@.len(),
                entity_views(entities@) == entity_views(self.entities@).subrange(0, i as int),
            decreases self.entities@.len() - i,
        {
            let e = self.entities[i].duplicate();
            let ghost before = entities@;
            entities.push(e);
            assert(entity_views(entities@) =~= entity_views(before).push(e@));
            assert(entity_views(entities@) =~= entity_views(self.entities@).subrange(0, i as int + 1));
            i = i + 1;
        }
        assert(entity_views(self.entities@).subrange(0, i as int) =~= entity_views(self.entities@));
        let mut enums: Vec<Enum> = Vec::new();
        let mut k: usize = 0;
        while k < self.enums.len()
            invariant
                k <= self.enums@.len(),
                enum_views(enums@) == enum_views(self.enums@).subrange(0, k as int),
            decreases self.enums@.len() - k,
        {
            let e = self.enums[k].duplicate();
            let ghost before = enums@;
            enums.push(e);
            assert(enum_views(enums@) =~= enum_views(before).push(e@));
            assert(enum_views(enums@) =~= enum_views(self.enums@).subrange(0, k as int + 1));
            k = k + 1;
        }
        assert(enum_views(self.enums@).subrange(0, k as int) =~= enum_views(self.enums@));
        ProjectModel { entities, enums }
    }
}

} // verus!
