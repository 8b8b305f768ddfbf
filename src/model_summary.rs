//! A flat summary of a model: entities with their fields listed in order,
//! each field marked required when it carries the `required` marker.
use vstd::prelude::*;
use crate::models::{
    clone_strings, enum_views, tag_views, Entity, Enum, EnumV, FieldV, ProjectModel,
};
use crate::project::views;
use crate::text::{chars_eq, chars_of};

verus! {

pub struct ModelEntityField {
    pub name: String,
    pub data_type: String,
    pub description: String,
    /// Whether the field holds an array of its type.
    pub is_array: bool,
    pub example: String,
    pub markers: Vec<String>,
    pub tags: Vec<(String, String)>,
    /// Used only for enums.
    pub allowed_values: Vec<String>,
    pub is_required: bool,
}

pub struct SummaryFieldV {
    pub field: FieldV,
    pub is_required: bool,
}

impl View for ModelEntityField {
    type V = SummaryFieldV;

    open spec fn view(&self) -> SummaryFieldV {
        SummaryFieldV {
            field: FieldV {
                identifier: self.name@,
                data_type: self.data_type@,
                description: self.description@,
                is_array: self.is_array,
                example: self.example@,
                markers: views(self.markers@),
                tags: tag_views(self.tags@),
                allowed_values: views(self.allowed_values@),
            },
            is_required: self.is_required,
        }
    }
}

pub struct ModelEntity {
    pub name: String,
    pub fields: Vec<ModelEntityField>,
}

pub struct SummaryEntityV {
    pub name: Seq<char>,
    pub fields: Seq<SummaryFieldV>,
}

pub open spec fn summary_field_views(v: Seq<ModelEntityField>) -> Seq<SummaryFieldV> {
    v.map_values(|f: ModelEntityField| f@)
}

impl View for ModelEntity {
    type V = SummaryEntityV;

    open spec fn view(&self) -> SummaryEntityV {
        SummaryEntityV { name: self.name@, fields: summary_field_views(self.fields@) }
    }
}

pub struct ModelsProject {
    pub enums: Vec<Enum>,
    pub entities: Vec<ModelEntity>,
}

pub struct ModelsProjectV {
    pub enums: Seq<EnumV>,
    pub entities: Seq<SummaryEntityV>,
}

pub open spec fn summary_entity_views(v: Seq<ModelEntity>) -> Seq<SummaryEntityV> {
    v.map_values(|e: ModelEntity| e@)
}

impl View for ModelsProject {
    type V = ModelsProjectV;

    open spec fn view(&self) -> ModelsProjectV {
        ModelsProjectV { enums: enum_views(self.enums@), entities: summary_entity_views(self.entities@) }
    }
}

/// The summary of a field: the field with an empty example, marked
/// required when one of its markers is `required`.
pub open spec fn summarize_field(f: FieldV) -> SummaryFieldV {
    SummaryFieldV {
        field: FieldV { example: Seq::empty(), ..f },
        is_required: f.markers.contains("required"@),
    }
}

fn summarized_field(f: &crate::models::Field) -> (r: ModelEntityField)
    ensures
        r@ == summarize_field(f@),
{
    let mut is_required = false;
    let mut i: usize = 0;
    while i < f.markers.len()
        invariant
            i <= f.markers@.len(),
            is_required == views(f.markers@).subrange(0, i as int).contains("required"@),
        decreases f.markers@.len() - i,
    {
        let hit = chars_eq(&chars_of(f.markers[i].as_str()), "required");
        let ghost before = views(f.markers@).subrange(0, i as int);
        let ghost after = views(f.markers@).subrange(0, i as int + 1);
        proof {
            assert(after =~= before.push(f.markers@[i as int]@));
            if hit {
                assert(after[i as int] == "required"@);
            }
            if !hit && !is_required {
                assert forall|j: int| 0 <= j < after.len() implies after[j] != "required"@ by {
                    if j < i {
                        assert(after[j] == before[j]);
                    }
                }
            }
            if is_required {
                let k = choose|k: int| 0 <= k < before.len() && before[k] == "required"@;
                assert(after[k] == before[k]);
            }
        }
        is_required = is_required || hit;
        i = i + 1;
    }
    assert(views(f.markers@).subrange(0, i as int) =~= views(f.markers@));
    let r = ModelEntityField {
        name: f.identifier.clone(),
        data_type: f.data_type.clone(),
        description: f.description.clone(),
        is_array: f.is_array,
        example: String::new(),
        markers: clone_strings(&f.markers),
        tags: crate::models::clone_tags(&f.tags),
        allowed_values: clone_strings(&f.allowed_values),
        is_required,
    };
    r
}

/// The summary of an entity: its fields in order.
pub fn to_summarized_entity(from: &Entity) -> (r: ModelEntity)
    ensures
        r@.name == from@.name,
        r@.fields == from@.fields.map_values(|f: FieldV| summarize_field(f)),
{
    let ghost target = from@.fields.map_values(|f: FieldV| summarize_field(f));
    let mut new_fields: Vec<ModelEntityField> = Vec::new();
    let mut i: usize = 0;
    while i < from.fields.len()
        invariant
            i <= from.fields@.len(),
            target == from@.fields.map_values(|f: FieldV| summarize_field(f)),
            summary_field_views(new_fields@) == target.subrange(0, i as int),
        decreases from.fields@.len() - i,
    {
        assert(from@.fields[i as int] == from.fields@[i as int]@);
        let f = summarized_field(&from.fields[i]);
        let ghost before = new_fields@;
        new_fields.push(f);
        assert(summary_field_views(new_fields@) =~= summary_field_views(before).push(f@));
        assert(summary_field_views(new_fields@) =~= target.subrange(0, i as int + 1));
        i = i + 1;
    }
    assert(target.subrange(0, i as int) =~= target);
    ModelEntity { name: from.name.clone(), fields: new_fields }
}

/// The summary of a model: its enums, and its entities summarized.
pub fn convert(from: &ProjectModel) -> (r: ModelsProject)
    ensures
        r@.enums == from@.enums,
        r@.entities.len() == from@.entities.len(),
        forall|i: int|
            0 <= i < from@.entities.len() ==> (#[trigger] r@.entities[i]).name
                == from@.entities[i].name && r@.entities[i].fields == from@.entities[i].fields.map_values(
                |f: FieldV| summarize_field(f),
            ),
{
    let mut enums: Vec<Enum> = Vec::new();
    let mut k: usize = 0;
    while k < from.enums.len()
        invariant
            k <= from.enums@.len(),
            enum_views(enums@) == enum_views(from.enums@).subrange(0, k as int),
        decreases from.enums@.len() - k,
    {
        let e = from.enums[k].duplicate();
        let ghost before = enums@;
        enums.push(e);
        assert(enum_views(enums@) =~= enum_views(before).push(e@));
        assert(enum_views(enums@) =~= enum_views(from.enums@).subrange(0, k as int + 1));
        k = k + 1;
    }
    assert(enum_views(from.enums@).subrange(0, k as int) =~= enum_views(from.enums@));
    let mut entities: Vec<ModelEntity> = Vec::new();
    let mut i: usize = 0;
    while i < from.entities.len()
        invariant
            i <= from.entities@.len(),
            entities@.len() == i,
            forall|j: int|
                0 <= j < i ==> (#[trigger] entities@[j])@.name == from@.entities[j].name
                    && entities@[j]@.fields == from@.entities[j].fields.map_values(
                    |f: FieldV| summarize_field(f),
                ),
        decreases from.entities@.len() - i,
    {
        assert(from@.entities[i as int] == from.entities@[i as int]@);
        let e = to_summarized_entity(&from.entities[i]);
        entities.push(e);
        i = i + 1;
    }
    ModelsProject { enums, entities }
}

} // verus!
