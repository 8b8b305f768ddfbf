//! Properties of resolution and of the two builds, proved over the spec
//! functions that the builders' and lookups' contracts are stated with.
use vstd::prelude::*;
use crate::api_grammar::{classify, ApiKeyword, LineV};
use crate::builder::{
    api_document, apply_option, expand, keyword_groups, lemma_run_err_extends, run,
};
use crate::model_builder::{
    classify_model, close_decl, lemma_model_run_err_extends, model_document, model_run,
    model_step, DeclV, ModelBuildV, ModelLineV,
};
use crate::models::{
    by_entity_name, by_identifier, index_of_key, lemma_index_of_key, put_by_key, FieldV,
};
use crate::project::{
    answers_to, lemma_lookup_arg, lookup_arg, resolve_args, spread, ArgV, ConfigV, GroupV, ProjectV,
};
use crate::text::{list_items, split, trim};

verus! {

/// When every reference resolves, the resolved list holds, for each
/// reference in order, the first catalog entry that answers to it.
pub proof fn lemma_resolved_references_in_order(cat: Seq<ArgV>, refs: Seq<Seq<char>>)
    requires
        forall|i: int| 0 <= i < refs.len() ==> (#[trigger] lookup_arg(cat, trim(refs[i]))) is Some,
    ensures
        resolve_args(cat, refs).len() == refs.len(),
        forall|i: int|
            0 <= i < refs.len() ==> {
                &&& #[trigger] resolve_args(cat, refs)[i] == cat[lookup_arg(cat, trim(refs[i]))->0]
                &&& answers_to(resolve_args(cat, refs)[i], trim(refs[i]))
            },
    decreases refs.len(),
{
    if refs.len() > 0 {
        let init = refs.drop_last();
        assert forall|i: int| 0 <= i < init.len() implies (#[trigger] lookup_arg(
            cat,
            trim(init[i]),
        )) is Some by {
            assert(init[i] == refs[i]);
        }
        lemma_resolved_references_in_order(cat, init);
        let last = refs.len() - 1;
        assert(lookup_arg(cat, trim(refs[last])) is Some);
        lemma_lookup_arg(cat, trim(refs[last]));
        assert forall|i: int| 0 <= i < refs.len() implies {
            &&& #[trigger] resolve_args(cat, refs)[i] == cat[lookup_arg(cat, trim(refs[i]))->0]
            &&& answers_to(resolve_args(cat, refs)[i], trim(refs[i]))
        } by {
            lemma_lookup_arg(cat, trim(refs[i]));
            if i < last {
                assert(init[i] == refs[i]);
                assert(resolve_args(cat, refs)[i] == resolve_args(cat, init)[i]);
            }
        }
    }
}

/// Members of groups: no group with the id gives no members.
pub proof fn lemma_spread_undeclared(groups: Seq<GroupV>, id: Seq<char>)
    requires
        forall|j: int| 0 <= j < groups.len() ==> (#[trigger] groups[j]).id != id,
    ensures
        spread(groups, id) == Seq::<Seq<char>>::empty(),
    decreases groups.len(),
{
    if groups.len() > 0 {
        let init = groups.drop_last();
        assert forall|j: int| 0 <= j < init.len() implies (#[trigger] init[j]).id != id by {
            assert(init[j] == groups[j]);
        }
        lemma_spread_undeclared(init, id);
        assert(groups.last() == groups[groups.len() - 1]);
    }
}

/// References to groups that are not declared (yet) expand to nothing.
pub proof fn lemma_undeclared_groups_expand_to_nothing(
    groups: Seq<GroupV>,
    items: Seq<Seq<char>>,
    keep_empty: bool,
)
    requires
        forall|i: int|
            0 <= i < items.len() ==> (#[trigger] items[i]).len() > 0 && items[i][0] == '@',
        forall|i: int, j: int|
            0 <= i < items.len() && 0 <= j < groups.len() ==> (#[trigger] groups[j]).id != trim(
                (#[trigger] items[i]).drop_first(),
            ),
    ensures
        expand(groups, items, keep_empty) == Seq::<Seq<char>>::empty(),
    decreases items.len(),
{
    if items.len() > 0 {
        let init = items.drop_last();
        let last = items.len() - 1;
        assert forall|i: int| 0 <= i < init.len() implies (#[trigger] init[i]).len() > 0
            && init[i][0] == '@' by {
            assert(init[i] == items[i]);
        }
        assert forall|i: int, j: int|
            0 <= i < init.len() && 0 <= j < groups.len() implies (#[trigger] groups[j]).id != trim(
            (#[trigger] init[i]).drop_first(),
        ) by {
            assert(init[i] == items[i]);
        }
        lemma_undeclared_groups_expand_to_nothing(groups, init, keep_empty);
        let it = items[last];
        assert forall|j: int| 0 <= j < groups.len() implies (#[trigger] groups[j]).id != trim(
            it.drop_first(),
        ) by {
            assert(groups[j].id != trim(items[last].drop_first()));
        }
        lemma_spread_undeclared(groups, trim(it.drop_first()));
        assert(items.last() == it);
        assert(spread(groups, trim(it.drop_first())).map_values(|s: Seq<char>| crate::text::normalize(s))
            =~= Seq::<Seq<char>>::empty());
        assert(Seq::<Seq<char>>::empty() + Seq::<Seq<char>>::empty() =~= Seq::<Seq<char>>::empty());
    }
}

/// An argument answers to its name and to its alias alike: where no earlier
/// entry answers to either, both resolve to it.
pub proof fn lemma_alias_resolves_like_name(cat: Seq<ArgV>, i: int)
    requires
        0 <= i < cat.len(),
        cat[i].alias.len() > 0,
        forall|j: int|
            0 <= j < i ==> !answers_to(#[trigger] cat[j], cat[i].name) && !answers_to(
                cat[j],
                cat[i].alias,
            ),
    ensures
        lookup_arg(cat, cat[i].name) == Some(i),
        lookup_arg(cat, cat[i].alias) == Some(i),
{
    lemma_lookup_arg(cat, cat[i].name);
    lemma_lookup_arg(cat, cat[i].alias);
    match lookup_arg(cat, cat[i].name) {
        Some(k) => {
            if k < i {
                assert(!answers_to(cat[k], cat[i].name));
            }
            if k > i {
                assert(answers_to(cat[i], cat[i].name));
            }
        },
        None => {
            assert(answers_to(cat[i], cat[i].name));
        },
    }
    match lookup_arg(cat, cat[i].alias) {
        Some(k) => {
            if k < i {
                assert(!answers_to(cat[k], cat[i].alias));
            }
            if k > i {
                assert(answers_to(cat[i], cat[i].alias));
            }
        },
        None => {
            assert(answers_to(cat[i], cat[i].alias));
        },
    }
}

/// No two fields share an identifier.
pub open spec fn identifiers_unique(fields: Seq<FieldV>) -> bool {
    forall|i: int, j: int|
        0 <= i < j < fields.len() ==> (#[trigger] fields[i]).identifier != (
        #[trigger] fields[j]).identifier
}

/// Storing a field keeps identifiers unique, and the stored field is the one
/// field with its identifier.
pub proof fn lemma_put_field(fields: Seq<FieldV>, f: FieldV)
    requires
        identifiers_unique(fields),
    ensures
        identifiers_unique(put_by_key(fields, by_identifier(), f)),
        put_by_key(fields, by_identifier(), f).contains(f),
        forall|i: int|
            0 <= i < put_by_key(fields, by_identifier(), f).len() && (#[trigger] put_by_key(
                fields,
                by_identifier(),
                f,
            )[i]).identifier == f.identifier ==> put_by_key(fields, by_identifier(), f)[i] == f,
{
    let r = put_by_key(fields, by_identifier(), f);
    lemma_index_of_key(fields, by_identifier(), f.identifier);
    assert(by_identifier()(f) == f.identifier);
    match index_of_key(fields, by_identifier(), f.identifier) {
        Some(k) => {
            assert(r == fields.update(k, f));
            assert(r[k] == f);
            assert forall|i: int| 0 <= i < r.len() && (#[trigger] r[i]).identifier
                == f.identifier implies r[i] == f by {
                if i != k {
                    assert(r[i] == fields[i]);
                    assert(fields[k].identifier == f.identifier);
                }
            }
            assert forall|i: int, j: int| 0 <= i < j < r.len() implies (#[trigger] r[i]).identifier
                != (#[trigger] r[j]).identifier by {
                if i != k && j != k {
                    assert(r[i] == fields[i] && r[j] == fields[j]);
                } else if i == k {
                    assert(r[j] == fields[j]);
                    assert(fields[k].identifier == f.identifier);
                } else {
                    assert(r[i] == fields[i]);
                    assert(fields[k].identifier == f.identifier);
                }
            }
        },
        None => {
            assert(r == fields.push(f));
            assert(r[fields.len() as int] == f);
            assert forall|i: int| 0 <= i < r.len() && (#[trigger] r[i]).identifier
                == f.identifier implies r[i] == f by {
                if i < fields.len() {
                    assert(r[i] == fields[i]);
                    assert(by_identifier()(fields[i]) != f.identifier);
                }
            }
            assert forall|i: int, j: int| 0 <= i < j < r.len() implies (#[trigger] r[i]).identifier
                != (#[trigger] r[j]).identifier by {
                assert(r[i] == fields[i]);
                if j < fields.len() {
                    assert(r[j] == fields[j]);
                } else {
                    assert(by_identifier()(fields[i]) != f.identifier);
                }
            }
        },
    }
}

/// Two declarations of one identifier in an entity leave exactly one field
/// with that identifier: the later declaration.
pub proof fn lemma_later_field_wins(fields: Seq<FieldV>, first: FieldV, second: FieldV)
    requires
        identifiers_unique(fields),
        first.identifier == second.identifier,
    ensures
        ({
            let r = put_by_key(put_by_key(fields, by_identifier(), first), by_identifier(), second);
            &&& identifiers_unique(r)
            &&& r.contains(second)
            &&& forall|i: int|
                0 <= i < r.len() && (#[trigger] r[i]).identifier == second.identifier ==> r[i]
                    == second
        }),
{
    lemma_put_field(fields, first);
    lemma_put_field(put_by_key(fields, by_identifier(), first), second);
}

/// A line that breaks the grammar fails the whole build of an API document:
/// no project comes out of it.
pub proof fn lemma_bad_line_fails_api_build(text: Seq<char>, k: int)
    requires
        0 <= k < split(text, '\n').len(),
        classify(split(text, '\n')[k]) == LineV::Bad,
    ensures
        api_document(text) is Err,
{
    let lines = split(text, '\n');
    let pre = lines.subrange(0, k + 1);
    assert(pre.drop_last() =~= lines.subrange(0, k));
    assert(pre.last() == lines[k]);
    assert(run(pre) is Err);
    lemma_run_err_extends(lines, k + 1);
}

/// A line that breaks the grammar fails the whole build of a model document.
pub proof fn lemma_bad_line_fails_model_build(text: Seq<char>, k: int)
    requires
        0 <= k < split(text, '\n').len(),
        classify_model(split(text, '\n')[k]) == ModelLineV::Bad,
    ensures
        model_document(text) is Err,
{
    let lines = split(text, '\n');
    let pre = lines.subrange(0, k + 1);
    assert(pre.drop_last() =~= lines.subrange(0, k));
    assert(pre.last() == lines[k]);
    assert(model_run(pre) is Err);
    lemma_model_run_err_extends(lines, k + 1);
}

/// Every element of `put_by_key(s, key, x)` is `x` or an element of `s`.
pub proof fn lemma_put_by_key_elements<T>(s: Seq<T>, key: spec_fn(T) -> Seq<char>, x: T)
    ensures
        forall|i: int|
            0 <= i < put_by_key(s, key, x).len() ==> #[trigger] put_by_key(s, key, x)[i] == x
                || s.contains(put_by_key(s, key, x)[i]),
{
    let r = put_by_key(s, key, x);
    lemma_index_of_key(s, key, key(x));
    assert forall|i: int| 0 <= i < r.len() implies #[trigger] r[i] == x || s.contains(r[i]) by {
        if r[i] != x {
            assert(r[i] == s[i]);
        }
    }
}

/// Every entity of the state, stored or being read, has unique field
/// identifiers.
pub open spec fn fields_unique_everywhere(b: ModelBuildV) -> bool {
    &&& forall|i: int|
        0 <= i < b.model.entities.len() ==> identifiers_unique(
            (#[trigger] b.model.entities[i]).fields,
        )
    &&& match b.current {
        DeclV::Entity(e) => identifiers_unique(e.fields),
        _ => true,
    }
}

proof fn lemma_close_decl_keeps_fields_unique(b: ModelBuildV)
    requires
        fields_unique_everywhere(b),
    ensures
        fields_unique_everywhere(close_decl(b)),
{
    if let DeclV::Entity(e) = b.current {
        let es = b.model.entities;
        lemma_put_by_key_elements(es, by_entity_name(), e);
        let r = put_by_key(es, by_entity_name(), e);
        assert forall|i: int| 0 <= i < r.len() implies identifiers_unique(
            (#[trigger] r[i]).fields,
        ) by {
            if r[i] != e {
                let k = choose|k: int| 0 <= k < es.len() && es[k] == r[i];
                assert(identifiers_unique(es[k].fields));
            }
        }
    }
}

proof fn lemma_model_step_keeps_fields_unique(b: ModelBuildV, l: ModelLineV)
    requires
        fields_unique_everywhere(b),
        model_step(b, l) is Some,
    ensures
        fields_unique_everywhere(model_step(b, l)->0),
{
    lemma_close_decl_keeps_fields_unique(b);
    if let ModelLineV::Item(t) = l {
        if let DeclV::Entity(e) = b.current {
            if let Some(f) = crate::model_builder::parse_field(t) {
                lemma_put_field(e.fields, f);
            }
        }
    } else if let ModelLineV::EntityDecl(n) = l {
        assert(identifiers_unique(Seq::<FieldV>::empty()));
    }
}

proof fn lemma_model_run_fields_unique(lines: Seq<Seq<char>>)
    ensures
        model_run(lines) is Ok ==> fields_unique_everywhere(model_run(lines)->Ok_0),
    decreases lines.len(),
{
    if lines.len() > 0 {
        lemma_model_run_fields_unique(lines.drop_last());
        if let Ok(b) = model_run(lines.drop_last()) {
            if model_step(b, classify_model(lines.last())) is Some {
                lemma_model_step_keeps_fields_unique(b, classify_model(lines.last()));
            }
        }
    }
}

/// In a model built from a document, no entity has two fields with one
/// identifier: a repeated declaration leaves only the later one (see
/// `lemma_later_field_wins`).
pub proof fn lemma_model_fields_unique(text: Seq<char>)
    ensures
        model_document(text) is Ok ==> forall|i: int|
            0 <= i < (model_document(text)->Ok_0).entities.len() ==> identifiers_unique(
                (#[trigger] (model_document(text)->Ok_0).entities[i]).fields,
            ),
{
    let lines = split(text, '\n');
    lemma_model_run_fields_unique(lines);
    if let Ok(b) = model_run(lines) {
        lemma_close_decl_keeps_fields_unique(b);
    }
}

/// During a build, an option list whose items all reference groups that are
/// not declared above it adds nothing to the configuration being read.
pub proof fn lemma_forward_references_add_nothing(
    p: ProjectV,
    c: ConfigV,
    k: ApiKeyword,
    rest: Seq<char>,
)
    requires
        k != ApiKeyword::Operation && k != ApiKeyword::Example && k != ApiKeyword::UseCases,
        forall|i: int|
            0 <= i < list_items(rest).len() ==> (#[trigger] list_items(rest)[i]).len() > 0
                && list_items(rest)[i][0] == '@',
        forall|i: int, j: int|
            0 <= i < list_items(rest).len() && 0 <= j < keyword_groups(p, k).len() ==> (
            #[trigger] keyword_groups(p, k)[j]).id != trim((#[trigger] list_items(rest)[i]).drop_first()),
    ensures
        apply_option(p, c, k, rest) == c,
{
    let items = list_items(rest);
    lemma_undeclared_groups_expand_to_nothing(keyword_groups(p, k), items, k != ApiKeyword::StatusCodes);
    assert(c.path_params + Seq::<Seq<char>>::empty() =~= c.path_params);
    assert(c.query_string + Seq::<Seq<char>>::empty() =~= c.query_string);
    assert(c.headers + Seq::<Seq<char>>::empty() =~= c.headers);
    assert(c.tags + Seq::<Seq<char>>::empty() =~= c.tags);
    assert(c.produces + Seq::<Seq<char>>::empty() =~= c.produces);
    assert(c.consumes + Seq::<Seq<char>>::empty() =~= c.consumes);
    assert(c.status_codes + Seq::<Seq<char>>::empty() =~= c.status_codes);
}

} // verus!
