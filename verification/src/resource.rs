//! The resource that a derived model builds from a value.
//!
//! The derived `to_jsonapi_resource` serializes the value with serde, then
//! fills the resource's attributes map: for each attribute field in
//! declaration order, when the serialized object has the field's serde key,
//! its value goes in under the field's JSON:API key. The map keeps the order
//! in which keys were first inserted; inserting a key again replaces the
//! value in place. The relationships are one entry per has-one field (a
//! single identifier) and then one per has-many field (a list of
//! identifiers), or none at all when the model has no relationship field.
//! The included resources are those of each has-one field's model, then
//! those of each model of each has-many field, in that order, or none at all
//! when the model has no relationship field.
//!
//! Here the serialized object is given by its keys, in its own order, and an
//! attribute's value by the position of its key there; a related model is
//! given by its identifier.
use vstd::prelude::*;
use crate::model::{AttributeFieldView, ModelPlan, PlanView, strings_view};

verus! {

/// A resource identifier: a type and an id.
pub struct IdentifierView {
    pub resource_type: Seq<char>,
    pub id: Seq<char>,
}

/// A resource identifier: a type and an id.
#[derive(Debug, Clone)]
pub struct Identifier {
    pub resource_type: String,
    pub id: String,
}

impl View for Identifier {
    type V = IdentifierView;

    open spec fn view(&self) -> IdentifierView {
        IdentifierView { resource_type: self.resource_type@, id: self.id@ }
    }
}

/// The views of a list of identifiers.
pub open spec fn identifiers_view(v: Seq<Identifier>) -> Seq<IdentifierView> {
    v.map_values(|x: Identifier| x@)
}

/// The views of a list of lists of identifiers.
pub open spec fn identifier_lists_view(v: Seq<Vec<Identifier>>) -> Seq<Seq<IdentifierView>> {
    v.map_values(|w: Vec<Identifier>| identifiers_view(w@))
}

/// The data of a relationship.
pub enum RelationshipView {
    Single(IdentifierView),
    Multiple(Seq<IdentifierView>),
}

/// The data of a relationship.
#[derive(Debug, Clone)]
pub enum RelationshipData {
    /// A has-one relationship: the related model's identifier.
    Single(Identifier),
    /// A has-many relationship: the related models' identifiers, in order.
    Multiple(Vec<Identifier>),
}

impl View for RelationshipData {
    type V = RelationshipView;

    open spec fn view(&self) -> RelationshipView {
        match self {
            RelationshipData::Single(x) => RelationshipView::Single(x@),
            RelationshipData::Multiple(v) => RelationshipView::Multiple(identifiers_view(v@)),
        }
    }
}

/// An attribute of a resource: its key, and the position in the serialized
/// object of the value it holds.
#[derive(Debug, Clone)]
pub struct AttributeEntry {
    pub key: String,
    pub index: usize,
}

/// A relationship of a resource.
#[derive(Debug, Clone)]
pub struct RelationshipEntry {
    pub name: String,
    pub data: RelationshipData,
}

/// A resource built by a model.
pub struct ResourceView {
    pub resource_type: Seq<char>,
    pub id: Seq<char>,
    pub attributes: Seq<(Seq<char>, usize)>,
    pub relationships: Option<Seq<(Seq<char>, RelationshipView)>>,
}

/// A resource built by a model.
#[derive(Debug, Clone)]
pub struct ResourceModel {
    pub resource_type: String,
    pub id: String,
    /// The attributes map, in its order.
    pub attributes: Vec<AttributeEntry>,
    pub relationships: Option<Vec<RelationshipEntry>>,
}

/// The views of a list of attribute entries.
pub open spec fn entries_view(v: Seq<AttributeEntry>) -> Seq<(Seq<char>, usize)> {
    v.map_values(|e: AttributeEntry| (e.key@, e.index))
}

/// The views of a list of relationship entries.
pub open spec fn relationship_entries_view(v: Seq<RelationshipEntry>) -> Seq<(Seq<char>, RelationshipView)> {
    v.map_values(|e: RelationshipEntry| (e.name@, e.data@))
}

impl View for ResourceModel {
    type V = ResourceView;

    open spec fn view(&self) -> ResourceView {
        ResourceView {
            resource_type: self.resource_type@,
            id: self.id@,
            attributes: entries_view(self.attributes@),
            relationships: match self.relationships {
                Some(v) => Some(relationship_entries_view(v@)),
                None => None,
            },
        }
    }
}

/// The first position from `i` on at which `keys` holds `k`.
pub open spec fn first_index_from(keys: Seq<Seq<char>>, k: Seq<char>, i: int) -> Option<int>
    decreases keys.len() - i,
{
    if i < 0 || i >= keys.len() {
        None
    } else if keys[i] == k {
        Some(i)
    } else {
        first_index_from(keys, k, i + 1)
    }
}

/// A position found from `i` on holds `k`, and no position before it does.
pub proof fn lemma_first_index_from(keys: Seq<Seq<char>>, k: Seq<char>, i: int)
    requires
        0 <= i,
    ensures
        match first_index_from(keys, k, i) {
            Some(p) => i <= p < keys.len() && keys[p] == k && forall|j: int|
                i <= j < p ==> keys[j] != k,
            None => forall|j: int| i <= j < keys.len() ==> keys[j] != k,
        },
    decreases keys.len() - i,
{
    if i < keys.len() && keys[i] != k {
        lemma_first_index_from(keys, k, i + 1);
    }
}

/// The first position at which `keys` holds `k`.
pub open spec fn first_index(keys: Seq<Seq<char>>, k: Seq<char>) -> Option<int> {
    first_index_from(keys, k, 0)
}

/// The keys of a list of entries.
pub open spec fn entry_keys(entries: Seq<(Seq<char>, usize)>) -> Seq<Seq<char>> {
    entries.map_values(|e: (Seq<char>, usize)| e.0)
}

/// Inserts `key` with `index` into an ordered map: in place when the key is
/// there, at the end otherwise.
pub open spec fn insert_entry(entries: Seq<(Seq<char>, usize)>, key: Seq<char>, index: usize) -> Seq<
    (Seq<char>, usize),
> {
    match first_index(entry_keys(entries), key) {
        Some(p) => entries.update(p, (key, index)),
        None => entries.push((key, index)),
    }
}

/// The attributes map after the first `n` attribute fields.
pub open spec fn attributes_upto(fields: Seq<AttributeFieldView>, object: Seq<Seq<char>>, n: int) -> Seq<
    (Seq<char>, usize),
>
    decreases n,
{
    if n <= 0 {
        seq![]
    } else {
        let acc = attributes_upto(fields, object, n - 1);
        match first_index(object, fields[n - 1].serde_key) {
            Some(i) => insert_entry(acc, fields[n - 1].jsonapi_key, i as usize),
            None => acc,
        }
    }
}

/// The attributes map that these attribute fields build from a serialized
/// object with these keys.
pub open spec fn resource_attributes(fields: Seq<AttributeFieldView>, object: Seq<Seq<char>>) -> Seq<
    (Seq<char>, usize),
> {
    attributes_upto(fields, object, fields.len() as int)
}

/// The relationships of a model with these related identifiers.
pub open spec fn resource_relationships(
    plan: PlanView,
    has_one: Seq<IdentifierView>,
    has_many: Seq<Seq<IdentifierView>>,
) -> Option<Seq<(Seq<char>, RelationshipView)>> {
    if plan.has_one.len() == 0 && plan.has_many.len() == 0 {
        None
    } else {
        Some(
            Seq::new(
                plan.has_one.len(),
                |i: int| (plan.has_one[i], RelationshipView::Single(has_one[i])),
            ) + Seq::new(
                plan.has_many.len(),
                |j: int| (plan.has_many[j], RelationshipView::Multiple(has_many[j])),
            ),
        )
    }
}

/// The views of a list of lists.
pub open spec fn lists_view<R>(v: Seq<Vec<R>>) -> Seq<Seq<R>> {
    v.map_values(|w: Vec<R>| w@)
}

/// The views of a list of lists of lists.
pub open spec fn nested_lists_view<R>(v: Seq<Vec<Vec<R>>>) -> Seq<Seq<Seq<R>>> {
    v.map_values(|w: Vec<Vec<R>>| lists_view(w@))
}

/// The resources that a model includes, given the resources of the model
/// in each has-one field and those of each model in each has-many field.
pub open spec fn resource_included<R>(
    plan: PlanView,
    has_one: Seq<Seq<R>>,
    has_many: Seq<Seq<Seq<R>>>,
) -> Option<Seq<R>> {
    if plan.has_one.len() == 0 && plan.has_many.len() == 0 {
        None
    } else {
        Some(has_one.flatten() + has_many.map_values(|m: Seq<Seq<R>>| m.flatten()).flatten())
    }
}

/// The first position of `k` in `keys`.
pub fn find_key(keys: &Vec<String>, k: &String) -> (res: Option<usize>)
    ensures
        match res {
            Some(i) => first_index(strings_view(keys@), k@) == Some(i as int),
            None => first_index(strings_view(keys@), k@) is None,
        },
{
    let mut i: usize = 0;
    while i < keys.len()
        invariant
            i <= keys.len(),
            first_index(strings_view(keys@), k@) == first_index_from(strings_view(keys@), k@, i as int),
        decreases keys.len() - i,
    {
        if keys[i] == *k {
            return Some(i);
        }
        i = i + 1;
    }
    None
}

/// The position of the entry with key `k`.
fn find_entry(entries: &Vec<AttributeEntry>, k: &String) -> (res: Option<usize>)
    ensures
        match res {
            Some(i) => first_index(entry_keys(entries_view(entries@)), k@) == Some(i as int)
                && i < entries@.len(),
            None => first_index(entry_keys(entries_view(entries@)), k@) is None,
        },
{
    let ghost keys = entry_keys(entries_view(entries@));
    let mut i: usize = 0;
    while i < entries.len()
        invariant
            i <= entries.len(),
            keys == entry_keys(entries_view(entries@)),
            keys.len() == entries@.len(),
            first_index(keys, k@) == first_index_from(keys, k@, i as int),
        decreases entries.len() - i,
    {
        assert(keys[i as int] == entries@[i as int].key@);
        if entries[i].key == *k {
            proof {
                lemma_first_index_from(keys, k@, i as int);
            }
            return Some(i);
        }
        i = i + 1;
    }
    None
}

fn copy_identifier(x: &Identifier) -> (res: Identifier)
    ensures
        res@ == x@,
{
    Identifier { resource_type: x.resource_type.clone(), id: x.id.clone() }
}

fn copy_identifiers(v: &Vec<Identifier>) -> (res: Vec<Identifier>)
    ensures
        identifiers_view(res@) == identifiers_view(v@),
{
    let mut out: Vec<Identifier> = Vec::new();
    let mut i: usize = 0;
    while i < v.len()
        invariant
            i <= v.len(),
            identifiers_view(out@) =~= identifiers_view(v@.subrange(0, i as int)),
        decreases v.len() - i,
    {
        let ghost pre = out@;
        out.push(copy_identifier(&v[i]));
        assert(identifiers_view(out@) =~= identifiers_view(pre).push(v@[i as int]@));
        assert(v@.subrange(0, i + 1) =~= v@.subrange(0, i as int).push(v@[i as int]));
        i = i + 1;
    }
    assert(v@.subrange(0, v@.len() as int) =~= v@);
    out
}

/// Appends the lists, in order, to `out`.
fn append_all<R>(out: &mut Vec<R>, lists: Vec<Vec<R>>)
    ensures
        final(out)@ == old(out)@ + lists_view(lists@).flatten(),
{
    let ghost all = lists_view(lists@);
    let mut rest = lists;
    while rest.len() > 0
        invariant
            old(out)@ + all.flatten() == out@ + lists_view(rest@).flatten(),
        decreases rest.len(),
    {
        let ghost before = lists_view(rest@);
        let mut first = rest.remove(0);
        proof {
            assert(before.first() == first@);
            assert(before.drop_first() =~= lists_view(rest@));
        }
        let ghost pre = out@;
        out.append(&mut first);
        assert(pre + before.flatten() =~= out@ + lists_view(rest@).flatten());
    }
    assert(lists_view(rest@) =~= Seq::<Seq<R>>::empty());
    assert(old(out)@ + all.flatten() =~= out@);
}

impl ModelPlan {
    /// The attributes map that the derived `to_jsonapi_resource` builds from
    /// a serialized object with these keys.
    pub fn resource_attributes(&self, object_keys: &Vec<String>) -> (res: Vec<AttributeEntry>)
        ensures
            entries_view(res@) == resource_attributes(self@.attributes, strings_view(object_keys@)),
    {
        let ghost fields = self@.attributes;
        let ghost object = strings_view(object_keys@);
        let mut out: Vec<AttributeEntry> = Vec::new();
        let mut n: usize = 0;
        assert(entries_view(out@) =~= seq![]);
        while n < self.attributes.len()
            invariant
                n <= self.attributes.len(),
                fields == self@.attributes,
                fields.len() == self.attributes@.len(),
                object == strings_view(object_keys@),
                entries_view(out@) == attributes_upto(fields, object, n as int),
            decreases self.attributes.len() - n,
        {
            let field = &self.attributes[n];
            assert(fields[n as int] == field@);
            match find_key(object_keys, &field.serde_key) {
                Some(i) => {
                    let ghost pre = entries_view(out@);
                    match find_entry(&out, &field.jsonapi_key) {
                        Some(p) => {
                            out.set(p, AttributeEntry { key: field.jsonapi_key.clone(), index: i });
                            assert(entries_view(out@) =~= pre.update(
                                p as int,
                                (field.jsonapi_key@, i),
                            ));
                        },
                        None => {
                            out.push(AttributeEntry { key: field.jsonapi_key.clone(), index: i });
                            assert(entries_view(out@) =~= pre.push((field.jsonapi_key@, i)));
                        },
                    }
                },
                None => {},
            }
            n = n + 1;
        }
        out
    }

    /// The relationships that the derived `to_jsonapi_resource` builds, given
    /// the identifier of the model in each has-one field and the identifiers
    /// of the models in each has-many field.
    pub fn resource_relationships(&self, has_one: &Vec<Identifier>, has_many: &Vec<Vec<Identifier>>) -> (res: Option<Vec<RelationshipEntry>>)
        requires
            has_one@.len() == self.has_one@.len(),
            has_many@.len() == self.has_many@.len(),
        ensures
            match res {
                Some(v) => resource_relationships(
                    self@,
                    identifiers_view(has_one@),
                    identifier_lists_view(has_many@),
                ) == Some(relationship_entries_view(v@)),
                None => resource_relationships(
                    self@,
                    identifiers_view(has_one@),
                    identifier_lists_view(has_many@),
                ) is None,
            },
    {
        if self.has_one.len() == 0 && self.has_many.len() == 0 {
            return None;
        }
        let ghost plan = self@;
        let ghost ones = identifiers_view(has_one@);
        let ghost manys = identifier_lists_view(has_many@);
        let ghost singles = Seq::new(
            plan.has_one.len(),
            |i: int| (plan.has_one[i], RelationshipView::Single(ones[i])),
        );
        let ghost multiples = Seq::new(
            plan.has_many.len(),
            |j: int| (plan.has_many[j], RelationshipView::Multiple(manys[j])),
        );
        let mut out: Vec<RelationshipEntry> = Vec::new();
        let mut i: usize = 0;
        while i < self.has_one.len()
            invariant
                i <= self.has_one.len(),
                has_one@.len() == self.has_one@.len(),
                plan == self@,
                ones == identifiers_view(has_one@),
                singles == Seq::new(
                    plan.has_one.len(),
                    |i: int| (plan.has_one[i], RelationshipView::Single(ones[i])),
                ),
                relationship_entries_view(out@) =~= singles.subrange(0, i as int),
            decreases self.has_one.len() - i,
        {
            let ghost pre = out@;
            out.push(
                RelationshipEntry {
                    name: self.has_one[i].clone(),
                    data: RelationshipData::Single(copy_identifier(&has_one[i])),
                },
            );
            assert(relationship_entries_view(out@) =~= relationship_entries_view(pre).push(
                singles[i as int],
            ));
            assert(singles.subrange(0, i + 1) =~= singles.subrange(0, i as int).push(
                singles[i as int],
            ));
            i = i + 1;
        }
        assert(singles.subrange(0, singles.len() as int) =~= singles);
        let mut j: usize = 0;
        while j < self.has_many.len()
            invariant
                j <= self.has_many.len(),
                has_many@.len() == self.has_many@.len(),
                plan == self@,
                manys == identifier_lists_view(has_many@),
                multiples == Seq::new(
                    plan.has_many.len(),
                    |j: int| (plan.has_many[j], RelationshipView::Multiple(manys[j])),
                ),
                relationship_entries_view(out@) =~= singles + multiples.subrange(0, j as int),
            decreases self.has_many.len() - j,
        {
            let ghost pre = out@;
            out.push(
                RelationshipEntry {
                    name: self.has_many[j].clone(),
                    data: RelationshipData::Multiple(copy_identifiers(&has_many[j])),
                },
            );
            assert(relationship_entries_view(out@) =~= relationship_entries_view(pre).push(
                multiples[j as int],
            ));
            assert(multiples.subrange(0, j + 1) =~= multiples.subrange(0, j as int).push(
                multiples[j as int],
            ));
            j = j + 1;
        }
        assert(multiples.subrange(0, multiples.len() as int) =~= multiples);
        Some(out)
    }

    /// The resources that the derived `build_included` returns, given the
    /// resources of the model in each has-one field and those of each model
    /// in each has-many field: all of them in that order, or `None` when
    /// the model has no relationship field.
    pub fn build_included<R>(&self, has_one: Vec<Vec<R>>, has_many: Vec<Vec<Vec<R>>>) -> (res: Option<Vec<R>>)
        requires
            has_one@.len() == self.has_one@.len(),
            has_many@.len() == self.has_many@.len(),
        ensures
            match res {
                Some(v) => resource_included(self@, lists_view(has_one@), nested_lists_view(has_many@))
                    == Some(v@),
                None => resource_included(self@, lists_view(has_one@), nested_lists_view(has_many@))
                    is None,
            },
    {
        if self.has_one.len() == 0 && self.has_many.len() == 0 {
            return None;
        }
        let ghost ones = lists_view(has_one@);
        let ghost models = nested_lists_view(has_many@).map_values(|m: Seq<Seq<R>>| m.flatten());
        let mut out: Vec<R> = Vec::new();
        append_all(&mut out, has_one);
        assert(out@ =~= ones.flatten());
        let mut rest = has_many;
        while rest.len() > 0
            invariant
                ones.flatten() + models.flatten() == out@ + nested_lists_view(rest@).map_values(
                    |m: Seq<Seq<R>>| m.flatten(),
                ).flatten(),
            decreases rest.len(),
        {
            let ghost before = nested_lists_view(rest@).map_values(|m: Seq<Seq<R>>| m.flatten());
            let model = rest.remove(0);
            proof {
                assert(before.first() == lists_view(model@).flatten());
                assert(before.drop_first() =~= nested_lists_view(rest@).map_values(
                    |m: Seq<Seq<R>>| m.flatten(),
                ));
            }
            let ghost pre = out@;
            append_all(&mut out, model);
            assert(pre + before.flatten() =~= out@ + nested_lists_view(rest@).map_values(
                |m: Seq<Seq<R>>| m.flatten(),
            ).flatten());
        }
        assert(nested_lists_view(rest@).map_values(|m: Seq<Seq<R>>| m.flatten()) =~= Seq::<
            Seq<R>,
        >::empty());
        assert(ones.flatten() + models.flatten() =~= out@);
        Some(out)
    }

    /// The resource that the derived `to_jsonapi_resource` builds: the
    /// model's type, the value's id, the attributes map built from the
    /// serialized object, and the relationships built from the related
    /// models' identifiers.
    pub fn to_resource(
        &self,
        id: &str,
        object_keys: &Vec<String>,
        has_one: &Vec<Identifier>,
        has_many: &Vec<Vec<Identifier>>,
    ) -> (res: ResourceModel)
        requires
            has_one@.len() == self.has_one@.len(),
            has_many@.len() == self.has_many@.len(),
        ensures
            res@ == (ResourceView {
                resource_type: self@.resource_type,
                id: id@,
                attributes: resource_attributes(self@.attributes, strings_view(object_keys@)),
                relationships: resource_relationships(
                    self@,
                    identifiers_view(has_one@),
                    identifier_lists_view(has_many@),
                ),
            }),
    {
        let attributes = self.resource_attributes(object_keys);
        let relationships = self.resource_relationships(has_one, has_many);
        ResourceModel {
            resource_type: self.resource_type.clone(),
            id: String::from_str(id),
            attributes,
            relationships,
        }
    }
}

} // verus!
