use vstd::prelude::*;
use crate::text::{copy_opt, text_eq};

verus! {

/// A schema and the ids of the objects it holds.
#[derive(Debug, Clone)]
pub struct SchemaEntity {
    pub id: String,
    pub name: String,
    pub is_system: bool,
    pub extension_name: Option<String>,
    pub children: Vec<String>,
}

/// An object that belongs to a schema.
#[derive(Debug, Clone)]
pub struct SchemaLevelEntity {
    pub id: String,
    pub name: String,
    pub is_system: bool,
    pub schema_id: String,
    pub extension_name: Option<String>,
}

/// An entity of the schema model, tagged by its kind.
#[derive(Debug, Clone)]
pub enum DbEntity {
    Schema(SchemaEntity),
    Table(SchemaLevelEntity),
    View(SchemaLevelEntity),
    MaterializedView(SchemaLevelEntity),
    ForeignTable(SchemaLevelEntity),
}

/// The kind of a table-like relation.
#[derive(Debug, Clone, Copy, PartialEq, Eq, Structural)]
pub enum RelationKind {
    Table,
    View,
    MaterializedView,
    ForeignTable,
}

/// A schema row as the catalog reports it.
#[derive(Debug, Clone)]
pub struct SchemaRow {
    pub id: String,
    pub name: String,
    pub is_system: bool,
    pub extension_name: Option<String>,
}

/// A table-like relation row as the catalog reports it; `kind` is the
/// backend's discriminator (`r`, `v`, `m`, `f`, or another that is skipped).
#[derive(Debug, Clone)]
pub struct RelationRow {
    pub id: String,
    pub name: String,
    pub kind: String,
    pub schema_id: String,
    pub is_system: bool,
    pub extension_name: Option<String>,
}

/// The relation kind that a discriminator names.
pub open spec fn relation_kind_of(k: Seq<char>) -> Option<RelationKind> {
    if k == "r"@ {
        Some(RelationKind::Table)
    } else if k == "v"@ {
        Some(RelationKind::View)
    } else if k == "m"@ {
        Some(RelationKind::MaterializedView)
    } else if k == "f"@ {
        Some(RelationKind::ForeignTable)
    } else {
        None
    }
}

/// Whether a schema with this id is among the rows.
pub open spec fn has_schema(schemas: Seq<SchemaRow>, id: Seq<char>) -> bool {
    exists|i: int| 0 <= i < schemas.len() && #[trigger] schemas[i].id@ == id
}

/// The relations that enter the model: of a known kind, in a known schema.
pub open spec fn accepted(schemas: Seq<SchemaRow>, rels: Seq<RelationRow>) -> Seq<RelationRow>
    decreases rels.len(),
{
    if rels.len() == 0 {
        Seq::empty()
    } else {
        let a = accepted(schemas, rels.drop_last());
        let r = rels.last();
        if relation_kind_of(r.kind@) is Some && has_schema(schemas, r.schema_id@) {
            a.push(r)
        } else {
            a
        }
    }
}

/// Ids of the relations that belong to the schema `sid`, in order.
pub open spec fn children_of(sid: Seq<char>, rels: Seq<RelationRow>) -> Seq<String>
    decreases rels.len(),
{
    if rels.len() == 0 {
        Seq::empty()
    } else {
        let c = children_of(sid, rels.drop_last());
        if rels.last().schema_id@ == sid {
            c.push(rels.last().id)
        } else {
            c
        }
    }
}

/// The entity for a schema row with its children.
pub open spec fn is_schema_entity(e: DbEntity, s: SchemaRow, children: Seq<String>) -> bool {
    &&& e is Schema
    &&& e->Schema_0.id == s.id
    &&& e->Schema_0.name == s.name
    &&& e->Schema_0.is_system == s.is_system
    &&& e->Schema_0.extension_name == s.extension_name
    &&& e->Schema_0.children@ == children
}

/// The fields of a relation entity, if `e` is one.
pub open spec fn member_of(e: DbEntity) -> Option<(RelationKind, SchemaLevelEntity)> {
    match e {
        DbEntity::Schema(_) => None,
        DbEntity::Table(m) => Some((RelationKind::Table, m)),
        DbEntity::View(m) => Some((RelationKind::View, m)),
        DbEntity::MaterializedView(m) => Some((RelationKind::MaterializedView, m)),
        DbEntity::ForeignTable(m) => Some((RelationKind::ForeignTable, m)),
    }
}

/// The entity for an accepted relation row.
pub open spec fn is_relation_entity(e: DbEntity, r: RelationRow) -> bool {
    &&& member_of(e) is Some
    &&& Some(member_of(e)->Some_0.0) == relation_kind_of(r.kind@)
    &&& member_of(e)->Some_0.1.id == r.id
    &&& member_of(e)->Some_0.1.name == r.name
    &&& member_of(e)->Some_0.1.is_system == r.is_system
    &&& member_of(e)->Some_0.1.schema_id == r.schema_id
    &&& member_of(e)->Some_0.1.extension_name == r.extension_name
}

/// The id of a schema entity, if `e` is one.
pub open spec fn schema_id_of(e: DbEntity) -> Option<Seq<char>> {
    match e {
        DbEntity::Schema(s) => Some(s.id@),
        _ => None,
    }
}

/// The forest shape: every entity that is not a schema names, by `schema_id`,
/// a schema entity of the same list.
pub open spec fn is_forest(es: Seq<DbEntity>) -> bool {
    forall|j: int| 0 <= j < es.len() && (#[trigger] member_of(es[j])) is Some ==> exists|i: int|
        0 <= i < es.len() && #[trigger] schema_id_of(es[i]) == Some(member_of(es[j])->Some_0.1.schema_id@)
}

impl DbEntity {
    /// The fields of a schema member, or `None` for a schema.
    pub fn member(&self) -> (r: Option<&SchemaLevelEntity>)
        ensures
            match member_of(*self) {
                Some(p) => r is Some && *r->Some_0 == p.1,
                None => r is None,
            },
    {
        match self {
            DbEntity::Schema(_) => None,
            DbEntity::Table(m) => Some(m),
            DbEntity::View(m) => Some(m),
            DbEntity::MaterializedView(m) => Some(m),
            DbEntity::ForeignTable(m) => Some(m),
        }
    }
}

fn relation_kind(k: &str) -> (r: Option<RelationKind>)
    ensures
        r == relation_kind_of(k@),
{
    if text_eq(k, "r") {
        Some(RelationKind::Table)
    } else if text_eq(k, "v") {
        Some(RelationKind::View)
    } else if text_eq(k, "m") {
        Some(RelationKind::MaterializedView)
    } else if text_eq(k, "f") {
        Some(RelationKind::ForeignTable)
    } else {
        None
    }
}

fn find_schema(schemas: &[SchemaRow], id: &str) -> (r: bool)
    ensures
        r == has_schema(schemas@, id@),
{
    let mut i: usize = 0;
    while i < schemas.len()
        invariant
            i <= schemas@.len(),
            forall|k: int| 0 <= k < i ==> #[trigger] schemas@[k].id@ != id@,
        decreases schemas@.len() - i,
    {
        if text_eq(schemas[i].id.as_str(), id) {
            return true;
        }
        i = i + 1;
    }
    false
}

/// Builds the schema forest from catalog rows: one entity per schema row,
/// holding the ids of its accepted relations, then one entity per accepted
/// relation. A relation of an unknown kind, or whose schema is not among the
/// schema rows, is dropped.
pub fn build_entities(schemas: &[SchemaRow], relations: &[RelationRow]) -> (r: Vec<DbEntity>)
    ensures
        r@.len() == schemas@.len() + accepted(schemas@, relations@).len(),
        forall|i: int| 0 <= i < schemas@.len() ==> #[trigger] is_schema_entity(
            r@[i],
            schemas@[i],
            children_of(schemas@[i].id@, accepted(schemas@, relations@)),
        ),
        forall|j: int| 0 <= j < accepted(schemas@, relations@).len() ==> #[trigger] is_relation_entity(
            r@[schemas@.len() + j],
            accepted(schemas@, relations@)[j],
        ),
        is_forest(r@),
{
    let ghost acc = accepted(schemas@, relations@);
    // Pass 1: the accepted relations.
    let mut members: Vec<DbEntity> = Vec::new();
    let mut i: usize = 0;
    while i < relations.len()
        invariant
            i <= relations@.len(),
            members@.len() == accepted(schemas@, relations@.take(i as int)).len(),
            forall|j: int| 0 <= j < members@.len() ==> #[trigger] is_relation_entity(
                members@[j],
                accepted(schemas@, relations@.take(i as int))[j],
            ),
        decreases relations@.len() - i,
    {
        let rel = &relations[i];
        assert(relations@.take(i + 1).drop_last() =~= relations@.take(i as int));
        let kind = relation_kind(rel.kind.as_str());
        if let Some(k) = kind {
            if find_schema(schemas, rel.schema_id.as_str()) {
                let m = SchemaLevelEntity {
                    id: rel.id.clone(),
                    name: rel.name.clone(),
                    is_system: rel.is_system,
                    schema_id: rel.schema_id.clone(),
                    extension_name: copy_opt(&rel.extension_name),
                };
                let e = match k {
                    RelationKind::Table => DbEntity::Table(m),
                    RelationKind::View => DbEntity::View(m),
                    RelationKind::MaterializedView => DbEntity::MaterializedView(m),
                    RelationKind::ForeignTable => DbEntity::ForeignTable(m),
                };
                members.push(e);
            }
        }
        i = i + 1;
    }
    assert(relations@.take(relations@.len() as int) =~= relations@);
    // Pass 2: the schemas with their children.
    let mut out: Vec<DbEntity> = Vec::new();
    let mut s: usize = 0;
    while s < schemas.len()
        invariant
            s <= schemas@.len(),
            out@.len() == s,
            members@.len() == acc.len(),
            acc == accepted(schemas@, relations@),
            forall|j: int| 0 <= j < members@.len() ==> #[trigger] is_relation_entity(members@[j], acc[j]),
            forall|k: int| 0 <= k < s ==> #[trigger] is_schema_entity(
                out@[k],
                schemas@[k],
                children_of(schemas@[k].id@, acc),
            ),
        decreases schemas@.len() - s,
    {
        let sid = schemas[s].id.as_str();
        let mut children: Vec<String> = Vec::new();
        let mut j: usize = 0;
        while j < members.len()
            invariant
                j <= members@.len(),
                members@.len() == acc.len(),
                forall|q: int| 0 <= q < members@.len() ==> #[trigger] is_relation_entity(members@[q], acc[q]),
                children@ == children_of(sid@, acc.take(j as int)),
            decreases members@.len() - j,
        {
            assert(acc.take(j + 1).drop_last() =~= acc.take(j as int));
            assert(is_relation_entity(members@[j as int], acc[j as int]));
            if let Some(m) = members[j].member() {
                if text_eq(m.schema_id.as_str(), sid) {
                    children.push(m.id.clone());
                }
            }
            j = j + 1;
        }
        assert(acc.take(acc.len() as int) =~= acc);
        let row = &schemas[s];
        out.push(DbEntity::Schema(SchemaEntity {
            id: row.id.clone(),
            name: row.name.clone(),
            is_system: row.is_system,
            extension_name: copy_opt(&row.extension_name),
            children,
        }));
        s = s + 1;
    }
    let ghost schema_part = out@;
    let ghost mem = members@;
    let mut members = members;
    // Pass 3: append the relations after the schemas.
    out.append(&mut members);
    proof {
        assert(out@ =~= schema_part + mem);
        lemma_accepted_in_schemas(schemas@, relations@);
        assert forall|j: int| 0 <= j < out@.len() && (#[trigger] member_of(out@[j])) is Some implies exists|i: int|
            0 <= i < out@.len() && #[trigger] schema_id_of(out@[i]) == Some(member_of(out@[j])->Some_0.1.schema_id@) by {
            if j < schemas@.len() {
                assert(is_schema_entity(out@[j], schemas@[j], children_of(schemas@[j].id@, acc)));
            } else {
                let q = j - schemas@.len();
                assert(out@[j] == mem[q]);
                assert(is_relation_entity(mem[q], acc[q]));
                assert(has_schema(schemas@, acc[q].schema_id@));
                let i = choose|i: int| 0 <= i < schemas@.len() && #[trigger] schemas@[i].id@ == acc[q].schema_id@;
                assert(is_schema_entity(out@[i], schemas@[i], children_of(schemas@[i].id@, acc)));
                assert(schema_id_of(out@[i]) == Some(member_of(out@[j])->Some_0.1.schema_id@));
            }
        };
        assert forall|j: int| 0 <= j < acc.len() implies #[trigger] is_relation_entity(
            out@[schemas@.len() + j],
            acc[j],
        ) by {
            assert(out@[schemas@.len() + j] == mem[j]);
        };
    }
    out
}

/// Every accepted relation names a schema among the schema rows.
pub proof fn lemma_accepted_in_schemas(schemas: Seq<SchemaRow>, rels: Seq<RelationRow>)
    ensures
        forall|j: int| 0 <= j < accepted(schemas, rels).len() ==> has_schema(
            schemas,
            #[trigger] accepted(schemas, rels)[j].schema_id@,
        ),
    decreases rels.len(),
{
    if rels.len() > 0 {
        lemma_accepted_in_schemas(schemas, rels.drop_last());
    }
}

} // verus!
