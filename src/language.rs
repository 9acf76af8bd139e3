//! What every adapter shares: identifiers, field tables, the schema loader and
//! the snippet resolver.

use crate::grammar::{field_id, field_name, parse_text};
use crate::snippet::{model_of, select_snippets, selected, Candidate, ParsedSnippet, SyntaxNode};
use tree_sitter::{Language, Node, Tree};
use vstd::prelude::*;
use vstd::string::StringExecFns;

verus! {

/// A node kind of one grammar.
pub type SortId = u16;

/// A field name of one grammar.
pub type FieldId = u16;

/// One legal child slot of a node kind.
#[derive(Clone, Debug)]
pub struct Field {
    pub name: String,
    pub id: FieldId,
    pub required: bool,
    pub multiple: bool,
}

/// One field of a node kind, as the grammar's descriptor states it.
#[derive(Clone, Debug)]
pub struct FieldSchema {
    pub name: String,
    pub required: bool,
    pub multiple: bool,
}

/// One node kind, as the grammar's descriptor states it.
#[derive(Clone, Debug)]
pub struct NodeKindSchema {
    pub kind: String,
    pub named: bool,
    pub fields: Vec<FieldSchema>,
}

/// A descriptor names what the grammar does not define.
#[derive(Clone, Debug, PartialEq, Eq)]
pub enum SchemaError {
    UnknownNodeKind(String),
    UnknownField(String),
}

/// The fields that a table lists for `sort`: none for a kind it does not know.
pub open spec fn fields_of(table: Seq<Vec<Field>>, sort: SortId) -> Seq<Field> {
    if (sort as int) < table.len() {
        table[sort as int]@
    } else {
        Seq::empty()
    }
}

/// Direct lookup of a node kind's fields; empty for an unknown kind.
pub fn fields_for(table: &Vec<Vec<Field>>, sort: SortId) -> (r: &[Field])
    ensures
        r@ == fields_of(table@, sort),
{
    if (sort as usize) < table.len() {
        table[sort as usize].as_slice()
    } else {
        &[]
    }
}

/// Whether `id` is one of `sorts`.
pub fn contains_sort(sorts: &[SortId], id: SortId) -> (r: bool)
    ensures
        r == sorts@.contains(id),
{
    let mut i: usize = 0;
    while i < sorts.len()
        invariant
            i <= sorts@.len(),
            forall|j: int| 0 <= j < i ==> sorts@[j] != id,
        decreases sorts@.len() - i,
    {
        if sorts[i] == id {
            return true;
        }
        i += 1;
    }
    false
}

/// Whether the pair `(sort, field)` is listed.
pub fn contains_pair(pairs: &Vec<(SortId, FieldId)>, sort: SortId, field: FieldId) -> (r: bool)
    ensures
        r == pairs@.contains((sort, field)),
{
    let mut i: usize = 0;
    while i < pairs.len()
        invariant
            i <= pairs@.len(),
            forall|j: int| 0 <= j < i ==> pairs@[j] != (sort, field),
        decreases pairs@.len() - i,
    {
        let (s, f) = pairs[i];
        if s == sort && f == field {
            return true;
        }
        i += 1;
    }
    false
}

/// Two field lists that agree field by field.
pub open spec fn same_fields(a: Seq<Field>, b: Seq<Field>) -> bool {
    &&& a.len() == b.len()
    &&& forall|j: int|
        0 <= j < a.len() ==> {
            &&& (#[trigger] a[j]).name@ == b[j].name@
            &&& a[j].id == b[j].id
            &&& a[j].required == b[j].required
            &&& a[j].multiple == b[j].multiple
        }
}

/// A copy of a field list.
pub fn copy_fields(fs: &Vec<Field>) -> (r: Vec<Field>)
    ensures
        same_fields(r@, fs@),
{
    let mut r: Vec<Field> = Vec::new();
    let mut j: usize = 0;
    while j < fs.len()
        invariant
            j <= fs@.len(),
            same_fields(r@, fs@.subrange(0, j as int)),
        decreases fs@.len() - j,
    {
        let f = &fs[j];
        r.push(Field { name: f.name.clone(), id: f.id, required: f.required, multiple: f.multiple });
        j += 1;
    }
    assert(fs@.subrange(0, fs@.len() as int) =~= fs@);
    r
}

/// The table of `count` node kinds in which `sorts[i]` has `fields[i]`, a later
/// entry replacing an earlier one for the same kind. An entry without fields
/// changes nothing: every kind starts with none.
pub open spec fn table_entry(sorts: Seq<SortId>, fields: Seq<Vec<Field>>, s: int) -> Seq<Field>
    decreases sorts.len(),
{
    if sorts.len() == 0 {
        Seq::empty()
    } else if sorts.last() as int == s && fields[sorts.len() - 1]@.len() > 0 {
        fields[sorts.len() - 1]@
    } else {
        table_entry(sorts.drop_last(), fields.subrange(0, sorts.len() - 1), s)
    }
}

/// Lays resolved node kinds out in a table indexed by kind.
pub fn build_node_table(count: usize, sorts: &Vec<SortId>, fields: &Vec<Vec<Field>>) -> (r: Vec<Vec<Field>>)
    requires
        sorts@.len() == fields@.len(),
        forall|i: int| 0 <= i < sorts@.len() && fields@[i]@.len() > 0 ==> (#[trigger] sorts@[i] as int) < count,
    ensures
        r@.len() == count,
        forall|s: int| 0 <= s < count ==> same_fields((#[trigger] r@[s])@, table_entry(sorts@, fields@, s)),
{
    let mut r: Vec<Vec<Field>> = Vec::new();
    let mut k: usize = 0;
    while k < count
        invariant
            k <= count,
            r@.len() == k,
            forall|s: int| 0 <= s < k ==> (#[trigger] r@[s])@.len() == 0,
        decreases count - k,
    {
        r.push(Vec::new());
        k += 1;
    }
    proof {
        assert forall|s: int| 0 <= s < count implies same_fields((#[trigger] r@[s])@, table_entry(
            sorts@.subrange(0, 0),
            fields@.subrange(0, 0),
            s,
        )) by {
            assert(r@[s]@ =~= Seq::<Field>::empty());
        }
    }
    let mut i: usize = 0;
    while i < sorts.len()
        invariant
            i <= sorts@.len(),
            sorts@.len() == fields@.len(),
            r@.len() == count,
            forall|j: int| 0 <= j < sorts@.len() && fields@[j]@.len() > 0 ==> (#[trigger] sorts@[j] as int) < count,
            forall|s: int|
                0 <= s < count ==> same_fields((#[trigger] r@[s])@, table_entry(
                    sorts@.subrange(0, i as int),
                    fields@.subrange(0, i as int),
                    s,
                )),
        decreases sorts@.len() - i,
    {
        let ghost old_r = r@;
        let sort = sorts[i];
        if fields[i].len() > 0 {
            r.set(sort as usize, copy_fields(&fields[i]));
        }
        proof {
            let ss = sorts@.subrange(0, i as int + 1);
            let fs = fields@.subrange(0, i as int + 1);
            assert(ss.drop_last() =~= sorts@.subrange(0, i as int));
            assert(fs.subrange(0, i as int) =~= fields@.subrange(0, i as int));
            assert forall|s: int| 0 <= s < count implies same_fields((#[trigger] r@[s])@, table_entry(ss, fs, s)) by {
                if s == sort as int && fields@[i as int]@.len() > 0 {
                    assert(fs[i as int] == fields@[i as int]);
                } else {
                    assert(r@[s] == old_r[s]);
                }
            }
        }
        i += 1;
    }
    assert(sorts@.subrange(0, sorts@.len() as int) =~= sorts@);
    assert(fields@.subrange(0, fields@.len() as int) =~= fields@);
    r
}

/// A field copies a descriptor field's name and flags.
pub open spec fn field_matches(f: Field, d: FieldSchema) -> bool {
    f.name@ == d.name@ && f.required == d.required && f.multiple == d.multiple
}

/// The field lists copy the descriptor's entries, field by field.
pub open spec fn fields_match_schema(fields: Seq<Vec<Field>>, schema: Seq<NodeKindSchema>) -> bool {
    &&& fields.len() == schema.len()
    &&& forall|i: int|
        0 <= i < fields.len() ==> {
            &&& (#[trigger] fields[i])@.len() == schema[i].fields@.len()
            &&& forall|k: int|
                0 <= k < fields[i]@.len() ==> field_matches(#[trigger] fields[i]@[k], schema[i].fields@[k])
        }
}

/// Field `d` resolved: the grammar gave it an id and maps that id back to
/// the same name.
pub open spec fn field_resolved(d: FieldSchema, id: Option<FieldId>, back: Option<String>) -> bool {
    id is Some && back is Some && back.unwrap()@ == d.name@
}

/// The fields of `ds`, with the ids the grammar gave and the names it maps
/// them back to, all resolve.
pub open spec fn fields_resolved(ds: Seq<FieldSchema>, ids: Seq<Option<FieldId>>, backs: Seq<Option<String>>) -> bool {
    forall|k: int| 0 <= k < ds.len() ==> field_resolved(#[trigger] ds[k], ids[k], backs[k])
}

/// Entry `e` resolved: it has no fields, or its kind is a nonzero kind below
/// `count` and all its fields resolved.
pub open spec fn entry_resolved(
    e: NodeKindSchema,
    sort: SortId,
    ids: Seq<Option<FieldId>>,
    backs: Seq<Option<String>>,
    count: int,
) -> bool {
    e.fields@.len() == 0 || (sort != 0 && sort < count && fields_resolved(e.fields@, ids, backs))
}

/// The error for an entry that did not resolve: its kind, where the kind did
/// not resolve, else the first of its fields that did not.
pub open spec fn entry_error(
    err: SchemaError,
    e: NodeKindSchema,
    sort: SortId,
    ids: Seq<Option<FieldId>>,
    backs: Seq<Option<String>>,
    count: int,
) -> bool {
    if sort == 0 || sort >= count {
        err == SchemaError::UnknownNodeKind(e.kind)
    } else {
        exists|k: int|
            0 <= k < e.fields@.len() && !field_resolved(#[trigger] e.fields@[k], ids[k], backs[k])
                && fields_resolved(e.fields@.subrange(0, k), ids, backs) && err == SchemaError::UnknownField(
                e.fields@[k].name,
            )
    }
}

/// `table` holds, for each kind, the fields of the last entry with fields
/// that resolved to it, each with the id the grammar gave.
pub open spec fn table_of(
    table: Seq<Vec<Field>>,
    schema: Seq<NodeKindSchema>,
    sorts: Seq<SortId>,
    ids: Seq<Vec<Option<FieldId>>>,
) -> bool {
    exists|fields: Seq<Vec<Field>>|
        {
            &&& fields_match_schema(fields, schema)
            &&& forall|i: int, k: int|
                0 <= i < fields.len() && 0 <= k < fields[i]@.len() ==> (#[trigger] fields[i]@[k]).id == ids[i]@[k].unwrap()
            &&& forall|s: int| 0 <= s < table.len() ==> same_fields(#[trigger] table[s]@, table_entry(sorts, fields, s))
        }
}

/// `table` is what the descriptor gives through some lookups that all
/// resolved: entry `i` has kind `sorts[i]`, its field `k` the id `ids[i][k]`,
/// which the grammar maps back to the name `backs[i][k]`, the field's own.
pub open spec fn loaded_from(table: Seq<Vec<Field>>, schema: Seq<NodeKindSchema>) -> bool {
    exists|sorts: Seq<SortId>, ids: Seq<Vec<Option<FieldId>>>, backs: Seq<Vec<Option<String>>>|
        {
            &&& sorts.len() == schema.len()
            &&& ids.len() == schema.len()
            &&& backs.len() == schema.len()
            &&& forall|i: int|
                0 <= i < schema.len() ==> #[trigger] entry_resolved(
                    schema[i],
                    sorts[i],
                    ids[i]@,
                    backs[i]@,
                    table.len() as int,
                )
            &&& table_of(table, schema, sorts, ids)
        }
}

/// The fields of one descriptor entry from the ids the grammar gave and the
/// names it maps them back to; `Err` names the first field that did not resolve.
pub fn fields_from_resolved(
    ds: &Vec<FieldSchema>,
    ids: &Vec<Option<FieldId>>,
    backs: &Vec<Option<String>>,
) -> (r: Result<Vec<Field>, SchemaError>)
    requires
        ids@.len() == ds@.len(),
        backs@.len() == ds@.len(),
    ensures
        r is Ok <==> fields_resolved(ds@, ids@, backs@),
        r matches Ok(fs) ==> fs@.len() == ds@.len() && forall|k: int|
            0 <= k < fs@.len() ==> field_matches(#[trigger] fs@[k], ds@[k]) && fs@[k].id == ids@[k].unwrap(),
        r matches Err(err) ==> exists|k: int|
            0 <= k < ds@.len() && !field_resolved(#[trigger] ds@[k], ids@[k], backs@[k]) && fields_resolved(
                ds@.subrange(0, k),
                ids@,
                backs@,
            ) && err == SchemaError::UnknownField(ds@[k].name),
{
    let mut out: Vec<Field> = Vec::new();
    let mut k: usize = 0;
    while k < ds.len()
        invariant
            k <= ds@.len(),
            ids@.len() == ds@.len(),
            backs@.len() == ds@.len(),
            out@.len() == k,
            fields_resolved(ds@.subrange(0, k as int), ids@, backs@),
            forall|j: int| 0 <= j < k ==> field_matches(#[trigger] out@[j], ds@[j]) && out@[j].id == ids@[j].unwrap(),
        decreases ds@.len() - k,
    {
        let d = &ds[k];
        let ok = match (&ids[k], &backs[k]) {
            (Some(_), Some(b)) => *b == d.name,
            _ => false,
        };
        if !ok {
            assert(!field_resolved(ds@[k as int], ids@[k as int], backs@[k as int]));
            return Err(SchemaError::UnknownField(d.name.clone()));
        }
        let id = match ids[k] {
            Some(id) => id,
            None => 0,
        };
        out.push(Field { name: d.name.clone(), id, required: d.required, multiple: d.multiple });
        proof {
            assert forall|j: int| 0 <= j < k + 1 implies field_resolved(
                #[trigger] ds@.subrange(0, k as int + 1)[j],
                ids@[j],
                backs@[j],
            ) by {
                if j < k {
                    assert(ds@.subrange(0, k as int + 1)[j] == ds@.subrange(0, k as int)[j]);
                }
            }
        }
        k += 1;
    }
    assert(ds@.subrange(0, ds@.len() as int) =~= ds@);
    Ok(out)
}

/// Builds a node-type table of `count` kinds from a descriptor and what the
/// grammar gave for it: `sorts[i]` for the kind of entry `i`, `ids[i][k]` for
/// its field `k` and `backs[i][k]` for the name that id maps back to. `Ok`
/// exactly when every entry resolved; else the first entry that did not gives
/// the error.
pub fn table_from_resolved(
    count: usize,
    schema: &Vec<NodeKindSchema>,
    sorts: &Vec<SortId>,
    ids: &Vec<Vec<Option<FieldId>>>,
    backs: &Vec<Vec<Option<String>>>,
) -> (r: Result<Vec<Vec<Field>>, SchemaError>)
    requires
        sorts@.len() == schema@.len(),
        ids@.len() == schema@.len(),
        backs@.len() == schema@.len(),
        forall|i: int|
            0 <= i < schema@.len() ==> (#[trigger] ids@[i])@.len() == schema@[i].fields@.len() && backs@[i]@.len()
                == schema@[i].fields@.len(),
    ensures
        r is Ok <==> forall|i: int|
            0 <= i < schema@.len() ==> entry_resolved(#[trigger] schema@[i], sorts@[i], ids@[i]@, backs@[i]@, count as int),
        r matches Ok(t) ==> t@.len() == count && table_of(t@, schema@, sorts@, ids@),
        r matches Err(err) ==> exists|i: int|
            0 <= i < schema@.len() && !entry_resolved(#[trigger] schema@[i], sorts@[i], ids@[i]@, backs@[i]@, count as int)
                && (forall|j: int|
                0 <= j < i ==> entry_resolved(#[trigger] schema@[j], sorts@[j], ids@[j]@, backs@[j]@, count as int))
                && entry_error(err, schema@[i], sorts@[i], ids@[i]@, backs@[i]@, count as int),
{
    let mut fields: Vec<Vec<Field>> = Vec::new();
    let mut i: usize = 0;
    while i < schema.len()
        invariant
            i <= schema@.len(),
            sorts@.len() == schema@.len(),
            ids@.len() == schema@.len(),
            backs@.len() == schema@.len(),
            forall|j: int|
                0 <= j < schema@.len() ==> (#[trigger] ids@[j])@.len() == schema@[j].fields@.len() && backs@[j]@.len()
                    == schema@[j].fields@.len(),
            fields@.len() == i,
            forall|j: int|
                0 <= j < i ==> entry_resolved(#[trigger] schema@[j], sorts@[j], ids@[j]@, backs@[j]@, count as int),
            fields_match_schema(fields@, schema@.subrange(0, i as int)),
            forall|j: int, k: int|
                0 <= j < i && 0 <= k < fields@[j]@.len() ==> (#[trigger] fields@[j]@[k]).id == ids@[j]@[k].unwrap(),
        decreases schema@.len() - i,
    {
        let entry = &schema[i];
        if entry.fields.len() == 0 {
            fields.push(Vec::new());
        } else {
            let sort = sorts[i];
            if sort == 0 || sort as usize >= count {
                let err = SchemaError::UnknownNodeKind(entry.kind.clone());
                assert(entry_error(
                    err,
                    schema@[i as int],
                    sorts@[i as int],
                    ids@[i as int]@,
                    backs@[i as int]@,
                    count as int,
                ));
                return Err(err);
            }
            match fields_from_resolved(&entry.fields, &ids[i], &backs[i]) {
                Ok(fs) => fields.push(fs),
                Err(err) => {
                    assert(entry_error(
                    err,
                    schema@[i as int],
                    sorts@[i as int],
                    ids@[i as int]@,
                    backs@[i as int]@,
                    count as int,
                ));
                    return Err(err);
                },
            }
        }
        i += 1;
    }
    assert(schema@.subrange(0, schema@.len() as int) =~= schema@);
    let table = build_node_table(count, sorts, &fields);
    assert(table_of(table@, schema@, sorts@, ids@));
    Ok(table)
}

/// Builds a grammar's node-type table from its descriptor: looks each entry
/// with fields up in `lang` (its kind, each field's id and the name that id
/// maps back to) and lays the results out with `table_from_resolved`. An
/// entry without fields (such as an abstract supertype) adds nothing to the
/// table and is not looked up.
pub fn fields_for_nodes(lang: &Language, schema: &Vec<NodeKindSchema>) -> (r: Result<Vec<Vec<Field>>, SchemaError>)
    ensures
        (forall|i: int| 0 <= i < schema@.len() ==> (#[trigger] schema@[i]).fields@.len() == 0) ==> r is Ok,
        r matches Ok(t) ==> loaded_from(t@, schema@),
        r matches Err(SchemaError::UnknownNodeKind(n)) ==> exists|i: int|
            0 <= i < schema@.len() && n == (#[trigger] schema@[i]).kind,
        r matches Err(SchemaError::UnknownField(n)) ==> exists|i: int, k: int|
            0 <= i < schema@.len() && 0 <= k < schema@[i].fields@.len() && n == (#[trigger] schema@[i].fields@[k]).name,
{
    let count = lang.node_kind_count();
    let mut sorts: Vec<SortId> = Vec::new();
    let mut ids: Vec<Vec<Option<FieldId>>> = Vec::new();
    let mut backs: Vec<Vec<Option<String>>> = Vec::new();
    let mut i: usize = 0;
    while i < schema.len()
        invariant
            i <= schema@.len(),
            sorts@.len() == i,
            ids@.len() == i,
            backs@.len() == i,
            forall|j: int|
                0 <= j < i ==> (#[trigger] ids@[j])@.len() == schema@[j].fields@.len() && backs@[j]@.len()
                    == schema@[j].fields@.len(),
        decreases schema@.len() - i,
    {
        let entry = &schema[i];
        let mut entry_ids: Vec<Option<FieldId>> = Vec::new();
        let mut entry_backs: Vec<Option<String>> = Vec::new();
        if entry.fields.len() == 0 {
            sorts.push(0);
        } else {
            sorts.push(lang.id_for_node_kind(entry.kind.as_str(), entry.named));
            let mut k: usize = 0;
            while k < entry.fields.len()
                invariant
                    k <= entry.fields@.len(),
                    entry_ids@.len() == k,
                    entry_backs@.len() == k,
                decreases entry.fields@.len() - k,
            {
                let id = field_id(lang, entry.fields[k].name.as_str());
                entry_ids.push(id);
                entry_backs.push(
                    match id {
                        Some(n) => field_name(lang, n),
                        None => None,
                    },
                );
                k += 1;
            }
        }
        ids.push(entry_ids);
        backs.push(entry_backs);
        i += 1;
    }
    let r = table_from_resolved(count, schema, &sorts, &ids, &backs);
    proof {
        if r is Ok {
            let t = r->Ok_0;
            assert(forall|i: int|
                0 <= i < schema@.len() ==> #[trigger] entry_resolved(
                    schema@[i],
                    sorts@[i],
                    ids@[i]@,
                    backs@[i]@,
                    t@.len() as int,
                ));
        }
        if r is Err {
            let err = r->Err_0;
            let i = choose|i: int|
                0 <= i < schema@.len() && !entry_resolved(#[trigger] schema@[i], sorts@[i], ids@[i]@, backs@[i]@, count as int)
                    && entry_error(err, schema@[i], sorts@[i], ids@[i]@, backs@[i]@, count as int);
            if !(sorts@[i] == 0 || sorts@[i] >= count) {
                let k = choose|k: int|
                    0 <= k < schema@[i].fields@.len() && !field_resolved(#[trigger] schema@[i].fields@[k], ids@[i]@[k], backs@[i]@[k])
                        && fields_resolved(schema@[i].fields@.subrange(0, k), ids@[i]@, backs@[i]@)
                        && err == SchemaError::UnknownField(schema@[i].fields@[k].name);
                assert(schema@[i].fields@[k].name == schema@[i].fields@[k].name);
            }
        }
    }
    r
}

/// The nodes of a parse tree in pre-order, the root first, or `None` where
/// the tree has more than `limit` nodes.
pub fn flatten_tree(tree: &Tree, limit: usize) -> (r: Option<Vec<SyntaxNode>>)
    ensures
        r matches Some(v) ==> 1 <= v@.len() <= limit,
        limit == 0 ==> r is None,
{
    let mut out: Vec<SyntaxNode> = Vec::new();
    let mut stack: Vec<Node> = Vec::new();
    stack.push(tree.root_node());
    let mut fuel: usize = limit;
    loop
        invariant
            fuel <= limit,
            out@.len() + fuel == limit,
            out@.len() == 0 ==> stack@.len() == 1,
        decreases fuel,
    {
        match stack.pop() {
            None => {
                return Some(out);
            },
            Some(n) => {
                if fuel == 0 {
                    return None;
                }
                fuel -= 1;
                out.push(
                    SyntaxNode {
                        kind: n.kind_id(),
                        start_byte: n.start_byte(),
                        end_byte: n.end_byte(),
                        is_error: n.is_error() || n.is_missing(),
                    },
                );
                let mut k: usize = n.child_count();
                while k > 0
                    decreases k,
                {
                    k -= 1;
                    match n.child(k) {
                        Some(c) => stack.push(c),
                        None => {},
                    }
                }
            },
        }
    }
}

/// The span of a fragment wrapped between `prefix` and `suffix` fits in memory.
pub open spec fn wrap_fits(prefix: &str, fragment: &str, suffix: &str) -> bool {
    prefix.len() + fragment.len() + suffix.len() <= usize::MAX
}

/// `c` is the fragment wrapped in the template `(prefix, suffix)`: its source is
/// the three texts joined and its span is the fragment's bytes in that source.
/// Where the wrapped text would not fit in memory, it has no parse.
pub open spec fn wraps(c: Candidate, prefix: &str, fragment: &str, suffix: &str) -> bool {
    &&& c.prefix@ == prefix@
    &&& c.suffix@ == suffix@
    &&& if wrap_fits(prefix, fragment, suffix) {
        &&& c.source@ == prefix@ + fragment@ + suffix@
        &&& c.start == prefix.len()
        &&& c.end == prefix.len() + fragment.len()
    } else {
        c.nodes is None
    }
}

/// Every candidate wraps the fragment in the template of the same position.
pub open spec fn wraps_all(cs: Seq<Candidate>, contexts: Seq<(&str, &str)>, fragment: &str) -> bool {
    &&& cs.len() == contexts.len()
    &&& forall|i: int| 0 <= i < cs.len() ==> wraps(#[trigger] cs[i], contexts[i].0, fragment, contexts[i].1)
}

/// The most nodes a snippet's parse may have.
pub const MAX_SNIPPET_NODES: usize = 1000000;

/// Wraps the fragment in one template and parses it.
pub fn wrap_and_parse(lang: Language, prefix: &str, fragment: &str, suffix: &str) -> (r: Candidate)
    ensures
        wraps(r, prefix, fragment, suffix),
{
    let p = prefix.to_owned();
    let q = suffix.to_owned();
    if fragment.len() > usize::MAX - prefix.len() || suffix.len() > usize::MAX - prefix.len() - fragment.len() {
        return Candidate { prefix: p, suffix: q, source: String::new(), start: 0, end: 0, nodes: None };
    }
    let mut source = String::new();
    source.append(prefix);
    source.append(fragment);
    source.append(suffix);
    assert(source@ =~= prefix@ + fragment@ + suffix@);
    let start = prefix.len();
    let end = start + fragment.len();
    let nodes = match parse_text(lang, source.as_str()) {
        None => None,
        Some(tree) => flatten_tree(&tree, MAX_SNIPPET_NODES),
    };
    Candidate { prefix: p, suffix: q, source, start, end, nodes }
}

/// Resolves a fragment against every template: the candidates, one per
/// template in order, and those among them that anchor the fragment.
pub fn resolve_snippet(lang: Language, contexts: &Vec<(&str, &str)>, fragment: &str) -> (r: (
    Vec<Candidate>,
    Vec<ParsedSnippet>,
))
    ensures
        wraps_all(r.0@, contexts@, fragment),
        r.1@.len() == selected(r.0@).len(),
        forall|k: int| 0 <= k < r.1@.len() ==> model_of(#[trigger] r.1@[k]) == selected(r.0@)[k],
{
    let mut cs: Vec<Candidate> = Vec::new();
    let mut i: usize = 0;
    while i < contexts.len()
        invariant
            i <= contexts@.len(),
            cs@.len() == i,
            forall|j: int| 0 <= j < i ==> wraps(#[trigger] cs@[j], contexts@[j].0, fragment, contexts@[j].1),
        decreases contexts@.len() - i,
    {
        let (prefix, suffix) = contexts[i];
        cs.push(wrap_and_parse(lang, prefix, fragment, suffix));
        i += 1;
    }
    let found = select_snippets(&cs);
    (cs, found)
}

/// The adapter held in a write-once slot: the first adapter stored stays.
pub open spec fn first_writer<T>(slot: Option<T>, candidate: T) -> Option<T> {
    match slot {
        Some(v) => Some(v),
        None => Some(candidate),
    }
}

/// Storing a second adapter in a write-once slot changes nothing: every caller
/// sees the instance that the first store left there.
pub proof fn lemma_first_writer_idempotent<T>(slot: Option<T>, a: T, b: T)
    ensures
        first_writer(first_writer(slot, a), b) == first_writer(slot, a),
        first_writer(slot, a) is Some,
{
}

} // verus!
