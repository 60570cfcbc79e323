//! What holds of change buffers: the columns they have for the columns of a
//! table, and what the trigger of a table writes into them.

use vstd::prelude::*;

use crate::cdc;
use crate::catalog::DtDependency;
use crate::dvm::operator_laws::joined_parts_occur;
use crate::text;
use crate::wal_decoder as wal;

verus! {

/// A buffer has for each column of the table one for the new value and one for
/// the old, both with the type of the column, in the order of the columns.
pub proof fn buffers_have_two_columns_for_each(columns: Seq<(String, String)>, i: int)
    requires
        0 <= i < columns.len(),
    ensures
        ({
            let (name, sql_type) = columns[i];
            let t = cdc::typed_columns(columns)[i];
            &&& cdc::typed_columns(columns).len() == columns.len()
            &&& text::begins(t, ",\"new_"@ + cdc::doubled(name@) + "\" "@ + sql_type@)
            &&& text::ends(t, ",\"old_"@ + cdc::doubled(name@) + "\" "@ + sql_type@)
            &&& t.len() == 2 * (",\"new_"@ + cdc::doubled(name@) + "\" "@ + sql_type@).len()
            &&& cdc::def_names(columns)[i] == name@
        }),
{
    let (name, sql_type) = columns[i];
    let t = cdc::typed_columns(columns)[i];
    let a = ",\"new_"@ + cdc::doubled(name@) + "\" "@ + sql_type@;
    let b = ",\"old_"@ + cdc::doubled(name@) + "\" "@ + sql_type@;
    reveal_strlit(",\"new_");
    reveal_strlit(",\"old_");
    assert(t =~= a + b);
    assert(t.subrange(0, a.len() as int) =~= a);
    assert(t.subrange(t.len() - b.len(), t.len() as int) =~= b);
}

/// A key hash is written where the table has a key, and only there.
pub proof fn key_hashes_are_written_with_a_key(value: Seq<char>)
    ensures
        cdc::if_keyed(true, value) == ", "@ + value,
        cdc::if_keyed(false, value).len() == 0,
{
}

/// The function of a trigger writes into the buffer of its table: a hash of the
/// new key and of the old key where there is a key, and each column's new and
/// old value under the name for it.
pub proof fn triggers_write_every_column(
    oid: u32,
    schema: Seq<char>,
    pk: Seq<Seq<char>>,
    columns: Seq<Seq<char>>,
    i: int,
)
    requires
        0 <= i < columns.len(),
    ensures
        ({
            let new_names = text::join(cdc::each(", \"new_"@, columns, "\""@), ""@);
            let old_names = text::join(cdc::each(", \"old_"@, columns, "\""@), ""@);
            let new_vals = text::join(cdc::each(", NEW.\""@, columns, "\""@), ""@);
            let old_vals = text::join(cdc::each(", OLD.\""@, columns, "\""@), ""@);
            &&& cdc::trigger_function(oid, schema, pk, columns) == cdc::trigger_fn_sql(
                schema,
                text::decimal(oid as nat),
                cdc::if_keyed(pk.len() > 0, "pk_hash"@),
                new_names,
                old_names,
                cdc::if_keyed(pk.len() > 0, cdc::key_hash("NEW"@, pk)),
                cdc::if_keyed(pk.len() > 0, cdc::key_hash("OLD"@, pk)),
                new_vals,
                old_vals,
            )
            &&& text::occurs(new_names, ", \"new_"@ + cdc::doubled(columns[i]) + "\""@)
            &&& text::occurs(old_names, ", \"old_"@ + cdc::doubled(columns[i]) + "\""@)
            &&& text::occurs(new_vals, ", NEW.\""@ + cdc::doubled(columns[i]) + "\""@)
            &&& text::occurs(old_vals, ", OLD.\""@ + cdc::doubled(columns[i]) + "\""@)
        }),
{
    joined_parts_occur(cdc::each(", \"new_"@, columns, "\""@), ""@, i);
    joined_parts_occur(cdc::each(", \"old_"@, columns, "\""@), ""@, i);
    joined_parts_occur(cdc::each(", NEW.\""@, columns, "\""@), ""@, i);
    joined_parts_occur(cdc::each(", OLD.\""@, columns, "\""@), ""@, i);
}

/// The trigger of a table is named after it, the buffer of a table stands in
/// the schema for buffers, and the slot of a table is named after it.
pub proof fn names_come_from_the_table(schema: Seq<char>, oid: u32)
    ensures
        text::ends(cdc::trigger_name(oid), "_"@ + text::decimal(oid as nat)),
        cdc::buffer_name(schema, oid) == schema + ".changes_"@ + text::decimal(oid as nat),
        text::ends(wal::slot_name(oid), "_"@ + text::decimal(oid as nat)),
        text::ends(wal::publication_name(oid), "_"@ + text::decimal(oid as nat)),
{
    reveal_strlit("_");
    let d = "_"@ + text::decimal(oid as nat);
    let a = cdc::trigger_name(oid);
    reveal_strlit("pg_stream_cdc_");
    assert(a.subrange(a.len() - d.len(), a.len() as int) =~= d);
    let b = wal::slot_name(oid);
    let c = wal::publication_name(oid);
    reveal_strlit("pgstream_");
    reveal_strlit("pgstream_cdc_");
    assert(b.subrange(b.len() - d.len(), b.len() as int) =~= d);
    assert(c.subrange(c.len() - d.len(), c.len() as int) =~= d);
}

/// A dependency has the slot of the catalog, and where there is none that of
/// its source.
pub proof fn dependencies_have_a_slot(dep: DtDependency)
    ensures
        dep.slot_name matches Some(name) ==> wal::dependency_slot(dep) == name@,
        dep.slot_name is None ==> wal::dependency_slot(dep) == wal::slot_name(dep.source_relid),
{
}

/// The failure to find a table tells its number.
pub proof fn missing_tables_are_told_by_number(oid: u32)
    ensures
        cdc::table_missing(oid) is NotFound,
        text::occurs(cdc::table_missing(oid)->NotFound_0, text::decimal(oid as nat)),
{
    let a = "Table with OID "@;
    let d = text::decimal(oid as nat);
    crate::text_laws::parts_of_a_text_occur_in_it(a, d, " not found"@);
}

/// A text that is there is taken, and else the other.
pub proof fn texts_are_taken_where_they_are(s: Option<String>, other: Seq<char>)
    ensures
        s matches Some(t) ==> cdc::text_or(s, other) == t@,
        s is None ==> cdc::text_or(s, other) == other,
{
}

/// A list has a position for every source that it lists, and for no other.
pub proof fn positions_are_those_listed(positions: Seq<(u32, String)>, oid: u32, k: int)
    ensures
        0 <= k < positions.len() ==> cdc::has_position(positions, positions[k].0),
        (forall|i: int| 0 <= i < positions.len() ==> (#[trigger] positions[i]).0 != oid)
            ==> !cdc::has_position(positions, oid),
{
}

} // verus!
