//! Statement text for SELECT, INSERT, UPDATE and DELETE, with parameter tags
//! in place of values.
use vstd::prelude::*;

use crate::error::{BatchFault, SqlError};
use crate::params::{cell_key, SqlMultipleParameters, SqlSingleParameters};
use crate::text::{comma, joined, lemma_joined_step, nat_text, push_comma, push_nat};
use crate::value::SqlValue;

verus! {

/// The schema that holds every table.
pub open spec fn schema() -> Seq<char> {
    "uploader"@
}

/// `schema.[table]`.
pub open spec fn table_ref(table: Seq<char>) -> Seq<char> {
    schema() + ".["@ + table + "]"@
}

/// One comparison of a `WHERE` clause: `[name] ` and the value's test.
pub open spec fn where_item(e: (Seq<char>, SqlValue)) -> Seq<char> {
    "["@ + e.0 + "] "@ + e.1.where_text(e.0)
}

/// The comparisons of a `WHERE` clause, one per entry.
pub open spec fn where_items(ps: Seq<(Seq<char>, SqlValue)>) -> Seq<Seq<char>> {
    ps.map_values(|e: (Seq<char>, SqlValue)| where_item(e))
}

/// A `WHERE` clause that ANDs one comparison per entry; nothing for no entry.
pub open spec fn where_clause_text(ps: Seq<(Seq<char>, SqlValue)>) -> Seq<char> {
    if ps.len() == 0 {
        seq![]
    } else {
        "WHERE "@ + joined(where_items(ps), " AND "@)
    }
}

fn push_where_items(s: &mut String, map: &SqlSingleParameters)
    ensures
        final(s)@ == old(s)@ + joined(where_items(map@), " AND "@),
{
    let ghost start = s@;
    let ghost parts = where_items(map@);
    let mut k: usize = 0;
    proof {
        assert(parts.take(0) =~= Seq::<Seq<char>>::empty());
        assert(s@ =~= start + joined(parts.take(0), " AND "@));
    }
    while k < map.len()
        invariant
            k <= map@.len(),
            parts == where_items(map@),
            s@ == start + joined(parts.take(k as int), " AND "@),
        decreases map@.len() - k,
    {
        proof {
            lemma_joined_step(parts, " AND "@, k as int);
        }
        if k > 0 {
            s.push_str(" AND ");
        }
        let name = map.name_at(k);
        let value = map.value_at(k);
        s.push_str("[");
        s.push_str(name.as_str());
        s.push_str("] ");
        value.push_where(s, name.as_str());
        proof {
            assert(s@ =~= start + joined(parts.take(k + 1), " AND "@));
        }
        k = k + 1;
    }
    proof {
        assert(parts.take(map@.len() as int) =~= parts);
    }
}

fn where_clause_of(map: &SqlSingleParameters) -> (r: String)
    ensures
        r@ == where_clause_text(map@),
{
    let mut s = String::new();
    if map.len() > 0 {
        s.push_str("WHERE ");
        push_where_items(&mut s, map);
    }
    proof {
        assert(s@ =~= where_clause_text(map@));
    }
    s
}

/// The views of a list of column names.
pub open spec fn name_views(cols: Seq<&str>) -> Seq<Seq<char>> {
    cols.map_values(|c: &str| c@)
}

/// The text of a `SELECT`:
/// `SELECT {top} {columns} FROM uploader.[{table}] {where}`, with `TOP n` or
/// nothing, the columns joined by `, ` or `*`, and the `WHERE` clause of the
/// map or nothing.
pub open spec fn select_text(
    table: Seq<char>,
    where_map: Option<Seq<(Seq<char>, SqlValue)>>,
    cols: Option<Seq<Seq<char>>>,
    top: Option<u8>,
) -> Seq<char> {
    let top_text = match top {
        Some(n) => "TOP "@ + nat_text(n as nat),
        None => seq![],
    };
    let cols_text = match cols {
        Some(c) => joined(c, comma()),
        None => "*"@,
    };
    let where_text = match where_map {
        Some(m) => where_clause_text(m),
        None => seq![],
    };
    "SELECT "@ + top_text + " "@ + cols_text + " FROM "@ + table_ref(table) + " "@ + where_text
}

fn push_names(s: &mut String, cols: &Vec<&str>)
    ensures
        final(s)@ == old(s)@ + joined(name_views(cols@), comma()),
{
    let ghost start = s@;
    let ghost parts = name_views(cols@);
    let mut k: usize = 0;
    proof {
        assert(parts.take(0) =~= Seq::<Seq<char>>::empty());
        assert(s@ =~= start + joined(parts.take(0), comma()));
    }
    while k < cols.len()
        invariant
            k <= cols@.len(),
            parts == name_views(cols@),
            s@ == start + joined(parts.take(k as int), comma()),
        decreases cols@.len() - k,
    {
        proof {
            lemma_joined_step(parts, comma(), k as int);
        }
        if k > 0 {
            push_comma(s);
        }
        s.push_str(cols[k]);
        proof {
            assert(s@ =~= start + joined(parts.take(k + 1), comma()));
        }
        k = k + 1;
    }
    proof {
        assert(parts.take(cols@.len() as int) =~= parts);
    }
}

fn push_table(s: &mut String, table_name: &str)
    ensures
        final(s)@ == old(s)@ + table_ref(table_name@),
{
    let ghost start = s@;
    s.push_str("uploader");
    s.push_str(".[");
    s.push_str(table_name);
    s.push_str("]");
    proof {
        assert(s@ =~= start + table_ref(table_name@));
    }
}

/// The `SELECT` statement for a table, with the `WHERE` clause of the map,
/// the listed columns (all by default) and at most `top` rows.
pub fn build_generic_select_clause(
    table_name: &str,
    where_parameters: Option<SqlSingleParameters>,
    columns: Option<Vec<&str>>,
    top: Option<u8>,
) -> (r: String)
    ensures
        r@ == select_text(
            table_name@,
            match where_parameters {
                Some(m) => Some(m@),
                None => None,
            },
            match columns {
                Some(c) => Some(name_views(c@)),
                None => None,
            },
            top,
        ),
{
    let mut s = String::new();
    s.push_str("SELECT ");
    match top {
        Some(n) => {
            s.push_str("TOP ");
            push_nat(&mut s, n as u64);
        },
        None => {},
    }
    s.push_str(" ");
    match &columns {
        Some(c) => push_names(&mut s, c),
        None => s.push_str("*"),
    }
    s.push_str(" FROM ");
    push_table(&mut s, table_name);
    s.push_str(" ");
    match &where_parameters {
        Some(m) => {
            let w = where_clause_of(m);
            s.push_str(w.as_str());
        },
        None => {},
    }
    proof {
        assert(s@ =~= select_text(
            table_name@,
            match where_parameters {
                Some(m) => Some(m@),
                None => None,
            },
            match columns {
                Some(c) => Some(name_views(c@)),
                None => None,
            },
            top,
        ));
    }
    s
}

} // verus!

verus! {

/// The `WHERE` clause for the entries of `map`: `WHERE [a] = @_a AND ...`,
/// each comparison chosen by the value's kind; empty for an empty map.
pub fn build_where_clause(map: SqlSingleParameters) -> (r: String)
    ensures
        r@ == where_clause_text(map@),
{
    where_clause_of(&map)
}

/// The tags of row `r` of a batch, one per column.
pub open spec fn row_tags(names: Seq<Seq<char>>, cells: Seq<Seq<SqlValue>>, r: int) -> Seq<Seq<char>> {
    Seq::new(names.len(), |c: int| cells[c][r].tag_text(cell_key(names[c], r as nat)))
}

/// Row `r` of the `VALUES` list: its tags in parentheses.
pub open spec fn row_text(names: Seq<Seq<char>>, cells: Seq<Seq<SqlValue>>, r: int) -> Seq<char> {
    "("@ + joined(row_tags(names, cells, r), comma()) + ")"@
}

/// The rows of the `VALUES` list.
pub open spec fn rows_texts(names: Seq<Seq<char>>, cells: Seq<Seq<SqlValue>>, h: nat) -> Seq<Seq<char>> {
    Seq::new(h, |r: int| row_text(names, cells, r))
}

/// `INSERT INTO uploader.[table] (c1, c2) VALUES (@_c1_0, @_c2_0), ...;`.
pub open spec fn insert_text(
    table: Seq<char>,
    names: Seq<Seq<char>>,
    cells: Seq<Seq<SqlValue>>,
    h: nat,
) -> Seq<char> {
    "INSERT INTO "@ + table_ref(table) + " ("@ + joined(names, comma()) + ") VALUES "@ + joined(
        rows_texts(names, cells, h),
        comma(),
    ) + ";"@
}

fn push_row(s: &mut String, mult: &SqlMultipleParameters, r: usize)
    requires
        mult.wf(),
        r < mult.height(),
    ensures
        final(s)@ == old(s)@ + row_text(mult.column_names(), mult.cells(), r as int),
{
    let ghost start = s@;
    let ghost parts = row_tags(mult.column_names(), mult.cells(), r as int);
    let n = mult.len();
    s.push_str("(");
    let mut c: usize = 0;
    proof {
        assert(parts.take(0) =~= Seq::<Seq<char>>::empty());
        assert(s@ =~= start + "("@ + joined(parts.take(0), comma()));
    }
    while c < n
        invariant
            mult.wf(),
            r < mult.height(),
            n == mult.column_names().len(),
            c <= n,
            parts == row_tags(mult.column_names(), mult.cells(), r as int),
            s@ == start + "("@ + joined(parts.take(c as int), comma()),
        decreases n - c,
    {
        proof {
            lemma_joined_step(parts, comma(), c as int);
        }
        if c > 0 {
            push_comma(s);
        }
        let mut key = mult.column_name(c).clone();
        key.push('_');
        push_nat(&mut key, r as u64);
        proof {
            assert(key@ =~= cell_key(mult.column_names()[c as int], r as nat));
            assert(mult.cells()[c as int].len() == mult.height());
        }
        mult.cell(c, r).push_tag(s, key.as_str());
        proof {
            assert(s@ =~= start + "("@ + joined(parts.take(c + 1), comma()));
        }
        c = c + 1;
    }
    s.push_str(")");
    proof {
        assert(parts.take(n as int) =~= parts);
        assert(s@ =~= start + row_text(mult.column_names(), mult.cells(), r as int));
    }
}

/// The multi-row `INSERT` of a batch into a table; each cell stands as the
/// tag of `{column}_{row}`, which the batch's flattened map resolves.
pub fn build_insert_clause(table_name: &str, mult: &SqlMultipleParameters) -> (r: Result<String, SqlError>)
    requires
        mult.wf(),
    ensures
        mult.column_names().len() == 0 ==> r == Err::<String, SqlError>(
            SqlError::MalformedBatch(BatchFault::NoColumns),
        ),
        mult.column_names().len() > 0 && mult.height() == 0 ==> r == Err::<String, SqlError>(
            SqlError::MalformedBatch(BatchFault::NoRows),
        ),
        mult.column_names().len() > 0 && mult.height() > 0 ==> (r matches Ok(t) && t@ == insert_text(
            table_name@,
            mult.column_names(),
            mult.cells(),
            mult.height(),
        )),
{
    if mult.len() == 0 {
        return Err(SqlError::MalformedBatch(BatchFault::NoColumns));
    }
    let h = mult.hight();
    if h == 0 {
        return Err(SqlError::MalformedBatch(BatchFault::NoRows));
    }
    let ghost names = mult.column_names();
    let mut s = String::new();
    s.push_str("INSERT INTO ");
    push_table(&mut s, table_name);
    s.push_str(" (");
    let header = mult.header();
    let mut c: usize = 0;
    let ghost start = s@;
    proof {
        assert(names.take(0) =~= Seq::<Seq<char>>::empty());
        assert(s@ =~= start + joined(names.take(0), comma()));
    }
    while c < header.len()
        invariant
            crate::text::texts(header@) == names,
            c <= header@.len(),
            s@ == start + joined(names.take(c as int), comma()),
        decreases header@.len() - c,
    {
        proof {
            lemma_joined_step(names, comma(), c as int);
        }
        if c > 0 {
            push_comma(&mut s);
        }
        s.push_str(header[c].as_str());
        proof {
            assert(s@ =~= start + joined(names.take(c + 1), comma()));
        }
        c = c + 1;
    }
    proof {
        assert(names.take(names.len() as int) =~= names);
    }
    s.push_str(") VALUES ");
    let ghost rows = rows_texts(names, mult.cells(), mult.height());
    let ghost start2 = s@;
    let mut r: usize = 0;
    proof {
        assert(rows.take(0) =~= Seq::<Seq<char>>::empty());
        assert(s@ =~= start2 + joined(rows.take(0), comma()));
    }
    while r < h
        invariant
            mult.wf(),
            h == mult.height(),
            names == mult.column_names(),
            rows == rows_texts(names, mult.cells(), mult.height()),
            r <= h,
            s@ == start2 + joined(rows.take(r as int), comma()),
        decreases h - r,
    {
        proof {
            lemma_joined_step(rows, comma(), r as int);
        }
        if r > 0 {
            push_comma(&mut s);
        }
        push_row(&mut s, mult, r);
        proof {
            assert(s@ =~= start2 + joined(rows.take(r + 1), comma()));
        }
        r = r + 1;
    }
    s.push_str(";");
    proof {
        assert(rows.take(h as int) =~= rows);
        assert(s@ =~= insert_text(table_name@, names, mult.cells(), mult.height()));
    }
    Ok(s)
}

/// One assignment of an `UPDATE`: `[name] = ` and the value's tag.
pub open spec fn set_item(e: (Seq<char>, SqlValue)) -> Seq<char> {
    "["@ + e.0 + "] = "@ + e.1.tag_text(e.0)
}

/// The assignments of an `UPDATE`, one per entry.
pub open spec fn set_items(ps: Seq<(Seq<char>, SqlValue)>) -> Seq<Seq<char>> {
    ps.map_values(|e: (Seq<char>, SqlValue)| set_item(e))
}

/// A space and the `WHERE` clause of the map, or nothing where there is no
/// map or no entry in it.
pub open spec fn where_suffix(where_map: Option<Seq<(Seq<char>, SqlValue)>>) -> Seq<char> {
    match where_map {
        Some(m) => if m.len() == 0 {
            seq![]
        } else {
            " "@ + where_clause_text(m)
        },
        None => seq![],
    }
}

/// The view of an optional map.
pub open spec fn opt_view(m: Option<SqlSingleParameters>) -> Option<Seq<(Seq<char>, SqlValue)>> {
    match m {
        Some(p) => Some(p@),
        None => None,
    }
}

fn push_where_suffix(s: &mut String, where_parameters: &Option<SqlSingleParameters>)
    ensures
        final(s)@ == old(s)@ + where_suffix(opt_view(*where_parameters)),
{
    let ghost start = s@;
    match where_parameters {
        Some(m) => {
            if m.len() > 0 {
                s.push_str(" ");
                let w = where_clause_of(m);
                s.push_str(w.as_str());
            }
        },
        None => {},
    }
    proof {
        assert(s@ =~= start + where_suffix(opt_view(*where_parameters)));
    }
}

/// `UPDATE uploader.[table] SET [a] = @_a, ...` and the `WHERE` clause, if any.
pub open spec fn update_text(
    table: Seq<char>,
    set: Seq<(Seq<char>, SqlValue)>,
    where_map: Option<Seq<(Seq<char>, SqlValue)>>,
) -> Seq<char> {
    "UPDATE "@ + table_ref(table) + " SET "@ + joined(set_items(set), comma()) + where_suffix(
        where_map,
    )
}

/// The `UPDATE` of a table that sets each entry of `set` to its tag; an
/// update must set at least one column.
pub fn build_update_clause(
    table_name: &str,
    set: SqlSingleParameters,
    where_parameters: Option<SqlSingleParameters>,
) -> (r: Result<String, SqlError>)
    ensures
        set@.len() == 0 ==> r == Err::<String, SqlError>(SqlError::MalformedBatch(BatchFault::EmptySet)),
        set@.len() > 0 ==> (r matches Ok(t) && t@ == update_text(
            table_name@,
            set@,
            opt_view(where_parameters),
        )),
{
    if set.len() == 0 {
        return Err(SqlError::MalformedBatch(BatchFault::EmptySet));
    }
    let mut s = String::new();
    s.push_str("UPDATE ");
    push_table(&mut s, table_name);
    s.push_str(" SET ");
    let ghost start = s@;
    let ghost parts = set_items(set@);
    let mut k: usize = 0;
    proof {
        assert(parts.take(0) =~= Seq::<Seq<char>>::empty());
        assert(s@ =~= start + joined(parts.take(0), comma()));
    }
    while k < set.len()
        invariant
            k <= set@.len(),
            parts == set_items(set@),
            s@ == start + joined(parts.take(k as int), comma()),
        decreases set@.len() - k,
    {
        proof {
            lemma_joined_step(parts, comma(), k as int);
        }
        if k > 0 {
            push_comma(&mut s);
        }
        let name = set.name_at(k);
        s.push_str("[");
        s.push_str(name.as_str());
        s.push_str("] = ");
        set.value_at(k).push_tag(&mut s, name.as_str());
        proof {
            assert(s@ =~= start + joined(parts.take(k + 1), comma()));
        }
        k = k + 1;
    }
    proof {
        assert(parts.take(set@.len() as int) =~= parts);
    }
    push_where_suffix(&mut s, &where_parameters);
    Ok(s)
}

/// `DELETE FROM uploader.[table]` and the `WHERE` clause, if any.
pub open spec fn delete_text(table: Seq<char>, where_map: Option<Seq<(Seq<char>, SqlValue)>>) -> Seq<
    char,
> {
    "DELETE FROM "@ + table_ref(table) + where_suffix(where_map)
}

/// The `DELETE` from a table of the rows that the `WHERE` clause selects.
pub fn build_delete_clause(table_name: &str, where_parameters: Option<SqlSingleParameters>) -> (r:
    String)
    ensures
        r@ == delete_text(table_name@, opt_view(where_parameters)),
{
    let mut s = String::new();
    s.push_str("DELETE FROM ");
    push_table(&mut s, table_name);
    push_where_suffix(&mut s, &where_parameters);
    s
}

} // verus!

verus! {

/// The `SELECT` statement for the table of `T`.
pub fn build_known_select_clause<T: crate::tables::DBLoad>(
    where_parameters: Option<SqlSingleParameters>,
    columns: Option<Vec<&str>>,
    top: Option<u8>,
) -> (r: String)
    ensures
        r@ == select_text(
            T::table_name(),
            match where_parameters {
                Some(m) => Some(m@),
                None => None,
            },
            match columns {
                Some(c) => Some(name_views(c@)),
                None => None,
            },
            top,
        ),
{
    build_generic_select_clause(T::tab(), where_parameters, columns, top)
}

} // verus!
