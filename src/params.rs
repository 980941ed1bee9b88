//! Named parameter values: one value per name, or a batch of rows.
use vstd::prelude::*;

use crate::text::{contains_text, digit_char, nat_text, push_nat, text_eq, texts};
use crate::error::{BatchFault, SqlError};
use crate::value::SqlValue;

verus! {

/// The value of the last entry named `key`, if any.
pub open spec fn value_of(ps: Seq<(Seq<char>, SqlValue)>, key: Seq<char>) -> Option<SqlValue>
    decreases ps.len(),
{
    if ps.len() == 0 {
        None
    } else if ps.last().0 == key {
        Some(ps.last().1)
    } else {
        value_of(ps.drop_last(), key)
    }
}

/// The index of the last entry named `key`, or -1.
pub open spec fn last_index(ps: Seq<(Seq<char>, SqlValue)>, key: Seq<char>) -> int
    decreases ps.len(),
{
    if ps.len() == 0 {
        -1
    } else if ps.last().0 == key {
        ps.len() - 1
    } else {
        last_index(ps.drop_last(), key)
    }
}

/// The entries after `key` is set to `value`: an entry of that name gets
/// the new value in place, else the pair is added at the end.
pub open spec fn insert_pair(ps: Seq<(Seq<char>, SqlValue)>, key: Seq<char>, value: SqlValue) -> Seq<
    (Seq<char>, SqlValue),
> {
    let i = last_index(ps, key);
    if i >= 0 {
        ps.update(i, (key, value))
    } else {
        ps.push((key, value))
    }
}

pub proof fn lemma_last_index(ps: Seq<(Seq<char>, SqlValue)>, key: Seq<char>)
    ensures
        -1 <= last_index(ps, key) < ps.len(),
        last_index(ps, key) >= 0 ==> ps[last_index(ps, key)].0 == key,
        last_index(ps, key) >= 0 ==> value_of(ps, key) == Some(ps[last_index(ps, key)].1),
        last_index(ps, key) < 0 <==> value_of(ps, key) is None,
        last_index(ps, key) < 0 ==> forall|k: int| 0 <= k < ps.len() ==> #[trigger] ps[k].0 != key,
    decreases ps.len(),
{
    if ps.len() > 0 && ps.last().0 != key {
        lemma_last_index(ps.drop_last(), key);
        assert forall|k: int| 0 <= k < ps.len() - 1 implies #[trigger] ps[k] == ps.drop_last()[k] by {}
    }
}

/// Setting a name changes what that name looks up, and nothing else.
pub proof fn lemma_insert_lookup(
    ps: Seq<(Seq<char>, SqlValue)>,
    key: Seq<char>,
    value: SqlValue,
    other: Seq<char>,
)
    ensures
        value_of(insert_pair(ps, key, value), other) == if other == key {
            Some(value)
        } else {
            value_of(ps, other)
        },
    decreases ps.len(),
{
    let i = last_index(ps, key);
    if i < 0 {
        assert(insert_pair(ps, key, value).drop_last() =~= ps);
    } else if ps.last().0 == key {
        assert(insert_pair(ps, key, value).drop_last() =~= ps.drop_last());
    } else {
        lemma_insert_lookup(ps.drop_last(), key, value, other);
        lemma_last_index(ps.drop_last(), key);
        assert(insert_pair(ps, key, value).drop_last() =~= insert_pair(ps.drop_last(), key, value));
    }
}

/// Parameter values by name, in the order in which names were first set.
#[derive(Debug)]
pub struct SqlSingleParameters {
    entries: Vec<(String, SqlValue)>,
}

impl View for SqlSingleParameters {
    type V = Seq<(Seq<char>, SqlValue)>;

    closed spec fn view(&self) -> Seq<(Seq<char>, SqlValue)> {
        self.entries@.map_values(|e: (String, SqlValue)| (e.0@, e.1))
    }
}

impl SqlSingleParameters {
    pub fn new() -> (r: SqlSingleParameters)
        ensures
            r@ == Seq::<(Seq<char>, SqlValue)>::empty(),
    {
        let r = SqlSingleParameters { entries: Vec::new() };
        proof {
            assert(r@ =~= Seq::<(Seq<char>, SqlValue)>::empty());
        }
        r
    }

    /// The number of names.
    pub fn len(&self) -> (r: usize)
        ensures
            r == self@.len(),
    {
        self.entries.len()
    }

    pub fn is_empty(&self) -> (r: bool)
        ensures
            r == (self@.len() == 0),
    {
        self.entries.len() == 0
    }

    /// The name of entry `i`.
    pub fn name_at(&self, i: usize) -> (r: &String)
        requires
            i < self@.len(),
        ensures
            r@ == self@[i as int].0,
    {
        &self.entries[i].0
    }

    /// The value of entry `i`.
    pub fn value_at(&self, i: usize) -> (r: &SqlValue)
        requires
            i < self@.len(),
        ensures
            *r == self@[i as int].1,
    {
        &self.entries[i].1
    }

    /// Where the name `key` stands, if it is set.
    fn find(&self, key: &str) -> (r: Option<usize>)
        ensures
            r is None <==> last_index(self@, key@) < 0,
            r matches Some(i) ==> i == last_index(self@, key@),
    {
        let mut k = self.entries.len();
        proof {
            assert(self@.take(k as int) =~= self@);
        }
        while k > 0
            invariant
                k <= self@.len(),
                last_index(self@, key@) == last_index(self@.take(k as int), key@),
            decreases k,
        {
            let ghost pre = self@.take(k as int);
            proof {
                assert(pre.drop_last() =~= self@.take(k - 1));
            }
            if text_eq(self.entries[k - 1].0.as_str(), key) {
                return Some(k - 1);
            }
            k = k - 1;
        }
        None
    }

    /// Sets the name `key` to `value`, in place where it is already set.
    pub fn insert(&mut self, key: String, value: SqlValue)
        ensures
            final(self)@ == insert_pair(old(self)@, key@, value),
            forall|k: Seq<char>| #[trigger]
                value_of(final(self)@, k) == if k == key@ {
                    Some(value)
                } else {
                    value_of(old(self)@, k)
                },
    {
        proof {
            lemma_last_index(self@, key@);
            assert forall|k: Seq<char>| #[trigger]
                value_of(insert_pair(self@, key@, value), k) == if k == key@ {
                    Some(value)
                } else {
                    value_of(self@, k)
                } by {
                lemma_insert_lookup(self@, key@, value, k);
            }
        }
        match self.find(key.as_str()) {
            Some(i) => {
                let ghost k = key@;
                self.entries.set(i, (key, value));
                proof {
                    assert(self@ =~= insert_pair(old(self)@, k, value));
                }
            },
            None => {
                let ghost k = key@;
                self.entries.push((key, value));
                proof {
                    assert(self@ =~= insert_pair(old(self)@, k, value));
                }
            },
        }
    }

    /// The value of the name `key`, if it is set.
    pub fn get(&self, key: &str) -> (r: Option<&SqlValue>)
        ensures
            r is None <==> value_of(self@, key@) is None,
            r matches Some(v) ==> value_of(self@, key@) == Some(*v),
    {
        proof {
            lemma_last_index(self@, key@);
        }
        match self.find(key) {
            Some(i) => Some(&self.entries[i].1),
            None => None,
        }
    }

    /// Whether the name `key` is set.
    pub fn contains_key(&self, key: &str) -> (r: bool)
        ensures
            r == (value_of(self@, key@) is Some),
    {
        self.get(key).is_some()
    }
}

} // verus!

verus! {

/// The smallest index from `i` on whose name already stands before it, or
/// the length of `names` if there is none.
pub open spec fn first_repeat_from(names: Seq<Seq<char>>, i: int) -> int
    decreases names.len() - i,
{
    if i < 0 || i >= names.len() {
        names.len() as int
    } else if names.take(i).contains(names[i]) {
        i
    } else {
        first_repeat_from(names, i + 1)
    }
}

/// The first name of `names` that repeats an earlier one, by index.
pub open spec fn first_repeat(names: Seq<Seq<char>>) -> int {
    first_repeat_from(names, 0)
}

/// The smallest index from `c` on of a name of `header` missing from
/// `names`, or the length of `header` if there is none.
pub open spec fn first_missing_from(header: Seq<Seq<char>>, names: Seq<Seq<char>>, c: int) -> int
    decreases header.len() - c,
{
    if c < 0 || c >= header.len() {
        header.len() as int
    } else if !names.contains(header[c]) {
        c
    } else {
        first_missing_from(header, names, c + 1)
    }
}

/// The first column of `header` that `names` does not supply, by index.
pub open spec fn first_missing(header: Seq<Seq<char>>, names: Seq<Seq<char>>) -> int {
    first_missing_from(header, names, 0)
}

/// The column names of the cells of a row.
pub open spec fn row_names(line: Seq<(&str, SqlValue)>) -> Seq<Seq<char>> {
    line.map_values(|e: (&str, SqlValue)| e.0@)
}

proof fn lemma_first_repeat_from(names: Seq<Seq<char>>, i: int)
    requires
        0 <= i <= names.len(),
    ensures
        i <= first_repeat_from(names, i) <= names.len(),
        first_repeat_from(names, i) < names.len() ==> names.take(first_repeat_from(names, i)).contains(
            names[first_repeat_from(names, i)],
        ),
        forall|k: int|
            i <= k < first_repeat_from(names, i) ==> !#[trigger] names.take(k).contains(names[k]),
    decreases names.len() - i,
{
    if i < names.len() && !names.take(i).contains(names[i]) {
        lemma_first_repeat_from(names, i + 1);
    }
}

proof fn lemma_no_repeat_distinct(names: Seq<Seq<char>>)
    requires
        first_repeat(names) == names.len(),
    ensures
        names.no_duplicates(),
{
    lemma_first_repeat_from(names, 0);
    assert forall|a: int, b: int| 0 <= a < names.len() && 0 <= b < names.len() && a != b implies names[a]
        != names[b] by {
        if a < b {
            assert(!names.take(b).contains(names[b]));
            assert(names.take(b)[a] == names[a]);
        } else {
            assert(!names.take(a).contains(names[a]));
            assert(names.take(a)[b] == names[b]);
        }
    }
}

proof fn lemma_first_missing_from(header: Seq<Seq<char>>, names: Seq<Seq<char>>, c: int)
    requires
        0 <= c <= header.len(),
    ensures
        c <= first_missing_from(header, names, c) <= header.len(),
        first_missing_from(header, names, c) < header.len() ==> !names.contains(
            header[first_missing_from(header, names, c)],
        ),
        forall|k: int|
            c <= k < first_missing_from(header, names, c) ==> names.contains(#[trigger] header[k]),
    decreases header.len() - c,
{
    if c < header.len() && names.contains(header[c]) {
        lemma_first_missing_from(header, names, c + 1);
    }
}

/// The index of the first string of `v` holding the text of `t`.
fn position(v: &Vec<String>, t: &String) -> (r: Option<usize>)
    ensures
        r is None <==> !texts(v@).contains(t@),
        r matches Some(j) ==> j < v@.len() && v@[j as int]@ == t@,
{
    let mut i: usize = 0;
    while i < v.len()
        invariant
            i <= v@.len(),
            forall|k: int| 0 <= k < i ==> v@[k]@ != t@,
        decreases v@.len() - i,
    {
        if v[i] == *t {
            proof {
                assert(texts(v@)[i as int] == t@);
            }
            return Some(i);
        }
        i = i + 1;
    }
    proof {
        if texts(v@).contains(t@) {
            let k = choose|k: int| 0 <= k < texts(v@).len() && texts(v@)[k] == t@;
            assert(v@[k]@ == t@);
        }
    }
    None
}

/// The first index of `names` whose text repeats an earlier one, or the
/// length.
fn first_repeat_exec(names: &Vec<String>) -> (r: usize)
    ensures
        r == first_repeat(texts(names@)),
{
    let ghost ns = texts(names@);
    let mut i: usize = 0;
    proof {
        lemma_first_repeat_from(ns, 0);
    }
    while i < names.len()
        invariant
            i <= names@.len(),
            ns == texts(names@),
            first_repeat_from(ns, i as int) == first_repeat(ns),
        decreases names@.len() - i,
    {
        let mut k: usize = 0;
        let mut seen = false;
        while k < i
            invariant
                k <= i < names@.len(),
                ns == texts(names@),
                seen ==> ns.take(i as int).contains(ns[i as int]),
                !seen ==> forall|m: int| 0 <= m < k ==> ns[m] != ns[i as int],
            decreases i - k,
        {
            if names[k] == names[i] {
                proof {
                    assert(ns.take(i as int)[k as int] == ns[i as int]);
                }
                seen = true;
            }
            k = k + 1;
        }
        if seen {
            return i;
        }
        proof {
            if ns.take(i as int).contains(ns[i as int]) {
                let m = choose|m: int| 0 <= m < i && ns.take(i as int)[m] == ns[i as int];
                assert(ns[m] == ns[i as int]);
            }
        }
        i = i + 1;
    }
    i
}

/// Rows of named values kept column by column, for a multi-row insert.
/// Every column holds one value per row.
#[derive(Debug)]
pub struct SqlMultipleParameters {
    names: Vec<String>,
    columns: Vec<Vec<SqlValue>>,
}

impl SqlMultipleParameters {
    /// The column names, in column order.
    pub closed spec fn column_names(&self) -> Seq<Seq<char>> {
        texts(self.names@)
    }

    /// The values of each column, in row order.
    pub closed spec fn cells(&self) -> Seq<Seq<SqlValue>> {
        self.columns@.map_values(|c: Vec<SqlValue>| c@)
    }

    /// The number of rows.
    pub open spec fn height(&self) -> nat {
        if self.cells().len() == 0 {
            0
        } else {
            self.cells()[0].len()
        }
    }

    /// One column of values per name, names distinct, columns equally long.
    pub open spec fn wf(&self) -> bool {
        &&& self.column_names().len() == self.cells().len()
        &&& self.column_names().no_duplicates()
        &&& forall|c: int| 0 <= c < self.cells().len() ==> #[trigger] self.cells()[c].len() == self.height()
    }

    /// The columns that a row must supply: those of the batch, or, while it
    /// has none, those that the row names.
    pub open spec fn row_header(&self, names: Seq<Seq<char>>) -> Seq<Seq<char>> {
        if self.column_names().len() == 0 {
            names
        } else {
            self.column_names()
        }
    }

    /// The columns that a new row extends: the present ones, or empty
    /// columns for a header that the row establishes.
    pub open spec fn base_cells(&self, names: Seq<Seq<char>>) -> Seq<Seq<SqlValue>> {
        if self.column_names().len() == 0 {
            Seq::new(names.len(), |c: int| Seq::<SqlValue>::empty())
        } else {
            self.cells()
        }
    }

    pub fn new() -> (r: SqlMultipleParameters)
        ensures
            r.wf(),
            r.column_names().len() == 0,
            r.cells().len() == 0,
    {
        SqlMultipleParameters { names: Vec::new(), columns: Vec::new() }
    }

    /// Removes every column and row.
    pub fn clear(&mut self)
        ensures
            final(self).wf(),
            final(self).column_names().len() == 0,
            final(self).cells().len() == 0,
    {
        self.names = Vec::new();
        self.columns = Vec::new();
    }

    /// The column names, in column order.
    pub fn header(&self) -> (r: Vec<String>)
        ensures
            texts(r@) == self.column_names(),
    {
        let r = copy_names(&self.names);
        r
    }

    /// The number of columns.
    pub fn len(&self) -> (r: usize)
        ensures
            r == self.column_names().len(),
    {
        self.names.len()
    }

    /// The number of rows.
    pub fn hight(&self) -> (r: usize)
        ensures
            r == self.height(),
    {
        if self.columns.len() == 0 {
            0
        } else {
            self.columns[0].len()
        }
    }

    /// The name of column `c`.
    pub fn column_name(&self, c: usize) -> (r: &String)
        requires
            self.wf(),
            c < self.column_names().len(),
        ensures
            r@ == self.column_names()[c as int],
    {
        &self.names[c]
    }

    /// The value of column `c` in row `row`.
    pub fn cell(&self, c: usize, row: usize) -> (r: &SqlValue)
        requires
            self.wf(),
            c < self.column_names().len(),
            row < self.height(),
        ensures
            *r == self.cells()[c as int][row as int],
    {
        &self.columns[c][row]
    }
}

fn copy_names(v: &Vec<String>) -> (r: Vec<String>)
    ensures
        r@ == v@,
{
    let mut r: Vec<String> = Vec::new();
    let mut k: usize = 0;
    while k < v.len()
        invariant
            k <= v@.len(),
            r@ == v@.take(k as int),
        decreases v@.len() - k,
    {
        r.push(v[k].clone());
        k = k + 1;
        proof {
            assert(r@ =~= v@.take(k as int));
        }
    }
    proof {
        assert(v@.take(k as int) =~= v@);
    }
    r
}

} // verus!

verus! {

impl SqlMultipleParameters {
    /// Adds one row, given as (column name, value) cells. The first row of a
    /// batch without columns establishes them, in the order of its cells.
    /// A row must supply exactly one cell per column; a failing row leaves
    /// the batch as it was.
    pub fn add_line(&mut self, line_data: Vec<(&str, SqlValue)>) -> (r: Result<(), SqlError>)
        requires
            old(self).wf(),
        ensures
            final(self).wf(),
            ({
                let names = row_names(line_data@);
                let header = old(self).row_header(names);
                let base = old(self).base_cells(names);
                &&& names.len() != header.len() ==> r == Err::<(), SqlError>(
                    SqlError::MalformedBatch(
                        BatchFault::WrongWidth { expected: header.len() as usize, got: names.len() as usize },
                    ),
                )
                &&& names.len() == header.len() && first_repeat(names) < names.len() ==> (
                r matches Err(SqlError::MalformedBatch(BatchFault::DuplicateColumn(n))) && n@
                    == names[first_repeat(names)])
                &&& names.len() == header.len() && first_repeat(names) == names.len()
                    && first_missing(header, names) < header.len() ==> (
                r matches Err(SqlError::MalformedBatch(BatchFault::MissingColumn(n))) && n@
                    == header[first_missing(header, names)])
                &&& r is Ok <==> (names.len() == header.len() && first_repeat(names) == names.len()
                    && first_missing(header, names) == header.len())
                &&& r is Err ==> *final(self) == *old(self)
                &&& r is Ok ==> {
                    &&& final(self).column_names() == header
                    &&& final(self).cells().len() == header.len()
                    &&& forall|c: int, j: int|
                        0 <= c < header.len() && 0 <= j < names.len() && names[j] == header[c]
                            ==> #[trigger] final(self).cells()[c] == base[c].push(
                            #[trigger] line_data@[j].1,
                        )
                }
            }),
    {
        let mut cells_in = line_data;
        let ghost line = cells_in@;
        let ghost ns = row_names(line);
        let n = cells_in.len();
        let mut names: Vec<String> = Vec::new();
        let mut i: usize = 0;
        while i < n
            invariant
                n == line.len(),
                cells_in@ == line,
                ns == row_names(line),
                i <= n,
                texts(names@) == ns.take(i as int),
            decreases n - i,
        {
            let t = cells_in[i].0.to_owned();
            let ghost before = texts(names@);
            names.push(t);
            proof {
                assert(texts(names@) =~= before.push(ns[i as int]));
                assert(ns.take(i + 1) =~= ns.take(i as int).push(ns[i as int]));
            }
            i = i + 1;
        }
        proof {
            assert(ns.take(n as int) =~= ns);
        }
        let first = self.names.len() == 0;
        let ghost header = self.row_header(ns);
        let width = if first {
            n
        } else {
            self.names.len()
        };
        if n != width {
            return Err(SqlError::MalformedBatch(BatchFault::WrongWidth { expected: width, got: n }));
        }
        let rep = first_repeat_exec(&names);
        if rep < n {
            return Err(SqlError::MalformedBatch(BatchFault::DuplicateColumn(names[rep].clone())));
        }
        proof {
            lemma_first_repeat_from(ns, 0);
            lemma_no_repeat_distinct(ns);
            lemma_first_missing_from(header, ns, 0);
        }
        // for each column, the cell that supplies it
        let mut source: Vec<usize> = Vec::new();
        let mut c: usize = 0;
        while c < n
            invariant
                *self == *old(self),
                old(self).wf(),
                cells_in@ == line,
                line == line_data@,
                ns == row_names(line),
                first_repeat(ns) == ns.len(),
                n == ns.len(),
                n == header.len(),
                texts(names@) == ns,
                first ==> header == ns,
                !first ==> header == texts(self.names@),
                first == (self.names@.len() == 0),
                c <= n,
                source@.len() == c,
                first_missing_from(header, ns, c as int) == first_missing(header, ns),
                forall|k: int| 0 <= k < c ==> #[trigger] source@[k] < n && ns[source@[k] as int] == header[k],
            decreases n - c,
        {
            let found = if first {
                position(&names, &names[c])
            } else {
                position(&names, &self.names[c])
            };
            match found {
                Some(j) => {
                    source.push(j);
                },
                None => {
                    proof {
                        lemma_first_missing_from(header, ns, c as int);
                    }
                    let missing = if first {
                        names[c].clone()
                    } else {
                        self.names[c].clone()
                    };
                    return Err(SqlError::MalformedBatch(BatchFault::MissingColumn(missing)));
                },
            }
            c = c + 1;
        }
        proof {
            lemma_first_missing_from(header, ns, n as int);
        }
        let ghost base = self.base_cells(ns);
        let ghost base_height: nat = if first { 0 } else { old(self).height() };
        if first {
            self.names = names;
            let mut cols: Vec<Vec<SqlValue>> = Vec::new();
            let mut k: usize = 0;
            while k < n
                invariant
                    k <= n,
                    cols@.len() == k,
                    forall|m: int| 0 <= m < k ==> #[trigger] cols@[m]@.len() == 0,
                decreases n - k,
            {
                cols.push(Vec::new());
                k = k + 1;
            }
            self.columns = cols;
            proof {
                assert forall|m: int| 0 <= m < n implies #[trigger] self.cells()[m] == base[m] by {
                    assert(cols@[m]@ =~= Seq::<SqlValue>::empty());
                }
                assert(self.cells() =~= base);
            }
        }
        proof {
            assert(self.cells() =~= base);
            assert(self.column_names() == header);
        }
        // the values, last cell first
        let mut slots: Vec<Option<SqlValue>> = Vec::new();
        while cells_in.len() > 0
            invariant
                line.len() == n,
                cells_in@.len() + slots@.len() == n,
                cells_in@ == line.take(cells_in@.len() as int),
                forall|k: int| 0 <= k < slots@.len() ==> #[trigger] slots@[k] == Some(line[n - 1 - k].1),
            decreases cells_in@.len(),
        {
            let ghost len = cells_in@.len();
            let ghost before = cells_in@;
            let (_, v) = cells_in.pop().unwrap();
            proof {
                assert(before[len - 1] == line[len - 1]);
                assert(v == line[len - 1].1);
                assert(cells_in@ =~= line.take(cells_in@.len() as int));
            }
            slots.push(Some(v));
        }
        let ghost old_height = self.height();
        let mut c: usize = 0;
        while c < n
            invariant
                n == ns.len(),
                n == header.len(),
                slots@.len() == n,
                source@.len() == n,
                c <= n,
                header.no_duplicates(),
                self.column_names() == header,
                self.cells().len() == n,
                base.len() == n,
                forall|k: int| 0 <= k < n ==> #[trigger] source@[k] < n && ns[source@[k] as int] == header[k],
                forall|k: int| c <= k < n ==> #[trigger] slots@[n - 1 - source@[k]] == Some(line[source@[k] as int].1),
                forall|k: int| 0 <= k < c ==> #[trigger] self.cells()[k] == base[k].push(line[source@[k] as int].1),
                forall|k: int| c <= k < n ==> #[trigger] self.cells()[k] == base[k],
            decreases n - c,
        {
            let j = source[c];
            let v = slots[n - 1 - j].take().unwrap();
            proof {
                assert forall|k: int| c < k < n implies #[trigger] slots@[n - 1 - source@[k]] == Some(line[source@[k] as int].1) by {
                    assert(header[k] != header[c as int]);
                }
            }
            let ghost cells_before = self.cells();
            self.columns[c].push(v);
            proof {
                assert(self.cells() =~= cells_before.update(c as int, cells_before[c as int].push(v)));
            }
            c = c + 1;
        }
        proof {
            assert forall|k: int| 0 <= k < n implies #[trigger] base[k].len() == base_height by {
                if !first {
                    assert(base[k] == old(self).cells()[k]);
                }
            }
            if n > 0 {
                assert(self.height() == base_height + 1);
            }
            assert forall|k: int| 0 <= k < self.cells().len() implies #[trigger] self.cells()[k].len()
                == self.height() by {
                assert(self.cells()[k] == base[k].push(line[source@[k] as int].1));
                assert(self.cells()[0] == base[0].push(line[source@[0] as int].1));
            }
            assert forall|cc: int, j: int|
                0 <= cc < header.len() && 0 <= j < ns.len() && ns[j] == header[cc]
                implies #[trigger] self.cells()[cc] == base[cc].push(#[trigger] line[j].1) by {
                assert(ns[source@[cc] as int] == ns[j]);
            }
        }
        Ok(())
    }
}

} // verus!

verus! {

/// The name under which the cell of column `column`, row `row` is found in
/// the flattened map: `{column}_{row}`.
pub open spec fn cell_key(column: Seq<char>, row: nat) -> Seq<char> {
    column + seq!['_'] + nat_text(row)
}

proof fn lemma_nat_text_digits(n: nat)
    ensures
        nat_text(n).len() >= 1,
        forall|k: int| 0 <= k < nat_text(n).len() ==> #[trigger] nat_text(n)[k] != '_',
    decreases n,
{
    if n >= 10 {
        lemma_nat_text_digits(n / 10);
        assert forall|k: int| 0 <= k < nat_text(n).len() implies #[trigger] nat_text(n)[k] != '_' by {
            if k < nat_text(n / 10).len() {
                assert(nat_text(n)[k] == nat_text(n / 10)[k]);
            }
        }
    }
}

proof fn lemma_nat_text_injective(x: nat, y: nat)
    requires
        nat_text(x) == nat_text(y),
    ensures
        x == y,
    decreases x,
{
    lemma_nat_text_digits(x);
    lemma_nat_text_digits(y);
    let tx = nat_text(x);
    assert(tx.last() == digit_char((x % 10) as int));
    assert(nat_text(y).last() == digit_char((y % 10) as int));
    assert(x % 10 == y % 10);
    if x >= 10 && y >= 10 {
        assert(nat_text(x / 10) == tx.drop_last());
        assert(nat_text(y / 10) == nat_text(y).drop_last());
        lemma_nat_text_injective(x / 10, y / 10);
    } else if x >= 10 {
        lemma_nat_text_digits(x / 10);
    } else if y >= 10 {
        lemma_nat_text_digits(y / 10);
    }
}

/// Different cells have different names in the flattened map.
pub proof fn lemma_cell_key_injective(a: Seq<char>, r1: nat, b: Seq<char>, r2: nat)
    requires
        cell_key(a, r1) == cell_key(b, r2),
    ensures
        a == b,
        r1 == r2,
{
    let k = cell_key(a, r1);
    let d1 = nat_text(r1);
    let d2 = nat_text(r2);
    lemma_nat_text_digits(r1);
    lemma_nat_text_digits(r2);
    if d1.len() < d2.len() {
        let p = k.len() - d1.len() - 1;
        assert(k[p] == '_');
        assert(k[p] == d2[p - b.len() - 1]);
    } else if d2.len() < d1.len() {
        let p = k.len() - d2.len() - 1;
        assert(k[p] == '_');
        assert(k[p] == d1[p - a.len() - 1]);
    } else {
        assert(d1 =~= k.skip(a.len() + 1int));
        assert(d2 =~= k.skip(b.len() + 1int));
        lemma_nat_text_injective(r1, r2);
        assert(a =~= k.take(a.len() as int));
        assert(b =~= k.take(b.len() as int));
    }
}

} // verus!

verus! {

impl SqlSingleParameters {
    /// Adds a name that is not set yet.
    fn push_new(&mut self, key: String, value: SqlValue)
        requires
            value_of(old(self)@, key@) is None,
        ensures
            final(self)@ == old(self)@.push((key@, value)),
    {
        let ghost k = key@;
        self.entries.push((key, value));
        proof {
            assert(self@ =~= old(self)@.push((k, value)));
        }
    }
}

impl SqlMultipleParameters {
    /// Adds a column `name` that holds `value` in every row.
    pub fn add_const_column(&mut self, value: SqlValue, name: &str) -> (r: Result<(), SqlError>)
        requires
            old(self).wf(),
        ensures
            final(self).wf(),
            old(self).column_names().contains(name@) ==> (r matches Err(
                SqlError::MalformedBatch(BatchFault::DuplicateColumn(n)),
            ) && n@ == name@) && *final(self) == *old(self),
            !old(self).column_names().contains(name@) ==> {
                &&& r is Ok
                &&& final(self).column_names() == old(self).column_names().push(name@)
                &&& final(self).cells().len() == old(self).cells().len() + 1
                &&& forall|c: int|
                    0 <= c < old(self).cells().len() ==> #[trigger] final(self).cells()[c]
                        == old(self).cells()[c]
                &&& final(self).cells().last().len() == old(self).height()
                &&& forall|row: int|
                    0 <= row < old(self).height() ==> #[trigger] final(self).cells().last()[row].same(
                        value,
                    )
            },
    {
        let key = name.to_owned();
        if contains_text(&self.names, &key) {
            return Err(SqlError::MalformedBatch(BatchFault::DuplicateColumn(key)));
        }
        let h = self.hight();
        let mut column: Vec<SqlValue> = Vec::new();
        let mut k: usize = 0;
        while k < h
            invariant
                k <= h,
                column@.len() == k,
                forall|row: int| 0 <= row < k ==> #[trigger] column@[row].same(value),
            decreases h - k,
        {
            column.push(value.duplicate());
            k = k + 1;
        }
        let ghost names_before = self.column_names();
        let ghost cells_before = self.cells();
        self.names.push(key);
        self.columns.push(column);
        proof {
            assert(self.column_names() =~= names_before.push(name@));
            assert(self.cells() =~= cells_before.push(column@));
            assert forall|a: int, b: int|
                0 <= a < self.column_names().len() && 0 <= b < self.column_names().len() && a != b
                implies self.column_names()[a] != self.column_names()[b] by {
                if a == names_before.len() {
                    assert(names_before[b] == self.column_names()[b]);
                    if names_before[b] == name@ {
                        assert(names_before.contains(name@));
                    }
                } else if b == names_before.len() {
                    assert(names_before[a] == self.column_names()[a]);
                    if names_before[a] == name@ {
                        assert(names_before.contains(name@));
                    }
                }
            }
            if cells_before.len() > 0 {
                assert(self.cells()[0] == cells_before[0]);
            }
        }
        Ok(())
    }

    /// The value of column `column_name` in row `line_idx`.
    pub fn get_value(&self, column_name: &str, line_idx: usize) -> (r: Result<&SqlValue, SqlError>)
        requires
            self.wf(),
        ensures
            !self.column_names().contains(column_name@) ==> (r matches Err(
                SqlError::MalformedBatch(BatchFault::UnknownColumn(n)),
            ) && n@ == column_name@),
            self.column_names().contains(column_name@) && line_idx >= self.height() ==> r == Err::<
                &SqlValue,
                SqlError,
            >(SqlError::MalformedBatch(BatchFault::NoSuchRow(line_idx))),
            self.column_names().contains(column_name@) && line_idx < self.height() ==> r is Ok,
            r matches Ok(v) ==> line_idx < self.height() && exists|c: int|
                0 <= c < self.column_names().len() && self.column_names()[c] == column_name@
                    && *v == self.cells()[c][line_idx as int],
    {
        let key = column_name.to_owned();
        match position(&self.names, &key) {
            None => Err(SqlError::MalformedBatch(BatchFault::UnknownColumn(key))),
            Some(c) => {
                if line_idx >= self.hight() {
                    return Err(SqlError::MalformedBatch(BatchFault::NoSuchRow(line_idx)));
                }
                proof {
                    assert(self.cells()[c as int].len() == self.height());
                    assert(self.column_names()[c as int] == column_name@);
                }
                Ok(&self.columns[c][line_idx])
            },
        }
    }

    /// Flattens the batch into one value per name, the cell of column `c` in
    /// row `i` named `{c}_{i}`, as the tags of an insert built from it read.
    pub fn to_single(self) -> (r: SqlSingleParameters)
        requires
            self.wf(),
        ensures
            forall|c: int, row: int|
                0 <= c < self.column_names().len() && 0 <= row < self.height() ==> #[trigger] value_of(
                    r@,
                    cell_key(self.column_names()[c], row as nat),
                ) == Some(self.cells()[c][row]),
            forall|k: int|
                #![trigger r@[k]]
                0 <= k < r@.len() ==> exists|c: int, row: int|
                    0 <= c < self.column_names().len() && 0 <= row < self.height() && r@[k].0
                        == #[trigger] cell_key(self.column_names()[c], row as nat),
            r@.len() == self.column_names().len() * self.height(),
    {
        let ghost names = self.column_names();
        let ghost cells = self.cells();
        let ghost h = self.height();
        let SqlMultipleParameters { names: col_names, columns: mut cols } = self;
        let mut single = SqlSingleParameters::new();
        let n = cols.len();
        // columns are taken from the last one on, each from its last row on
        let mut c = n;
        while c > 0
            invariant
                c <= n,
                n == names.len(),
                n == cells.len(),
                texts(col_names@) == names,
                names.no_duplicates(),
                cols@.len() == c,
                single@.len() == (n - c) * h,
                forall|m: int| 0 <= m < c ==> #[trigger] cols@[m]@ == cells[m],
                forall|m: int| 0 <= m < n ==> #[trigger] cells[m].len() == h,
                forall|m: int, row: int|
                    c <= m < n && 0 <= row < h ==> #[trigger] value_of(
                        single@,
                        cell_key(names[m], row as nat),
                    ) == Some(cells[m][row]),
                forall|m: int, row: int|
                    0 <= m < c && 0 <= row < h ==> #[trigger] value_of(
                        single@,
                        cell_key(names[m], row as nat),
                    ) is None,
                forall|k: int|
                    #![trigger single@[k]]
                    0 <= k < single@.len() ==> exists|m: int, row: int|
                        c <= m < n && 0 <= row < h && single@[k].0 == #[trigger] cell_key(
                            names[m],
                            row as nat,
                        ),
            decreases c,
        {
            let ghost cols_before = cols@;
            let mut column = cols.pop().unwrap();
            let cm = c - 1;
            proof {
                assert(column@ == cells[cm as int]);
                assert forall|m: int| 0 <= m < cm implies #[trigger] cols@[m]@ == cells[m] by {
                    assert(cols@[m] == cols_before[m]);
                }
                assert(cells[cm as int].take(h as int) =~= cells[cm as int]);
            }
            let mut row = column.len();
            while row > 0
                invariant
                    c == cm + 1,
                    c <= n,
                    n == names.len(),
                    n == cells.len(),
                    texts(col_names@) == names,
                    names.no_duplicates(),
                    forall|m: int| 0 <= m < n ==> #[trigger] cells[m].len() == h,
                    row <= h,
                    single@.len() == (n - c) * h + (h - row),
                    column@ == cells[cm as int].take(row as int),
                    forall|m: int, r: int|
                        (c <= m < n || (m == cm && row <= r)) && 0 <= r < h ==> #[trigger] value_of(
                            single@,
                            cell_key(names[m], r as nat),
                        ) == Some(cells[m][r]),
                    forall|m: int, r: int|
                        (0 <= m < cm || (m == cm && r < row)) && 0 <= r < h ==> #[trigger] value_of(
                            single@,
                            cell_key(names[m], r as nat),
                        ) is None,
                    forall|k: int|
                        #![trigger single@[k]]
                        0 <= k < single@.len() ==> exists|m: int, r: int|
                            cm <= m < n && 0 <= r < h && single@[k].0 == #[trigger] cell_key(
                                names[m],
                                r as nat,
                            ),
                decreases row,
            {
                let ghost col_before = column@;
                let v = column.pop().unwrap();
                row = row - 1;
                proof {
                    assert(v == cells[cm as int][row as int]);
                    assert(column@ =~= cells[cm as int].take(row as int));
                }
                let mut key = col_names[cm].clone();
                key.push('_');
                push_nat(&mut key, row as u64);
                let ghost kv = key@;
                proof {
                    assert(kv =~= cell_key(names[cm as int], row as nat));
                }
                let ghost before = single@;
                proof {
                    let ri: int = row as int;
                    let mi: int = cm as int;
                    assert((0 <= mi < cm || (mi == cm && ri < row + 1)) && 0 <= ri < h);
                    assert(value_of(single@, cell_key(names[mi], ri as nat)) is None);
                }
                single.push_new(key, v);
                proof {
                    assert forall|m: int, r: int|
                        0 <= m < n && 0 <= r < h && !(m == cm && r == row) implies #[trigger] value_of(
                            single@,
                            cell_key(names[m], r as nat),
                        ) == value_of(before, cell_key(names[m], r as nat)) by {
                        assert(single@.drop_last() =~= before);
                        if cell_key(names[m], r as nat) == kv {
                            lemma_cell_key_injective(names[m], r as nat, names[cm as int], row as nat);
                        }
                    }
                    assert(single@.drop_last() =~= before);
                    assert(value_of(single@, kv) == Some(v));
                    assert forall|k: int|
                        #![trigger single@[k]]
                        0 <= k < single@.len() implies exists|m: int, r: int|
                        cm <= m < n && 0 <= r < h && single@[k].0 == #[trigger] cell_key(
                            names[m],
                            r as nat,
                        ) by {
                        if k == before.len() {
                            assert(single@[k].0 == cell_key(names[cm as int], row as nat));
                        } else {
                            assert(single@[k] == before[k]);
                        }
                    }
                }
            }
            proof {
                assert((n - c) * h + h == (n - cm) * h) by (nonlinear_arith)
                    requires
                        cm + 1 == c,
                ;
            }
            c = cm;
        }
        proof {
            assert((n - 0) * h == n * h);
        }
        single
    }
}

} // verus!
