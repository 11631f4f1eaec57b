//! The background index and constraint builder's work: the primary-key and
//! secondary-index statements, which failures count as already satisfied,
//! and the bounded work queue the builder drains.

use vstd::prelude::*;
use crate::table::Index;
use crate::table::IndexColumn;
use crate::table::PrimaryKey;
use crate::table::TableInfo;
use crate::text::join;
use crate::text::spec_join;

verus! {

/// The clause of one indexed column: quoted name, with its direction when
/// descending.
pub open spec fn spec_index_column(c: IndexColumn) -> Seq<char> {
    "\""@ + c.name@ + "\""@ + (if c.desc {
        " DESC"@
    } else {
        Seq::<char>::empty()
    })
}

/// The creation statement of one secondary index: unique when the source
/// index was, and for permanent tables placed in the dedicated index
/// tablespace without logging.
pub open spec fn spec_create_index(
    schema: Seq<char>,
    table: Seq<char>,
    index: Index,
    temporary: bool,
) -> Seq<char> {
    "create "@ + (if index.unique {
        "unique "@
    } else {
        Seq::<char>::empty()
    }) + "index "@ + schema + "."@ + index.name@ + " on "@ + schema + "."@ + table + "("@
        + spec_join(index.columns@.map_values(|c: IndexColumn| spec_index_column(c)), ","@) + ")"@
        + (if !temporary {
        " tablespace GRAND_INDEX NOLOGGING"@
    } else {
        Seq::<char>::empty()
    })
}

/// Builds the creation statement of one secondary index.
pub fn create_index_sql(schema: &str, table: &str, index: &Index, temporary: bool) -> (r: String)
    ensures
        r@ == spec_create_index(schema@, table@, *index, temporary),
{
    let mut r = String::from_str("create ");
    if index.unique {
        r.append("unique ");
    }
    r.append("index ");
    r.append(schema);
    r.append(".");
    r.append(index.name.as_str());
    r.append(" on ");
    r.append(schema);
    r.append(".");
    r.append(table);
    r.append("(");
    let mut parts: Vec<String> = Vec::new();
    let mut i: usize = 0;
    while i < index.columns.len()
        invariant
            i <= index.columns@.len(),
            parts@.len() == i,
            forall|j: int|
                0 <= j < i ==> (#[trigger] parts@[j])@ == spec_index_column(index.columns@[j]),
        decreases index.columns@.len() - i,
    {
        let c = &index.columns[i];
        let mut s = String::from_str("\"");
        s.append(c.name.as_str());
        s.append("\"");
        if c.desc {
            s.append(" DESC");
        }
        parts.push(s);
        i = i + 1;
    }
    proof {
        assert(parts@.map_values(|s: String| s@) =~= index.columns@.map_values(
            |c: IndexColumn| spec_index_column(c),
        ));
    }
    let cols = join(&parts, ",");
    r.append(cols.as_str());
    r.append(")");
    if !temporary {
        r.append(" tablespace GRAND_INDEX NOLOGGING");
    }
    r
}

/// The statement adding a table's primary key as a unique index-backed
/// constraint in the dedicated index tablespace.
pub open spec fn spec_create_pk(schema: Seq<char>, table: Seq<char>, pk: PrimaryKey) -> Seq<char> {
    "alter table "@ + schema + "."@ + table + " add constraint "@ + pk.name@ + " primary key ("@
        + spec_join(pk.columns@.map_values(|s: String| s@), ","@)
        + ") using index tablespace GRAND_INDEX"@
}

/// Builds the statement adding a table's primary key.
pub fn create_pk_sql(schema: &str, table: &str, pk: &PrimaryKey) -> (r: String)
    ensures
        r@ == spec_create_pk(schema@, table@, *pk),
{
    let mut r = String::from_str("alter table ");
    r.append(schema);
    r.append(".");
    r.append(table);
    r.append(" add constraint ");
    r.append(pk.name.as_str());
    r.append(" primary key (");
    let cols = join(&pk.columns, ",");
    r.append(cols.as_str());
    r.append(") using index tablespace GRAND_INDEX");
    r
}

/// Whether an index-creation failure counts as already satisfied: a key
/// column missing, a constraint name already used, or the object already
/// existing; anything else is reported.
pub fn index_error_tolerated(code: i64) -> (r: bool)
    ensures
        r == (code == 1408 || code == 2264 || code == 955),
{
    code == 1408 || code == 2264 || code == 955
}

/// Whether a primary-key failure means the constraint name is already used
/// by an existing constraint, which is tolerated as already satisfied.
pub fn pk_name_already_used(code: i64) -> (r: bool)
    ensures
        r == (code == 2264),
{
    code == 2264
}

/// The bounded work queue the background builder drains: submissions of
/// (schema, table) pairs, closed by an explicit termination signal sent
/// only after all work is enqueued.
pub struct IndexesService {
    pub queue: Vec<(String, TableInfo)>,
    pub closed: bool,
}

impl IndexesService {
    /// An open queue with nothing submitted.
    pub fn new() -> (s: IndexesService)
        ensures
            s.queue@.len() == 0,
            !s.closed,
    {
        IndexesService { queue: Vec::new(), closed: false }
    }

    /// Submits one table for index and constraint creation; submissions
    /// are only accepted while the queue is open.
    pub fn finalize(&mut self, schema: String, table: TableInfo)
        requires
            !old(self).closed,
        ensures
            final(self).queue@ == old(self).queue@.push((schema, table)),
            !final(self).closed,
    {
        self.queue.push((schema, table));
    }

    /// Sends the termination signal: nothing may be submitted afterwards,
    /// and the worker drains what was enqueued before it stops.
    pub fn quit(&mut self)
        ensures
            final(self).queue@ == old(self).queue@,
            final(self).closed,
    {
        self.closed = true;
    }
}

/// Whether a table's indexes are submitted to the background builder after
/// its transfer: not for an unsupported table, one stored index-organized,
/// or one that already existed.
pub fn should_finalize(unsupported: bool, iot: bool, exists: bool) -> (r: bool)
    ensures
        r == (!unsupported && !iot && !exists),
{
    !unsupported && !iot && !exists
}

} // verus!
