//! Reactions to schema changes.
//!
//! When a table is altered, the stream tables that read it have to start
//! anew; when it is dropped, they are in error.  Either spreads to the stream
//! tables that read those.

use vstd::prelude::*;
use vstd::string::*;

use crate::text;
use crate::text::{list_contains, text_eq};

verus! {

// ── Commands ───────────────────────────────────────────────────────────

/// A command that changed the schema.
#[derive(Debug)]
pub struct DdlCommand {
    pub objid: u32,
    /// What kind of object it was for, such as `table`.
    pub object_type: String,
    /// The words of the command, such as `ALTER TABLE`.
    pub command_tag: String,
    pub schema_name: Option<String>,
    /// The qualified name of the object.
    pub object_identity: Option<String>,
}

/// An object that was dropped.
#[derive(Debug)]
pub struct DroppedObject {
    pub objid: u32,
    pub object_type: String,
    pub schema_name: Option<String>,
    pub object_name: Option<String>,
    pub object_identity: Option<String>,
}

/// What a command calls for.
#[derive(Debug)]
pub enum DdlReaction {
    /// A table with this name was altered: see what reads it.
    AlterTable(String),
    /// A trigger was created: see whether it is on a stream table.
    CreateTrigger,
    Nothing,
}

/// The name of an object, or a word in its place where it has none.
pub open spec fn identity_or(identity: Option<String>, default: Seq<char>) -> Seq<char> {
    match identity {
        Some(s) => s@,
        None => default,
    }
}

/// The name of an object, or a word in its place where it has none.
fn build_identity(identity: &Option<String>, default: &str) -> (r: String)
    ensures
        r@ == identity_or(*identity, default@),
{
    match identity {
        Some(s) => s.clone(),
        None => default.to_string(),
    }
}

/// What a command calls for.  Creating a table calls for nothing: nothing can
/// read it yet.
pub fn handle_ddl_command(cmd: &DdlCommand) -> (r: DdlReaction)
    ensures
        cmd.object_type@ == "table"@ && cmd.command_tag@ == "ALTER TABLE"@ <==> r is AlterTable,
        r is AlterTable ==> r->AlterTable_0@ == identity_or(cmd.object_identity, "unknown"@),
        cmd.object_type@ == "trigger"@ && cmd.command_tag@ == "CREATE TRIGGER"@ <==> r is CreateTrigger,
{
    proof {
        reveal_strlit("table");
        reveal_strlit("trigger");
        assert("table"@.len() == 5 && "trigger"@.len() == 7);
    }
    if text_eq(cmd.object_type.as_str(), "table") && text_eq(
        cmd.command_tag.as_str(),
        "ALTER TABLE",
    ) {
        DdlReaction::AlterTable(build_identity(&cmd.object_identity, "unknown"))
    } else if text_eq(cmd.object_type.as_str(), "trigger") && text_eq(
        cmd.command_tag.as_str(),
        "CREATE TRIGGER",
    ) {
        DdlReaction::CreateTrigger
    } else {
        DdlReaction::Nothing
    }
}

// ── Altered tables ─────────────────────────────────────────────────────

/// What an altered table calls for: the stream tables that have to start anew,
/// those that read it before those further down, and whether the capture of
/// its changes has to be rebuilt.
#[derive(Debug)]
pub struct AlterPlan {
    pub reinitialize: Vec<i64>,
    pub rebuild_capture: bool,
}

/// What an altered table calls for, given the stream tables that read it and
/// those further down.  A table that nothing reads calls for nothing.
pub fn handle_alter_table(affected: &Vec<i64>, cascade: &Vec<i64>) -> (r: AlterPlan)
    ensures
        affected@.len() == 0 ==> r.reinitialize@.len() == 0 && !r.rebuild_capture,
        affected@.len() > 0 ==> r.reinitialize@ == affected@ + cascade@ && r.rebuild_capture,
{
    if affected.len() == 0 {
        AlterPlan { reinitialize: Vec::new(), rebuild_capture: false }
    } else {
        AlterPlan { reinitialize: appended(affected, cascade), rebuild_capture: true }
    }
}

/// One list after another.
fn appended(a: &Vec<i64>, b: &Vec<i64>) -> (r: Vec<i64>)
    ensures
        r@ == a@ + b@,
{
    let mut r: Vec<i64> = Vec::new();
    let mut i: usize = 0;
    while i < a.len()
        invariant
            i <= a.len(),
            r@ == a@.take(i as int),
        decreases a.len() - i,
    {
        r.push(a[i]);
        i += 1;
        assert(a@.take(i as int) =~= a@.take(i - 1).push(a@[i - 1]));
    }
    let mut j: usize = 0;
    assert(r@ =~= a@ + b@.take(0));
    while j < b.len()
        invariant
            j <= b.len(),
            r@ == a@ + b@.take(j as int),
        decreases b.len() - j,
    {
        r.push(b[j]);
        j += 1;
        assert(r@ =~= a@ + b@.take(j as int));
    }
    assert(b@.take(j as int) =~= b@);
    r
}

// ── Triggers on stream tables ──────────────────────────────────────────

/// What is said of a trigger that was created.
#[derive(Debug)]
pub enum TriggerMessage {
    Silent,
    Notice(String),
    Warning(String),
}

/// The warning of a trigger that does not fire during a refresh.
pub open spec fn trigger_warning(identity: Seq<char>) -> Seq<char> {
    "pg_stream: trigger "@ + identity
        + " is on a stream table, but pg_stream.user_triggers = 'off'. This trigger will NOT fire correctly during refresh. Set pg_stream.user_triggers = 'auto' or 'on' to enable trigger support."@
}

/// The notice of a trigger that fires during a refresh.
pub open spec fn trigger_notice(identity: Seq<char>) -> Seq<char> {
    "pg_stream: trigger "@ + identity
        + " is on a stream table. It will fire during DIFFERENTIAL refresh with correct TG_OP/OLD/NEW. Note: row-level triggers do NOT fire during FULL refresh. Use REFRESH MODE DIFFERENTIAL to ensure triggers fire on every change."@
}

/// What is said of a trigger that was created.  One that is not on a stream
/// table, or on no known table, is passed over.
pub fn handle_create_trigger(
    cmd: &DdlCommand,
    on_stream_table: Option<bool>,
    user_triggers: &str,
) -> (r: TriggerMessage)
    ensures
        on_stream_table != Some(true) ==> r is Silent,
        on_stream_table == Some(true) && user_triggers@ == "off"@ ==> r is Warning && r->Warning_0@
            == trigger_warning(identity_or(cmd.object_identity, "(unknown trigger)"@)),
        on_stream_table == Some(true) && user_triggers@ != "off"@ ==> r is Notice && r->Notice_0@
            == trigger_notice(identity_or(cmd.object_identity, "(unknown trigger)"@)),
{
    match on_stream_table {
        Some(true) => {
            let identity = build_identity(&cmd.object_identity, "(unknown trigger)");
            let mut m = "pg_stream: trigger ".to_string();
            m.append(identity.as_str());
            if text_eq(user_triggers, "off") {
                m.append(
                    " is on a stream table, but pg_stream.user_triggers = 'off'. This trigger will NOT fire correctly during refresh. Set pg_stream.user_triggers = 'auto' or 'on' to enable trigger support.",
                );
                TriggerMessage::Warning(m)
            } else {
                m.append(
                    " is on a stream table. It will fire during DIFFERENTIAL refresh with correct TG_OP/OLD/NEW. Note: row-level triggers do NOT fire during FULL refresh. Use REFRESH MODE DIFFERENTIAL to ensure triggers fire on every change.",
                );
                TriggerMessage::Notice(m)
            }
        },
        _ => TriggerMessage::Silent,
    }
}

// ── Dropped tables ─────────────────────────────────────────────────────

/// What a dropped object calls for.
#[derive(Debug)]
pub enum DropReaction {
    /// A storage table is gone: take its stream table out of the catalog.
    RemoveStreamTable,
    /// A source is gone: these stream tables are in error.
    SetError(Vec<i64>),
    Nothing,
}

/// What a dropped object calls for, given whether it was a storage table, the
/// stream tables that read it and those further down.
pub fn handle_dropped_table(
    obj: &DroppedObject,
    is_storage: bool,
    affected: &Vec<i64>,
    cascade: &Vec<i64>,
) -> (r: DropReaction)
    ensures
        obj.object_type@ == "table"@ && is_storage <==> r is RemoveStreamTable,
        obj.object_type@ == "table"@ && !is_storage && affected@.len() > 0 <==> r is SetError,
        r is SetError ==> r->SetError_0@ == affected@ + cascade@,
{
    if !text_eq(obj.object_type.as_str(), "table") {
        DropReaction::Nothing
    } else if is_storage {
        DropReaction::RemoveStreamTable
    } else if affected.len() == 0 {
        DropReaction::Nothing
    } else {
        DropReaction::SetError(appended(affected, cascade))
    }
}

// ── Stream tables further down ─────────────────────────────────────────

/// The storage table of a stream table.
pub open spec fn storage_of(tables: Seq<(i64, u32)>, id: i64) -> Option<u32>
    decreases tables.len(),
{
    if tables.len() == 0 {
        None
    } else if tables.first().0 == id {
        Some(tables.first().1)
    } else {
        storage_of(tables.drop_first(), id)
    }
}

/// Whether one stream table reads the storage table of another.
pub open spec fn reads(tables: Seq<(i64, u32)>, deps: Seq<(u32, i64)>, a: i64, b: i64) -> bool {
    match storage_of(tables, a) {
        Some(relid) => deps.contains((relid, b)),
        None => false,
    }
}

/// Whether each stream table of a sequence reads the one before it.
pub open spec fn is_chain(tables: Seq<(i64, u32)>, deps: Seq<(u32, i64)>, s: Seq<i64>) -> bool {
    forall|i: int| 0 <= i < s.len() - 1 ==> #[trigger] link(tables, deps, s, i)
}

/// Whether a stream table of a sequence reads the one before it.
pub open spec fn link(
    tables: Seq<(i64, u32)>,
    deps: Seq<(u32, i64)>,
    s: Seq<i64>,
    i: int,
) -> bool {
    reads(tables, deps, s[i], s[i + 1])
}

/// Whether a chain leads from one of some stream tables to another.
pub open spec fn derives(
    tables: Seq<(i64, u32)>,
    deps: Seq<(u32, i64)>,
    from: Seq<i64>,
    id: i64,
) -> bool {
    exists|s: Seq<i64>| #[trigger]
        is_chain(tables, deps, s) && s.len() > 0 && from.contains(s.first()) && s.last() == id
}

/// A chain goes on to what reads its end.
proof fn lemma_derives_on(
    tables: Seq<(i64, u32)>,
    deps: Seq<(u32, i64)>,
    from: Seq<i64>,
    a: i64,
    b: i64,
)
    requires
        derives(tables, deps, from, a),
        reads(tables, deps, a, b),
    ensures
        derives(tables, deps, from, b),
{
    let s = choose|s: Seq<i64>| #[trigger]
        is_chain(tables, deps, s) && s.len() > 0 && from.contains(s.first()) && s.last() == a;
    let t = s.push(b);
    assert forall|i: int| 0 <= i < t.len() - 1 implies #[trigger] link(tables, deps, t, i) by {
        if i < s.len() - 1 {
            assert(link(tables, deps, s, i));
        }
    }
    assert(is_chain(tables, deps, t));
    assert(t.first() == s.first());
}

/// What a chain leads to is in every list that holds its start and, with each
/// member, what reads that.
proof fn lemma_closed(
    tables: Seq<(i64, u32)>,
    deps: Seq<(u32, i64)>,
    list: Seq<i64>,
    s: Seq<i64>,
)
    requires
        is_chain(tables, deps, s),
        s.len() > 0,
        list.contains(s.first()),
        forall|a: i64, b: i64| #[trigger]
            reads(tables, deps, a, b) && list.contains(a) ==> list.contains(b),
    ensures
        list.contains(s.last()),
    decreases s.len(),
{
    if s.len() > 1 {
        let t = s.drop_last();
        assert forall|i: int| 0 <= i < t.len() - 1 implies #[trigger] link(tables, deps, t, i) by {
            assert(link(tables, deps, s, i));
        }
        lemma_closed(tables, deps, list, t);
        assert(link(tables, deps, s, s.len() - 2));
    }
}

/// Whether a list holds a number.
fn holds(ids: &Vec<i64>, id: i64) -> (r: bool)
    ensures
        r == ids@.contains(id),
{
    let mut i: usize = 0;
    while i < ids.len()
        invariant
            i <= ids.len(),
            forall|k: int| 0 <= k < i ==> ids@[k] != id,
        decreases ids.len() - i,
    {
        if ids[i] == id {
            return true;
        }
        i += 1;
    }
    false
}

/// The storage table of a stream table.
fn find_storage(tables: &Vec<(i64, u32)>, id: i64) -> (r: Option<u32>)
    ensures
        r == storage_of(tables@, id),
{
    let mut i: usize = 0;
    assert(tables@.skip(0) =~= tables@);
    while i < tables.len()
        invariant
            i <= tables.len(),
            storage_of(tables@, id) == storage_of(tables@.skip(i as int), id),
        decreases tables.len() - i,
    {
        assert(tables@.skip(i as int).drop_first() =~= tables@.skip(i + 1));
        if tables[i].0 == id {
            return Some(tables[i].1);
        }
        i += 1;
    }
    None
}

/// Whether every list entry up to a place has been followed: what reads it is
/// listed.
spec fn followed(
    tables: Seq<(i64, u32)>,
    deps: Seq<(u32, i64)>,
    list: Seq<i64>,
    done: int,
) -> bool {
    forall|k: int, b: i64|
        0 <= k < done && #[trigger] reads(tables, deps, list[k], b) ==> list.contains(b)
}

/// Adds to a list what reads a storage table and is not in it.
fn follow(
    tables: &Vec<(i64, u32)>,
    deps: &Vec<(u32, i64)>,
    initial: &Vec<i64>,
    list: &mut Vec<i64>,
    head: usize,
)
    requires
        head < old(list)@.len(),
        initial@.len() <= old(list)@.len(),
        old(list)@.take(initial@.len() as int) == initial@,
        followed(tables@, deps@, old(list)@, head as int),
        forall|k: int|
            0 <= k < old(list)@.len() ==> derives(
                tables@,
                deps@,
                initial@,
                #[trigger] old(list)@[k],
            ),
        old(list)@.skip(initial@.len() as int).no_duplicates(),
        forall|k: int|
            initial@.len() <= k < old(list)@.len() ==> !initial@.contains(
                #[trigger] old(list)@[k],
            ),
    ensures
        old(list)@.len() <= final(list)@.len(),
        final(list)@.take(initial@.len() as int) == initial@,
        followed(tables@, deps@, final(list)@, head + 1),
        forall|k: int|
            0 <= k < final(list)@.len() ==> derives(
                tables@,
                deps@,
                initial@,
                #[trigger] final(list)@[k],
            ),
        final(list)@.skip(initial@.len() as int).no_duplicates(),
        forall|k: int|
            initial@.len() <= k < final(list)@.len() ==> !initial@.contains(
                #[trigger] final(list)@[k],
            ),
{
    let id = list[head];
    let ghost start = list@;
    let relid = match find_storage(tables, id) {
        Some(r) => r,
        None => {
            return ;
        },
    };
    let mut i: usize = 0;
    while i < deps.len()
        invariant
            i <= deps.len(),
            start.len() <= list@.len(),
            head < start.len(),
            initial@.len() <= start.len(),
            start.take(initial@.len() as int) == initial@,
            list@.take(start.len() as int) == start,
            id == start[head as int],
            storage_of(tables@, id) == Some(relid),
            derives(tables@, deps@, initial@, id),
            forall|k: int| 0 <= k < i && (#[trigger] deps@[k]).0 == relid ==> list@.contains(deps@[k].1),
            forall|k: int|
                0 <= k < list@.len() ==> derives(tables@, deps@, initial@, #[trigger] list@[k]),
            list@.skip(initial@.len() as int).no_duplicates(),
            forall|k: int|
                initial@.len() <= k < list@.len() ==> !initial@.contains(#[trigger] list@[k]),
        decreases deps.len() - i,
    {
        let (source, child) = deps[i];
        let ghost before = list@;
        if source == relid && !holds(list, child) {
            list.push(child);
            proof {
                let n = initial@.len() as int;
                assert(deps@[i as int] == (relid, child));
                assert(deps@.contains((relid, child)));
                lemma_derives_on(tables@, deps@, initial@, id, child);
                assert(list@.take(start.len() as int) =~= start);
                assert forall|k: int| 0 <= k < list@.len() implies derives(
                    tables@,
                    deps@,
                    initial@,
                    #[trigger] list@[k],
                ) by {
                    if k < before.len() {
                        assert(list@[k] == before[k]);
                    }
                }
                assert forall|k: int| n <= k < list@.len() implies !initial@.contains(
                    #[trigger] list@[k],
                ) by {
                    if k < before.len() {
                        assert(list@[k] == before[k]);
                    } else if initial@.contains(child) {
                        let j = initial@.index_of(child);
                        assert(start.take(n)[j] == start[j]);
                        assert(before.take(start.len() as int)[j] == before[j]);
                        assert(before.contains(child));
                    }
                }
                let tail = list@.skip(n);
                let tail0 = before.skip(n);
                assert forall|a: int, b: int|
                    0 <= a < tail.len() && 0 <= b < tail.len() && a != b implies tail[a]
                    != tail[b] by {
                    if a < tail0.len() && b < tail0.len() {
                        assert(tail[a] == tail0[a] && tail[b] == tail0[b]);
                    } else if a < tail0.len() {
                        assert(before[n + a] == tail[a]);
                        assert(tail[b] == child);
                    } else {
                        assert(before[n + b] == tail[b]);
                        assert(tail[a] == child);
                    }
                }
            }
        }
        proof {
            assert forall|k: int|
                0 <= k < i + 1 && (#[trigger] deps@[k]).0 == relid implies list@.contains(
                deps@[k].1,
            ) by {
                if before.contains(deps@[k].1) {
                    assert(list@[before.index_of(deps@[k].1)] == deps@[k].1);
                } else {
                    assert(list@[before.len() as int] == deps@[k].1);
                }
            }
        }
        i += 1;
    }
    proof {
        let n = initial@.len() as int;
        assert(list@.take(n) =~= initial@) by {
            assert(list@.take(start.len() as int).take(n) =~= list@.take(n));
        }
        assert forall|k: int, b: i64|
            0 <= k < head + 1 && #[trigger] reads(tables@, deps@, list@[k], b) implies list@.contains(
            b,
        ) by {
            assert(list@.take(start.len() as int)[k] == list@[k]);
            if k < head {
                assert(reads(tables@, deps@, start[k], b));
                assert(start.contains(b));
                let j = start.index_of(b);
                assert(list@.take(start.len() as int)[j] == list@[j]);
            } else {
                let j = deps@.index_of((relid, b));
                assert(deps@[j].0 == relid);
            }
        }
    }
}

/// The stream tables further down: those that read the storage table of one of
/// some stream tables, those that read theirs, and so on.  The given ones are
/// not among them.
///
/// `tables` holds the storage table of each stream table, `deps` the stream
/// tables that read each table.
pub fn find_transitive_downstream_dts(
    initial_pgs_ids: &Vec<i64>,
    tables: &Vec<(i64, u32)>,
    deps: &Vec<(u32, i64)>,
) -> (r: Vec<i64>)
    ensures
        r@.no_duplicates(),
        forall|id: i64| #[trigger]
            r@.contains(id) <==> derives(tables@, deps@, initial_pgs_ids@, id)
                && !initial_pgs_ids@.contains(id),
{
    let ghost initial = initial_pgs_ids@;
    let nothing: Vec<i64> = Vec::new();
    let mut list: Vec<i64> = appended(initial_pgs_ids, &nothing);
    proof {
        assert(list@ =~= initial);
        assert(list@.take(initial.len() as int) =~= initial);
        assert(list@.skip(initial.len() as int) =~= Seq::empty());
        assert forall|k: int| 0 <= k < list@.len() implies derives(
            tables@,
            deps@,
            initial,
            #[trigger] list@[k],
        ) by {
            let s = seq![list@[k]];
            assert(is_chain(tables@, deps@, s));
            assert(initial.contains(initial[k]));
        }
    }
    let mut head: usize = 0;
    while head < list.len()
        invariant
            head <= list@.len(),
            initial == initial_pgs_ids@,
            initial.len() <= list@.len(),
            list@.take(initial.len() as int) == initial,
            followed(tables@, deps@, list@, head as int),
            forall|k: int|
                0 <= k < list@.len() ==> derives(tables@, deps@, initial, #[trigger] list@[k]),
            list@.skip(initial.len() as int).no_duplicates(),
            forall|k: int|
                initial.len() <= k < list@.len() ==> !initial.contains(#[trigger] list@[k]),
        decreases initial.len() + deps@.len() - head,
    {
        proof {
            lemma_bounded(tables@, deps@, initial, list@);
        }
        follow(tables, deps, initial_pgs_ids, &mut list, head);
        head += 1;
    }
    let mut r: Vec<i64> = Vec::new();
    let mut i: usize = initial_pgs_ids.len();
    assert(r@ =~= list@.subrange(i as int, i as int));
    while i < list.len()
        invariant
            initial.len() <= i <= list@.len(),
            r@ == list@.subrange(initial.len() as int, i as int),
        decreases list@.len() - i,
    {
        r.push(list[i]);
        i += 1;
        assert(r@ =~= list@.subrange(initial.len() as int, i as int));
    }
    proof {
        let n = initial.len() as int;
        assert(r@ =~= list@.skip(n));
        assert forall|a: i64, b: i64| #[trigger]
            reads(tables@, deps@, a, b) && list@.contains(a) implies list@.contains(b) by {
            let k = list@.index_of(a);
            assert(reads(tables@, deps@, list@[k], b));
        }
        assert forall|id: i64| #[trigger] r@.contains(id) <==> derives(
            tables@,
            deps@,
            initial,
            id,
        ) && !initial.contains(id) by {
            if r@.contains(id) {
                let k = r@.index_of(id);
                assert(list@[n + k] == id);
            }
            if derives(tables@, deps@, initial, id) && !initial.contains(id) {
                let s = choose|s: Seq<i64>| #[trigger]
                    is_chain(tables@, deps@, s) && s.len() > 0 && initial.contains(s.first())
                        && s.last() == id;
                let j = initial.index_of(s.first());
                assert(list@.take(n)[j] == list@[j]);
                lemma_closed(tables@, deps@, list@, s);
                let k = list@.index_of(id);
                if k < n {
                    assert(list@.take(n)[k] == initial[k]);
                }
                assert(r@[k - n] == id);
            }
        }
    }
    r
}

/// The list is no longer than what was given and what reads something.
proof fn lemma_bounded(
    tables: Seq<(i64, u32)>,
    deps: Seq<(u32, i64)>,
    initial: Seq<i64>,
    list: Seq<i64>,
)
    requires
        initial.len() <= list.len(),
        forall|k: int|
            0 <= k < list.len() ==> derives(tables, deps, initial, #[trigger] list[k]),
        list.skip(initial.len() as int).no_duplicates(),
        forall|k: int| initial.len() <= k < list.len() ==> !initial.contains(#[trigger] list[k]),
    ensures
        list.len() <= initial.len() + deps.len(),
{
    let tail = list.skip(initial.len() as int);
    let readers = Seq::new(deps.len(), |i: int| deps[i].1);
    assert forall|k: int| 0 <= k < tail.len() implies readers.contains(#[trigger] tail[k]) by {
        let id = list[initial.len() + k];
        let s = choose|s: Seq<i64>| #[trigger]
            is_chain(tables, deps, s) && s.len() > 0 && initial.contains(s.first()) && s.last()
                == id;
        assert(s.len() > 1);
        assert(link(tables, deps, s, s.len() - 2));
        let relid = storage_of(tables, s[s.len() - 2])->0;
        let j = deps.index_of((relid, id));
        assert(readers[j] == id);
    }
    tail.unique_seq_to_set();
    assert forall|x: i64| tail.to_set().contains(x) implies readers.to_set().contains(x) by {
        let k = tail.index_of(x);
        assert(readers.contains(tail[k]));
    }
    vstd::set_lib::lemma_len_subset(tail.to_set(), readers.to_set());
    readers.lemma_cardinality_of_set();
}

// ── Kinds of change ────────────────────────────────────────────────────

/// What a change of a table means for a stream table that reads it.
#[derive(Debug, Clone, Copy, PartialEq, Eq, Structural)]
pub enum SchemaChangeKind {
    /// A column is gone: start anew.
    ColumnChange,
    /// A constraint or an index changed.
    ConstraintChange,
    /// Nothing that matters changed.
    Benign,
}

/// What a change of a table means for a stream table that reads some of its
/// columns: a change of columns if one of them is gone, or if it is not known
/// which it reads.
pub fn detect_schema_change_kind(used: &Vec<String>, existing: &Vec<String>) -> (r:
    SchemaChangeKind)
    ensures
        r == if used@.len() > 0 && forall|i: int|
            0 <= i < used@.len() ==> text::texts(existing@).contains((#[trigger] used@[i])@) {
            SchemaChangeKind::Benign
        } else {
            SchemaChangeKind::ColumnChange
        },
{
    if used.len() == 0 {
        return SchemaChangeKind::ColumnChange;
    }
    let mut i: usize = 0;
    while i < used.len()
        invariant
            i <= used.len(),
            forall|k: int|
                0 <= k < i ==> text::texts(existing@).contains((#[trigger] used@[k])@),
        decreases used.len() - i,
    {
        if !list_contains(existing, used[i].as_str()) {
            assert(!text::texts(existing@).contains(used@[i as int]@));
            return SchemaChangeKind::ColumnChange;
        }
        i += 1;
    }
    SchemaChangeKind::Benign
}

} // verus!
