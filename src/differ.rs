use vstd::prelude::*;
use crate::schema::{Column, ColumnV, EnumDef, EnumV, ForeignKey, ForeignKeyV, Index, IndexV, Schema, SchemaV, Table, TableV, table_names, column_names, enum_names, unique_names};
use crate::step::{Step, StepV};
use crate::text::{views, Duplicate};

verus! {

// ---------------------------------------------------------------------------
// Lookup by name
// ---------------------------------------------------------------------------

/// The first position at or after `i` that holds `name`.
pub open spec fn first_from(keys: Seq<Seq<char>>, name: Seq<char>, i: int) -> Option<int>
    decreases keys.len() - i,
{
    if i < 0 || i >= keys.len() {
        None
    } else if keys[i] == name {
        Some(i)
    } else {
        first_from(keys, name, i + 1)
    }
}

/// The first position that holds `name`.
pub open spec fn lookup(keys: Seq<Seq<char>>, name: Seq<char>) -> Option<int> {
    first_from(keys, name, 0)
}

pub open spec fn find_table(ts: Seq<TableV>, name: Seq<char>) -> Option<TableV> {
    match lookup(table_names(ts), name) {
        Some(i) => Some(ts[i]),
        None => None,
    }
}

pub open spec fn find_column(cs: Seq<ColumnV>, name: Seq<char>) -> Option<ColumnV> {
    match lookup(column_names(cs), name) {
        Some(i) => Some(cs[i]),
        None => None,
    }
}

pub open spec fn find_enum(es: Seq<EnumV>, name: Seq<char>) -> Option<EnumV> {
    match lookup(enum_names(es), name) {
        Some(i) => Some(es[i]),
        None => None,
    }
}

pub proof fn lemma_first_from_unique(keys: Seq<Seq<char>>, k: int, i: int)
    requires
        unique_names(keys),
        0 <= i <= k < keys.len(),
    ensures
        first_from(keys, keys[k], i) == Some(k),
    decreases k - i,
{
    if i < k {
        lemma_first_from_unique(keys, k, i + 1);
    }
}

/// A table's own name finds a table: the first of that name.
pub proof fn lemma_lookup_self(ts: Seq<TableV>, i: int)
    requires
        0 <= i < ts.len(),
    ensures
        find_table(ts, ts[i].name) is Some,
{
    lemma_first_from_found(table_names(ts), ts[i].name, 0, i);
}

proof fn lemma_first_from_found(keys: Seq<Seq<char>>, name: Seq<char>, i: int, k: int)
    requires
        0 <= i <= k < keys.len(),
        keys[k] == name,
    ensures
        first_from(keys, name, i) is Some,
    decreases k - i,
{
    if i < k && keys[i] != name {
        lemma_first_from_found(keys, name, i + 1, k);
    }
}

// ---------------------------------------------------------------------------
// What the diff is
// ---------------------------------------------------------------------------

pub open spec fn added_variant(enum_name: Seq<char>, old: Seq<Seq<char>>) -> spec_fn(Seq<char>) -> Seq<StepV> {
    |v: Seq<char>|
        if old.contains(v) {
            Seq::<StepV>::empty()
        } else {
            seq![StepV::AddEnumVariant { enum_name: enum_name, variant: v }]
        }
}

pub open spec fn removed_variant(enum_name: Seq<char>, new: Seq<Seq<char>>) -> spec_fn(Seq<char>) -> Seq<StepV> {
    |v: Seq<char>|
        if new.contains(v) {
            Seq::<StepV>::empty()
        } else {
            seq![StepV::RemoveEnumVariant { enum_name: enum_name, variant: v }]
        }
}

/// The steps for one enum of the desired schema.
pub open spec fn enum_steps(current: Seq<EnumV>, e: EnumV) -> Seq<StepV> {
    match find_enum(current, e.name) {
        None => seq![StepV::CreateEnum(e)],
        Some(c) => e.variants.flat_map(added_variant(e.name, c.variants))
            + c.variants.flat_map(removed_variant(e.name, e.variants)),
    }
}

pub open spec fn enum_steps_fn(current: Seq<EnumV>) -> spec_fn(EnumV) -> Seq<StepV> {
    |e: EnumV| enum_steps(current, e)
}

pub open spec fn dropped_enum_fn(desired: Seq<EnumV>) -> spec_fn(EnumV) -> Seq<StepV> {
    |c: EnumV|
        if find_enum(desired, c.name) is None {
            seq![StepV::DropEnum(c.name)]
        } else {
            Seq::<StepV>::empty()
        }
}

pub open spec fn column_change_fn(table: Seq<char>, old: Seq<ColumnV>) -> spec_fn(ColumnV) -> Seq<StepV> {
    |col: ColumnV|
        match find_column(old, col.name) {
            None => seq![StepV::AddColumn { table: table, column: col }],
            Some(prev) => if prev == col {
                Seq::<StepV>::empty()
            } else {
                seq![StepV::AlterColumn { table: table, previous: prev, next: col }]
            },
        }
}

pub open spec fn dropped_column_fn(table: Seq<char>, new: Seq<ColumnV>) -> spec_fn(ColumnV) -> Seq<StepV> {
    |col: ColumnV|
        if find_column(new, col.name) is None {
            seq![StepV::DropColumn { table: table, column: col.name }]
        } else {
            Seq::<StepV>::empty()
        }
}

pub open spec fn added_fk_fn(table: Seq<char>, old: Seq<ForeignKeyV>) -> spec_fn(ForeignKeyV) -> Seq<StepV> {
    |fk: ForeignKeyV|
        if old.contains(fk) {
            Seq::<StepV>::empty()
        } else {
            seq![StepV::AddForeignKey { table: table, foreign_key: fk }]
        }
}

pub open spec fn dropped_fk_fn(table: Seq<char>, new: Seq<ForeignKeyV>) -> spec_fn(ForeignKeyV) -> Seq<StepV> {
    |fk: ForeignKeyV|
        if new.contains(fk) {
            Seq::<StepV>::empty()
        } else {
            seq![StepV::DropForeignKey { table: table, foreign_key: fk }]
        }
}

pub open spec fn added_index_fn(table: Seq<char>, old: Seq<IndexV>) -> spec_fn(IndexV) -> Seq<StepV> {
    |ix: IndexV|
        if old.contains(ix) {
            Seq::<StepV>::empty()
        } else {
            seq![StepV::CreateIndex { table: table, index: ix }]
        }
}

pub open spec fn dropped_index_fn(table: Seq<char>, new: Seq<IndexV>) -> spec_fn(IndexV) -> Seq<StepV> {
    |ix: IndexV|
        if new.contains(ix) {
            Seq::<StepV>::empty()
        } else {
            seq![StepV::DropIndex { table: table, index: ix }]
        }
}

/// The steps that turn table `c` into table `t`, which share a name.
pub open spec fn changed_table(c: TableV, t: TableV) -> Seq<StepV> {
    t.columns.flat_map(column_change_fn(t.name, c.columns))
        + c.columns.flat_map(dropped_column_fn(t.name, t.columns))
        + t.foreign_keys.flat_map(added_fk_fn(t.name, c.foreign_keys))
        + c.foreign_keys.flat_map(dropped_fk_fn(t.name, t.foreign_keys))
        + t.indexes.flat_map(added_index_fn(t.name, c.indexes))
        + c.indexes.flat_map(dropped_index_fn(t.name, t.indexes))
}

/// The steps for one table of the desired schema. A new table is created whole,
/// and its foreign keys are added by steps of their own, so that every table
/// they reference can be created first.
pub open spec fn table_steps(current: Seq<TableV>, t: TableV) -> Seq<StepV> {
    match find_table(current, t.name) {
        None => seq![StepV::CreateTable(t)]
            + t.foreign_keys.flat_map(added_fk_fn(t.name, Seq::<ForeignKeyV>::empty())),
        Some(c) => changed_table(c, t),
    }
}

pub open spec fn table_steps_fn(current: Seq<TableV>) -> spec_fn(TableV) -> Seq<StepV> {
    |t: TableV| table_steps(current, t)
}

pub open spec fn dropped_table_fn(desired: Seq<TableV>) -> spec_fn(TableV) -> Seq<StepV> {
    |c: TableV|
        if find_table(desired, c.name) is None {
            seq![StepV::DropTable(c.name)]
        } else {
            Seq::<StepV>::empty()
        }
}

/// The unordered steps that turn `current` into `desired`: enum steps, dropped
/// enums, table steps, dropped tables, each in the order of its schema.
pub open spec fn diff_spec(current: SchemaV, desired: SchemaV) -> Seq<StepV> {
    desired.enums.flat_map(enum_steps_fn(current.enums))
        + current.enums.flat_map(dropped_enum_fn(desired.enums))
        + desired.tables.flat_map(table_steps_fn(current.tables))
        + current.tables.flat_map(dropped_table_fn(desired.tables))
}

// ---------------------------------------------------------------------------
// Proof helpers
// ---------------------------------------------------------------------------

pub proof fn lemma_views_concat(a: Seq<Step>, b: Seq<Step>)
    ensures
        views(a + b) == views(a) + views(b),
{
    assert(views(a + b) =~= views(a) + views(b));
}

pub proof fn lemma_flat_map_step<A>(s: Seq<A>, f: spec_fn(A) -> Seq<StepV>, i: int)
    requires
        0 <= i < s.len(),
    ensures
        s.subrange(0, i + 1).flat_map(f) == s.subrange(0, i).flat_map(f) + f(s[i]),
{
    assert(s.subrange(0, i + 1) =~= s.subrange(0, i).push(s[i]));
    s.subrange(0, i).lemma_flat_map_push(f, s[i]);
}

/// Where `f` gives nothing for any item, the flat map is empty.
pub proof fn lemma_flat_map_nothing<A>(s: Seq<A>, f: spec_fn(A) -> Seq<StepV>)
    requires
        forall|i: int| 0 <= i < s.len() ==> (#[trigger] f(s[i])).len() == 0,
    ensures
        s.flat_map(f).len() == 0,
    decreases s.len(),
{
    if s.len() > 0 {
        let p = s.drop_last();
        assert(forall|i: int| 0 <= i < p.len() ==> p[i] == s[i]);
        lemma_flat_map_nothing(p, f);
        assert(s =~= p.push(s.last()));
        p.lemma_flat_map_push(f, s.last());
    }
}

/// Where every item's steps satisfy `p`, every step of the flat map does.
pub proof fn lemma_flat_map_all<A>(s: Seq<A>, f: spec_fn(A) -> Seq<StepV>, p: spec_fn(StepV) -> bool)
    requires
        forall|i: int, k: int| 0 <= i < s.len() && 0 <= k < f(s[i]).len() ==> #[trigger] p(f(s[i])[k]),
    ensures
        forall|k: int| 0 <= k < s.flat_map(f).len() ==> #[trigger] p(s.flat_map(f)[k]),
    decreases s.len(),
{
    if s.len() > 0 {
        let q = s.drop_last();
        assert forall|i: int, k: int| 0 <= i < q.len() && 0 <= k < f(q[i]).len() implies #[trigger] p(f(q[i])[k]) by {
            assert(q[i] == s[i]);
        }
        lemma_flat_map_all(q, f, p);
        assert(s =~= q.push(s.last()));
        q.lemma_flat_map_push(f, s.last());
        let last = f(s.last());
        assert forall|k: int| 0 <= k < s.flat_map(f).len() implies #[trigger] p(s.flat_map(f)[k]) by {
            if k >= q.flat_map(f).len() {
                let m = k - q.flat_map(f).len();
                assert(p(f(s[s.len() - 1])[m]));
            }
        }
    }
}

pub(crate) fn append_steps(out: &mut Vec<Step>, part: Vec<Step>)
    ensures
        views(final(out)@) == views(old(out)@) + views(part@),
{
    let mut part = part;
    proof { lemma_views_concat(out@, part@); }
    out.append(&mut part);
}

pub(crate) fn single(s: Step) -> (r: Vec<Step>)
    ensures
        views(r@) == seq![s@],
{
    let r = vec![s];
    assert(views(r@) =~= seq![s@]);
    r
}

// ---------------------------------------------------------------------------
// Lookups
// ---------------------------------------------------------------------------

pub(crate) fn lookup_table(ts: &Vec<Table>, name: &String) -> (r: Option<usize>)
    ensures
        match r {
            Some(i) => i < ts@.len() && lookup(table_names(views(ts@)), name@) == Some(i as int),
            None => lookup(table_names(views(ts@)), name@) is None,
        },
{
    let ghost keys = table_names(views(ts@));
    let mut i: usize = 0;
    while i < ts.len()
        invariant
            i <= ts.len(),
            keys == table_names(views(ts@)),
            keys.len() == ts@.len(),
            first_from(keys, name@, 0) == first_from(keys, name@, i as int),
        decreases ts.len() - i,
    {
        assert(keys[i as int] == ts@[i as int].name@);
        if ts[i].name == *name {
            return Some(i);
        }
        i += 1;
    }
    None
}

fn lookup_column(cs: &Vec<Column>, name: &String) -> (r: Option<usize>)
    ensures
        match r {
            Some(i) => i < cs@.len() && lookup(column_names(views(cs@)), name@) == Some(i as int),
            None => lookup(column_names(views(cs@)), name@) is None,
        },
{
    let ghost keys = column_names(views(cs@));
    let mut i: usize = 0;
    while i < cs.len()
        invariant
            i <= cs.len(),
            keys == column_names(views(cs@)),
            keys.len() == cs@.len(),
            first_from(keys, name@, 0) == first_from(keys, name@, i as int),
        decreases cs.len() - i,
    {
        assert(keys[i as int] == cs@[i as int].name@);
        if cs[i].name == *name {
            return Some(i);
        }
        i += 1;
    }
    None
}

pub(crate) fn lookup_enum(es: &Vec<EnumDef>, name: &String) -> (r: Option<usize>)
    ensures
        match r {
            Some(i) => i < es@.len() && lookup(enum_names(views(es@)), name@) == Some(i as int),
            None => lookup(enum_names(views(es@)), name@) is None,
        },
{
    let ghost keys = enum_names(views(es@));
    let mut i: usize = 0;
    while i < es.len()
        invariant
            i <= es.len(),
            keys == enum_names(views(es@)),
            keys.len() == es@.len(),
            first_from(keys, name@, 0) == first_from(keys, name@, i as int),
        decreases es.len() - i,
    {
        assert(keys[i as int] == es@[i as int].name@);
        if es[i].name == *name {
            return Some(i);
        }
        i += 1;
    }
    None
}

fn contains_name(vs: &Vec<String>, v: &String) -> (r: bool)
    ensures
        r == views(vs@).contains(v@),
{
    let mut i: usize = 0;
    while i < vs.len()
        invariant
            i <= vs.len(),
            forall|j: int| 0 <= j < i ==> vs@[j]@ != v@,
        decreases vs.len() - i,
    {
        if vs[i] == *v {
            assert(views(vs@)[i as int] == v@);
            return true;
        }
        i += 1;
    }
    false
}

fn contains_fk(fks: &Vec<ForeignKey>, fk: &ForeignKey) -> (r: bool)
    ensures
        r == views(fks@).contains(fk@),
{
    let mut i: usize = 0;
    while i < fks.len()
        invariant
            i <= fks.len(),
            forall|j: int| 0 <= j < i ==> fks@[j]@ != fk@,
        decreases fks.len() - i,
    {
        if fks[i].same_as(fk) {
            assert(views(fks@)[i as int] == fk@);
            return true;
        }
        i += 1;
    }
    false
}

fn contains_index(ixs: &Vec<Index>, ix: &Index) -> (r: bool)
    ensures
        r == views(ixs@).contains(ix@),
{
    let mut i: usize = 0;
    while i < ixs.len()
        invariant
            i <= ixs.len(),
            forall|j: int| 0 <= j < i ==> ixs@[j]@ != ix@,
        decreases ixs.len() - i,
    {
        if ixs[i].same_as(ix) {
            assert(views(ixs@)[i as int] == ix@);
            return true;
        }
        i += 1;
    }
    false
}

// ---------------------------------------------------------------------------
// The diff
// ---------------------------------------------------------------------------

fn enum_changes(e: &EnumDef, c: &EnumDef) -> (r: Vec<Step>)
    ensures
        views(r@) == views(e.variants@).flat_map(added_variant(e.name@, views(c.variants@)))
            + views(c.variants@).flat_map(removed_variant(e.name@, views(e.variants@))),
{
    let ghost fa = added_variant(e.name@, views(c.variants@));
    let ghost fr = removed_variant(e.name@, views(e.variants@));
    let ghost ev = views(e.variants@);
    let ghost cv = views(c.variants@);
    let mut out: Vec<Step> = Vec::new();
    let mut i: usize = 0;
    while i < e.variants.len()
        invariant
            fa == added_variant(e.name@, views(c.variants@)),
            fr == removed_variant(e.name@, views(e.variants@)),
            ev == views(e.variants@),
            cv == views(c.variants@),
            i <= e.variants.len(),
            ev == views(e.variants@),
            views(out@) == ev.subrange(0, i as int).flat_map(fa),
        decreases e.variants.len() - i,
    {
        proof { lemma_flat_map_step(ev, fa, i as int); }
        if !contains_name(&c.variants, &e.variants[i]) {
            append_steps(&mut out, single(Step::AddEnumVariant {
                enum_name: e.name.clone(),
                variant: e.variants[i].clone(),
            }));
        }
        assert(views(out@) =~= ev.subrange(0, i as int + 1).flat_map(fa));
        i += 1;
    }
    assert(ev.subrange(0, ev.len() as int) =~= ev);
    let ghost first = views(out@);
    let mut j: usize = 0;
    while j < c.variants.len()
        invariant
            fa == added_variant(e.name@, views(c.variants@)),
            fr == removed_variant(e.name@, views(e.variants@)),
            ev == views(e.variants@),
            cv == views(c.variants@),
            j <= c.variants.len(),
            cv == views(c.variants@),
            views(out@) == first + cv.subrange(0, j as int).flat_map(fr),
        decreases c.variants.len() - j,
    {
        proof { lemma_flat_map_step(cv, fr, j as int); }
        if !contains_name(&e.variants, &c.variants[j]) {
            append_steps(&mut out, single(Step::RemoveEnumVariant {
                enum_name: e.name.clone(),
                variant: c.variants[j].clone(),
            }));
        }
        assert(views(out@) =~= first + cv.subrange(0, j as int + 1).flat_map(fr));
        j += 1;
    }
    assert(cv.subrange(0, cv.len() as int) =~= cv);
    out
}

fn column_changes(c: &Table, t: &Table) -> (r: Vec<Step>)
    ensures
        views(r@) == views(t.columns@).flat_map(column_change_fn(t.name@, views(c.columns@)))
            + views(c.columns@).flat_map(dropped_column_fn(t.name@, views(t.columns@))),
{
    let ghost fa = column_change_fn(t.name@, views(c.columns@));
    let ghost fd = dropped_column_fn(t.name@, views(t.columns@));
    let ghost tv = views(t.columns@);
    let ghost cv = views(c.columns@);
    let mut out: Vec<Step> = Vec::new();
    let mut i: usize = 0;
    while i < t.columns.len()
        invariant
            fa == column_change_fn(t.name@, views(c.columns@)),
            fd == dropped_column_fn(t.name@, views(t.columns@)),
            tv == views(t.columns@),
            cv == views(c.columns@),
            i <= t.columns.len(),
            tv == views(t.columns@),
            cv == views(c.columns@),
            views(out@) == tv.subrange(0, i as int).flat_map(fa),
        decreases t.columns.len() - i,
    {
        proof { lemma_flat_map_step(tv, fa, i as int); }
        let col = &t.columns[i];
        match lookup_column(&c.columns, &col.name) {
            None => {
                append_steps(&mut out, single(Step::AddColumn {
                    table: t.name.clone(),
                    column: col.duplicate(),
                }));
            },
            Some(k) => {
                let prev = &c.columns[k];
                if !prev.same_as(col) {
                    append_steps(&mut out, single(Step::AlterColumn {
                        table: t.name.clone(),
                        previous: prev.duplicate(),
                        next: col.duplicate(),
                    }));
                }
            },
        }
        assert(views(out@) =~= tv.subrange(0, i as int + 1).flat_map(fa));
        i += 1;
    }
    assert(tv.subrange(0, tv.len() as int) =~= tv);
    let ghost first = views(out@);
    let mut j: usize = 0;
    while j < c.columns.len()
        invariant
            fa == column_change_fn(t.name@, views(c.columns@)),
            fd == dropped_column_fn(t.name@, views(t.columns@)),
            tv == views(t.columns@),
            cv == views(c.columns@),
            j <= c.columns.len(),
            tv == views(t.columns@),
            cv == views(c.columns@),
            views(out@) == first + cv.subrange(0, j as int).flat_map(fd),
        decreases c.columns.len() - j,
    {
        proof { lemma_flat_map_step(cv, fd, j as int); }
        if lookup_column(&t.columns, &c.columns[j].name).is_none() {
            append_steps(&mut out, single(Step::DropColumn {
                table: t.name.clone(),
                column: c.columns[j].name.clone(),
            }));
        }
        assert(views(out@) =~= first + cv.subrange(0, j as int + 1).flat_map(fd));
        j += 1;
    }
    assert(cv.subrange(0, cv.len() as int) =~= cv);
    out
}

fn foreign_key_changes(c: &Table, t: &Table) -> (r: Vec<Step>)
    ensures
        views(r@) == views(t.foreign_keys@).flat_map(added_fk_fn(t.name@, views(c.foreign_keys@)))
            + views(c.foreign_keys@).flat_map(dropped_fk_fn(t.name@, views(t.foreign_keys@))),
{
    let ghost fa = added_fk_fn(t.name@, views(c.foreign_keys@));
    let ghost fd = dropped_fk_fn(t.name@, views(t.foreign_keys@));
    let ghost tv = views(t.foreign_keys@);
    let ghost cv = views(c.foreign_keys@);
    let mut out: Vec<Step> = Vec::new();
    let mut i: usize = 0;
    while i < t.foreign_keys.len()
        invariant
            fa == added_fk_fn(t.name@, views(c.foreign_keys@)),
            fd == dropped_fk_fn(t.name@, views(t.foreign_keys@)),
            tv == views(t.foreign_keys@),
            cv == views(c.foreign_keys@),
            i <= t.foreign_keys.len(),
            tv == views(t.foreign_keys@),
            views(out@) == tv.subrange(0, i as int).flat_map(fa),
        decreases t.foreign_keys.len() - i,
    {
        proof { lemma_flat_map_step(tv, fa, i as int); }
        if !contains_fk(&c.foreign_keys, &t.foreign_keys[i]) {
            append_steps(&mut out, single(Step::AddForeignKey {
                table: t.name.clone(),
                foreign_key: t.foreign_keys[i].duplicate(),
            }));
        }
        assert(views(out@) =~= tv.subrange(0, i as int + 1).flat_map(fa));
        i += 1;
    }
    assert(tv.subrange(0, tv.len() as int) =~= tv);
    let ghost first = views(out@);
    let mut j: usize = 0;
    while j < c.foreign_keys.len()
        invariant
            fa == added_fk_fn(t.name@, views(c.foreign_keys@)),
            fd == dropped_fk_fn(t.name@, views(t.foreign_keys@)),
            tv == views(t.foreign_keys@),
            cv == views(c.foreign_keys@),
            j <= c.foreign_keys.len(),
            cv == views(c.foreign_keys@),
            views(out@) == first + cv.subrange(0, j as int).flat_map(fd),
        decreases c.foreign_keys.len() - j,
    {
        proof { lemma_flat_map_step(cv, fd, j as int); }
        if !contains_fk(&t.foreign_keys, &c.foreign_keys[j]) {
            append_steps(&mut out, single(Step::DropForeignKey {
                table: t.name.clone(),
                foreign_key: c.foreign_keys[j].duplicate(),
            }));
        }
        assert(views(out@) =~= first + cv.subrange(0, j as int + 1).flat_map(fd));
        j += 1;
    }
    assert(cv.subrange(0, cv.len() as int) =~= cv);
    out
}

fn index_changes(c: &Table, t: &Table) -> (r: Vec<Step>)
    ensures
        views(r@) == views(t.indexes@).flat_map(added_index_fn(t.name@, views(c.indexes@)))
            + views(c.indexes@).flat_map(dropped_index_fn(t.name@, views(t.indexes@))),
{
    let ghost fa = added_index_fn(t.name@, views(c.indexes@));
    let ghost fd = dropped_index_fn(t.name@, views(t.indexes@));
    let ghost tv = views(t.indexes@);
    let ghost cv = views(c.indexes@);
    let mut out: Vec<Step> = Vec::new();
    let mut i: usize = 0;
    while i < t.indexes.len()
        invariant
            fa == added_index_fn(t.name@, views(c.indexes@)),
            fd == dropped_index_fn(t.name@, views(t.indexes@)),
            tv == views(t.indexes@),
            cv == views(c.indexes@),
            i <= t.indexes.len(),
            tv == views(t.indexes@),
            views(out@) == tv.subrange(0, i as int).flat_map(fa),
        decreases t.indexes.len() - i,
    {
        proof { lemma_flat_map_step(tv, fa, i as int); }
        if !contains_index(&c.indexes, &t.indexes[i]) {
            append_steps(&mut out, single(Step::CreateIndex {
                table: t.name.clone(),
                index: t.indexes[i].duplicate(),
            }));
        }
        assert(views(out@) =~= tv.subrange(0, i as int + 1).flat_map(fa));
        i += 1;
    }
    assert(tv.subrange(0, tv.len() as int) =~= tv);
    let ghost first = views(out@);
    let mut j: usize = 0;
    while j < c.indexes.len()
        invariant
            fa == added_index_fn(t.name@, views(c.indexes@)),
            fd == dropped_index_fn(t.name@, views(t.indexes@)),
            tv == views(t.indexes@),
            cv == views(c.indexes@),
            j <= c.indexes.len(),
            cv == views(c.indexes@),
            views(out@) == first + cv.subrange(0, j as int).flat_map(fd),
        decreases c.indexes.len() - j,
    {
        proof { lemma_flat_map_step(cv, fd, j as int); }
        if !contains_index(&t.indexes, &c.indexes[j]) {
            append_steps(&mut out, single(Step::DropIndex {
                table: t.name.clone(),
                index: c.indexes[j].duplicate(),
            }));
        }
        assert(views(out@) =~= first + cv.subrange(0, j as int + 1).flat_map(fd));
        j += 1;
    }
    assert(cv.subrange(0, cv.len() as int) =~= cv);
    out
}

fn new_table_foreign_keys(t: &Table) -> (r: Vec<Step>)
    ensures
        views(r@) == views(t.foreign_keys@).flat_map(added_fk_fn(t.name@, Seq::<ForeignKeyV>::empty())),
{
    let ghost fa = added_fk_fn(t.name@, Seq::<ForeignKeyV>::empty());
    let ghost tv = views(t.foreign_keys@);
    let mut out: Vec<Step> = Vec::new();
    let mut i: usize = 0;
    while i < t.foreign_keys.len()
        invariant
            i <= t.foreign_keys.len(),
            fa == added_fk_fn(t.name@, Seq::<ForeignKeyV>::empty()),
            tv == views(t.foreign_keys@),
            views(out@) == tv.subrange(0, i as int).flat_map(fa),
        decreases t.foreign_keys.len() - i,
    {
        proof { lemma_flat_map_step(tv, fa, i as int); }
        append_steps(&mut out, single(Step::AddForeignKey {
            table: t.name.clone(),
            foreign_key: t.foreign_keys[i].duplicate(),
        }));
        assert(views(out@) =~= tv.subrange(0, i as int + 1).flat_map(fa));
        i += 1;
    }
    assert(tv.subrange(0, tv.len() as int) =~= tv);
    out
}

fn table_changes(c: &Table, t: &Table) -> (r: Vec<Step>)
    ensures
        views(r@) == changed_table(c@, t@),
{
    let mut out = column_changes(c, t);
    let ghost a = views(out@);
    append_steps(&mut out, foreign_key_changes(c, t));
    let ghost b = views(out@);
    append_steps(&mut out, index_changes(c, t));
    assert(views(out@) =~= changed_table(c@, t@));
    out
}

/// The unordered steps that turn `current` into `desired`.
///
/// Tables and enums are matched by name, so a rename shows as a drop and an
/// add. A table that is new is created whole, with no separate column steps.
/// Each variant added to or removed from an enum is a step of its own.
pub fn diff(current: &Schema, desired: &Schema) -> (r: Vec<Step>)
    ensures
        views(r@) == diff_spec(current@, desired@),
{
    let ghost fe = enum_steps_fn(current@.enums);
    let ghost fde = dropped_enum_fn(desired@.enums);
    let ghost ft = table_steps_fn(current@.tables);
    let ghost fdt = dropped_table_fn(desired@.tables);
    let ghost de = desired@.enums;
    let ghost ce = current@.enums;
    let ghost dt = desired@.tables;
    let ghost ct = current@.tables;
    let mut out: Vec<Step> = Vec::new();

    let mut i: usize = 0;
    while i < desired.enums.len()
        invariant
            i <= desired.enums.len(),
            fe == enum_steps_fn(current@.enums),
            de == desired@.enums,
            views(out@) == de.subrange(0, i as int).flat_map(fe),
        decreases desired.enums.len() - i,
    {
        proof { lemma_flat_map_step(de, fe, i as int); }
        let e = &desired.enums[i];
        match lookup_enum(&current.enums, &e.name) {
            None => {
                append_steps(&mut out, single(Step::CreateEnum(e.duplicate())));
            },
            Some(k) => {
                append_steps(&mut out, enum_changes(e, &current.enums[k]));
            },
        }
        assert(views(out@) =~= de.subrange(0, i as int + 1).flat_map(fe));
        i += 1;
    }
    assert(de.subrange(0, de.len() as int) =~= de);
    let ghost p1 = views(out@);

    let mut i: usize = 0;
    while i < current.enums.len()
        invariant
            i <= current.enums.len(),
            fde == dropped_enum_fn(desired@.enums),
            ce == current@.enums,
            views(out@) == p1 + ce.subrange(0, i as int).flat_map(fde),
        decreases current.enums.len() - i,
    {
        proof { lemma_flat_map_step(ce, fde, i as int); }
        if lookup_enum(&desired.enums, &current.enums[i].name).is_none() {
            append_steps(&mut out, single(Step::DropEnum(current.enums[i].name.clone())));
        }
        assert(views(out@) =~= p1 + ce.subrange(0, i as int + 1).flat_map(fde));
        i += 1;
    }
    assert(ce.subrange(0, ce.len() as int) =~= ce);
    let ghost p2 = views(out@);

    let mut i: usize = 0;
    while i < desired.tables.len()
        invariant
            i <= desired.tables.len(),
            ft == table_steps_fn(current@.tables),
            dt == desired@.tables,
            views(out@) == p2 + dt.subrange(0, i as int).flat_map(ft),
        decreases desired.tables.len() - i,
    {
        proof { lemma_flat_map_step(dt, ft, i as int); }
        let t = &desired.tables[i];
        match lookup_table(&current.tables, &t.name) {
            None => {
                append_steps(&mut out, single(Step::CreateTable(t.duplicate())));
                append_steps(&mut out, new_table_foreign_keys(t));
            },
            Some(k) => {
                append_steps(&mut out, table_changes(&current.tables[k], t));
            },
        }
        assert(views(out@) =~= p2 + dt.subrange(0, i as int + 1).flat_map(ft));
        i += 1;
    }
    assert(dt.subrange(0, dt.len() as int) =~= dt);
    let ghost p3 = views(out@);

    let mut i: usize = 0;
    while i < current.tables.len()
        invariant
            i <= current.tables.len(),
            fdt == dropped_table_fn(desired@.tables),
            ct == current@.tables,
            views(out@) == p3 + ct.subrange(0, i as int).flat_map(fdt),
        decreases current.tables.len() - i,
    {
        proof { lemma_flat_map_step(ct, fdt, i as int); }
        if lookup_table(&desired.tables, &current.tables[i].name).is_none() {
            append_steps(&mut out, single(Step::DropTable(current.tables[i].name.clone())));
        }
        assert(views(out@) =~= p3 + ct.subrange(0, i as int + 1).flat_map(fdt));
        i += 1;
    }
    assert(ct.subrange(0, ct.len() as int) =~= ct);
    assert(views(out@) =~= diff_spec(current@, desired@));
    out
}

} // verus!
