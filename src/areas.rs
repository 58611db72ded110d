//! Areas: creation, activation, and listing in name order.
use vstd::prelude::*;
use vstd::string::StringExecFns;
use crate::db::{find_row, first_pos, has_key, lemma_push_unique, lemma_update_unique, Db};
use crate::error::{CommandError, Entity, Problem};
use crate::ids::new_id;
use crate::model::AreaItem;
use crate::order::lemma_insert_multiset;
use crate::text::{is_blank, lemma_text_lt_irreflexive, lemma_text_lt_transitive, text_less, text_lt, trim_spec, trim_text};

verus! {

/// Where `x` goes in `s`: before the first row whose name sorts after its own.
pub open spec fn name_slot(s: Seq<AreaItem>, x: AreaItem) -> nat
    decreases s.len(),
{
    if s.len() == 0 {
        0
    } else if text_lt(x.name@, s[0].name@) {
        0
    } else {
        1 + name_slot(s.drop_first(), x)
    }
}

/// The rows of `rows` that a listing keeps (all, or the active ones when
/// `only_active`), ordered by name; rows with equal names keep table order.
pub open spec fn areas_by_name(rows: Seq<AreaItem>, only_active: bool) -> Seq<AreaItem>
    decreases rows.len(),
{
    if rows.len() == 0 {
        Seq::empty()
    } else {
        let s = areas_by_name(rows.drop_last(), only_active);
        let x = rows.last();
        if !only_active || x.active {
            s.insert(name_slot(s, x) as int, x)
        } else {
            s
        }
    }
}

/// No row of `s` has a name that sorts before the name of an earlier row.
pub open spec fn sorted_by_name(s: Seq<AreaItem>) -> bool {
    forall|i: int, j: int| 0 <= i < j < s.len() ==> !text_lt(#[trigger] s[j].name@, #[trigger] s[i].name@)
}

/// Rows before the slot of `x` do not sort after it; the row at the slot does.
proof fn lemma_name_slot(s: Seq<AreaItem>, x: AreaItem)
    ensures
        name_slot(s, x) <= s.len(),
        forall|k: int| 0 <= k < name_slot(s, x) ==> !text_lt(x.name@, #[trigger] s[k].name@),
        name_slot(s, x) < s.len() ==> text_lt(x.name@, s[name_slot(s, x) as int].name@),
    decreases s.len(),
{
    if s.len() > 0 && !text_lt(x.name@, s[0].name@) {
        let t = s.drop_first();
        lemma_name_slot(t, x);
        assert forall|k: int| 0 <= k < name_slot(s, x) implies !text_lt(x.name@, #[trigger] s[k].name@) by {
            if k > 0 {
                assert(s[k] == t[k - 1]);
            }
        }
        if name_slot(s, x) < s.len() {
            assert(s[name_slot(s, x) as int] == t[name_slot(t, x) as int]);
        }
    }
}

proof fn lemma_insert_sorted(s: Seq<AreaItem>, x: AreaItem)
    requires
        sorted_by_name(s),
    ensures
        sorted_by_name(s.insert(name_slot(s, x) as int, x)),
{
    lemma_name_slot(s, x);
    let p = name_slot(s, x) as int;
    let u = s.insert(p, x);
    assert forall|i: int, j: int| 0 <= i < j < u.len() implies !text_lt(#[trigger] u[j].name@, #[trigger] u[i].name@) by {
        if i == p {
            assert(u[j] == s[j - 1]);
            if text_lt(s[j - 1].name@, x.name@) {
                lemma_text_lt_transitive(s[j - 1].name@, x.name@, s[p].name@);
                if p < j - 1 {
                    assert(!text_lt(s[j - 1].name@, s[p].name@));
                } else {
                    lemma_text_lt_irreflexive(s[p].name@);
                }
            }
        } else if j == p {
            assert(u[i] == s[i]);
        } else {
            let i2 = if i < p { i } else { i - 1 };
            let j2 = if j < p { j } else { j - 1 };
            assert(u[i] == s[i2] && u[j] == s[j2]);
        }
    }
}

/// An area listing is ordered by name.
pub proof fn lemma_areas_by_name_sorted(rows: Seq<AreaItem>, only_active: bool)
    ensures
        sorted_by_name(areas_by_name(rows, only_active)),
    decreases rows.len(),
{
    if rows.len() > 0 {
        lemma_areas_by_name_sorted(rows.drop_last(), only_active);
        let s = areas_by_name(rows.drop_last(), only_active);
        if !only_active || rows.last().active {
            lemma_insert_sorted(s, rows.last());
        }
    }
}

/// Which areas a listing keeps: all, or the active ones when `only_active`.
pub open spec fn area_keep(only_active: bool) -> spec_fn(AreaItem) -> bool {
    |a: AreaItem| !only_active || a.active
}

/// An area listing holds exactly the kept rows, each once.
pub proof fn lemma_areas_by_name_permutes(rows: Seq<AreaItem>, only_active: bool)
    ensures
        areas_by_name(rows, only_active).to_multiset() == rows.filter(area_keep(only_active)).to_multiset(),
    decreases rows.len(),
{
    broadcast use vstd::seq_lib::group_to_multiset_ensures;

    reveal(Seq::filter);
    if rows.len() > 0 {
        lemma_areas_by_name_permutes(rows.drop_last(), only_active);
        let s = areas_by_name(rows.drop_last(), only_active);
        if !only_active || rows.last().active {
            lemma_name_slot(s, rows.last());
            lemma_insert_multiset(s, name_slot(s, rows.last()) as int, rows.last());
        }
    }
}

/// Outcome of adding an area under the id `id`.
pub open spec fn area_add_post(
    before: Db,
    after: Db,
    id: Seq<char>,
    name: Seq<char>,
    now: Seq<char>,
    r: Result<String, CommandError>,
) -> bool {
    if is_blank(name) {
        r == Err::<String, CommandError>(CommandError::Validation(Problem::EmptyName))
            && Db::same_rows(before, after)
    } else if has_key(before.areas@, id) {
        r == Err::<String, CommandError>(CommandError::DuplicateId(Entity::Area))
            && Db::same_rows(before, after)
    } else {
        let row = after.areas@.last();
        &&& r is Ok
        &&& r->Ok_0@ == id
        &&& after.areas@.len() == before.areas@.len() + 1
        &&& after.areas@.drop_last() == before.areas@
        &&& row.id@ == id
        &&& row.name@ == trim_spec(name)
        &&& row.active
        &&& row.created_at@ == now
        &&& Db::others_same(before, after, Entity::Area)
    }
}

/// Outcome of setting the active flag of the area keyed `id`.
pub open spec fn area_active_post(before: Db, after: Db, id: Seq<char>, active: bool, r: Result<(), CommandError>) -> bool {
    let i = first_pos(before.areas@, id) as int;
    if i == before.areas@.len() {
        r == Err::<(), CommandError>(CommandError::NotFound(Entity::Area)) && Db::same_rows(before, after)
    } else {
        let (old, new) = (before.areas@[i], after.areas@[i]);
        &&& r == Ok::<(), CommandError>(())
        &&& after.areas@ == before.areas@.update(i, new)
        &&& new.id == old.id && new.name == old.name && new.created_at == old.created_at
        &&& new.active == active
        &&& Db::others_same(before, after, Entity::Area)
    }
}

impl Db {
    /// Adds an active area under the given id.
    pub fn add_area(&mut self, id: String, name: &str, now: &str) -> (r: Result<String, CommandError>)
        ensures
            area_add_post(*old(self), *final(self), id@, name@, now@, r),
            old(self).wf() ==> final(self).wf(),
    {
        let n = trim_text(name);
        if n.as_str().is_empty() {
            return Err(CommandError::Validation(Problem::EmptyName));
        }
        if find_row(&self.areas, id.as_str()).is_some() {
            return Err(CommandError::DuplicateId(Entity::Area));
        }
        let row = AreaItem { id: id.clone(), name: n, active: true, created_at: String::from_str(now) };
        let ghost g = row;
        self.areas.push(row);
        proof {
            if old(self).wf() {
                lemma_push_unique(old(self).areas@, g);
            }
            assert(self.areas@.drop_last() =~= old(self).areas@);
        }
        Ok(id)
    }
}

/// Adds an active area named `name` (trimmed) and returns its new id.
pub fn area_add(db: &mut Db, name: String, now: &str) -> (r: Result<String, CommandError>)
    ensures
        exists|id: Seq<char>|
            id.len() == 41 && id.subrange(0, 5) == "area_"@ && area_add_post(*old(db), *final(db), id, name@, now@, r),
        old(db).wf() ==> final(db).wf(),
{
    let id = new_id("area_");
    proof {
        reveal_strlit("area_");
    }
    let ghost gid = id@;
    let r = db.add_area(id, name.as_str(), now);
    assert(area_add_post(*old(db), *db, gid, name@, now@, r));
    r
}

/// Lists the areas (only the active ones when `only_active` is `Some(true)`)
/// ordered by name.
pub fn area_list(db: &Db, only_active: Option<bool>) -> (r: Vec<AreaItem>)
    ensures
        r@ == areas_by_name(db.areas@, only_active == Some(true)),
        sorted_by_name(r@),
        r@.to_multiset() == db.areas@.filter(area_keep(only_active == Some(true))).to_multiset(),
{
    let active_only = match only_active {
        Some(true) => true,
        _ => false,
    };
    let n = db.areas.len();
    let mut out: Vec<AreaItem> = Vec::new();
    let mut i: usize = 0;
    while i < n
        invariant
            i <= n,
            n == db.areas@.len(),
            active_only == (only_active == Some(true)),
            out@ == areas_by_name(db.areas@.subrange(0, i as int), active_only),
        decreases n - i,
    {
        proof {
            assert(db.areas@.subrange(0, i + 1).drop_last() =~= db.areas@.subrange(0, i as int));
        }
        let x = &db.areas[i];
        if !active_only || x.active {
            let mut j: usize = 0;
            assert(out@.subrange(0, out@.len() as int) =~= out@);
            while j < out.len() && !text_less(x.name.as_str(), out[j].name.as_str())
                invariant
                    j <= out@.len(),
                    name_slot(out@, *x) == j + name_slot(out@.subrange(j as int, out@.len() as int), *x),
                decreases out@.len() - j,
            {
                proof {
                    assert(out@.subrange(j as int, out@.len() as int).drop_first() =~= out@.subrange(
                        j + 1,
                        out@.len() as int,
                    ));
                }
                j = j + 1;
            }
            out.insert(j, x.duplicate());
        }
        i = i + 1;
    }
    assert(db.areas@.subrange(0, n as int) =~= db.areas@);
    proof {
        lemma_areas_by_name_sorted(db.areas@, active_only);
        lemma_areas_by_name_permutes(db.areas@, active_only);
    }
    out
}

/// Sets the active flag of the area keyed `id`.
pub fn area_set_active(db: &mut Db, id: String, active: bool) -> (r: Result<(), CommandError>)
    ensures
        area_active_post(*old(db), *final(db), id@, active, r),
        old(db).wf() ==> final(db).wf(),
{
    match find_row(&db.areas, id.as_str()) {
        None => Err(CommandError::NotFound(Entity::Area)),
        Some(i) => {
            let cur = &db.areas[i];
            let row = AreaItem {
                id: cur.id.clone(),
                name: cur.name.clone(),
                active,
                created_at: cur.created_at.clone(),
            };
            let ghost g = row;
            db.areas.set(i, row);
            proof {
                if old(db).wf() {
                    lemma_update_unique(old(db).areas@, i as int, g);
                }
            }
            Ok(())
        },
    }
}

} // verus!
