//! Foreign keys that point at a table, and the changes of keys that they follow.
use vstd::prelude::*;
use crate::error;
use crate::error::SqlError;
use crate::text;

verus! {

/// What happens to the rows of a child table when those of its parent change.
#[derive(Clone, Copy, Debug, PartialEq, Eq, Structural)]
pub enum ReferentialAction {
    NoAction,
    Restrict,
    Cascade,
    SetNull,
    SetDefault,
}

#[derive(Debug)]
pub struct ForeignKey {
    pub name: String,
    pub columns: Vec<String>,
    pub foreign_table: String,
    pub referred_columns: Vec<String>,
    pub on_update: ReferentialAction,
    pub on_delete: ReferentialAction,
}

/// A table with its foreign keys, in the order of its constraints.
#[derive(Debug)]
pub struct ChildTable {
    pub name: String,
    pub foreign_keys: Vec<ForeignKey>,
}

/// A foreign key that points at a table: the child table, the key, and what happens.
#[derive(Debug)]
pub struct InboundForeignKey<'a> {
    pub child: &'a ChildTable,
    pub key: &'a ForeignKey,
    pub action: ReferentialAction,
}

pub struct InboundView {
    pub child: ChildTable,
    pub key: ForeignKey,
    pub action: ReferentialAction,
}

impl<'a> View for InboundForeignKey<'a> {
    type V = InboundView;

    open spec fn view(&self) -> InboundView {
        InboundView { child: *self.child, key: *self.key, action: self.action }
    }
}

pub open spec fn inbound_views(v: Seq<InboundForeignKey>) -> Seq<InboundView> {
    v.map_values(|k: InboundForeignKey| k@)
}

pub open spec fn action_of(key: ForeignKey, update: bool) -> ReferentialAction {
    if update {
        key.on_update
    } else {
        key.on_delete
    }
}

/// The keys of a child table, up to a number of them, that point at a table.
pub open spec fn inbound_of(
    child: ChildTable,
    keys: Seq<ForeignKey>,
    table: Seq<char>,
    update: bool,
) -> Seq<InboundView>
    decreases keys.len(),
{
    if keys.len() == 0 {
        Seq::empty()
    } else {
        let before = inbound_of(child, keys.drop_last(), table, update);
        let key = keys.last();
        if text::same_ignoring_case(key.foreign_table@, table) {
            before.push(InboundView { child, key, action: action_of(key, update) })
        } else {
            before
        }
    }
}

/// The keys that point at a table.
pub open spec fn inbound(
    children: Seq<ChildTable>,
    table: Seq<char>,
    update: bool,
) -> Seq<InboundView>
    decreases children.len(),
{
    if children.len() == 0 {
        Seq::empty()
    } else {
        inbound(children.drop_last(), table, update) + inbound_of(
            children.last(),
            children.last().foreign_keys@,
            table,
            update,
        )
    }
}

fn inbound_foreign_keys<'a>(children: &'a Vec<ChildTable>, table: &str, update: bool) -> (r: Vec<
    InboundForeignKey<'a>,
>)
    ensures
        inbound_views(r@) == inbound(children@, table@, update),
{
    let mut out: Vec<InboundForeignKey> = Vec::new();
    assert(inbound_views(out@) =~= Seq::empty());
    let mut i: usize = 0;
    while i < children.len()
        invariant
            i <= children.len(),
            inbound_views(out@) == inbound(children@.take(i as int), table@, update),
        decreases children.len() - i,
    {
        assert(children@.take(i + 1).drop_last() =~= children@.take(i as int));
        assert(children@.take(i + 1).last() == children@[i as int]);
        let child = &children[i];
        let ghost before = inbound_views(out@);
        let keys = &child.foreign_keys;
        let mut j: usize = 0;
        assert(keys@.take(0) =~= Seq::empty());
        assert(before + Seq::<InboundView>::empty() =~= before);
        while j < keys.len()
            invariant
                j <= keys.len(),
                *keys == child.foreign_keys,
                inbound_views(out@) == before + inbound_of(
                    *child,
                    keys@.take(j as int),
                    table@,
                    update,
                ),
            decreases keys.len() - j,
        {
            assert(keys@.take(j + 1).drop_last() =~= keys@.take(j as int));
            assert(keys@.take(j + 1).last() == keys@[j as int]);
            let key = &keys[j];
            if text::eq_ignore_case(key.foreign_table.as_str(), table) {
                let ghost prior = out@;
                let action = if update {
                    key.on_update
                } else {
                    key.on_delete
                };
                out.push(InboundForeignKey { child, key, action });
                assert(inbound_views(out@) =~= inbound_views(prior).push(
                    InboundView { child: *child, key: *key, action },
                ));
                assert(inbound_views(out@) =~= before + inbound_of(
                    *child,
                    keys@.take(j as int),
                    table@,
                    update,
                ).push(InboundView { child: *child, key: *key, action }));
            }
            j = j + 1;
        }
        assert(keys@.take(keys@.len() as int) =~= keys@);
        i = i + 1;
    }
    assert(children@.take(children@.len() as int) =~= children@);
    out
}

/// The foreign keys that point at a table, with what happens when its rows are
/// updated.
pub fn inbound_foreign_key_update_constraints_uncached<'a>(
    children: &'a Vec<ChildTable>,
    table: &str,
) -> (r: Vec<InboundForeignKey<'a>>)
    ensures
        inbound_views(r@) == inbound(children@, table@, true),
{
    inbound_foreign_keys(children, table, true)
}

/// The foreign keys that point at a table, with what happens when its rows are
/// deleted.
pub fn inbound_foreign_key_delete_constraints_uncached<'a>(
    children: &'a Vec<ChildTable>,
    table: &str,
) -> (r: Vec<InboundForeignKey<'a>>)
    ensures
        inbound_views(r@) == inbound(children@, table@, false),
{
    inbound_foreign_keys(children, table, false)
}

proof fn lemma_inbound_of(
    child: ChildTable,
    keys: Seq<ForeignKey>,
    table: Seq<char>,
    update: bool,
    v: InboundView,
)
    ensures
        inbound_of(child, keys, table, update).contains(v) <==> (v.child == child && keys.contains(
            v.key,
        ) && text::same_ignoring_case(v.key.foreign_table@, table) && v.action == action_of(
            v.key,
            update,
        )),
    decreases keys.len(),
{
    if keys.len() > 0 {
        let rest = keys.drop_last();
        lemma_inbound_of(child, rest, table, update, v);
        let before = inbound_of(child, rest, table, update);
        let now = inbound_of(child, keys, table, update);
        assert(keys.contains(v.key) <==> rest.contains(v.key) || keys.last() == v.key) by {
            if keys.contains(v.key) {
                let k = choose|k: int| 0 <= k < keys.len() && keys[k] == v.key;
                if k < rest.len() {
                    assert(rest[k] == v.key);
                }
            }
            if rest.contains(v.key) {
                let k = choose|k: int| 0 <= k < rest.len() && rest[k] == v.key;
                assert(keys[k] == v.key);
            }
            if keys.last() == v.key {
                assert(keys[keys.len() - 1] == v.key);
            }
        }
        if now.len() > before.len() {
            let added = now.last();
            assert(now.contains(v) <==> before.contains(v) || added == v) by {
                if now.contains(v) {
                    let k = choose|k: int| 0 <= k < now.len() && now[k] == v;
                    if k < before.len() {
                        assert(before[k] == v);
                    }
                }
                if before.contains(v) {
                    let k = choose|k: int| 0 <= k < before.len() && before[k] == v;
                    assert(now[k] == v);
                }
                if added == v {
                    assert(now[now.len() - 1] == v);
                }
            }
        }
    }
}

/// The keys that point at a table are the foreign keys of all tables whose parent it
/// is, whatever the case of its name, and no others.
pub proof fn law_inbound(children: Seq<ChildTable>, table: Seq<char>, update: bool, v: InboundView)
    ensures
        inbound(children, table, update).contains(v) <==> (children.contains(v.child)
            && v.child.foreign_keys@.contains(v.key) && text::same_ignoring_case(
            v.key.foreign_table@,
            table,
        ) && v.action == action_of(v.key, update)),
    decreases children.len(),
{
    if children.len() > 0 {
        let rest = children.drop_last();
        let last = children.last();
        law_inbound(rest, table, update, v);
        lemma_inbound_of(last, last.foreign_keys@, table, update, v);
        let a = inbound(rest, table, update);
        let b = inbound_of(last, last.foreign_keys@, table, update);
        let now = inbound(children, table, update);
        assert(now.contains(v) <==> a.contains(v) || b.contains(v)) by {
            if now.contains(v) {
                let k = choose|k: int| 0 <= k < now.len() && now[k] == v;
                if k < a.len() {
                    assert(a[k] == v);
                } else {
                    assert(b[k - a.len()] == v);
                }
            }
            if a.contains(v) {
                let k = choose|k: int| 0 <= k < a.len() && a[k] == v;
                assert(now[k] == v);
            }
            if b.contains(v) {
                let k = choose|k: int| 0 <= k < b.len() && b[k] == v;
                assert(now[k + a.len()] == v);
            }
        }
        assert(children.contains(v.child) <==> rest.contains(v.child) || last == v.child) by {
            if children.contains(v.child) {
                let k = choose|k: int| 0 <= k < children.len() && children[k] == v.child;
                if k < rest.len() {
                    assert(rest[k] == v.child);
                }
            }
            if rest.contains(v.child) {
                let k = choose|k: int| 0 <= k < rest.len() && rest[k] == v.child;
                assert(children[k] == v.child);
            }
            if last == v.child {
                assert(children[children.len() - 1] == v.child);
            }
        }
    }
}

/// A row of the parent before and after an update: whether its key stayed, the texts
/// that tell its old key from others, or the errors in finding that out.
#[derive(Debug)]
pub struct KeyChange {
    pub same_key: Result<bool, SqlError>,
    pub old_label: Result<Vec<String>, SqlError>,
}

pub struct ChangesView {
    pub kept: Seq<int>,
    pub seen: Seq<Seq<Seq<char>>>,
}

/// The changes of keys that count: of those of one old key the first.
pub open spec fn key_changes(changes: Seq<KeyChange>) -> Result<ChangesView, error::ErrorView>
    decreases changes.len(),
{
    if changes.len() == 0 {
        Ok(ChangesView { kept: Seq::empty(), seen: Seq::empty() })
    } else {
        match key_changes(changes.drop_last()) {
            Err(e) => Err(e),
            Ok(before) => match changes.last().same_key {
                Err(e) => Err(e@),
                Ok(true) => Ok(before),
                Ok(false) => match changes.last().old_label {
                    Err(e) => Err(e@),
                    Ok(label) => if before.seen.contains(text::views(label@)) {
                        Ok(before)
                    } else {
                        Ok(
                            ChangesView {
                                kept: before.kept.push(changes.len() - 1),
                                seen: before.seen.push(text::views(label@)),
                            },
                        )
                    },
                },
            },
        }
    }
}

proof fn lemma_error_stays(changes: Seq<KeyChange>, i: int)
    requires
        0 <= i <= changes.len(),
        key_changes(changes.take(i)) is Err,
    ensures
        key_changes(changes) == key_changes(changes.take(i)),
    decreases changes.len(),
{
    if i == changes.len() {
        assert(changes.take(i) =~= changes);
    } else {
        assert(changes.drop_last().take(i) =~= changes.take(i));
        lemma_error_stays(changes.drop_last(), i);
    }
}

fn same_texts(a: &Vec<String>, b: &Vec<String>) -> (r: bool)
    ensures
        r == (text::views(a@) == text::views(b@)),
{
    assert(text::views(a@).len() == a@.len());
    assert(text::views(b@).len() == b@.len());
    if a.len() != b.len() {
        return false;
    }
    let mut i: usize = 0;
    while i < a.len()
        invariant
            i <= a.len(),
            a.len() == b.len(),
            forall|k: int| 0 <= k < i ==> (#[trigger] a@[k])@ == b@[k]@,
        decreases a.len() - i,
    {
        if !text::text_eq(a[i].as_str(), b[i].as_str()) {
            assert(text::views(a@)[i as int] != text::views(b@)[i as int]);
            return false;
        }
        i = i + 1;
    }
    assert(text::views(a@) =~= text::views(b@));
    true
}

pub open spec fn positions(v: Seq<usize>) -> Seq<int> {
    v.map_values(|i: usize| i as int)
}

/// The rows whose change of key counts: of those with one old key the first. The
/// first error ends the search.
pub fn changed_parent_update_keys(changes: &Vec<KeyChange>) -> (r: Result<Vec<usize>, SqlError>)
    ensures
        match (r, key_changes(changes@)) {
            (Ok(kept), Ok(view)) => positions(kept@) == view.kept,
            (Err(e), Err(view)) => e@ == view,
            _ => false,
        },
{
    let mut kept: Vec<usize> = Vec::new();
    let mut seen: Vec<&Vec<String>> = Vec::new();
    let ghost mut labels: Seq<Seq<Seq<char>>> = Seq::empty();
    assert(positions(kept@) =~= Seq::empty());
    let mut i: usize = 0;
    while i < changes.len()
        invariant
            i <= changes.len(),
            labels.len() == seen@.len(),
            forall|k: int| 0 <= k < labels.len() ==> #[trigger] labels[k] == text::views(seen@[k]@),
            key_changes(changes@.take(i as int)) == Ok::<ChangesView, error::ErrorView>(
                ChangesView { kept: positions(kept@), seen: labels },
            ),
        decreases changes.len() - i,
    {
        assert(changes@.take(i + 1).drop_last() =~= changes@.take(i as int));
        assert(changes@.take(i + 1).last() == changes@[i as int]);
        match &changes[i].same_key {
            Err(e) => {
                proof {
                    lemma_error_stays(changes@, i + 1);
                }
                return Err(e.copied());
            },
            Ok(same) => {
                if !*same {
                    match &changes[i].old_label {
                        Err(e) => {
                            proof {
                                lemma_error_stays(changes@, i + 1);
                            }
                            return Err(e.copied());
                        },
                        Ok(label) => {
                            let mut found = false;
                            let mut j: usize = 0;
                            while j < seen.len()
                                invariant
                                    j <= seen.len(),
                                    labels.len() == seen@.len(),
                                    forall|k: int|
                                        0 <= k < labels.len() ==> #[trigger] labels[k]
                                            == text::views(seen@[k]@),
                                    found == exists|k: int|
                                        0 <= k < j && #[trigger] labels[k] == text::views(label@),
                                decreases seen.len() - j,
                            {
                                assert(labels[j as int] == text::views(seen@[j as int]@));
                                if same_texts(seen[j], label) {
                                    found = true;
                                }
                                j = j + 1;
                            }
                            assert(found == labels.contains(text::views(label@)));
                            if !found {
                                let ghost prior = kept@;
                                seen.push(label);
                                kept.push(i);
                                proof {
                                    labels = labels.push(text::views(label@));
                                    assert(positions(kept@) =~= positions(prior).push(i as int));
                                }
                            }
                        },
                    }
                }
            },
        }
        i = i + 1;
    }
    assert(changes@.take(changes@.len() as int) =~= changes@);
    Ok(kept)
}

/// No old key is taken twice, and each row that is taken is there.
pub proof fn law_key_changes(changes: Seq<KeyChange>)
    requires
        key_changes(changes) is Ok,
    ensures
        ({
            let view = key_changes(changes)->Ok_0;
            &&& view.seen.no_duplicates()
            &&& view.seen.len() == view.kept.len()
            &&& forall|k: int|
                0 <= k < view.kept.len() ==> 0 <= #[trigger] view.kept[k] < changes.len()
                    && changes[view.kept[k]].same_key == Ok::<bool, SqlError>(false)
        }),
    decreases changes.len(),
{
    if changes.len() > 0 {
        let rest = changes.drop_last();
        law_key_changes(rest);
        let before = key_changes(rest)->Ok_0;
        let view = key_changes(changes)->Ok_0;
        assert forall|k: int| 0 <= k < view.kept.len() implies 0 <= #[trigger] view.kept[k]
            < changes.len() && changes[view.kept[k]].same_key == Ok::<bool, SqlError>(false) by {
            if k < before.kept.len() {
                assert(view.kept[k] == before.kept[k]);
                assert(rest[before.kept[k]] == changes[before.kept[k]]);
            }
        }
    }
}

} // verus!
