//! What tables hand on to their partitions and to the tables that refer to them, and
//! how a histogram is spread, stated field by field and place by place.
use vstd::prelude::*;
use crate::error::SqlError;
use crate::foreign_keys;
use crate::foreign_keys::{ChildTable, ForeignKey, KeyChange};
use crate::histograms;
use crate::partitions;
use crate::partitions::{ConstraintView, PartitionView};
use crate::text;

verus! {

/// A partition has the columns, the primary key, the row security and the policies
/// of its parent, and keeps its own name and its parent's; a table that is no
/// partition inherits nothing.
pub proof fn law_partition_inherits(child: PartitionView, parent: PartitionView)
    ensures
        ({
            let after = partitions::inheriting(child, parent);
            &&& after.name == child.name
            &&& after.partition_of == child.partition_of
            &&& child.partition_of is None ==> after == child
            &&& child.partition_of is Some ==> {
                &&& after.columns == parent.columns
                &&& after.primary_key_name == parent.primary_key_name
                &&& after.rls_enabled == parent.rls_enabled
                &&& after.rls_forced == parent.rls_forced
                &&& after.policies == parent.policies
            }
        }),
{
}

/// A partition has every constraint of its parent, and of its own those whose name
/// its parent has not, whatever the case, and no other.
pub proof fn law_partition_constraints(
    parent: Seq<ConstraintView>,
    child: Seq<ConstraintView>,
    c: ConstraintView,
)
    ensures
        partitions::merged(parent, child).contains(c) <==> parent.contains(c) || (child.contains(c)
            && forall|k: int|
            0 <= k < parent.len() ==> text::lower((#[trigger] parent[k]).name) != text::lower(
                c.name,
            )),
{
    lemma_own(child, parent, c);
    let own = partitions::own_constraints(child, parent);
    let all = partitions::merged(parent, child);
    if all.contains(c) {
        let k = choose|k: int| 0 <= k < all.len() && all[k] == c;
        if k < parent.len() {
            assert(parent[k] == c);
        } else {
            assert(own[k - parent.len()] == c);
        }
    }
    if parent.contains(c) {
        let k = choose|k: int| 0 <= k < parent.len() && parent[k] == c;
        assert(all[k] == c);
    }
    if own.contains(c) {
        let k = choose|k: int| 0 <= k < own.len() && own[k] == c;
        assert(all[parent.len() + k] == c);
    }
}

proof fn lemma_own(list: Seq<ConstraintView>, inherited: Seq<ConstraintView>, c: ConstraintView)
    ensures
        partitions::own_constraints(list, inherited).contains(c) <==> list.contains(c)
            && !partitions::has_constraint(inherited, c.name),
    decreases list.len(),
{
    if list.len() > 0 {
        let rest = list.drop_last();
        lemma_own(rest, inherited, c);
        let before = partitions::own_constraints(rest, inherited);
        let all = partitions::own_constraints(list, inherited);
        if all.contains(c) {
            let k = choose|k: int| 0 <= k < all.len() && all[k] == c;
            if k < before.len() {
                assert(before[k] == c);
                let i = choose|i: int| 0 <= i < rest.len() && rest[i] == c;
                assert(list[i] == c);
            } else {
                assert(list[list.len() - 1] == c);
            }
        }
        if list.contains(c) && !partitions::has_constraint(inherited, c.name) {
            let i = choose|i: int| 0 <= i < list.len() && list[i] == c;
            if i < rest.len() {
                assert(rest[i] == c);
                let k = choose|k: int| 0 <= k < before.len() && before[k] == c;
                assert(all[k] == c);
            } else {
                assert(all[before.len() as int] == c);
            }
        }
    }
}

/// A table inherits from the last table under the name of its parent, whatever the
/// case, and stays as it is where there is none.
pub proof fn law_reconciled(table: PartitionView, tables: Seq<PartitionView>, i: int)
    ensures
        table.partition_of is None ==> partitions::reconciled(table, tables) == table,
        (table.partition_of is Some && 0 <= i < tables.len() && text::lower(tables[i].name)
            == text::lower(table.partition_of->0) && forall|k: int|
            i < k < tables.len() ==> text::lower((#[trigger] tables[k]).name) != text::lower(
                table.partition_of->0,
            )) ==> partitions::reconciled(table, tables) == partitions::inheriting(
            table,
            tables[i],
        ),
        (table.partition_of is Some && forall|k: int|
            0 <= k < tables.len() ==> text::lower((#[trigger] tables[k]).name) != text::lower(
                table.partition_of->0,
            )) ==> partitions::reconciled(table, tables) == table,
{
    if let Some(parent) = table.partition_of {
        lemma_last_named(tables, parent, i);
    }
}

proof fn lemma_last_named(tables: Seq<PartitionView>, name: Seq<char>, i: int)
    ensures
        (0 <= i < tables.len() && text::lower(tables[i].name) == text::lower(name) && forall|k: int|
            i < k < tables.len() ==> text::lower((#[trigger] tables[k]).name) != text::lower(name))
            ==> partitions::last_named(tables, name) == Some(tables[i]),
        (forall|k: int|
            0 <= k < tables.len() ==> text::lower((#[trigger] tables[k]).name) != text::lower(name))
            ==> partitions::last_named(tables, name) is None,
    decreases tables.len(),
{
    if tables.len() > 0 {
        let rest = tables.drop_last();
        lemma_last_named(rest, name, i);
        assert(tables.last() == tables[tables.len() - 1]);
        assert forall|k: int| 0 <= k < rest.len() implies #[trigger] rest[k] == tables[k] by {}
    }
}

/// What happens to the rows that refer to a row is what their key says of an update
/// where the row is updated, and of a deletion where it is deleted.
pub proof fn law_referential_action(
    children: Seq<ChildTable>,
    table: Seq<char>,
    child: ChildTable,
    key: ForeignKey,
)
    requires
        children.contains(child),
        child.foreign_keys@.contains(key),
        text::lower(key.foreign_table@) == text::lower(table),
    ensures
        foreign_keys::inbound(children, table, true).contains(
            (foreign_keys::InboundView { child, key, action: key.on_update }),
        ),
        foreign_keys::inbound(children, table, false).contains(
            (foreign_keys::InboundView { child, key, action: key.on_delete }),
        ),
{
    foreign_keys::law_inbound(
        children,
        table,
        true,
        foreign_keys::InboundView { child, key, action: key.on_update },
    );
    foreign_keys::law_inbound(
        children,
        table,
        false,
        foreign_keys::InboundView { child, key, action: key.on_delete },
    );
}

/// A change of a row counts where its key changed and no earlier row with the same old
/// key changed: every other is passed over.
pub open spec fn is_first_change(changes: Seq<KeyChange>, i: int) -> bool {
    &&& 0 <= i < changes.len()
    &&& changes[i].same_key == Ok::<bool, SqlError>(false)
    &&& changes[i].old_label is Ok
    &&& forall|k: int|
        0 <= k < i && (#[trigger] changes[k]).same_key == Ok::<bool, SqlError>(false)
            && changes[k].old_label is Ok ==> text::views(changes[k].old_label->Ok_0@)
            != text::views(changes[i].old_label->Ok_0@)
}

/// Of the rows whose key changed, the first of each old key counts, in their order,
/// and no other row.
pub proof fn law_changes_that_count(changes: Seq<KeyChange>)
    requires
        foreign_keys::key_changes(changes) is Ok,
    ensures
        forall|i: int| #[trigger]
            foreign_keys::key_changes(changes)->Ok_0.kept.contains(i) <==> is_first_change(
                changes,
                i,
            ),
        forall|label: Seq<Seq<char>>| #[trigger]
            foreign_keys::key_changes(changes)->Ok_0.seen.contains(label) <==> exists|k: int|
                0 <= k < changes.len() && (#[trigger] changes[k]).same_key == Ok::<bool, SqlError>(
                    false,
                ) && changes[k].old_label is Ok && text::views(changes[k].old_label->Ok_0@)
                    == label,
    decreases changes.len(),
{
    let view = foreign_keys::key_changes(changes)->Ok_0;
    if changes.len() > 0 {
        let rest = changes.drop_last();
        let last = changes.len() - 1;
        law_changes_that_count(rest);
        let before = foreign_keys::key_changes(rest)->Ok_0;
        assert forall|k: int| 0 <= k < rest.len() implies #[trigger] rest[k] == changes[k] by {}
        assert forall|i: int| i < last implies (is_first_change(rest, i) <==> is_first_change(
            changes,
            i,
        )) by {
            if 0 <= i < last {
                assert(rest[i] == changes[i]);
                assert forall|k: int| 0 <= k < i implies rest[k] == changes[k] by {}
                if is_first_change(rest, i) {
                    assert forall|k: int|
                        0 <= k < i && (#[trigger] changes[k]).same_key == Ok::<bool, SqlError>(
                            false,
                        ) && changes[k].old_label is Ok implies text::views(
                        changes[k].old_label->Ok_0@,
                    ) != text::views(changes[i].old_label->Ok_0@) by {
                        assert(rest[k].same_key == Ok::<bool, SqlError>(false));
                    }
                }
                if is_first_change(changes, i) {
                    assert forall|k: int|
                        0 <= k < i && (#[trigger] rest[k]).same_key == Ok::<bool, SqlError>(false)
                            && rest[k].old_label is Ok implies text::views(
                        rest[k].old_label->Ok_0@,
                    ) != text::views(rest[i].old_label->Ok_0@) by {
                        assert(changes[k].same_key == Ok::<bool, SqlError>(false));
                    }
                }
            }
        }
        let counted = changes[last].same_key == Ok::<bool, SqlError>(false);
        let label = text::views(changes[last].old_label->Ok_0@);
        assert forall|x: Seq<Seq<char>>| #[trigger] view.seen.contains(x) <==> exists|k: int|
            0 <= k < changes.len() && (#[trigger] changes[k]).same_key == Ok::<bool, SqlError>(
                false,
            ) && changes[k].old_label is Ok && text::views(changes[k].old_label->Ok_0@) == x by {
            if before.seen.contains(x) {
                let k = choose|k: int|
                    0 <= k < rest.len() && (#[trigger] rest[k]).same_key == Ok::<bool, SqlError>(
                        false,
                    ) && rest[k].old_label is Ok && text::views(rest[k].old_label->Ok_0@) == x;
                assert(changes[k] == rest[k]);
                let s = choose|s: int| 0 <= s < before.seen.len() && before.seen[s] == x;
                assert(view.seen[s] == x);
            }
            if counted && x == label && !before.seen.contains(x) {
                assert(view.seen[before.seen.len() as int] == x);
                assert(changes[last].same_key == Ok::<bool, SqlError>(false));
            }
            if view.seen.contains(x) && !before.seen.contains(x) {
                let s = choose|s: int| 0 <= s < view.seen.len() && view.seen[s] == x;
                assert(s == before.seen.len());
            }
            if exists|k: int|
                0 <= k < changes.len() && (#[trigger] changes[k]).same_key == Ok::<bool, SqlError>(
                    false,
                ) && changes[k].old_label is Ok && text::views(changes[k].old_label->Ok_0@) == x {
                let k = choose|k: int|
                    0 <= k < changes.len() && (#[trigger] changes[k]).same_key == Ok::<
                        bool,
                        SqlError,
                    >(false) && changes[k].old_label is Ok && text::views(
                        changes[k].old_label->Ok_0@,
                    ) == x;
                if k < last {
                    assert(rest[k].same_key == Ok::<bool, SqlError>(false));
                    assert(before.seen.contains(x));
                }
            }
        }
        assert(counted ==> (is_first_change(changes, last) <==> !before.seen.contains(label))) by {
            if counted {
                if before.seen.contains(label) {
                    let k = choose|k: int|
                        0 <= k < rest.len() && (#[trigger] rest[k]).same_key == Ok::<
                            bool,
                            SqlError,
                        >(false) && rest[k].old_label is Ok && text::views(
                            rest[k].old_label->Ok_0@,
                        ) == label;
                    assert(changes[k].same_key == Ok::<bool, SqlError>(false));
                } else {
                    assert forall|k: int|
                        0 <= k < last && (#[trigger] changes[k]).same_key == Ok::<bool, SqlError>(
                            false,
                        ) && changes[k].old_label is Ok implies text::views(
                        changes[k].old_label->Ok_0@,
                    ) != label by {
                        assert(rest[k].same_key == Ok::<bool, SqlError>(false));
                    }
                }
            }
        }
        assert forall|i: int| #[trigger] view.kept.contains(i) <==> is_first_change(changes, i) by {
            if before.kept.contains(i) {
                let s = choose|s: int| 0 <= s < before.kept.len() && before.kept[s] == i;
                assert(view.kept[s] == i);
                assert(is_first_change(rest, i));
            }
            if view.kept.contains(i) && !before.kept.contains(i) {
                let s = choose|s: int| 0 <= s < view.kept.len() && view.kept[s] == i;
                assert(s == before.kept.len());
            }
            if is_first_change(changes, i) {
                if i < last {
                    assert(is_first_change(rest, i));
                    assert(before.kept.contains(i));
                } else {
                    assert(view.kept[before.kept.len() as int] == i);
                }
            }
        }
    }
}

/// The quantiles of a long list stand in it in its order, evenly: the place of each
/// is that fraction of the way from the first item to the last, rounded down. A
/// list that is short enough is all quantiles.
pub proof fn law_quantiles(values: Seq<Seq<char>>, limit: nat, i: int)
    ensures
        values.len() <= limit ==> histograms::quantiles(values, limit) == values,
        values.len() > limit ==> histograms::quantiles(values, limit).len() == limit,
        values.len() > limit && limit > 1 && 0 <= i < limit ==> exists|p: int|
            0 <= p < values.len() && #[trigger] values[p] == histograms::quantiles(
                values,
                limit,
            )[i] && p * (limit - 1) <= i * (values.len() - 1) < (p + 1) * (limit - 1),
{
    if values.len() > limit && limit > 1 && 0 <= i < limit {
        let p = histograms::quantile_place(i, values.len(), limit);
        let n = values.len() - 1;
        let d = limit - 1;
        assert(p * d <= i * n < (p + 1) * d && 0 <= p <= n) by (nonlinear_arith)
            requires
                p == i * n / d,
                d > 0,
                0 <= i <= d,
                n >= 0,
        ;
        assert(values[p] == histograms::quantiles(values, limit)[i]);
    }
}

} // verus!
