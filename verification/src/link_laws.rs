//! Laws of the link frames: a mail-list delta carries exactly what a client
//! needs to rebuild the new rows from the old ones.
use vstd::prelude::*;

use crate::links::{
    spec_last_row_with_key, spec_mail_list_delta, spec_row_changed, spec_row_eq, spec_row_keys,
    spec_upserts, MailListRow, MailListViewState,
};

verus! {

/// No two rows share a key.
pub open spec fn spec_keys_unique(rows: Seq<MailListRow>) -> bool {
    forall|i: int, j: int|
        0 <= i < j < rows.len() ==> (#[trigger] rows[i]).row_key@ != (#[trigger] rows[j]).row_key@
}

/// The row a client shows under `key` after a delta: the upserted row when
/// there is one, else the row it held.
pub open spec fn spec_delta_row(
    old_rows: Seq<MailListRow>,
    upserts: Seq<MailListRow>,
    key: Seq<char>,
) -> Option<MailListRow> {
    match spec_last_row_with_key(upserts, key) {
        Some(u) => Some(u),
        None => spec_last_row_with_key(old_rows, key),
    }
}

/// The client shows a row equal to `row` under `key` after the delta.
pub open spec fn spec_delta_shows(
    old_rows: Seq<MailListRow>,
    upserts: Seq<MailListRow>,
    key: Seq<char>,
    row: MailListRow,
) -> bool {
    spec_delta_row(old_rows, upserts, key) matches Some(r) && spec_row_eq(r, row)
}

proof fn lemma_last_row_found(rows: Seq<MailListRow>, key: Seq<char>)
    ensures
        spec_last_row_with_key(rows, key) matches Some(x) ==> exists|i: int|
            0 <= i < rows.len() && rows[i] == x && x.row_key@ == key,
        spec_last_row_with_key(rows, key) is None ==> forall|i: int|
            0 <= i < rows.len() ==> (#[trigger] rows[i]).row_key@ != key,
    decreases rows.len(),
{
    if rows.len() > 0 {
        let rest = rows.drop_last();
        lemma_last_row_found(rest, key);
        if rows.last().row_key@ != key {
            if let Some(x) = spec_last_row_with_key(rest, key) {
                let i = choose|i: int| 0 <= i < rest.len() && rest[i] == x && x.row_key@ == key;
                assert(rows[i] == rest[i]);
            } else {
                assert forall|i: int| 0 <= i < rows.len() implies (#[trigger] rows[i]).row_key@
                    != key by {
                    if i < rest.len() {
                        assert(rows[i] == rest[i]);
                    }
                }
            }
        } else {
            assert(rows[rows.len() - 1] == rows.last());
        }
    }
}

proof fn lemma_upserts_from_new(old_rows: Seq<MailListRow>, new_rows: Seq<MailListRow>)
    ensures
        forall|u: int|
            0 <= u < spec_upserts(old_rows, new_rows).len() ==> spec_row_changed(
                old_rows,
                #[trigger] spec_upserts(old_rows, new_rows)[u],
            ),
        forall|u: int|
            0 <= u < spec_upserts(old_rows, new_rows).len() ==> exists|j: int|
                0 <= j < new_rows.len() && new_rows[j] == #[trigger] spec_upserts(
                    old_rows,
                    new_rows,
                )[u],
        forall|j: int|
            0 <= j < new_rows.len() && spec_row_changed(old_rows, #[trigger] new_rows[j])
                ==> exists|u: int|
                0 <= u < spec_upserts(old_rows, new_rows).len() && spec_upserts(old_rows, new_rows)[u]
                    == new_rows[j],
    decreases new_rows.len(),
{
    if new_rows.len() > 0 {
        let rest = new_rows.drop_last();
        lemma_upserts_from_new(old_rows, rest);
        let ups = spec_upserts(old_rows, new_rows);
        let rest_ups = spec_upserts(old_rows, rest);
        assert forall|u: int| 0 <= u < ups.len() implies spec_row_changed(
            old_rows,
            #[trigger] ups[u],
        ) by {
            if u < rest_ups.len() {
                assert(ups[u] == rest_ups[u]);
            }
        }
        assert forall|u: int| 0 <= u < ups.len() implies exists|j: int|
            0 <= j < new_rows.len() && new_rows[j] == #[trigger] ups[u] by {
            if u < rest_ups.len() {
                assert(ups[u] == rest_ups[u]);
                let j = choose|j: int| 0 <= j < rest.len() && rest[j] == rest_ups[u];
                assert(new_rows[j] == rest[j]);
            } else {
                assert(ups[u] == new_rows.last());
                assert(new_rows[new_rows.len() - 1] == new_rows.last());
            }
        }
        assert forall|j: int|
            0 <= j < new_rows.len() && spec_row_changed(old_rows, #[trigger] new_rows[j]) implies exists|
            u: int,
        | 0 <= u < ups.len() && ups[u] == new_rows[j] by {
            if j < rest.len() {
                assert(new_rows[j] == rest[j]);
                let u = choose|u: int| 0 <= u < rest_ups.len() && rest_ups[u] == rest[j];
                assert(ups[u] == rest_ups[u]);
            } else {
                assert(new_rows[j] == new_rows.last());
                assert(ups[ups.len() - 1] == new_rows.last());
            }
        }
    }
}

/// A row-local delta rebuilds the new rows: taking the delta's key order
/// (the old order when it sends none) and, for each key, the upserted row or
/// else the row already held, gives rows equal to the new ones, in order.
/// Row keys are unique in the new state.
pub proof fn law_delta_rebuilds_new_rows(old: MailListViewState, new: MailListViewState)
    requires
        spec_mail_list_delta(old, new) is Some,
        spec_keys_unique(new.rows@),
    ensures
        ({
            let (order, upserts) = spec_mail_list_delta(old, new)->0;
            let keys = match order {
                Some(k) => k,
                None => spec_row_keys(old.rows@),
            };
            &&& keys.len() == new.rows@.len()
            &&& forall|i: int|
                0 <= i < keys.len() ==> #[trigger] spec_delta_shows(
                    old.rows@,
                    upserts,
                    keys[i],
                    new.rows@[i],
                )
        }),
{
    let (order, upserts) = spec_mail_list_delta(old, new)->0;
    let keys = match order {
        Some(k) => k,
        None => spec_row_keys(old.rows@),
    };
    assert(keys == spec_row_keys(new.rows@));
    lemma_upserts_from_new(old.rows@, new.rows@);
    assert forall|i: int| 0 <= i < keys.len() implies #[trigger] spec_delta_shows(
        old.rows@,
        upserts,
        keys[i],
        new.rows@[i],
    ) by {
        let row = new.rows@[i];
        let k = row.row_key@;
        assert(keys[i] == k);
        lemma_last_row_found(upserts, k);
        lemma_last_row_found(old.rows@, k);
        if spec_row_changed(old.rows@, row) {
            let u = choose|u: int| 0 <= u < upserts.len() && upserts[u] == new.rows@[i];
            assert(upserts[u].row_key@ == k);
            let x = spec_last_row_with_key(upserts, k)->0;
            let j0 = choose|j0: int| 0 <= j0 < upserts.len() && upserts[j0] == x && x.row_key@ == k;
            let j = choose|j: int| 0 <= j < new.rows@.len() && new.rows@[j] == upserts[j0];
            if j != i {
                if j < i {
                    assert(new.rows@[j].row_key@ != new.rows@[i].row_key@);
                } else {
                    assert(new.rows@[i].row_key@ != new.rows@[j].row_key@);
                }
            }
        } else {
            if spec_last_row_with_key(upserts, k) is Some {
                let x = spec_last_row_with_key(upserts, k)->0;
                let j0 = choose|j0: int|
                    0 <= j0 < upserts.len() && upserts[j0] == x && x.row_key@ == k;
                let j = choose|j: int| 0 <= j < new.rows@.len() && new.rows@[j] == upserts[j0];
                if j != i {
                    if j < i {
                        assert(new.rows@[j].row_key@ != new.rows@[i].row_key@);
                    } else {
                        assert(new.rows@[i].row_key@ != new.rows@[j].row_key@);
                    }
                }
                assert(spec_row_changed(old.rows@, upserts[j0]));
            }
        }
    }
}

} // verus!
