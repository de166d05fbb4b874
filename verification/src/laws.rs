//! The store's governing properties, stated once and proved for every
//! input: unwritten keys resolve to zero, newer commits shadow older ones
//! while history stays in the tables, recommitting an identical entry
//! appends rows without changing what reads return, and pruning removes an
//! emptied account from the existence index.

use vstd::prelude::*;
use crate::backend::{
    apply_entry_index, apply_index, entry_account_rows, entry_code_rows, entry_storage_rows,
};
use crate::log::{
    account_key, code_key, last_where, lemma_last_where_append, lemma_last_where_at,
    lemma_last_where_none, resolve_account, resolve_code, resolve_storage, storage_key,
    AccountRow, CodeRow, StorageRow,
};
use crate::types::{AccountV, ApplyV};
use crate::words::be_val;

verus! {

/// An address with no recorded write resolves to the zero account, empty
/// code, and the zero value for every storage slot.
pub proof fn lemma_unwritten_address_defaults(
    alog: Seq<AccountRow>,
    clog: Seq<CodeRow>,
    slog: Seq<StorageRow>,
    a: Seq<u8>,
    slot: Seq<u8>,
)
    requires
        forall|i: int| 0 <= i < alog.len() ==> alog[i].0 != a,
        forall|i: int| 0 <= i < clog.len() ==> clog[i].0 != a,
        forall|i: int| 0 <= i < slog.len() ==> slog[i].0 != a,
    ensures
        resolve_account(alog, a) == Some((0nat, 0nat)),
        resolve_code(clog, a) == Seq::<u8>::empty(),
        resolve_storage(slog, a, slot) == Some(0nat),
{
    lemma_last_where_none(alog, account_key(a));
    lemma_last_where_none(clog, code_key(a));
    lemma_last_where_none(slog, storage_key(a, slot));
    assert forall|i: int| 0 <= i < alog.len() implies !account_key(a)(alog[i]) by {}
    assert forall|i: int| 0 <= i < clog.len() implies !code_key(a)(clog[i]) by {}
    assert forall|i: int| 0 <= i < slog.len() implies !storage_key(a, slot)(slog[i]) by {}
}

/// The latest row wins across commits: once appended rows hold a match for
/// the key, they decide every lookup, whatever stood in the table before;
/// and a key the appended rows do not touch still reads from the older
/// rows.  Both halves of the table remain present in `older + appended`.
pub proof fn lemma_commit_shadows_account(older: Seq<AccountRow>, appended: Seq<AccountRow>, a: Seq<u8>)
    ensures
        last_where(appended, account_key(a)) is Some ==> resolve_account(older + appended, a)
            == resolve_account(appended, a),
        last_where(appended, account_key(a)) is None ==> resolve_account(older + appended, a)
            == resolve_account(older, a),
{
    lemma_last_where_append(older, appended, account_key(a));
}

/// As `lemma_commit_shadows_account`, for the code table.
pub proof fn lemma_commit_shadows_code(older: Seq<CodeRow>, appended: Seq<CodeRow>, a: Seq<u8>)
    ensures
        last_where(appended, code_key(a)) is Some ==> resolve_code(older + appended, a)
            == resolve_code(appended, a),
        last_where(appended, code_key(a)) is None ==> resolve_code(older + appended, a)
            == resolve_code(older, a),
{
    lemma_last_where_append(older, appended, code_key(a));
}

/// As `lemma_commit_shadows_account`, for the storage table.
pub proof fn lemma_commit_shadows_storage(
    older: Seq<StorageRow>,
    appended: Seq<StorageRow>,
    a: Seq<u8>,
    slot: Seq<u8>,
)
    ensures
        last_where(appended, storage_key(a, slot)) is Some ==> resolve_storage(
            older + appended,
            a,
            slot,
        ) == resolve_storage(appended, a, slot),
        last_where(appended, storage_key(a, slot)) is None ==> resolve_storage(
            older + appended,
            a,
            slot,
        ) == resolve_storage(older, a, slot),
{
    lemma_last_where_append(older, appended, storage_key(a, slot));
}

/// Committing identical rows a second time grows each table by exactly the
/// rows' length again, yet leaves every lookup unchanged: the repeated
/// rows shadow their own first copy.
pub proof fn lemma_recommit_reads_unchanged(
    alog: Seq<AccountRow>,
    arows: Seq<AccountRow>,
    clog: Seq<CodeRow>,
    crows: Seq<CodeRow>,
    slog: Seq<StorageRow>,
    srows: Seq<StorageRow>,
    a: Seq<u8>,
    slot: Seq<u8>,
)
    ensures
        (alog + arows + arows).len() == alog.len() + 2 * arows.len(),
        resolve_account(alog + arows + arows, a) == resolve_account(alog + arows, a),
        resolve_code(clog + crows + crows, a) == resolve_code(clog + crows, a),
        resolve_storage(slog + srows + srows, a, slot) == resolve_storage(slog + srows, a, slot),
{
    lemma_last_where_append(alog + arows, arows, account_key(a));
    lemma_last_where_append(alog, arows, account_key(a));
    lemma_last_where_append(clog + crows, crows, code_key(a));
    lemma_last_where_append(clog, crows, code_key(a));
    lemma_last_where_append(slog + srows, srows, storage_key(a, slot));
    lemma_last_where_append(slog, srows, storage_key(a, slot));
}

/// A committed modify entry is read back exactly: the accounts table then
/// resolves the address to the committed balance and nonce; the code table
/// resolves it to the committed code, or keeps resolving as before when no
/// code was given; the storage table resolves each written slot to the
/// last value the diff holds for it, and leaves untouched slots as they
/// were.
pub proof fn lemma_modify_commit_reads_back(
    alog: Seq<AccountRow>,
    clog: Seq<CodeRow>,
    slog: Seq<StorageRow>,
    a: Seq<u8>,
    balance: Seq<u8>,
    nonce: Seq<u8>,
    code: Option<Seq<u8>>,
    storage: Seq<(Seq<u8>, Seq<u8>)>,
    reset_storage: bool,
    slot: Seq<u8>,
    j: int,
)
    requires
        balance.len() == 32,
        nonce.len() == 32,
    ensures
        ({
            let e = ApplyV::Modify { address: a, balance, nonce, code, storage, reset_storage };
            &&& resolve_account(alog + entry_account_rows(e), a) == Some(
                (be_val(balance), be_val(nonce)),
            )
            &&& (code is Some ==> resolve_code(clog + entry_code_rows(e), a) == code->0)
            &&& (code is None ==> resolve_code(clog + entry_code_rows(e), a) == resolve_code(
                clog,
                a,
            ))
            &&& (0 <= j < storage.len() && storage[j].0 == slot && storage[j].1.len() == 32 && (
            forall|k: int| j < k < storage.len() ==> storage[k].0 != slot) ==> resolve_storage(
                slog + entry_storage_rows(e),
                a,
                slot,
            ) == Some(be_val(storage[j].1)))
            &&& ((forall|k: int| 0 <= k < storage.len() ==> storage[k].0 != slot)
                ==> resolve_storage(slog + entry_storage_rows(e), a, slot) == resolve_storage(
                slog,
                a,
                slot,
            ))
        }),
{
    let e = ApplyV::Modify { address: a, balance, nonce, code, storage, reset_storage };
    let arows = entry_account_rows(e);
    assert(account_key(a)(arows.last()));
    lemma_last_where_append(alog, arows, account_key(a));
    match code {
        Some(c) => {
            let crows = entry_code_rows(e);
            assert(code_key(a)(crows.last()));
            lemma_last_where_append(clog, crows, code_key(a));
        },
        None => {
            assert(clog + entry_code_rows(e) =~= clog);
        },
    }
    let srows = entry_storage_rows(e);
    lemma_last_where_append(slog, srows, storage_key(a, slot));
    if 0 <= j < storage.len() && storage[j].0 == slot && (forall|k: int|
        j < k < storage.len() ==> storage[k].0 != slot) {
        assert(srows[j] == (a, storage[j].0, storage[j].1));
        assert forall|k: int| j < k < srows.len() implies !storage_key(a, slot)(srows[k]) by {
            assert(srows[k] == (a, storage[k].0, storage[k].1));
        }
        lemma_last_where_at(srows, storage_key(a, slot), j);
    }
    if forall|k: int| 0 <= k < storage.len() ==> storage[k].0 != slot {
        assert forall|k: int| 0 <= k < srows.len() implies !storage_key(a, slot)(srows[k]) by {
            assert(srows[k] == (a, storage[k].0, storage[k].1));
        }
        lemma_last_where_none(srows, storage_key(a, slot));
    }
}

/// A committed delete resolves the address to its defaults from then on:
/// the tombstone rows shadow every older row, so the accounts table reads
/// as the zero account and the code table as empty code, while history
/// stays in place.
pub proof fn lemma_delete_commit_reads_default(
    alog: Seq<AccountRow>,
    clog: Seq<CodeRow>,
    a: Seq<u8>,
)
    ensures
        resolve_account(alog + entry_account_rows(ApplyV::Delete { address: a }), a) == Some(
            (0nat, 0nat),
        ),
        resolve_code(clog + entry_code_rows(ApplyV::Delete { address: a }), a) == Seq::<
            u8,
        >::empty(),
{
    let e = ApplyV::Delete { address: a };
    assert(account_key(a)(entry_account_rows(e).last()));
    lemma_last_where_append(alog, entry_account_rows(e), account_key(a));
    assert(code_key(a)(entry_code_rows(e).last()));
    lemma_last_where_append(clog, entry_code_rows(e), code_key(a));
}

/// Committing a modify that zeroes balance and nonce and installs empty
/// code, with pruning enabled, leaves the address absent from the
/// existence index, whatever the index held before.
pub proof fn lemma_prune_removes_emptied(
    m: Map<Seq<u8>, AccountV>,
    a: Seq<u8>,
    balance: Seq<u8>,
    nonce: Seq<u8>,
    storage: Seq<(Seq<u8>, Seq<u8>)>,
    reset_storage: bool,
)
    requires
        be_val(balance) == 0,
        be_val(nonce) == 0,
    ensures
        !apply_index(
            m,
            seq![
                ApplyV::Modify {
                    address: a,
                    balance,
                    nonce,
                    code: Some(Seq::<u8>::empty()),
                    storage,
                    reset_storage,
                },
            ],
            true,
        ).contains_key(a),
{
    let e = ApplyV::Modify {
        address: a,
        balance,
        nonce,
        code: Some(Seq::<u8>::empty()),
        storage,
        reset_storage,
    };
    let es = seq![e];
    assert(es.drop_last() =~= Seq::<ApplyV>::empty());
    assert(es.last() == e);
    assert(apply_index(m, es.drop_last(), true) == m);
    assert(apply_index(m, es, true) == apply_entry_index(m, e, true));
}

} // verus!
