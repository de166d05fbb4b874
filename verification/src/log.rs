//! The mathematical model of the three append-only tables and of the
//! "latest version of key K" read semantics.
//!
//! A table is a sequence of rows in insertion order.  An account or code
//! payload of `None` is a tombstone; a key with no matching row, or whose
//! latest row is a tombstone, resolves to the type's zero value.

use vstd::prelude::*;
use crate::words::be_val;

verus! {

/// One row of the accounts table: address, balance, nonce.
/// `None` in a payload column marks a tombstone.
pub type AccountRow = (Seq<u8>, Option<Seq<u8>>, Option<Seq<u8>>);

/// One row of the code table: address, bytecode or tombstone.
pub type CodeRow = (Seq<u8>, Option<Seq<u8>>);

/// One row of the storage table: address, slot, value.
pub type StorageRow = (Seq<u8>, Seq<u8>, Seq<u8>);

/// The most recently appended element satisfying `p`, if any.
pub open spec fn last_where<T>(s: Seq<T>, p: spec_fn(T) -> bool) -> Option<T>
    decreases s.len(),
{
    if s.len() == 0 {
        None
    } else if p(s.last()) {
        Some(s.last())
    } else {
        last_where(s.drop_last(), p)
    }
}

/// The key predicate of an accounts-table lookup.
pub open spec fn account_key(a: Seq<u8>) -> spec_fn(AccountRow) -> bool {
    |row: AccountRow| row.0 == a
}

/// The key predicate of a code-table lookup.
pub open spec fn code_key(a: Seq<u8>) -> spec_fn(CodeRow) -> bool {
    |row: CodeRow| row.0 == a
}

/// The key predicate of a storage-table lookup.
pub open spec fn storage_key(a: Seq<u8>, slot: Seq<u8>) -> spec_fn(StorageRow) -> bool {
    |row: StorageRow| row.0 == a && row.1 == slot
}

/// The balance and nonce an accounts table resolves an address to:
/// the latest matching row decides; no row or a tombstone means zero;
/// `None` here means the stored field breaks the 32-byte width.
pub open spec fn resolve_account(log: Seq<AccountRow>, a: Seq<u8>) -> Option<(nat, nat)> {
    match last_where(log, account_key(a)) {
        None => Some((0, 0)),
        Some(row) => match (row.1, row.2) {
            (Some(balance), Some(nonce)) => if balance.len() == 32 && nonce.len() == 32 {
                Some((be_val(balance), be_val(nonce)))
            } else {
                None
            },
            _ => Some((0, 0)),
        },
    }
}

/// The bytecode a code table resolves an address to: the latest matching
/// row decides; no row or a tombstone means empty code.
pub open spec fn resolve_code(log: Seq<CodeRow>, a: Seq<u8>) -> Seq<u8> {
    match last_where(log, code_key(a)) {
        None => Seq::empty(),
        Some(row) => match row.1 {
            None => Seq::empty(),
            Some(code) => code,
        },
    }
}

/// The value a storage table resolves an (address, slot) pair to: the
/// latest matching row decides; no row means zero; `None` here means the
/// stored value breaks the 32-byte width.
pub open spec fn resolve_storage(log: Seq<StorageRow>, a: Seq<u8>, slot: Seq<u8>) -> Option<nat> {
    match last_where(log, storage_key(a, slot)) {
        None => Some(0),
        Some(row) => if row.2.len() == 32 {
            Some(be_val(row.2))
        } else {
            None
        },
    }
}

/// Appended rows shadow older ones: a lookup over `a + b` is decided by
/// `b` whenever `b` holds a matching row, and falls back to `a` otherwise.
/// This is why the most recent commit wins while every older row stays in
/// the table.
pub proof fn lemma_last_where_append<T>(a: Seq<T>, b: Seq<T>, p: spec_fn(T) -> bool)
    ensures
        last_where(a + b, p) == if last_where(b, p) is Some {
            last_where(b, p)
        } else {
            last_where(a, p)
        },
    decreases b.len(),
{
    if b.len() == 0 {
        assert(a + b =~= a);
    } else {
        assert((a + b).drop_last() =~= a + b.drop_last());
        assert((a + b).last() == b.last());
        lemma_last_where_append(a, b.drop_last(), p);
    }
}

/// A lookup lands on the matching element after which no further element
/// matches.
pub proof fn lemma_last_where_at<T>(s: Seq<T>, p: spec_fn(T) -> bool, j: int)
    requires
        0 <= j < s.len(),
        p(s[j]),
        forall|k: int| j < k < s.len() ==> !p(s[k]),
    ensures
        last_where(s, p) == Some(s[j]),
    decreases s.len(),
{
    if j == s.len() - 1 {
    } else {
        assert(!p(s.last()));
        assert(s.drop_last()[j] == s[j]);
        lemma_last_where_at(s.drop_last(), p, j);
    }
}

/// A lookup finds nothing exactly when no row matches.
pub proof fn lemma_last_where_none<T>(s: Seq<T>, p: spec_fn(T) -> bool)
    ensures
        last_where(s, p) is None <==> (forall|i: int| 0 <= i < s.len() ==> !p(s[i])),
    decreases s.len(),
{
    if s.len() > 0 {
        lemma_last_where_none(s.drop_last(), p);
        if !p(s.last()) && last_where(s.drop_last(), p) is None {
            assert forall|i: int| 0 <= i < s.len() implies !p(s[i]) by {
                if i < s.len() - 1 {
                    assert(s[i] == s.drop_last()[i]);
                }
            }
        }
    }
}

} // verus!
