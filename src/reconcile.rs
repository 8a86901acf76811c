//! Identity reconciliation: keeping the account-to-name mapping and the polled
//! roster consistent when an account changes its display name.
use crate::db_types::AccountEntry;
use vstd::prelude::*;

verus! {

/// A change to the roster of polled names.
#[derive(Clone, Debug)]
pub enum UsernameOp {
    /// Insert the name unless it is there already.
    Upsert(String),
    /// Remove the name.
    Delete(String),
}

pub enum UsernameOpView {
    Upsert(Seq<char>),
    Delete(Seq<char>),
}

impl View for UsernameOp {
    type V = UsernameOpView;

    open spec fn view(&self) -> UsernameOpView {
        match self {
            UsernameOp::Upsert(n) => UsernameOpView::Upsert(n@),
            UsernameOp::Delete(n) => UsernameOpView::Delete(n@),
        }
    }
}

/// The roster changes that reconciling `name` makes, given the account record
/// that the atomic read-then-replace found (`seen`): the new name is always
/// upserted, and a different previous name is removed.
pub open spec fn reconcile_ops_spec(name: Seq<char>, seen: Option<(Seq<char>, Seq<char>)>) -> Seq<
    UsernameOpView,
> {
    match seen {
        Some(prev) => if prev.1 != name {
            seq![UsernameOpView::Upsert(name), UsernameOpView::Delete(prev.1)]
        } else {
            seq![UsernameOpView::Upsert(name)]
        },
        None => seq![UsernameOpView::Upsert(name)],
    }
}

/// The roster changes for reconciling `account`, where `seen` is the record
/// that replacing the account's record returned.
pub fn reconcile_ops(account: &AccountEntry, seen: &Option<AccountEntry>) -> (r: Vec<UsernameOp>)
    ensures
        r@.map_values(|o: UsernameOp| o@) == reconcile_ops_spec(
            account.display_name@,
            match seen {
                Some(e) => Some(e@),
                None => None,
            },
        ),
{
    let mut ops: Vec<UsernameOp> = Vec::new();
    ops.push(UsernameOp::Upsert(account.display_name.clone()));
    match seen {
        Some(prev) => {
            if prev.display_name != account.display_name {
                ops.push(UsernameOp::Delete(prev.display_name.clone()));
            }
        },
        None => {},
    }
    assert(ops@.map_values(|o: UsernameOp| o@) =~= reconcile_ops_spec(
        account.display_name@,
        match seen {
            Some(e) => Some(e@),
            None => None,
        },
    ));
    ops
}

/// What to do after a step or the commit of the reconciling transaction failed.
#[derive(Clone, Copy, Debug, PartialEq, Eq, Structural)]
pub enum CommitVerdict {
    /// Run the whole transaction again, from its read, and commit again.
    Retry,
    /// Give up; the setup request fails.
    Fail,
}

/// Classifies a failure inside the transaction: an unknown commit outcome or a
/// transient error is retried from scratch, anything else is fatal.
pub fn commit_verdict(unknown_commit_result: bool, transient: bool) -> (r: CommitVerdict)
    ensures
        r == (if unknown_commit_result || transient {
            CommitVerdict::Retry
        } else {
            CommitVerdict::Fail
        }),
{
    if unknown_commit_result || transient {
        CommitVerdict::Retry
    } else {
        CommitVerdict::Fail
    }
}

/// The identity part of the store: account hash to display name, and the
/// polled roster.
pub struct IdentityState {
    pub accounts: Map<Seq<char>, Seq<char>>,
    pub usernames: Set<Seq<char>>,
}

pub open spec fn apply_op(names: Set<Seq<char>>, op: UsernameOpView) -> Set<Seq<char>> {
    match op {
        UsernameOpView::Upsert(n) => names.insert(n),
        UsernameOpView::Delete(n) => names.remove(n),
    }
}

/// The roster after the changes, in order.
pub open spec fn apply_ops(names: Set<Seq<char>>, ops: Seq<UsernameOpView>) -> Set<Seq<char>>
    decreases ops.len(),
{
    if ops.len() == 0 {
        names
    } else {
        apply_op(apply_ops(names, ops.drop_last()), ops.last())
    }
}

/// The store after one committed reconciliation of `(hash, name)`.
pub open spec fn reconcile_spec(s: IdentityState, hash: Seq<char>, name: Seq<char>) -> IdentityState {
    let seen = if s.accounts.contains_key(hash) {
        Some((hash, s.accounts[hash]))
    } else {
        None
    };
    IdentityState {
        accounts: s.accounts.insert(hash, name),
        usernames: apply_ops(s.usernames, reconcile_ops_spec(name, seen)),
    }
}

proof fn lemma_reconcile_result(s: IdentityState, hash: Seq<char>, name: Seq<char>)
    ensures
        reconcile_spec(s, hash, name).accounts == s.accounts.insert(hash, name),
        reconcile_spec(s, hash, name).usernames.contains(name),
        s.accounts.contains_key(hash) && s.accounts[hash] != name ==> !reconcile_spec(
            s,
            hash,
            name,
        ).usernames.contains(s.accounts[hash]),
{
    let seen = if s.accounts.contains_key(hash) {
        Some((hash, s.accounts[hash]))
    } else {
        None
    };
    let ops = reconcile_ops_spec(name, seen);
    let u = s.usernames;
    if ops.len() == 2 {
        assert(ops.drop_last().drop_last() =~= Seq::<UsernameOpView>::empty());
        assert(apply_ops(u, ops.drop_last().drop_last()) == u);
        assert(apply_ops(u, ops.drop_last()) == u.insert(name));
        assert(apply_ops(u, ops) == u.insert(name).remove(s.accounts[hash]));
    } else {
        assert(ops.drop_last() =~= Seq::<UsernameOpView>::empty());
        assert(apply_ops(u, ops.drop_last()) == u);
        assert(apply_ops(u, ops) == u.insert(name));
    }
}

/// A rename: after `(hash, a)` and then `(hash, b)` are reconciled, the account
/// goes by `b`, and the roster holds `b` and not `a`.
pub proof fn lemma_rename_reconciled(s: IdentityState, hash: Seq<char>, a: Seq<char>, b: Seq<char>)
    requires
        a != b,
    ensures
        ({
            let s2 = reconcile_spec(reconcile_spec(s, hash, a), hash, b);
            &&& s2.accounts[hash] == b
            &&& s2.usernames.contains(b)
            &&& !s2.usernames.contains(a)
        }),
{
    let s1 = reconcile_spec(s, hash, a);
    lemma_reconcile_result(s, hash, a);
    lemma_reconcile_result(s1, hash, b);
}

/// Reconciling the same `(hash, name)` again changes nothing: the second
/// request leaves the state that the first left.
pub proof fn lemma_reconcile_idempotent(s: IdentityState, hash: Seq<char>, name: Seq<char>)
    ensures
        reconcile_spec(reconcile_spec(s, hash, name), hash, name) == reconcile_spec(s, hash, name),
{
    let s1 = reconcile_spec(s, hash, name);
    lemma_reconcile_result(s, hash, name);
    let s2 = reconcile_spec(s1, hash, name);
    let ops = reconcile_ops_spec(name, Some((hash, s1.accounts[hash])));
    assert(ops.drop_last() =~= Seq::<UsernameOpView>::empty());
    assert(apply_ops(s1.usernames, ops.drop_last()) == s1.usernames);
    assert(s2.usernames == s1.usernames.insert(name));
    assert(s2.usernames =~= s1.usernames);
    assert(s2.accounts =~= s1.accounts);
}

} // verus!
