//! The table as a mathematical value, and what each operation does to it.

use vstd::prelude::*;

use crate::account::AccountView;
use crate::error::TableError;
use crate::hash::{key_bucket, BUCKET_COUNT};
use crate::validation::violation;

verus! {

/// The first account of `row`, in insertion order, that answers the query.
pub open spec fn lookup(row: Seq<AccountView>, user: Seq<char>, pass: Seq<char>) -> Option<
    AccountView,
>
    decreases row.len(),
{
    if row.len() == 0 {
        None
    } else {
        match lookup(row.drop_last(), user, pass) {
            Some(account) => Some(account),
            None => if row.last().answers(user, pass) {
                Some(row.last())
            } else {
                None
            },
        }
    }
}

/// Whether some account of `row` has the username `user`.
pub open spec fn holds_user(row: Seq<AccountView>, user: Seq<char>) -> bool {
    exists|k: int| 0 <= k < row.len() && #[trigger] row[k].user == user
}

/// The number of accounts in all of `rows`.
pub open spec fn count(rows: Seq<Seq<AccountView>>) -> nat
    decreases rows.len(),
{
    if rows.len() == 0 {
        0
    } else {
        count(rows.drop_last()) + rows.last().len()
    }
}

/// A table: its buckets, each in insertion order, and the highest id given
/// out so far.
pub struct TableView {
    pub rows: Seq<Seq<AccountView>>,
    pub issued: nat,
}

impl TableView {
    /// The table with every bucket empty.
    pub open spec fn empty() -> TableView {
        TableView { rows: Seq::new(BUCKET_COUNT as nat, |i: int| Seq::empty()), issued: 0 }
    }

    /// The table that holds exactly the buckets `rows`.
    pub open spec fn from_rows(rows: Seq<Seq<AccountView>>) -> TableView {
        TableView { rows, issued: highest_id(rows) }
    }

    /// The table has one row for each bucket, and `issued` is the highest id
    /// that it stores, or 0 where it stores nothing.
    pub open spec fn wf(self) -> bool {
        &&& self.rows.len() == BUCKET_COUNT
        &&& is_highest_id(self.rows, self.issued)
    }

    /// Whether `(i, k)` is the place of an account: row `i`, position `k`.
    pub open spec fn holds(self, i: int, k: int) -> bool {
        0 <= i < self.rows.len() && 0 <= k < self.rows[i].len()
    }

    /// Every account stands in the bucket of its username.
    pub open spec fn sharded(self) -> bool {
        forall|i: int, k: int|
            self.holds(i, k) ==> key_bucket((#[trigger] self.rows[i][k]).user) == Some(i)
    }

    /// No two accounts have the same username.
    pub open spec fn distinct_users(self) -> bool {
        forall|i: int, k: int, j: int, l: int|
            self.holds(i, k) && self.holds(j, l) && (i != j || k != l) ==> (
            #[trigger] self.rows[i][k]).user != (#[trigger] self.rows[j][l]).user
    }

    /// No two accounts have the same id, and no account has the id 0.
    pub open spec fn distinct_ids(self) -> bool {
        &&& forall|i: int, k: int| self.holds(i, k) ==> (#[trigger] self.rows[i][k]).id > 0
        &&& forall|i: int, k: int, j: int, l: int|
            self.holds(i, k) && self.holds(j, l) && (i != j || k != l) ==> (
            #[trigger] self.rows[i][k]).id != (#[trigger] self.rows[j][l]).id
    }

    /// Every account has a username and a password that pass validation.
    pub open spec fn validated(self) -> bool {
        forall|i: int, k: int|
            self.holds(i, k) ==> violation(
                (#[trigger] self.rows[i][k]).user,
                self.rows[i][k].pass,
            ) is None
    }

    /// What holds of a table that was filled by `add` alone: every account is
    /// valid and stands in the bucket of its username, and no username and
    /// no id occurs twice.
    pub open spec fn consistent(self) -> bool {
        &&& self.sharded()
        &&& self.distinct_users()
        &&& self.distinct_ids()
        &&& self.validated()
    }

    /// Whether some account of the table, in whatever bucket, answers the
    /// query.
    pub open spec fn answers_anywhere(self, user: Seq<char>, pass: Seq<char>) -> bool {
        exists|i: int, k: int| self.holds(i, k) && (#[trigger] self.rows[i][k]).answers(user, pass)
    }

    /// The number of accounts stored.
    pub open spec fn total(self) -> nat {
        count(self.rows)
    }

    /// The answer to a query: the first account of the username's bucket with
    /// this username and this password. A username that has no bucket finds
    /// nothing.
    pub open spec fn find(self, user: Seq<char>, pass: Seq<char>) -> Option<AccountView> {
        match key_bucket(user) {
            Some(i) => lookup(self.rows[i], user, pass),
            None => None,
        }
    }

    /// The account that `add` creates, or the reason for which it refuses.
    pub open spec fn add_result(self, user: Seq<char>, pass: Seq<char>) -> Result<
        AccountView,
        TableError,
    > {
        match violation(user, pass) {
            Some(reason) => Err(TableError::Validation(reason)),
            None => match key_bucket(user) {
                None => Err(TableError::OutOfRange),
                Some(i) => if holds_user(self.rows[i], user) {
                    Err(TableError::UsernameTaken)
                } else {
                    Ok(AccountView { email: None, user, pass, id: self.issued + 1 })
                },
            },
        }
    }

    /// The table after `add`: the new account at the end of its bucket, or the
    /// table unchanged where `add` refuses.
    pub open spec fn after_add(self, user: Seq<char>, pass: Seq<char>) -> TableView {
        match self.add_result(user, pass) {
            Ok(account) => {
                let i = key_bucket(user).unwrap();
                TableView {
                    rows: self.rows.update(i, self.rows[i].push(account)),
                    issued: self.issued + 1,
                }
            },
            Err(_) => self,
        }
    }

    /// Every account of `earlier` stands in this table at the same place.
    pub open spec fn extends(self, earlier: TableView) -> bool {
        &&& self.rows.len() == earlier.rows.len()
        &&& forall|i: int|
            0 <= i < earlier.rows.len() ==> (#[trigger] earlier.rows[i]).len() <= self.rows[i].len()
        &&& forall|i: int, k: int|
            0 <= i < earlier.rows.len() && 0 <= k < earlier.rows[i].len() ==> (
            #[trigger] self.rows[i][k]) == earlier.rows[i][k]
    }

    /// The table after `restore` with `rows`: exactly those buckets, or the
    /// table unchanged where their number is wrong.
    pub open spec fn after_restore(self, rows: Seq<Seq<AccountView>>) -> TableView {
        if rows.len() == BUCKET_COUNT {
            TableView::from_rows(rows)
        } else {
            self
        }
    }
}

/// The table after the pairs of `pairs` were handed to `add` one by one.
pub open spec fn after_adds(table: TableView, pairs: Seq<(Seq<char>, Seq<char>)>) -> TableView
    decreases pairs.len(),
{
    if pairs.len() == 0 {
        table
    } else {
        after_adds(table, pairs.drop_last()).after_add(pairs.last().0, pairs.last().1)
    }
}

/// Whether `add` accepts every pair of `pairs`, handed to it one by one.
pub open spec fn all_accepted(table: TableView, pairs: Seq<(Seq<char>, Seq<char>)>) -> bool
    decreases pairs.len(),
{
    pairs.len() == 0 || (all_accepted(table, pairs.drop_last()) && after_adds(
        table,
        pairs.drop_last(),
    ).add_result(pairs.last().0, pairs.last().1) is Ok)
}

/// `top` is the highest id among the accounts of `rows`, or 0 where there is
/// none.
pub open spec fn is_highest_id(rows: Seq<Seq<AccountView>>, top: nat) -> bool {
    &&& forall|i: int, k: int|
        0 <= i < rows.len() && 0 <= k < rows[i].len() ==> (#[trigger] rows[i][k]).id <= top
    &&& top == 0 || exists|i: int, k: int|
        0 <= i < rows.len() && 0 <= k < rows[i].len() && (#[trigger] rows[i][k]).id == top
}

/// The highest id among the accounts of `rows`, or 0 where there is none.
pub open spec fn highest_id(rows: Seq<Seq<AccountView>>) -> nat {
    if exists|top: nat| is_highest_id(rows, top) {
        choose|top: nat| is_highest_id(rows, top)
    } else {
        0
    }
}

/// At most one number is the highest id of `rows`.
pub proof fn lemma_highest_id_unique(rows: Seq<Seq<AccountView>>, a: nat, b: nat)
    requires
        is_highest_id(rows, a),
        is_highest_id(rows, b),
    ensures
        a == b,
{
}

/// Where `top` is the highest id of `rows`, `highest_id` names it.
pub proof fn lemma_highest_id(rows: Seq<Seq<AccountView>>, top: nat)
    requires
        is_highest_id(rows, top),
    ensures
        highest_id(rows) == top,
{
    lemma_highest_id_unique(rows, top, highest_id(rows));
}

/// The highest id among the accounts of one row, or 0 where it is empty.
proof fn lemma_row_highest(row: Seq<AccountView>) -> (top: nat)
    ensures
        forall|k: int| 0 <= k < row.len() ==> (#[trigger] row[k]).id <= top,
        top == 0 || exists|k: int| 0 <= k < row.len() && (#[trigger] row[k]).id == top,
    decreases row.len(),
{
    if row.len() == 0 {
        0
    } else {
        let front = row.drop_last();
        let before = lemma_row_highest(front);
        assert forall|k: int| 0 <= k < front.len() implies #[trigger] row[k] == front[k] by {}
        if row.last().id > before {
            assert(row[row.len() - 1].id == row.last().id);
            row.last().id
        } else {
            if before != 0 {
                let k = choose|k: int| 0 <= k < front.len() && (#[trigger] front[k]).id == before;
                assert(row[k].id == before);
            }
            before
        }
    }
}

/// Every list of rows has a highest id.
pub proof fn lemma_highest_id_exists(rows: Seq<Seq<AccountView>>)
    ensures
        is_highest_id(rows, highest_id(rows)),
    decreases rows.len(),
{
    if rows.len() == 0 {
        assert(is_highest_id(rows, 0));
    } else {
        let front = rows.drop_last();
        lemma_highest_id_exists(front);
        let before = highest_id(front);
        let here = lemma_row_highest(rows.last());
        assert forall|i: int| 0 <= i < front.len() implies #[trigger] rows[i] == front[i] by {}
        if here > before {
            let k = choose|k: int|
                0 <= k < rows.last().len() && (#[trigger] rows.last()[k]).id == here;
            assert(rows[rows.len() - 1][k].id == here);
            assert(is_highest_id(rows, here));
        } else {
            if before != 0 {
                let (i, k) = choose|i: int, k: int|
                    0 <= i < front.len() && 0 <= k < front[i].len() && (#[trigger] front[i][k]).id
                        == before;
                assert(rows[i][k].id == before);
            }
            assert(is_highest_id(rows, before));
        }
    }
}

/// A query is answered by an account exactly when the account is the first of
/// the row that has this username and this password.
pub proof fn lemma_lookup_first(row: Seq<AccountView>, user: Seq<char>, pass: Seq<char>)
    ensures
        match lookup(row, user, pass) {
            Some(account) => exists|k: int|
                0 <= k < row.len() && #[trigger] row[k] == account && account.answers(user, pass)
                    && forall|j: int| 0 <= j < k ==> !(#[trigger] row[j]).answers(user, pass),
            None => forall|j: int| 0 <= j < row.len() ==> !(#[trigger] row[j]).answers(user, pass),
        },
    decreases row.len(),
{
    if row.len() > 0 {
        let front = row.drop_last();
        lemma_lookup_first(front, user, pass);
        match lookup(front, user, pass) {
            Some(account) => {
                let k = choose|k: int|
                    0 <= k < front.len() && #[trigger] front[k] == account && account.answers(
                        user,
                        pass,
                    ) && forall|j: int| 0 <= j < k ==> !(#[trigger] front[j]).answers(user, pass);
                assert(row[k] == account);
                assert forall|j: int| 0 <= j < k implies !(#[trigger] row[j]).answers(
                    user,
                    pass,
                ) by {
                    assert(front[j] == row[j]);
                }
            },
            None => {
                assert forall|j: int| 0 <= j < row.len() - 1 implies !(#[trigger] row[j]).answers(
                    user,
                    pass,
                ) by {
                    assert(front[j] == row[j]);
                }
                if row.last().answers(user, pass) {
                    assert(row[row.len() - 1] == row.last());
                }
            },
        }
    }
}

/// An answer found in the first `n` accounts of a row is the answer of the
/// whole row.
pub proof fn lemma_lookup_prefix(
    row: Seq<AccountView>,
    n: int,
    user: Seq<char>,
    pass: Seq<char>,
)
    requires
        0 <= n <= row.len(),
        lookup(row.take(n), user, pass) is Some,
    ensures
        lookup(row, user, pass) == lookup(row.take(n), user, pass),
    decreases row.len() - n,
{
    if n < row.len() {
        assert(row.take(n + 1).drop_last() == row.take(n));
        lemma_lookup_prefix(row, n + 1, user, pass);
    } else {
        assert(row.take(n) == row);
    }
}

/// Replacing one row by a row that is longer by one raises the count by one.
pub proof fn lemma_count_push(rows: Seq<Seq<AccountView>>, i: int, account: AccountView)
    requires
        0 <= i < rows.len(),
    ensures
        count(rows.update(i, rows[i].push(account))) == count(rows) + 1,
    decreases rows.len(),
{
    let after = rows.update(i, rows[i].push(account));
    if i == rows.len() - 1 {
        assert(after.drop_last() == rows.drop_last());
    } else {
        lemma_count_push(rows.drop_last(), i, account);
        assert(after.drop_last() == rows.drop_last().update(i, rows[i].push(account)));
    }
}

/// The first `n` rows hold no more accounts than all of them.
pub proof fn lemma_count_take(rows: Seq<Seq<AccountView>>, n: int)
    requires
        0 <= n <= rows.len(),
    ensures
        count(rows.take(n)) <= count(rows),
    decreases rows.len() - n,
{
    if n < rows.len() {
        assert(rows.take(n + 1).drop_last() == rows.take(n));
        lemma_count_take(rows, n + 1);
    } else {
        assert(rows.take(n) == rows);
    }
}

/// Rows that are all empty hold no account.
pub proof fn lemma_count_empty(rows: Seq<Seq<AccountView>>)
    requires
        forall|i: int| 0 <= i < rows.len() ==> (#[trigger] rows[i]).len() == 0,
    ensures
        count(rows) == 0,
    decreases rows.len(),
{
    if rows.len() > 0 {
        lemma_count_empty(rows.drop_last());
    }
}

} // verus!
