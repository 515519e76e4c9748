//! The account table: a fixed array of buckets of accounts.

use vstd::prelude::*;

use crate::account::{Account, AccountView};
use crate::error::TableError;
use crate::hash::{hash, key_bucket, lemma_key_bucket_in_range, BUCKET_COUNT};
use crate::laws::{law_add_keeps_accounts, law_add_keeps_consistent};
use crate::model::{
    after_adds, count, holds_user, is_highest_id, lemma_count_empty, lemma_count_push,
    lemma_count_take, lemma_highest_id, lemma_lookup_prefix, lookup, TableView,
};
use crate::random::{drawn_text, randstr};
use crate::validation::validate;

verus! {

/// The accounts of one bucket as mathematical values.
pub open spec fn row_view(row: Seq<Account>) -> Seq<AccountView> {
    row.map_values(|account: Account| account@)
}

/// The buckets of a snapshot as mathematical values.
pub open spec fn rows_view(rows: Seq<Vec<Account>>) -> Seq<Seq<AccountView>> {
    rows.map_values(|row: Vec<Account>| row_view(row@))
}

/// What a lookup returns, as a mathematical value.
pub open spec fn found_view(found: Option<Account>) -> Option<AccountView> {
    match found {
        Some(account) => Some(account@),
        None => None,
    }
}

/// The sharded account table.
pub struct Database {
    buckets: Vec<Vec<Account>>,
    issued: usize,
}

impl View for Database {
    type V = TableView;

    closed spec fn view(&self) -> TableView {
        TableView { rows: rows_view(self.buckets@), issued: self.issued as nat }
    }
}

impl Database {
    /// The invariant of every table: one row for each bucket, and a counter
    /// that is the highest id stored.
    pub open spec fn wf(&self) -> bool {
        self@.wf()
    }

    /// A table with every bucket empty.
    pub fn new() -> (table: Database)
        ensures
            table.wf(),
            table@ == TableView::empty(),
            table@.total() == 0,
    {
        let mut buckets: Vec<Vec<Account>> = Vec::new();
        let mut i: usize = 0;
        while i < BUCKET_COUNT
            invariant
                i <= BUCKET_COUNT,
                buckets@.len() == i,
                forall|j: int| 0 <= j < i ==> (#[trigger] buckets@[j])@.len() == 0,
            decreases BUCKET_COUNT - i,
        {
            buckets.push(Vec::new());
            i = i + 1;
        }
        let table = Database { buckets, issued: 0 };
        proof {
            assert(table@.rows =~= TableView::empty().rows) by {
                assert forall|j: int| 0 <= j < BUCKET_COUNT implies table@.rows[j]
                    =~= Seq::<AccountView>::empty() by {}
            }
            lemma_count_empty(table@.rows);
        }
        table
    }

    /// The highest id given out so far; the next account gets the one after.
    pub fn issued(&self) -> (n: usize)
        ensures
            n == self@.issued,
    {
        self.issued
    }

    /// Looks up the account with this username and this password in the
    /// bucket of the username.
    pub fn find(&self, user: String, pass: String) -> (found: Option<Account>)
        requires
            self.wf(),
        ensures
            found_view(found) == self@.find(user@, pass@),
    {
        let index: usize = match hash(user.as_str()) {
            Ok(i) => i as usize,
            Err(_) => {
                return None;
            },
        };
        proof {
            lemma_key_bucket_in_range(user@);
        }
        let row = &self.buckets[index];
        let ghost target = row_view(row@);
        assert(target == self@.rows[index as int]);
        let mut k: usize = 0;
        while k < row.len()
            invariant
                k <= row.len(),
                target == row_view(row@),
                key_bucket(user@) == Some(index as int),
                target == self@.rows[index as int],
                lookup(target.take(k as int), user@, pass@) is None,
            decreases row.len() - k,
        {
            let account = &row[k];
            proof {
                assert(target.take(k + 1).drop_last() == target.take(k as int));
                assert(target.take(k + 1).last() == account@);
            }
            if user == account.user && pass == account.pass {
                proof {
                    lemma_lookup_prefix(target, k + 1, user@, pass@);
                }
                return Some(account.clone());
            }
            k = k + 1;
        }
        proof {
            assert(target.take(k as int) == target);
        }
        None
    }

    /// Stores a new account for a well-formed pair whose username has a
    /// bucket and is not taken there, and returns a copy of it. Its id is one
    /// more than the highest id in the table.
    pub fn add(&mut self, user: String, pass: String) -> (r: Result<Account, TableError>)
        requires
            old(self).wf(),
            old(self)@.issued < usize::MAX,
        ensures
            final(self).wf(),
            final(self)@ == old(self)@.after_add(user@, pass@),
            match old(self)@.add_result(user@, pass@) {
                Ok(account) => r is Ok && r->Ok_0@ == account,
                Err(error) => r == Err::<Account, TableError>(error),
            },
            final(self)@.total() == old(self)@.total() + (if r is Ok {
                1nat
            } else {
                0nat
            }),
    {
        if let Err(reason) = validate(user.as_str(), pass.as_str()) {
            return Err(TableError::Validation(reason));
        }
        let index: usize = match hash(user.as_str()) {
            Ok(i) => i as usize,
            Err(error) => {
                return Err(error);
            },
        };
        proof {
            lemma_key_bucket_in_range(user@);
        }
        if self.taken(index, &user) {
            return Err(TableError::UsernameTaken);
        }
        let id: usize = self.issued + 1;
        let account = Account::new(user, pass, id);
        let stored = account.clone();
        let ghost before = self@;
        self.buckets[index].push(stored);
        self.issued = id;
        proof {
            let i = index as int;
            let after = before.rows.update(i, before.rows[i].push(account@));
            assert(self@.rows =~= after) by {
                assert forall|j: int| 0 <= j < after.len() implies self@.rows[j] =~= after[j] by {}
            }
            assert(after[i][after[i].len() - 1].id == id);
            lemma_count_push(before.rows, i, account@);
        }
        Ok(account)
    }

    /// Whether the bucket `index` holds an account with the username `user`.
    fn taken(&self, index: usize, user: &String) -> (taken: bool)
        requires
            index < self.buckets@.len(),
        ensures
            taken == holds_user(self@.rows[index as int], user@),
    {
        let row = &self.buckets[index];
        assert(row_view(row@) == self@.rows[index as int]);
        let mut k: usize = 0;
        while k < row.len()
            invariant
                k <= row.len(),
                row_view(row@) == self@.rows[index as int],
                forall|j: int| 0 <= j < k ==> (#[trigger] row@[j]).user@ != user@,
            decreases row.len() - k,
        {
            if row[k].user == *user {
                assert(row_view(row@)[k as int].user == user@);
                return true;
            }
            k = k + 1;
        }
        assert forall|j: int| 0 <= j < self@.rows[index as int].len() implies (
        #[trigger] self@.rows[index as int][j]).user != user@ by {
            assert(row_view(row@)[j] == row@[j]@);
        }
        false
    }

    /// The number of accounts stored: the sum of the lengths of all buckets.
    pub fn total(&self) -> (n: usize)
        requires
            self@.total() <= usize::MAX,
        ensures
            n == self@.total(),
    {
        let mut n: usize = 0;
        let mut i: usize = 0;
        while i < self.buckets.len()
            invariant
                i <= self.buckets@.len(),
                n == count(self@.rows.take(i as int)),
                self@.total() <= usize::MAX,
            decreases self.buckets@.len() - i,
        {
            proof {
                assert(self@.rows.take(i + 1).drop_last() == self@.rows.take(i as int));
                lemma_count_take(self@.rows, i + 1);
            }
            n = n + self.buckets[i].len();
            i = i + 1;
        }
        proof {
            assert(self@.rows.take(i as int) == self@.rows);
        }
        n
    }

    /// Adds up to `amount` accounts with random usernames of 4 to 14
    /// characters and random passwords of 8 to 24 characters. A pair that
    /// `add` refuses is drawn again; at most `draws` pairs are drawn in all,
    /// and none once `amount` accounts are added. Returns the number of
    /// accounts added.
    pub fn generate_accounts(&mut self, amount: usize, draws: usize) -> (added: usize)
        requires
            old(self).wf(),
            old(self)@.issued + amount <= usize::MAX,
        ensures
            final(self).wf(),
            exists|pairs: Seq<(Seq<char>, Seq<char>)>|
                generated(
                    old(self)@,
                    final(self)@,
                    amount as nat,
                    draws as nat,
                    added as nat,
                    pairs,
                ),
            final(self)@.extends(old(self)@),
            final(self)@.issued == old(self)@.issued + added,
            old(self)@.consistent() ==> final(self)@.consistent(),
    {
        let ghost mut pairs: Seq<(Seq<char>, Seq<char>)> = Seq::empty();
        let mut added: usize = 0;
        let mut drawn: usize = 0;
        while added < amount && drawn < draws
            invariant
                self.wf(),
                added <= amount,
                added <= drawn <= draws,
                old(self)@.issued + amount <= usize::MAX,
                pairs.len() == drawn,
                forall|i: int|
                    0 <= i < pairs.len() ==> drawn_text((#[trigger] pairs[i]).0, 4, 15)
                        && drawn_text(pairs[i].1, 8, 25),
                self@ == after_adds(old(self)@, pairs),
                pairs.len() > 0 ==> after_adds(old(self)@, pairs.drop_last()).total() < old(
                    self,
                )@.total() + amount,
                self@.extends(old(self)@),
                self@.total() == old(self)@.total() + added,
                self@.issued == old(self)@.issued + added,
                old(self)@.consistent() ==> self@.consistent(),
            decreases draws - drawn,
        {
            let user = randstr(4..15);
            let pass = randstr(8..25);
            proof {
                law_add_keeps_accounts(self@, user@, pass@);
                if self@.consistent() {
                    law_add_keeps_consistent(self@, user@, pass@);
                }
                assert(pairs.push((user@, pass@)).drop_last() == pairs);
                pairs = pairs.push((user@, pass@));
            }
            if self.add(user, pass).is_ok() {
                added = added + 1;
            }
            drawn = drawn + 1;
        }
        assert(generated(
            old(self)@,
            self@,
            amount as nat,
            draws as nat,
            added as nat,
            pairs,
        ));
        added
    }

    /// A full copy of every bucket, in bucket order.
    pub fn backup(&self) -> (snapshot: Vec<Vec<Account>>)
        ensures
            rows_view(snapshot@) == self@.rows,
    {
        let mut snapshot: Vec<Vec<Account>> = Vec::new();
        let mut i: usize = 0;
        while i < self.buckets.len()
            invariant
                i <= self.buckets@.len(),
                snapshot@.len() == i,
                forall|j: int| 0 <= j < i ==> (#[trigger] snapshot@[j])@ == self.buckets@[j]@,
            decreases self.buckets@.len() - i,
        {
            snapshot.push(copy_row(&self.buckets[i]));
            i = i + 1;
        }
        proof {
            assert(rows_view(snapshot@) =~= self@.rows);
        }
        snapshot
    }

    /// Replaces the whole table by `snapshot`, whose accounts are taken as
    /// they are. A snapshot that does not have one row for each bucket is
    /// refused, and the table stays as it was.
    pub fn restore(&mut self, snapshot: Vec<Vec<Account>>) -> (r: Result<(), TableError>)
        ensures
            r == restore_result(rows_view(snapshot@)),
            final(self)@ == old(self)@.after_restore(rows_view(snapshot@)),
            r is Ok || old(self).wf() ==> final(self).wf(),
    {
        if snapshot.len() != BUCKET_COUNT {
            return Err(TableError::Deserialization);
        }
        let top: usize = highest_id_of(&snapshot);
        proof {
            lemma_highest_id(rows_view(snapshot@), top as nat);
        }
        self.buckets = snapshot;
        self.issued = top;
        Ok(())
    }
}

/// What `generate_accounts` has done when it returns `added`, where `pairs`
/// are the pairs that it drew, in their order: it handed each of them to
/// `add`, `added` of them were accepted, and it stopped as soon as `amount`
/// were added or `draws` were drawn.
pub open spec fn generated(
    before: TableView,
    after: TableView,
    amount: nat,
    draws: nat,
    added: nat,
    pairs: Seq<(Seq<char>, Seq<char>)>,
) -> bool {
    &&& pairs.len() <= draws
    &&& forall|i: int|
        0 <= i < pairs.len() ==> drawn_text((#[trigger] pairs[i]).0, 4, 15) && drawn_text(
            pairs[i].1,
            8,
            25,
        )
    &&& after == after_adds(before, pairs)
    &&& after.total() == before.total() + added
    &&& added <= amount
    &&& added == amount || pairs.len() == draws
    &&& pairs.len() > 0 ==> after_adds(before, pairs.drop_last()).total() < before.total() + amount
}

/// What `restore` answers to a snapshot with the rows `rows`.
pub open spec fn restore_result(rows: Seq<Seq<AccountView>>) -> Result<(), TableError> {
    if rows.len() == BUCKET_COUNT {
        Ok(())
    } else {
        Err(TableError::Deserialization)
    }
}

/// A copy of one bucket.
fn copy_row(row: &Vec<Account>) -> (copy: Vec<Account>)
    ensures
        copy@ == row@,
{
    let mut copy: Vec<Account> = Vec::new();
    let mut k: usize = 0;
    while k < row.len()
        invariant
            k <= row.len(),
            copy@ == row@.take(k as int),
        decreases row.len() - k,
    {
        copy.push(row[k].clone());
        assert(copy@ =~= row@.take(k + 1));
        k = k + 1;
    }
    assert(row@.take(k as int) == row@);
    copy
}

/// The highest id among the accounts of `snapshot`, or 0 where it is empty.
fn highest_id_of(snapshot: &Vec<Vec<Account>>) -> (top: usize)
    ensures
        is_highest_id(rows_view(snapshot@), top as nat),
{
    let ghost rows = rows_view(snapshot@);
    let ghost mut at: (int, int) = (0, 0);
    let mut top: usize = 0;
    let mut i: usize = 0;
    while i < snapshot.len()
        invariant
            i <= snapshot@.len(),
            rows == rows_view(snapshot@),
            forall|a: int, b: int|
                0 <= a < i && 0 <= b < rows[a].len() ==> (#[trigger] rows[a][b]).id <= top,
            top == 0 || (0 <= at.0 < rows.len() && 0 <= at.1 < rows[at.0].len()
                && rows[at.0][at.1].id == top),
        decreases snapshot@.len() - i,
    {
        let row = &snapshot[i];
        assert(row_view(row@) == rows[i as int]);
        let mut k: usize = 0;
        while k < row.len()
            invariant
                i < snapshot@.len(),
                k <= row.len(),
                rows == rows_view(snapshot@),
                row_view(row@) == rows[i as int],
                forall|a: int, b: int|
                    0 <= a < i && 0 <= b < rows[a].len() ==> (#[trigger] rows[a][b]).id <= top,
                forall|b: int| 0 <= b < k ==> (#[trigger] rows[i as int][b]).id <= top,
                top == 0 || (0 <= at.0 < rows.len() && 0 <= at.1 < rows[at.0].len()
                    && rows[at.0][at.1].id == top),
            decreases row.len() - k,
        {
            assert(row_view(row@)[k as int] == row@[k as int]@);
            if row[k].id > top {
                top = row[k].id;
                proof {
                    at = (i as int, k as int);
                }
            }
            k = k + 1;
        }
        i = i + 1;
    }
    proof {
        if top != 0 {
            assert(rows[at.0][at.1].id == top);
        }
    }
    top
}

} // verus!
