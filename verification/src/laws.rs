//! What holds of the table across several operations.

use vstd::prelude::*;
use vstd::utf8::{encode_utf8, is_ascii_chars_encode_utf8};

use crate::account::AccountView;
use crate::error::TableError;
use crate::hash::{key_bucket, lemma_key_bucket_in_range, BUCKET_COUNT};
use crate::model::{
    after_adds, all_accepted, holds_user, lemma_count_empty, lemma_count_push, lemma_highest_id,
    lemma_highest_id_exists, lemma_lookup_first, lookup, TableView,
};
use crate::random::{drawn_text, lemma_drawable_printable};
use crate::validation::violation;

verus! {

/// A row without the username answers no query for it.
pub proof fn lemma_absent_user_not_found(row: Seq<AccountView>, user: Seq<char>, pass: Seq<char>)
    requires
        !holds_user(row, user),
    ensures
        lookup(row, user, pass) is None,
{
    lemma_lookup_first(row, user, pass);
    if let Some(account) = lookup(row, user, pass) {
        let k = choose|k: int|
            0 <= k < row.len() && #[trigger] row[k] == account && account.answers(user, pass);
        assert(row[k].user == user);
    }
}

/// `add` keeps the invariant of the table, and a successful `add` raises the
/// number of accounts by one; a refused one leaves the table as it was.
pub proof fn law_add_keeps_table(table: TableView, user: Seq<char>, pass: Seq<char>)
    requires
        table.wf(),
    ensures
        table.after_add(user, pass).wf(),
        table.add_result(user, pass) is Ok ==> table.after_add(user, pass).total() == table.total()
            + 1,
        table.add_result(user, pass) is Err ==> table.after_add(user, pass) == table,
{
    if let Ok(account) = table.add_result(user, pass) {
        lemma_key_bucket_in_range(user);
        let i = key_bucket(user).unwrap();
        let after = table.after_add(user, pass);
        lemma_count_push(table.rows, i, account);
        assert(after.rows[i][after.rows[i].len() - 1].id == after.issued);
    }
}

/// `add` moves and removes nothing: every account stored before stands at the
/// same place afterwards.
pub proof fn law_add_keeps_accounts(table: TableView, user: Seq<char>, pass: Seq<char>)
    requires
        table.wf(),
    ensures
        table.after_add(user, pass).extends(table),
{
    lemma_key_bucket_in_range(user);
}

/// For a well-formed pair whose username has a bucket and is not yet stored,
/// `add` succeeds, and `find` with the same pair then returns the account
/// that `add` created.
pub proof fn law_add_then_find(table: TableView, user: Seq<char>, pass: Seq<char>)
    requires
        table.wf(),
        violation(user, pass) is None,
        key_bucket(user) matches Some(i) && !holds_user(table.rows[i], user),
    ensures
        table.add_result(user, pass) is Ok,
        table.after_add(user, pass).find(user, pass) == Some(table.add_result(user, pass)->Ok_0),
{
    lemma_key_bucket_in_range(user);
    let i = key_bucket(user).unwrap();
    let account = table.add_result(user, pass)->Ok_0;
    let row = table.rows[i].push(account);
    lemma_absent_user_not_found(table.rows[i], user, pass);
    assert(row.drop_last() == table.rows[i]);
    assert(row.last() == account);
}

/// After a successful `add`, a second `add` with the same username and any
/// well-formed password is refused with `UsernameTaken`, and changes nothing.
pub proof fn law_add_twice(
    table: TableView,
    user: Seq<char>,
    pass: Seq<char>,
    again: Seq<char>,
)
    requires
        table.wf(),
        table.add_result(user, pass) is Ok,
        violation(user, again) is None,
    ensures
        table.after_add(user, pass).add_result(user, again) == Err::<AccountView, TableError>(
            TableError::UsernameTaken,
        ),
        table.after_add(user, pass).after_add(user, again) == table.after_add(user, pass),
{
    lemma_key_bucket_in_range(user);
    let i = key_bucket(user).unwrap();
    let after = table.after_add(user, pass);
    assert(after.rows[i][after.rows[i].len() - 1].user == user);
}

/// The empty table is consistent.
pub proof fn law_empty_consistent()
    ensures
        TableView::empty().wf(),
        TableView::empty().consistent(),
        TableView::empty().total() == 0,
{
    lemma_count_empty(TableView::empty().rows);
}

/// `add` keeps a consistent table consistent: the new account is valid, it
/// stands in the bucket of its username, and neither its username nor its id
/// was in the table before.
pub proof fn law_add_keeps_consistent(table: TableView, user: Seq<char>, pass: Seq<char>)
    requires
        table.wf(),
        table.consistent(),
    ensures
        table.after_add(user, pass).consistent(),
{
    if let Ok(account) = table.add_result(user, pass) {
        lemma_key_bucket_in_range(user);
        let at = key_bucket(user).unwrap();
        let end = table.rows[at].len() as int;
        let after = table.after_add(user, pass);
        assert forall|i: int, k: int| after.holds(i, k) implies (i == at && k == end
            && after.rows[i][k] == account) || (table.holds(i, k) && #[trigger] after.rows[i][k]
            == table.rows[i][k]) by {}
        assert forall|i: int, k: int| table.holds(i, k) implies (#[trigger] table.rows[i][k]).user
            != user by {
            if i == at {
                assert(!holds_user(table.rows[at], user));
            } else {
                assert(key_bucket(table.rows[i][k].user) == Some(i));
            }
        }
        assert forall|i: int, k: int| table.holds(i, k) implies (#[trigger] table.rows[i][k]).id
            != account.id by {}
    }
}

/// In a sharded table `find` misses nothing: a query finds an account exactly
/// when some account of the table, in whatever bucket, answers it.
pub proof fn law_find_scans_all(table: TableView, user: Seq<char>, pass: Seq<char>)
    requires
        table.wf(),
        table.sharded(),
    ensures
        table.find(user, pass) is Some <==> table.answers_anywhere(user, pass),
        table.find(user, pass) matches Some(account) ==> account.answers(user, pass),
{
    lemma_key_bucket_in_range(user);
    match key_bucket(user) {
        Some(at) => {
            lemma_lookup_first(table.rows[at], user, pass);
            if let Some(account) = lookup(table.rows[at], user, pass) {
                let k = choose|k: int|
                    0 <= k < table.rows[at].len() && #[trigger] table.rows[at][k] == account
                        && account.answers(user, pass);
                assert(table.holds(at, k) && table.rows[at][k].answers(user, pass));
            }
            if table.answers_anywhere(user, pass) {
                let (i, k) = choose|i: int, k: int|
                    table.holds(i, k) && (#[trigger] table.rows[i][k]).answers(user, pass);
                assert(key_bucket(table.rows[i][k].user) == Some(i));
                assert(i == at);
            }
        },
        None => {
            if table.answers_anywhere(user, pass) {
                let (i, k) = choose|i: int, k: int|
                    table.holds(i, k) && (#[trigger] table.rows[i][k]).answers(user, pass);
                assert(key_bucket(table.rows[i][k].user) == Some(i));
            }
        },
    }
}

/// A username of 4 to 14 and a password of 8 to 24 characters that `randstr`
/// can draw pass validation, and the username has a bucket: `add` refuses
/// such a pair only where the username is taken.
pub proof fn law_drawn_pair_accepted(table: TableView, user: Seq<char>, pass: Seq<char>)
    requires
        drawn_text(user, 4, 15),
        drawn_text(pass, 8, 25),
    ensures
        violation(user, pass) is None,
        key_bucket(user) is Some,
        table.add_result(user, pass) is Ok || table.add_result(user, pass) == Err::<
            AccountView,
            TableError,
        >(TableError::UsernameTaken),
{
    assert forall|i: int| 0 <= i < user.len() implies '!' <= #[trigger] user[i] <= '~' by {
        lemma_drawable_printable(user[i]);
    }
    assert forall|i: int| 0 <= i < pass.len() implies '!' <= #[trigger] pass[i] <= '~' by {
        lemma_drawable_printable(pass[i]);
    }
    is_ascii_chars_encode_utf8(user);
    let bytes = encode_utf8(user);
    assert(bytes[0] == user[0] as u8 && bytes[1] == user[1] as u8 && bytes[2] == user[2] as u8
        && bytes[3] == user[3] as u8);
}

/// After any number of successful calls of `add`, the table holds that many
/// accounts more, and has given out that many ids more.
pub proof fn law_total_counts_adds(table: TableView, pairs: Seq<(Seq<char>, Seq<char>)>)
    requires
        table.wf(),
        all_accepted(table, pairs),
    ensures
        after_adds(table, pairs).wf(),
        after_adds(table, pairs).total() == table.total() + pairs.len(),
        after_adds(table, pairs).issued == table.issued + pairs.len(),
    decreases pairs.len(),
{
    if pairs.len() > 0 {
        law_total_counts_adds(table, pairs.drop_last());
        law_add_keeps_table(after_adds(table, pairs.drop_last()), pairs.last().0, pairs.last().1);
    }
}

/// Whatever pairs are handed to `add`, accepted or not, a table that was
/// consistent stays consistent and keeps its invariant.
pub proof fn law_adds_keep_consistent(table: TableView, pairs: Seq<(Seq<char>, Seq<char>)>)
    requires
        table.wf(),
        table.consistent(),
    ensures
        after_adds(table, pairs).wf(),
        after_adds(table, pairs).consistent(),
    decreases pairs.len(),
{
    if pairs.len() > 0 {
        let before = after_adds(table, pairs.drop_last());
        law_adds_keep_consistent(table, pairs.drop_last());
        law_add_keeps_table(before, pairs.last().0, pairs.last().1);
        law_add_keeps_consistent(before, pairs.last().0, pairs.last().1);
    }
}

/// Starting from the empty table, the total after `n` successful calls of
/// `add` is `n`.
pub proof fn law_total_from_empty(pairs: Seq<(Seq<char>, Seq<char>)>)
    requires
        all_accepted(TableView::empty(), pairs),
    ensures
        after_adds(TableView::empty(), pairs).total() == pairs.len(),
{
    lemma_count_empty(TableView::empty().rows);
    law_total_counts_adds(TableView::empty(), pairs);
}

/// Restoring the snapshot that `backup` took gives the table back as it was,
/// so every query is answered as before.
pub proof fn law_backup_restore(table: TableView, user: Seq<char>, pass: Seq<char>)
    requires
        table.wf(),
    ensures
        table.after_restore(table.rows) == table,
        table.after_restore(table.rows).find(user, pass) == table.find(user, pass),
{
    lemma_highest_id(table.rows, table.issued);
}

/// `restore` with a snapshot of the right number of rows gives a table that
/// holds exactly those rows, whatever it held before, and that keeps the
/// invariant.
pub proof fn law_restore_replaces(table: TableView, rows: Seq<Seq<AccountView>>)
    requires
        rows.len() == BUCKET_COUNT,
    ensures
        table.after_restore(rows).rows == rows,
        table.after_restore(rows) == TableView::from_rows(rows),
        table.after_restore(rows).wf(),
{
    lemma_highest_id_exists(rows);
}

/// `restore` with a snapshot of another number of rows changes nothing.
pub proof fn law_restore_refuses(table: TableView, rows: Seq<Seq<AccountView>>)
    requires
        rows.len() != BUCKET_COUNT,
    ensures
        table.after_restore(rows) == table,
{
}

} // verus!
