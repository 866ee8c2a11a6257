//! The participants who have paid, the fastest first.

use vstd::prelude::*;
use crate::clock::Duration;
use crate::pages::{board_row, board_row_text, BOARD_FOOT, BOARD_HEAD};
use crate::text::decimal_text;
use crate::user::{UserState, UserStateView};
use crate::users::{Users, UserView};

verus! {

/// A participant and the time between invoice and payment.
#[derive(Debug)]
pub struct Row {
    pub passphrase: String,
    pub time: Duration,
}

/// What a `Row` says.
pub struct RowView {
    pub passphrase: Seq<char>,
    pub time: Duration,
}

impl View for Row {
    type V = RowView;

    open spec fn view(&self) -> RowView {
        RowView { passphrase: self.passphrase@, time: self.time }
    }
}

/// The views of rows.
pub open spec fn row_views(rows: Seq<Row>) -> Seq<RowView> {
    rows.map_values(|row: Row| row@)
}

/// Whether everybody who paid did so at or after the time of the invoice.
pub open spec fn times_known(users: Seq<UserView>) -> bool {
    forall|i: int|
        0 <= i < users.len() && (#[trigger] users[i]).state is PaidInvoice
            ==> users[i].state.time_diff() is Some
}

/// Those who paid, with their times, in the order in which they came.
pub open spec fn finishers(users: Seq<UserView>) -> Seq<RowView>
    decreases users.len(),
{
    if users.len() == 0 {
        Seq::empty()
    } else {
        let before = finishers(users.drop_last());
        let user = users.last();
        if user.state is PaidInvoice {
            before.push(
                RowView { passphrase: user.passphrase, time: user.state.time_diff().unwrap() },
            )
        } else {
            before
        }
    }
}

/// `rows` with one more, below those that are as fast or faster.
pub open spec fn placed(rows: Seq<RowView>, row: RowView) -> Seq<RowView>
    decreases rows.len(),
{
    if rows.len() == 0 || rows.last().time.nanos <= row.time.nanos {
        rows.push(row)
    } else {
        placed(rows.drop_last(), row).push(rows.last())
    }
}

/// `rows` by time; of equal times the first comes first.
pub open spec fn ranking(rows: Seq<RowView>) -> Seq<RowView>
    decreases rows.len(),
{
    if rows.len() == 0 {
        Seq::empty()
    } else {
        placed(ranking(rows.drop_last()), rows.last())
    }
}

/// The text of rows, one after the other.
pub open spec fn rows_text(rows: Seq<RowView>) -> Seq<char>
    decreases rows.len(),
{
    if rows.len() == 0 {
        Seq::empty()
    } else {
        rows_text(rows.drop_last()) + board_row_text(rows.last().passphrase, rows.last().time)
    }
}

/// The leaderboard.
pub open spec fn board_text(users: Seq<UserView>) -> Seq<char> {
    BOARD_HEAD@ + rows_text(ranking(finishers(users))) + BOARD_FOOT@
}

/// Whether no row is faster than one above it.
pub open spec fn is_sorted(rows: Seq<RowView>) -> bool {
    forall|i: int, j: int|
        0 <= i <= j < rows.len() ==> (#[trigger] rows[i]).time.nanos <= (
        #[trigger] rows[j]).time.nanos
}

/// The rows with a given time.
pub open spec fn with_time(rows: Seq<RowView>, time: Duration) -> Seq<RowView>
    decreases rows.len(),
{
    if rows.len() == 0 {
        Seq::empty()
    } else if rows.last().time == time {
        with_time(rows.drop_last(), time).push(rows.last())
    } else {
        with_time(rows.drop_last(), time)
    }
}

/// Whether the row is that of a participant who has paid.
pub open spec fn finished_as(user: UserView, row: RowView) -> bool {
    &&& user.state is PaidInvoice
    &&& user.passphrase == row.passphrase
    &&& user.state.time_diff().unwrap() == row.time
}

/// Whether the row is that of one of the participants, who has paid.
pub open spec fn has_finished(users: Seq<UserView>, row: RowView) -> bool {
    exists|i: int| 0 <= i < users.len() && finished_as(#[trigger] users[i], row)
}

proof fn lemma_placed_at(rows: Seq<RowView>, row: RowView, k: int)
    requires
        0 <= k <= rows.len(),
        k > 0 ==> rows[k - 1].time.nanos <= row.time.nanos,
        forall|j: int| k <= j < rows.len() ==> (#[trigger] rows[j]).time.nanos > row.time.nanos,
    ensures
        placed(rows, row) == rows.insert(k, row),
    decreases rows.len(),
{
    if k < rows.len() {
        lemma_placed_at(rows.drop_last(), row, k);
        assert(rows.insert(k, row) == rows.drop_last().insert(k, row).push(rows.last()));
    } else {
        assert(rows.insert(k, row) == rows.push(row));
    }
}

proof fn lemma_placed_sorted(rows: Seq<RowView>, row: RowView)
    requires
        is_sorted(rows),
    ensures
        is_sorted(placed(rows, row)),
        placed(rows, row).len() == rows.len() + 1,
        forall|i: int|
            0 <= i < placed(rows, row).len() ==> (#[trigger] placed(rows, row)[i]) == row
                || rows.contains(placed(rows, row)[i]),
    decreases rows.len(),
{
    if rows.len() == 0 || rows.last().time.nanos <= row.time.nanos {
    } else {
        let front = rows.drop_last();
        lemma_placed_sorted(front, row);
        let res = placed(rows, row);
        assert(res.drop_last() == placed(front, row));
        assert forall|i: int| 0 <= i < res.len() implies (#[trigger] res[i]) == row
            || rows.contains(res[i]) by {
            if i < res.len() - 1 {
                assert(res[i] == placed(front, row)[i]);
                if front.contains(res[i]) {
                    let j = choose|j: int| 0 <= j < front.len() && front[j] == res[i];
                    assert(rows[j] == res[i]);
                }
            } else {
                assert(rows[rows.len() - 1] == res[i]);
            }
        }
        assert forall|i: int, j: int| 0 <= i <= j < res.len() implies (
        #[trigger] res[i]).time.nanos <= (#[trigger] res[j]).time.nanos by {
            if j == res.len() - 1 {
                if res[i] != row {
                    let m = choose|m: int| 0 <= m < rows.len() && rows[m] == res[i];
                    assert(rows[m].time.nanos <= rows[rows.len() - 1].time.nanos);
                }
            } else {
                assert(res[i] == placed(front, row)[i]);
                assert(res[j] == placed(front, row)[j]);
            }
        }
    }
}

proof fn lemma_placed_multiset(rows: Seq<RowView>, row: RowView)
    ensures
        placed(rows, row).to_multiset() == rows.to_multiset().insert(row),
    decreases rows.len(),
{
    broadcast use vstd::seq_lib::group_to_multiset_ensures;

    if rows.len() == 0 || rows.last().time.nanos <= row.time.nanos {
    } else {
        lemma_placed_multiset(rows.drop_last(), row);
        assert(rows == rows.drop_last().push(rows.last()));
        assert(placed(rows, row).to_multiset() == rows.drop_last().to_multiset().insert(row).insert(
            rows.last(),
        ));
        assert(rows.to_multiset() == rows.drop_last().to_multiset().insert(rows.last()));
        assert(rows.drop_last().to_multiset().insert(row).insert(rows.last())
            == rows.drop_last().to_multiset().insert(rows.last()).insert(row));
    }
}

proof fn lemma_placed_with_time(rows: Seq<RowView>, row: RowView, time: Duration)
    ensures
        with_time(placed(rows, row), time) == if row.time == time {
            with_time(rows, time).push(row)
        } else {
            with_time(rows, time)
        },
    decreases rows.len(),
{
    if rows.len() == 0 || rows.last().time.nanos <= row.time.nanos {
        assert(rows.push(row).drop_last() == rows);
    } else {
        let front = placed(rows.drop_last(), row);
        lemma_placed_with_time(rows.drop_last(), row, time);
        assert(front.push(rows.last()).drop_last() == front);
    }
}

/// The ranking lists exactly the given rows, none slower above a faster one,
/// and rows of equal time in the order in which they were given.
pub proof fn law_ranking(rows: Seq<RowView>)
    ensures
        is_sorted(ranking(rows)),
        ranking(rows).to_multiset() == rows.to_multiset(),
        forall|time: Duration| #[trigger] with_time(ranking(rows), time) == with_time(rows, time),
    decreases rows.len(),
{
    broadcast use vstd::seq_lib::group_to_multiset_ensures;

    if rows.len() > 0 {
        let front = rows.drop_last();
        law_ranking(front);
        lemma_placed_sorted(ranking(front), rows.last());
        lemma_placed_multiset(ranking(front), rows.last());
        assert(rows == front.push(rows.last()));
        assert forall|time: Duration| #[trigger]
            with_time(ranking(rows), time) == with_time(rows, time) by {
            lemma_placed_with_time(ranking(front), rows.last(), time);
            assert(with_time(ranking(front), time) == with_time(front, time));
        }
    }
}

/// Whoever has paid is on the leaderboard with their time, and nobody else.
pub proof fn law_finishers(users: Seq<UserView>, row: RowView)
    ensures
        ranking(finishers(users)).contains(row) <==> has_finished(users, row),
{
    broadcast use vstd::seq_lib::group_to_multiset_ensures;

    let rows = finishers(users);
    law_ranking(rows);
    assert(ranking(rows).contains(row) <==> rows.contains(row)) by {
        assert(ranking(rows).to_multiset().count(row) == rows.to_multiset().count(row));
    }
    lemma_finishers_contains(users, row);
}

proof fn lemma_finishers_contains(users: Seq<UserView>, row: RowView)
    ensures
        finishers(users).contains(row) <==> has_finished(users, row),
    decreases users.len(),
{
    if users.len() > 0 {
        let front = users.drop_last();
        let rows = finishers(front);
        let last = users[users.len() - 1];
        lemma_finishers_contains(front, row);
        if finishers(users).contains(row) && !rows.contains(row) {
            assert(users[users.len() - 1].passphrase == row.passphrase);
        }
        if rows.contains(row) {
            let i = choose|i: int| 0 <= i < front.len() && finished_as(#[trigger] front[i], row);
            assert(users[i] == front[i]);
            let k = choose|k: int| 0 <= k < rows.len() && rows[k] == row;
            assert(finishers(users)[k] == row);
        }
        if has_finished(users, row) {
            let i = choose|i: int| 0 <= i < users.len() && finished_as(#[trigger] users[i], row);
            if i < front.len() {
                assert(front[i] == users[i]);
            } else {
                assert(finishers(users).last() == row);
                assert(finishers(users)[finishers(users).len() - 1] == row);
            }
        }
    }
}

proof fn lemma_finishers_are(users: Seq<UserView>)
    requires
        forall|i: int|
            0 <= i < users.len() ==> match (#[trigger] users[i]).state {
                UserStateView::PaidInvoice { time_created, time_paid, .. } => time_created.at()
                    <= time_paid.at(),
                _ => true,
            },
    ensures
        finishers(users) == users.filter(
            |user: UserView| user.state is PaidInvoice,
        ).map_values(
            |user: UserView|
                RowView {
                    passphrase: user.passphrase,
                    time: Duration {
                        nanos: (user.state->PaidInvoice_time_paid.at()
                            - user.state->PaidInvoice_time_created.at()) as u128,
                    },
                },
        ),
    decreases users.len(),
{
    reveal(Seq::filter);
    let has_paid = |user: UserView| user.state is PaidInvoice;
    let row = |user: UserView|
        RowView {
            passphrase: user.passphrase,
            time: Duration {
                nanos: (user.state->PaidInvoice_time_paid.at()
                    - user.state->PaidInvoice_time_created.at()) as u128,
            },
        };
    if users.len() == 0 {
        assert(finishers(users) == users.filter(has_paid).map_values(row));
    } else {
        let front = users.drop_last();
        assert forall|i: int| 0 <= i < front.len() implies match (#[trigger] front[i]).state {
            UserStateView::PaidInvoice { time_created, time_paid, .. } => time_created.at()
                <= time_paid.at(),
            _ => true,
        } by {
            assert(users[i] == front[i]);
        }
        lemma_finishers_are(front);
        assert(users[users.len() - 1] == users.last());
        if has_paid(users.last()) {
            assert(users.filter(has_paid) == front.filter(has_paid).push(users.last()));
            assert(users.filter(has_paid).map_values(row) == front.filter(has_paid).map_values(
                row,
            ).push(row(users.last())));
        } else {
            assert(users.filter(has_paid) == front.filter(has_paid));
        }
    }
}

proof fn lemma_with_time(rows: Seq<RowView>, time: Duration)
    ensures
        with_time(rows, time) == rows.filter(|row: RowView| row.time == time),
    decreases rows.len(),
{
    reveal(Seq::filter);
    if rows.len() > 0 {
        lemma_with_time(rows.drop_last(), time);
    }
}

/// The listed text is one cell after the other.
proof fn lemma_rows_text(rows: Seq<RowView>)
    ensures
        rows_text(rows) == rows.map_values(
            |row: RowView|
                "<tr><td style=\"padding: 10px\">"@ + row.passphrase
                    + "</td><td style=\"padding: 10px\">"@ + decimal_text(
                    row.time.nanos as nat / 1_000_000_000,
                ) + "</td>"@,
        ).flatten(),
    decreases rows.len(),
{
    let cell = |row: RowView|
        "<tr><td style=\"padding: 10px\">"@ + row.passphrase
            + "</td><td style=\"padding: 10px\">"@ + decimal_text(
            row.time.nanos as nat / 1_000_000_000,
        ) + "</td>"@;
    let cells = rows.map_values(cell);
    if rows.len() > 0 {
        lemma_rows_text(rows.drop_last());
        let front = rows.drop_last().map_values(cell);
        assert(cells == front.push(cell(rows.last())));
        front.lemma_flatten_push(cell(rows.last()));
    } else {
        assert(cells.flatten() == Seq::<char>::empty());
    }
}

/// The leaderboard has one row for everybody who has paid and no other: the
/// rows are those of the participants who have paid, each with the time from
/// invoice to payment, reordered so that no row is faster than one above it
/// and rows of equal time stay in the order in which the participants came.
/// The page is the text of all these rows, one after the other, between its
/// head and its foot; each row shows the passphrase and the whole seconds.
pub proof fn law_leaderboard(users: Seq<UserView>, time: Duration)
    requires
        forall|i: int|
            0 <= i < users.len() ==> match (#[trigger] users[i]).state {
                UserStateView::PaidInvoice { time_created, time_paid, .. } => time_created.at()
                    <= time_paid.at(),
                _ => true,
            },
    ensures
        ({
            let rows = users.filter(|user: UserView| user.state is PaidInvoice).map_values(
                |user: UserView|
                    RowView {
                        passphrase: user.passphrase,
                        time: Duration {
                            nanos: (user.state->PaidInvoice_time_paid.at()
                                - user.state->PaidInvoice_time_created.at()) as u128,
                        },
                    },
            );
            let ranked = ranking(rows);
            &&& ranked.to_multiset() == rows.to_multiset()
            &&& ranked.len() == rows.len()
            &&& forall|i: int, j: int|
                0 <= i <= j < ranked.len() ==> (#[trigger] ranked[i]).time.nanos <= (
                #[trigger] ranked[j]).time.nanos
            &&& ranked.filter(|row: RowView| row.time == time) == rows.filter(
                |row: RowView| row.time == time,
            )
            &&& board_text(users)
                == "<center><meta http-equiv=\"refresh\" content=\"5\" /><table style=\"margin-left:auto;margin-right:auto;text-align: center;\"><tr style=\"border-bottom: 1px solid black\"><th style=\"padding: 10px\">Passphrase</th><th style=\"padding:10px\">Time (sec.)</th></tr>"@
                + ranked.map_values(
                |row: RowView|
                    "<tr><td style=\"padding: 10px\">"@ + row.passphrase
                        + "</td><td style=\"padding: 10px\">"@ + decimal_text(
                        row.time.nanos as nat / 1_000_000_000,
                    ) + "</td>"@,
            ).flatten() + "</table></center>"@
        }),
{
    broadcast use vstd::seq_lib::group_to_multiset_ensures;

    lemma_finishers_are(users);
    let rows = finishers(users);
    let ranked = ranking(rows);
    law_ranking(rows);
    lemma_rows_text(ranked);
    assert(ranked.len() == ranked.to_multiset().len());
    lemma_with_time(ranked, time);
    lemma_with_time(rows, time);
    assert(with_time(ranked, time) == with_time(rows, time));
}

/// Whatever the number of rows, the text of each stands after the texts of all
/// above it and before the texts of all below it.
pub proof fn law_rows_in_order(rows: Seq<RowView>, i: int)
    requires
        0 <= i < rows.len(),
    ensures
        rows_text(Seq::empty()) == Seq::<char>::empty(),
        rows_text(rows) == rows_text(rows.take(i)) + ("<tr><td style=\"padding: 10px\">"@
            + rows[i].passphrase + "</td><td style=\"padding: 10px\">"@ + decimal_text(
            rows[i].time.nanos as nat / 1_000_000_000,
        ) + "</td>"@) + rows_text(rows.skip(i + 1)),
    decreases rows.len(),
{
    let front = rows.drop_last();
    if i == rows.len() - 1 {
        assert(rows.take(i) == front);
        assert(rows.skip(i + 1) == Seq::<RowView>::empty());
    } else {
        law_rows_in_order(front, i);
        assert(front.take(i) == rows.take(i));
        assert(rows.skip(i + 1).drop_last() == front.skip(i + 1));
        assert(rows.skip(i + 1).last() == rows.last());
    }
}

/// Everybody who has paid, whatever their place among the participants, has
/// their row on the leaderboard: after its head and whatever rows stand above,
/// and before whatever rows stand below and its foot.
pub proof fn law_on_leaderboard(users: Seq<UserView>, i: int)
    requires
        0 <= i < users.len(),
        users[i].state is PaidInvoice,
        users[i].state->PaidInvoice_time_created.at() <= users[i].state->PaidInvoice_time_paid.at(),
    ensures
        exists|above: Seq<RowView>, below: Seq<RowView>|
            board_text(users)
                == "<center><meta http-equiv=\"refresh\" content=\"5\" /><table style=\"margin-left:auto;margin-right:auto;text-align: center;\"><tr style=\"border-bottom: 1px solid black\"><th style=\"padding: 10px\">Passphrase</th><th style=\"padding:10px\">Time (sec.)</th></tr>"@
                + #[trigger] rows_text(above) + ("<tr><td style=\"padding: 10px\">"@
                + users[i].passphrase + "</td><td style=\"padding: 10px\">"@ + decimal_text(
                ((users[i].state->PaidInvoice_time_paid.at()
                    - users[i].state->PaidInvoice_time_created.at()) / 1_000_000_000) as nat,
            ) + "</td>"@) + #[trigger] rows_text(below) + "</table></center>"@,
{
    let time = Duration {
        nanos: (users[i].state->PaidInvoice_time_paid.at()
            - users[i].state->PaidInvoice_time_created.at()) as u128,
    };
    let row = RowView { passphrase: users[i].passphrase, time };
    assert(finished_as(users[i], row));
    law_finishers(users, row);
    let ranked = ranking(finishers(users));
    let k = choose|k: int| 0 <= k < ranked.len() && ranked[k] == row;
    law_rows_in_order(ranked, k);
    let above = ranked.take(k);
    let below = ranked.skip(k + 1);
    assert(board_text(users)
        == "<center><meta http-equiv=\"refresh\" content=\"5\" /><table style=\"margin-left:auto;margin-right:auto;text-align: center;\"><tr style=\"border-bottom: 1px solid black\"><th style=\"padding: 10px\">Passphrase</th><th style=\"padding:10px\">Time (sec.)</th></tr>"@
        + rows_text(above) + ("<tr><td style=\"padding: 10px\">"@ + users[i].passphrase
        + "</td><td style=\"padding: 10px\">"@ + decimal_text(
        ((users[i].state->PaidInvoice_time_paid.at()
            - users[i].state->PaidInvoice_time_created.at()) / 1_000_000_000) as nat,
    ) + "</td>"@) + rows_text(below) + "</table></center>"@);
}

/// The times are known exactly if nobody's payment lies before their invoice.
pub proof fn law_known_times(users: Seq<UserView>)
    ensures
        times_known(users) <==> forall|i: int|
            0 <= i < users.len() ==> match (#[trigger] users[i]).state {
                UserStateView::PaidInvoice { time_created, time_paid, .. } => time_created.at()
                    <= time_paid.at(),
                _ => true,
            },
{
    if times_known(users) {
        assert forall|i: int| 0 <= i < users.len() implies match (#[trigger] users[i]).state {
            UserStateView::PaidInvoice { time_created, time_paid, .. } => time_created.at()
                <= time_paid.at(),
            _ => true,
        } by {
            if users[i].state is PaidInvoice {
                assert(users[i].state.time_diff() is Some);
            }
        }
    }
}

/// Rows say what they hold, one by one.
pub proof fn law_row_views(rows: Seq<Row>, i: int)
    ensures
        row_views(rows).len() == rows.len(),
        0 <= i < rows.len() ==> row_views(rows)[i].passphrase == rows[i].passphrase@
            && row_views(rows)[i].time == rows[i].time,
{
}

/// Whether everybody who paid did so at or after the time of the invoice.
pub fn has_known_times(users: &Users) -> (res: bool)
    ensures
        res == times_known(users@),
{
    let mut i: usize = 0;
    while i < users.len()
        invariant
            i <= users@.len(),
            forall|j: int|
                0 <= j < i && (#[trigger] users@[j]).state is PaidInvoice
                    ==> users@[j].state.time_diff() is Some,
        decreases users@.len() - i,
    {
        let state = &users.nth(i).state;
        assert(state@ == users@[i as int].state);
        if let UserState::PaidInvoice { .. } = state {
            if state.time_diff().is_none() {
                return false;
            }
        }
        i = i + 1;
    }
    true
}

fn place(rows: &mut Vec<Row>, row: Row)
    ensures
        row_views(final(rows)@) == placed(row_views(old(rows)@), row@),
{
    let mut k: usize = rows.len();
    while k > 0 && rows[k - 1].time.nanos > row.time.nanos
        invariant
            k <= rows@.len(),
            forall|j: int| k <= j < rows@.len() ==> rows@[j].time.nanos > row.time.nanos,
        decreases k,
    {
        k = k - 1;
    }
    proof {
        let views = row_views(rows@);
        lemma_placed_at(views, row@, k as int);
    }
    rows.insert(k, row);
    assert(row_views(rows@) == row_views(old(rows)@).insert(k as int, row@));
}

/// Those who have paid, the fastest first.
pub fn rank(users: &Users) -> (res: Vec<Row>)
    requires
        times_known(users@),
    ensures
        row_views(res@) == ranking(finishers(users@)),
{
    let mut rows: Vec<Row> = Vec::new();
    let mut i: usize = 0;
    assert(row_views(rows@) == Seq::<RowView>::empty());
    assert(finishers(users@.take(0)) == Seq::<RowView>::empty());
    while i < users.len()
        invariant
            times_known(users@),
            i <= users@.len(),
            row_views(rows@) == ranking(finishers(users@.take(i as int))),
        decreases users@.len() - i,
    {
        let user = users.nth(i);
        let ghost before = finishers(users@.take(i as int));
        assert(users@.take(i + 1).drop_last() == users@.take(i as int));
        assert(users@.take(i + 1).last() == users@[i as int]);
        assert(user@ == users@[i as int]);
        if let UserState::PaidInvoice { .. } = &user.state {
            if let Some(time) = user.state.time_diff() {
                let row = Row { passphrase: user.passphrase.clone(), time };
                assert(finishers(users@.take(i + 1)) == before.push(row@));
                assert(before.push(row@).drop_last() == before);
                place(&mut rows, row);
            }
        }
        i = i + 1;
    }
    assert(users@.take(i as int) == users@);
    rows
}

/// The leaderboard.
pub fn leaderboard(users: &Users) -> (res: String)
    requires
        times_known(users@),
    ensures
        res@ == board_text(users@),
{
    let rows = rank(users);
    let ghost views = row_views(rows@);
    let mut res = BOARD_HEAD.to_owned();
    let mut i: usize = 0;
    assert(rows_text(views.take(0)) == Seq::<char>::empty());
    while i < rows.len()
        invariant
            i <= rows@.len(),
            views == row_views(rows@),
            res@ == BOARD_HEAD@ + rows_text(views.take(i as int)),
        decreases rows@.len() - i,
    {
        assert(views.take(i + 1).drop_last() == views.take(i as int));
        assert(views.take(i + 1).last() == rows@[i as int]@);
        res.append(board_row(rows[i].passphrase.as_str(), &rows[i].time).as_str());
        assert(res@ == BOARD_HEAD@ + rows_text(views.take(i + 1)));
        i = i + 1;
    }
    assert(views.take(i as int) == views);
    res.append(BOARD_FOOT);
    res
}

} // verus!
