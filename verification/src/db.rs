//! The data store: the tables of the service held in memory, with the
//! constraints that the schema puts on them.
//!
//! Rows are appended in the order in which they are made and carry ids that
//! are never used twice. Usernames and refresh-token strings are unique, and
//! deleting an account deletes what belongs to it.

use crate::config::Config;
use crate::config::ConfigView;
use crate::links::LinkStore;
use crate::links::LinkStoreView;
use crate::reports::ReportStore;
use crate::reports::ReportStoreView;
use crate::seqs::all_hold;
use crate::seqs::check_ids;
use crate::seqs::check_texts;
use crate::seqs::views_of;
use crate::seqs::distinct_keys;
use crate::seqs::lemma_filter_all_hold;
use crate::seqs::lemma_filter_distinct;
use crate::seqs::lemma_filter_keeps_all;
use crate::seqs::lemma_filter_source;
use crate::text::str_eq;
use vstd::prelude::*;

verus! {

/// An account.
#[derive(Debug, Clone)]
pub struct UserRow {
    /// Id, unique and never reused.
    pub user_id: i64,
    /// Username, unique.
    pub username: String,
    /// Hash of the password.
    pub password: String,
    /// Whether the account is elevated.
    pub is_admin: bool,
    /// Second of creation.
    pub created_at: i64,
}

/// A `UserRow` with its text as sequences of characters.
pub struct UserRowView {
    pub user_id: i64,
    pub username: Seq<char>,
    pub password: Seq<char>,
    pub is_admin: bool,
    pub created_at: i64,
}

impl View for UserRow {
    type V = UserRowView;

    open spec fn view(&self) -> UserRowView {
        UserRowView {
            user_id: self.user_id,
            username: self.username@,
            password: self.password@,
            is_admin: self.is_admin,
            created_at: self.created_at,
        }
    }
}

impl UserRow {
    /// A copy with the same view.
    pub fn duplicate(&self) -> (copy: UserRow)
        ensures
            copy@ == self@,
    {
        UserRow {
            user_id: self.user_id,
            username: self.username.clone(),
            password: self.password.clone(),
            is_admin: self.is_admin,
            created_at: self.created_at,
        }
    }
}

/// A refresh token on record.
#[derive(Debug, Clone)]
pub struct RefreshTokenRow {
    /// Id, unique and never reused.
    pub id: i64,
    /// The account that the token renews.
    pub user_id: i64,
    /// The token string, unique.
    pub token: String,
    /// The second from which the token is no longer honoured.
    pub expires_at: i64,
    /// Second of creation.
    pub created_at: i64,
}

/// A `RefreshTokenRow` with its text as a sequence of characters.
pub struct RefreshTokenRowView {
    pub id: i64,
    pub user_id: i64,
    pub token: Seq<char>,
    pub expires_at: i64,
    pub created_at: i64,
}

impl View for RefreshTokenRow {
    type V = RefreshTokenRowView;

    open spec fn view(&self) -> RefreshTokenRowView {
        RefreshTokenRowView {
            id: self.id,
            user_id: self.user_id,
            token: self.token@,
            expires_at: self.expires_at,
            created_at: self.created_at,
        }
    }
}

impl RefreshTokenRow {
    /// A copy with the same view.
    pub fn duplicate(&self) -> (copy: RefreshTokenRow)
        ensures
            copy@ == self@,
    {
        RefreshTokenRow {
            id: self.id,
            user_id: self.user_id,
            token: self.token.clone(),
            expires_at: self.expires_at,
            created_at: self.created_at,
        }
    }
}

/// One attempt to log in, as typed: the username need not be an account's.
#[derive(Debug, Clone)]
pub struct LoginAttemptRow {
    /// The username that was tried.
    pub username: String,
    /// Second of the attempt.
    pub attempted_at: i64,
    /// Whether the attempt succeeded.
    pub success: bool,
}

/// A `LoginAttemptRow` with its text as a sequence of characters.
pub struct LoginAttemptRowView {
    pub username: Seq<char>,
    pub attempted_at: i64,
    pub success: bool,
}

impl View for LoginAttemptRow {
    type V = LoginAttemptRowView;

    open spec fn view(&self) -> LoginAttemptRowView {
        LoginAttemptRowView {
            username: self.username@,
            attempted_at: self.attempted_at,
            success: self.success,
        }
    }
}

impl LoginAttemptRow {
    /// A copy with the same view.
    pub fn duplicate(&self) -> (copy: LoginAttemptRow)
        ensures
            copy@ == self@,
    {
        LoginAttemptRow {
            username: self.username.clone(),
            attempted_at: self.attempted_at,
            success: self.success,
        }
    }
}

/// Why a row was not inserted.
#[derive(Clone, Copy, Debug, PartialEq, Eq, Structural)]
pub enum InsertError {
    /// A unique column already holds the value.
    Duplicate,
    /// The row refers to an account that does not exist.
    NoSuchUser,
    /// The table has run out of ids.
    Full,
}

/// The tables as mathematical sequences, oldest row first, and the id that
/// each table gives out next.
pub struct DatabaseView {
    pub users: Seq<UserRowView>,
    pub refresh_tokens: Seq<RefreshTokenRowView>,
    pub login_attempts: Seq<LoginAttemptRowView>,
    pub links: LinkStoreView,
    pub reports: ReportStoreView,
    pub next_user_id: i64,
    pub next_refresh_token_id: i64,
}

impl DatabaseView {
    /// The store with no rows.
    pub open spec fn empty() -> DatabaseView {
        DatabaseView {
            users: Seq::empty(),
            refresh_tokens: Seq::empty(),
            login_attempts: Seq::empty(),
            links: LinkStoreView::empty(),
            reports: ReportStoreView::empty(),
            next_user_id: 1,
            next_refresh_token_id: 1,
        }
    }

    /// No two accounts share a username or an id, and every id was given out
    /// by the table's counter.
    pub open spec fn users_wf(self) -> bool {
        &&& 1 <= self.next_user_id
        &&& forall|i: int|
            0 <= i < self.users.len() ==> 1 <= (#[trigger] self.users[i]).user_id
                < self.next_user_id
        &&& forall|i: int, j: int|
            0 <= i < j < self.users.len() ==> (#[trigger] self.users[i]).username
                != (#[trigger] self.users[j]).username
        &&& forall|i: int, j: int|
            0 <= i < j < self.users.len() ==> (#[trigger] self.users[i]).user_id
                != (#[trigger] self.users[j]).user_id
    }

    /// No two refresh tokens share a string or an id, and every id was given
    /// out by the table's counter.
    pub open spec fn refresh_tokens_wf(self) -> bool {
        &&& 1 <= self.next_refresh_token_id
        &&& forall|i: int|
            0 <= i < self.refresh_tokens.len() ==> 1 <= (#[trigger] self.refresh_tokens[i]).id
                < self.next_refresh_token_id
        &&& forall|i: int, j: int|
            0 <= i < j < self.refresh_tokens.len() ==> (#[trigger] self.refresh_tokens[i]).token
                != (#[trigger] self.refresh_tokens[j]).token
        &&& forall|i: int, j: int|
            0 <= i < j < self.refresh_tokens.len() ==> (#[trigger] self.refresh_tokens[i]).id
                != (#[trigger] self.refresh_tokens[j]).id
    }

    /// The constraints of the schema hold.
    pub open spec fn wf(self) -> bool {
        self.users_wf() && self.refresh_tokens_wf() && self.links.wf() && self.reports.wf()
    }

    /// Whether an account has this username.
    pub open spec fn has_user_named(self, username: Seq<char>) -> bool {
        exists|i: int| 0 <= i < self.users.len() && (#[trigger] self.users[i]).username == username
    }

    /// The account with this username, if there is one.
    pub open spec fn user_named(self, username: Seq<char>) -> Option<UserRowView> {
        if self.has_user_named(username) {
            Some(
                self.users[choose|i: int|
                    0 <= i < self.users.len() && (#[trigger] self.users[i]).username == username],
            )
        } else {
            None
        }
    }

    /// Whether an account has this id.
    pub open spec fn has_user(self, user_id: i64) -> bool {
        exists|i: int| 0 <= i < self.users.len() && (#[trigger] self.users[i]).user_id == user_id
    }

    /// The account with this id, if there is one.
    pub open spec fn user_with_id(self, user_id: i64) -> Option<UserRowView> {
        if self.has_user(user_id) {
            Some(
                self.users[choose|i: int|
                    0 <= i < self.users.len() && (#[trigger] self.users[i]).user_id == user_id],
            )
        } else {
            None
        }
    }

    /// The row that a new account is stored as.
    pub open spec fn new_user_row(
        self,
        username: Seq<char>,
        password: Seq<char>,
        is_admin: bool,
        now: i64,
    ) -> UserRowView {
        UserRowView { user_id: self.next_user_id, username, password, is_admin, created_at: now }
    }

    /// Whether a new account can be stored, and if not, why.
    pub open spec fn user_insertable(self, username: Seq<char>) -> Result<(), InsertError> {
        if self.has_user_named(username) {
            Err(InsertError::Duplicate)
        } else if self.next_user_id == i64::MAX {
            Err(InsertError::Full)
        } else {
            Ok(())
        }
    }

    /// The store after an attempt to insert an account: with the new row at
    /// the end where the insert is possible, unchanged where it is not.
    pub open spec fn with_user(
        self,
        username: Seq<char>,
        password: Seq<char>,
        is_admin: bool,
        now: i64,
    ) -> DatabaseView {
        if self.user_insertable(username) is Ok {
            DatabaseView {
                users: self.users.push(self.new_user_row(username, password, is_admin, now)),
                next_user_id: (self.next_user_id + 1) as i64,
                ..self
            }
        } else {
            self
        }
    }

    /// The store without the account of this id and without what belongs to
    /// it: its refresh tokens, its links and their clicks. Reports that it
    /// closed stay closed, by nobody.
    pub open spec fn without_user(self, user_id: i64) -> DatabaseView {
        DatabaseView {
            users: self.users.filter(|u: UserRowView| u.user_id != user_id),
            refresh_tokens: self.refresh_tokens.filter(
                |r: RefreshTokenRowView| r.user_id != user_id,
            ),
            links: self.links.without_user(user_id),
            reports: self.reports.without_resolver(user_id),
            ..self
        }
    }

    /// The store with the account of this id elevated.
    pub open spec fn with_admin(self, user_id: i64) -> DatabaseView {
        DatabaseView {
            users: self.users.map_values(
                |u: UserRowView|
                    if u.user_id == user_id {
                        UserRowView { is_admin: true, ..u }
                    } else {
                        u
                    },
            ),
            ..self
        }
    }

    /// Whether a link can be stored for an account under a code, and if
    /// not, why.
    pub open spec fn url_insertable(self, user_id: i64, code: Seq<char>) -> Result<
        (),
        InsertError,
    > {
        if !self.has_user(user_id) {
            Err(InsertError::NoSuchUser)
        } else {
            self.links.code_insertable(code)
        }
    }

    /// The store after an attempt to insert a link: with the new row at the
    /// end of its table where the insert is possible, unchanged where it is
    /// not.
    pub open spec fn with_url(
        self,
        user_id: i64,
        original_url: Seq<char>,
        code: Seq<char>,
        now: i64,
    ) -> DatabaseView {
        if self.has_user(user_id) {
            DatabaseView { links: self.links.with_url(user_id, original_url, code, now), ..self }
        } else {
            self
        }
    }

    /// Whether a refresh token with this string is on record.
    pub open spec fn has_refresh_token(self, token: Seq<char>) -> bool {
        exists|i: int|
            0 <= i < self.refresh_tokens.len() && (#[trigger] self.refresh_tokens[i]).token
                == token
    }

    /// The record of the refresh token with this string, if there is one.
    pub open spec fn refresh_token_row(self, token: Seq<char>) -> Option<RefreshTokenRowView> {
        if self.has_refresh_token(token) {
            Some(
                self.refresh_tokens[choose|i: int|
                    0 <= i < self.refresh_tokens.len() && (#[trigger] self.refresh_tokens[i]).token
                        == token],
            )
        } else {
            None
        }
    }

    /// Whether a refresh token can be stored, and if not, why.
    pub open spec fn refresh_token_insertable(self, user_id: i64, token: Seq<char>) -> Result<
        (),
        InsertError,
    > {
        if !self.has_user(user_id) {
            Err(InsertError::NoSuchUser)
        } else if self.has_refresh_token(token) {
            Err(InsertError::Duplicate)
        } else if self.next_refresh_token_id == i64::MAX {
            Err(InsertError::Full)
        } else {
            Ok(())
        }
    }

    /// The row that a new refresh token is stored as.
    pub open spec fn new_refresh_token_row(
        self,
        user_id: i64,
        token: Seq<char>,
        expires_at: i64,
        now: i64,
    ) -> RefreshTokenRowView {
        RefreshTokenRowView {
            id: self.next_refresh_token_id,
            user_id,
            token,
            expires_at,
            created_at: now,
        }
    }

    /// The store after an attempt to insert a refresh token: with the new row
    /// at the end where the insert is possible, unchanged where it is not.
    pub open spec fn with_refresh_token(
        self,
        user_id: i64,
        token: Seq<char>,
        expires_at: i64,
        now: i64,
    ) -> DatabaseView {
        if self.refresh_token_insertable(user_id, token) is Ok {
            DatabaseView {
                refresh_tokens: self.refresh_tokens.push(
                    self.new_refresh_token_row(user_id, token, expires_at, now),
                ),
                next_refresh_token_id: (self.next_refresh_token_id + 1) as i64,
                ..self
            }
        } else {
            self
        }
    }

    /// The store without the refresh token of this string.
    pub open spec fn without_refresh_token(self, token: Seq<char>) -> DatabaseView {
        DatabaseView {
            refresh_tokens: self.refresh_tokens.filter(|r: RefreshTokenRowView| r.token != token),
            ..self
        }
    }

    /// The failed attempts on this username that are later than `cutoff`.
    pub open spec fn failed_attempts_since(self, username: Seq<char>, cutoff: int) -> nat {
        self.login_attempts.filter(
            |a: LoginAttemptRowView| a.username == username && !a.success && a.attempted_at > cutoff,
        ).len()
    }

    /// The store with one more attempt on record.
    pub open spec fn with_login_attempt(
        self,
        username: Seq<char>,
        success: bool,
        now: i64,
    ) -> DatabaseView {
        DatabaseView {
            login_attempts: self.login_attempts.push(
                LoginAttemptRowView { username, attempted_at: now, success },
            ),
            ..self
        }
    }

    /// Storing an account keeps the constraints.
    pub proof fn lemma_with_user(
        self,
        username: Seq<char>,
        password: Seq<char>,
        is_admin: bool,
        now: i64,
    )
        requires
            self.wf(),
        ensures
            self.with_user(username, password, is_admin, now).wf(),
    {
        let after = self.with_user(username, password, is_admin, now);
        if self.user_insertable(username) is Ok {
            assert forall|i: int, j: int| 0 <= i < j < after.users.len() implies (
            #[trigger] after.users[i]).username != (#[trigger] after.users[j]).username by {
                if j == self.users.len() {
                    assert(self.users[i].username != username);
                }
            }
        }
    }

    /// Storing a refresh token keeps the constraints, and touches no table
    /// but its own.
    pub proof fn lemma_with_refresh_token(
        self,
        user_id: i64,
        token: Seq<char>,
        expires_at: i64,
        now: i64,
    )
        requires
            self.wf(),
        ensures
            self.with_refresh_token(user_id, token, expires_at, now).wf(),
            self.with_refresh_token(user_id, token, expires_at, now).users == self.users,
            self.with_refresh_token(user_id, token, expires_at, now).login_attempts
                == self.login_attempts,
    {
        let after = self.with_refresh_token(user_id, token, expires_at, now);
        if self.refresh_token_insertable(user_id, token) is Ok {
            assert forall|i: int, j: int| 0 <= i < j < after.refresh_tokens.len() implies (
            #[trigger] after.refresh_tokens[i]).token != (
            #[trigger] after.refresh_tokens[j]).token by {
                if j == self.refresh_tokens.len() {
                    assert(self.refresh_tokens[i].token != token);
                }
            }
        }
    }

    /// The store without the refresh tokens that expire at `token_cutoff` or
    /// before, and without the attempts made at `attempt_cutoff` or before.
    pub open spec fn without_stale_rows(self, token_cutoff: i64, attempt_cutoff: int) -> DatabaseView {
        DatabaseView {
            refresh_tokens: self.refresh_tokens.filter(
                |r: RefreshTokenRowView| r.expires_at > token_cutoff,
            ),
            login_attempts: self.login_attempts.filter(
                |a: LoginAttemptRowView| a.attempted_at > attempt_cutoff,
            ),
            ..self
        }
    }

    /// Deleting refresh tokens by a condition on the row keeps the
    /// constraints, and a token that meets the condition is found as before.
    pub proof fn lemma_filter_refresh_tokens(
        self,
        pred: spec_fn(RefreshTokenRowView) -> bool,
        attempts: Seq<LoginAttemptRowView>,
        token: Seq<char>,
    )
        requires
            self.wf(),
        ensures
            (DatabaseView {
                refresh_tokens: self.refresh_tokens.filter(pred),
                login_attempts: attempts,
                ..self
            }).wf(),
            (DatabaseView {
                refresh_tokens: self.refresh_tokens.filter(pred),
                login_attempts: attempts,
                ..self
            }).refresh_token_row(token) == match self.refresh_token_row(token) {
                Some(row) => if pred(row) {
                    Some(row)
                } else {
                    None
                },
                None => None,
            },
    {
        let src = self.refresh_tokens;
        let kept = src.filter(pred);
        let after = DatabaseView { refresh_tokens: kept, login_attempts: attempts, ..self };
        let by_token = |r: RefreshTokenRowView| r.token;
        let by_id = |r: RefreshTokenRowView| r.id;
        let in_range = |r: RefreshTokenRowView| 1 <= r.id < self.next_refresh_token_id;
        assert(distinct_keys(src, by_token));
        assert(distinct_keys(src, by_id));
        assert(all_hold(src, in_range));
        lemma_filter_distinct(src, pred, by_token);
        lemma_filter_distinct(src, pred, by_id);
        lemma_filter_all_hold(src, pred, in_range);
        assert forall|i: int| 0 <= i < kept.len() implies 1 <= (#[trigger] kept[i]).id
            < self.next_refresh_token_id by {
            assert(in_range(kept[i]));
        }
        assert forall|i: int, j: int| 0 <= i < j < kept.len() implies (#[trigger] kept[i]).token
            != (#[trigger] kept[j]).token by {
            assert(by_token(kept[i]) != by_token(kept[j]));
        }
        assert forall|i: int, j: int| 0 <= i < j < kept.len() implies (#[trigger] kept[i]).id != (
        #[trigger] kept[j]).id by {
            assert(by_id(kept[i]) != by_id(kept[j]));
        }
        if after.has_refresh_token(token) {
            let k = choose|k: int|
                0 <= k < after.refresh_tokens.len() && (#[trigger] after.refresh_tokens[k]).token
                    == token;
            assert(after.refresh_token_row(token) == Some(kept[k]));
            lemma_filter_source(src, pred, k);
            let m = choose|m: int| 0 <= m < src.len() && #[trigger] src[m] == kept[k];
            assert(src[m].token == token);
            let c = choose|c: int| 0 <= c < src.len() && (#[trigger] src[c]).token == token;
            assert(self.refresh_token_row(token) == Some(src[c]));
            assert(c == m) by {
                if c < m {
                    assert(src[c].token != src[m].token);
                } else if m < c {
                    assert(src[m].token != src[c].token);
                }
            }
        } else if self.has_refresh_token(token) {
            let c = choose|c: int| 0 <= c < src.len() && (#[trigger] src[c]).token == token;
            assert(self.refresh_token_row(token) == Some(src[c]));
            if pred(src[c]) {
                src.lemma_filter_contains(pred, c);
                let j = choose|j: int| 0 <= j < kept.len() && kept[j] == src[c];
                assert(after.refresh_tokens[j].token == token);
            }
        }
    }

    /// Deleting the rows of a refresh-token string keeps the constraints, and
    /// leaves no row of that string.
    pub proof fn lemma_without_refresh_token(self, token: Seq<char>)
        requires
            self.wf(),
        ensures
            self.without_refresh_token(token).wf(),
            !self.without_refresh_token(token).has_refresh_token(token),
            !self.has_refresh_token(token) ==> self.without_refresh_token(token) == self,
    {
        let pred = |r: RefreshTokenRowView| r.token != token;
        let kept = self.refresh_tokens.filter(pred);
        let after = self.without_refresh_token(token);
        assert(after.refresh_tokens == kept);
        let src = self.refresh_tokens;
        let by_token = |r: RefreshTokenRowView| r.token;
        let by_id = |r: RefreshTokenRowView| r.id;
        let in_range = |r: RefreshTokenRowView| 1 <= r.id < self.next_refresh_token_id;
        assert(distinct_keys(src, by_token));
        assert(distinct_keys(src, by_id));
        assert(all_hold(src, in_range));
        lemma_filter_distinct(src, pred, by_token);
        lemma_filter_distinct(src, pred, by_id);
        lemma_filter_all_hold(src, pred, in_range);
        assert forall|i: int| 0 <= i < kept.len() implies (#[trigger] kept[i]).token != token by {
            lemma_filter_source(src, pred, i);
        }
        assert forall|i: int| 0 <= i < kept.len() implies 1 <= (#[trigger] kept[i]).id
            < self.next_refresh_token_id by {
            assert(in_range(kept[i]));
        }
        assert forall|i: int, j: int| 0 <= i < j < kept.len() implies (#[trigger] kept[i]).token
            != (#[trigger] kept[j]).token by {
            assert(by_token(kept[i]) != by_token(kept[j]));
        }
        assert forall|i: int, j: int| 0 <= i < j < kept.len() implies (#[trigger] kept[i]).id != (
        #[trigger] kept[j]).id by {
            assert(by_id(kept[i]) != by_id(kept[j]));
        }
        if !self.has_refresh_token(token) {
            assert(all_hold(src, pred));
            lemma_filter_keeps_all(src, pred);
        }
    }

    /// Deleting an account leaves every other account as it was.
    pub proof fn lemma_without_user_keeps(self, deleted: i64, kept: i64)
        requires
            self.wf(),
            deleted != kept,
        ensures
            self.without_user(deleted).user_with_id(kept) == self.user_with_id(kept),
    {
        let pred = |u: UserRowView| u.user_id != deleted;
        let after = self.without_user(deleted);
        self.lemma_without_user(deleted);
        if self.has_user(kept) {
            let i = choose|i: int|
                0 <= i < self.users.len() && (#[trigger] self.users[i]).user_id == kept;
            assert(pred(self.users[i]));
            self.users.lemma_filter_contains(pred, i);
            let j = choose|j: int|
                0 <= j < after.users.len() && after.users[j] == self.users[i];
            assert(after.users[j].user_id == kept);
            let k = choose|k: int|
                0 <= k < after.users.len() && (#[trigger] after.users[k]).user_id == kept;
            assert(k == j) by {
                if k < j {
                    assert(after.users[k].user_id != after.users[j].user_id);
                } else if j < k {
                    assert(after.users[j].user_id != after.users[k].user_id);
                }
            }
        } else {
            if after.has_user(kept) {
                let k = choose|k: int|
                    0 <= k < after.users.len() && (#[trigger] after.users[k]).user_id == kept;
                lemma_filter_source(self.users, pred, k);
                let m = choose|m: int|
                    0 <= m < self.users.len() && #[trigger] self.users[m] == after.users[k];
                assert(self.users[m].user_id == kept);
            }
        }
    }

    /// Deleting an account keeps the constraints, and leaves neither the
    /// account nor a refresh token of it.
    pub proof fn lemma_without_user(self, user_id: i64)
        requires
            self.wf(),
        ensures
            self.without_user(user_id).wf(),
            !self.without_user(user_id).has_user(user_id),
            forall|i: int|
                0 <= i < self.without_user(user_id).refresh_tokens.len() ==> (
                #[trigger] self.without_user(user_id).refresh_tokens[i]).user_id != user_id,
            !self.has_user(user_id) ==> self.without_user(user_id).users == self.users,
    {
        let after = self.without_user(user_id);
        self.links.lemma_without_user_wf(user_id);
        self.reports.lemma_without_resolver_wf(user_id);
        let upred = |u: UserRowView| u.user_id != user_id;
        let users = self.users;
        let ukept = users.filter(upred);
        assert(after.users == ukept);
        let by_name = |u: UserRowView| u.username;
        let by_uid = |u: UserRowView| u.user_id;
        let u_range = |u: UserRowView| 1 <= u.user_id < self.next_user_id;
        assert(distinct_keys(users, by_name));
        assert(distinct_keys(users, by_uid));
        assert(all_hold(users, u_range));
        lemma_filter_distinct(users, upred, by_name);
        lemma_filter_distinct(users, upred, by_uid);
        lemma_filter_all_hold(users, upred, u_range);
        assert forall|i: int| 0 <= i < ukept.len() implies (#[trigger] ukept[i]).user_id
            != user_id by {
            lemma_filter_source(users, upred, i);
        }
        assert forall|i: int| 0 <= i < ukept.len() implies 1 <= (#[trigger] ukept[i]).user_id
            < self.next_user_id by {
            assert(u_range(ukept[i]));
        }
        assert forall|i: int, j: int| 0 <= i < j < ukept.len() implies (
        #[trigger] ukept[i]).username != (#[trigger] ukept[j]).username by {
            assert(by_name(ukept[i]) != by_name(ukept[j]));
        }
        assert forall|i: int, j: int| 0 <= i < j < ukept.len() implies (
        #[trigger] ukept[i]).user_id != (#[trigger] ukept[j]).user_id by {
            assert(by_uid(ukept[i]) != by_uid(ukept[j]));
        }
        if !self.has_user(user_id) {
            assert(all_hold(users, upred));
            lemma_filter_keeps_all(users, upred);
        }
        let tpred = |r: RefreshTokenRowView| r.user_id != user_id;
        let src = self.refresh_tokens;
        let kept = src.filter(tpred);
        assert(after.refresh_tokens == kept);
        let by_token = |r: RefreshTokenRowView| r.token;
        let by_id = |r: RefreshTokenRowView| r.id;
        let in_range = |r: RefreshTokenRowView| 1 <= r.id < self.next_refresh_token_id;
        assert(distinct_keys(src, by_token));
        assert(distinct_keys(src, by_id));
        assert(all_hold(src, in_range));
        lemma_filter_distinct(src, tpred, by_token);
        lemma_filter_distinct(src, tpred, by_id);
        lemma_filter_all_hold(src, tpred, in_range);
        assert forall|i: int| 0 <= i < kept.len() implies (#[trigger] kept[i]).user_id
            != user_id by {
            lemma_filter_source(src, tpred, i);
        }
        assert forall|i: int| 0 <= i < kept.len() implies 1 <= (#[trigger] kept[i]).id
            < self.next_refresh_token_id by {
            assert(in_range(kept[i]));
        }
        assert forall|i: int, j: int| 0 <= i < j < kept.len() implies (#[trigger] kept[i]).token
            != (#[trigger] kept[j]).token by {
            assert(by_token(kept[i]) != by_token(kept[j]));
        }
        assert forall|i: int, j: int| 0 <= i < j < kept.len() implies (#[trigger] kept[i]).id != (
        #[trigger] kept[j]).id by {
            assert(by_id(kept[i]) != by_id(kept[j]));
        }
    }
}

/// The views of the rows of the accounts table.
pub open spec fn user_views(rows: Seq<UserRow>) -> Seq<UserRowView> {
    rows.map_values(|r: UserRow| r@)
}

/// The views of the rows of the refresh-token table.
pub open spec fn refresh_token_views(rows: Seq<RefreshTokenRow>) -> Seq<RefreshTokenRowView> {
    rows.map_values(|r: RefreshTokenRow| r@)
}

/// The views of the rows of the login-attempt table.
pub open spec fn login_attempt_views(rows: Seq<LoginAttemptRow>) -> Seq<LoginAttemptRowView> {
    rows.map_values(|r: LoginAttemptRow| r@)
}

/// The data store.
#[derive(Debug, Clone)]
pub struct Database {
    /// The accounts.
    pub users: Vec<UserRow>,
    /// The refresh tokens on record.
    pub refresh_tokens: Vec<RefreshTokenRow>,
    /// The attempts to log in.
    pub login_attempts: Vec<LoginAttemptRow>,
    /// The links and the clicks on them.
    pub links: LinkStore,
    /// The abuse reports.
    pub reports: ReportStore,
    /// The id that the next account gets.
    pub next_user_id: i64,
    /// The id that the next refresh token gets.
    pub next_refresh_token_id: i64,
}

impl View for Database {
    type V = DatabaseView;

    open spec fn view(&self) -> DatabaseView {
        DatabaseView {
            users: user_views(self.users@),
            refresh_tokens: refresh_token_views(self.refresh_tokens@),
            login_attempts: login_attempt_views(self.login_attempts@),
            links: self.links@,
            reports: self.reports@,
            next_user_id: self.next_user_id,
            next_refresh_token_id: self.next_refresh_token_id,
        }
    }
}

/// The view of the result of a lookup by index.
pub open spec fn user_found(db: DatabaseView, index: Option<usize>) -> Option<UserRowView> {
    match index {
        Some(i) => Some(db.users[i as int]),
        None => None,
    }
}

/// The view of a user row that a lookup returned.
pub open spec fn user_row_view(row: Option<UserRow>) -> Option<UserRowView> {
    match row {
        Some(r) => Some(r@),
        None => None,
    }
}

/// The view of the result of a refresh-token lookup by index.
pub open spec fn refresh_token_found(db: DatabaseView, index: Option<usize>) -> Option<
    RefreshTokenRowView,
> {
    match index {
        Some(i) => Some(db.refresh_tokens[i as int]),
        None => None,
    }
}

/// The view of a refresh-token row that a lookup returned.
pub open spec fn refresh_token_row_view(row: Option<RefreshTokenRow>) -> Option<
    RefreshTokenRowView,
> {
    match row {
        Some(r) => Some(r@),
        None => None,
    }
}

impl Database {
    /// A store with no rows.
    pub fn new() -> (db: Database)
        ensures
            db@ == DatabaseView::empty(),
            db@.wf(),
    {
        let db = Database {
            users: Vec::new(),
            refresh_tokens: Vec::new(),
            login_attempts: Vec::new(),
            links: LinkStore::new(),
            reports: ReportStore::new(),
            next_user_id: 1,
            next_refresh_token_id: 1,
        };
        assert(db@.users =~= Seq::empty());
        assert(db@.refresh_tokens =~= Seq::empty());
        assert(db@.login_attempts =~= Seq::empty());
        db
    }

    /// Whether the accounts meet their constraints.
    fn users_consistent(&self) -> (ok: bool)
        ensures
            ok == self@.users_wf(),
    {
        let ghost view = self@;
        let mut ids: Vec<i64> = Vec::new();
        let mut names: Vec<String> = Vec::new();
        let mut i: usize = 0;
        while i < self.users.len()
            invariant
                i <= self.users@.len(),
                view == self@,
                ids@ == view.users.take(i as int).map_values(|u: UserRowView| u.user_id),
                views_of(names@) == view.users.take(i as int).map_values(
                    |u: UserRowView| u.username,
                ),
            decreases self.users@.len() - i,
        {
            let ghost names_so_far = views_of(names@);
            ids.push(self.users[i].user_id);
            names.push(self.users[i].username.clone());
            assert(view.users.take(i + 1) =~= view.users.take(i as int).push(view.users[i as int]));
            assert(ids@ =~= view.users.take(i + 1).map_values(|u: UserRowView| u.user_id));
            assert(views_of(names@) =~= names_so_far.push(view.users[i as int].username));
            assert(views_of(names@) =~= view.users.take(i + 1).map_values(
                |u: UserRowView| u.username,
            ));
            i = i + 1;
        }
        assert(view.users.take(i as int) =~= view.users);
        let ids_ok = check_ids(&ids, self.next_user_id);
        let names_ok = check_texts(&names);
        proof {
            if ids_ok && names_ok && 1 <= self.next_user_id {
                assert forall|a: int| 0 <= a < view.users.len() implies 1 <= (
                #[trigger] view.users[a]).user_id < view.next_user_id by {
                    assert(ids@[a] == view.users[a].user_id);
                }
                assert forall|a: int, b: int| 0 <= a < b < view.users.len() implies (
                #[trigger] view.users[a]).user_id != (#[trigger] view.users[b]).user_id by {
                    assert(ids@[a] == view.users[a].user_id && ids@[b] == view.users[b].user_id);
                }
                assert forall|a: int, b: int| 0 <= a < b < view.users.len() implies (
                #[trigger] view.users[a]).username != (#[trigger] view.users[b]).username by {
                    assert(views_of(names@)[a] == view.users[a].username && views_of(names@)[b]
                        == view.users[b].username);
                }
            }
            if view.users_wf() {
                assert forall|a: int| 0 <= a < ids@.len() implies 1 <= #[trigger] ids@[a]
                    < view.next_user_id by {
                    assert(ids@[a] == view.users[a].user_id);
                }
                assert forall|a: int, b: int| 0 <= a < b < ids@.len() implies #[trigger] ids@[a]
                    != #[trigger] ids@[b] by {
                    assert(ids@[a] == view.users[a].user_id && ids@[b] == view.users[b].user_id);
                }
                assert forall|a: int, b: int| 0 <= a < b < views_of(names@).len() implies (
                #[trigger] views_of(names@)[a]) != (#[trigger] views_of(names@)[b]) by {
                    assert(views_of(names@)[a] == view.users[a].username && views_of(names@)[b]
                        == view.users[b].username);
                }
            }
        }
        ids_ok && names_ok && self.next_user_id >= 1
    }

    /// Whether the refresh tokens meet their constraints.
    fn refresh_tokens_consistent(&self) -> (ok: bool)
        ensures
            ok == self@.refresh_tokens_wf(),
    {
        let ghost view = self@;
        let mut ids: Vec<i64> = Vec::new();
        let mut tokens: Vec<String> = Vec::new();
        let mut i: usize = 0;
        while i < self.refresh_tokens.len()
            invariant
                i <= self.refresh_tokens@.len(),
                view == self@,
                ids@ == view.refresh_tokens.take(i as int).map_values(
                    |r: RefreshTokenRowView| r.id,
                ),
                views_of(tokens@) == view.refresh_tokens.take(i as int).map_values(
                    |r: RefreshTokenRowView| r.token,
                ),
            decreases self.refresh_tokens@.len() - i,
        {
            let ghost tokens_so_far = views_of(tokens@);
            ids.push(self.refresh_tokens[i].id);
            tokens.push(self.refresh_tokens[i].token.clone());
            assert(view.refresh_tokens.take(i + 1) =~= view.refresh_tokens.take(i as int).push(
                view.refresh_tokens[i as int],
            ));
            assert(ids@ =~= view.refresh_tokens.take(i + 1).map_values(
                |r: RefreshTokenRowView| r.id,
            ));
            assert(views_of(tokens@) =~= tokens_so_far.push(view.refresh_tokens[i as int].token));
            assert(views_of(tokens@) =~= view.refresh_tokens.take(i + 1).map_values(
                |r: RefreshTokenRowView| r.token,
            ));
            i = i + 1;
        }
        assert(view.refresh_tokens.take(i as int) =~= view.refresh_tokens);
        let ids_ok = check_ids(&ids, self.next_refresh_token_id);
        let tokens_ok = check_texts(&tokens);
        proof {
            let rows = view.refresh_tokens;
            if ids_ok && tokens_ok && 1 <= self.next_refresh_token_id {
                assert forall|a: int| 0 <= a < rows.len() implies 1 <= (#[trigger] rows[a]).id
                    < view.next_refresh_token_id by {
                    assert(ids@[a] == rows[a].id);
                }
                assert forall|a: int, b: int| 0 <= a < b < rows.len() implies (#[trigger] rows[a]).id
                    != (#[trigger] rows[b]).id by {
                    assert(ids@[a] == rows[a].id && ids@[b] == rows[b].id);
                }
                assert forall|a: int, b: int| 0 <= a < b < rows.len() implies (
                #[trigger] rows[a]).token != (#[trigger] rows[b]).token by {
                    assert(views_of(tokens@)[a] == rows[a].token && views_of(tokens@)[b]
                        == rows[b].token);
                }
            }
            if view.refresh_tokens_wf() {
                assert forall|a: int| 0 <= a < ids@.len() implies 1 <= #[trigger] ids@[a]
                    < view.next_refresh_token_id by {
                    assert(ids@[a] == rows[a].id);
                }
                assert forall|a: int, b: int| 0 <= a < b < ids@.len() implies #[trigger] ids@[a]
                    != #[trigger] ids@[b] by {
                    assert(ids@[a] == rows[a].id && ids@[b] == rows[b].id);
                }
                assert forall|a: int, b: int| 0 <= a < b < views_of(tokens@).len() implies (
                #[trigger] views_of(tokens@)[a]) != (#[trigger] views_of(tokens@)[b]) by {
                    assert(views_of(tokens@)[a] == rows[a].token && views_of(tokens@)[b]
                        == rows[b].token);
                }
            }
        }
        ids_ok && tokens_ok && self.next_refresh_token_id >= 1
    }

    /// Puts a store together from tables that were kept elsewhere, provided
    /// that they meet the constraints of the schema. The tables of links and
    /// of reports have been checked when they were made.
    pub fn from_tables(
        users: Vec<UserRow>,
        refresh_tokens: Vec<RefreshTokenRow>,
        login_attempts: Vec<LoginAttemptRow>,
        links: LinkStore,
        reports: ReportStore,
        next_user_id: i64,
        next_refresh_token_id: i64,
    ) -> (res: Option<Database>)
        requires
            links@.wf(),
            reports@.wf(),
        ensures
            res matches Some(db) ==> db@.wf() && db@ == (DatabaseView {
                users: user_views(users@),
                refresh_tokens: refresh_token_views(refresh_tokens@),
                login_attempts: login_attempt_views(login_attempts@),
                links: links@,
                reports: reports@,
                next_user_id,
                next_refresh_token_id,
            }),
            res is None <==> !(DatabaseView {
                users: user_views(users@),
                refresh_tokens: refresh_token_views(refresh_tokens@),
                login_attempts: login_attempt_views(login_attempts@),
                links: links@,
                reports: reports@,
                next_user_id,
                next_refresh_token_id,
            }).wf(),
    {
        let db = Database {
            users,
            refresh_tokens,
            login_attempts,
            links,
            reports,
            next_user_id,
            next_refresh_token_id,
        };
        if db.users_consistent() && db.refresh_tokens_consistent() {
            Some(db)
        } else {
            None
        }
    }

    /// The number of accounts.
    pub fn count_users(&self) -> (n: usize)
        ensures
            n == self@.users.len(),
    {
        self.users.len()
    }

    /// The place of the account with this username.
    pub(crate) fn user_index_by_name(&self, username: &str) -> (res: Option<usize>)
        requires
            self@.wf(),
        ensures
            res matches Some(i) ==> i < self.users@.len() && self@.users[i as int].username
                == username@,
            user_found(self@, res) == self@.user_named(username@),
    {
        let mut i: usize = 0;
        while i < self.users.len()
            invariant
                i <= self.users@.len(),
                self@.wf(),
                forall|j: int| 0 <= j < i ==> (#[trigger] self@.users[j]).username != username@,
            decreases self.users@.len() - i,
        {
            if str_eq(self.users[i].username.as_str(), username) {
                proof {
                    assert(self@.users[i as int].username == username@);
                    let k = choose|k: int|
                        0 <= k < self@.users.len() && (#[trigger] self@.users[k]).username
                            == username@;
                    assert(k == i) by {
                        if k < i {
                            assert(self@.users[k].username != self@.users[i as int].username);
                        } else if i < k {
                            assert(self@.users[i as int].username != self@.users[k].username);
                        }
                    }
                }
                return Some(i);
            }
            i = i + 1;
        }
        None
    }

    /// The place of the account with this id.
    pub(crate) fn user_index_by_id(&self, user_id: i64) -> (res: Option<usize>)
        requires
            self@.wf(),
        ensures
            res matches Some(i) ==> i < self.users@.len() && self@.users[i as int].user_id
                == user_id,
            user_found(self@, res) == self@.user_with_id(user_id),
    {
        let mut i: usize = 0;
        while i < self.users.len()
            invariant
                i <= self.users@.len(),
                self@.wf(),
                forall|j: int| 0 <= j < i ==> (#[trigger] self@.users[j]).user_id != user_id,
            decreases self.users@.len() - i,
        {
            if self.users[i].user_id == user_id {
                proof {
                    assert(self@.users[i as int].user_id == user_id);
                    let k = choose|k: int|
                        0 <= k < self@.users.len() && (#[trigger] self@.users[k]).user_id
                            == user_id;
                    assert(k == i) by {
                        if k < i {
                            assert(self@.users[k].user_id != self@.users[i as int].user_id);
                        } else if i < k {
                            assert(self@.users[i as int].user_id != self@.users[k].user_id);
                        }
                    }
                }
                return Some(i);
            }
            i = i + 1;
        }
        None
    }

    /// The account with this username, if there is one.
    pub fn find_user_by_username(&self, username: &str) -> (res: Option<UserRow>)
        requires
            self@.wf(),
        ensures
            user_row_view(res) == self@.user_named(username@),
    {
        match self.user_index_by_name(username) {
            Some(i) => Some(self.users[i].duplicate()),
            None => None,
        }
    }

    /// The account with this id, if there is one.
    pub fn find_user_by_id(&self, user_id: i64) -> (res: Option<UserRow>)
        requires
            self@.wf(),
        ensures
            user_row_view(res) == self@.user_with_id(user_id),
    {
        match self.user_index_by_id(user_id) {
            Some(i) => Some(self.users[i].duplicate()),
            None => None,
        }
    }

    /// Stores a new account and returns its id. A username that is taken is
    /// refused, and the store is then left as it was.
    pub fn insert_user(&mut self, username: &str, password: &str, is_admin: bool, now: i64) -> (res:
        Result<i64, InsertError>)
        requires
            old(self)@.wf(),
        ensures
            final(self)@.wf(),
            final(self)@ == old(self)@.with_user(username@, password@, is_admin, now),
            match res {
                Ok(id) => old(self)@.user_insertable(username@) is Ok && id == old(
                    self,
                )@.next_user_id,
                Err(e) => old(self)@.user_insertable(username@) == Err::<(), InsertError>(e),
            },
    {
        if self.user_index_by_name(username).is_some() {
            return Err(InsertError::Duplicate);
        }
        if self.next_user_id == i64::MAX {
            return Err(InsertError::Full);
        }
        let id = self.next_user_id;
        let row = UserRow {
            user_id: id,
            username: username.to_owned(),
            password: password.to_owned(),
            is_admin,
            created_at: now,
        };
        self.users.push(row);
        self.next_user_id = id + 1;
        proof {
            let before = old(self)@;
            let added = before.new_user_row(username@, password@, is_admin, now);
            assert(self@.users =~= before.users.push(added));
            assert(self@.refresh_tokens =~= before.refresh_tokens);
            assert(self@.login_attempts =~= before.login_attempts);
            assert forall|i: int, j: int| 0 <= i < j < self@.users.len() implies (
            #[trigger] self@.users[i]).username != (#[trigger] self@.users[j]).username by {
                if j == before.users.len() {
                    assert(before.users[i].username != username@);
                }
            }
        }
        Ok(id)
    }
    /// The place of the refresh token with this string.
    pub(crate) fn refresh_token_index(&self, token: &str) -> (res: Option<usize>)
        requires
            self@.wf(),
        ensures
            res matches Some(i) ==> i < self.refresh_tokens@.len()
                && self@.refresh_tokens[i as int].token == token@,
            refresh_token_found(self@, res) == self@.refresh_token_row(token@),
    {
        let mut i: usize = 0;
        while i < self.refresh_tokens.len()
            invariant
                i <= self.refresh_tokens@.len(),
                self@.wf(),
                forall|j: int| 0 <= j < i ==> (#[trigger] self@.refresh_tokens[j]).token != token@,
            decreases self.refresh_tokens@.len() - i,
        {
            if str_eq(self.refresh_tokens[i].token.as_str(), token) {
                proof {
                    assert(self@.refresh_tokens[i as int].token == token@);
                    let k = choose|k: int|
                        0 <= k < self@.refresh_tokens.len() && (
                        #[trigger] self@.refresh_tokens[k]).token == token@;
                    assert(k == i) by {
                        if k < i {
                            assert(self@.refresh_tokens[k].token
                                != self@.refresh_tokens[i as int].token);
                        } else if i < k {
                            assert(self@.refresh_tokens[i as int].token
                                != self@.refresh_tokens[k].token);
                        }
                    }
                }
                return Some(i);
            }
            i = i + 1;
        }
        None
    }

    /// The record of the refresh token with this string, if there is one.
    pub fn find_refresh_token(&self, token: &str) -> (res: Option<RefreshTokenRow>)
        requires
            self@.wf(),
        ensures
            refresh_token_row_view(res) == self@.refresh_token_row(token@),
    {
        match self.refresh_token_index(token) {
            Some(i) => Some(self.refresh_tokens[i].duplicate()),
            None => None,
        }
    }

    /// Puts a refresh token on record for an account and returns the id of
    /// the record. A token of an account that does not exist, or a string
    /// that is on record already, is refused and the store left as it was.
    pub fn insert_refresh_token(&mut self, user_id: i64, token: &str, expires_at: i64, now: i64) -> (res:
        Result<i64, InsertError>)
        requires
            old(self)@.wf(),
        ensures
            final(self)@.wf(),
            final(self)@ == old(self)@.with_refresh_token(user_id, token@, expires_at, now),
            match res {
                Ok(id) => old(self)@.refresh_token_insertable(user_id, token@) is Ok && id == old(
                    self,
                )@.next_refresh_token_id,
                Err(e) => old(self)@.refresh_token_insertable(user_id, token@) == Err::<
                    (),
                    InsertError,
                >(e),
            },
    {
        if self.user_index_by_id(user_id).is_none() {
            return Err(InsertError::NoSuchUser);
        }
        if self.refresh_token_index(token).is_some() {
            return Err(InsertError::Duplicate);
        }
        if self.next_refresh_token_id == i64::MAX {
            return Err(InsertError::Full);
        }
        let id = self.next_refresh_token_id;
        let row = RefreshTokenRow {
            id,
            user_id,
            token: token.to_owned(),
            expires_at,
            created_at: now,
        };
        self.refresh_tokens.push(row);
        self.next_refresh_token_id = id + 1;
        proof {
            let before = old(self)@;
            let added = before.new_refresh_token_row(user_id, token@, expires_at, now);
            assert(self@.refresh_tokens =~= before.refresh_tokens.push(added));
            assert(self@.users =~= before.users);
            assert(self@.login_attempts =~= before.login_attempts);
            assert forall|i: int, j: int| 0 <= i < j < self@.refresh_tokens.len() implies (
            #[trigger] self@.refresh_tokens[i]).token != (
            #[trigger] self@.refresh_tokens[j]).token by {
                if j == before.refresh_tokens.len() {
                    assert(before.refresh_tokens[i].token != token@);
                }
            }
        }
        Ok(id)
    }

    /// Deletes the refresh token of this string, and says whether there was
    /// one.
    pub fn delete_refresh_token(&mut self, token: &str) -> (deleted: bool)
        requires
            old(self)@.wf(),
        ensures
            final(self)@.wf(),
            final(self)@ == old(self)@.without_refresh_token(token@),
            deleted == old(self)@.has_refresh_token(token@),
    {
        let ghost before = self@;
        let ghost pred = |r: RefreshTokenRowView| r.token != token@;
        let mut kept: Vec<RefreshTokenRow> = Vec::new();
        let mut deleted = false;
        let mut i: usize = 0;
        assert(before.refresh_tokens.take(0) =~= Seq::empty());
        assert(refresh_token_views(kept@) =~= Seq::empty());
        proof {
            reveal(Seq::filter);
        }
        while i < self.refresh_tokens.len()
            invariant
                i <= self.refresh_tokens@.len(),
                self@ == before,
                pred == |r: RefreshTokenRowView| r.token != token@,
                refresh_token_views(kept@) == before.refresh_tokens.take(i as int).filter(pred),
                deleted == exists|j: int|
                    0 <= j < i && (#[trigger] before.refresh_tokens[j]).token == token@,
            decreases self.refresh_tokens@.len() - i,
        {
            let keep = !str_eq(self.refresh_tokens[i].token.as_str(), token);
            proof {
                let row = before.refresh_tokens[i as int];
                assert(before.refresh_tokens.take(i + 1) =~= before.refresh_tokens.take(
                    i as int,
                ).push(row));
                before.refresh_tokens.take(i as int).lemma_filter_push(row, pred);
                assert(keep == pred(row));
            }
            if keep {
                kept.push(self.refresh_tokens[i].duplicate());
                assert(refresh_token_views(kept@) =~= before.refresh_tokens.take(
                    i as int,
                ).filter(pred).push(before.refresh_tokens[i as int]));
            } else {
                deleted = true;
            }
            i = i + 1;
        }
        assert(before.refresh_tokens.take(i as int) =~= before.refresh_tokens);
        self.refresh_tokens = kept;
        proof {
            before.lemma_without_refresh_token(token@);
            assert(self@.users =~= before.users);
            assert(self@.login_attempts =~= before.login_attempts);
        }
        deleted
    }

    /// Counts the failed attempts on a username that are later than
    /// `cutoff`.
    pub fn count_failed_attempts(&self, username: &str, cutoff: i128) -> (n: usize)
        ensures
            n == self@.failed_attempts_since(username@, cutoff as int),
    {
        let ghost pred = |a: LoginAttemptRowView|
            a.username == username@ && !a.success && a.attempted_at > cutoff as int;
        let mut n: usize = 0;
        let mut i: usize = 0;
        assert(self@.login_attempts.take(0) =~= Seq::empty());
        proof {
            reveal(Seq::filter);
        }
        while i < self.login_attempts.len()
            invariant
                i <= self.login_attempts@.len(),
                pred == |a: LoginAttemptRowView|
                    a.username == username@ && !a.success && a.attempted_at > cutoff as int,
                n == self@.login_attempts.take(i as int).filter(pred).len(),
                n <= i,
            decreases self.login_attempts@.len() - i,
        {
            let row = &self.login_attempts[i];
            let counts = !row.success && (row.attempted_at as i128) > cutoff && str_eq(
                row.username.as_str(),
                username,
            );
            proof {
                let r = self@.login_attempts[i as int];
                assert(self@.login_attempts.take(i + 1) =~= self@.login_attempts.take(
                    i as int,
                ).push(r));
                self@.login_attempts.take(i as int).lemma_filter_push(r, pred);
                assert(counts == pred(r));
            }
            if counts {
                n = n + 1;
            }
            i = i + 1;
        }
        assert(self@.login_attempts.take(i as int) =~= self@.login_attempts);
        n
    }

    /// Puts an attempt to log in on record.
    pub fn insert_login_attempt(&mut self, username: &str, success: bool, now: i64)
        ensures
            final(self)@ == old(self)@.with_login_attempt(username@, success, now),
            old(self)@.wf() ==> final(self)@.wf(),
    {
        let row = LoginAttemptRow { username: username.to_owned(), attempted_at: now, success };
        self.login_attempts.push(row);
        proof {
            let before = old(self)@;
            assert(self@.login_attempts =~= before.login_attempts.push(
                LoginAttemptRowView { username: username@, attempted_at: now, success },
            ));
            assert(self@.users =~= before.users);
            assert(self@.refresh_tokens =~= before.refresh_tokens);
        }
    }

    /// Deletes the refresh tokens that expire at `token_cutoff` or before and
    /// the attempts made at `attempt_cutoff` or before.
    pub fn delete_stale_rows(&mut self, token_cutoff: i64, attempt_cutoff: i128)
        requires
            old(self)@.wf(),
        ensures
            final(self)@.wf(),
            final(self)@ == old(self)@.without_stale_rows(token_cutoff, attempt_cutoff as int),
    {
        let ghost before = self@;
        let ghost tpred = |r: RefreshTokenRowView| r.expires_at > token_cutoff;
        let ghost apred = |a: LoginAttemptRowView| a.attempted_at > attempt_cutoff as int;
        let mut tokens: Vec<RefreshTokenRow> = Vec::new();
        let mut i: usize = 0;
        assert(before.refresh_tokens.take(0) =~= Seq::empty());
        assert(refresh_token_views(tokens@) =~= Seq::empty());
        proof {
            reveal(Seq::filter);
        }
        while i < self.refresh_tokens.len()
            invariant
                i <= self.refresh_tokens@.len(),
                self@ == before,
                tpred == |r: RefreshTokenRowView| r.expires_at > token_cutoff,
                refresh_token_views(tokens@) == before.refresh_tokens.take(i as int).filter(
                    tpred,
                ),
            decreases self.refresh_tokens@.len() - i,
        {
            let keep = self.refresh_tokens[i].expires_at > token_cutoff;
            proof {
                let row = before.refresh_tokens[i as int];
                assert(before.refresh_tokens.take(i + 1) =~= before.refresh_tokens.take(
                    i as int,
                ).push(row));
                before.refresh_tokens.take(i as int).lemma_filter_push(row, tpred);
                assert(keep == tpred(row));
            }
            if keep {
                tokens.push(self.refresh_tokens[i].duplicate());
                assert(refresh_token_views(tokens@) =~= before.refresh_tokens.take(
                    i as int,
                ).filter(tpred).push(before.refresh_tokens[i as int]));
            }
            i = i + 1;
        }
        assert(before.refresh_tokens.take(i as int) =~= before.refresh_tokens);
        let mut attempts: Vec<LoginAttemptRow> = Vec::new();
        let mut k: usize = 0;
        assert(before.login_attempts.take(0) =~= Seq::empty());
        assert(login_attempt_views(attempts@) =~= Seq::empty());
        while k < self.login_attempts.len()
            invariant
                k <= self.login_attempts@.len(),
                self@ == before,
                apred == |a: LoginAttemptRowView| a.attempted_at > attempt_cutoff as int,
                login_attempt_views(attempts@) == before.login_attempts.take(k as int).filter(
                    apred,
                ),
            decreases self.login_attempts@.len() - k,
        {
            let keep = self.login_attempts[k].attempted_at as i128 > attempt_cutoff;
            proof {
                let row = before.login_attempts[k as int];
                assert(before.login_attempts.take(k + 1) =~= before.login_attempts.take(
                    k as int,
                ).push(row));
                before.login_attempts.take(k as int).lemma_filter_push(row, apred);
                assert(keep == apred(row));
            }
            if keep {
                attempts.push(self.login_attempts[k].duplicate());
                assert(login_attempt_views(attempts@) =~= before.login_attempts.take(
                    k as int,
                ).filter(apred).push(before.login_attempts[k as int]));
            }
            k = k + 1;
        }
        assert(before.login_attempts.take(k as int) =~= before.login_attempts);
        self.refresh_tokens = tokens;
        self.login_attempts = attempts;
        proof {
            before.lemma_filter_refresh_tokens(
                tpred,
                before.login_attempts.filter(apred),
                Seq::empty(),
            );
        }
    }

    /// Deletes the account of this id together with what belongs to it: its
    /// refresh tokens, its links and their clicks. Reports that it closed
    /// stay closed, by nobody. Says whether there was such an account.
    pub fn delete_user(&mut self, user_id: i64) -> (deleted: bool)
        requires
            old(self)@.wf(),
        ensures
            final(self)@.wf(),
            final(self)@ == old(self)@.without_user(user_id),
            deleted == old(self)@.has_user(user_id),
    {
        let ghost before = self@;
        let ghost upred = |u: UserRowView| u.user_id != user_id;
        let ghost tpred = |r: RefreshTokenRowView| r.user_id != user_id;
        let mut users: Vec<UserRow> = Vec::new();
        let mut deleted = false;
        let mut i: usize = 0;
        assert(before.users.take(0) =~= Seq::empty());
        assert(user_views(users@) =~= Seq::empty());
        proof {
            reveal(Seq::filter);
        }
        while i < self.users.len()
            invariant
                i <= self.users@.len(),
                self@ == before,
                upred == |u: UserRowView| u.user_id != user_id,
                user_views(users@) == before.users.take(i as int).filter(upred),
                deleted == exists|j: int|
                    0 <= j < i && (#[trigger] before.users[j]).user_id == user_id,
            decreases self.users@.len() - i,
        {
            let keep = self.users[i].user_id != user_id;
            proof {
                let row = before.users[i as int];
                assert(before.users.take(i + 1) =~= before.users.take(i as int).push(row));
                before.users.take(i as int).lemma_filter_push(row, upred);
                assert(keep == upred(row));
            }
            if keep {
                users.push(self.users[i].duplicate());
                assert(user_views(users@) =~= before.users.take(i as int).filter(upred).push(
                    before.users[i as int],
                ));
            } else {
                deleted = true;
            }
            i = i + 1;
        }
        assert(before.users.take(i as int) =~= before.users);
        let mut tokens: Vec<RefreshTokenRow> = Vec::new();
        let mut k: usize = 0;
        assert(before.refresh_tokens.take(0) =~= Seq::empty());
        assert(refresh_token_views(tokens@) =~= Seq::empty());
        while k < self.refresh_tokens.len()
            invariant
                k <= self.refresh_tokens@.len(),
                self@ == before,
                tpred == |r: RefreshTokenRowView| r.user_id != user_id,
                refresh_token_views(tokens@) == before.refresh_tokens.take(k as int).filter(
                    tpred,
                ),
            decreases self.refresh_tokens@.len() - k,
        {
            let keep = self.refresh_tokens[k].user_id != user_id;
            proof {
                let row = before.refresh_tokens[k as int];
                assert(before.refresh_tokens.take(k + 1) =~= before.refresh_tokens.take(
                    k as int,
                ).push(row));
                before.refresh_tokens.take(k as int).lemma_filter_push(row, tpred);
                assert(keep == tpred(row));
            }
            if keep {
                tokens.push(self.refresh_tokens[k].duplicate());
                assert(refresh_token_views(tokens@) =~= before.refresh_tokens.take(
                    k as int,
                ).filter(tpred).push(before.refresh_tokens[k as int]));
            }
            k = k + 1;
        }
        assert(before.refresh_tokens.take(k as int) =~= before.refresh_tokens);
        self.users = users;
        self.refresh_tokens = tokens;
        self.links.delete_user_links(user_id);
        self.reports.clear_resolver(user_id);
        proof {
            before.lemma_without_user(user_id);
            assert(self@.login_attempts =~= before.login_attempts);
        }
        deleted
    }

    /// Stores a new link for an account and returns its id. A link of an
    /// account that does not exist, or under a code that is taken, is
    /// refused and the store left as it was.
    pub fn insert_url(&mut self, user_id: i64, original_url: &str, code: &str, now: i64) -> (res:
        Result<i64, InsertError>)
        requires
            old(self)@.wf(),
        ensures
            final(self)@.wf(),
            final(self)@ == old(self)@.with_url(user_id, original_url@, code@, now),
            match res {
                Ok(id) => old(self)@.url_insertable(user_id, code@) is Ok && id == old(
                    self,
                )@.links.next_url_id,
                Err(e) => old(self)@.url_insertable(user_id, code@) == Err::<(), InsertError>(e),
            },
    {
        if self.user_index_by_id(user_id).is_none() {
            return Err(InsertError::NoSuchUser);
        }
        let res = self.links.insert_url(user_id, original_url, code, now);
        assert(self@.users == old(self)@.users);
        assert(self@.refresh_tokens == old(self)@.refresh_tokens);
        assert(self@.users_wf());
        assert(self@.refresh_tokens_wf());
        res
    }

    /// Elevates the account of this id, and says whether there is such an
    /// account.
    pub fn promote_user(&mut self, user_id: i64) -> (found: bool)
        requires
            old(self)@.wf(),
        ensures
            final(self)@.wf(),
            final(self)@ == old(self)@.with_admin(user_id),
            found == old(self)@.has_user(user_id),
    {
        let ghost before = self@;
        match self.user_index_by_id(user_id) {
            None => {
                proof {
                    assert(self@.with_admin(user_id).users =~= self@.users);
                }
                false
            },
            Some(i) => {
                let mut row = self.users[i].duplicate();
                row.is_admin = true;
                self.users.set(i, row);
                proof {
                    assert(self@.refresh_tokens =~= before.refresh_tokens);
                    assert(self@.login_attempts =~= before.login_attempts);
                    assert forall|j: int| 0 <= j < before.users.len() implies (
                    #[trigger] self@.users[j]) == before.with_admin(user_id).users[j] by {
                        if j != i {
                            if j < i {
                                assert(before.users[j].user_id != before.users[i as int].user_id);
                            } else {
                                assert(before.users[i as int].user_id != before.users[j].user_id);
                            }
                        }
                    }
                    assert(self@.users =~= before.with_admin(user_id).users);
                }
                true
            },
        }
    }
}

/// What the handlers share: the data store and the settings.
#[derive(Debug, Clone)]
pub struct AppState {
    /// The data store.
    pub db: Database,
    /// The settings.
    pub config: Config,
}

/// An `AppState` as the views of its parts.
pub struct AppStateView {
    pub db: DatabaseView,
    pub config: ConfigView,
}

impl View for AppState {
    type V = AppStateView;

    open spec fn view(&self) -> AppStateView {
        AppStateView { db: self.db@, config: self.config@ }
    }
}

impl AppState {
    /// The state of a service that starts with an empty store.
    pub fn new(config: Config) -> (state: AppState)
        ensures
            state@.db == DatabaseView::empty(),
            state@.db.wf(),
            state@.config == config@,
    {
        AppState { db: Database::new(), config }
    }
}

} // verus!
