//! The table of short links and the table of clicks on them.
//!
//! Short codes are unique, ids are never used twice, and deleting a link
//! deletes its clicks.

use crate::db::InsertError;
use crate::models::optional_text;
use crate::seqs::all_hold;
use crate::seqs::check_ids;
use crate::seqs::check_texts;
use crate::seqs::views_of;
use crate::seqs::distinct_keys;
use crate::seqs::lemma_filter_all_hold;
use crate::seqs::lemma_filter_distinct;
use crate::text::str_eq;
use vstd::prelude::*;

verus! {

/// A short link.
#[derive(Debug, Clone)]
pub struct UrlRow {
    /// Id, unique and never reused.
    pub id: i64,
    /// The account that owns the link.
    pub user_id: i64,
    /// Where the link leads.
    pub original_url: String,
    /// The code that stands for it, unique.
    pub short_code: String,
    /// The name that its owner gave it.
    pub name: Option<String>,
    /// How often it was followed.
    pub clicks: u64,
    /// Second of creation.
    pub created_at: i64,
}

/// A `UrlRow` with its text as sequences of characters.
pub struct UrlRowView {
    pub id: i64,
    pub user_id: i64,
    pub original_url: Seq<char>,
    pub short_code: Seq<char>,
    pub name: Option<Seq<char>>,
    pub clicks: u64,
    pub created_at: i64,
}

impl View for UrlRow {
    type V = UrlRowView;

    open spec fn view(&self) -> UrlRowView {
        UrlRowView {
            id: self.id,
            user_id: self.user_id,
            original_url: self.original_url@,
            short_code: self.short_code@,
            name: optional_text(self.name),
            clicks: self.clicks,
            created_at: self.created_at,
        }
    }
}

/// A copy of an optional text.
pub fn duplicate_text(text: &Option<String>) -> (copy: Option<String>)
    ensures
        optional_text(copy) == optional_text(*text),
{
    match text {
        Some(t) => Some(t.clone()),
        None => None,
    }
}

impl UrlRow {
    /// A copy with the same view.
    pub fn duplicate(&self) -> (copy: UrlRow)
        ensures
            copy@ == self@,
    {
        UrlRow {
            id: self.id,
            user_id: self.user_id,
            original_url: self.original_url.clone(),
            short_code: self.short_code.clone(),
            name: duplicate_text(&self.name),
            clicks: self.clicks,
            created_at: self.created_at,
        }
    }
}

/// One click on a short link.
#[derive(Clone, Copy, Debug, PartialEq, Eq, Structural)]
pub struct ClickRow {
    /// Id, never reused.
    pub id: i64,
    /// The link that was followed.
    pub url_id: i64,
    /// Second of the click.
    pub clicked_at: i64,
}

/// The two tables as mathematical sequences, oldest row first, and the ids
/// that they give out next.
pub struct LinkStoreView {
    pub urls: Seq<UrlRowView>,
    pub clicks: Seq<ClickRow>,
    pub next_url_id: i64,
    pub next_click_id: i64,
}

/// A count one higher, unless it is the highest there is.
pub open spec fn bumped(clicks: u64) -> u64 {
    if clicks == u64::MAX {
        clicks
    } else {
        (clicks + 1) as u64
    }
}

/// The sum of the click counts of some links.
pub open spec fn click_sum(urls: Seq<UrlRowView>) -> int
    decreases urls.len(),
{
    if urls.len() == 0 {
        0
    } else {
        click_sum(urls.drop_last()) + urls.last().clicks
    }
}

impl LinkStoreView {
    /// The tables with no rows.
    pub open spec fn empty() -> LinkStoreView {
        LinkStoreView { urls: Seq::empty(), clicks: Seq::empty(), next_url_id: 1, next_click_id: 1 }
    }

    /// No two links share a code or an id, and every id was given out by the
    /// table's counter.
    pub open spec fn wf(self) -> bool {
        &&& 1 <= self.next_url_id
        &&& 1 <= self.next_click_id
        &&& forall|i: int|
            0 <= i < self.urls.len() ==> 1 <= (#[trigger] self.urls[i]).id < self.next_url_id
        &&& forall|i: int, j: int|
            0 <= i < j < self.urls.len() ==> (#[trigger] self.urls[i]).short_code
                != (#[trigger] self.urls[j]).short_code
        &&& forall|i: int, j: int|
            0 <= i < j < self.urls.len() ==> (#[trigger] self.urls[i]).id
                != (#[trigger] self.urls[j]).id
    }

    /// Whether a link has this code.
    pub open spec fn has_code(self, code: Seq<char>) -> bool {
        exists|i: int| 0 <= i < self.urls.len() && (#[trigger] self.urls[i]).short_code == code
    }

    /// The link with this code, if there is one.
    pub open spec fn url_with_code(self, code: Seq<char>) -> Option<UrlRowView> {
        if self.has_code(code) {
            Some(
                self.urls[choose|i: int|
                    0 <= i < self.urls.len() && (#[trigger] self.urls[i]).short_code == code],
            )
        } else {
            None
        }
    }

    /// The link with this code, if there is one and this account owns it.
    pub open spec fn owned_url(self, code: Seq<char>, user_id: i64) -> Option<UrlRowView> {
        match self.url_with_code(code) {
            Some(u) => if u.user_id == user_id {
                Some(u)
            } else {
                None
            },
            None => None,
        }
    }

    /// `i` is the place of the oldest link of this account to this address.
    pub open spec fn is_first_link_to(self, user_id: i64, original_url: Seq<char>, i: int) -> bool {
        &&& 0 <= i < self.urls.len()
        &&& self.urls[i].user_id == user_id
        &&& self.urls[i].original_url == original_url
        &&& forall|j: int|
            0 <= j < i ==> !((#[trigger] self.urls[j]).user_id == user_id && self.urls[j].original_url
                == original_url)
    }

    /// The oldest link of this account to this address, if there is one.
    pub open spec fn link_to(self, user_id: i64, original_url: Seq<char>) -> Option<UrlRowView> {
        if exists|i: int| self.is_first_link_to(user_id, original_url, i) {
            Some(self.urls[choose|i: int| self.is_first_link_to(user_id, original_url, i)])
        } else {
            None
        }
    }

    /// Whether a link can be stored under this code, and if not, why.
    pub open spec fn code_insertable(self, code: Seq<char>) -> Result<(), InsertError> {
        if self.has_code(code) {
            Err(InsertError::Duplicate)
        } else if self.next_url_id == i64::MAX {
            Err(InsertError::Full)
        } else {
            Ok(())
        }
    }

    /// The row that a new link is stored as.
    pub open spec fn new_url_row(
        self,
        user_id: i64,
        original_url: Seq<char>,
        code: Seq<char>,
        now: i64,
    ) -> UrlRowView {
        UrlRowView {
            id: self.next_url_id,
            user_id,
            original_url,
            short_code: code,
            name: None,
            clicks: 0,
            created_at: now,
        }
    }

    /// The tables after an attempt to insert a link: with the new row at the
    /// end where the insert is possible, unchanged where it is not.
    pub open spec fn with_url(
        self,
        user_id: i64,
        original_url: Seq<char>,
        code: Seq<char>,
        now: i64,
    ) -> LinkStoreView {
        if self.code_insertable(code) is Ok {
            LinkStoreView {
                urls: self.urls.push(self.new_url_row(user_id, original_url, code, now)),
                next_url_id: (self.next_url_id + 1) as i64,
                ..self
            }
        } else {
            self
        }
    }

    /// The tables without the link of this id and without its clicks.
    pub open spec fn without_url_id(self, id: i64) -> LinkStoreView {
        LinkStoreView {
            urls: self.urls.filter(|u: UrlRowView| u.id != id),
            clicks: self.clicks.filter(|c: ClickRow| c.url_id != id),
            ..self
        }
    }

    /// The tables without the link of this code, if this account owns it.
    pub open spec fn without_owned_url(self, code: Seq<char>, user_id: i64) -> LinkStoreView {
        match self.owned_url(code, user_id) {
            Some(u) => self.without_url_id(u.id),
            None => self,
        }
    }

    /// The tables without the link of this code, whoever owns it.
    pub open spec fn without_code(self, code: Seq<char>) -> LinkStoreView {
        match self.url_with_code(code) {
            Some(u) => self.without_url_id(u.id),
            None => self,
        }
    }

    /// Whether a click belongs to a link of this account.
    pub open spec fn click_of_user(self, c: ClickRow, user_id: i64) -> bool {
        exists|i: int|
            0 <= i < self.urls.len() && (#[trigger] self.urls[i]).user_id == user_id
                && self.urls[i].id == c.url_id
    }

    /// The tables without the links of this account and without their
    /// clicks.
    pub open spec fn without_user(self, user_id: i64) -> LinkStoreView {
        LinkStoreView {
            urls: self.urls.filter(|u: UrlRowView| u.user_id != user_id),
            clicks: self.clicks.filter(|c: ClickRow| !self.click_of_user(c, user_id)),
            ..self
        }
    }

    /// The tables with the link of this code named anew, if this account
    /// owns it.
    pub open spec fn with_name(
        self,
        code: Seq<char>,
        user_id: i64,
        name: Option<Seq<char>>,
    ) -> LinkStoreView {
        LinkStoreView {
            urls: self.urls.map_values(
                |u: UrlRowView|
                    if u.short_code == code && u.user_id == user_id {
                        UrlRowView { name, ..u }
                    } else {
                        u
                    },
            ),
            ..self
        }
    }

    /// Whether a link has this id.
    pub open spec fn has_url_id(self, id: i64) -> bool {
        exists|i: int| 0 <= i < self.urls.len() && (#[trigger] self.urls[i]).id == id
    }

    /// The tables after a click on the link of this id at `now`: its count
    /// is one higher, and the click is on record unless the table of clicks
    /// has run out of ids. A click on a link that does not exist changes
    /// nothing.
    pub open spec fn with_click(self, url_id: i64, now: i64) -> LinkStoreView {
        let urls = self.urls.map_values(
            |u: UrlRowView|
                if u.id == url_id {
                    UrlRowView { clicks: bumped(u.clicks), ..u }
                } else {
                    u
                },
        );
        if !self.has_url_id(url_id) {
            self
        } else if self.next_click_id == i64::MAX {
            LinkStoreView { urls, ..self }
        } else {
            LinkStoreView {
                urls,
                clicks: self.clicks.push(
                    ClickRow { id: self.next_click_id, url_id, clicked_at: now },
                ),
                next_click_id: (self.next_click_id + 1) as i64,
                ..self
            }
        }
    }

    /// The tables without the clicks before `cutoff`.
    pub open spec fn without_clicks_before(self, cutoff: int) -> LinkStoreView {
        LinkStoreView { clicks: self.clicks.filter(|c: ClickRow| c.clicked_at >= cutoff), ..self }
    }

    /// The links of an account, oldest first.
    pub open spec fn urls_of(self, user_id: i64) -> Seq<UrlRowView> {
        self.urls.filter(|u: UrlRowView| u.user_id == user_id)
    }

    /// The clicks on a link, oldest first.
    pub open spec fn clicks_on(self, url_id: i64) -> Seq<ClickRow> {
        self.clicks.filter(|c: ClickRow| c.url_id == url_id)
    }

    /// Deleting links by a condition on the row keeps the constraints.
    pub proof fn lemma_filter_urls_wf(self, pred: spec_fn(UrlRowView) -> bool, clicks: Seq<ClickRow>)
        requires
            self.wf(),
        ensures
            (LinkStoreView { urls: self.urls.filter(pred), clicks, ..self }).wf(),
    {
        let src = self.urls;
        let kept = src.filter(pred);
        let by_code = |u: UrlRowView| u.short_code;
        let by_id = |u: UrlRowView| u.id;
        let in_range = |u: UrlRowView| 1 <= u.id < self.next_url_id;
        assert(distinct_keys(src, by_code));
        assert(distinct_keys(src, by_id));
        assert(all_hold(src, in_range));
        lemma_filter_distinct(src, pred, by_code);
        lemma_filter_distinct(src, pred, by_id);
        lemma_filter_all_hold(src, pred, in_range);
        assert forall|i: int| 0 <= i < kept.len() implies 1 <= (#[trigger] kept[i]).id
            < self.next_url_id by {
            assert(in_range(kept[i]));
        }
        assert forall|i: int, j: int| 0 <= i < j < kept.len() implies (
        #[trigger] kept[i]).short_code != (#[trigger] kept[j]).short_code by {
            assert(by_code(kept[i]) != by_code(kept[j]));
        }
        assert forall|i: int, j: int| 0 <= i < j < kept.len() implies (#[trigger] kept[i]).id != (
        #[trigger] kept[j]).id by {
            assert(by_id(kept[i]) != by_id(kept[j]));
        }
    }

    /// Deleting the links of an account keeps the constraints.
    pub proof fn lemma_without_user_wf(self, user_id: i64)
        requires
            self.wf(),
        ensures
            self.without_user(user_id).wf(),
    {
        self.lemma_filter_urls_wf(
            |u: UrlRowView| u.user_id != user_id,
            self.clicks.filter(|c: ClickRow| !self.click_of_user(c, user_id)),
        );
    }

    /// Changing links row by row, with id and code left alone, keeps the
    /// constraints.
    pub proof fn lemma_map_urls_wf(self, change: spec_fn(UrlRowView) -> UrlRowView)
        requires
            self.wf(),
            forall|u: UrlRowView|
                (#[trigger] change(u)).id == u.id && change(u).short_code == u.short_code,
        ensures
            (LinkStoreView { urls: self.urls.map_values(change), ..self }).wf(),
    {
        let after = self.urls.map_values(change);
        assert forall|i: int| 0 <= i < after.len() implies 1 <= (#[trigger] after[i]).id
            < self.next_url_id by {
            assert(after[i] == change(self.urls[i]));
        }
        assert forall|i: int, j: int| 0 <= i < j < after.len() implies (
        #[trigger] after[i]).short_code != (#[trigger] after[j]).short_code by {
            assert(after[i] == change(self.urls[i]));
            assert(after[j] == change(self.urls[j]));
        }
        assert forall|i: int, j: int| 0 <= i < j < after.len() implies (#[trigger] after[i]).id != (
        #[trigger] after[j]).id by {
            assert(after[i] == change(self.urls[i]));
            assert(after[j] == change(self.urls[j]));
        }
    }
}

/// The views of the rows of the table of links.
pub open spec fn url_views(rows: Seq<UrlRow>) -> Seq<UrlRowView> {
    rows.map_values(|r: UrlRow| r@)
}

/// The view of a link that a lookup returned.
pub open spec fn url_row_view(row: Option<UrlRow>) -> Option<UrlRowView> {
    match row {
        Some(r) => Some(r@),
        None => None,
    }
}

/// The view of the result of a lookup by index.
pub open spec fn url_found(links: LinkStoreView, index: Option<usize>) -> Option<UrlRowView> {
    match index {
        Some(i) => Some(links.urls[i as int]),
        None => None,
    }
}

/// The table of links and the table of clicks.
#[derive(Debug, Clone)]
pub struct LinkStore {
    pub(crate) urls: Vec<UrlRow>,
    pub(crate) clicks: Vec<ClickRow>,
    pub(crate) next_url_id: i64,
    pub(crate) next_click_id: i64,
}

impl View for LinkStore {
    type V = LinkStoreView;

    closed spec fn view(&self) -> LinkStoreView {
        LinkStoreView {
            urls: url_views(self.urls@),
            clicks: self.clicks@,
            next_url_id: self.next_url_id,
            next_click_id: self.next_click_id,
        }
    }
}

impl LinkStore {
    /// Tables with no rows.
    pub fn new() -> (links: LinkStore)
        ensures
            links@ == LinkStoreView::empty(),
            links@.wf(),
    {
        let links = LinkStore {
            urls: Vec::new(),
            clicks: Vec::new(),
            next_url_id: 1,
            next_click_id: 1,
        };
        assert(links@.urls =~= Seq::empty());
        assert(links@.clicks =~= Seq::empty());
        links
    }

    /// The number of links.
    pub fn count_urls(&self) -> (n: usize)
        ensures
            n == self@.urls.len(),
    {
        self.urls.len()
    }

    /// The place of the link with this code.
    pub(crate) fn url_index(&self, code: &str) -> (res: Option<usize>)
        requires
            self@.wf(),
        ensures
            res matches Some(i) ==> i < self.urls@.len() && self@.urls[i as int].short_code
                == code@,
            url_found(self@, res) == self@.url_with_code(code@),
    {
        let mut i: usize = 0;
        while i < self.urls.len()
            invariant
                i <= self.urls@.len(),
                self@.wf(),
                forall|j: int| 0 <= j < i ==> (#[trigger] self@.urls[j]).short_code != code@,
            decreases self.urls@.len() - i,
        {
            if str_eq(self.urls[i].short_code.as_str(), code) {
                proof {
                    assert(self@.urls[i as int].short_code == code@);
                    let k = choose|k: int|
                        0 <= k < self@.urls.len() && (#[trigger] self@.urls[k]).short_code
                            == code@;
                    assert(k == i) by {
                        if k < i {
                            assert(self@.urls[k].short_code != self@.urls[i as int].short_code);
                        } else if i < k {
                            assert(self@.urls[i as int].short_code != self@.urls[k].short_code);
                        }
                    }
                }
                return Some(i);
            }
            i = i + 1;
        }
        None
    }

    /// The link with this code, if there is one.
    pub fn find_url(&self, code: &str) -> (res: Option<UrlRow>)
        requires
            self@.wf(),
        ensures
            url_row_view(res) == self@.url_with_code(code@),
    {
        match self.url_index(code) {
            Some(i) => Some(self.urls[i].duplicate()),
            None => None,
        }
    }

    /// The link with this code, if there is one and this account owns it.
    pub fn find_owned_url(&self, code: &str, user_id: i64) -> (res: Option<UrlRow>)
        requires
            self@.wf(),
        ensures
            url_row_view(res) == self@.owned_url(code@, user_id),
    {
        match self.url_index(code) {
            Some(i) => if self.urls[i].user_id == user_id {
                Some(self.urls[i].duplicate())
            } else {
                None
            },
            None => None,
        }
    }

    /// The oldest link of this account to this address, if there is one.
    pub fn find_link_to(&self, user_id: i64, original_url: &str) -> (res: Option<UrlRow>)
        ensures
            url_row_view(res) == self@.link_to(user_id, original_url@),
    {
        let mut i: usize = 0;
        while i < self.urls.len()
            invariant
                i <= self.urls@.len(),
                forall|j: int|
                    0 <= j < i ==> !((#[trigger] self@.urls[j]).user_id == user_id
                        && self@.urls[j].original_url == original_url@),
            decreases self.urls@.len() - i,
        {
            if self.urls[i].user_id == user_id && str_eq(
                self.urls[i].original_url.as_str(),
                original_url,
            ) {
                proof {
                    assert(self@.is_first_link_to(user_id, original_url@, i as int));
                    let k = choose|k: int| self@.is_first_link_to(user_id, original_url@, k);
                    assert(k == i) by {
                        if k < i {
                            assert(!(self@.urls[k].user_id == user_id && self@.urls[k].original_url
                                == original_url@));
                        } else if i < k {
                            assert(!(self@.urls[i as int].user_id == user_id
                                && self@.urls[i as int].original_url == original_url@));
                        }
                    }
                }
                return Some(self.urls[i].duplicate());
            }
            i = i + 1;
        }
        proof {
            assert forall|k: int| !self@.is_first_link_to(user_id, original_url@, k) by {
                if 0 <= k < self@.urls.len() {
                    assert(!(self@.urls[k].user_id == user_id && self@.urls[k].original_url
                        == original_url@));
                }
            }
        }
        None
    }

    /// Stores a new link and returns its id. A code that is taken is
    /// refused, and the tables are then left as they were.
    pub fn insert_url(&mut self, user_id: i64, original_url: &str, code: &str, now: i64) -> (res:
        Result<i64, InsertError>)
        requires
            old(self)@.wf(),
        ensures
            final(self)@.wf(),
            final(self)@ == old(self)@.with_url(user_id, original_url@, code@, now),
            match res {
                Ok(id) => old(self)@.code_insertable(code@) is Ok && id == old(self)@.next_url_id,
                Err(e) => old(self)@.code_insertable(code@) == Err::<(), InsertError>(e),
            },
    {
        if self.url_index(code).is_some() {
            return Err(InsertError::Duplicate);
        }
        if self.next_url_id == i64::MAX {
            return Err(InsertError::Full);
        }
        let id = self.next_url_id;
        let row = UrlRow {
            id,
            user_id,
            original_url: original_url.to_owned(),
            short_code: code.to_owned(),
            name: None,
            clicks: 0,
            created_at: now,
        };
        self.urls.push(row);
        self.next_url_id = id + 1;
        proof {
            let before = old(self)@;
            let added = before.new_url_row(user_id, original_url@, code@, now);
            assert(self@.urls =~= before.urls.push(added));
            assert forall|i: int, j: int| 0 <= i < j < self@.urls.len() implies (
            #[trigger] self@.urls[i]).short_code != (#[trigger] self@.urls[j]).short_code by {
                if j == before.urls.len() {
                    assert(before.urls[i].short_code != code@);
                }
            }
        }
        Ok(id)
    }
    /// Whether this account owns the link of this id.
    fn owns_url_id(&self, url_id: i64, user_id: i64) -> (owns: bool)
        ensures
            owns == exists|i: int|
                0 <= i < self@.urls.len() && (#[trigger] self@.urls[i]).user_id == user_id
                    && self@.urls[i].id == url_id,
    {
        let mut i: usize = 0;
        while i < self.urls.len()
            invariant
                i <= self.urls@.len(),
                forall|j: int|
                    0 <= j < i ==> !((#[trigger] self@.urls[j]).user_id == user_id
                        && self@.urls[j].id == url_id),
            decreases self.urls@.len() - i,
        {
            if self.urls[i].user_id == user_id && self.urls[i].id == url_id {
                assert(self@.urls[i as int].user_id == user_id && self@.urls[i as int].id == url_id);
                return true;
            }
            i = i + 1;
        }
        false
    }

    /// The links but the one of this id.
    fn urls_without_id(&self, id: i64) -> (kept: Vec<UrlRow>)
        ensures
            url_views(kept@) == self@.urls.filter(|u: UrlRowView| u.id != id),
    {
        let ghost pred = |u: UrlRowView| u.id != id;
        let mut kept: Vec<UrlRow> = Vec::new();
        let mut i: usize = 0;
        assert(self@.urls.take(0) =~= Seq::empty());
        assert(url_views(kept@) =~= Seq::empty());
        proof {
            reveal(Seq::filter);
        }
        while i < self.urls.len()
            invariant
                i <= self.urls@.len(),
                pred == |u: UrlRowView| u.id != id,
                url_views(kept@) == self@.urls.take(i as int).filter(pred),
            decreases self.urls@.len() - i,
        {
            let keep = self.urls[i].id != id;
            proof {
                let row = self@.urls[i as int];
                assert(self@.urls.take(i + 1) =~= self@.urls.take(i as int).push(row));
                self@.urls.take(i as int).lemma_filter_push(row, pred);
                assert(keep == pred(row));
            }
            if keep {
                kept.push(self.urls[i].duplicate());
                assert(url_views(kept@) =~= self@.urls.take(i as int).filter(pred).push(
                    self@.urls[i as int],
                ));
            }
            i = i + 1;
        }
        assert(self@.urls.take(i as int) =~= self@.urls);
        kept
    }

    /// The links but those of this account.
    fn urls_without_user(&self, user_id: i64) -> (kept: Vec<UrlRow>)
        ensures
            url_views(kept@) == self@.urls.filter(|u: UrlRowView| u.user_id != user_id),
    {
        let ghost pred = |u: UrlRowView| u.user_id != user_id;
        let mut kept: Vec<UrlRow> = Vec::new();
        let mut i: usize = 0;
        assert(self@.urls.take(0) =~= Seq::empty());
        assert(url_views(kept@) =~= Seq::empty());
        proof {
            reveal(Seq::filter);
        }
        while i < self.urls.len()
            invariant
                i <= self.urls@.len(),
                pred == |u: UrlRowView| u.user_id != user_id,
                url_views(kept@) == self@.urls.take(i as int).filter(pred),
            decreases self.urls@.len() - i,
        {
            let keep = self.urls[i].user_id != user_id;
            proof {
                let row = self@.urls[i as int];
                assert(self@.urls.take(i + 1) =~= self@.urls.take(i as int).push(row));
                self@.urls.take(i as int).lemma_filter_push(row, pred);
                assert(keep == pred(row));
            }
            if keep {
                kept.push(self.urls[i].duplicate());
                assert(url_views(kept@) =~= self@.urls.take(i as int).filter(pred).push(
                    self@.urls[i as int],
                ));
            }
            i = i + 1;
        }
        assert(self@.urls.take(i as int) =~= self@.urls);
        kept
    }

    /// The links of this account, oldest first.
    pub fn urls_of(&self, user_id: i64) -> (found: Vec<UrlRow>)
        ensures
            url_views(found@) == self@.urls_of(user_id),
    {
        let ghost pred = |u: UrlRowView| u.user_id == user_id;
        let mut found: Vec<UrlRow> = Vec::new();
        let mut i: usize = 0;
        assert(self@.urls.take(0) =~= Seq::empty());
        assert(url_views(found@) =~= Seq::empty());
        proof {
            reveal(Seq::filter);
        }
        while i < self.urls.len()
            invariant
                i <= self.urls@.len(),
                pred == |u: UrlRowView| u.user_id == user_id,
                url_views(found@) == self@.urls.take(i as int).filter(pred),
            decreases self.urls@.len() - i,
        {
            let keep = self.urls[i].user_id == user_id;
            proof {
                let row = self@.urls[i as int];
                assert(self@.urls.take(i + 1) =~= self@.urls.take(i as int).push(row));
                self@.urls.take(i as int).lemma_filter_push(row, pred);
                assert(keep == pred(row));
            }
            if keep {
                found.push(self.urls[i].duplicate());
                assert(url_views(found@) =~= self@.urls.take(i as int).filter(pred).push(
                    self@.urls[i as int],
                ));
            }
            i = i + 1;
        }
        assert(self@.urls.take(i as int) =~= self@.urls);
        found
    }

    /// The clicks on the link of this id, oldest first.
    pub fn clicks_on(&self, url_id: i64) -> (found: Vec<ClickRow>)
        ensures
            found@ == self@.clicks_on(url_id),
    {
        let ghost pred = |c: ClickRow| c.url_id == url_id;
        let mut found: Vec<ClickRow> = Vec::new();
        let mut i: usize = 0;
        assert(self@.clicks.take(0) =~= Seq::empty());
        proof {
            reveal(Seq::filter);
        }
        while i < self.clicks.len()
            invariant
                i <= self.clicks@.len(),
                pred == |c: ClickRow| c.url_id == url_id,
                found@ == self@.clicks.take(i as int).filter(pred),
            decreases self.clicks@.len() - i,
        {
            let row = self.clicks[i];
            proof {
                assert(self@.clicks.take(i + 1) =~= self@.clicks.take(i as int).push(row));
                self@.clicks.take(i as int).lemma_filter_push(row, pred);
            }
            if row.url_id == url_id {
                found.push(row);
            }
            i = i + 1;
        }
        assert(self@.clicks.take(i as int) =~= self@.clicks);
        found
    }

    /// Deletes the link of this id and its clicks.
    fn delete_url_id(&mut self, id: i64)
        requires
            old(self)@.wf(),
        ensures
            final(self)@.wf(),
            final(self)@ == old(self)@.without_url_id(id),
    {
        let ghost before = self@;
        let ghost pred = |c: ClickRow| c.url_id != id;
        let urls = self.urls_without_id(id);
        let mut clicks: Vec<ClickRow> = Vec::new();
        let mut i: usize = 0;
        assert(self@.clicks.take(0) =~= Seq::empty());
        proof {
            reveal(Seq::filter);
        }
        while i < self.clicks.len()
            invariant
                i <= self.clicks@.len(),
                self@ == before,
                pred == |c: ClickRow| c.url_id != id,
                clicks@ == before.clicks.take(i as int).filter(pred),
            decreases self.clicks@.len() - i,
        {
            let row = self.clicks[i];
            proof {
                assert(before.clicks.take(i + 1) =~= before.clicks.take(i as int).push(row));
                before.clicks.take(i as int).lemma_filter_push(row, pred);
            }
            if row.url_id != id {
                clicks.push(row);
            }
            i = i + 1;
        }
        assert(before.clicks.take(i as int) =~= before.clicks);
        self.urls = urls;
        self.clicks = clicks;
        proof {
            before.lemma_filter_urls_wf(|u: UrlRowView| u.id != id, before.clicks.filter(pred));
        }
    }

    /// Deletes the link of this code if this account owns it, and says
    /// whether it did.
    pub fn delete_owned_url(&mut self, code: &str, user_id: i64) -> (deleted: bool)
        requires
            old(self)@.wf(),
        ensures
            final(self)@.wf(),
            final(self)@ == old(self)@.without_owned_url(code@, user_id),
            deleted == old(self)@.owned_url(code@, user_id) is Some,
    {
        match self.find_owned_url(code, user_id) {
            Some(u) => {
                self.delete_url_id(u.id);
                true
            },
            None => false,
        }
    }

    /// Deletes the link of this code, whoever owns it, and says whether
    /// there was one.
    pub fn delete_code(&mut self, code: &str) -> (deleted: bool)
        requires
            old(self)@.wf(),
        ensures
            final(self)@.wf(),
            final(self)@ == old(self)@.without_code(code@),
            deleted == old(self)@.has_code(code@),
    {
        match self.find_url(code) {
            Some(u) => {
                self.delete_url_id(u.id);
                true
            },
            None => false,
        }
    }

    /// Deletes the links of this account and their clicks.
    pub fn delete_user_links(&mut self, user_id: i64)
        requires
            old(self)@.wf(),
        ensures
            final(self)@.wf(),
            final(self)@ == old(self)@.without_user(user_id),
    {
        let ghost before = self@;
        let ghost pred = |c: ClickRow| !before.click_of_user(c, user_id);
        let urls = self.urls_without_user(user_id);
        let mut clicks: Vec<ClickRow> = Vec::new();
        let mut i: usize = 0;
        assert(self@.clicks.take(0) =~= Seq::empty());
        proof {
            reveal(Seq::filter);
        }
        while i < self.clicks.len()
            invariant
                i <= self.clicks@.len(),
                self@ == before,
                pred == |c: ClickRow| !before.click_of_user(c, user_id),
                clicks@ == before.clicks.take(i as int).filter(pred),
            decreases self.clicks@.len() - i,
        {
            let row = self.clicks[i];
            let gone = self.owns_url_id(row.url_id, user_id);
            proof {
                assert(before.clicks.take(i + 1) =~= before.clicks.take(i as int).push(row));
                before.clicks.take(i as int).lemma_filter_push(row, pred);
                assert(gone == before.click_of_user(row, user_id));
            }
            if !gone {
                clicks.push(row);
            }
            i = i + 1;
        }
        assert(before.clicks.take(i as int) =~= before.clicks);
        self.urls = urls;
        self.clicks = clicks;
        proof {
            before.lemma_filter_urls_wf(
                |u: UrlRowView| u.user_id != user_id,
                before.clicks.filter(pred),
            );
        }
    }

    /// Names the link of this code anew if this account owns it, and says
    /// whether it does.
    pub fn rename_url(&mut self, code: &str, user_id: i64, name: &Option<String>) -> (renamed: bool)
        requires
            old(self)@.wf(),
        ensures
            final(self)@.wf(),
            final(self)@ == old(self)@.with_name(code@, user_id, optional_text(*name)),
            renamed == old(self)@.owned_url(code@, user_id) is Some,
    {
        let ghost before = self@;
        let ghost change = |u: UrlRowView|
            if u.short_code == code@ && u.user_id == user_id {
                UrlRowView { name: optional_text(*name), ..u }
            } else {
                u
            };
        proof {
            before.lemma_map_urls_wf(change);
        }
        match self.url_index(code) {
            Some(i) => {
                if self.urls[i].user_id != user_id {
                    proof {
                        assert forall|j: int| 0 <= j < before.urls.len() implies change(
                            #[trigger] before.urls[j],
                        ) == before.urls[j] by {
                            if j < i {
                                assert(before.urls[j].short_code != before.urls[i as int].short_code);
                            } else if i < j {
                                assert(before.urls[i as int].short_code != before.urls[j].short_code);
                            }
                        }
                        assert(before.urls.map_values(change) =~= before.urls);
                    }
                    return false;
                }
                let mut row = self.urls[i].duplicate();
                row.name = duplicate_text(name);
                self.urls.set(i, row);
                proof {
                    assert forall|j: int| 0 <= j < before.urls.len() implies (
                    #[trigger] self@.urls[j]) == change(before.urls[j]) by {
                        if j < i {
                            assert(before.urls[j].short_code != before.urls[i as int].short_code);
                        } else if i < j {
                            assert(before.urls[i as int].short_code != before.urls[j].short_code);
                        }
                    }
                    assert(self@.urls =~= before.urls.map_values(change));
                }
                true
            },
            None => {
                proof {
                    assert forall|j: int| 0 <= j < before.urls.len() implies change(
                        #[trigger] before.urls[j],
                    ) == before.urls[j] by {
                        assert(before.urls[j].short_code != code@);
                    }
                    assert(before.urls.map_values(change) =~= before.urls);
                }
                false
            },
        }
    }

    /// The place of the link with this id.
    fn url_index_by_id(&self, id: i64) -> (res: Option<usize>)
        ensures
            res matches Some(i) ==> i < self.urls@.len() && self@.urls[i as int].id == id,
            res is None ==> forall|j: int|
                0 <= j < self@.urls.len() ==> (#[trigger] self@.urls[j]).id != id,
    {
        let mut i: usize = 0;
        while i < self.urls.len()
            invariant
                i <= self.urls@.len(),
                forall|j: int| 0 <= j < i ==> (#[trigger] self@.urls[j]).id != id,
            decreases self.urls@.len() - i,
        {
            if self.urls[i].id == id {
                return Some(i);
            }
            i = i + 1;
        }
        None
    }

    /// Puts a click on the link of this id on record and raises its count.
    pub fn record_click(&mut self, url_id: i64, now: i64)
        requires
            old(self)@.wf(),
        ensures
            final(self)@.wf(),
            final(self)@ == old(self)@.with_click(url_id, now),
    {
        let ghost before = self@;
        let ghost change = |u: UrlRowView|
            if u.id == url_id {
                UrlRowView { clicks: bumped(u.clicks), ..u }
            } else {
                u
            };
        proof {
            before.lemma_map_urls_wf(change);
        }
        match self.url_index_by_id(url_id) {
            Some(i) => {
                assert(before.urls[i as int].id == url_id);
                let mut row = self.urls[i].duplicate();
                if row.clicks < u64::MAX {
                    row.clicks = row.clicks + 1;
                }
                self.urls.set(i, row);
                proof {
                    assert forall|j: int| 0 <= j < before.urls.len() implies (
                    #[trigger] self@.urls[j]) == change(before.urls[j]) by {
                        if j < i {
                            assert(before.urls[j].id != before.urls[i as int].id);
                        } else if i < j {
                            assert(before.urls[i as int].id != before.urls[j].id);
                        }
                    }
                    assert(self@.urls =~= before.urls.map_values(change));
                }
            },
            None => {
                return ;
            },
        }
        if self.next_click_id < i64::MAX {
            let id = self.next_click_id;
            self.clicks.push(ClickRow { id, url_id, clicked_at: now });
            self.next_click_id = id + 1;
        }
    }

    /// Deletes the clicks before `cutoff`.
    pub fn delete_clicks_before(&mut self, cutoff: i128)
        ensures
            final(self)@ == old(self)@.without_clicks_before(cutoff as int),
            old(self)@.wf() ==> final(self)@.wf(),
    {
        let ghost before = self@;
        let ghost pred = |c: ClickRow| c.clicked_at >= cutoff as int;
        let mut clicks: Vec<ClickRow> = Vec::new();
        let mut i: usize = 0;
        assert(self@.clicks.take(0) =~= Seq::empty());
        proof {
            reveal(Seq::filter);
        }
        while i < self.clicks.len()
            invariant
                i <= self.clicks@.len(),
                self@ == before,
                pred == |c: ClickRow| c.clicked_at >= cutoff as int,
                clicks@ == before.clicks.take(i as int).filter(pred),
            decreases self.clicks@.len() - i,
        {
            let row = self.clicks[i];
            proof {
                assert(before.clicks.take(i + 1) =~= before.clicks.take(i as int).push(row));
                before.clicks.take(i as int).lemma_filter_push(row, pred);
            }
            if row.clicked_at as i128 >= cutoff {
                clicks.push(row);
            }
            i = i + 1;
        }
        assert(before.clicks.take(i as int) =~= before.clicks);
        self.clicks = clicks;
    }

    /// The sum of the click counts of all links.
    pub fn total_clicks(&self) -> (total: u128)
        ensures
            total == click_sum(self@.urls),
    {
        let mut total: u128 = 0;
        let mut i: usize = 0;
        assert(self@.urls.take(0) =~= Seq::empty());
        while i < self.urls.len()
            invariant
                i <= self.urls@.len(),
                total == click_sum(self@.urls.take(i as int)),
                total <= i * u64::MAX,
            decreases self.urls@.len() - i,
        {
            proof {
                assert(self@.urls.take(i + 1).drop_last() =~= self@.urls.take(i as int));
                assert((i + 1) * u64::MAX == i * u64::MAX + u64::MAX) by (nonlinear_arith);
                assert(i * u64::MAX <= usize::MAX * u64::MAX) by (nonlinear_arith)
                    requires
                        i <= usize::MAX,
                ;
            }
            total = total + self.urls[i].clicks as u128;
            i = i + 1;
        }
        assert(self@.urls.take(i as int) =~= self@.urls);
        total
    }
    /// The links, oldest first.
    pub fn urls(&self) -> (rows: &Vec<UrlRow>)
        ensures
            url_views(rows@) == self@.urls,
    {
        &self.urls
    }

    /// The clicks, oldest first.
    pub fn clicks(&self) -> (rows: &Vec<ClickRow>)
        ensures
            rows@ == self@.clicks,
    {
        &self.clicks
    }

    /// The id that the next link gets.
    pub fn next_url_id(&self) -> (id: i64)
        ensures
            id == self@.next_url_id,
    {
        self.next_url_id
    }

    /// The id that the next click gets.
    pub fn next_click_id(&self) -> (id: i64)
        ensures
            id == self@.next_click_id,
    {
        self.next_click_id
    }

    /// Makes the tables of rows that were kept elsewhere, provided that
    /// they meet the constraints: codes and ids unique, ids below the
    /// counters.
    pub fn from_rows(urls: Vec<UrlRow>, clicks: Vec<ClickRow>, next_url_id: i64, next_click_id: i64) -> (res:
        Option<LinkStore>)
        ensures
            res matches Some(links) ==> links@.wf() && links@ == (LinkStoreView {
                urls: url_views(urls@),
                clicks: clicks@,
                next_url_id,
                next_click_id,
            }),
            res is None <==> !(LinkStoreView {
                urls: url_views(urls@),
                clicks: clicks@,
                next_url_id,
                next_click_id,
            }).wf(),
    {
        let ghost view = LinkStoreView {
            urls: url_views(urls@),
            clicks: clicks@,
            next_url_id,
            next_click_id,
        };
        let mut ids: Vec<i64> = Vec::new();
        let mut codes: Vec<String> = Vec::new();
        let mut i: usize = 0;
        while i < urls.len()
            invariant
                i <= urls@.len(),
                ids@ == view.urls.take(i as int).map_values(|u: UrlRowView| u.id),
                views_of(codes@) == view.urls.take(i as int).map_values(
                    |u: UrlRowView| u.short_code,
                ),
                view.urls == url_views(urls@),
            decreases urls@.len() - i,
        {
            let ghost codes_so_far = views_of(codes@);
            ids.push(urls[i].id);
            codes.push(urls[i].short_code.clone());
            assert(view.urls.take(i + 1) =~= view.urls.take(i as int).push(view.urls[i as int]));
            assert(ids@ =~= view.urls.take(i + 1).map_values(|u: UrlRowView| u.id));
            assert(views_of(codes@) =~= codes_so_far.push(view.urls[i as int].short_code));
            assert(views_of(codes@) =~= view.urls.take(i + 1).map_values(
                |u: UrlRowView| u.short_code,
            ));
            i = i + 1;
        }
        assert(view.urls.take(i as int) =~= view.urls);
        let ids_ok = check_ids(&ids, next_url_id);
        let codes_ok = check_texts(&codes);
        proof {
            if ids_ok && codes_ok && 1 <= next_url_id && 1 <= next_click_id {
                assert forall|a: int| 0 <= a < view.urls.len() implies 1 <= (
                #[trigger] view.urls[a]).id < next_url_id by {
                    assert(ids@[a] == view.urls[a].id);
                }
                assert forall|a: int, b: int| 0 <= a < b < view.urls.len() implies (
                #[trigger] view.urls[a]).id != (#[trigger] view.urls[b]).id by {
                    assert(ids@[a] == view.urls[a].id && ids@[b] == view.urls[b].id);
                }
                assert forall|a: int, b: int| 0 <= a < b < view.urls.len() implies (
                #[trigger] view.urls[a]).short_code != (#[trigger] view.urls[b]).short_code by {
                    assert(views_of(codes@)[a] == view.urls[a].short_code && views_of(codes@)[b]
                        == view.urls[b].short_code);
                }
            }
            if view.wf() {
                assert forall|a: int| 0 <= a < ids@.len() implies 1 <= #[trigger] ids@[a]
                    < next_url_id by {
                    assert(ids@[a] == view.urls[a].id);
                }
                assert forall|a: int, b: int| 0 <= a < b < ids@.len() implies #[trigger] ids@[a]
                    != #[trigger] ids@[b] by {
                    assert(ids@[a] == view.urls[a].id && ids@[b] == view.urls[b].id);
                }
                assert forall|a: int, b: int| 0 <= a < b < views_of(codes@).len() implies (
                #[trigger] views_of(codes@)[a]) != (#[trigger] views_of(codes@)[b]) by {
                    assert(views_of(codes@)[a] == view.urls[a].short_code && views_of(codes@)[b]
                        == view.urls[b].short_code);
                }
            }
        }
        if ids_ok && codes_ok && next_url_id >= 1 && next_click_id >= 1 {
            Some(LinkStore { urls, clicks, next_url_id, next_click_id })
        } else {
            None
        }
    }
}

} // verus!
