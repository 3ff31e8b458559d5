//! The table of abuse reports.

use crate::db::InsertError;
use crate::links::duplicate_text;
use crate::models::optional_text;
use crate::seqs::check_ids;
use vstd::prelude::*;

verus! {

/// How far a report has come.
#[derive(Clone, Copy, Debug, PartialEq, Eq, Structural)]
pub enum ReportStatus {
    /// Nobody has looked at it.
    Pending,
    /// Looked at and found baseless.
    Dismissed,
    /// Acted upon.
    Resolved,
}

impl ReportStatus {
    /// The status as it is shown.
    pub open spec fn text_spec(self) -> Seq<char> {
        match self {
            ReportStatus::Pending => "pending"@,
            ReportStatus::Dismissed => "dismissed"@,
            ReportStatus::Resolved => "resolved"@,
        }
    }

    /// The status as it is shown.
    pub fn text(self) -> (t: String)
        ensures
            t@ == self.text_spec(),
    {
        match self {
            ReportStatus::Pending => "pending".to_string(),
            ReportStatus::Dismissed => "dismissed".to_string(),
            ReportStatus::Resolved => "resolved".to_string(),
        }
    }
}

/// A report of abuse.
#[derive(Debug, Clone)]
pub struct ReportRow {
    /// Id, unique and never reused.
    pub id: i64,
    /// The code of the link that is reported.
    pub short_code: String,
    /// Where to reach the reporter.
    pub reporter_email: Option<String>,
    /// What is wrong.
    pub reason: String,
    /// More words on it.
    pub description: Option<String>,
    /// How far the report has come.
    pub status: ReportStatus,
    /// Second of creation.
    pub created_at: i64,
    /// Second at which it was closed.
    pub resolved_at: Option<i64>,
    /// The account that closed it, as long as that account exists.
    pub resolved_by: Option<i64>,
}

/// A `ReportRow` with its text as sequences of characters.
pub struct ReportRowView {
    pub id: i64,
    pub short_code: Seq<char>,
    pub reporter_email: Option<Seq<char>>,
    pub reason: Seq<char>,
    pub description: Option<Seq<char>>,
    pub status: ReportStatus,
    pub created_at: i64,
    pub resolved_at: Option<i64>,
    pub resolved_by: Option<i64>,
}

impl View for ReportRow {
    type V = ReportRowView;

    open spec fn view(&self) -> ReportRowView {
        ReportRowView {
            id: self.id,
            short_code: self.short_code@,
            reporter_email: optional_text(self.reporter_email),
            reason: self.reason@,
            description: optional_text(self.description),
            status: self.status,
            created_at: self.created_at,
            resolved_at: self.resolved_at,
            resolved_by: self.resolved_by,
        }
    }
}

impl ReportRow {
    /// A copy with the same view.
    pub fn duplicate(&self) -> (copy: ReportRow)
        ensures
            copy@ == self@,
    {
        ReportRow {
            id: self.id,
            short_code: self.short_code.clone(),
            reporter_email: duplicate_text(&self.reporter_email),
            reason: self.reason.clone(),
            description: duplicate_text(&self.description),
            status: self.status,
            created_at: self.created_at,
            resolved_at: self.resolved_at,
            resolved_by: self.resolved_by,
        }
    }
}

/// The table as a mathematical sequence, oldest row first, and the id that
/// it gives out next.
pub struct ReportStoreView {
    pub reports: Seq<ReportRowView>,
    pub next_report_id: i64,
}

impl ReportStoreView {
    /// The table with no rows.
    pub open spec fn empty() -> ReportStoreView {
        ReportStoreView { reports: Seq::empty(), next_report_id: 1 }
    }

    /// No two reports share an id, and every id was given out by the
    /// table's counter.
    pub open spec fn wf(self) -> bool {
        &&& 1 <= self.next_report_id
        &&& forall|i: int|
            0 <= i < self.reports.len() ==> 1 <= (#[trigger] self.reports[i]).id
                < self.next_report_id
        &&& forall|i: int, j: int|
            0 <= i < j < self.reports.len() ==> (#[trigger] self.reports[i]).id
                != (#[trigger] self.reports[j]).id
    }

    /// Whether a report has this id.
    pub open spec fn has_report(self, id: i64) -> bool {
        exists|i: int| 0 <= i < self.reports.len() && (#[trigger] self.reports[i]).id == id
    }

    /// The report with this id, if there is one.
    pub open spec fn report_with_id(self, id: i64) -> Option<ReportRowView> {
        if self.has_report(id) {
            Some(
                self.reports[choose|i: int|
                    0 <= i < self.reports.len() && (#[trigger] self.reports[i]).id == id],
            )
        } else {
            None
        }
    }

    /// The row that a new report is stored as.
    pub open spec fn new_report_row(
        self,
        short_code: Seq<char>,
        reporter_email: Option<Seq<char>>,
        reason: Seq<char>,
        description: Option<Seq<char>>,
        now: i64,
    ) -> ReportRowView {
        ReportRowView {
            id: self.next_report_id,
            short_code,
            reporter_email,
            reason,
            description,
            status: ReportStatus::Pending,
            created_at: now,
            resolved_at: None,
            resolved_by: None,
        }
    }

    /// The table after an attempt to insert a report: with the new row at
    /// the end, or unchanged where the table has run out of ids.
    pub open spec fn with_report(
        self,
        short_code: Seq<char>,
        reporter_email: Option<Seq<char>>,
        reason: Seq<char>,
        description: Option<Seq<char>>,
        now: i64,
    ) -> ReportStoreView {
        if self.next_report_id == i64::MAX {
            self
        } else {
            ReportStoreView {
                reports: self.reports.push(
                    self.new_report_row(short_code, reporter_email, reason, description, now),
                ),
                next_report_id: (self.next_report_id + 1) as i64,
            }
        }
    }

    /// The table with the report of this id closed at `now` by an account.
    pub open spec fn with_closed(
        self,
        id: i64,
        status: ReportStatus,
        now: i64,
        resolver: i64,
    ) -> ReportStoreView {
        ReportStoreView {
            reports: self.reports.map_values(
                |r: ReportRowView|
                    if r.id == id {
                        ReportRowView {
                            status,
                            resolved_at: Some(now),
                            resolved_by: Some(resolver),
                            ..r
                        }
                    } else {
                        r
                    },
            ),
            ..self
        }
    }

    /// The table with no report closed by this account any more: what it
    /// closed stays closed, by nobody.
    pub open spec fn without_resolver(self, user_id: i64) -> ReportStoreView {
        ReportStoreView {
            reports: self.reports.map_values(
                |r: ReportRowView|
                    if r.resolved_by == Some(user_id) {
                        ReportRowView { resolved_by: None, ..r }
                    } else {
                        r
                    },
            ),
            ..self
        }
    }

    /// Forgetting who closed reports keeps the constraints.
    pub proof fn lemma_without_resolver_wf(self, user_id: i64)
        requires
            self.wf(),
        ensures
            self.without_resolver(user_id).wf(),
    {
        self.lemma_map_reports_wf(
            |r: ReportRowView|
                if r.resolved_by == Some(user_id) {
                    ReportRowView { resolved_by: None, ..r }
                } else {
                    r
                },
        );
    }

    /// Changing reports row by row, with the id left alone, keeps the
    /// constraints.
    pub proof fn lemma_map_reports_wf(self, change: spec_fn(ReportRowView) -> ReportRowView)
        requires
            self.wf(),
            forall|r: ReportRowView| (#[trigger] change(r)).id == r.id,
        ensures
            (ReportStoreView { reports: self.reports.map_values(change), ..self }).wf(),
    {
        let after = self.reports.map_values(change);
        assert forall|i: int| 0 <= i < after.len() implies 1 <= (#[trigger] after[i]).id
            < self.next_report_id by {
            assert(after[i] == change(self.reports[i]));
        }
        assert forall|i: int, j: int| 0 <= i < j < after.len() implies (#[trigger] after[i]).id != (
        #[trigger] after[j]).id by {
            assert(after[i] == change(self.reports[i]));
            assert(after[j] == change(self.reports[j]));
        }
    }
}

/// The views of the rows of the table of reports.
pub open spec fn report_views(rows: Seq<ReportRow>) -> Seq<ReportRowView> {
    rows.map_values(|r: ReportRow| r@)
}

/// The view of a report that a lookup returned.
pub open spec fn report_row_view(row: Option<ReportRow>) -> Option<ReportRowView> {
    match row {
        Some(r) => Some(r@),
        None => None,
    }
}

/// The view of the result of a lookup by index.
pub open spec fn report_found(reports: ReportStoreView, index: Option<usize>) -> Option<
    ReportRowView,
> {
    match index {
        Some(i) => Some(reports.reports[i as int]),
        None => None,
    }
}

/// The table of abuse reports.
#[derive(Debug, Clone)]
pub struct ReportStore {
    pub(crate) reports: Vec<ReportRow>,
    pub(crate) next_report_id: i64,
}

impl View for ReportStore {
    type V = ReportStoreView;

    closed spec fn view(&self) -> ReportStoreView {
        ReportStoreView { reports: report_views(self.reports@), next_report_id: self.next_report_id }
    }
}

impl ReportStore {
    /// A table with no rows.
    pub fn new() -> (store: ReportStore)
        ensures
            store@ == ReportStoreView::empty(),
            store@.wf(),
    {
        let store = ReportStore { reports: Vec::new(), next_report_id: 1 };
        assert(store@.reports =~= Seq::empty());
        store
    }

    /// The place of the report with this id.
    pub(crate) fn report_index(&self, id: i64) -> (res: Option<usize>)
        requires
            self@.wf(),
        ensures
            res matches Some(i) ==> i < self.reports@.len() && self@.reports[i as int].id == id,
            report_found(self@, res) == self@.report_with_id(id),
    {
        let mut i: usize = 0;
        while i < self.reports.len()
            invariant
                i <= self.reports@.len(),
                self@.wf(),
                forall|j: int| 0 <= j < i ==> (#[trigger] self@.reports[j]).id != id,
            decreases self.reports@.len() - i,
        {
            if self.reports[i].id == id {
                proof {
                    assert(self@.reports[i as int].id == id);
                    let k = choose|k: int|
                        0 <= k < self@.reports.len() && (#[trigger] self@.reports[k]).id == id;
                    assert(k == i) by {
                        if k < i {
                            assert(self@.reports[k].id != self@.reports[i as int].id);
                        } else if i < k {
                            assert(self@.reports[i as int].id != self@.reports[k].id);
                        }
                    }
                }
                return Some(i);
            }
            i = i + 1;
        }
        None
    }

    /// The report with this id, if there is one.
    pub fn find_report(&self, id: i64) -> (res: Option<ReportRow>)
        requires
            self@.wf(),
        ensures
            report_row_view(res) == self@.report_with_id(id),
    {
        match self.report_index(id) {
            Some(i) => Some(self.reports[i].duplicate()),
            None => None,
        }
    }

    /// All reports, oldest first.
    pub fn all_reports(&self) -> (rows: Vec<ReportRow>)
        ensures
            report_views(rows@) == self@.reports,
    {
        let mut rows: Vec<ReportRow> = Vec::new();
        let mut i: usize = 0;
        while i < self.reports.len()
            invariant
                i <= self.reports@.len(),
                report_views(rows@) == self@.reports.take(i as int),
            decreases self.reports@.len() - i,
        {
            let ghost so_far = report_views(rows@);
            rows.push(self.reports[i].duplicate());
            assert(report_views(rows@) =~= so_far.push(self@.reports[i as int]));
            assert(self@.reports.take(i + 1) =~= self@.reports.take(i as int).push(
                self@.reports[i as int],
            ));
            i = i + 1;
        }
        assert(self@.reports.take(i as int) =~= self@.reports);
        rows
    }

    /// Stores a new report, pending, and returns its id.
    pub fn insert_report(
        &mut self,
        short_code: &str,
        reporter_email: &Option<String>,
        reason: &str,
        description: &Option<String>,
        now: i64,
    ) -> (res: Result<i64, InsertError>)
        requires
            old(self)@.wf(),
        ensures
            final(self)@.wf(),
            final(self)@ == old(self)@.with_report(
                short_code@,
                optional_text(*reporter_email),
                reason@,
                optional_text(*description),
                now,
            ),
            match res {
                Ok(id) => old(self)@.next_report_id < i64::MAX && id == old(self)@.next_report_id,
                Err(e) => old(self)@.next_report_id == i64::MAX && e == InsertError::Full,
            },
    {
        if self.next_report_id == i64::MAX {
            return Err(InsertError::Full);
        }
        let id = self.next_report_id;
        let row = ReportRow {
            id,
            short_code: short_code.to_owned(),
            reporter_email: duplicate_text(reporter_email),
            reason: reason.to_owned(),
            description: duplicate_text(description),
            status: ReportStatus::Pending,
            created_at: now,
            resolved_at: None,
            resolved_by: None,
        };
        self.reports.push(row);
        self.next_report_id = id + 1;
        proof {
            let before = old(self)@;
            let added = before.new_report_row(
                short_code@,
                optional_text(*reporter_email),
                reason@,
                optional_text(*description),
                now,
            );
            assert(self@.reports =~= before.reports.push(added));
        }
        Ok(id)
    }

    /// Closes the report of this id, and says whether there is one.
    pub fn close_report(&mut self, id: i64, status: ReportStatus, now: i64, resolver: i64) -> (found:
        bool)
        requires
            old(self)@.wf(),
        ensures
            final(self)@.wf(),
            final(self)@ == old(self)@.with_closed(id, status, now, resolver),
            found == old(self)@.has_report(id),
    {
        let ghost before = self@;
        let ghost change = |r: ReportRowView|
            if r.id == id {
                ReportRowView { status, resolved_at: Some(now), resolved_by: Some(resolver), ..r }
            } else {
                r
            };
        proof {
            before.lemma_map_reports_wf(change);
        }
        match self.report_index(id) {
            Some(i) => {
                let mut row = self.reports[i].duplicate();
                row.status = status;
                row.resolved_at = Some(now);
                row.resolved_by = Some(resolver);
                self.reports.set(i, row);
                proof {
                    assert forall|j: int| 0 <= j < before.reports.len() implies (
                    #[trigger] self@.reports[j]) == change(before.reports[j]) by {
                        if j < i {
                            assert(before.reports[j].id != before.reports[i as int].id);
                        } else if i < j {
                            assert(before.reports[i as int].id != before.reports[j].id);
                        }
                    }
                    assert(self@.reports =~= before.reports.map_values(change));
                }
                true
            },
            None => {
                proof {
                    assert(before.reports.map_values(change) =~= before.reports);
                }
                false
            },
        }
    }

    /// Forgets that this account closed any report.
    pub fn clear_resolver(&mut self, user_id: i64)
        requires
            old(self)@.wf(),
        ensures
            final(self)@.wf(),
            final(self)@ == old(self)@.without_resolver(user_id),
    {
        let ghost before = self@;
        let ghost change = |r: ReportRowView|
            if r.resolved_by == Some(user_id) {
                ReportRowView { resolved_by: None, ..r }
            } else {
                r
            };
        proof {
            before.lemma_map_reports_wf(change);
        }
        let mut i: usize = 0;
        while i < self.reports.len()
            invariant
                i <= self.reports@.len(),
                self@.reports.len() == before.reports.len(),
                self@.next_report_id == before.next_report_id,
                change == |r: ReportRowView|
                    if r.resolved_by == Some(user_id) {
                        ReportRowView { resolved_by: None, ..r }
                    } else {
                        r
                    },
                forall|j: int| 0 <= j < i ==> (#[trigger] self@.reports[j]) == change(before.reports[j]),
                forall|j: int|
                    i <= j < before.reports.len() ==> (#[trigger] self@.reports[j])
                        == before.reports[j],
            decreases self.reports@.len() - i,
        {
            let ghost prev = self@.reports;
            assert(prev[i as int] == before.reports[i as int]);
            let cleared = match self.reports[i].resolved_by {
                Some(r) => r == user_id,
                None => false,
            };
            assert(cleared == (before.reports[i as int].resolved_by == Some(user_id)));
            if cleared {
                let mut row = self.reports[i].duplicate();
                row.resolved_by = None;
                self.reports.set(i, row);
                assert(self@.reports =~= prev.update(i as int, change(before.reports[i as int])));
            }
            assert(self@.reports[i as int] == change(before.reports[i as int]));
            assert forall|j: int| 0 <= j < i + 1 implies (#[trigger] self@.reports[j]) == change(
                before.reports[j],
            ) by {
                if j < i {
                    assert(self@.reports[j] == prev[j]);
                }
            }
            assert forall|j: int| i + 1 <= j < before.reports.len() implies (
            #[trigger] self@.reports[j]) == before.reports[j] by {
                assert(self@.reports[j] == prev[j]);
            }
            i = i + 1;
        }
        assert(self@.reports =~= before.reports.map_values(change));
    }
    /// The id that the next report gets.
    pub fn next_report_id(&self) -> (id: i64)
        ensures
            id == self@.next_report_id,
    {
        self.next_report_id
    }

    /// Makes the table of rows that were kept elsewhere, provided that they
    /// meet the constraints: ids unique and below the counter.
    pub fn from_rows(reports: Vec<ReportRow>, next_report_id: i64) -> (res: Option<ReportStore>)
        ensures
            res matches Some(store) ==> store@.wf() && store@ == (ReportStoreView {
                reports: report_views(reports@),
                next_report_id,
            }),
            res is None <==> !(ReportStoreView {
                reports: report_views(reports@),
                next_report_id,
            }).wf(),
    {
        let ghost view = ReportStoreView { reports: report_views(reports@), next_report_id };
        let mut ids: Vec<i64> = Vec::new();
        let mut i: usize = 0;
        while i < reports.len()
            invariant
                i <= reports@.len(),
                ids@ == view.reports.take(i as int).map_values(|r: ReportRowView| r.id),
                view.reports == report_views(reports@),
            decreases reports@.len() - i,
        {
            ids.push(reports[i].id);
            assert(view.reports.take(i + 1) =~= view.reports.take(i as int).push(
                view.reports[i as int],
            ));
            assert(ids@ =~= view.reports.take(i + 1).map_values(|r: ReportRowView| r.id));
            i = i + 1;
        }
        assert(view.reports.take(i as int) =~= view.reports);
        let ids_ok = check_ids(&ids, next_report_id);
        proof {
            if ids_ok && 1 <= next_report_id {
                assert forall|a: int| 0 <= a < view.reports.len() implies 1 <= (
                #[trigger] view.reports[a]).id < next_report_id by {
                    assert(ids@[a] == view.reports[a].id);
                }
                assert forall|a: int, b: int| 0 <= a < b < view.reports.len() implies (
                #[trigger] view.reports[a]).id != (#[trigger] view.reports[b]).id by {
                    assert(ids@[a] == view.reports[a].id && ids@[b] == view.reports[b].id);
                }
            }
            if view.wf() {
                assert forall|a: int| 0 <= a < ids@.len() implies 1 <= #[trigger] ids@[a]
                    < next_report_id by {
                    assert(ids@[a] == view.reports[a].id);
                }
                assert forall|a: int, b: int| 0 <= a < b < ids@.len() implies #[trigger] ids@[a]
                    != #[trigger] ids@[b] by {
                    assert(ids@[a] == view.reports[a].id && ids@[b] == view.reports[b].id);
                }
            }
        }
        if ids_ok && next_report_id >= 1 {
            Some(ReportStore { reports, next_report_id })
        } else {
            None
        }
    }
}

} // verus!
