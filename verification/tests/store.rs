use rus::db::Database;
use rus::db::InsertError;
use rus::db::LoginAttemptRow;
use rus::db::RefreshTokenRow;
use rus::db::UserRow;
use rus::links::ClickRow;
use rus::links::LinkStore;
use rus::links::UrlRow;
use rus::ordering::order_highest_first;
use rus::reports::ReportRow;
use rus::reports::ReportStatus;
use rus::reports::ReportStore;
use rus::seqs::check_ids;
use rus::seqs::check_texts;

fn user(id: i64, name: &str) -> UserRow {
    UserRow {
        user_id: id,
        username: name.to_string(),
        password: "hash".to_string(),
        is_admin: id == 1,
        created_at: 0,
    }
}

fn token(id: i64, user_id: i64, text: &str) -> RefreshTokenRow {
    RefreshTokenRow { id, user_id, token: text.to_string(), expires_at: 100, created_at: 0 }
}

fn url(id: i64, user_id: i64, code: &str) -> UrlRow {
    UrlRow {
        id,
        user_id,
        original_url: "https://example.com".to_string(),
        short_code: code.to_string(),
        name: None,
        clicks: 0,
        created_at: 0,
    }
}

fn report(id: i64) -> ReportRow {
    ReportRow {
        id,
        short_code: "abc123".to_string(),
        reporter_email: None,
        reason: "spam".to_string(),
        description: None,
        status: ReportStatus::Pending,
        created_at: 0,
        resolved_at: None,
        resolved_by: None,
    }
}

#[test]
fn accounts_get_ids_in_turn_and_usernames_are_unique() {
    let mut db = Database::new();
    assert_eq!(db.count_users(), 0);
    assert_eq!(db.insert_user("alice", "h1", true, 10), Ok(1));
    assert_eq!(db.insert_user("bob", "h2", false, 11), Ok(2));
    assert_eq!(db.insert_user("alice", "h3", false, 12), Err(InsertError::Duplicate));
    assert_eq!(db.insert_user("", "h4", false, 13), Ok(3));
    assert_eq!(db.count_users(), 3);
    let bob = db.find_user_by_username("bob").unwrap();
    assert_eq!(bob.user_id, 2);
    assert_eq!(bob.password, "h2");
    assert!(!bob.is_admin);
    assert_eq!(bob.created_at, 11);
    assert_eq!(db.find_user_by_id(1).unwrap().username, "alice");
    assert!(db.find_user_by_username("Bob").is_none());
    assert!(db.find_user_by_username("bo").is_none());
    assert!(db.find_user_by_id(4).is_none());
    assert!(db.find_user_by_id(0).is_none());
}

#[test]
fn table_that_has_run_out_of_ids_takes_no_more_rows() {
    let mut db = Database::new();
    db.next_user_id = i64::MAX;
    assert_eq!(db.insert_user("alice", "h", true, 0), Err(InsertError::Full));
    assert_eq!(db.count_users(), 0);
    db.next_user_id = i64::MAX - 1;
    assert_eq!(db.insert_user("alice", "h", true, 0), Ok(i64::MAX - 1));
    assert_eq!(db.insert_user("bob", "h", true, 0), Err(InsertError::Full));
    db.next_refresh_token_id = i64::MAX;
    assert_eq!(db.insert_refresh_token(i64::MAX - 1, "t", 1, 0), Err(InsertError::Full));
    assert_eq!(db.insert_refresh_token(5, "t", 1, 0), Err(InsertError::NoSuchUser));
}

#[test]
fn refresh_tokens_and_links_belong_to_accounts_that_exist() {
    let mut db = Database::new();
    db.insert_user("alice", "h", true, 0).unwrap();
    assert_eq!(db.insert_refresh_token(2, "t", 100, 0), Err(InsertError::NoSuchUser));
    assert_eq!(db.insert_refresh_token(1, "t", 100, 0), Ok(1));
    assert_eq!(db.insert_refresh_token(1, "t", 200, 0), Err(InsertError::Duplicate));
    assert_eq!(db.insert_refresh_token(1, "u", 200, 5), Ok(2));
    let row = db.find_refresh_token("u").unwrap();
    assert_eq!((row.id, row.user_id, row.expires_at, row.created_at), (2, 1, 200, 5));
    assert!(db.find_refresh_token("v").is_none());
    assert!(db.delete_refresh_token("t"));
    assert!(!db.delete_refresh_token("t"));
    assert_eq!(db.refresh_tokens.len(), 1);
    assert_eq!(db.insert_refresh_token(1, "t", 100, 0), Ok(3));
    assert_eq!(db.insert_url(2, "https://example.com", "abc123", 0), Err(InsertError::NoSuchUser));
    assert_eq!(db.insert_url(1, "https://example.com", "abc123", 0), Ok(1));
    assert_eq!(db.insert_url(1, "https://example.org", "abc123", 0), Err(InsertError::Duplicate));
    assert_eq!(db.links.count_urls(), 1);
    assert_eq!(db.links.next_url_id(), 2);
}

#[test]
fn promoting_changes_the_flag_and_nothing_else() {
    let mut db = Database::new();
    db.insert_user("alice", "h1", true, 10).unwrap();
    db.insert_user("bob", "h2", false, 11).unwrap();
    assert!(!db.promote_user(3));
    assert!(db.promote_user(2));
    assert!(db.users[1].is_admin);
    assert_eq!(db.users[1].username, "bob");
    assert_eq!(db.users[1].password, "h2");
    assert_eq!(db.users[1].created_at, 11);
    assert!(db.promote_user(2));
    assert!(db.users[0].is_admin);
    assert_eq!(db.users.len(), 2);
}

#[test]
fn clicks_count_up_to_the_highest_number() {
    let mut links = LinkStore::from_rows(vec![url(1, 1, "abc123")], vec![], 2, 1).unwrap();
    links.record_click(1, 5);
    assert_eq!(links.urls()[0].clicks, 1);
    assert_eq!(links.total_clicks(), 1);
    // A click on a link that does not exist changes nothing.
    links.record_click(9, 5);
    assert_eq!(links.clicks().len(), 1);
    assert_eq!(links.next_click_id(), 2);
    let mut full = url(1, 1, "abc123");
    full.clicks = u64::MAX;
    let mut links =
        LinkStore::from_rows(vec![full, url(2, 1, "def456")], vec![], 3, i64::MAX).unwrap();
    links.record_click(1, 5);
    links.record_click(2, 6);
    assert_eq!(links.urls()[0].clicks, u64::MAX);
    assert_eq!(links.urls()[1].clicks, 1);
    assert_eq!(links.total_clicks(), u64::MAX as u128 + 1);
    // The table of clicks had run out of ids: the counts rose all the same.
    assert!(links.clicks().is_empty());
}

#[test]
fn tables_kept_elsewhere_are_taken_only_if_they_meet_the_constraints() {
    assert!(LinkStore::from_rows(vec![], vec![], 1, 1).is_some());
    assert!(LinkStore::from_rows(vec![], vec![], 0, 1).is_none());
    assert!(LinkStore::from_rows(vec![], vec![], 1, 0).is_none());
    assert!(LinkStore::from_rows(vec![url(1, 1, "a"), url(2, 1, "b")], vec![], 3, 1).is_some());
    assert!(LinkStore::from_rows(vec![url(2, 1, "a"), url(1, 1, "b")], vec![], 3, 1).is_some());
    assert!(LinkStore::from_rows(vec![url(1, 1, "a"), url(2, 1, "a")], vec![], 3, 1).is_none());
    assert!(LinkStore::from_rows(vec![url(1, 1, "a"), url(1, 1, "b")], vec![], 3, 1).is_none());
    assert!(LinkStore::from_rows(vec![url(1, 1, "a"), url(2, 1, "b")], vec![], 2, 1).is_none());
    assert!(LinkStore::from_rows(vec![url(0, 1, "a")], vec![], 2, 1).is_none());
    let clicks = vec![ClickRow { id: 7, url_id: 1, clicked_at: 3 }];
    let links = LinkStore::from_rows(vec![url(1, 1, "a")], clicks, 2, 8).unwrap();
    assert_eq!(links.clicks()[0], ClickRow { id: 7, url_id: 1, clicked_at: 3 });
    assert_eq!(links.next_click_id(), 8);

    assert!(ReportStore::from_rows(vec![], 1).is_some());
    assert!(ReportStore::from_rows(vec![], 0).is_none());
    assert!(ReportStore::from_rows(vec![report(1), report(2)], 3).is_some());
    assert!(ReportStore::from_rows(vec![report(1), report(1)], 3).is_none());
    assert!(ReportStore::from_rows(vec![report(1), report(3)], 3).is_none());
    let reports = ReportStore::from_rows(vec![report(4)], 9).unwrap();
    assert_eq!(reports.next_report_id(), 9);
    assert_eq!(reports.find_report(4).unwrap().reason, "spam");
    assert!(reports.find_report(5).is_none());
}

#[test]
fn store_kept_elsewhere_is_taken_only_if_it_meets_the_constraints() {
    let build = |users: Vec<UserRow>, tokens: Vec<RefreshTokenRow>, next_user, next_token| {
        Database::from_tables(
            users,
            tokens,
            vec![LoginAttemptRow { username: "x".to_string(), attempted_at: 1, success: false }],
            LinkStore::new(),
            ReportStore::new(),
            next_user,
            next_token,
        )
    };
    let db = build(vec![user(1, "alice"), user(5, "bob")], vec![token(2, 5, "t")], 6, 3).unwrap();
    assert_eq!(db.count_users(), 2);
    assert_eq!(db.login_attempts.len(), 1);
    assert_eq!(db.find_user_by_username("bob").unwrap().user_id, 5);
    assert_eq!(db.find_refresh_token("t").unwrap().user_id, 5);
    assert!(build(vec![], vec![], 1, 1).is_some());
    assert!(build(vec![], vec![], 0, 1).is_none());
    assert!(build(vec![], vec![], 1, 0).is_none());
    assert!(build(vec![user(1, "alice"), user(2, "alice")], vec![], 3, 1).is_none());
    assert!(build(vec![user(1, "alice"), user(1, "bob")], vec![], 3, 1).is_none());
    assert!(build(vec![user(3, "alice")], vec![], 3, 1).is_none());
    assert!(build(vec![user(-1, "alice")], vec![], 3, 1).is_none());
    assert!(build(vec![user(1, "a")], vec![token(1, 1, "t"), token(2, 1, "t")], 2, 3).is_none());
    assert!(build(vec![user(1, "a")], vec![token(1, 1, "t"), token(1, 1, "u")], 2, 3).is_none());
    assert!(build(vec![user(1, "a")], vec![token(1, 1, "t"), token(2, 1, "u")], 2, 2).is_none());
    assert!(build(vec![user(1, "a")], vec![token(1, 1, "t"), token(2, 1, "u")], 2, 3).is_some());
}

#[test]
fn ids_and_texts_are_checked_pair_by_pair() {
    assert!(check_ids(&vec![], 1));
    assert!(check_ids(&vec![], i64::MIN));
    assert!(check_ids(&vec![3, 1, 2], 4));
    assert!(!check_ids(&vec![3, 1, 2], 3));
    assert!(!check_ids(&vec![3, 1, 3], 4));
    assert!(!check_ids(&vec![0], 4));
    assert!(check_texts(&vec![]));
    assert!(check_texts(&vec!["a".to_string(), "b".to_string(), "".to_string()]));
    assert!(!check_texts(&vec!["a".to_string(), "b".to_string(), "a".to_string()]));
    assert!(!check_texts(&vec!["".to_string(), "".to_string()]));
}

#[test]
fn places_are_put_in_order_of_their_keys_highest_first() {
    assert_eq!(order_highest_first(&vec![]), Vec::<usize>::new());
    assert_eq!(order_highest_first(&vec![5]), vec![0]);
    assert_eq!(order_highest_first(&vec![1, 2, 3]), vec![2, 1, 0]);
    assert_eq!(order_highest_first(&vec![3, 2, 1]), vec![0, 1, 2]);
    // Among equal keys the later place comes first.
    assert_eq!(order_highest_first(&vec![7, 7, 7]), vec![2, 1, 0]);
    assert_eq!(order_highest_first(&vec![2, 9, 2, 9, 1]), vec![3, 1, 2, 0, 4]);
    assert_eq!(order_highest_first(&vec![i128::MIN, i128::MAX, 0]), vec![1, 2, 0]);
}
