use zfirot::board::ClassifiedBoard;
use zfirot::error::AppError;
use zfirot::navigation::{
    advance, board_loading, needs_revalidation, poll_reloads, refreshing, token_screen_error, Nav, Outcome,
    Resolving, Screen, Step,
};
use zfirot::projects::ProjectsRefresh;
use zfirot::repo::{Project, RepoRef};

fn empty_board() -> ClassifiedBoard {
    ClassifiedBoard { slices: vec![], prds: vec![], other: vec![], agents: vec![] }
}

fn repo() -> RepoRef {
    RepoRef::new("funkode-io", "zfirot")
}

#[test]
fn missing_token_asks_for_one_without_a_reason() {
    let step = advance(Resolving::Token(Nav::Auto), Outcome::Token(Err(AppError::unauthorized("no token"))));
    assert!(matches!(step, Step::Show(Screen::NeedToken { reason: None })));
}

#[test]
fn unreadable_token_store_is_a_transient_error() {
    let step = advance(Resolving::Token(Nav::Auto), Outcome::Token(Err(AppError::unavailable("keychain locked"))));
    match step {
        Step::Show(Screen::Error(message)) => assert_eq!(message, "keychain locked"),
        _ => panic!("expected an error screen"),
    }
}

#[test]
fn navigation_decides_what_loads_after_the_token() {
    assert!(matches!(
        advance(Resolving::Token(Nav::Home), Outcome::Token(Ok(()))),
        Step::Await(Resolving::CachedProjects)
    ));
    assert!(matches!(
        advance(Resolving::Token(Nav::Auto), Outcome::Token(Ok(()))),
        Step::Await(Resolving::LastOpened)
    ));
    match advance(Resolving::Token(Nav::Project(repo())), Outcome::Token(Ok(()))) {
        Step::Await(Resolving::Client(r)) => assert_eq!(r.full_name(), "funkode-io/zfirot"),
        _ => panic!("expected the client for the chosen project"),
    }
}

#[test]
fn auto_reopens_the_last_project_or_falls_back_to_home() {
    match advance(Resolving::LastOpened, Outcome::LastOpened(Ok(Some(repo())))) {
        Step::Await(Resolving::Client(r)) => assert_eq!(r.name, "zfirot"),
        _ => panic!("expected the last-opened project"),
    }
    assert!(matches!(
        advance(Resolving::LastOpened, Outcome::LastOpened(Ok(None))),
        Step::Await(Resolving::CachedProjects)
    ));
}

#[test]
fn warm_cache_paints_instantly_and_cold_cache_fetches_live() {
    let projects = vec![Project::new(repo(), "2025-01-01T00:00:00Z")];
    match advance(Resolving::CachedProjects, Outcome::CachedProjects(Ok(Some(projects)))) {
        Step::Show(Screen::Home { projects, from_cache }) => {
            assert!(from_cache);
            assert_eq!(projects.len(), 1);
        }
        _ => panic!("expected the cached home screen"),
    }
    assert!(matches!(
        advance(Resolving::CachedProjects, Outcome::CachedProjects(Ok(None))),
        Step::Await(Resolving::LiveProjects)
    ));
    assert!(matches!(
        advance(Resolving::CachedProjects, Outcome::CachedProjects(Err(AppError::internal("corrupt")))),
        Step::Await(Resolving::LiveProjects)
    ));
}

#[test]
fn live_fetch_outcomes() {
    let projects = vec![Project::new(repo(), "")];
    match advance(Resolving::LiveProjects, Outcome::LiveProjects(Ok(ProjectsRefresh::Changed(projects)))) {
        Step::Show(Screen::Home { from_cache, .. }) => assert!(!from_cache),
        _ => panic!("expected the live home screen"),
    }
    assert!(matches!(
        advance(Resolving::LiveProjects, Outcome::LiveProjects(Ok(ProjectsRefresh::Unchanged))),
        Step::Await(Resolving::CacheAfterRefresh)
    ));
    match advance(Resolving::CacheAfterRefresh, Outcome::CachedProjects(Ok(None))) {
        Step::Show(Screen::Error(message)) => {
            assert_eq!(message, "The cached projects vanished during refresh.")
        }
        _ => panic!("expected the vanished-cache error"),
    }
}

#[test]
fn rejected_token_is_forgotten_with_its_reason() {
    let step = advance(
        Resolving::Board(repo()),
        Outcome::Board(Err(AppError::forbidden("token lacks repo scope")), "12:00:00".to_string()),
    );
    match step {
        Step::ForgetTokenAndShow(Screen::NeedToken { reason: Some(reason) }) => {
            assert_eq!(reason, "token lacks repo scope")
        }
        _ => panic!("expected the token to be discarded"),
    }
    let step = advance(Resolving::LiveProjects, Outcome::LiveProjects(Err(AppError::unauthorized("revoked"))));
    assert!(matches!(step, Step::ForgetTokenAndShow(Screen::NeedToken { reason: Some(_) })));
}

#[test]
fn transient_board_failures_keep_the_token() {
    let step = advance(
        Resolving::Board(repo()),
        Outcome::Board(Err(AppError::rate_limited("slow down")), "12:00:00".to_string()),
    );
    match step {
        Step::Show(Screen::Error(message)) => assert_eq!(message, "slow down"),
        _ => panic!("expected a transient error"),
    }
    let step = advance(Resolving::Client(repo()), Outcome::Client(Err(AppError::internal("tls"))));
    match step {
        Step::Show(Screen::Error(message)) => assert_eq!(message, "Internal error"),
        _ => panic!("expected a masked internal error"),
    }
}

#[test]
fn loaded_board_is_shown_with_its_time() {
    assert!(matches!(
        advance(Resolving::Client(repo()), Outcome::Client(Ok(()))),
        Step::Await(Resolving::Board(_))
    ));
    match advance(Resolving::Board(repo()), Outcome::Board(Ok(empty_board()), "09:30:00".to_string())) {
        Step::Show(Screen::Board { repo, loaded_at, .. }) => {
            assert_eq!(repo.full_name(), "funkode-io/zfirot");
            assert_eq!(loaded_at, "09:30:00");
        }
        _ => panic!("expected the board"),
    }
}

#[test]
fn only_a_cached_home_paint_is_revalidated_once() {
    let cached = Screen::Home { projects: vec![], from_cache: true };
    let live = Screen::Home { projects: vec![], from_cache: false };
    assert!(needs_revalidation(&cached, false));
    assert!(!needs_revalidation(&cached, true));
    assert!(!needs_revalidation(&live, false));
    assert!(!needs_revalidation(&Screen::Error("x".to_string()), false));
}

fn board_screen(owner: &str, name: &str) -> Screen {
    Screen::Board { repo: RepoRef::new(owner, name), board: empty_board(), loaded_at: "10:00:00".to_string() }
}

#[test]
fn the_spinner_shows_only_when_opening_a_board_not_on_screen() {
    let target = Nav::Project(repo());
    let same = board_screen("funkode-io", "zfirot");
    let other = board_screen("funkode-io", "replay");
    assert!(board_loading(true, &target, None));
    assert!(board_loading(true, &target, Some(&other)));
    assert!(!board_loading(true, &target, Some(&same)));
    assert!(!board_loading(false, &target, None));
    assert!(!board_loading(true, &Nav::Home, None));
    assert!(refreshing(true, &target, Some(&same)));
    assert!(!refreshing(true, &target, Some(&other)));
    assert!(!refreshing(false, &target, Some(&same)));
    assert!(refreshing(true, &Nav::Auto, Some(&same)));
}

#[test]
fn a_fresh_submit_error_outranks_the_rejection_reason() {
    assert_eq!(token_screen_error(Some("bad paste".to_string()), Some("revoked".to_string())), Some("bad paste".to_string()));
    assert_eq!(token_screen_error(None, Some("revoked".to_string())), Some("revoked".to_string()));
    assert_eq!(token_screen_error(None, None), None);
}

#[test]
fn the_poll_only_reloads_a_board() {
    assert!(poll_reloads(Some(&board_screen("a", "b"))));
    assert!(!poll_reloads(Some(&Screen::Home { projects: vec![], from_cache: false })));
    assert!(!poll_reloads(Some(&Screen::NeedToken { reason: None })));
    assert!(!poll_reloads(None));
}
