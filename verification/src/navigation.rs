//! Deciding what the root screen shows.
//!
//! Resolving the screen alternates outside work (reading the stored token, the
//! last-opened project, the recent-projects cache, GitHub) with decisions. The
//! decisions live here as a state machine: the shell performs what a
//! [`Resolving`] phase names, reports the [`Outcome`], and [`advance`] says what
//! to do next. A missing token routes to the paste-token screen; a token that
//! GitHub rejects is discarded and the user is asked again, with the reason.

use vstd::prelude::*;
use crate::board::ClassifiedBoard;
use crate::error::{display_text, AppError, AppErrorKind, AppErrorView};
use crate::projects::ProjectsRefresh;
use crate::projects::{repo_facts, same_repo};
use crate::repo::{Project, RepoRef};
use crate::view::is_auth_failure;

verus! {

/// Where the user wants to be, independent of what is persisted.
pub enum Nav {
    /// Initial launch: reopen the last-opened project, else show the home screen.
    Auto,
    /// Explicitly show the home screen (the recent-projects picker).
    Home,
    /// Show the board for a project the user just chose.
    Project(RepoRef),
}

/// What the root renders once the stored token has been resolved.
pub enum Screen {
    /// A token is stored but no project is open: pick from recent projects.
    /// `from_cache` is `true` only for an instant cached paint that still needs
    /// revalidating.
    Home { projects: Vec<Project>, from_cache: bool },
    /// The board for `repo` loaded and was classified; `loaded_at` is the
    /// wall-clock time of the snapshot.
    Board { repo: RepoRef, board: ClassifiedBoard, loaded_at: String },
    /// Show the paste-token screen; `reason` says why a stored token was
    /// rejected, and is `None` when no token was ever saved.
    NeedToken { reason: Option<String> },
    /// Loading failed for a reason other than the token: a transient error.
    Error(String),
}

/// The outside work the resolution is waiting for.
pub enum Resolving {
    /// The stored token, for the requested navigation.
    Token(Nav),
    /// The last-opened project.
    LastOpened,
    /// The cached recent-projects list.
    CachedProjects,
    /// A live fetch of the recent projects, which also seeds the cache.
    LiveProjects,
    /// The cache, read back after a live fetch found it up to date.
    CacheAfterRefresh,
    /// A GitHub client for the repository, built from the token.
    Client(RepoRef),
    /// The classified board of the repository.
    Board(RepoRef),
}

/// What the shell does next.
pub enum Step {
    /// Perform the outside work the phase names and report its outcome.
    Await(Resolving),
    /// Render the screen; resolution is over.
    Show(Screen),
    /// Discard the stored token (best effort), then render the screen.
    ForgetTokenAndShow(Screen),
}

/// What the outside work reported.
pub enum Outcome {
    /// Whether a token is stored (`Err` when it is missing or unreadable).
    Token(Result<(), AppError>),
    /// The last-opened project, if any.
    LastOpened(Result<Option<RepoRef>, AppError>),
    /// The cached recent projects, if a cache exists.
    CachedProjects(Result<Option<Vec<Project>>, AppError>),
    /// The live recent projects compared with the cache.
    LiveProjects(Result<ProjectsRefresh, AppError>),
    /// Whether a GitHub client could be built.
    Client(Result<(), AppError>),
    /// The classified board and the time it was loaded.
    Board(Result<ClassifiedBoard, AppError>, String),
}

/// Whether an error means the token itself is the problem.
pub open spec fn rejects_token(e: AppErrorView) -> bool {
    e.kind == AppErrorKind::Unauthorized || e.kind == AppErrorKind::Forbidden
}

/// Whether `outcome` reports the work that `phase` asked for.
pub open spec fn answers(phase: Resolving, outcome: Outcome) -> bool {
    match phase {
        Resolving::Token(_) => outcome is Token,
        Resolving::LastOpened => outcome is LastOpened,
        Resolving::CachedProjects => outcome is CachedProjects,
        Resolving::LiveProjects => outcome is LiveProjects,
        Resolving::CacheAfterRefresh => outcome is CachedProjects,
        Resolving::Client(_) => outcome is Client,
        Resolving::Board(_) => outcome is Board,
    }
}

/// `s` shows a transient error carrying the client-safe text of `e`.
pub open spec fn shows_error(s: Step, e: AppErrorView) -> bool {
    s matches Step::Show(Screen::Error(m)) && m@ == display_text(e)
}

/// `s` discards the token and asks for a new one, giving the text of `e`.
pub open spec fn forgets_token(s: Step, e: AppErrorView) -> bool {
    s matches Step::ForgetTokenAndShow(Screen::NeedToken { reason: Some(r) }) && r@ == display_text(e)
}

/// The text shown when the cache disappeared between a refresh and its re-read.
pub open spec fn vanished_text() -> Seq<char> {
    "The cached projects vanished during refresh."@
}

/// The step that follows `outcome` in `phase`.
pub open spec fn follows(phase: Resolving, outcome: Outcome, s: Step) -> bool {
    match phase {
        Resolving::Token(nav) => match outcome {
            Outcome::Token(Err(e)) => if e@.kind == AppErrorKind::Unauthorized {
                s == Step::Show(Screen::NeedToken { reason: None })
            } else {
                shows_error(s, e@)
            },
            _ => match nav {
                Nav::Home => s == Step::Await(Resolving::CachedProjects),
                Nav::Project(repo) => s == Step::Await(Resolving::Client(repo)),
                Nav::Auto => s == Step::Await(Resolving::LastOpened),
            },
        },
        Resolving::LastOpened => match outcome {
            Outcome::LastOpened(Ok(Some(repo))) => s == Step::Await(Resolving::Client(repo)),
            Outcome::LastOpened(Ok(None)) => s == Step::Await(Resolving::CachedProjects),
            Outcome::LastOpened(Err(e)) => shows_error(s, e@),
            _ => false,
        },
        Resolving::CachedProjects => match outcome {
            Outcome::CachedProjects(Ok(Some(projects))) => s == Step::Show(
                Screen::Home { projects, from_cache: true },
            ),
            _ => s == Step::Await(Resolving::LiveProjects),
        },
        Resolving::LiveProjects => match outcome {
            Outcome::LiveProjects(Ok(ProjectsRefresh::Changed(projects))) => s == Step::Show(
                Screen::Home { projects, from_cache: false },
            ),
            Outcome::LiveProjects(Ok(ProjectsRefresh::Unchanged)) => s == Step::Await(
                Resolving::CacheAfterRefresh,
            ),
            Outcome::LiveProjects(Err(e)) => if rejects_token(e@) {
                forgets_token(s, e@)
            } else {
                shows_error(s, e@)
            },
            _ => false,
        },
        Resolving::CacheAfterRefresh => match outcome {
            Outcome::CachedProjects(Ok(Some(projects))) => s == Step::Show(
                Screen::Home { projects, from_cache: false },
            ),
            Outcome::CachedProjects(Ok(None)) => s matches Step::Show(Screen::Error(m)) && m@
                == vanished_text(),
            Outcome::CachedProjects(Err(e)) => shows_error(s, e@),
            _ => false,
        },
        Resolving::Client(repo) => match outcome {
            Outcome::Client(Ok(())) => s == Step::Await(Resolving::Board(repo)),
            Outcome::Client(Err(e)) => shows_error(s, e@),
            _ => false,
        },
        Resolving::Board(repo) => match outcome {
            Outcome::Board(Ok(board), loaded_at) => s == Step::Show(
                Screen::Board { repo, board, loaded_at },
            ),
            Outcome::Board(Err(e), _) => if rejects_token(e@) {
                forgets_token(s, e@)
            } else {
                shows_error(s, e@)
            },
            _ => false,
        },
    }
}

/// The transient-error step for `e`.
fn error_step(e: &AppError) -> (s: Step)
    ensures
        shows_error(s, e@),
{
    Step::Show(Screen::Error(e.display_message()))
}

/// The step for a failure while loading with a token: a rejected token is
/// discarded and asked for again, anything else is a transient error.
fn failure_step(e: &AppError) -> (s: Step)
    ensures
        rejects_token(e@) ==> forgets_token(s, e@),
        !rejects_token(e@) ==> shows_error(s, e@),
{
    if is_auth_failure(e.kind()) {
        Step::ForgetTokenAndShow(Screen::NeedToken { reason: Some(e.display_message()) })
    } else {
        error_step(e)
    }
}

/// Decide what follows `outcome`, reported for the work `phase` named.
pub fn advance(phase: Resolving, outcome: Outcome) -> (s: Step)
    requires
        answers(phase, outcome),
    ensures
        follows(phase, outcome, s),
{
    match phase {
        Resolving::Token(nav) => {
            if let Outcome::Token(Err(e)) = outcome {
                if matches!(e.kind(), AppErrorKind::Unauthorized) {
                    return Step::Show(Screen::NeedToken { reason: None });
                }
                return error_step(&e);
            }
            match nav {
                Nav::Home => Step::Await(Resolving::CachedProjects),
                Nav::Project(repo) => Step::Await(Resolving::Client(repo)),
                Nav::Auto => Step::Await(Resolving::LastOpened),
            }
        },
        Resolving::LastOpened => match outcome {
            Outcome::LastOpened(Ok(Some(repo))) => Step::Await(Resolving::Client(repo)),
            Outcome::LastOpened(Ok(None)) => Step::Await(Resolving::CachedProjects),
            Outcome::LastOpened(Err(e)) => error_step(&e),
            _ => {
                proof {
                    assert(false);
                }
                Step::Await(Resolving::LastOpened)
            },
        },
        Resolving::CachedProjects => match outcome {
            Outcome::CachedProjects(Ok(Some(projects))) => Step::Show(
                Screen::Home { projects, from_cache: true },
            ),
            _ => Step::Await(Resolving::LiveProjects),
        },
        Resolving::LiveProjects => match outcome {
            Outcome::LiveProjects(Ok(ProjectsRefresh::Changed(projects))) => Step::Show(
                Screen::Home { projects, from_cache: false },
            ),
            Outcome::LiveProjects(Ok(ProjectsRefresh::Unchanged)) => Step::Await(
                Resolving::CacheAfterRefresh,
            ),
            Outcome::LiveProjects(Err(e)) => failure_step(&e),
            _ => {
                proof {
                    assert(false);
                }
                Step::Await(Resolving::LiveProjects)
            },
        },
        Resolving::CacheAfterRefresh => match outcome {
            Outcome::CachedProjects(Ok(Some(projects))) => Step::Show(
                Screen::Home { projects, from_cache: false },
            ),
            Outcome::CachedProjects(Ok(None)) => Step::Show(
                Screen::Error("The cached projects vanished during refresh.".to_string()),
            ),
            Outcome::CachedProjects(Err(e)) => error_step(&e),
            _ => {
                proof {
                    assert(false);
                }
                Step::Await(Resolving::CacheAfterRefresh)
            },
        },
        Resolving::Client(repo) => match outcome {
            Outcome::Client(Ok(())) => Step::Await(Resolving::Board(repo)),
            Outcome::Client(Err(e)) => error_step(&e),
            _ => {
                proof {
                    assert(false);
                }
                Step::Await(Resolving::Client(repo))
            },
        },
        Resolving::Board(repo) => match outcome {
            Outcome::Board(Ok(board), loaded_at) => Step::Show(
                Screen::Board { repo, board, loaded_at },
            ),
            Outcome::Board(Err(e), _) => failure_step(&e),
            _ => {
                proof {
                    assert(false);
                }
                Step::Await(Resolving::Board(repo))
            },
        },
    }
}

/// Whether the home screen still has to be revalidated against GitHub: only a
/// cached paint is, and only once per visit.
pub fn needs_revalidation(screen: &Screen, revalidated: bool) -> (r: bool)
    ensures
        r == ((*screen matches Screen::Home { from_cache, .. } && from_cache) && !revalidated),
{
    match screen {
        Screen::Home { from_cache, .. } => *from_cache && !revalidated,
        _ => false,
    }
}

/// Whether a board is being opened rather than refreshed: the screen is
/// resolving towards a project whose board is not the one on screen.
pub open spec fn opening_board(pending: bool, nav: Nav, screen: Option<Screen>) -> bool {
    pending && match nav {
        Nav::Project(target) => match screen {
            Some(Screen::Board { repo, .. }) => repo_facts(repo) != repo_facts(target),
            _ => true,
        },
        _ => false,
    }
}

/// Whether the board chrome shows the loading spinner: only while opening a
/// board that is not on screen yet (from home, or the last one on launch).
pub fn board_loading(pending: bool, nav: &Nav, screen: Option<&Screen>) -> (r: bool)
    ensures
        r == opening_board(
            pending,
            *nav,
            match screen {
                Some(s) => Some(*s),
                None => None,
            },
        ),
{
    if !pending {
        return false;
    }
    match nav {
        Nav::Project(target) => match screen {
            Some(Screen::Board { repo, .. }) => !same_repo(repo, target),
            _ => true,
        },
        _ => false,
    }
}

/// Whether a board on screen is silently re-resolving (the poll, Refresh, or
/// the re-poll after an action): it stays shown with a small indicator.
pub fn refreshing(pending: bool, nav: &Nav, screen: Option<&Screen>) -> (r: bool)
    ensures
        r == (pending && (screen matches Some(s) && *s is Board) && !opening_board(
            pending,
            *nav,
            match screen {
                Some(s) => Some(*s),
                None => None,
            },
        )),
{
    let on_board = match screen {
        Some(Screen::Board { .. }) => true,
        _ => false,
    };
    pending && on_board && !board_loading(pending, nav, screen)
}

/// The error the paste-token screen shows: a fresh submit error takes
/// precedence over the reason a stored token was rejected.
pub fn token_screen_error(fresh: Option<String>, reason: Option<String>) -> (r: Option<String>)
    ensures
        r == (if fresh is Some { fresh } else { reason }),
{
    match fresh {
        Some(e) => Some(e),
        None => reason,
    }
}

/// Whether the background poll re-resolves the screen: only while a board
/// is showing, so the home and paste-token screens are never disturbed.
pub fn poll_reloads(screen: Option<&Screen>) -> (r: bool)
    ensures
        r == (screen matches Some(s) && *s is Board),
{
    match screen {
        Some(Screen::Board { .. }) => true,
        _ => false,
    }
}

/// The phases of resolving the home screen.
pub open spec fn home_phase(phase: Resolving) -> bool {
    phase is CachedProjects || phase is LiveProjects || phase is CacheAfterRefresh
}

/// Asking for the home screen never opens a board: once the token is there,
/// every step stays among the home phases until it shows the picker, an error
/// or the paste-token screen.
pub proof fn law_home_never_opens_a_board(phase: Resolving, outcome: Outcome, s: Step)
    requires
        home_phase(phase) || phase == Resolving::Token(Nav::Home),
        answers(phase, outcome),
        follows(phase, outcome, s),
    ensures
        s matches Step::Await(next) ==> home_phase(next),
        s matches Step::Show(screen) ==> !(screen is Board),
        s matches Step::ForgetTokenAndShow(screen) ==> screen is NeedToken,
{
}

/// A token that GitHub rejects while the board or the projects load is
/// discarded, and the user is asked for a new one with the reason shown.
pub proof fn law_rejected_token_is_forgotten(phase: Resolving, outcome: Outcome, s: Step)
    requires
        phase is LiveProjects || phase is Board,
        answers(phase, outcome),
        follows(phase, outcome, s),
        outcome matches Outcome::LiveProjects(Err(e)) ==> rejects_token(e@),
        outcome matches Outcome::Board(Err(e), _) ==> rejects_token(e@),
        outcome matches Outcome::LiveProjects(r) ==> r is Err,
        outcome matches Outcome::Board(r, _) ==> r is Err,
    ensures
        s matches Step::ForgetTokenAndShow(Screen::NeedToken { reason: Some(_) }),
{
}

/// Only the screens that are outcomes of a load with a token ever discard it:
/// a missing token and failures before loading never do.
pub proof fn law_token_is_kept_before_loading(phase: Resolving, outcome: Outcome, s: Step)
    requires
        !(phase is LiveProjects || phase is Board),
        answers(phase, outcome),
        follows(phase, outcome, s),
    ensures
        !(s is ForgetTokenAndShow),
{
}

/// How many more pieces of outside work a phase can lead to, at most.
pub open spec fn phase_rank(phase: Resolving) -> nat {
    match phase {
        Resolving::Token(_) => 4,
        Resolving::LastOpened => 3,
        Resolving::CachedProjects => 2,
        Resolving::LiveProjects => 1,
        Resolving::CacheAfterRefresh => 0,
        Resolving::Client(_) => 1,
        Resolving::Board(_) => 0,
    }
}

/// Resolution always finishes: every step that awaits more work moves to a
/// phase of lower rank, so at most five pieces of outside work precede the
/// screen.
pub proof fn law_resolution_finishes(phase: Resolving, outcome: Outcome, s: Step)
    requires
        answers(phase, outcome),
        follows(phase, outcome, s),
    ensures
        s matches Step::Await(next) ==> phase_rank(next) < phase_rank(phase),
{
}

} // verus!
