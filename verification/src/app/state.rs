//! The decisions of the application's main state: where a background answer belongs, whether
//! and how to request a preview, what a navigation key does, and whether a move is allowed.
//! The caller carries them out (sending requests, reading the file system).

use crate::app::actions::ActionContext;
use crate::app::keymap::NavAction;
use crate::app::nav::{clip_view, clip_wf, shown_paths, step_down, step_up, toggled, NavState};
use crate::app::parent::{position_of, ParentState};
use crate::app::preview::PreviewState;
use crate::app::requests::{after, RequestState};
use crate::engine::find::FindResult;
use crate::engine::fm::FileEntry;
use crate::engine::metadata::FileMetadataCache;
use crate::engine::sort::SortConfig;
use crate::engine::listing::entry_views;
use crate::utils::collections::TextSet;
use crate::utils::{
    file_name_of, join_spec, parent_of, path_file_name, path_has_prefix, path_join, path_parent, path_starts_with,
    paths_equal, same_path, text_eq,
};
use vstd::prelude::*;

verus! {

/// Which pane a loaded directory listing is for.
#[derive(Debug, Clone, Copy, PartialEq, Eq, Structural)]
pub enum LoadTarget {
    /// The current directory.
    Nav,
    /// The directory selected, shown in the preview pane.
    Preview,
    /// The parent directory, shown in the parent pane.
    Parent,
    /// An answer to a request that has been replaced since.
    Stale,
}

/// Where a listing of `path` answering request `id` belongs: to the current directory if it
/// answers its latest request and is that directory; else to the preview if it answers the
/// preview's latest request and is the selected entry of the current directory; else to the
/// parent pane if it answers that pane's latest request and is the current directory's parent.
pub open spec fn load_target(
    path: Seq<char>,
    id: u64,
    nav_id: u64,
    nav_dir: Seq<char>,
    selected_name: Option<Seq<char>>,
    preview_id: u64,
    parent_id: u64,
) -> LoadTarget {
    if id == nav_id && same_path(path, nav_dir) {
        LoadTarget::Nav
    } else if id == preview_id && selected_name is Some && (parent_of(path) matches Some(pp) && same_path(pp, nav_dir))
        && file_name_of(path) == selected_name {
        LoadTarget::Preview
    } else if id == parent_id && (parent_of(nav_dir) matches Some(pp) && same_path(pp, path)) {
        LoadTarget::Parent
    } else {
        LoadTarget::Stale
    }
}

/// The name of the selected entry.
pub open spec fn selected_name(nav: NavState) -> Option<Seq<char>> {
    match nav.selected_spec() {
        Some(e) => Some(e@.0),
        None => None,
    }
}

/// Where a listing of `path` answering request `id` belongs (see `load_target`).
pub fn directory_load_target(path: &str, id: u64, nav: &NavState, preview_id: u64, parent_id: u64) -> (r: LoadTarget)
    ensures
        r == load_target(path@, id, nav.request_view(), nav.dir(), selected_name(*nav), preview_id, parent_id),
{
    let dir = nav.current_dir();
    if id == nav.request_id() && paths_equal(path, dir) {
        return LoadTarget::Nav;
    }
    if id == preview_id {
        match nav.selected_entry() {
            Some(entry) => {
                let parent_matches = match path_parent(path) {
                    Some(pp) => paths_equal(pp.as_str(), dir),
                    None => false,
                };
                let name_matches = match path_file_name(path) {
                    Some(n) => text_eq(n.as_str(), entry.name()),
                    None => false,
                };
                if parent_matches && name_matches {
                    return LoadTarget::Preview;
                }
            },
            None => {},
        }
    }
    if id == parent_id {
        match path_parent(dir) {
            Some(pp) => {
                if paths_equal(pp.as_str(), path) {
                    return LoadTarget::Parent;
                }
            },
            None => {},
        }
    }
    LoadTarget::Stale
}

/// Takes in metadata loaded for `path` by request `id`, if it is the answer awaited: it is
/// kept for the selection when `path` is the selected entry of the current directory, and
/// the request is no longer awaited either way. Returns whether the metadata was kept.
pub fn accept_metadata<T>(state: &mut RequestState<T>, metadata: T, path: &str, id: u64, nav: &NavState) -> (r: bool)
    ensures
        final(state).id_view() == old(state).id_view(),
        final(state).requested() == old(state).requested(),
        !(old(state).pending_view() matches Some((pid, p)) && pid == id && same_path(p, path@)) ==> !r
            && final(state).pending_view() == old(state).pending_view()
            && final(state).selected_view() == old(state).selected_view(),
        (old(state).pending_view() matches Some((pid, p)) && pid == id && same_path(p, path@)) ==> {
            &&& final(state).pending_view() is None
            &&& r == (selected_name(*nav) is Some && (parent_of(path@) matches Some(pp) && same_path(pp, nav.dir()))
                && file_name_of(path@) == selected_name(*nav))
            &&& r ==> final(state).selected_view() == Some(metadata)
            &&& !r ==> final(state).selected_view() == old(state).selected_view()
        },
{
    if !state.matches_pending(id, path) {
        return false;
    }
    let mut kept = false;
    match nav.selected_entry() {
        Some(sel) => {
            let parent_matches = match path_parent(path) {
                Some(pp) => paths_equal(pp.as_str(), nav.current_dir()),
                None => false,
            };
            let name_matches = match path_file_name(path) {
                Some(n) => text_eq(n.as_str(), sel.name()),
                None => false,
            };
            if parent_matches && name_matches {
                state.set_selected(Some(metadata));
                kept = true;
            }
        },
        None => {},
    }
    state.clear_pending();
    kept
}

/// Takes in find results for `base_dir` answering request `id`, if they answer the latest
/// find request in the current directory. Returns whether they were taken.
pub fn accept_find_results(actx: &mut ActionContext, base_dir: &str, results: Vec<FindResult>, id: u64, current_dir: &str) -> (r: bool)
    ensures
        r == (same_path(base_dir@, current_dir@) && id == old(actx).find_view().request_view()),
        r ==> final(actx).find_view().results_view() == results@ && final(actx).find_view().selected_view() == 0,
        !r ==> *final(actx) == *old(actx),
        final(actx).mode_view() == old(actx).mode_view(),
        final(actx).prompt_view() == old(actx).prompt_view(),
        final(actx).cursor() == old(actx).cursor(),
        final(actx).find_view().request_view() == old(actx).find_view().request_view(),
        final(actx).find_view().deadline_view() == old(actx).find_view().deadline_view(),
        final(actx).find_view().last_query_view() == old(actx).find_view().last_query_view(),
        final(actx).buffer() == old(actx).buffer(),
        final(actx).clipboard_view() == old(actx).clipboard_view(),
        final(actx).wf() == old(actx).wf(),
{
    if paths_equal(base_dir, current_dir) && id == actx.find_request_id() {
        actx.set_find_results(results);
        true
    } else {
        false
    }
}

/// Where a background error is shown.
#[derive(Debug, Clone, Copy, PartialEq, Eq, Structural)]
pub enum ErrorTarget {
    /// In the preview pane: it answers the preview's latest request.
    Preview,
    /// As a message.
    Message,
}

/// Where an error answering request `id` (if it names one) is shown.
pub fn error_target(id: Option<u64>, preview_id: u64) -> (r: ErrorTarget)
    ensures
        r == (if id == Some(preview_id) { ErrorTarget::Preview } else { ErrorTarget::Message }),
{
    match id {
        Some(i) => if i == preview_id { ErrorTarget::Preview } else { ErrorTarget::Message },
        None => ErrorTarget::Message,
    }
}

/// What to request for the preview pane.
#[derive(Debug, PartialEq, Eq)]
pub enum PreviewPlan {
    /// Nothing is selected: the pane was emptied.
    Cleared,
    /// The preview is up to date, or requests come too fast: nothing to do.
    Skip,
    /// Load the listing of the selected directory (or symlink) at `path`, for request `id`.
    Directory { path: String, id: u64 },
    /// Load the text of the selected file at `path`, for request `id`.
    File { path: String, id: u64 },
}

/// Decides the preview request for the selected entry. With nothing selected the pane is
/// emptied. Unless `force`d, nothing is requested when the pane already shows the entry's
/// path with content, or when `can_trigger` (the request throttle) says no. Otherwise a new
/// request is started for the entry's path: a directory listing for a directory or symlink,
/// the file's text otherwise.
pub fn plan_preview(preview: &mut PreviewState, nav: &NavState, force: bool, can_trigger: bool) -> (r: PreviewPlan)
    requires
        nav.wf(),
    ensures
        nav.selected_spec() is None ==> r == PreviewPlan::Cleared && final(preview).path_view() is None
            && final(preview).data_view() == crate::app::preview::PreviewView::Empty && final(preview).selected_view() == 0
            && !final(preview).pending_view() && final(preview).request_view() == old(preview).request_view(),
        nav.selected_spec() matches Some(e) ==> {
            let path = join_spec(nav.dir(), e@.0);
            let up_to_date = old(preview).path_view() matches Some(cp) && same_path(cp, path)
                && !crate::app::preview::preview_is_empty(old(preview).data_view());
            if !force && (up_to_date || !can_trigger) {
                r == PreviewPlan::Skip && *final(preview) == *old(preview)
            } else {
                &&& final(preview).request_view() == crate::app::requests::after(old(preview).request_view())
                &&& final(preview).path_view() == Some(path)
                &&& (r matches PreviewPlan::Directory { path: p, id } ==> p@ == path && id == final(preview).request_view())
                &&& (r matches PreviewPlan::File { path: p, id } ==> p@ == path && id == final(preview).request_view())
                &&& (r is Directory) == ((e@.2 & 1u8) != 0u8 || (e@.2 & 8u8) != 0u8)
                &&& (r is Directory || r is File)
            }
        },
{
    let entry = match nav.selected_entry() {
        Some(e) => e,
        None => {
            preview.clear();
            return PreviewPlan::Cleared;
        },
    };
    let path = path_join(nav.current_dir(), entry.name());
    if !force {
        let up_to_date = match preview.current_path() {
            Some(cp) => paths_equal(cp, path.as_str()) && !preview.data().is_empty(),
            None => false,
        };
        if up_to_date || !can_trigger {
            return PreviewPlan::Skip;
        }
    }
    let is_dir = entry.is_dir() || entry.is_symlink();
    let p2 = path.clone();
    let id = preview.prepare_new_request(path);
    if is_dir {
        PreviewPlan::Directory { path: p2, id }
    } else {
        PreviewPlan::File { path: p2, id }
    }
}

/// What a navigation key asks of the caller after it has been applied here.
#[derive(Debug, Clone, Copy, PartialEq, Eq, Structural)]
pub enum NavOutcome {
    /// Nothing changed.
    Unchanged,
    /// The selection moved: refresh the preview (now or debounced) and the info overlay.
    Moved,
    /// Marks or the filter changed: refresh the preview.
    Refreshed,
    /// The action changes directory: it needs the file system (going up or into a directory).
    NeedsFileSystem,
    /// The action is not handled by this key map.
    Ignored,
}

/// Applies a navigation action to the navigation state: up and down move the selection
/// (wrapping), top and bottom select the first and the last shown entry, toggling a mark marks
/// the selection and moves down (jumping to the top at the bottom when `marker_jump` is set),
/// selecting all empties the clipboard and marks every shown entry, and the clear actions clear
/// the marks, the filter, or both and the clipboard. Going up or into a directory is left to
/// the caller.
pub fn apply_nav_action(nav: &mut NavState, actx: &mut ActionContext, action: NavAction, marker_jump: bool) -> (r: NavOutcome)
    requires
        old(nav).wf(),
        old(actx).wf(),
    ensures
        final(nav).wf(),
        final(actx).wf(),
        final(nav).dir() == old(nav).dir(),
        final(nav).entries_view() == old(nav).entries_view(),
        final(actx).buffer() == old(actx).buffer(),
        final(actx).cursor() == old(actx).cursor(),
        final(actx).mode_view() == old(actx).mode_view(),
        final(actx).find_view() == old(actx).find_view(),
        match action {
            NavAction::GoUp => {
                &&& (r == NavOutcome::Moved) == (old(nav).shown().len() > 0)
                &&& (r == NavOutcome::Unchanged) == (old(nav).shown().len() == 0)
                &&& final(nav).selected_view() == (if old(nav).shown().len() > 0 {
                    step_up(old(nav).selected_view(), old(nav).shown().len() as int)
                } else {
                    old(nav).selected_view()
                })
                &&& final(nav).markers_view() == old(nav).markers_view()
                &&& final(nav).filter_view() == old(nav).filter_view()
                &&& final(actx).clipboard_raw() == old(actx).clipboard_raw()
                &&& final(actx).cut_view() == old(actx).cut_view()
            },
            NavAction::GoDown => {
                &&& (r == NavOutcome::Moved) == (old(nav).shown().len() > 0)
                &&& (r == NavOutcome::Unchanged) == (old(nav).shown().len() == 0)
                &&& final(nav).selected_view() == (if old(nav).shown().len() > 0 {
                    step_down(old(nav).selected_view(), old(nav).shown().len() as int)
                } else {
                    old(nav).selected_view()
                })
                &&& final(nav).markers_view() == old(nav).markers_view()
                &&& final(nav).filter_view() == old(nav).filter_view()
                &&& final(actx).clipboard_raw() == old(actx).clipboard_raw()
                &&& final(actx).cut_view() == old(actx).cut_view()
            },
            NavAction::ToggleMarker => {
                &&& r == NavOutcome::Refreshed
                &&& final(nav).filter_view() == old(nav).filter_view()
                &&& final(actx).cut_view() == old(actx).cut_view()
                &&& match old(nav).selected_path() {
                    None => final(nav).markers_view() == old(nav).markers_view()
                        && final(actx).clipboard_view() == old(actx).clipboard_view(),
                    Some(p) => match old(actx).clipboard_view() {
                        Some(c) if c.contains(p) => final(actx).clipboard_view() == Some(c.remove(p))
                            && final(nav).markers_view() == old(nav).markers_view().insert(p),
                        _ => final(actx).clipboard_view() == old(actx).clipboard_view()
                            && final(nav).markers_view() == toggled(old(nav).markers_view(), p),
                    },
                }
                &&& final(nav).selected_view() == (if old(nav).shown().len() == 0 {
                    old(nav).selected_view()
                } else if old(nav).selected_view() == old(nav).shown().len() - 1 {
                    if marker_jump && old(nav).shown().len() > 1 {
                        0
                    } else {
                        old(nav).selected_view()
                    }
                } else {
                    old(nav).selected_view() + 1
                })
            },
            NavAction::ClearMarker => r == NavOutcome::Refreshed && final(nav).markers_view().len() == 0
                && final(nav).filter_view() == old(nav).filter_view()
                && final(actx).clipboard_raw() == old(actx).clipboard_raw() && final(actx).cut_view() == old(actx).cut_view(),
            NavAction::ClearFilter => r == NavOutcome::Refreshed && final(nav).filter_view().len() == 0
                && final(nav).markers_view() == old(nav).markers_view()
                && final(actx).clipboard_raw() == old(actx).clipboard_raw() && final(actx).cut_view() == old(actx).cut_view(),
            NavAction::GoToTop => r == NavOutcome::Refreshed && final(nav).selected_view() == 0
                && final(nav).markers_view() == old(nav).markers_view()
                && final(nav).filter_view() == old(nav).filter_view()
                && final(actx).clipboard_raw() == old(actx).clipboard_raw() && final(actx).cut_view() == old(actx).cut_view(),
            NavAction::GoToBottom => r == NavOutcome::Moved
                && final(nav).selected_view() == (if old(nav).shown().len() > 0 {
                    old(nav).shown().len() - 1
                } else {
                    old(nav).selected_view()
                })
                && final(nav).markers_view() == old(nav).markers_view()
                && final(nav).filter_view() == old(nav).filter_view()
                && final(actx).clipboard_raw() == old(actx).clipboard_raw() && final(actx).cut_view() == old(actx).cut_view(),
            NavAction::SelectAll => r == NavOutcome::Refreshed
                && final(nav).markers_view() == old(nav).markers_view().union(shown_paths(old(nav).dir(), old(nav).shown()))
                && final(nav).filter_view() == old(nav).filter_view()
                && final(nav).selected_view() == old(nav).selected_view()
                && final(actx).clipboard_raw() is None && !final(actx).cut_view(),
            NavAction::ClearAll => r == NavOutcome::Refreshed && final(nav).markers_view().len() == 0
                && final(nav).filter_view().len() == 0
                && final(actx).clipboard_raw() is None && !final(actx).cut_view(),
            NavAction::GoParent | NavAction::GoIntoDir => r == NavOutcome::NeedsFileSystem && *final(nav) == *old(nav)
                && final(actx).clipboard_raw() == old(actx).clipboard_raw() && final(actx).cut_view() == old(actx).cut_view(),
            _ => r == NavOutcome::Ignored && *final(nav) == *old(nav)
                && final(actx).clipboard_raw() == old(actx).clipboard_raw() && final(actx).cut_view() == old(actx).cut_view(),
        },
{
    match action {
        NavAction::GoUp => {
            if nav.move_up() { NavOutcome::Moved } else { NavOutcome::Unchanged }
        },
        NavAction::GoDown => {
            if nav.move_down() { NavOutcome::Moved } else { NavOutcome::Unchanged }
        },
        NavAction::ToggleMarker => {
            nav.toggle_marker_advance(actx.clipboard_mut(), marker_jump);
            NavOutcome::Refreshed
        },
        NavAction::ClearMarker => {
            nav.clear_markers();
            NavOutcome::Refreshed
        },
        NavAction::ClearFilter => {
            nav.clear_filters();
            NavOutcome::Refreshed
        },
        NavAction::GoToTop => {
            nav.first_selected();
            NavOutcome::Refreshed
        },
        NavAction::GoToBottom => {
            nav.last_selected();
            NavOutcome::Moved
        },
        NavAction::SelectAll => {
            actx.clear_clipboard();
            nav.select_all();
            NavOutcome::Refreshed
        },
        NavAction::ClearAll => {
            nav.clear_markers();
            nav.clear_filters();
            actx.clear_clipboard();
            NavOutcome::Refreshed
        },
        NavAction::GoParent | NavAction::GoIntoDir => NavOutcome::NeedsFileSystem,
        _ => NavOutcome::Ignored,
    }
}

} // verus!

verus! {

/// The first source (by index) that the destination lies in, if any: moving it there would
/// move a directory into itself. Sources that could not be resolved are `None` and skipped.
pub open spec fn first_conflict(dest: Seq<char>, sources: Seq<Option<Seq<char>>>, k: int) -> Option<int>
    decreases sources.len() - k,
{
    if k < 0 || k >= sources.len() {
        None
    } else if sources[k] matches Some(s) && path_has_prefix(dest, s) {
        Some(k)
    } else {
        first_conflict(dest, sources, k + 1)
    }
}

/// Why a move is refused, if it is: the first resolved source that the destination lies in
/// (index), and whether the destination is that source itself.
pub fn check_move_sources(dest: &str, sources: &[Option<String>]) -> (r: Option<(usize, bool)>)
    ensures
        match r {
            Some((i, same)) => first_conflict(dest@, sources@.map_values(|o: Option<String>| match o {
                Some(s) => Some(s@),
                None => None,
            }), 0) == Some(i as int) && i < sources@.len()
                && same == (sources@[i as int] matches Some(s) && same_path(dest@, s@)),
            None => first_conflict(dest@, sources@.map_values(|o: Option<String>| match o {
                Some(s) => Some(s@),
                None => None,
            }), 0) is None,
        },
{
    let ghost vs = sources@.map_values(|o: Option<String>| match o {
        Some(s) => Some(s@),
        None => None,
    });
    let mut k: usize = 0;
    while k < sources.len()
        invariant
            k <= sources@.len(),
            vs == sources@.map_values(|o: Option<String>| match o {
                Some(s) => Some(s@),
                None => None,
            }),
            first_conflict(dest@, vs, 0) == first_conflict(dest@, vs, k as int),
        decreases sources@.len() - k,
    {
        match &sources[k] {
            Some(s) => {
                if path_starts_with(dest, s.as_str()) {
                    let same = paths_equal(dest, s.as_str());
                    return Some((k, same));
                }
            },
            None => {},
        }
        k += 1;
    }
    None
}

/// What was done for the parent pane.
#[derive(Debug, Clone, PartialEq, Eq)]
pub enum ParentPlan {
    /// The current directory has no parent: the pane was emptied.
    Cleared,
    /// The parent's listing was at hand and is now shown.
    FromCache,
    /// The pane already shows the parent in this order.
    AlreadyShown,
    /// The parent `path` is to be loaded, answering request `id`.
    Load { path: String, id: u64 },
}

/// Brings the parent pane up to date for the current directory `current_dir` sorted by
/// `sort`: with no parent the pane is emptied; a listing of the parent at hand (`cached`:
/// its entries and sort column) is shown with the current directory selected, under a new
/// request; a pane that already shows the parent is left as it is; otherwise a new request
/// for the parent is made, for the caller to send.
pub fn plan_parent_request(
    parent: &mut ParentState,
    current_dir: &str,
    sort: SortConfig,
    cached: Option<(Vec<FileEntry>, Option<Vec<String>>)>,
) -> (r: ParentPlan)
    ensures
        parent_of(current_dir@) is None ==> r == ParentPlan::Cleared && final(parent).entries_view().len() == 0
            && final(parent).path_view() is None && final(parent).selected_view() is None
            && final(parent).sort_view() is None && final(parent).request_view() == after(old(parent).request_view()),
        parent_of(current_dir@) matches Some(pp) ==> match cached {
            Some((entries, col)) => {
                &&& r == ParentPlan::FromCache
                &&& final(parent).entries_view() == entry_views(entries@)
                &&& final(parent).selected_view() == (match position_of(entry_views(entries@), match file_name_of(current_dir@) {
                    Some(n) => n,
                    None => Seq::<char>::empty(),
                }) {
                    Some(i) => Some(i as usize),
                    None => None,
                })
                &&& final(parent).path_view() == Some(pp)
                &&& final(parent).sort_view() == Some(sort)
            },
            None => if old(parent).path_view() matches Some(p) && same_path(p, pp) && old(parent).sort_view() == Some(sort)
                && old(parent).entries_view().len() > 0 {
                r == ParentPlan::AlreadyShown && final(parent).request_view() == old(parent).request_view()
                    && final(parent).entries_view() == old(parent).entries_view()
            } else {
                &&& r matches ParentPlan::Load { path, id } && path@ == pp && id == after(old(parent).request_view())
                &&& final(parent).request_view() == after(old(parent).request_view())
                &&& final(parent).path_view() == Some(pp)
                &&& final(parent).sort_view() == Some(sort)
                &&& final(parent).entries_view() == old(parent).entries_view()
            },
        },
{
    let pp = match path_parent(current_dir) {
        None => {
            parent.clear();
            return ParentPlan::Cleared;
        },
        Some(p) => p,
    };
    match cached {
        Some((entries, col)) => {
            let current_name = match path_file_name(current_dir) {
                Some(n) => n,
                None => String::new(),
            };
            let id = parent.prepare_new_request(pp.as_str(), sort);
            parent.update_from_entries(entries, current_name.as_str(), id, pp.as_str(), sort, col);
            ParentPlan::FromCache
        },
        None => {
            if parent.is_cached(pp.as_str(), sort) {
                return ParentPlan::AlreadyShown;
            }
            let id = parent.prepare_new_request(pp.as_str(), sort);
            ParentPlan::Load { path: pp, id }
        },
    }
}

/// What to do about the metadata of the selection.
#[derive(Debug, Clone, PartialEq, Eq)]
pub enum InfoPlan {
    /// Nothing: not shown anywhere, too soon, already kept, or already awaited.
    Skip,
    /// Nothing is selected: the kept metadata was dropped.
    Cleared,
    /// The metadata of `path` is to be requested.
    Request(String),
}

/// Decides whether to request the metadata of the selected entry: only when the status line
/// or the information overlay shows it (`status_bar`, `overlay_open`) and the debounce has
/// passed (`can_request`); with nothing selected the kept metadata is dropped; metadata kept
/// for an entry of the same name, or a request awaited for the same path, is left to stand.
pub fn plan_file_info(
    metadata: &mut RequestState<FileMetadataCache>,
    status_bar: bool,
    overlay_open: bool,
    can_request: bool,
    nav: &NavState,
) -> (r: InfoPlan)
    ensures
        (!status_bar && !overlay_open) || !can_request ==> r == InfoPlan::Skip && *final(metadata) == *old(metadata),
        (status_bar || overlay_open) && can_request && selected_name(*nav) is None ==> r == InfoPlan::Cleared
            && final(metadata).selected_view() is None && final(metadata).pending_view() is None
            && final(metadata).id_view() == old(metadata).id_view(),
        ((status_bar || overlay_open) && can_request) ==> (selected_name(*nav) matches Some(name) ==> {
            &&& *final(metadata) == *old(metadata)
            &&& if (old(metadata).selected_view() matches Some(c) && c.name_view() == name)
                || (old(metadata).pending_view() matches Some((_, p)) && same_path(p, join_spec(nav.dir(), name))) {
                r == InfoPlan::Skip
            } else {
                r matches InfoPlan::Request(path) && path@ == join_spec(nav.dir(), name)
            }
        }),
{
    if !status_bar && !overlay_open {
        return InfoPlan::Skip;
    }
    if !can_request {
        return InfoPlan::Skip;
    }
    let entry = match nav.selected_entry() {
        None => {
            metadata.clear();
            return InfoPlan::Cleared;
        },
        Some(e) => e,
    };
    match metadata.selected() {
        Some(c) => {
            if text_eq(c.name(), entry.name()) {
                return InfoPlan::Skip;
            }
        },
        None => {},
    }
    let path = path_join(nav.current_dir(), entry.name());
    if metadata.is_pending_path(path.as_str()) {
        return InfoPlan::Skip;
    }
    InfoPlan::Request(path)
}

} // verus!
