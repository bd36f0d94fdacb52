//! How the image of a shortcut is found. An Internet shortcut (`.url`) shows the first
//! existing `IconFile` it names that yields an image. A Windows shortcut (`.lnk`) of a
//! Store app shows its AppsFolder entry (icon only first, then any image); otherwise
//! the shortcut is loaded and its icon location, then its target, then its item ID
//! list are tried. The resolver decides each step; the application performs it and
//! reports what happened.

use vstd::prelude::*;
use crate::app_user_model_id::{extract_app_user_model_id_from_bytes, extracted_id};
use crate::shell_image::{
    apps_folder_parsing_name, icon_file_candidates, is_internet_shortcut_path,
    resolve_url_shortcut_icon_candidates, shortcut_path_candidate, has_extension,
    INTERNET_SHORTCUT_EXTENSION, APPS_FOLDER_PARSING_NAME_PREFIX, std_utf8_lossy,
};
use crate::shell_identity::{trim_start, trim_end};
use crate::wide::from_wide_buffer;
use crate::native_drop::views_of;

verus! {

/// What the application is asked to do next.
pub enum ShortcutIconAction {
    /// Read the shortcut file; report `FileRead`.
    ReadFile,
    /// If the path exists, try all images of it; report `Image` (`Ok(None)` when the
    /// path does not exist).
    TryExistingImage(String),
    /// Try the icon-only image of a parsing name; report `Image`.
    TryIconOnlyImage(String),
    /// Try all images of a parsing name; report `Image`.
    TryImage(String),
    /// Create a Shell link object and load the shortcut into it; report `LinkLoaded`.
    LoadLink,
    /// Read the link's icon location; report `LinkBuffer`.
    ReadIconLocation,
    /// Read the link's target path; report `LinkBuffer`.
    ReadTargetPath,
    /// Read the link's item ID list; report `IdList`.
    ReadIdList,
    /// Try the icon of the item ID list just read; report `Image`.
    TryIdListIcon,
    /// The resolution is over with this outcome.
    Finish(Result<Option<String>, String>),
}

/// What the application reports after an action.
pub enum ShortcutIconEvent {
    FileRead(Result<Vec<u8>, String>),
    Image(Result<Option<String>, String>),
    LinkLoaded(Result<(), String>),
    /// The buffer a link call filled, or nothing when the call failed.
    LinkBuffer(Option<Vec<u16>>),
    /// Whether the item ID list is null, or the error reading it.
    IdList(Result<bool, String>),
}

/// Where the resolution stands.
pub enum ShortcutIconStage {
    ReadingInternetShortcut,
    ReadingLinkFile,
    /// Trying the `IconFile` candidates from `next` on.
    InternetCandidates { candidates: Vec<String>, next: usize },
    AppsFolderIconOnly { parsing_name: String },
    AppsFolderImage { parsing_name: String },
    LoadingLink,
    ReadingIconLocation,
    TryingIconLocation,
    ReadingTargetPath,
    TryingTargetPath,
    ReadingIdList,
    TryingIdListIcon,
    Finished,
}

/// The kind of event each stage waits for.
pub open spec fn expects(stage: ShortcutIconStage, event: ShortcutIconEvent) -> bool {
    match stage {
        ShortcutIconStage::ReadingInternetShortcut => event is FileRead,
        ShortcutIconStage::ReadingLinkFile => event is FileRead,
        ShortcutIconStage::InternetCandidates { .. } => event is Image,
        ShortcutIconStage::AppsFolderIconOnly { .. } => event is Image,
        ShortcutIconStage::AppsFolderImage { .. } => event is Image,
        ShortcutIconStage::LoadingLink => event is LinkLoaded,
        ShortcutIconStage::ReadingIconLocation => event is LinkBuffer,
        ShortcutIconStage::TryingIconLocation => event is Image,
        ShortcutIconStage::ReadingTargetPath => event is LinkBuffer,
        ShortcutIconStage::TryingTargetPath => event is Image,
        ShortcutIconStage::ReadingIdList => event is IdList,
        ShortcutIconStage::TryingIdListIcon => event is Image,
        ShortcutIconStage::Finished => false,
    }
}

/// An image outcome that ends the search: an image was found.
pub open spec fn found_image(outcome: Result<Option<String>, String>) -> bool {
    outcome matches Ok(Some(_))
}

/// The resolution of one shortcut's image.
pub struct ShortcutIconResolver {
    pub stage: ShortcutIconStage,
}

/// The candidate that a link buffer names, if any.
pub open spec fn buffer_candidate(buffer: Option<Vec<u16>>) -> Option<Seq<char>> {
    match buffer {
        Some(b) => {
            let t = trim_end(trim_start(from_wide_buffer(b@)));
            if t.len() > 0 {
                Some(t)
            } else {
                None
            }
        },
        None => None,
    }
}

/// `action` ends the resolution with `outcome`.
pub open spec fn finishes_with(action: ShortcutIconAction, outcome: Result<Option<String>, String>) -> bool {
    match action {
        ShortcutIconAction::Finish(o) => o == outcome,
        _ => false,
    }
}

/// `action` asks to try the images of `path` if it exists.
pub open spec fn tries_existing(action: ShortcutIconAction, path: Seq<char>) -> bool {
    match action {
        ShortcutIconAction::TryExistingImage(p) => p@ == path,
        _ => false,
    }
}

/// `action` asks to try the icon-only image of `name`.
pub open spec fn tries_icon_only(action: ShortcutIconAction, name: Seq<char>) -> bool {
    match action {
        ShortcutIconAction::TryIconOnlyImage(p) => p@ == name,
        _ => false,
    }
}

/// `action` asks to try all images of `name`.
pub open spec fn tries_image(action: ShortcutIconAction, name: Seq<char>) -> bool {
    match action {
        ShortcutIconAction::TryImage(p) => p@ == name,
        _ => false,
    }
}

/// `stage` tries the Internet shortcut candidates `names` from `next` on.
pub open spec fn at_candidates(stage: ShortcutIconStage, names: Seq<Seq<char>>, next: int) -> bool {
    match stage {
        ShortcutIconStage::InternetCandidates { candidates, next: n } => views_of(candidates@)
            == names && n == next,
        _ => false,
    }
}

/// `stage` tries the icon-only image of the AppsFolder entry `name`.
pub open spec fn at_apps_icon_only(stage: ShortcutIconStage, name: Seq<char>) -> bool {
    match stage {
        ShortcutIconStage::AppsFolderIconOnly { parsing_name } => parsing_name@ == name,
        _ => false,
    }
}

/// `stage` tries all images of the AppsFolder entry `name`.
pub open spec fn at_apps_image(stage: ShortcutIconStage, name: Seq<char>) -> bool {
    match stage {
        ShortcutIconStage::AppsFolderImage { parsing_name } => parsing_name@ == name,
        _ => false,
    }
}

/// After an image outcome: a found image finishes with it, otherwise `next` and
/// `action` continue the search.
pub open spec fn image_step(
    outcome: Result<Option<String>, String>,
    stage: ShortcutIconStage,
    action: ShortcutIconAction,
    continues: bool,
) -> bool {
    if found_image(outcome) {
        stage is Finished && finishes_with(action, outcome)
    } else {
        continues
    }
}

/// Trying candidate `next` of `names`, or finishing with nothing when none is left.
pub open spec fn candidate_step(
    names: Seq<Seq<char>>,
    next: int,
    stage: ShortcutIconStage,
    action: ShortcutIconAction,
) -> bool {
    if next >= names.len() {
        stage is Finished && finishes_with(action, Ok(None))
    } else {
        at_candidates(stage, names, next + 1) && tries_existing(action, names[next])
    }
}

/// After a link buffer: its candidate path is tried, or else the search moves on.
pub open spec fn buffer_step(
    buffer: Option<Vec<u16>>,
    stage: ShortcutIconStage,
    action: ShortcutIconAction,
    trying: ShortcutIconStage,
    moves_on: bool,
) -> bool {
    match buffer_candidate(buffer) {
        Some(c) => stage == trying && tries_existing(action, c),
        None => moves_on,
    }
}

/// One step of the resolution: from `stage`, on `event`, to `next` with `action`.
pub open spec fn transition(
    stage: ShortcutIconStage,
    event: ShortcutIconEvent,
    next: ShortcutIconStage,
    action: ShortcutIconAction,
) -> bool {
    match (stage, event) {
        (ShortcutIconStage::ReadingInternetShortcut, ShortcutIconEvent::FileRead(read)) => match read {
            Err(e) => next is Finished && finishes_with(action, Err(e)),
            Ok(bytes) => candidate_step(icon_file_candidates(std_utf8_lossy(bytes@)), 0, next, action),
        },
        (ShortcutIconStage::InternetCandidates { candidates, next: n }, ShortcutIconEvent::Image(outcome)) => {
            image_step(outcome, next, action, candidate_step(views_of(candidates@), n as int, next, action))
        },
        (ShortcutIconStage::ReadingLinkFile, ShortcutIconEvent::FileRead(read)) => match read {
            Err(e) => next is Finished && finishes_with(action, Err(e)),
            Ok(bytes) => match extracted_id(bytes@) {
                Some(id) => at_apps_icon_only(next, APPS_FOLDER_PARSING_NAME_PREFIX@ + id)
                    && tries_icon_only(action, APPS_FOLDER_PARSING_NAME_PREFIX@ + id),
                None => next is LoadingLink && action is LoadLink,
            },
        },
        (ShortcutIconStage::AppsFolderIconOnly { parsing_name }, ShortcutIconEvent::Image(outcome)) => {
            image_step(outcome, next, action, at_apps_image(next, parsing_name@) && tries_image(action, parsing_name@))
        },
        (ShortcutIconStage::AppsFolderImage { .. }, ShortcutIconEvent::Image(outcome)) => {
            image_step(outcome, next, action, next is LoadingLink && action is LoadLink)
        },
        (ShortcutIconStage::LoadingLink, ShortcutIconEvent::LinkLoaded(loaded)) => match loaded {
            Err(e) => next is Finished && finishes_with(action, Err(e)),
            Ok(()) => next is ReadingIconLocation && action is ReadIconLocation,
        },
        (ShortcutIconStage::ReadingIconLocation, ShortcutIconEvent::LinkBuffer(buffer)) => {
            buffer_step(buffer, next, action, ShortcutIconStage::TryingIconLocation,
                next is ReadingTargetPath && action is ReadTargetPath)
        },
        (ShortcutIconStage::TryingIconLocation, ShortcutIconEvent::Image(outcome)) => {
            image_step(outcome, next, action, next is ReadingTargetPath && action is ReadTargetPath)
        },
        (ShortcutIconStage::ReadingTargetPath, ShortcutIconEvent::LinkBuffer(buffer)) => {
            buffer_step(buffer, next, action, ShortcutIconStage::TryingTargetPath,
                next is ReadingIdList && action is ReadIdList)
        },
        (ShortcutIconStage::TryingTargetPath, ShortcutIconEvent::Image(outcome)) => {
            image_step(outcome, next, action, next is ReadingIdList && action is ReadIdList)
        },
        (ShortcutIconStage::ReadingIdList, ShortcutIconEvent::IdList(read)) => match read {
            Err(e) => next is Finished && finishes_with(action, Err(e)),
            Ok(is_null) => if is_null {
                next is Finished && finishes_with(action, Ok(None))
            } else {
                next is TryingIdListIcon && action is TryIdListIcon
            },
        },
        (ShortcutIconStage::TryingIdListIcon, ShortcutIconEvent::Image(outcome)) => {
            next is Finished && finishes_with(action, outcome)
        },
        _ => false,
    }
}

/// Whatever the stage, an image that an attempt yields is returned as it is, and the
/// resolution is over.
pub proof fn lemma_found_image_finishes(
    stage: ShortcutIconStage,
    image: String,
    next: ShortcutIconStage,
    action: ShortcutIconAction,
)
    requires
        expects(stage, ShortcutIconEvent::Image(Ok(Some(image)))),
        transition(stage, ShortcutIconEvent::Image(Ok(Some(image))), next, action),
    ensures
        next is Finished,
        finishes_with(action, Ok(Some(image))),
{
}

/// A step that ends the resolution leaves it finished, and a step that does not end it
/// leaves it waiting for another event.
pub proof fn lemma_finish_iff_finished(
    stage: ShortcutIconStage,
    event: ShortcutIconEvent,
    next: ShortcutIconStage,
    action: ShortcutIconAction,
)
    requires
        transition(stage, event, next, action),
    ensures
        (action is Finish) <==> (next is Finished),
{
}

/// Once a `.lnk` is past its file read, every attempt before the item ID list (the
/// AppsFolder images, the icon location, the target path) either returns the image it
/// found or moves on: no other event ends the search there, so a search that found
/// nothing always reaches the item ID list.
pub proof fn lemma_link_search_reaches_id_list(
    stage: ShortcutIconStage,
    event: ShortcutIconEvent,
    next: ShortcutIconStage,
    action: ShortcutIconAction,
)
    requires
        stage is AppsFolderIconOnly || stage is AppsFolderImage || stage is ReadingIconLocation
            || stage is TryingIconLocation || stage is ReadingTargetPath
            || stage is TryingTargetPath,
        transition(stage, event, next, action),
    ensures
        action is Finish ==> (event matches ShortcutIconEvent::Image(Ok(Some(image)))
            && action == ShortcutIconAction::Finish(Ok(Some(image)))),
        (stage is TryingTargetPath && !(event matches ShortcutIconEvent::Image(Ok(Some(_)))))
            ==> action is ReadIdList && next is ReadingIdList,
        (stage is ReadingTargetPath && event matches ShortcutIconEvent::LinkBuffer(None))
            ==> action is ReadIdList && next is ReadingIdList,
{
}

/// The item ID list ends a search with no image only when the shortcut has no item ID
/// list; a list that is there is always tried.
pub proof fn lemma_id_list_tried_unless_null(
    event: ShortcutIconEvent,
    next: ShortcutIconStage,
    action: ShortcutIconAction,
)
    requires
        transition(ShortcutIconStage::ReadingIdList, event, next, action),
    ensures
        action == ShortcutIconAction::Finish(Ok(None)) <==> event == ShortcutIconEvent::IdList(
            Ok(true),
        ),
        event == ShortcutIconEvent::IdList(Ok(false)) ==> action is TryIdListIcon,
{
}

impl ShortcutIconResolver {
    /// Starts the resolution for a shortcut path: its file is read first.
    pub fn new(path: &str) -> (r: (Self, ShortcutIconAction))
        ensures
            r.1 is ReadFile,
            has_extension(path@, INTERNET_SHORTCUT_EXTENSION@) ==> r.0.stage is ReadingInternetShortcut,
            !has_extension(path@, INTERNET_SHORTCUT_EXTENSION@) ==> r.0.stage is ReadingLinkFile,
    {
        let stage = if is_internet_shortcut_path(path) {
            ShortcutIconStage::ReadingInternetShortcut
        } else {
            ShortcutIconStage::ReadingLinkFile
        };
        (ShortcutIconResolver { stage }, ShortcutIconAction::ReadFile)
    }

    /// The next candidate of an Internet shortcut, or the end of the search.
    fn next_candidate(candidates: Vec<String>, next: usize) -> (r: (ShortcutIconStage, ShortcutIconAction))
        requires
            next <= candidates@.len(),
        ensures
            candidate_step(views_of(candidates@), next as int, r.0, r.1),
    {
        if next == candidates.len() {
            return (ShortcutIconStage::Finished, ShortcutIconAction::Finish(Ok(None)));
        }
        let candidate = candidates[next].clone();
        (
            ShortcutIconStage::InternetCandidates { candidates, next: next + 1 },
            ShortcutIconAction::TryExistingImage(candidate),
        )
    }

    /// Takes the outcome of the last action and decides the next one.
    pub fn advance(&mut self, event: ShortcutIconEvent) -> (action: ShortcutIconAction)
        requires
            expects(old(self).stage, event),
        ensures
            transition(old(self).stage, event, final(self).stage, action),
    {
        let mut stage = ShortcutIconStage::Finished;
        std::mem::swap(&mut stage, &mut self.stage);
        match (stage, event) {
            (ShortcutIconStage::ReadingInternetShortcut, ShortcutIconEvent::FileRead(read)) => match read {
                Err(e) => ShortcutIconAction::Finish(Err(e)),
                Ok(bytes) => {
                    let candidates = resolve_url_shortcut_icon_candidates(bytes.as_slice());
                    let (next_stage, action) = Self::next_candidate(candidates, 0);
                    self.stage = next_stage;
                    action
                },
            },
            (ShortcutIconStage::InternetCandidates { candidates, next }, ShortcutIconEvent::Image(outcome)) => {
                if is_found(&outcome) {
                    return ShortcutIconAction::Finish(outcome);
                }
                if next >= candidates.len() {
                    return ShortcutIconAction::Finish(Ok(None));
                }
                let (next_stage, action) = Self::next_candidate(candidates, next);
                self.stage = next_stage;
                action
            },
            (ShortcutIconStage::ReadingLinkFile, ShortcutIconEvent::FileRead(read)) => match read {
                Err(e) => ShortcutIconAction::Finish(Err(e)),
                Ok(bytes) => match extract_app_user_model_id_from_bytes(bytes.as_slice()) {
                    Some(id) => {
                        let parsing_name = apps_folder_parsing_name(id.as_str());
                        let action = ShortcutIconAction::TryIconOnlyImage(parsing_name.clone());
                        self.stage = ShortcutIconStage::AppsFolderIconOnly { parsing_name };
                        action
                    },
                    None => {
                        self.stage = ShortcutIconStage::LoadingLink;
                        ShortcutIconAction::LoadLink
                    },
                },
            },
            (ShortcutIconStage::AppsFolderIconOnly { parsing_name }, ShortcutIconEvent::Image(outcome)) => {
                if is_found(&outcome) {
                    return ShortcutIconAction::Finish(outcome);
                }
                let action = ShortcutIconAction::TryImage(parsing_name.clone());
                self.stage = ShortcutIconStage::AppsFolderImage { parsing_name };
                action
            },
            (ShortcutIconStage::AppsFolderImage { .. }, ShortcutIconEvent::Image(outcome)) => {
                if is_found(&outcome) {
                    return ShortcutIconAction::Finish(outcome);
                }
                self.stage = ShortcutIconStage::LoadingLink;
                ShortcutIconAction::LoadLink
            },
            (ShortcutIconStage::LoadingLink, ShortcutIconEvent::LinkLoaded(loaded)) => match loaded {
                Err(e) => ShortcutIconAction::Finish(Err(e)),
                Ok(()) => {
                    self.stage = ShortcutIconStage::ReadingIconLocation;
                    ShortcutIconAction::ReadIconLocation
                },
            },
            (ShortcutIconStage::ReadingIconLocation, ShortcutIconEvent::LinkBuffer(buffer)) => {
                match link_candidate(buffer) {
                    Some(candidate) => {
                        self.stage = ShortcutIconStage::TryingIconLocation;
                        ShortcutIconAction::TryExistingImage(candidate)
                    },
                    None => {
                        self.stage = ShortcutIconStage::ReadingTargetPath;
                        ShortcutIconAction::ReadTargetPath
                    },
                }
            },
            (ShortcutIconStage::TryingIconLocation, ShortcutIconEvent::Image(outcome)) => {
                if is_found(&outcome) {
                    return ShortcutIconAction::Finish(outcome);
                }
                self.stage = ShortcutIconStage::ReadingTargetPath;
                ShortcutIconAction::ReadTargetPath
            },
            (ShortcutIconStage::ReadingTargetPath, ShortcutIconEvent::LinkBuffer(buffer)) => {
                match link_candidate(buffer) {
                    Some(candidate) => {
                        self.stage = ShortcutIconStage::TryingTargetPath;
                        ShortcutIconAction::TryExistingImage(candidate)
                    },
                    None => {
                        self.stage = ShortcutIconStage::ReadingIdList;
                        ShortcutIconAction::ReadIdList
                    },
                }
            },
            (ShortcutIconStage::TryingTargetPath, ShortcutIconEvent::Image(outcome)) => {
                if is_found(&outcome) {
                    return ShortcutIconAction::Finish(outcome);
                }
                self.stage = ShortcutIconStage::ReadingIdList;
                ShortcutIconAction::ReadIdList
            },
            (ShortcutIconStage::ReadingIdList, ShortcutIconEvent::IdList(read)) => match read {
                Err(e) => ShortcutIconAction::Finish(Err(e)),
                Ok(is_null) => {
                    if is_null {
                        ShortcutIconAction::Finish(Ok(None))
                    } else {
                        self.stage = ShortcutIconStage::TryingIdListIcon;
                        ShortcutIconAction::TryIdListIcon
                    }
                },
            },
            (ShortcutIconStage::TryingIdListIcon, ShortcutIconEvent::Image(outcome)) => {
                ShortcutIconAction::Finish(outcome)
            },
            (_, _) => {
                assert(false);
                ShortcutIconAction::Finish(Ok(None))
            },
        }
    }
}

/// Whether an image outcome holds an image.
fn is_found(outcome: &Result<Option<String>, String>) -> (r: bool)
    ensures
        r == found_image(*outcome),
{
    match outcome {
        Ok(Some(_)) => true,
        _ => false,
    }
}

/// The path a link buffer names, trimmed; nothing when the call failed or the path is
/// blank.
fn link_candidate(buffer: Option<Vec<u16>>) -> (r: Option<String>)
    ensures
        r is Some == buffer_candidate(buffer) is Some,
        r matches Some(c) ==> buffer_candidate(buffer) == Some(c@),
{
    match buffer {
        Some(b) => shortcut_path_candidate(b.as_slice()),
        None => None,
    }
}

} // verus!
