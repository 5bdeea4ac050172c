use crate::archive::Archive;
use crate::format::Format;
use crate::order::{all_orderable, lemma_size_sort_meaning, sort_archives, sorted_by, stably_sorted, SortKey};
use vstd::seq_lib::lemma_multiset_commutative;
use crate::status::{has_nan_ratio, status_order, Status};
use std::cmp::Ordering;
use std::path::PathBuf;
use vstd::prelude::*;

verus! {

/// What the user or a finished task tells the converter.
#[derive(Debug, Clone)]
pub enum Message {
    UpdateFormat(Format),
    UpdateRecursion(bool),
    PickFiles,
    PickFolder,
    SelectArchives(Vec<Archive>),
    RemoveAll,
    RemoveArchive(usize),
    Convert,
    SelectSaveFolder(Option<PathBuf>),
    Completed,
    UpdateArchiveStatus(usize, Status),
    Error(String),
}

/// A batch of conversions to run.
#[derive(Debug)]
pub struct Job {
    pub folder: PathBuf,
    pub format: Format,
    pub archives: Vec<Archive>,
}

/// The outside work that handling a message asks for.
#[derive(Debug)]
pub enum Action {
    Nothing,
    /// Let the user pick archive files.
    PickFiles,
    /// Let the user pick a folder to search for archives, into its
    /// subfolders when the flag is set.
    PickFolder(bool),
    /// Let the user pick the folder that receives the converted archives.
    PickSaveFolder,
    /// Convert each archive of the job into the folder.
    Convert(Job),
    /// Report an error.
    Report(String),
}

/// The converter's state.
pub struct App {
    format: Format,
    archives: Vec<Archive>,
    loading: bool,
    recursion: bool,
}

/// The model of the converter's state.
pub struct AppState {
    /// The format archives are converted to.
    pub format: Format,
    /// The archives listed for conversion, in listing order.
    pub archives: Seq<Archive>,
    /// A batch of conversions is running.
    pub loading: bool,
    /// Picking a folder also searches its subfolders.
    pub recursion: bool,
}

impl View for App {
    type V = AppState;

    closed spec fn view(&self) -> AppState {
        AppState {
            format: self.format,
            archives: self.archives@,
            loading: self.loading,
            recursion: self.recursion,
        }
    }
}

impl AppState {
    /// The message can be handled in this state: an index it names is that
    /// of a listed archive.
    pub open spec fn accepts(self, message: Message) -> bool {
        match message {
            Message::RemoveArchive(i) => i < self.archives.len(),
            Message::UpdateArchiveStatus(i, _) => i < self.archives.len(),
            _ => true,
        }
    }

    /// `post` is the state after handling `message` in state `self`.
    pub open spec fn steps_to(self, message: Message, post: AppState) -> bool {
        match message {
            Message::UpdateFormat(format) => post == AppState { format, ..self },
            Message::UpdateRecursion(recursion) => post == AppState { recursion, ..self },
            Message::SelectArchives(found) => {
                &&& post == AppState { archives: post.archives, ..self }
                &&& stably_sorted(SortKey::Status, post.archives, self.archives + found@)
            },
            Message::RemoveArchive(i) => {
                &&& post == AppState { archives: post.archives, ..self }
                &&& stably_sorted(SortKey::Size, post.archives, self.archives.remove(i as int))
            },
            Message::RemoveAll => post == AppState { archives: Seq::empty(), ..self },
            Message::SelectSaveFolder(Some(_)) => post == AppState { loading: true, ..self },
            Message::Completed => post == AppState { loading: false, ..self },
            Message::UpdateArchiveStatus(i, status) => post == AppState {
                archives: self.archives.update(
                    i as int,
                    Archive { status, ..self.archives[i as int] },
                ),
                ..self
            },
            _ => post == self,
        }
    }

    /// `action` is the outside work asked for when handling `message` in
    /// state `self`.
    pub open spec fn asks_for(self, message: Message, action: Action) -> bool {
        match message {
            Message::PickFiles => action == Action::PickFiles,
            Message::PickFolder => action == Action::PickFolder(self.recursion),
            Message::Convert => action == Action::PickSaveFolder,
            Message::SelectSaveFolder(Some(folder)) => {
                &&& action matches Action::Convert(job)
                &&& job.folder == folder
                &&& job.format == self.format
                &&& job.archives@ == self.archives
            },
            Message::Error(text) => action == Action::Report(text),
            _ => action == Action::Nothing,
        }
    }
}

impl Default for App {
    fn default() -> (r: App)
        ensures
            r@ == (AppState {
                format: Format::Zip,
                archives: Seq::empty(),
                loading: false,
                recursion: true,
            }),
    {
        App { format: Format::Zip, archives: Vec::new(), loading: false, recursion: true }
    }
}

impl App {
    /// The converter's state at start.
    pub fn new() -> (r: App)
        ensures
            r@ == (AppState {
                format: Format::Zip,
                archives: Seq::empty(),
                loading: false,
                recursion: true,
            }),
    {
        App::default()
    }

    /// The format archives are converted to.
    pub fn format(&self) -> (r: Format)
        ensures
            r == self@.format,
    {
        self.format
    }

    /// The archives listed for conversion.
    pub fn archives(&self) -> (r: &Vec<Archive>)
        ensures
            r@ == self@.archives,
    {
        &self.archives
    }

    /// Whether a batch of conversions is running.
    pub fn loading(&self) -> (r: bool)
        ensures
            r == self@.loading,
    {
        self.loading
    }

    /// Whether picking a folder also searches its subfolders.
    pub fn recursion(&self) -> (r: bool)
        ensures
            r == self@.recursion,
    {
        self.recursion
    }

    /// Handles a message: updates the state and says what outside work to do.
    pub fn update(&mut self, message: Message) -> (action: Action)
        requires
            old(self)@.accepts(message),
        ensures
            old(self)@.steps_to(message, final(self)@),
            old(self)@.asks_for(message, action),
    {
        match message {
            Message::UpdateFormat(format) => {
                self.format = format;
                Action::Nothing
            },
            Message::UpdateRecursion(recursion) => {
                self.recursion = recursion;
                Action::Nothing
            },
            Message::PickFiles => Action::PickFiles,
            Message::PickFolder => Action::PickFolder(self.recursion),
            Message::SelectArchives(found) => {
                let mut found = found;
                self.archives.append(&mut found);
                sort_archives(&mut self.archives, SortKey::Status);
                Action::Nothing
            },
            Message::RemoveArchive(index) => {
                self.archives.remove(index);
                sort_archives(&mut self.archives, SortKey::Size);
                Action::Nothing
            },
            Message::RemoveAll => {
                self.archives.clear();
                Action::Nothing
            },
            Message::Convert => Action::PickSaveFolder,
            Message::SelectSaveFolder(folder) => match folder {
                Some(folder) => {
                    self.loading = true;
                    let archives = self.archives.clone();
                    assert(archives@ =~= self.archives@);
                    Action::Convert(Job { folder, format: self.format, archives })
                },
                None => Action::Nothing,
            },
            Message::Completed => {
                self.loading = false;
                Action::Nothing
            },
            Message::UpdateArchiveStatus(index, status) => {
                self.archives[index].status = status;
                Action::Nothing
            },
            Message::Error(text) => Action::Report(text),
        }
    }
}


/// Selecting archives keeps every archive listed before and adds every one
/// selected, each as often as it was there.
pub proof fn lemma_select_keeps_all(pre: AppState, found: Vec<Archive>, post: AppState)
    requires
        pre.steps_to(Message::SelectArchives(found), post),
    ensures
        post.archives.to_multiset() == pre.archives.to_multiset().add(found@.to_multiset()),
        post.archives.len() == pre.archives.len() + found@.len(),
{
    lemma_multiset_commutative(pre.archives, found@);
    post.archives.to_multiset_ensures();
    (pre.archives + found@).to_multiset_ensures();
}

/// After a selection whose statuses all have a ratio that is not NaN, the
/// list runs in status order.
pub proof fn lemma_select_sorts_by_status(pre: AppState, found: Vec<Archive>, post: AppState)
    requires
        pre.steps_to(Message::SelectArchives(found), post),
        all_orderable(SortKey::Status, pre.archives + found@),
    ensures
        sorted_by(SortKey::Status, post.archives),
{
}

/// Removing an archive takes exactly that archive off the list; the list
/// then runs by size.
pub proof fn lemma_remove_takes_one(pre: AppState, i: usize, post: AppState)
    requires
        pre.accepts(Message::RemoveArchive(i)),
        pre.steps_to(Message::RemoveArchive(i), post),
    ensures
        post.archives.to_multiset() == pre.archives.to_multiset().remove(pre.archives[i as int]),
        post.archives.len() == pre.archives.len() - 1,
        sorted_by(SortKey::Size, post.archives),
{
    pre.archives.to_multiset_ensures();
    post.archives.to_multiset_ensures();
    pre.archives.remove(i as int).to_multiset_ensures();
}

/// A status update changes the status of the named archive and nothing else.
pub proof fn lemma_status_update_keeps_files(
    pre: AppState,
    i: usize,
    status: Status,
    post: AppState,
)
    requires
        pre.accepts(Message::UpdateArchiveStatus(i, status)),
        pre.steps_to(Message::UpdateArchiveStatus(i, status), post),
    ensures
        post.archives.len() == pre.archives.len(),
        post.archives[i as int].status == status,
        forall|k: int|
            0 <= k < pre.archives.len() ==> {
                &&& (#[trigger] post.archives[k]).path == pre.archives[k].path
                &&& post.archives[k].format == pre.archives[k].format
                &&& post.archives[k].size == pre.archives[k].size
            },
        forall|k: int|
            0 <= k < pre.archives.len() && k != i ==> #[trigger] post.archives[k]
                == pre.archives[k],
        post.format == pre.format,
        post.loading == pre.loading,
        post.recursion == pre.recursion,
{
}

/// Each setting changes only through its own message: the format through
/// `UpdateFormat`, the recursion flag through `UpdateRecursion`, and the
/// loading flag is set when a batch starts and cleared when it completes.
pub proof fn lemma_settings_change_by_own_message(pre: AppState, message: Message, post: AppState)
    requires
        pre.steps_to(message, post),
    ensures
        post.format != pre.format ==> message is UpdateFormat,
        post.recursion != pre.recursion ==> message is UpdateRecursion,
        post.loading != pre.loading ==> (post.loading && message matches Message::SelectSaveFolder(
            Some(_),
        )) || (!post.loading && message is Completed),
        post.archives != pre.archives ==> message is SelectArchives || message is RemoveArchive
            || message is RemoveAll || message is UpdateArchiveStatus,
{
}

/// Messages that only ask for outside work leave the state as it is.
pub proof fn lemma_requests_keep_state(pre: AppState, message: Message, post: AppState)
    requires
        message is PickFiles || message is PickFolder || message is Convert || message is Error
            || message == Message::SelectSaveFolder(None),
        pre.steps_to(message, post),
    ensures
        post == pre,
{
}

/// A batch starts only when a save folder was picked; it converts every
/// listed archive to the chosen format, and the state is loading until the
/// batch reports completion.
pub proof fn lemma_batch_converts_listing(
    pre: AppState,
    folder: PathBuf,
    post: AppState,
    action: Action,
    done: AppState,
)
    requires
        pre.steps_to(Message::SelectSaveFolder(Some(folder)), post),
        pre.asks_for(Message::SelectSaveFolder(Some(folder)), action),
        post.steps_to(Message::Completed, done),
    ensures
        post.loading,
        action matches Action::Convert(job) && job.archives@ == pre.archives && job.format
            == pre.format && job.folder == folder,
        !done.loading,
        done.archives == pre.archives,
{
}


/// Choosing a target format sets the format to exactly the one chosen, for
/// every format, and leaves the list and the flags as they are.
pub proof fn lemma_update_format_sets_format(pre: AppState, format: Format, post: AppState)
    requires
        pre.steps_to(Message::UpdateFormat(format), post),
    ensures
        post.format == format,
        post.archives == pre.archives,
        post.loading == pre.loading,
        post.recursion == pre.recursion,
{
}

/// Setting the recursion flag sets it to exactly the value given and leaves
/// everything else as it is.
pub proof fn lemma_update_recursion_sets_flag(pre: AppState, recursion: bool, post: AppState)
    requires
        pre.steps_to(Message::UpdateRecursion(recursion), post),
    ensures
        post.recursion == recursion,
        post.format == pre.format,
        post.archives == pre.archives,
        post.loading == pre.loading,
{
}

/// Clearing the list empties it and keeps the settings; a batch's
/// completion clears the loading flag; picking a save folder sets it.
pub proof fn lemma_list_and_loading_messages(
    pre: AppState,
    folder: PathBuf,
    cleared: AppState,
    completed: AppState,
    started: AppState,
)
    requires
        pre.steps_to(Message::RemoveAll, cleared),
        pre.steps_to(Message::Completed, completed),
        pre.steps_to(Message::SelectSaveFolder(Some(folder)), started),
    ensures
        cleared.archives.len() == 0,
        cleared.format == pre.format && cleared.loading == pre.loading && cleared.recursion
            == pre.recursion,
        !completed.loading,
        completed.archives == pre.archives && completed.format == pre.format,
        started.loading,
        started.archives == pre.archives && started.format == pre.format,
{
}

/// The outside work each message asks for: the file picker, the folder
/// picker searching subfolders exactly when the flag is set, the save-folder
/// picker, a report carrying the error's own text, and nothing for the
/// messages that only change the state.
pub proof fn lemma_requested_work(pre: AppState, message: Message, action: Action)
    requires
        pre.asks_for(message, action),
    ensures
        message is PickFiles ==> action is PickFiles,
        message is PickFolder ==> action == Action::PickFolder(pre.recursion),
        message is Convert ==> action is PickSaveFolder,
        message matches Message::Error(text) ==> action == Action::Report(text),
        message == Message::SelectSaveFolder(None) ==> action is Nothing,
        (message is UpdateFormat || message is UpdateRecursion || message is SelectArchives
            || message is RemoveArchive || message is RemoveAll || message is Completed
            || message is UpdateArchiveStatus) ==> action is Nothing,
{
}

/// Selecting archives into a list whose statuses all have a ratio that is
/// not NaN gives the old list followed by the selection, sorted by status:
/// no archive is listed after a later one, each archive as often as before.
pub proof fn lemma_select_meaning(pre: AppState, found: Vec<Archive>, post: AppState)
    requires
        pre.steps_to(Message::SelectArchives(found), post),
        forall|i: int|
            0 <= i < (pre.archives + found@).len() ==> !has_nan_ratio(
                #[trigger] (pre.archives + found@)[i].status,
            ),
    ensures
        post.archives.to_multiset() == (pre.archives + found@).to_multiset(),
        forall|i: int, j: int|
            0 <= i < j < post.archives.len() ==> status_order(
                (#[trigger] post.archives[i]).status,
                (#[trigger] post.archives[j]).status,
            ) != Ordering::Greater,
{
}

/// Removing an archive leaves the other archives sorted by non-decreasing
/// size.
pub proof fn lemma_remove_sorts_by_size(pre: AppState, i: usize, post: AppState)
    requires
        pre.accepts(Message::RemoveArchive(i)),
        pre.steps_to(Message::RemoveArchive(i), post),
    ensures
        post.archives.to_multiset() == pre.archives.remove(i as int).to_multiset(),
        forall|a: int, b: int|
            0 <= a < b < post.archives.len() ==> (#[trigger] post.archives[a]).size <= (
            #[trigger] post.archives[b]).size,
{
    lemma_size_sort_meaning(post.archives, pre.archives.remove(i as int), 0);
}

} // verus!

