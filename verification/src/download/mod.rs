//! Download planning: which bytes to fetch, from where, in what order, and
//! the bookkeeping of the files in flight.

pub mod chunk;
pub mod file_filter;
pub mod downloader;
pub mod file;
pub mod download_task;
pub mod download_impl;
pub mod progress;
pub mod repo;
pub mod file_list;

use vstd::prelude::*;
use crate::config::{Config, ConfigView};
use crate::text::{str_eq, concat_str};

verus! {

/// A file waiting for, or holding, a download slot, with its progress bar.
#[derive(Debug)]
pub struct DownloadTask {
    pub filename: String,
    pub size: u64,
    pub bar: u64,
}

impl Clone for DownloadTask {
    fn clone(&self) -> (r: Self)
        ensures
            r == *self,
    {
        DownloadTask { filename: self.filename.clone(), size: self.size, bar: self.bar }
    }
}

/// A task as plain values: file name, size, progress bar.
pub type TaskView = (Seq<char>, u64, u64);

/// The plain values of a task.
pub open spec fn task_view(t: DownloadTask) -> TaskView {
    (t.filename@, t.size, t.bar)
}

/// The bookkeeping of the files being downloaded: the progress bar of each
/// file (bars are numbered in the order they are made), the files waiting for
/// a slot in arrival order, and the files holding one. A folder download has
/// one bar for the whole folder and no per-file bars.
pub struct DownloadManager {
    file_progress: Vec<(String, u64)>,
    download_queue: Vec<DownloadTask>,
    active_downloads: Vec<DownloadTask>,
    config: Config,
    is_folder: bool,
    folder_progress: Option<u64>,
    next_bar: u64,
}

/// The bookkeeping as plain values.
pub struct DownloadManagerView {
    pub file_progress: Seq<(Seq<char>, u64)>,
    pub queue: Seq<TaskView>,
    pub active: Seq<TaskView>,
    pub is_folder: bool,
    pub folder_progress: Option<u64>,
    pub next_bar: u64,
}

/// The position of the entry for `name` in `entries`, if any.
pub open spec fn entry_index<V>(entries: Seq<(Seq<char>, V)>, name: Seq<char>) -> Option<int> {
    if exists|i: int| 0 <= i < entries.len() && (#[trigger] entries[i]).0 == name {
        Some(choose|i: int| 0 <= i < entries.len() && (#[trigger] entries[i]).0 == name)
    } else {
        None
    }
}

/// No name has two entries.
pub open spec fn distinct_names<V>(entries: Seq<(Seq<char>, V)>) -> bool {
    forall|i: int, j: int| 0 <= i < j < entries.len() ==> (#[trigger] entries[i]).0 != (
    #[trigger] entries[j]).0
}

/// The bar of `name`, if it has one.
pub open spec fn bar_of(v: DownloadManagerView, name: Seq<char>) -> Option<u64> {
    match entry_index(v.file_progress, name) {
        Some(i) => Some(v.file_progress[i].1),
        None => None,
    }
}

/// The active tasks keyed by name.
pub open spec fn active_entries(v: DownloadManagerView) -> Seq<(Seq<char>, (u64, u64))> {
    v.active.map_values(|t: TaskView| (t.0, (t.1, t.2)))
}

/// The message of a bar of a file being downloaded.
pub open spec fn downloading_message(name: Seq<char>) -> Seq<char> {
    "Downloading "@ + name
}

/// The message of a bar of a file that is done.
pub open spec fn downloaded_message(name: Seq<char>) -> Seq<char> {
    "✓ Downloaded "@ + name
}

/// The message of the bar of a folder download.
pub open spec fn folder_message(name: Seq<char>) -> Seq<char> {
    "Downloading folder "@ + name
}

/// The bar a file gets.
pub enum ProgressHandle {
    /// The bar the file already had.
    Existing(u64),
    /// The bar of the folder being downloaded.
    Folder(u64),
    /// A new bar with this number, for this many bytes, to be shown with this message.
    New { bar: u64, size: u64, message: String },
}

/// A file that takes a download slot, and the message its bar now shows.
pub struct Started {
    pub bar: u64,
    pub filename: String,
    pub message: String,
}

/// What finishing a file changes on screen.
pub struct Finished {
    /// The bar of the file, finished with this message.
    pub finished: Option<(u64, String)>,
    /// The next waiting file, now holding a slot.
    pub started: Option<Started>,
}

impl View for DownloadManager {
    type V = DownloadManagerView;

    closed spec fn view(&self) -> DownloadManagerView {
        DownloadManagerView {
            file_progress: self.file_progress@.map_values(|e: (String, u64)| (e.0@, e.1)),
            queue: self.download_queue@.map_values(|t: DownloadTask| task_view(t)),
            active: self.active_downloads@.map_values(|t: DownloadTask| task_view(t)),
            is_folder: self.is_folder,
            folder_progress: self.folder_progress,
            next_bar: self.next_bar,
        }
    }
}

/// Well-formed bookkeeping: a file has at most one bar and one slot, every
/// bar in use was made before, and a folder download has its folder bar.
pub open spec fn manager_wf(v: DownloadManagerView) -> bool {
    &&& distinct_names(v.file_progress)
    &&& distinct_names(active_entries(v))
    &&& forall|i: int| 0 <= i < v.file_progress.len() ==> (#[trigger] v.file_progress[i]).1 < v.next_bar
    &&& forall|i: int| 0 <= i < v.queue.len() ==> (#[trigger] v.queue[i]).2 < v.next_bar
    &&& forall|i: int| 0 <= i < v.active.len() ==> (#[trigger] v.active[i]).2 < v.next_bar
    &&& (v.is_folder <==> v.folder_progress is Some)
    &&& (v.folder_progress matches Some(b) ==> b < v.next_bar)
}

proof fn lemma_entry_index<V>(entries: Seq<(Seq<char>, V)>, name: Seq<char>)
    requires
        distinct_names(entries),
    ensures
        match entry_index(entries, name) {
            Some(i) => 0 <= i < entries.len() && entries[i].0 == name,
            None => forall|i: int| 0 <= i < entries.len() ==> (#[trigger] entries[i]).0 != name,
        },
        forall|i: int| 0 <= i < entries.len() && (#[trigger] entries[i]).0 == name ==> entry_index(
            entries,
            name,
        ) == Some(i),
{
}

fn find_entry(entries: &Vec<(String, u64)>, name: &str) -> (r: Option<usize>)
    ensures
        match r {
            Some(i) => i < entries@.len() && entries@[i as int].0@ == name@,
            None => forall|i: int| 0 <= i < entries@.len() ==> (#[trigger] entries@[i]).0@ != name@,
        },
{
    let mut i: usize = 0;
    while i < entries.len()
        invariant
            0 <= i <= entries@.len(),
            forall|j: int| 0 <= j < i ==> (#[trigger] entries@[j]).0@ != name@,
        decreases entries@.len() - i,
    {
        if str_eq(entries[i].0.as_str(), name) {
            return Some(i);
        }
        i += 1;
    }
    None
}

fn find_task(tasks: &Vec<DownloadTask>, name: &str) -> (r: Option<usize>)
    ensures
        match r {
            Some(i) => i < tasks@.len() && tasks@[i as int].filename@ == name@,
            None => forall|i: int| 0 <= i < tasks@.len() ==> (#[trigger] tasks@[i]).filename@ != name@,
        },
{
    let mut i: usize = 0;
    while i < tasks.len()
        invariant
            0 <= i <= tasks@.len(),
            forall|j: int| 0 <= j < i ==> (#[trigger] tasks@[j]).filename@ != name@,
        decreases tasks@.len() - i,
    {
        if str_eq(tasks[i].filename.as_str(), name) {
            return Some(i);
        }
        i += 1;
    }
    None
}


/// `entries` without the entry of `name`.
pub open spec fn without_name<V>(entries: Seq<(Seq<char>, V)>, name: Seq<char>) -> Seq<(Seq<char>, V)> {
    match entry_index(entries, name) {
        Some(i) => entries.remove(i),
        None => entries,
    }
}

/// The position of the task of `name` in `tasks`, if any.
pub open spec fn task_index(tasks: Seq<TaskView>, name: Seq<char>) -> Option<int> {
    entry_index(tasks.map_values(|t: TaskView| (t.0, (t.1, t.2))), name)
}

/// `tasks` without the task of `name`.
pub open spec fn without_task(tasks: Seq<TaskView>, name: Seq<char>) -> Seq<TaskView> {
    match task_index(tasks, name) {
        Some(i) => tasks.remove(i),
        None => tasks,
    }
}

/// `tasks` with `t` holding the slot of its name (replacing an earlier one).
pub open spec fn with_task(tasks: Seq<TaskView>, t: TaskView) -> Seq<TaskView> {
    without_task(tasks, t.0).push(t)
}

/// The folder bar of a folder download: its number, its length and its message.
pub struct FolderBar {
    pub bar: u64,
    pub size: u64,
    pub message: String,
}

proof fn lemma_remove_keeps_distinct<V>(entries: Seq<(Seq<char>, V)>, i: int)
    requires
        distinct_names(entries),
        0 <= i < entries.len(),
    ensures
        distinct_names(entries.remove(i)),
        forall|j: int| 0 <= j < entries.remove(i).len() ==> (#[trigger] entries.remove(i)[j]).0
            != entries[i].0,
{
    let r = entries.remove(i);
    assert forall|a: int, b: int| 0 <= a < b < r.len() implies (#[trigger] r[a]).0 != (
    #[trigger] r[b]).0 by {
        let a0 = if a < i { a } else { a + 1 };
        let b0 = if b < i { b } else { b + 1 };
        assert(r[a] == entries[a0]);
        assert(r[b] == entries[b0]);
    }
    assert forall|j: int| 0 <= j < r.len() implies (#[trigger] r[j]).0 != entries[i].0 by {
        let j0 = if j < i { j } else { j + 1 };
        assert(r[j] == entries[j0]);
    }
}

impl DownloadManager {
    /// The settings of the download.
    pub closed spec fn settings(&self) -> ConfigView {
        self.config@
    }

    /// Bookkeeping for a download of separate files.
    pub fn new(_total_size: u64, config: Config) -> (r: DownloadManager)
        ensures
            manager_wf(r@),
            r@.file_progress.len() == 0,
            r@.queue.len() == 0,
            r@.active.len() == 0,
            !r@.is_folder,
            r@.next_bar == 0,
            r.settings() == config@,
    {
        let r = DownloadManager {
            file_progress: Vec::new(),
            download_queue: Vec::new(),
            active_downloads: Vec::new(),
            config,
            is_folder: false,
            folder_progress: None,
            next_bar: 0,
        };
        assert(r@.file_progress =~= Seq::empty());
        assert(r@.active =~= Seq::empty());
        assert(active_entries(r@) =~= Seq::empty());
        r
    }

    /// Bookkeeping for a folder download of `total_size` bytes, with the bar of
    /// the folder (bar 0).
    pub fn new_folder(total_size: u64, folder_name: &str, config: Config) -> (r: (
        DownloadManager,
        FolderBar,
    ))
        ensures
            manager_wf(r.0@),
            r.0@.file_progress.len() == 0,
            r.0@.queue.len() == 0,
            r.0@.active.len() == 0,
            r.0@.is_folder,
            r.0@.folder_progress == Some(0u64),
            r.0@.next_bar == 1,
            r.0.settings() == config@,
            r.1.bar == 0,
            r.1.size == total_size,
            r.1.message@ == folder_message(folder_name@),
    {
        let m = DownloadManager {
            file_progress: Vec::new(),
            download_queue: Vec::new(),
            active_downloads: Vec::new(),
            config,
            is_folder: true,
            folder_progress: Some(0),
            next_bar: 1,
        };
        assert(m@.file_progress =~= Seq::empty());
        assert(m@.active =~= Seq::empty());
        assert(active_entries(m@) =~= Seq::empty());
        (m, FolderBar { bar: 0, size: total_size, message: concat_str("Downloading folder ", folder_name) })
    }

    /// The settings of the download.
    pub fn get_config(&self) -> (r: &Config)
        ensures
            r@ == self.settings(),
    {
        &self.config
    }

    /// The bar of `filename`, if it has one.
    pub fn progress_of(&self, filename: &str) -> (r: Option<u64>)
        requires
            manager_wf(self@),
        ensures
            r == bar_of(self@, filename@),
    {
        proof {
            lemma_entry_index(self@.file_progress, filename@);
        }
        match find_entry(&self.file_progress, filename) {
            Some(i) => {
                assert(self@.file_progress[i as int] == (self.file_progress@[i as int].0@, self.file_progress@[i as int].1));
                Some(self.file_progress[i].1)
            },
            None => {
                assert forall|i: int| 0 <= i < self@.file_progress.len() implies (#[trigger] self@.file_progress[i]).0 != filename@ by {
                    assert(self@.file_progress[i].0 == self.file_progress@[i].0@);
                }
                None
            },
        }
    }

    /// The bar of `filename`, which must have one.
    pub fn get_progress(&self, filename: &str) -> (r: u64)
        requires
            manager_wf(self@),
            bar_of(self@, filename@) is Some,
        ensures
            Some(r) == bar_of(self@, filename@),
    {
        self.progress_of(filename).unwrap()
    }

    /// The bar for `filename` of `size` bytes: the one it has; in a folder
    /// download the folder bar; otherwise a new bar, with the file queued for
    /// a download slot.
    pub fn create_file_progress(&mut self, filename: String, size: u64) -> (r: ProgressHandle)
        requires
            manager_wf(old(self)@),
            old(self)@.next_bar < u64::MAX,
        ensures
            manager_wf(final(self)@),
            final(self).settings() == old(self).settings(),
            match bar_of(old(self)@, filename@) {
                Some(b) => r == ProgressHandle::Existing(b) && final(self)@ == old(self)@,
                None => if old(self)@.is_folder {
                    r == ProgressHandle::Folder(old(self)@.folder_progress->Some_0) && final(self)@
                        == old(self)@
                } else {
                    &&& r matches ProgressHandle::New { bar, size: s, message } && (bar == old(
                        self,
                    )@.next_bar && s == size && message@ == downloading_message(filename@))
                    &&& final(self)@ == (DownloadManagerView {
                        file_progress: old(self)@.file_progress.push(
                            (filename@, old(self)@.next_bar),
                        ),
                        queue: old(self)@.queue.push((filename@, size, old(self)@.next_bar)),
                        next_bar: (old(self)@.next_bar + 1) as u64,
                        ..old(self)@
                    })
                },
            },
    {
        proof {
            lemma_entry_index(self@.file_progress, filename@);
        }
        if let Some(b) = self.progress_of(filename.as_str()) {
            return ProgressHandle::Existing(b);
        }
        if self.is_folder {
            if let Some(b) = self.folder_progress {
                return ProgressHandle::Folder(b);
            }
        }
        let bar = self.next_bar;
        let message = concat_str("Downloading ", filename.as_str());
        let ghost old_v = self@;
        self.download_queue.push(DownloadTask { filename: filename.clone(), size, bar });
        self.file_progress.push((filename, bar));
        self.next_bar = bar + 1;
        assert(self@.file_progress =~= old_v.file_progress.push((filename@, bar)));
        assert(self@.queue =~= old_v.queue.push((filename@, size, bar)));
        assert(active_entries(self@) == active_entries(old_v));
        ProgressHandle::New { bar, size, message }
    }

    /// Which bar counts `filename`'s bytes: the folder bar in a folder download
    /// (counting only), otherwise the file's own bar, whose message is then
    /// also set.
    pub fn update_progress(&self, filename: &str) -> (r: Option<(u64, Option<String>)>)
        requires
            manager_wf(self@),
        ensures
            self@.is_folder ==> r == Some((self@.folder_progress->Some_0, None::<String>)),
            !self@.is_folder ==> match bar_of(self@, filename@) {
                Some(b) => r matches Some((rb, Some(m))) && (rb == b && m@ == downloading_message(
                    filename@,
                )),
                None => r is None,
            },
    {
        if self.is_folder {
            return Some((self.folder_progress.unwrap(), None));
        }
        match self.progress_of(filename) {
            Some(b) => Some((b, Some(concat_str("Downloading ", filename)))),
            None => None,
        }
    }
}


impl DownloadManager {
    fn remove_active(&mut self, name: &str)
        requires
            manager_wf(old(self)@),
        ensures
            final(self)@ == (DownloadManagerView {
                active: without_task(old(self)@.active, name@),
                ..old(self)@
            }),
            forall|j: int| 0 <= j < final(self)@.active.len() ==> (#[trigger] final(self)@.active[j]).0 != name@,
            distinct_names(active_entries(final(self)@)),
            final(self).settings() == old(self).settings(),
    {
        let ghost old_v = self@;
        let ghost ents = active_entries(old_v);
        proof {
            lemma_entry_index(ents, name@);
            assert(ents =~= old_v.active.map_values(|t: TaskView| (t.0, (t.1, t.2))));
        }
        match find_task(&self.active_downloads, name) {
            Some(i) => {
                assert(ents[i as int].0 == name@);
                self.active_downloads.remove(i);
                assert(self@.active =~= old_v.active.remove(i as int));
                proof {
                    lemma_remove_keeps_distinct(ents, i as int);
                    assert(active_entries(self@) =~= ents.remove(i as int));
                    assert forall|j: int| 0 <= j < self@.active.len() implies (#[trigger] self@.active[j]).0 != name@ by {
                        assert(active_entries(self@)[j].0 == self@.active[j].0);
                    }
                }
            },
            None => {
                assert forall|j: int| 0 <= j < ents.len() implies (#[trigger] ents[j]).0 != name@ by {
                    assert(ents[j].0 == self.active_downloads@[j].filename@);
                }
            },
        }
    }

    /// Gives the first waiting file a download slot, if any file waits.
    pub fn start_next(&mut self) -> (r: Option<Started>)
        requires
            manager_wf(old(self)@),
        ensures
            manager_wf(final(self)@),
            final(self).settings() == old(self).settings(),
            old(self)@.queue.len() == 0 ==> (r is None) && final(self)@ == old(self)@,
            old(self)@.queue.len() > 0 ==> {
                let t = old(self)@.queue[0];
                &&& r matches Some(st) && (st.bar == t.2 && st.filename@ == t.0 && st.message@
                    == downloading_message(t.0))
                &&& final(self)@ == (DownloadManagerView {
                    queue: old(self)@.queue.drop_first(),
                    active: with_task(old(self)@.active, t),
                    ..old(self)@
                })
            },
    {
        if self.download_queue.len() == 0 {
            return None;
        }
        let ghost old_v = self@;
        let task = self.download_queue.remove(0);
        assert(self@.queue =~= old_v.queue.drop_first());
        assert(task_view(task) == old_v.queue[0]);
        self.remove_active(task.filename.as_str());
        let ghost mid = self@;
        let started = Started {
            bar: task.bar,
            filename: task.filename.clone(),
            message: concat_str("Downloading ", task.filename.as_str()),
        };
        self.active_downloads.push(task);
        proof {
            assert(self@.active =~= mid.active.push(old_v.queue[0]));
            let ents = active_entries(self@);
            assert forall|a: int, b: int| 0 <= a < b < ents.len() implies (#[trigger] ents[a]).0 != (
            #[trigger] ents[b]).0 by {
                assert(ents[a].0 == self@.active[a].0);
                assert(ents[b].0 == self@.active[b].0);
                if b < mid.active.len() {
                    assert(active_entries(mid)[a].0 == mid.active[a].0);
                    assert(active_entries(mid)[b].0 == mid.active[b].0);
                }
            }
            assert forall|i: int| 0 <= i < self@.queue.len() implies (#[trigger] self@.queue[i]).2 < self@.next_bar by {
                assert(self@.queue[i] == old_v.queue[i + 1]);
            }
            assert forall|i: int| 0 <= i < mid.active.len() implies (#[trigger] mid.active[i]).2 < self@.next_bar by {
                let k = task_index(old_v.active, old_v.queue[0].0);
                if let Some(k0) = k {
                    let i0 = if i < k0 { i } else { i + 1 };
                    assert(mid.active[i] == old_v.active[i0]);
                }
            }
        }
        Some(started)
    }

    /// Finishes the download of `filename` (nothing in a folder download): its
    /// bar is finished and dropped, it gives up its slot, and the first waiting
    /// file takes a slot.
    pub fn finish_file(&mut self, filename: &str) -> (r: Finished)
        requires
            manager_wf(old(self)@),
        ensures
            manager_wf(final(self)@),
            final(self).settings() == old(self).settings(),
            old(self)@.is_folder ==> final(self)@ == old(self)@ && (r.finished is None) && (r.started is None),
            !old(self)@.is_folder ==> {
                let v = old(self)@;
                let after = (DownloadManagerView {
                    file_progress: without_name(v.file_progress, filename@),
                    active: without_task(v.active, filename@),
                    ..v
                });
                &&& match bar_of(v, filename@) {
                    Some(b) => r.finished matches Some((fb, m)) && (fb == b && m@ == downloaded_message(filename@)),
                    None => r.finished is None,
                }
                &&& v.queue.len() == 0 ==> final(self)@ == after && (r.started is None)
                &&& v.queue.len() > 0 ==> {
                    let t = v.queue[0];
                    &&& r.started matches Some(st) && (st.bar == t.2 && st.filename@ == t.0 && st.message@
                        == downloading_message(t.0))
                    &&& final(self)@ == (DownloadManagerView {
                        queue: v.queue.drop_first(),
                        active: with_task(after.active, t),
                        ..after
                    })
                }
            },
    {
        if self.is_folder {
            return Finished { finished: None, started: None };
        }
        let ghost v = self@;
        proof {
            lemma_entry_index(v.file_progress, filename@);
        }
        let finished = match find_entry(&self.file_progress, filename) {
            Some(i) => {
                assert(v.file_progress[i as int].0 == filename@);
                let (_, b) = self.file_progress.remove(i);
                proof {
                    assert(self@.file_progress =~= v.file_progress.remove(i as int));
                    lemma_remove_keeps_distinct(v.file_progress, i as int);
                    assert forall|j: int| 0 <= j < self@.file_progress.len() implies (#[trigger] self@.file_progress[j]).1 < self@.next_bar by {
                        let j0 = if j < i { j } else { j + 1 };
                        assert(self@.file_progress[j] == v.file_progress[j0]);
                    }
                }
                Some((b, concat_str("✓ Downloaded ", filename)))
            },
            None => {
                assert forall|i: int| 0 <= i < v.file_progress.len() implies (#[trigger] v.file_progress[i]).0 != filename@ by {
                    assert(v.file_progress[i].0 == self.file_progress@[i].0@);
                }
                None
            },
        };
        let ghost v1 = self@;
        self.remove_active(filename);
        proof {
            assert forall|i: int| 0 <= i < self@.active.len() implies (#[trigger] self@.active[i]).2 < self@.next_bar by {
                let k = task_index(v.active, filename@);
                if let Some(k0) = k {
                    let i0 = if i < k0 { i } else { i + 1 };
                    assert(self@.active[i] == v.active[i0]);
                }
            }
        }
        let started = self.start_next();
        Finished { finished, started }
    }

    /// Finishes the bar of a folder download; nothing for separate files.
    pub fn finish_folder(&self) -> (r: Option<(u64, String)>)
        requires
            manager_wf(self@),
        ensures
            self@.is_folder ==> (r matches Some((b, m)) && (b == self@.folder_progress->Some_0
                && m@ == "✓ Folder download completed"@)),
            !self@.is_folder ==> r is None,
    {
        if !self.is_folder {
            return None;
        }
        Some((self.folder_progress.unwrap(), String::from_str("✓ Folder download completed")))
    }
}

/// A file whose bar was made by `create_file_progress` finds that bar until
/// it is finished, and asking again gives the same bar.
pub proof fn lemma_created_bar_is_found(v: DownloadManagerView, name: Seq<char>, size: u64)
    requires
        manager_wf(v),
        bar_of(v, name) is None,
        !v.is_folder,
    ensures
        ({
            let after = DownloadManagerView {
                file_progress: v.file_progress.push((name, v.next_bar)),
                queue: v.queue.push((name, size, v.next_bar)),
                next_bar: (v.next_bar + 1) as u64,
                ..v
            };
            bar_of(after, name) == Some(v.next_bar)
        }),
{
    lemma_entry_index(v.file_progress, name);
    let fp = v.file_progress.push((name, v.next_bar));
    assert(fp[v.file_progress.len() as int].0 == name);
    assert(distinct_names(fp)) by {
        assert forall|a: int, b: int| 0 <= a < b < fp.len() implies (#[trigger] fp[a]).0 != (
        #[trigger] fp[b]).0 by {
            if b == v.file_progress.len() {
                assert(fp[a] == v.file_progress[a]);
            } else {
                assert(fp[a] == v.file_progress[a]);
                assert(fp[b] == v.file_progress[b]);
            }
        }
    }
    lemma_entry_index(fp, name);
}

/// After `finish_file(name)` on separate files, from any well-formed state
/// (every operation keeps the bookkeeping well formed), `name` has no bar any
/// more, and every other file keeps the bar it had.
pub proof fn lemma_finished_file_has_no_bar(v: DownloadManagerView, name: Seq<char>, other: Seq<char>)
    requires
        manager_wf(v),
    ensures
        ({
            let after = DownloadManagerView {
                file_progress: without_name(v.file_progress, name),
                ..v
            };
            &&& bar_of(after, name) is None
            &&& other != name ==> bar_of(after, other) == bar_of(v, other)
        }),
{
    let fp = v.file_progress;
    lemma_entry_index(fp, name);
    lemma_entry_index(fp, other);
    match entry_index(fp, name) {
        Some(i) => {
            lemma_remove_keeps_distinct(fp, i);
            let r = fp.remove(i);
            lemma_entry_index(r, name);
            lemma_entry_index(r, other);
            if other != name {
                match entry_index(fp, other) {
                    Some(k) => {
                        let k2 = if k < i { k } else { k - 1 };
                        assert(r[k2] == fp[k]);
                    },
                    None => {
                        assert forall|j: int| 0 <= j < r.len() implies (#[trigger] r[j]).0 != other by {
                            let j0 = if j < i { j } else { j + 1 };
                            assert(r[j] == fp[j0]);
                        }
                    },
                }
            }
        },
        None => {},
    }
}

/// Making a bar for a file that has none and then finishing that file: the
/// bar is found after it is made, and not found after the file is finished.
pub proof fn lemma_bar_lifecycle(v: DownloadManagerView, name: Seq<char>, size: u64)
    requires
        manager_wf(v),
        bar_of(v, name) is None,
        !v.is_folder,
    ensures
        ({
            let made = DownloadManagerView {
                file_progress: v.file_progress.push((name, v.next_bar)),
                queue: v.queue.push((name, size, v.next_bar)),
                next_bar: (v.next_bar + 1) as u64,
                ..v
            };
            let finished = DownloadManagerView {
                file_progress: without_name(made.file_progress, name),
                ..made
            };
            &&& bar_of(made, name) == Some(v.next_bar)
            &&& bar_of(finished, name) is None
        }),
{
    lemma_created_bar_is_found(v, name, size);
    let made = DownloadManagerView {
        file_progress: v.file_progress.push((name, v.next_bar)),
        queue: v.queue.push((name, size, v.next_bar)),
        next_bar: (v.next_bar + 1) as u64,
        ..v
    };
    lemma_entry_index(v.file_progress, name);
    let fp = made.file_progress;
    assert(distinct_names(fp)) by {
        assert forall|a: int, b: int| 0 <= a < b < fp.len() implies (#[trigger] fp[a]).0 != (
        #[trigger] fp[b]).0 by {
            assert(fp[a] == v.file_progress[a]);
            if b < v.file_progress.len() {
                assert(fp[b] == v.file_progress[b]);
            }
        }
    }
    lemma_entry_index(fp, name);
    match entry_index(fp, name) {
        Some(i) => {
            lemma_remove_keeps_distinct(fp, i);
            lemma_entry_index(fp.remove(i), name);
        },
        None => {},
    }
}

} // verus!
