//! Progress events of a scan, the log that collects them, and the running
//! total shown to a user.

use vstd::prelude::*;

verus! {

/// One progress event. A folder marker carries the number of video files
/// about to be scanned in a folder and the folder's path; the event of a
/// file carries the file's name.
pub struct EmitProgress {
    pub total: Option<usize>,
    pub name: Option<String>,
    pub folder: bool,
}

/// The mathematical value of a progress event.
pub struct ProgressView {
    pub total: Option<usize>,
    pub name: Option<Seq<char>>,
    pub folder: bool,
}

impl View for EmitProgress {
    type V = ProgressView;

    open spec fn view(&self) -> ProgressView {
        ProgressView {
            total: self.total,
            name: match self.name {
                Some(name) => Some(name@),
                None => None,
            },
            folder: self.folder,
        }
    }
}

impl ProgressView {
    /// The marker that opens a folder.
    pub open spec fn folder_marker(path: Seq<char>, count: usize) -> ProgressView {
        ProgressView { total: Some(count), name: Some(path), folder: true }
    }

    /// The event of one fingerprinted file.
    pub open spec fn file_done(name: Seq<char>) -> ProgressView {
        ProgressView { total: None, name: Some(name), folder: false }
    }
}

/// The mathematical value of a scan log.
pub struct LogView {
    /// The events, in the order they were emitted.
    pub events: Seq<ProgressView>,
    /// The paths whose identifier was made from a fresh digest, in order.
    pub fingerprinted: Seq<Seq<char>>,
}

impl LogView {
    pub open spec fn empty() -> LogView {
        LogView { events: Seq::empty(), fingerprinted: Seq::empty() }
    }

    pub open spec fn emit(self, event: ProgressView) -> LogView {
        LogView { events: self.events.push(event), ..self }
    }

    pub open spec fn note(self, path: Seq<char>) -> LogView {
        LogView { fingerprinted: self.fingerprinted.push(path), ..self }
    }
}

/// The sink that a scan reports to: it keeps every event, and every path
/// whose identifier had to be made from a fresh digest.
pub struct ScanLog {
    events: Vec<EmitProgress>,
    fingerprinted: Vec<String>,
}

impl View for ScanLog {
    type V = LogView;

    closed spec fn view(&self) -> LogView {
        LogView {
            events: Seq::new(self.events@.len(), |i: int| self.events@[i]@),
            fingerprinted: Seq::new(self.fingerprinted@.len(), |i: int| self.fingerprinted@[i]@),
        }
    }
}

impl ScanLog {
    pub fn new() -> (log: Self)
        ensures
            log@ == LogView::empty(),
    {
        let log = ScanLog { events: Vec::new(), fingerprinted: Vec::new() };
        assert(log@.events =~= Seq::empty());
        assert(log@.fingerprinted =~= Seq::empty());
        log
    }

    /// Takes one event.
    pub fn emit(&mut self, event: EmitProgress)
        ensures
            final(self)@ == old(self)@.emit(event@),
    {
        self.events.push(event);
        assert(self@.events =~= old(self)@.events.push(event@));
        assert(self@.fingerprinted =~= old(self)@.fingerprinted);
    }

    /// Records that the identifier of `path` was made from a fresh digest.
    pub fn note_fingerprinted(&mut self, path: String)
        ensures
            final(self)@ == old(self)@.note(path@),
    {
        self.fingerprinted.push(path);
        assert(self@.fingerprinted =~= old(self)@.fingerprinted.push(path@));
        assert(self@.events =~= old(self)@.events);
    }

    /// How many events were taken.
    pub fn event_count(&self) -> (count: usize)
        ensures
            count == self@.events.len(),
    {
        self.events.len()
    }

    /// The event at `index`.
    pub fn event(&self, index: usize) -> (event: &EmitProgress)
        requires
            index < self@.events.len(),
        ensures
            event@ == self@.events[index as int],
    {
        &self.events[index]
    }

    /// How many identifiers were made from a fresh digest.
    pub fn fingerprinted_count(&self) -> (count: usize)
        ensures
            count == self@.fingerprinted.len(),
    {
        self.fingerprinted.len()
    }

    /// The path at `index` among those fingerprinted afresh.
    pub fn fingerprinted_path(&self, index: usize) -> (path: &str)
        requires
            index < self@.fingerprinted.len(),
        ensures
            path@ == self@.fingerprinted[index as int],
    {
        self.fingerprinted[index].as_str()
    }
}

/// The running total of a scan's progress.
pub struct EmitTotalProgress {
    pub current: usize,
    pub total: usize,
    pub name: Option<String>,
}

/// The mathematical value of a running total.
pub struct TotalView {
    pub current: usize,
    pub total: usize,
    pub name: Option<Seq<char>>,
}

impl View for EmitTotalProgress {
    type V = TotalView;

    open spec fn view(&self) -> TotalView {
        TotalView {
            current: self.current,
            total: self.total,
            name: match self.name {
                Some(name) => Some(name@),
                None => None,
            },
        }
    }
}

impl TotalView {
    /// The total after one event: a stated count is added to the total, a
    /// stated name replaces the name, and an event that is no folder marker
    /// counts one file done.
    pub open spec fn process(self, emit: ProgressView) -> TotalView {
        TotalView {
            current: if emit.folder {
                self.current
            } else {
                (self.current + 1) as usize
            },
            total: match emit.total {
                Some(count) => (self.total + count) as usize,
                None => self.total,
            },
            name: match emit.name {
                Some(name) => Some(name),
                None => self.name,
            },
        }
    }

    /// Whether the two sums of `process` fit a `usize`.
    pub open spec fn can_process(self, emit: ProgressView) -> bool {
        &&& !emit.folder ==> self.current < usize::MAX
        &&& emit.total is Some ==> self.total + emit.total->0 <= usize::MAX
    }
}

impl EmitTotalProgress {
    pub fn new() -> (total: Self)
        ensures
            total@ == (TotalView { current: 0, total: 0, name: None }),
    {
        Self { current: 0, total: 0, name: None }
    }

    /// Takes one event into the total.
    pub fn process(&mut self, emit: EmitProgress)
        requires
            old(self)@.can_process(emit@),
        ensures
            final(self)@ == old(self)@.process(emit@),
    {
        if let Some(count) = emit.total {
            self.total = self.total + count;
        }
        if let Some(name) = emit.name {
            self.name = Some(name);
        }
        if !emit.folder {
            self.current = self.current + 1;
        }
    }

    /// The two parts of the share done: the files done, and the total where
    /// it is above zero, else one. Their quotient times a hundred is the
    /// percentage.
    pub fn progress_parts(&self) -> (parts: (usize, usize))
        ensures
            parts.0 == self@.current,
            parts.1 == if self@.total >= 1 {
                self@.total
            } else {
                1usize
            },
    {
        (
            self.current,
            if self.total >= 1 {
                self.total
            } else {
                1
            },
        )
    }
}

} // verus!
