//! The state of the terminal interface, and the text that it shows.

use vstd::prelude::*;
use crate::engine::types::{DownloadStatus, ProtocolInfo, WorkerState};
use crate::numerals::{decimal, decimal_string};
use crate::service::{EngineEvent, WorkerSnapshot};
use crate::text::{
    byte_width, chars_of, join, joined, lemma_text_bytes_take, owned, string_between, text_bytes, texts,
};
use crate::units::{max_int, MB};
use crate::web_url::opt_text;

verus! {

/// What keys are taken for.
#[derive(Debug, Clone, Copy, PartialEq, Eq, Structural)]
pub enum InputMode {
    Normal,
    UrlInput,
    DirInput,
}

/// Which pane the arrows move in.
#[derive(Debug, Clone, Copy, PartialEq, Eq, Structural)]
pub enum FocusPane {
    TaskList,
    Details,
}

/// A key.
#[derive(Debug, Clone, Copy, PartialEq, Eq, Structural)]
pub enum Key {
    Char(char),
    Up,
    Down,
    Enter,
    Esc,
    Backspace,
    Tab,
    Other,
}

/// What a key calls for.
#[derive(Debug, PartialEq, Eq)]
pub enum TuiAction {
    Nothing,
    Quit,
    Stop(u128),
    Resume(u128),
    Cancel(u128),
    Add { url: String, dir: String },
}

/// A download in the list.
#[derive(Debug)]
pub struct TaskRow {
    pub id: u128,
    pub filename: String,
    pub dry_run: bool,
    pub total_size: u64,
    pub downloaded_size: u64,
    pub status: DownloadStatus,
    pub speed_bits: u64,
    pub protocol: Option<ProtocolInfo>,
    pub workers: Option<Vec<WorkerSnapshot>>,
}

/// The state of the interface.
#[derive(Debug)]
pub struct TuiApp {
    pub tasks: Vec<TaskRow>,
    pub selected: Option<usize>,
    pub input_mode: InputMode,
    pub focus_pane: FocusPane,
    pub show_details: bool,
    pub detail_scroll: usize,
    pub url_buffer: String,
    pub dir_buffer: String,
}

/// The state of the interface, without the list.
#[verifier::ext_equal]
pub struct TuiView {
    pub selected: Option<usize>,
    pub input_mode: InputMode,
    pub focus_pane: FocusPane,
    pub show_details: bool,
    pub detail_scroll: usize,
    pub url: Seq<char>,
    pub dir: Seq<char>,
}

/// The place after `selected` in a list of `n`, going round.
pub open spec fn place_after(selected: Option<usize>, n: int) -> Option<usize> {
    if n == 0 {
        selected
    } else {
        match selected {
            Some(i) => if i >= n - 1 {
                Some(0)
            } else {
                Some((i + 1) as usize)
            },
            None => Some(0),
        }
    }
}

/// The place before `selected` in a list of `n`, going round.
pub open spec fn place_before(selected: Option<usize>, n: int) -> Option<usize> {
    if n == 0 {
        selected
    } else {
        match selected {
            Some(i) => if i == 0 {
                Some((n - 1) as usize)
            } else {
                Some((i - 1) as usize)
            },
            None => Some(0),
        }
    }
}

/// `s` without its last character.
pub open spec fn shortened(s: Seq<char>) -> Seq<char> {
    if s.len() == 0 {
        s
    } else {
        s.drop_last()
    }
}

fn without_last(s: &str) -> (r: String)
    ensures
        r@ == shortened(s@),
{
    let v: Vec<char> = chars_of(s);
    if v.len() == 0 {
        return String::new();
    }
    let r = string_between(&v, 0, v.len() - 1);
    assert(r@ =~= s@.drop_last());
    r
}

/// `row` after `event`, if the event is about it.
pub open spec fn row_after(row: TaskRow, event: EngineEvent) -> TaskRow {
    if row.id != event.task_id() {
        row
    } else {
        match event {
            EngineEvent::Progress { downloaded, speed_bits, .. } => TaskRow {
                downloaded_size: downloaded,
                speed_bits,
                ..row
            },
            EngineEvent::StatusChanged { status, .. } => TaskRow { status, ..row },
            EngineEvent::TotalSize { size, .. } => TaskRow { total_size: size, ..row },
            EngineEvent::Workers { workers, .. } => TaskRow { workers: Some(workers), ..row },
            EngineEvent::Protocol { info, .. } => TaskRow { protocol: Some(info), ..row },
        }
    }
}

/// `i` is the first row with the given number.
pub open spec fn is_row(rows: Seq<TaskRow>, id: u128, i: int) -> bool {
    0 <= i < rows.len() && rows[i].id == id && forall|k: int| 0 <= k < i ==> (#[trigger] rows[k]).id != id
}

impl TuiApp {
    pub open spec fn view(&self) -> TuiView {
        TuiView {
            selected: self.selected,
            input_mode: self.input_mode,
            focus_pane: self.focus_pane,
            show_details: self.show_details,
            detail_scroll: self.detail_scroll,
            url: self.url_buffer@,
            dir: self.dir_buffer@,
        }
    }

    /// What is selected is in the list.
    pub open spec fn wf(&self) -> bool {
        self.selected matches Some(i) ==> i < self.tasks@.len()
    }

    pub fn new() -> (r: TuiApp)
        ensures
            r.wf(),
            r.tasks@.len() == 0,
            r@ == (TuiView {
                selected: None,
                input_mode: InputMode::Normal,
                focus_pane: FocusPane::TaskList,
                show_details: false,
                detail_scroll: 0,
                url: Seq::empty(),
                dir: Seq::empty(),
            }),
    {
        TuiApp {
            tasks: Vec::new(),
            selected: None,
            input_mode: InputMode::Normal,
            focus_pane: FocusPane::TaskList,
            show_details: false,
            detail_scroll: 0,
            url_buffer: String::new(),
            dir_buffer: String::new(),
        }
    }

    /// Adds a download to the list; the first one is selected.
    pub fn add_task(&mut self, row: TaskRow)
        requires
            old(self).wf(),
        ensures
            final(self).wf(),
            final(self).tasks@ == old(self).tasks@.push(row),
            final(self)@ == (TuiView {
                selected: if old(self).tasks@.len() == 0 {
                    Some(0usize)
                } else {
                    old(self).selected
                },
                ..old(self)@
            }),
    {
        let first: bool = self.tasks.len() == 0;
        self.tasks.push(row);
        if first {
            self.selected = Some(0);
        }
    }

    pub fn next(&mut self)
        requires
            old(self).wf(),
        ensures
            final(self).wf(),
            final(self).tasks == old(self).tasks,
            final(self)@ == (TuiView {
                selected: place_after(old(self).selected, old(self).tasks@.len() as int),
                ..old(self)@
            }),
    {
        let n: usize = self.tasks.len();
        if n == 0 {
            return ;
        }
        self.selected = match self.selected {
            Some(i) => {
                if i >= n - 1 {
                    Some(0)
                } else {
                    Some(i + 1)
                }
            },
            None => Some(0),
        };
    }

    pub fn prev(&mut self)
        requires
            old(self).wf(),
        ensures
            final(self).wf(),
            final(self).tasks == old(self).tasks,
            final(self)@ == (TuiView {
                selected: place_before(old(self).selected, old(self).tasks@.len() as int),
                ..old(self)@
            }),
    {
        let n: usize = self.tasks.len();
        if n == 0 {
            return ;
        }
        self.selected = match self.selected {
            Some(i) => {
                if i == 0 {
                    Some(n - 1)
                } else {
                    Some(i - 1)
                }
            },
            None => Some(0),
        };
    }

    /// The number of the selected download.
    pub open spec fn selected_id(&self) -> Option<u128> {
        match self.selected {
            Some(i) => Some(self.tasks@[i as int].id),
            None => None,
        }
    }

    fn current_id(&self) -> (r: Option<u128>)
        requires
            self.wf(),
        ensures
            r == self.selected_id(),
    {
        match self.selected {
            Some(i) => Some(self.tasks[i].id),
            None => None,
        }
    }

    /// What a key does to the state.
    pub open spec fn after_key(v: TuiView, n: int, key: Key) -> TuiView {
        match v.input_mode {
            InputMode::Normal => match key {
                Key::Up => if v.focus_pane == FocusPane::Details {
                    TuiView { detail_scroll: max_int(v.detail_scroll - 1, 0) as usize, ..v }
                } else {
                    TuiView { selected: place_before(v.selected, n), ..v }
                },
                Key::Down => if v.focus_pane == FocusPane::Details {
                    TuiView { detail_scroll: crate::units::min_int(v.detail_scroll + 1, usize::MAX as int) as usize, ..v }
                } else {
                    TuiView { selected: place_after(v.selected, n), ..v }
                },
                Key::Tab => TuiView {
                    focus_pane: if v.focus_pane == FocusPane::TaskList {
                        FocusPane::Details
                    } else {
                        FocusPane::TaskList
                    },
                    ..v
                },
                Key::Char(c) => if c == 'n' || c == 'N' {
                    TuiView { input_mode: InputMode::UrlInput, url: Seq::empty(), ..v }
                } else if c == 'd' || c == 'D' {
                    TuiView { show_details: !v.show_details, ..v }
                } else {
                    v
                },
                _ => v,
            },
            InputMode::UrlInput => match key {
                Key::Enter => TuiView { input_mode: InputMode::DirInput, dir: Seq::empty(), ..v },
                Key::Esc => TuiView { input_mode: InputMode::Normal, ..v },
                Key::Char(c) => TuiView { url: v.url.push(c), ..v },
                Key::Backspace => TuiView { url: shortened(v.url), ..v },
                _ => v,
            },
            InputMode::DirInput => match key {
                Key::Enter => TuiView { input_mode: InputMode::Normal, ..v },
                Key::Esc => TuiView { input_mode: InputMode::Normal, ..v },
                Key::Char(c) => TuiView { dir: v.dir.push(c), ..v },
                Key::Backspace => TuiView { dir: shortened(v.dir), ..v },
                _ => v,
            },
        }
    }

    /// Takes a key.
    pub fn handle_key(&mut self, key: Key) -> (action: TuiAction)
        requires
            old(self).wf(),
        ensures
            final(self).wf(),
            final(self).tasks == old(self).tasks,
            final(self)@ == Self::after_key(old(self)@, old(self).tasks@.len() as int, key),
            match (old(self).input_mode, key) {
                (InputMode::Normal, Key::Char('q')) => action is Quit,
                (InputMode::Normal, Key::Char(c)) => {
                    let id = old(self).selected_id();
                    if id is None {
                        action is Nothing
                    } else if c == 's' || c == 'S' || c == 'p' || c == 'P' {
                        action == TuiAction::Stop(id->0)
                    } else if c == 'r' || c == 'R' {
                        action == TuiAction::Resume(id->0)
                    } else if c == 'c' || c == 'C' {
                        action == TuiAction::Cancel(id->0)
                    } else {
                        action is Nothing
                    }
                },
                (InputMode::DirInput, Key::Enter) => action matches TuiAction::Add { url, dir } && url@ == old(
                    self,
                )@.url && dir@ == if old(self)@.dir.len() == 0 {
                    "."@
                } else {
                    old(self)@.dir
                },
                _ => action is Nothing,
            },
    {
        match self.input_mode {
            InputMode::Normal => match key {
                Key::Up => {
                    match self.focus_pane {
                        FocusPane::Details => {
                            self.detail_scroll = self.detail_scroll.saturating_sub(1);
                        },
                        FocusPane::TaskList => self.prev(),
                    }
                    TuiAction::Nothing
                },
                Key::Down => {
                    match self.focus_pane {
                        FocusPane::Details => {
                            if self.detail_scroll < usize::MAX {
                                self.detail_scroll = self.detail_scroll + 1;
                            }
                        },
                        FocusPane::TaskList => self.next(),
                    }
                    TuiAction::Nothing
                },
                Key::Tab => {
                    self.focus_pane = match self.focus_pane {
                        FocusPane::TaskList => FocusPane::Details,
                        FocusPane::Details => FocusPane::TaskList,
                    };
                    TuiAction::Nothing
                },
                Key::Char(c) => {
                    if c == 'q' {
                        return TuiAction::Quit;
                    }
                    if c == 'n' || c == 'N' {
                        self.input_mode = InputMode::UrlInput;
                        self.url_buffer = String::new();
                        return TuiAction::Nothing;
                    }
                    if c == 'd' || c == 'D' {
                        self.show_details = !self.show_details;
                        return TuiAction::Nothing;
                    }
                    match self.current_id() {
                        Some(id) => {
                            if c == 's' || c == 'S' || c == 'p' || c == 'P' {
                                TuiAction::Stop(id)
                            } else if c == 'r' || c == 'R' {
                                TuiAction::Resume(id)
                            } else if c == 'c' || c == 'C' {
                                TuiAction::Cancel(id)
                            } else {
                                TuiAction::Nothing
                            }
                        },
                        None => TuiAction::Nothing,
                    }
                },
                _ => TuiAction::Nothing,
            },
            InputMode::UrlInput => {
                match key {
                    Key::Enter => {
                        self.input_mode = InputMode::DirInput;
                        self.dir_buffer = String::new();
                    },
                    Key::Esc => {
                        self.input_mode = InputMode::Normal;
                    },
                    Key::Char(c) => {
                        self.url_buffer.push(c);
                    },
                    Key::Backspace => {
                        self.url_buffer = without_last(self.url_buffer.as_str());
                    },
                    _ => {},
                }
                TuiAction::Nothing
            },
            InputMode::DirInput => match key {
                Key::Enter => {
                    self.input_mode = InputMode::Normal;
                    let dir: String = if self.dir_buffer.as_str().unicode_len() == 0 {
                        owned(".")
                    } else {
                        owned(self.dir_buffer.as_str())
                    };
                    TuiAction::Add { url: owned(self.url_buffer.as_str()), dir }
                },
                Key::Esc => {
                    self.input_mode = InputMode::Normal;
                    TuiAction::Nothing
                },
                Key::Char(c) => {
                    self.dir_buffer.push(c);
                    TuiAction::Nothing
                },
                Key::Backspace => {
                    self.dir_buffer = without_last(self.dir_buffer.as_str());
                    TuiAction::Nothing
                },
                _ => TuiAction::Nothing,
            },
        }
    }

    /// Takes an event of the engine: the first row that it is about changes.
    pub fn handle_engine_event(&mut self, event: EngineEvent)
        requires
            old(self).wf(),
        ensures
            final(self).wf(),
            final(self)@ == old(self)@,
            forall|i: int| #[trigger]
                is_row(old(self).tasks@, event.task_id(), i) ==> final(self).tasks@ == old(self).tasks@.update(
                    i,
                    row_after(old(self).tasks@[i], event),
                ),
            (forall|i: int| 0 <= i < old(self).tasks@.len() ==> (#[trigger] old(self).tasks@[i]).id
                != event.task_id()) ==> final(self).tasks@ == old(self).tasks@,
    {
        let id: u128 = match &event {
            EngineEvent::Progress { id, .. } => *id,
            EngineEvent::StatusChanged { id, .. } => *id,
            EngineEvent::TotalSize { id, .. } => *id,
            EngineEvent::Workers { id, .. } => *id,
            EngineEvent::Protocol { id, .. } => *id,
        };
        let ghost rows = self.tasks@;
        let mut i: usize = 0;
        while i < self.tasks.len() && self.tasks[i].id != id
            invariant
                i <= self.tasks@.len(),
                self.tasks@ == rows,
                forall|k: int| 0 <= k < i ==> (#[trigger] rows[k]).id != id,
            decreases self.tasks@.len() - i,
        {
            i = i + 1;
        }
        if i == self.tasks.len() {
            return ;
        }
        let mut row: TaskRow = self.tasks.remove(i);
        match event {
            EngineEvent::Progress { downloaded, speed_bits, .. } => {
                row.downloaded_size = downloaded;
                row.speed_bits = speed_bits;
            },
            EngineEvent::StatusChanged { status, .. } => {
                row.status = status;
            },
            EngineEvent::TotalSize { size, .. } => {
                row.total_size = size;
            },
            EngineEvent::Workers { workers, .. } => {
                row.workers = Some(workers);
            },
            EngineEvent::Protocol { info, .. } => {
                row.protocol = Some(info);
            },
        }
        assert(row == row_after(rows[i as int], event));
        self.tasks.insert(i, row);
        assert(self.tasks@ =~= rows.update(i as int, row_after(rows[i as int], event)));
        assert forall|k: int| #[trigger] is_row(rows, id, k) implies k == i by {
            if k < i {
                assert(rows[k].id != id);
            } else if i < k {
                assert(rows[i as int].id != id);
            }
        }
    }
}

/// Moving on and back leaves the selection where it was.
pub proof fn law_next_then_prev(i: usize, n: int)
    requires
        i < n <= usize::MAX,
    ensures
        place_before(place_after(Some(i), n), n) == Some(i),
        place_after(place_before(Some(i), n), n) == Some(i),
{
}

/// The name that the list shows: names of more than 20 bytes are cut after 17.
pub open spec fn shown_name(name: Seq<char>, cut: int) -> Seq<char> {
    if text_bytes(name) > 20 {
        name.take(cut) + "..."@
    } else {
        name
    }
}

/// The name that the list shows. A name of more than 20 bytes must have a
/// character that begins at byte 17.
pub fn list_name(name: &str) -> (r: String)
    requires
        text_bytes(name@) > 20 ==> exists|cut: int|
            0 <= cut <= name@.len() && #[trigger] text_bytes(name@.take(cut)) == 17,
    ensures
        forall|cut: int|
            0 <= cut <= name@.len() && #[trigger] text_bytes(name@.take(cut)) == 17 ==> r@ == shown_name(name@, cut),
        text_bytes(name@) <= 20 ==> r@ == name@,
{
    let v: Vec<char> = chars_of(name);
    let mut i: usize = 0;
    let mut bytes: usize = 0;
    let mut cut: usize = 0;
    let mut found: bool = false;
    assert(v@.take(0) =~= Seq::empty());
    while i < v.len() && bytes <= 20
        invariant
            i <= v@.len(),
            v@ == name@,
            bytes == text_bytes(v@.take(i as int)),
            bytes <= 24,
            found ==> cut <= v@.len() && text_bytes(v@.take(cut as int)) == 17,
            !found ==> forall|k: int| 0 <= k < i ==> #[trigger] text_bytes(v@.take(k)) != 17,
        decreases v@.len() - i,
    {
        if bytes == 17 {
            cut = i;
            found = true;
        }
        assert(v@.take(i + 1).drop_last() =~= v@.take(i as int));
        bytes = bytes + byte_width(v[i]);
        i = i + 1;
    }
    proof {
        lemma_text_bytes_take(v@, i as int, v@.len() as int);
        assert(v@.take(v@.len() as int) =~= v@);
    }
    if bytes <= 20 {
        assert forall|k: int| 0 <= k <= name@.len() && #[trigger] text_bytes(name@.take(k)) == 17 implies name@
            == shown_name(name@, k) by {}
        return owned(name);
    }
    proof {
        let c = choose|c: int| 0 <= c <= name@.len() && #[trigger] text_bytes(name@.take(c)) == 17;
        if c >= i {
            lemma_text_bytes_take(v@, i as int, c);
        }
        assert(found);
        assert forall|k: int| 0 <= k <= name@.len() && #[trigger] text_bytes(name@.take(k)) == 17 implies k == cut by {
            if k < cut {
                lemma_text_bytes_take(v@, k, cut as int);
            } else if cut < k {
                lemma_text_bytes_take(v@, cut as int, k);
            }
        }
    }
    let mut r: String = string_between(&v, 0, cut);
    assert(r@ =~= name@.take(cut as int));
    r.append("...");
    r
}

/// `n` spaces.
pub open spec fn spaces(n: int) -> Seq<char>
    decreases n,
{
    if n <= 0 {
        Seq::empty()
    } else {
        spaces(n - 1).push(' ')
    }
}

/// `s` followed by spaces up to a width of `width`.
pub open spec fn padded(s: Seq<char>, width: int) -> Seq<char> {
    s + spaces(width - s.len())
}

/// `s` followed by spaces up to a width of `width`.
pub fn pad_right(s: &str, width: usize) -> (r: String)
    ensures
        r@ == padded(s@, width as int),
{
    let mut r: String = owned(s);
    let len: usize = s.unicode_len();
    let mut i: usize = 0;
    assert(r@ =~= s@ + spaces(0));
    while i < width && len < width - i
        invariant
            len == s@.len(),
            i <= width,
            r@ == s@ + spaces(i as int),
            i == 0 || len + i <= width,
        decreases width - i,
    {
        r.push(' ');
        assert(r@ =~= s@ + spaces(i + 1));
        i = i + 1;
    }
    assert(spaces(width - len) =~= spaces(i as int)) by {
        if width <= len {
            assert(i == 0);
        }
    }
    r
}

/// What a worker is doing, in a word.
pub open spec fn state_word(state: WorkerState) -> Seq<char> {
    match state {
        WorkerState::Connecting => "connecting"@,
        WorkerState::WaitingForWork => "waiting"@,
        WorkerState::Downloading => "downloading"@,
        WorkerState::Retrying => "retrying"@,
        WorkerState::Paused => "paused"@,
        WorkerState::Stopped => "stopped"@,
        WorkerState::Finished => "finished"@,
    }
}

pub fn worker_state_word(state: WorkerState) -> (r: &'static str)
    ensures
        r@ == state_word(state),
{
    match state {
        WorkerState::Connecting => "connecting",
        WorkerState::WaitingForWork => "waiting",
        WorkerState::Downloading => "downloading",
        WorkerState::Retrying => "retrying",
        WorkerState::Paused => "paused",
        WorkerState::Stopped => "stopped",
        WorkerState::Finished => "finished",
    }
}

/// A worker as it is shown; speed and bytes are text already.
#[derive(Debug)]
pub struct WorkerLine {
    pub connection_id: u32,
    pub state: WorkerState,
    pub speed: String,
    pub bytes: String,
    pub range: Option<(u64, u64, u64)>,
    pub detail: Option<String>,
}

/// The range of a worker, in megabytes: start, cursor and end.
pub open spec fn range_text(range: Option<(u64, u64, u64)>) -> Seq<char> {
    match range {
        Some((start, cursor, end)) => decimal((start / MB) as nat) + ".."@ + decimal((cursor / MB) as nat) + " / "@
            + decimal((end / MB) as nat),
        None => "-"@,
    }
}

/// The line for a worker.
pub open spec fn line_text(w: WorkerLine) -> Seq<char> {
    let base = padded(decimal(w.connection_id as nat), 3) + " "@ + padded(state_word(w.state), 15) + " "@ + padded(
        w.speed@,
        10,
    ) + " "@ + padded(w.bytes@, 10) + " "@ + range_text(w.range);
    match opt_text(w.detail) {
        Some(d) => if d.len() > 0 {
            base + " ("@ + d + ")"@
        } else {
            base
        },
        None => base,
    }
}

fn range_string(range: Option<(u64, u64, u64)>) -> (r: String)
    ensures
        r@ == range_text(range),
{
    match range {
        Some((start, cursor, end)) => {
            let mut r: String = decimal_string(start / MB);
            let b: String = decimal_string(cursor / MB);
            let c: String = decimal_string(end / MB);
            r.append("..");
            r.append(b.as_str());
            r.append(" / ");
            r.append(c.as_str());
            r
        },
        None => owned("-"),
    }
}

fn line_string(w: &WorkerLine) -> (r: String)
    ensures
        r@ == line_text(*w),
{
    let id: String = decimal_string(w.connection_id as u64);
    let mut r: String = pad_right(id.as_str(), 3);
    let state: String = pad_right(worker_state_word(w.state), 15);
    let speed: String = pad_right(w.speed.as_str(), 10);
    let bytes: String = pad_right(w.bytes.as_str(), 10);
    let range: String = range_string(w.range);
    r.append(" ");
    r.append(state.as_str());
    r.append(" ");
    r.append(speed.as_str());
    r.append(" ");
    r.append(bytes.as_str());
    r.append(" ");
    r.append(range.as_str());
    match &w.detail {
        Some(d) => {
            if d.as_str().unicode_len() > 0 {
                r.append(" (");
                r.append(d.as_str());
                r.append(")");
            }
        },
        None => {},
    }
    r
}

/// `order` lists the positions of `lines` by connection number, and those
/// with the same number in their order.
pub open spec fn is_order(lines: Seq<WorkerLine>, order: Seq<int>) -> bool {
    &&& order.len() == lines.len()
    &&& forall|i: int| 0 <= i < order.len() ==> 0 <= #[trigger] order[i] < lines.len()
    &&& forall|i: int, j: int|
        0 <= i < j < order.len() ==> {
            let a = lines[#[trigger] order[i]].connection_id;
            let b = lines[#[trigger] order[j]].connection_id;
            a < b || (a == b && order[i] < order[j])
        }
}

/// The lines in the given order, under their heading.
pub open spec fn details_text(lines: Seq<WorkerLine>, order: Seq<int>) -> Seq<char> {
    join(
        seq!["id  state            speed       bytes      range"@] + order.map_values(|i: int| line_text(lines[i])),
        "\n"@,
    )
}

/// The positions of `lines` by connection number.
fn order_lines(lines: &Vec<WorkerLine>) -> (order: Vec<usize>)
    ensures
        is_order(lines@, order@.map_values(|i: usize| i as int)),
{
    let mut order: Vec<usize> = Vec::new();
    let mut i: usize = 0;
    while i < lines.len()
        invariant
            i <= lines@.len(),
            order@.len() == i,
            forall|k: int| 0 <= k < i ==> (#[trigger] order@[k]) < i,
            forall|a: int, b: int|
                0 <= a < b < i ==> {
                    let x = lines@[(#[trigger] order@[a]) as int].connection_id;
                    let y = lines@[(#[trigger] order@[b]) as int].connection_id;
                    x < y || (x == y && order@[a] < order@[b])
                },
        decreases lines@.len() - i,
    {
        let mut p: usize = order.len();
        while p > 0 && lines[order[p - 1]].connection_id > lines[i].connection_id
            invariant
                i < lines@.len(),
                order@.len() == i,
                p <= order@.len(),
                forall|k: int| 0 <= k < i ==> (#[trigger] order@[k]) < i,
                forall|k: int|
                    p <= k < order@.len() ==> lines@[(#[trigger] order@[k]) as int].connection_id
                        > lines@[i as int].connection_id,
            decreases p,
        {
            p = p - 1;
        }
        let ghost before = order@;
        order.insert(p, i);
        proof {
            assert forall|a: int, b: int| 0 <= a < b < i + 1 implies {
                let x = lines@[(#[trigger] order@[a]) as int].connection_id;
                let y = lines@[(#[trigger] order@[b]) as int].connection_id;
                x < y || (x == y && order@[a] < order@[b])
            } by {
                if p > 0 {
                    let q = before[p - 1];
                    if a < p - 1 {
                        assert(before[a] < i);
                    }
                }
                if b < p {
                    let _ = (before[a], before[b]);
                } else if b == p {
                    let _ = (before[a], before[p - 1]);
                } else if a < p {
                    let _ = (before[a], before[b - 1]);
                } else if a == p {
                    let _ = before[b - 1];
                } else {
                    let _ = (before[a - 1], before[b - 1]);
                }
            }
            assert forall|k: int| 0 <= k < i + 1 implies (#[trigger] order@[k]) < i + 1 by {
                if k < p {
                    assert(before[k] < i);
                } else if k > p {
                    assert(before[k - 1] < i);
                }
            }
        }
        i = i + 1;
    }
    order
}

/// `r` tells of the workers.
pub open spec fn tells_workers(workers: Option<Vec<WorkerLine>>, r: Seq<char>) -> bool {
    match workers {
        None => r == "No worker diagnostics yet."@,
        Some(lines) => if lines@.len() == 0 {
            r == "No active worker snapshots."@
        } else {
            exists|order: Seq<int>| #[trigger] is_order(lines@, order) && r == details_text(lines@, order)
        },
    }
}

/// The text on the workers of a download.
pub fn render_worker_details(workers: &Option<Vec<WorkerLine>>) -> (r: String)
    ensures
        tells_workers(*workers, r@),
{
    match workers {
        None => owned("No worker diagnostics yet."),
        Some(lines) => {
            if lines.len() == 0 {
                return owned("No active worker snapshots.");
            }
            let order: Vec<usize> = order_lines(lines);
            let ghost o = order@.map_values(|i: usize| i as int);
            let mut out: Vec<String> = Vec::new();
            out.push(owned("id  state            speed       bytes      range"));
            let mut i: usize = 0;
            while i < order.len()
                invariant
                    i <= order@.len(),
                    o == order@.map_values(|i: usize| i as int),
                    is_order(lines@, o),
                    out@.len() == i + 1,
                    out@[0]@ == "id  state            speed       bytes      range"@,
                    forall|k: int| 0 <= k < i ==> (#[trigger] out@[k + 1])@ == line_text(lines@[o[k]]),
                decreases order@.len() - i,
            {
                assert(o[i as int] == order@[i as int]);
                out.push(line_string(&lines[order[i]]));
                i = i + 1;
            }
            let r: String = joined(&out, "\n");
            proof {
                let want = seq!["id  state            speed       bytes      range"@] + o.map_values(
                    |i: int| line_text(lines@[i]),
                );
                assert(texts(out@) =~= want) by {
                    assert forall|k: int| 0 <= k < want.len() implies #[trigger] texts(out@)[k] == want[k] by {
                        if k > 0 {
                            assert(out@[(k - 1) + 1]@ == line_text(lines@[o[k - 1]]));
                        }
                    }
                }
            }
            r
        },
    }
}

/// `s` after spaces up to a width of `width`.
pub open spec fn padded_left(s: Seq<char>, width: int) -> Seq<char> {
    spaces(width - s.len()) + s
}

fn pad_left(s: &str, width: usize) -> (r: String)
    ensures
        r@ == padded_left(s@, width as int),
{
    let mut r = String::new();
    let len: usize = s.unicode_len();
    let mut i: usize = 0;
    assert(r@ =~= spaces(0));
    while i < width && len < width - i
        invariant
            len == s@.len(),
            i <= width,
            r@ == spaces(i as int),
            i == 0 || len + i <= width,
        decreases width - i,
    {
        r.push(' ');
        assert(r@ =~= spaces(i + 1));
        i = i + 1;
    }
    assert(spaces(width - len) =~= spaces(i as int)) by {
        if width <= len {
            assert(i == 0);
        }
    }
    r.append(s);
    r
}

/// The protocol of a row, "auto" where it is not known.
pub fn protocol_label(protocol: &Option<ProtocolInfo>) -> (r: String)
    ensures
        match *protocol {
            Some(info) => r@ == match info.negotiated_label() {
                Some(n) => info.requested_label() + "→"@ + n,
                None => info.requested_label(),
            },
            None => r@ == "auto"@,
        },
{
    match protocol {
        Some(info) => info.display_label(),
        None => owned("auto"),
    }
}

/// The line of a download in the list. The status and the speed are text already.
pub open spec fn row_text(
    name: Seq<char>,
    status: Seq<char>,
    dry_run: bool,
    protocol: Seq<char>,
    workers: nat,
    speed: Seq<char>,
) -> Seq<char> {
    padded(name, 20) + " | "@ + padded(status, 12) + " | "@ + padded(
        if dry_run {
            "dry"@
        } else {
            "live"@
        },
        4,
    ) + " | "@ + padded(protocol, 4) + " | "@ + padded_left(decimal(workers), 2) + " conn | "@ + speed + " MB/s"@
}

pub fn row_line(name: &str, status: &str, dry_run: bool, protocol: &str, workers: usize, speed: &str) -> (r: String)
    ensures
        r@ == row_text(name@, status@, dry_run, protocol@, workers as nat, speed@),
{
    let mut r: String = pad_right(name, 20);
    let status: String = pad_right(status, 12);
    let mode: String = if dry_run {
        pad_right("dry", 4)
    } else {
        pad_right("live", 4)
    };
    let protocol: String = pad_right(protocol, 4);
    let digits: String = decimal_string(workers as u64);
    let count: String = pad_left(digits.as_str(), 2);
    r.append(" | ");
    r.append(status.as_str());
    r.append(" | ");
    r.append(mode.as_str());
    r.append(" | ");
    r.append(protocol.as_str());
    r.append(" | ");
    r.append(count.as_str());
    r.append(" conn | ");
    r.append(speed);
    r.append(" MB/s");
    r
}

impl TuiApp {
    /// The text of the details pane, given the workers of the selected
    /// download.
    pub fn detail_text(&self, workers: &Option<Vec<WorkerLine>>) -> (r: String)
        ensures
            if !self.show_details {
                r@ == "Worker details hidden. Press [d] to expand."@
            } else if self.selected is None {
                r@ == "No task selected"@
            } else {
                tells_workers(*workers, r@)
            },
    {
        if !self.show_details {
            owned("Worker details hidden. Press [d] to expand.")
        } else if self.selected.is_none() {
            owned("No task selected")
        } else {
            render_worker_details(workers)
        }
    }

    /// The line at the bottom: the commands, or what is being typed.
    pub fn help_text(&self) -> (r: String)
        ensures
            r@ == match self.input_mode {
                InputMode::Normal =>
                    "[q]uit [n]ew [d]etails [tab] focus [p]ause [r]esume [c]ancel/stop ↑↓ move/scroll"@,
                InputMode::UrlInput => "Enter URL: "@ + self.url_buffer@ + "_"@,
                InputMode::DirInput => "Enter Dir (empty for current): "@ + self.dir_buffer@ + "_"@,
            },
    {
        match self.input_mode {
            InputMode::Normal => owned(
                "[q]uit [n]ew [d]etails [tab] focus [p]ause [r]esume [c]ancel/stop ↑↓ move/scroll",
            ),
            InputMode::UrlInput => {
                let mut r: String = owned("Enter URL: ");
                r.append(self.url_buffer.as_str());
                r.append("_");
                r
            },
            InputMode::DirInput => {
                let mut r: String = owned("Enter Dir (empty for current): ");
                r.append(self.dir_buffer.as_str());
                r.append("_");
                r
            },
        }
    }

    /// The title of the details pane.
    pub fn detail_title(&self) -> (r: &'static str)
        ensures
            r@ == match self.focus_pane {
                FocusPane::TaskList => "Connections"@,
                FocusPane::Details => "Connections [focused]"@,
            },
    {
        match self.focus_pane {
            FocusPane::TaskList => "Connections",
            FocusPane::Details => "Connections [focused]",
        }
    }
}

} // verus!
