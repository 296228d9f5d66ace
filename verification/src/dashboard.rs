use vstd::prelude::*;
use crate::data::Data;
use crate::log::RsLog;
use crate::logs_panel::{clamped_selection, least, minus, LogsPanel};
use crate::popup::{ExitPopup, KeyCode, KeyEvent, Modifiers};
use crate::status::{after_shutdown, others_stopped, Statuses, ThreadType};
use crate::storage::window;

verus! {

/// What a key press asks of the dashboard when no popup is open.
#[derive(Clone, Copy, Debug, PartialEq, Eq, Structural)]
pub enum Command {
    /// Leave at once.
    Quit,
    /// Select the next newer record.
    Newer,
    /// Select the next older record.
    Older,
    /// Select the oldest record.
    Oldest,
    /// Select the newest record.
    Newest,
    /// Nothing.
    Ignore,
}

/// Whether a key press opens the exit popup: a plain `q`.
pub open spec fn opens_exit_popup(key: KeyEvent) -> bool {
    key.modifiers == Modifiers::Plain && key.code == KeyCode::Char('q')
}

/// The command of a key press. The list is drawn with the newest record
/// at the bottom, so the keys that point down select newer records.
pub open spec fn command_of(key: KeyEvent) -> Command {
    match (key.modifiers, key.code) {
        (Modifiers::Plain, KeyCode::Char('w')) => Command::Quit,
        (Modifiers::Plain, KeyCode::Char('j')) => Command::Newer,
        (Modifiers::Plain, KeyCode::Down) => Command::Newer,
        (Modifiers::Plain, KeyCode::Char('k')) => Command::Older,
        (Modifiers::Plain, KeyCode::Up) => Command::Older,
        (Modifiers::Shift, KeyCode::Down) => Command::Oldest,
        (Modifiers::Plain, KeyCode::Char('g')) => Command::Oldest,
        (Modifiers::Shift, KeyCode::Up) => Command::Newest,
        (Modifiers::Shift, KeyCode::Char('G')) => Command::Newest,
        _ => Command::Ignore,
    }
}

/// The command of a key press.
pub fn command_for(key: KeyEvent) -> (c: Command)
    ensures
        c == command_of(key),
{
    match key.modifiers {
        Modifiers::Plain => match key.code {
            KeyCode::Char(c) => if c == 'w' {
                Command::Quit
            } else if c == 'j' {
                Command::Newer
            } else if c == 'k' {
                Command::Older
            } else if c == 'g' {
                Command::Oldest
            } else {
                Command::Ignore
            },
            KeyCode::Down => Command::Newer,
            KeyCode::Up => Command::Older,
            KeyCode::Other => Command::Ignore,
        },
        Modifiers::Shift => match key.code {
            KeyCode::Char(c) => if c == 'G' {
                Command::Newest
            } else {
                Command::Ignore
            },
            KeyCode::Down => Command::Oldest,
            KeyCode::Up => Command::Newest,
            KeyCode::Other => Command::Ignore,
        },
        Modifiers::Other => Command::Ignore,
    }
}

/// The selection after a command.
pub open spec fn selection_after(selected: Option<usize>, logs_amount: usize, command: Command) -> Option<
    usize,
> {
    match command {
        Command::Newer => Some(
            match selected {
                None => usize::MAX,
                Some(rank) => minus(rank as int, 1) as usize,
            },
        ),
        Command::Older => Some(
            match selected {
                None => 0usize,
                Some(rank) => least(rank + 1, usize::MAX as int) as usize,
            },
        ),
        Command::Oldest => Some(minus(logs_amount as int, 1) as usize),
        Command::Newest => Some(0usize),
        _ => selected,
    }
}

/// The state of the dashboard between two frames.
pub struct App {
    /// Set once the dashboard is to leave its loop.
    pub should_exit: bool,
    /// The log list.
    pub logs_panel: LogsPanel,
    /// The open popups; the first one takes the keys.
    pub popups: Vec<ExitPopup>,
}

impl App {
    /// A dashboard with an empty log list and no popup.
    pub fn new() -> (app: Self)
        ensures
            !app.should_exit,
            app.popups@.len() == 0,
            app.logs_panel.is_fresh(),
    {
        Self { should_exit: false, logs_panel: LogsPanel::new(), popups: Vec::new() }
    }

    /// The popups after a key press: a plain `q` opens one more, behind
    /// those that are open, and then the first one takes the key.
    pub open spec fn popups_after(popups: Seq<ExitPopup>, key: KeyEvent) -> Seq<ExitPopup> {
        let opened = if opens_exit_popup(key) {
            popups.push(ExitPopup { can_exit: false, exit: false })
        } else {
            popups
        };
        if opened.len() > 0 {
            opened.update(0, opened[0].after_key(key))
        } else {
            opened
        }
    }

    /// Takes one key press. A plain `q` opens an exit popup. Then, where a
    /// popup is open, the first one gets the key and nothing else changes;
    /// where none is, the key's command is carried out on the log list.
    pub fn on_key(&mut self, key: KeyEvent)
        ensures
            final(self).popups@ == Self::popups_after(old(self).popups@, key),
            final(self).popups@.len() > 0 ==> {
                &&& final(self).should_exit == old(self).should_exit
                &&& final(self).logs_panel == old(self).logs_panel
            },
            final(self).popups@.len() == 0 ==> {
                &&& final(self).should_exit == (old(self).should_exit || command_of(key)
                    == Command::Quit)
                &&& final(self).logs_panel == (LogsPanel {
                    selected: selection_after(
                        old(self).logs_panel.selected,
                        old(self).logs_panel.logs_amount,
                        command_of(key),
                    ),
                    ..old(self).logs_panel
                })
            },
    {
        let opens = match key.modifiers {
            Modifiers::Plain => match key.code {
                KeyCode::Char(c) => c == 'q',
                _ => false,
            },
            _ => false,
        };
        if opens {
            self.popups.push(ExitPopup::new());
        }
        if self.popups.len() > 0 {
            let mut first = self.popups[0];
            first.on_event(key);
            self.popups[0] = first;
            assert(self.popups@ =~= Self::popups_after(old(self).popups@, key));
        } else {
            assert(self.popups@ =~= Self::popups_after(old(self).popups@, key));
            match command_for(key) {
                Command::Quit => {
                    self.should_exit = true;
                },
                Command::Newer => self.logs_panel.select_previous(),
                Command::Older => self.logs_panel.select_next(),
                Command::Oldest => self.logs_panel.select_last(),
                Command::Newest => self.logs_panel.select_first(),
                Command::Ignore => {},
            }
        }
    }

    /// The part of a tick that looks at the threads. The dashboard is to
    /// leave once every other thread has stopped or failed. The first
    /// popup, if one is open, has its tick: after a yes every running thread
    /// is asked to stop, and after a no the popup is closed.
    pub fn tick(&mut self, statuses: &mut Statuses)
        ensures
            final(self).should_exit == (old(self).should_exit || others_stopped(
                old(statuses)@,
                ThreadType::TUI,
            )),
            final(statuses)@ == if old(self).popups@.len() > 0 && old(self).popups@[0].can_exit {
                after_shutdown(old(statuses)@)
            } else {
                old(statuses)@
            },
            final(statuses).roles() == old(statuses).roles(),
            final(self).popups@ == if old(self).popups@.len() > 0 && old(self).popups@[0].exit {
                old(self).popups@.drop_first()
            } else {
                old(self).popups@
            },
            final(self).logs_panel == old(self).logs_panel,
    {
        if statuses.all_stopped_except(ThreadType::TUI) {
            self.should_exit = true;
        }
        if self.popups.len() > 0 {
            let mut first = self.popups[0];
            let finished = first.update(statuses);
            if finished {
                let _ = self.popups.remove(0);
                assert(self.popups@ =~= old(self).popups@.drop_first());
            }
        }
    }

    /// One tick of the dashboard over the shared state with the volatile
    /// store: [`App::tick`], then the log list is updated against the store.
    pub fn update(&mut self, data: &mut Data)
        ensures
            final(self).should_exit == (old(self).should_exit || others_stopped(
                old(data).statuses@,
                ThreadType::TUI,
            )),
            final(data).statuses@ == if old(self).popups@.len() > 0 && old(self).popups@[0].can_exit {
                after_shutdown(old(data).statuses@)
            } else {
                old(data).statuses@
            },
            final(data).storage@ == old(data).storage@,
            final(data).args == old(data).args,
            final(self).popups@ == if old(self).popups@.len() > 0 && old(self).popups@[0].exit {
                old(self).popups@.drop_first()
            } else {
                old(self).popups@
            },
            final(self).logs_panel.selected == clamped_selection(
                old(self).logs_panel.selected,
                old(data).storage@.len() as usize,
            ),
            old(self).logs_panel.follows(old(data).storage@) ==> final(self).logs_panel.follows(
                old(data).storage@,
            ),
            old(self).logs_panel.follows(old(data).storage@) && old(data).storage@.len() > 0
                ==> final(self).logs_panel.on_screen() == window(
                old(data).storage@,
                final(self).logs_panel.logs_scroll as nat,
                final(self).logs_panel.area_height as nat,
            ),
    {
        self.tick(&mut data.statuses);
        self.logs_panel.update(&data.storage);
    }

    /// The record under the selection, with its sequence id, where the
    /// chunk at hand holds it.
    pub fn selected_log(&self) -> (r: Option<(usize, RsLog)>)
        ensures
            match self.logs_panel.selected {
                None => r is None,
                Some(rank) => {
                    let at = rank - self.logs_panel.chunk_start;
                    if 0 <= at < self.logs_panel.visible_logs@.len() {
                        r matches Some(row) && row.0 == self.logs_panel.visible_logs@[at].0
                            && row.1@ == self.logs_panel.visible_logs@[at].1@
                    } else {
                        r is None
                    }
                },
            },
    {
        match self.logs_panel.selected {
            None => None,
            Some(rank) => {
                if rank < self.logs_panel.chunk_start {
                    return None;
                }
                let at = rank - self.logs_panel.chunk_start;
                if at >= self.logs_panel.visible_logs.len() {
                    return None;
                }
                let id = self.logs_panel.visible_logs[at].0;
                let log = self.logs_panel.visible_logs[at].1.clone();
                Some((id, log))
            },
        }
    }
}

} // verus!
