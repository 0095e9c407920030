//! The application: its panels, the global keymap, and how actions move
//! pages, focus and the findings selection.

use vstd::prelude::*;
use crate::model::{clone_diagnostics, clone_findings, clone_texts, finding_views};
use crate::scan::ScanOutcome;
use crate::text::str_eq;
use crate::tui::component::{
    spec_list_key, spec_scroll_key, Action, ActionView, DiagnosticsComponent, Event,
    FindingDetailComponent, FindingsTableComponent, FlowTreeComponent, FooterHelpComponent,
    HeaderComponent, Key, MoveDirection, PageId, ProgressComponent, ProjectSummaryComponent,
    ReportPageComponent,
};
use crate::tui::state::{is_fresh, spec_cycle, AppState, Cycle, PanelId, Selections, Stage};

verus! {

/// The application: state, panels, and whether it was asked to stop.
#[derive(Debug)]
pub struct App {
    pub state: AppState,
    pub header: HeaderComponent,
    pub summary: ProjectSummaryComponent,
    pub progress: ProgressComponent,
    pub findings: FindingsTableComponent,
    pub finding_detail: FindingDetailComponent,
    pub flow_tree: FlowTreeComponent,
    pub diagnostics: DiagnosticsComponent,
    pub footer: FooterHelpComponent,
    pub report: ReportPageComponent,
    /// Set when the user quits or asks for a rerun.
    pub cancel: bool,
}

/// Rows of the findings table that are always visible: the smallest
/// table area (five rows) less its borders and header.
pub open spec fn viewport_rows() -> usize {
    2
}

/// The row a move selects among `n > 0` rows. On the findings page the
/// page keys jump eight rows; on every other page they step one.
pub open spec fn move_target(cur: usize, n: usize, dir: MoveDirection, page: PageId) -> usize {
    let jump: int = if page == PageId::Findings { 8 } else { 1 };
    match dir {
        MoveDirection::Up => step_up(cur, 1),
        MoveDirection::Down => step_down(cur, 1, n),
        MoveDirection::PageUp => step_up(cur, jump),
        MoveDirection::PageDown => step_down(cur, jump, n),
        MoveDirection::Home => 0,
        MoveDirection::End => (n - 1) as usize,
    }
}

/// `cur` moved up `k` rows, stopping at the first.
pub open spec fn step_up(cur: usize, k: int) -> usize {
    if cur >= k { (cur - k) as usize } else { 0 }
}

/// `cur` moved down `k` rows, stopping at the last of `n`.
pub open spec fn step_down(cur: usize, k: int, n: usize) -> usize {
    if cur + k < n - 1 { (cur + k) as usize } else { (n - 1) as usize }
}

/// The scroll offset that keeps row `sel` of `n > 0` rows inside a window
/// of `viewport > 0` rows, moving the old `offset` as little as needed.
pub open spec fn scrolled_offset(offset: usize, sel: usize, n: usize, viewport: usize) -> usize {
    let max_offset: int = if n >= viewport { n - viewport } else { 0 };
    let start: int = if offset < max_offset { offset as int } else { max_offset };
    if sel >= start + viewport {
        let low: int = if sel + 1 >= viewport { sel + 1 - viewport } else { 0 };
        (if low < max_offset { low } else { max_offset }) as usize
    } else if sel < start {
        sel
    } else {
        start as usize
    }
}

/// The action a key triggers whatever has the focus.
pub open spec fn spec_global_keymap(k: Key) -> Option<ActionView> {
    match k {
        Key::Esc => Some(ActionView::Quit),
        Key::Tab => Some(ActionView::NextPanel),
        Key::BackTab => Some(ActionView::PrevPanel),
        Key::Enter => Some(ActionView::Page(PageId::FindingDetail)),
        Key::Char(c) => if c == 'q' {
            Some(ActionView::Quit)
        } else if c == 'f' {
            Some(ActionView::Page(PageId::Findings))
        } else if c == 'p' {
            Some(ActionView::Page(PageId::ScanProgress))
        } else if c == 'g' {
            Some(ActionView::Page(PageId::Flows))
        } else if c == 'd' {
            Some(ActionView::Page(PageId::Diagnostics))
        } else if c == 'r' {
            Some(ActionView::Other("rerun"@))
        } else if c == '/' {
            Some(ActionView::Other("filter"@))
        } else if c == '?' {
            Some(ActionView::Other("help"@))
        } else {
            None
        },
        _ => None,
    }
}

pub open spec fn opt_action_view(a: Option<Action>) -> Option<ActionView> {
    match a {
        Some(x) => Some(x@),
        None => None,
    }
}

pub open spec fn move_view(d: Option<MoveDirection>) -> Option<ActionView> {
    match d {
        Some(m) => Some(ActionView::Move(m)),
        None => None,
    }
}

/// The action the body panel of `page` takes on `event`.
pub open spec fn body_action(page: PageId, event: Event) -> Option<ActionView> {
    match event {
        Event::Key(k) => match page {
            PageId::Findings => if k == Key::Enter {
                Some(ActionView::Enter)
            } else {
                move_view(spec_scroll_key(k))
            },
            PageId::FindingDetail => move_view(spec_scroll_key(k)),
            PageId::Flows => move_view(spec_list_key(k)),
            PageId::Diagnostics => move_view(spec_list_key(k)),
            _ => None,
        },
        _ => None,
    }
}

/// The action `event` triggers in state `s`: the global keymap first,
/// then the focused panel.
pub open spec fn dispatched(s: AppState, event: Event) -> Option<ActionView> {
    match event {
        Event::Key(k) => if spec_global_keymap(k) is Some {
            spec_global_keymap(k)
        } else if s.focused_panel == PanelId::Body {
            body_action(s.current_page, event)
        } else {
            None
        },
        _ => if s.focused_panel == PanelId::Body {
            body_action(s.current_page, event)
        } else {
            None
        },
    }
}

/// The state after a move of the findings selection.
pub open spec fn moved(s: AppState, dir: MoveDirection) -> AppState {
    let n = s.visible_findings.len();
    if n == 0 {
        s
    } else {
        let sel = move_target(s.selections.finding_index, n, dir, s.current_page);
        AppState {
            selections: Selections {
                finding_index: sel,
                finding_offset: scrolled_offset(s.selections.finding_offset, sel, n, viewport_rows()),
                ..s.selections
            },
            ..s
        }
    }
}

/// `new` is what applying action `a` to `old` gives.
pub open spec fn applied(old: App, a: ActionView, new: App) -> bool {
    match a {
        ActionView::Quit => new == App { cancel: true, ..old },
        ActionView::NextPanel => new == App {
            state: AppState {
                focused_panel: spec_cycle(old.state.focused_panel, Cycle::Forward),
                ..old.state
            },
            ..old
        },
        ActionView::PrevPanel => new == App {
            state: AppState {
                focused_panel: spec_cycle(old.state.focused_panel, Cycle::Backward),
                ..old.state
            },
            ..old
        },
        ActionView::Page(p) => new == App {
            state: AppState { current_page: p, focused_panel: PanelId::Body, ..old.state },
            ..old
        },
        ActionView::Move(d) => new == App { state: moved(old.state, d), ..old },
        ActionView::Enter => new == App {
            state: AppState {
                current_page: if old.state.current_page == PageId::Findings {
                    PageId::FindingDetail
                } else {
                    old.state.current_page
                },
                focused_panel: PanelId::Body,
                ..old.state
            },
            ..old
        },
        ActionView::ClearFilter => new == App {
            state: AppState { filter: None, ..old.state },
            ..old
        },
        ActionView::Other(p) => if p == "rerun"@ {
            new == App { cancel: true, ..old }
        } else if p == "filter"@ && old.state.filter is Some {
            &&& finding_views(new.state.visible_findings@) == finding_views(old.state.findings@)
            &&& new == App {
                state: AppState {
                    filter: None,
                    visible_findings: new.state.visible_findings,
                    ..old.state
                },
                ..old
            }
        } else if p == "help"@ {
            new == App {
                state: AppState { current_page: PageId::ScanProgress, ..old.state },
                ..old
            }
        } else {
            new == old
        },
    }
}

/// `s` holds what a finished `outcome` puts into a fresh state.
pub open spec fn browsed(s: AppState, outcome: ScanOutcome) -> bool {
    let n = s.visible_findings@.len();
    &&& finding_views(s.findings@) == finding_views(outcome.result.findings@)
    &&& finding_views(s.visible_findings@) == finding_views(outcome.result.findings@)
    &&& s.diagnostics@ == outcome.result.parser_diagnostics@
    &&& s.report_paths@ == outcome.report_paths@
    &&& s.artifact_paths@ == outcome.artifact_paths@
    &&& s.summary == Some(outcome.result.spec_summary())
    &&& s.progress.finding_count == outcome.result.findings@.len()
    &&& s.progress.rules_loaded == outcome.result.rule_count
    &&& s.progress.rules_completed == outcome.result.rule_count
    &&& s.progress.stage == Stage::Done
    &&& !s.running
    &&& s.selections == crate::tui::state::no_selection()
}

/// After any move through a non-empty list whose selection was on a row,
/// the selection is still on a row and lies inside the scrolled window.
pub proof fn law_move_keeps_selection_in_view(s: AppState, dir: MoveDirection)
    requires
        s.visible_findings@.len() > 0,
        s.selections.finding_index < s.visible_findings@.len(),
    ensures
        ({
            let t = moved(s, dir);
            &&& t.selections.finding_index < t.visible_findings@.len()
            &&& t.selections.finding_offset <= t.selections.finding_index
            &&& t.selections.finding_index < t.selections.finding_offset + viewport_rows()
            &&& t.findings == s.findings
            &&& t.visible_findings == s.visible_findings
        }),
{
}

/// `Home` selects the first row with the window at the top, and `End`
/// the last row, whatever the selection was before.
pub proof fn law_home_and_end(s: AppState)
    requires
        s.visible_findings@.len() > 0,
    ensures
        moved(s, MoveDirection::Home).selections.finding_index == 0,
        moved(s, MoveDirection::Home).selections.finding_offset == 0,
        moved(s, MoveDirection::End).selections.finding_index == s.visible_findings@.len() - 1,
{
}

/// Moves can be computed without overflow.
pub open spec fn can_move(s: AppState) -> bool {
    s.selections.finding_index + 8 <= usize::MAX
}

impl App {
    /// An application with empty state.
    pub fn new() -> (app: App)
        ensures
            is_fresh(app.state),
            !app.cancel,
    {
        App {
            state: AppState::default(),
            header: HeaderComponent,
            summary: ProjectSummaryComponent,
            progress: ProgressComponent,
            findings: FindingsTableComponent,
            finding_detail: FindingDetailComponent,
            flow_tree: FlowTreeComponent,
            diagnostics: DiagnosticsComponent,
            footer: FooterHelpComponent,
            report: ReportPageComponent,
            cancel: false,
        }
    }

    /// An application browsing a finished scan: its findings, diagnostics,
    /// report and artifact paths and summary are folded into the state,
    /// and the progress shows the scan as done.
    pub fn browsing(outcome: ScanOutcome) -> (app: App)
        ensures
            browsed(app.state, outcome),
            app.state.current_page == PageId::ScanProgress,
            app.state.focused_panel == PanelId::Body,
            app.state.filter is None,
            !app.cancel,
    {
        let mut app = App::new();
        app.bootstrap(outcome);
        app
    }

    /// Folds a finished scan into the state.
    fn bootstrap(&mut self, outcome: ScanOutcome)
        requires
            old(self).state.filter is None,
            old(self).state.selections == crate::tui::state::no_selection(),
        ensures
            browsed(final(self).state, outcome),
            final(self).state.current_page == old(self).state.current_page,
            final(self).state.focused_panel == old(self).state.focused_panel,
            final(self).state.filter is None,
            final(self).cancel == old(self).cancel,
    {
        let findings = clone_findings(outcome.result.findings.as_slice());
        self.state.set_findings(findings);
        self.state.diagnostics = clone_diagnostics(outcome.result.parser_diagnostics.as_slice());
        self.state.report_paths = clone_texts(outcome.report_paths.as_slice());
        self.state.artifact_paths = clone_texts(outcome.artifact_paths.as_slice());
        self.state.summary = Some(outcome.result.summary());
        self.state.progress.finding_count = outcome.result.findings.len();
        self.state.progress.rules_loaded = outcome.result.rule_count;
        self.state.progress.rules_completed = outcome.result.rule_count;
        self.state.progress.stage = Stage::Done;
        self.state.running = false;
    }

    /// The action the global keymap binds to `key`.
    pub fn global_keymap(&self, key: Key) -> (r: Option<Action>)
        ensures
            opt_action_view(r) == spec_global_keymap(key),
    {
        match key {
            Key::Esc => Some(Action::Quit),
            Key::Tab => Some(Action::NextPanel),
            Key::BackTab => Some(Action::PrevPanel),
            Key::Enter => Some(Action::Page(PageId::FindingDetail)),
            Key::Char(c) => {
                if c == 'q' {
                    Some(Action::Quit)
                } else if c == 'f' {
                    Some(Action::Page(PageId::Findings))
                } else if c == 'p' {
                    Some(Action::Page(PageId::ScanProgress))
                } else if c == 'g' {
                    Some(Action::Page(PageId::Flows))
                } else if c == 'd' {
                    Some(Action::Page(PageId::Diagnostics))
                } else if c == 'r' {
                    Some(Action::Other("rerun".to_owned()))
                } else if c == '/' {
                    Some(Action::Other("filter".to_owned()))
                } else if c == '?' {
                    Some(Action::Other("help".to_owned()))
                } else {
                    None
                }
            },
            _ => None,
        }
    }

    /// Number of findings-table rows the scroll offset keeps the
    /// selection within.
    fn findings_viewport_rows(&self) -> (r: usize)
        ensures
            r == viewport_rows(),
    {
        2
    }

    /// Moves the offset of the findings table so the selection is visible.
    fn scroll_findings_offset_into_view(&mut self)
        requires
            old(self).state.visible_findings@.len() > 0,
            old(self).state.selections.finding_index < usize::MAX,
        ensures
            *final(self) == (App {
                state: AppState {
                    selections: Selections {
                        finding_offset: scrolled_offset(
                            old(self).state.selections.finding_offset,
                            old(self).state.selections.finding_index,
                            old(self).state.visible_findings@.len() as usize,
                            viewport_rows(),
                        ),
                        ..old(self).state.selections
                    },
                    ..old(self).state
                },
                ..*old(self)
            }),
    {
        let n = self.state.visible_findings.len();
        let viewport = self.findings_viewport_rows();
        let sel = self.state.selections.finding_index;
        let max_offset = if n >= viewport { n - viewport } else { 0 };
        let mut offset = if self.state.selections.finding_offset < max_offset {
            self.state.selections.finding_offset
        } else {
            max_offset
        };
        if sel >= offset + viewport {
            let low = if sel >= viewport - 1 { sel + 1 - viewport } else { 0 };
            offset = if low < max_offset { low } else { max_offset };
        } else if sel < offset {
            offset = sel;
        }
        self.state.selections.finding_offset = offset;
    }

    /// Moves the findings selection within the visible findings and
    /// scrolls it into view; nothing happens when no finding is visible.
    fn apply_move(&mut self, dir: MoveDirection)
        requires
            can_move(old(self).state),
        ensures
            *final(self) == (App { state: moved(old(self).state, dir), ..*old(self) }),
    {
        let n = self.state.visible_findings.len();
        if n == 0 {
            return;
        }
        let cur = self.state.selections.finding_index;
        let jump: usize = if self.state.current_page == PageId::Findings { 8 } else { 1 };
        let next = match dir {
            MoveDirection::Up => if cur >= 1 { cur - 1 } else { 0 },
            MoveDirection::Down => if cur + 1 < n - 1 { cur + 1 } else { n - 1 },
            MoveDirection::PageUp => if cur >= jump { cur - jump } else { 0 },
            MoveDirection::PageDown => if cur + jump < n - 1 { cur + jump } else { n - 1 },
            MoveDirection::Home => 0,
            MoveDirection::End => n - 1,
        };
        self.state.selections.finding_index = next;
        self.scroll_findings_offset_into_view();
    }

    /// Handles the opaque payloads: `rerun` stops the application,
    /// `filter` drops an active filter, `help` shows the progress page;
    /// anything else is ignored.
    fn apply_other(&mut self, payload: &str)
        ensures
            applied(*old(self), ActionView::Other(payload@), *final(self)),
    {
        proof {
            reveal_strlit("rerun");
            reveal_strlit("filter");
            reveal_strlit("help");
        }
        if str_eq(payload, "rerun") {
            self.cancel = true;
        } else if str_eq(payload, "filter") {
            assert("filter"@ != "rerun"@ && "filter"@ != "help"@) by {
                assert("filter"@[0] != "rerun"@[0]);
                assert("help"@.len() != "filter"@.len());
            }
            if self.state.filter.is_some() {
                self.state.clear_filter();
            }
        } else if str_eq(payload, "help") {
            assert("help"@ != "filter"@ && "help"@ != "rerun"@) by {
                assert("help"@.len() != "filter"@.len());
                assert("help"@[0] != "rerun"@[0]);
            }
            self.state.current_page = PageId::ScanProgress;
        }
    }

    /// Applies one action to the application.
    pub fn apply_action(&mut self, action: Action)
        requires
            (action is Move) ==> can_move(old(self).state),
        ensures
            applied(*old(self), action@, *final(self)),
    {
        match action {
            Action::Quit => {
                self.cancel = true;
            },
            Action::NextPanel => {
                self.state.focused_panel = self.state.focused_panel.cycle(Cycle::Forward);
            },
            Action::PrevPanel => {
                self.state.focused_panel = self.state.focused_panel.cycle(Cycle::Backward);
            },
            Action::Page(page) => {
                self.state.current_page = page;
                self.state.focused_panel = PanelId::Body;
            },
            Action::Move(dir) => self.apply_move(dir),
            Action::Enter => {
                if self.state.current_page == PageId::Findings {
                    self.state.current_page = PageId::FindingDetail;
                }
                self.state.focused_panel = PanelId::Body;
            },
            Action::ClearFilter => {
                self.state.filter = None;
            },
            Action::Other(payload) => self.apply_other(payload.as_str()),
        }
    }

    /// The action the body panel of the current page takes on `event`.
    fn body_handle_event(&self, event: &Event) -> (r: Option<Action>)
        ensures
            opt_action_view(r) == body_action(self.state.current_page, *event),
    {
        match self.state.current_page {
            PageId::ScanProgress => self.progress.handle_event(event),
            PageId::Findings => self.findings.handle_event(event),
            PageId::FindingDetail => self.finding_detail.handle_event(event),
            PageId::Flows => self.flow_tree.handle_event(event),
            PageId::Diagnostics => self.diagnostics.handle_event(event),
            PageId::Report => self.report.handle_event(event),
        }
    }

    /// Routes one event: a key bound by the global keymap triggers its
    /// action; anything else goes to the focused panel, whose action, if
    /// any, is applied.
    pub fn dispatch(&mut self, event: Event)
        requires
            can_move(old(self).state),
        ensures
            match dispatched(old(self).state, event) {
                Some(a) => applied(*old(self), a, *final(self)),
                None => *final(self) == *old(self),
            },
    {
        if let Event::Key(k) = event {
            if let Some(action) = self.global_keymap(k) {
                self.apply_action(action);
                return;
            }
        }
        let action = match self.state.focused_panel {
            PanelId::Header => self.header.handle_event(&event),
            PanelId::Body => self.body_handle_event(&event),
            PanelId::Footer => self.footer.handle_event(&event),
        };
        if let Some(action) = action {
            self.apply_action(action);
        }
    }
}

} // verus!
