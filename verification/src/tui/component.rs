//! Events, actions and pages of the terminal front-end, and what each
//! panel does with a key.

use vstd::prelude::*;

verus! {

/// A key as the front-end distinguishes it.
#[derive(Debug, Clone, Copy, PartialEq, Eq, Structural)]
pub enum Key {
    Char(char),
    Esc,
    Tab,
    BackTab,
    Enter,
    Up,
    Down,
    PageUp,
    PageDown,
    Home,
    End,
    Other,
}

/// An input event forwarded to the focused panel.
#[derive(Debug, Clone, Copy, PartialEq, Eq, Structural)]
pub enum Event {
    Key(Key),
    Mouse,
    Resize { width: u16, height: u16 },
    Tick,
}

/// Direction of a selection move.
#[derive(Debug, Clone, Copy, PartialEq, Eq, Structural)]
pub enum MoveDirection {
    Up,
    Down,
    PageUp,
    PageDown,
    Home,
    End,
}

/// The fixed set of pages shown in the title bar.
#[derive(Debug, Clone, Copy, PartialEq, Eq, Hash, Structural)]
pub enum PageId {
    ScanProgress,
    Findings,
    FindingDetail,
    Flows,
    Diagnostics,
    Report,
}

impl Default for PageId {
    fn default() -> (p: Self)
        ensures
            p == PageId::ScanProgress,
    {
        PageId::ScanProgress
    }
}

impl PageId {
    /// Every page, in title-bar order.
    pub fn all() -> (v: Vec<PageId>)
        ensures
            v@ == seq![
                PageId::ScanProgress,
                PageId::Findings,
                PageId::FindingDetail,
                PageId::Flows,
                PageId::Diagnostics,
                PageId::Report,
            ],
    {
        let mut v = Vec::new();
        v.push(PageId::ScanProgress);
        v.push(PageId::Findings);
        v.push(PageId::FindingDetail);
        v.push(PageId::Flows);
        v.push(PageId::Diagnostics);
        v.push(PageId::Report);
        v
    }

    pub open spec fn spec_label(self) -> Seq<char> {
        match self {
            PageId::ScanProgress => "Scan"@,
            PageId::Findings => "Findings"@,
            PageId::FindingDetail => "Detail"@,
            PageId::Flows => "Flows"@,
            PageId::Diagnostics => "Diagnostics"@,
            PageId::Report => "Report"@,
        }
    }

    /// The page's title-bar label.
    pub fn label(self) -> (s: &'static str)
        ensures
            s@ == self.spec_label(),
    {
        match self {
            PageId::ScanProgress => "Scan",
            PageId::Findings => "Findings",
            PageId::FindingDetail => "Detail",
            PageId::Flows => "Flows",
            PageId::Diagnostics => "Diagnostics",
            PageId::Report => "Report",
        }
    }
}

/// What a panel or the global keymap asks the application to do.
#[derive(Debug, PartialEq, Eq)]
pub enum Action {
    NextPanel,
    PrevPanel,
    Page(PageId),
    Quit,
    Move(MoveDirection),
    Enter,
    ClearFilter,
    Other(String),
}

impl Clone for Action {
    fn clone(&self) -> (r: Self)
        ensures
            r@ == self@,
    {
        match self {
            Action::NextPanel => Action::NextPanel,
            Action::PrevPanel => Action::PrevPanel,
            Action::Page(p) => Action::Page(*p),
            Action::Quit => Action::Quit,
            Action::Move(d) => Action::Move(*d),
            Action::Enter => Action::Enter,
            Action::ClearFilter => Action::ClearFilter,
            Action::Other(s) => Action::Other(s.clone()),
        }
    }
}

/// An [`Action`] with its payload text as a character sequence.
pub enum ActionView {
    NextPanel,
    PrevPanel,
    Page(PageId),
    Quit,
    Move(MoveDirection),
    Enter,
    ClearFilter,
    Other(Seq<char>),
}

impl View for Action {
    type V = ActionView;

    open spec fn view(&self) -> ActionView {
        match self {
            Action::NextPanel => ActionView::NextPanel,
            Action::PrevPanel => ActionView::PrevPanel,
            Action::Page(p) => ActionView::Page(*p),
            Action::Quit => ActionView::Quit,
            Action::Move(d) => ActionView::Move(*d),
            Action::Enter => ActionView::Enter,
            Action::ClearFilter => ActionView::ClearFilter,
            Action::Other(s) => ActionView::Other(s@),
        }
    }
}

/// A movement key of a list panel (`j`/`k` and the arrows).
pub open spec fn spec_list_key(k: Key) -> Option<MoveDirection> {
    match k {
        Key::Char(c) => if c == 'j' {
            Some(MoveDirection::Down)
        } else if c == 'k' {
            Some(MoveDirection::Up)
        } else {
            None
        },
        Key::Down => Some(MoveDirection::Down),
        Key::Up => Some(MoveDirection::Up),
        _ => None,
    }
}

/// A movement key of a scrolling panel: the list keys, the page keys,
/// `Home` and `End`.
pub open spec fn spec_scroll_key(k: Key) -> Option<MoveDirection> {
    match k {
        Key::PageDown => Some(MoveDirection::PageDown),
        Key::PageUp => Some(MoveDirection::PageUp),
        Key::Home => Some(MoveDirection::Home),
        Key::End => Some(MoveDirection::End),
        _ => spec_list_key(k),
    }
}

fn list_key(k: Key) -> (r: Option<MoveDirection>)
    ensures
        r == spec_list_key(k),
{
    match k {
        Key::Char(c) => if c == 'j' {
            Some(MoveDirection::Down)
        } else if c == 'k' {
            Some(MoveDirection::Up)
        } else {
            None
        },
        Key::Down => Some(MoveDirection::Down),
        Key::Up => Some(MoveDirection::Up),
        _ => None,
    }
}

fn scroll_key(k: Key) -> (r: Option<MoveDirection>)
    ensures
        r == spec_scroll_key(k),
{
    match k {
        Key::PageDown => Some(MoveDirection::PageDown),
        Key::PageUp => Some(MoveDirection::PageUp),
        Key::Home => Some(MoveDirection::Home),
        Key::End => Some(MoveDirection::End),
        _ => list_key(k),
    }
}

fn move_action(d: Option<MoveDirection>) -> (r: Option<Action>)
    ensures
        match d {
            Some(m) => r matches Some(Action::Move(x)) && x == m,
            None => r is None,
        },
{
    match d {
        Some(m) => Some(Action::Move(m)),
        None => None,
    }
}

/// The findings table.
#[derive(Debug, Default)]
pub struct FindingsTableComponent;

impl FindingsTableComponent {
    /// Movement keys scroll the table; `Enter` opens the highlighted
    /// finding; every other event is ignored.
    pub fn handle_event(&self, event: &Event) -> (r: Option<Action>)
        ensures
            match *event {
                Event::Key(Key::Enter) => r == Some(Action::Enter),
                Event::Key(k) => match spec_scroll_key(k) {
                    Some(m) => r matches Some(Action::Move(x)) && x == m,
                    None => r is None,
                },
                _ => r is None,
            },
    {
        match event {
            Event::Key(Key::Enter) => Some(Action::Enter),
            Event::Key(k) => move_action(scroll_key(*k)),
            _ => None,
        }
    }
}

/// The findings row a move selects among `count > 0` rows, with the page
/// keys of the findings table, kept within the rows.
pub open spec fn clamped_move(cur: usize, dir: MoveDirection, count: usize) -> usize {
    let next = crate::tui::app::move_target(cur, count, dir, PageId::Findings);
    if next < count { next } else { (count - 1) as usize }
}

/// Moves the findings selection of `sel` among `count` rows, clamped to
/// the last row; with no rows nothing changes. The other selections stay.
pub fn apply_move(sel: &mut crate::tui::state::Selections, dir: MoveDirection, count: usize)
    ensures
        count == 0 ==> *final(sel) == *old(sel),
        count > 0 ==> *final(sel) == (crate::tui::state::Selections {
            finding_index: clamped_move(old(sel).finding_index, dir, count),
            ..*old(sel)
        }),
{
    if count == 0 {
        return;
    }
    let cur = sel.finding_index;
    let next = match dir {
        MoveDirection::Up => if cur >= 1 { cur - 1 } else { 0 },
        MoveDirection::Down => if count >= 2 && cur < count - 2 { cur + 1 } else { count - 1 },
        MoveDirection::PageUp => if cur >= 8 { cur - 8 } else { 0 },
        MoveDirection::PageDown => if count >= 9 && cur < count - 9 { cur + 8 } else { count - 1 },
        MoveDirection::Home => 0,
        MoveDirection::End => count - 1,
    };
    sel.finding_index = if next < count { next } else { count - 1 };
}

/// The detail view of the highlighted finding.
#[derive(Debug, Default)]
pub struct FindingDetailComponent;

impl FindingDetailComponent {
    /// Movement keys flip through the findings; every other event is
    /// ignored.
    pub fn handle_event(&self, event: &Event) -> (r: Option<Action>)
        ensures
            match *event {
                Event::Key(k) => match spec_scroll_key(k) {
                    Some(m) => r matches Some(Action::Move(x)) && x == m,
                    None => r is None,
                },
                _ => r is None,
            },
    {
        match event {
            Event::Key(k) => move_action(scroll_key(*k)),
            _ => None,
        }
    }
}

/// The flow tree.
#[derive(Debug, Default)]
pub struct FlowTreeComponent;

impl FlowTreeComponent {
    /// `j`/`k` and the arrows move; every other event is ignored.
    pub fn handle_event(&self, event: &Event) -> (r: Option<Action>)
        ensures
            match *event {
                Event::Key(k) => match spec_list_key(k) {
                    Some(m) => r matches Some(Action::Move(x)) && x == m,
                    None => r is None,
                },
                _ => r is None,
            },
    {
        match event {
            Event::Key(k) => move_action(list_key(*k)),
            _ => None,
        }
    }
}

/// The diagnostics list.
#[derive(Debug, Default)]
pub struct DiagnosticsComponent;

impl DiagnosticsComponent {
    /// `j`/`k` and the arrows move; every other event is ignored.
    pub fn handle_event(&self, event: &Event) -> (r: Option<Action>)
        ensures
            match *event {
                Event::Key(k) => match spec_list_key(k) {
                    Some(m) => r matches Some(Action::Move(x)) && x == m,
                    None => r is None,
                },
                _ => r is None,
            },
    {
        match event {
            Event::Key(k) => move_action(list_key(*k)),
            _ => None,
        }
    }
}

/// The title bar.
#[derive(Debug, Default)]
pub struct HeaderComponent;

/// The project summary panel.
#[derive(Debug, Default)]
pub struct ProjectSummaryComponent;

/// The progress panel.
#[derive(Debug, Default)]
pub struct ProgressComponent;

/// The key-help footer.
#[derive(Debug, Default)]
pub struct FooterHelpComponent;

/// The report page.
#[derive(Debug, Default)]
pub struct ReportPageComponent;

impl HeaderComponent {
    /// The title bar consumes no event.
    pub fn handle_event(&self, event: &Event) -> (r: Option<Action>)
        ensures
            r is None,
    {
        None
    }
}

impl ProgressComponent {
    /// The progress panel consumes no event.
    pub fn handle_event(&self, event: &Event) -> (r: Option<Action>)
        ensures
            r is None,
    {
        None
    }
}

impl FooterHelpComponent {
    /// The footer consumes no event.
    pub fn handle_event(&self, event: &Event) -> (r: Option<Action>)
        ensures
            r is None,
    {
        None
    }
}

impl ReportPageComponent {
    /// The report page consumes no event.
    pub fn handle_event(&self, event: &Event) -> (r: Option<Action>)
        ensures
            r is None,
    {
        None
    }
}

} // verus!
