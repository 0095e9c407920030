//! Application state shared by every panel: progress counters, the
//! findings list and its filtered view, selections, page and focus.

use vstd::prelude::*;
use crate::engine::regex_support::{regex_compile_error, regex_is_match, Pattern};
use crate::model::{clone_findings, finding_views, findings_eq, Diagnostic, Finding, FindingView};
use crate::scan::{ReportFormat, ScanEvent, ScanSummary};
use crate::text::{chars_of, contains, contains_seq, decimal, occurs_at, push_str, push_u64};
use crate::tui::component::PageId;

verus! {

/// Stage of the scan the progress panel shows.
#[derive(Debug, Clone, Copy, PartialEq, Eq, Structural)]
pub enum Stage {
    Idle,
    Discovery,
    Parse,
    Rules,
    Ai,
    Reports,
    Done,
}

impl Default for Stage {
    fn default() -> (s: Self)
        ensures
            s == Stage::Idle,
    {
        Stage::Idle
    }
}

impl Stage {
    pub open spec fn spec_label(self) -> Seq<char> {
        match self {
            Stage::Idle => "idle"@,
            Stage::Discovery => "discover"@,
            Stage::Parse => "parse"@,
            Stage::Rules => "rules"@,
            Stage::Ai => "ai"@,
            Stage::Reports => "reports"@,
            Stage::Done => "done"@,
        }
    }

    /// Short lower-case label.
    pub fn label(self) -> (s: &'static str)
        ensures
            s@ == self.spec_label(),
    {
        match self {
            Stage::Idle => "idle",
            Stage::Discovery => "discover",
            Stage::Parse => "parse",
            Stage::Rules => "rules",
            Stage::Ai => "ai",
            Stage::Reports => "reports",
            Stage::Done => "done",
        }
    }
}

/// Progress counters derived from the scan events.
#[derive(Debug)]
pub struct ProgressCounters {
    pub project: Option<String>,
    pub stage: Stage,
    pub current_file: Option<String>,
    pub parsed_flows: usize,
    pub rules_loaded: usize,
    pub rules_completed: usize,
    pub finding_count: usize,
    pub ai_findings: usize,
    pub last_event: Option<String>,
}

impl Default for ProgressCounters {
    fn default() -> (p: Self)
        ensures
            p.project is None,
            p.stage == Stage::Idle,
            p.current_file is None,
            p.parsed_flows == 0,
            p.rules_loaded == 0,
            p.rules_completed == 0,
            p.finding_count == 0,
            p.ai_findings == 0,
            p.last_event is None,
    {
        ProgressCounters {
            project: None,
            stage: Stage::Idle,
            current_file: None,
            parsed_flows: 0,
            rules_loaded: 0,
            rules_completed: 0,
            finding_count: 0,
            ai_findings: 0,
            last_event: None,
        }
    }
}

/// The three panels of a page.
#[derive(Debug, Clone, Copy, PartialEq, Eq, Structural)]
pub enum PanelId {
    Header,
    Body,
    Footer,
}

impl Default for PanelId {
    fn default() -> (p: Self)
        ensures
            p == PanelId::Body,
    {
        PanelId::Body
    }
}

/// Direction of a focus cycle.
#[derive(Debug, Clone, Copy, PartialEq, Eq, Structural)]
pub enum Cycle {
    Forward,
    Backward,
}

impl Cycle {
    pub open spec fn spec_step(self) -> int {
        match self {
            Cycle::Forward => 1,
            Cycle::Backward => -1,
        }
    }

    /// `1` forward, `-1` backward.
    pub fn step(self) -> (s: i32)
        ensures
            s == self.spec_step(),
    {
        match self {
            Cycle::Forward => 1,
            Cycle::Backward => -1,
        }
    }
}

/// Position of a panel in the focus order header, body, footer.
pub open spec fn panel_index(p: PanelId) -> int {
    match p {
        PanelId::Header => 0,
        PanelId::Body => 1,
        PanelId::Footer => 2,
    }
}

/// The panel at a position of the focus order.
pub open spec fn panel_at(i: int) -> PanelId {
    if i == 0 {
        PanelId::Header
    } else if i == 1 {
        PanelId::Body
    } else {
        PanelId::Footer
    }
}

/// The next panel in direction `dir`, wrapping at both ends.
pub open spec fn spec_cycle(p: PanelId, dir: Cycle) -> PanelId {
    let next = panel_index(p) + dir.spec_step();
    if next < 0 {
        panel_at(2)
    } else if next >= 3 {
        panel_at(0)
    } else {
        panel_at(next)
    }
}

impl PanelId {
    /// Every panel, in focus order.
    pub fn all() -> (v: Vec<PanelId>)
        ensures
            v@ == seq![PanelId::Header, PanelId::Body, PanelId::Footer],
    {
        let mut v = Vec::new();
        v.push(PanelId::Header);
        v.push(PanelId::Body);
        v.push(PanelId::Footer);
        v
    }

    /// The panel that takes the focus next in direction `dir`; past the
    /// last panel the cycle starts again at the first, and before the
    /// first it continues at the last.
    pub fn cycle(self, dir: Cycle) -> (r: PanelId)
        ensures
            r == spec_cycle(self, dir),
    {
        let all = PanelId::all();
        let mut idx: usize = 0;
        while idx < all.len()
            invariant
                all@ == seq![PanelId::Header, PanelId::Body, PanelId::Footer],
                idx <= all.len(),
                forall|k: int| 0 <= k < idx ==> all@[k] != self,
            ensures
                idx < 3,
                all@[idx as int] == self,
            decreases all.len() - idx,
        {
            if all[idx] == self {
                break;
            }
            idx = idx + 1;
            if idx == all.len() {
                assert(all@[panel_index(self)] == self);
            }
        }
        assert(idx as int == panel_index(self));
        let n: i32 = 3;
        let mut next: i32 = idx as i32 + dir.step();
        if next < 0 {
            next = n - 1;
        } else if next >= n {
            next = 0;
        }
        all[next as usize]
    }
}

/// Cycling the focus forward and then backward (or backward, then
/// forward) returns to the panel it started from; a single step always
/// moves the focus, and three steps in one direction come full circle.
pub proof fn law_panel_cycle_round_trip(p: PanelId, dir: Cycle)
    ensures
        spec_cycle(spec_cycle(p, Cycle::Forward), Cycle::Backward) == p,
        spec_cycle(spec_cycle(p, Cycle::Backward), Cycle::Forward) == p,
        spec_cycle(p, dir) != p,
        spec_cycle(spec_cycle(spec_cycle(p, dir), dir), dir) == p,
{
}

/// Selected row and scroll offset of each list panel.
#[derive(Debug, Clone, Copy, PartialEq, Eq, Structural)]
pub struct Selections {
    pub finding_index: usize,
    pub finding_offset: usize,
    pub flow_index: usize,
    pub flow_offset: usize,
    pub diagnostic_index: usize,
    pub diagnostic_offset: usize,
    pub report_index: usize,
    pub report_offset: usize,
}

/// Every row at the top and selected.
pub open spec fn no_selection() -> Selections {
    Selections {
        finding_index: 0,
        finding_offset: 0,
        flow_index: 0,
        flow_offset: 0,
        diagnostic_index: 0,
        diagnostic_offset: 0,
        report_index: 0,
        report_offset: 0,
    }
}

impl Default for Selections {
    fn default() -> (s: Self)
        ensures
            s == no_selection(),
    {
        Selections {
            finding_index: 0,
            finding_offset: 0,
            flow_index: 0,
            flow_offset: 0,
            diagnostic_index: 0,
            diagnostic_offset: 0,
            report_index: 0,
            report_offset: 0,
        }
    }
}

/// Whole-application state.
#[derive(Debug)]
pub struct AppState {
    pub progress: ProgressCounters,
    /// The authoritative findings list (never filtered).
    pub findings: Vec<Finding>,
    /// The findings the active filter lets through.
    pub visible_findings: Vec<Finding>,
    pub diagnostics: Vec<Diagnostic>,
    pub report_paths: Vec<String>,
    pub artifact_paths: Vec<String>,
    pub summary: Option<ScanSummary>,
    pub current_page: PageId,
    pub focused_panel: PanelId,
    pub selections: Selections,
    /// The applied filter pattern; `None` shows everything.
    pub filter: Option<String>,
    /// True while the user types a new filter pattern.
    pub filter_mode: bool,
    /// The pattern being typed.
    pub filter_input: String,
    pub running: bool,
    pub config_path: Option<String>,
    /// Data rows the findings table showed on its last render.
    pub findings_viewport_rows: usize,
}

/// The state of an application that has seen nothing yet.
pub open spec fn is_fresh(s: AppState) -> bool {
    &&& s.progress.project is None
    &&& s.progress.stage == Stage::Idle
    &&& s.progress.current_file is None
    &&& s.progress.parsed_flows == 0
    &&& s.progress.rules_loaded == 0
    &&& s.progress.rules_completed == 0
    &&& s.progress.finding_count == 0
    &&& s.progress.ai_findings == 0
    &&& s.progress.last_event is None
    &&& s.findings@.len() == 0
    &&& s.visible_findings@.len() == 0
    &&& s.diagnostics@.len() == 0
    &&& s.report_paths@.len() == 0
    &&& s.artifact_paths@.len() == 0
    &&& s.summary is None
    &&& s.current_page == PageId::ScanProgress
    &&& s.focused_panel == PanelId::Body
    &&& s.selections == no_selection()
    &&& s.filter is None
    &&& !s.filter_mode
    &&& s.filter_input@.len() == 0
    &&& !s.running
    &&& s.config_path is None
    &&& s.findings_viewport_rows == 0
}

impl Default for AppState {
    fn default() -> (s: Self)
        ensures
            is_fresh(s),
    {
        AppState {
            progress: ProgressCounters::default(),
            findings: Vec::new(),
            visible_findings: Vec::new(),
            diagnostics: Vec::new(),
            report_paths: Vec::new(),
            artifact_paths: Vec::new(),
            summary: None,
            current_page: PageId::ScanProgress,
            focused_panel: PanelId::Body,
            selections: Selections::default(),
            filter: None,
            filter_mode: false,
            filter_input: String::new(),
            running: false,
            config_path: None,
            findings_viewport_rows: 0,
        }
    }
}

/// The entity id of a finding, or the empty text.
pub open spec fn entity_text(f: FindingView) -> Seq<char> {
    match f.entity_id {
        Some(e) => e,
        None => Seq::empty(),
    }
}

/// A finding passes the filter `pattern` when the pattern occurs in its
/// rule id, message or entity id as plain text, or matches its rule id or
/// message as a regular expression.
pub open spec fn finding_matches(f: FindingView, pattern: Seq<char>) -> bool {
    contains_seq(f.rule_id, pattern) || contains_seq(f.message, pattern) || contains_seq(
        entity_text(f),
        pattern,
    ) || regex_is_match(pattern, f.rule_id) || regex_is_match(pattern, f.message)
}

/// The findings of `fs` that pass `pattern`, in order.
pub open spec fn filter_findings(fs: Seq<FindingView>, pattern: Seq<char>) -> Seq<FindingView>
    decreases fs.len(),
{
    if fs.len() == 0 {
        Seq::empty()
    } else {
        let rest = filter_findings(fs.drop_last(), pattern);
        if finding_matches(fs.last(), pattern) {
            rest.push(fs.last())
        } else {
            rest
        }
    }
}

pub proof fn lemma_filter_findings_len(fs: Seq<FindingView>, pattern: Seq<char>)
    ensures
        filter_findings(fs, pattern).len() <= fs.len(),
    decreases fs.len(),
{
    if fs.len() > 0 {
        lemma_filter_findings_len(fs.drop_last(), pattern);
    }
}

/// The visible findings for a filter: those that pass it when it
/// compiles, all of them when there is no filter or it does not compile.
pub open spec fn visible_for(fs: Seq<FindingView>, filter: Option<Seq<char>>) -> Seq<FindingView> {
    match filter {
        Some(p) => if regex_compile_error(p) is None {
            filter_findings(fs, p)
        } else {
            fs
        },
        None => fs,
    }
}

pub open spec fn opt_text(o: Option<String>) -> Option<Seq<char>> {
    match o {
        Some(s) => Some(s@),
        None => None,
    }
}

/// Whether `f` passes the filter `pattern` compiled as `re`.
fn keeps(f: &Finding, pattern: &str, re: &Pattern) -> (b: bool)
    requires
        re.source_view() == pattern@,
    ensures
        b == finding_matches(f@, pattern@),
{
    let p = chars_of(pattern);
    let rule = chars_of(f.rule_id.as_str());
    let msg = chars_of(f.message.as_str());
    let entity = match &f.entity_id {
        Some(e) => chars_of(e.as_str()),
        None => Vec::new(),
    };
    assert(entity@ == entity_text(f@));
    contains(rule.as_slice(), p.as_slice()) || contains(msg.as_slice(), p.as_slice()) || contains(
        entity.as_slice(),
        p.as_slice(),
    ) || re.is_match(f.rule_id.as_str()) || re.is_match(f.message.as_str())
}

/// The findings of `fs` that pass `pattern` compiled as `re`.
fn filtered(fs: &Vec<Finding>, pattern: &str, re: &Pattern) -> (r: Vec<Finding>)
    requires
        re.source_view() == pattern@,
    ensures
        finding_views(r@) == filter_findings(finding_views(fs@), pattern@),
{
    let mut out: Vec<Finding> = Vec::new();
    let mut i: usize = 0;
    while i < fs.len()
        invariant
            re.source_view() == pattern@,
            i <= fs.len(),
            finding_views(out@) == filter_findings(finding_views(fs@.subrange(0, i as int)), pattern@),
        decreases fs.len() - i,
    {
        let ghost prefix = finding_views(fs@.subrange(0, i as int + 1));
        proof {
            assert(prefix.drop_last() =~= finding_views(fs@.subrange(0, i as int)));
            assert(prefix.last() == fs@[i as int]@);
        }
        if keeps(&fs[i], pattern, re) {
            out.push(fs[i].clone());
            assert(finding_views(out@) =~= filter_findings(prefix, pattern@));
        }
        i = i + 1;
    }
    assert(fs@.subrange(0, fs@.len() as int) =~= fs@);
    out
}

/// The progress line an event leaves behind.
pub open spec fn event_text(e: ScanEvent) -> Seq<char> {
    match e {
        ScanEvent::Started { project } => "started: "@ + project@,
        ScanEvent::ConfigLoaded { config_path } => "config loaded: "@ + config_path@,
        ScanEvent::FileDiscovered { path } => "file: "@ + path@,
        ScanEvent::RulesLoaded { rule_count } => "rules: "@ + decimal(rule_count as nat),
        ScanEvent::XmlParsed { path, flows } => "parsed "@ + decimal(flows as nat) + " flow(s): "@
            + path@,
        ScanEvent::FlowArtifactWritten { flow_id, path } => "artifact "@ + flow_id@ + ": "@ + path@,
        ScanEvent::RuleStarted { rule_id } => "rule start: "@ + rule_id@,
        ScanEvent::Finding(f) => "finding: "@ + f.rule_id@ + " ("@ + f.severity.spec_as_str()
            + ")"@,
        ScanEvent::RuleCompleted { rule_id, findings } => "rule "@ + rule_id@ + " produced "@
            + decimal(findings as nat) + " finding(s)"@,
        ScanEvent::AiStarted => "ai started"@,
        ScanEvent::AiCompleted { findings } => "ai done: "@ + decimal(findings as nat),
        ScanEvent::ReportWritten { format, path } => "report "@ + format.spec_name() + ": "@
            + path@,
        ScanEvent::Warning { diagnostic } => "warning: "@ + diagnostic.message@,
        ScanEvent::Finished { .. } => "finished"@,
    }
}

fn event_line(event: &ScanEvent) -> (s: String)
    ensures
        s@ == event_text(*event),
{
    let mut s = String::new();
    match event {
        ScanEvent::Started { project } => {
            push_str(&mut s, "started: ");
            push_str(&mut s, project.as_str());
        },
        ScanEvent::ConfigLoaded { config_path } => {
            push_str(&mut s, "config loaded: ");
            push_str(&mut s, config_path.as_str());
        },
        ScanEvent::FileDiscovered { path } => {
            push_str(&mut s, "file: ");
            push_str(&mut s, path.as_str());
        },
        ScanEvent::RulesLoaded { rule_count } => {
            push_str(&mut s, "rules: ");
            push_u64(&mut s, *rule_count as u64);
        },
        ScanEvent::XmlParsed { path, flows } => {
            push_str(&mut s, "parsed ");
            push_u64(&mut s, *flows as u64);
            push_str(&mut s, " flow(s): ");
            push_str(&mut s, path.as_str());
        },
        ScanEvent::FlowArtifactWritten { flow_id, path } => {
            push_str(&mut s, "artifact ");
            push_str(&mut s, flow_id.as_str());
            push_str(&mut s, ": ");
            push_str(&mut s, path.as_str());
        },
        ScanEvent::RuleStarted { rule_id } => {
            push_str(&mut s, "rule start: ");
            push_str(&mut s, rule_id.as_str());
        },
        ScanEvent::Finding(f) => {
            push_str(&mut s, "finding: ");
            push_str(&mut s, f.rule_id.as_str());
            push_str(&mut s, " (");
            push_str(&mut s, f.severity.as_str());
            push_str(&mut s, ")");
        },
        ScanEvent::RuleCompleted { rule_id, findings } => {
            push_str(&mut s, "rule ");
            push_str(&mut s, rule_id.as_str());
            push_str(&mut s, " produced ");
            push_u64(&mut s, *findings as u64);
            push_str(&mut s, " finding(s)");
        },
        ScanEvent::AiStarted => {
            push_str(&mut s, "ai started");
        },
        ScanEvent::AiCompleted { findings } => {
            push_str(&mut s, "ai done: ");
            push_u64(&mut s, *findings as u64);
        },
        ScanEvent::ReportWritten { format, path } => {
            push_str(&mut s, "report ");
            push_str(&mut s, format.name());
            push_str(&mut s, ": ");
            push_str(&mut s, path.as_str());
        },
        ScanEvent::Warning { diagnostic } => {
            push_str(&mut s, "warning: ");
            push_str(&mut s, diagnostic.message.as_str());
        },
        ScanEvent::Finished { .. } => {
            push_str(&mut s, "finished");
        },
    }
    s
}

/// Whether the counters can absorb `e` without overflowing.
pub open spec fn event_fits(s: AppState, e: ScanEvent) -> bool {
    match e {
        ScanEvent::XmlParsed { flows, .. } => s.progress.parsed_flows + flows <= usize::MAX,
        ScanEvent::RuleCompleted { .. } => s.progress.rules_completed + 1 <= usize::MAX,
        _ => true,
    }
}

/// The selection index or scroll offset `i` pulled back into `n` rows.
pub open spec fn clamp_into(i: usize, n: int) -> usize {
    if i >= n {
        if n == 0 { 0 } else { (n - 1) as usize }
    } else {
        i
    }
}

/// `new` is `old` with the filter `pattern` applied, and `changed` says
/// whether the rows shown changed. A pattern that does not
/// compile changes nothing.
pub open spec fn filter_applied(old: AppState, pattern: Seq<char>, new: AppState, changed: bool) -> bool {
    if regex_compile_error(pattern) is Some {
        !changed && new == old
    } else {
        let n = new.visible_findings@.len() as int;
        &&& new.filter matches Some(p) && p@ == pattern
        &&& finding_views(new.visible_findings@) == filter_findings(finding_views(old.findings@), pattern)
        &&& new.selections == Selections {
            finding_index: clamp_into(old.selections.finding_index, n),
            finding_offset: clamp_into(old.selections.finding_offset, n),
            ..old.selections
        }
        &&& changed == (finding_views(old.visible_findings@) != finding_views(new.visible_findings@))
        &&& new == AppState {
            filter: new.filter,
            visible_findings: new.visible_findings,
            selections: new.selections,
            ..old
        }
    }
}

/// `new` is `old` without its filter, showing every finding.
pub open spec fn filter_cleared(old: AppState, new: AppState) -> bool {
    &&& finding_views(new.visible_findings@) == finding_views(new.findings@)
    &&& new == AppState { filter: None, visible_findings: new.visible_findings, ..old }
}

/// Every finding a filter lets through passes it, none is added, and
/// the order is kept: the result is a subsequence of the input.
pub proof fn law_filter_only_narrows(fs: Seq<FindingView>, pattern: Seq<char>)
    ensures
        filter_findings(fs, pattern).len() <= fs.len(),
        forall|i: int| 0 <= i < filter_findings(fs, pattern).len() ==> finding_matches(
            #[trigger] filter_findings(fs, pattern)[i],
            pattern,
        ) && fs.contains(filter_findings(fs, pattern)[i]),
        forall|i: int| 0 <= i < fs.len() && finding_matches(fs[i], pattern) ==> #[trigger] filter_findings(
            fs,
            pattern,
        ).contains(fs[i]),
    decreases fs.len(),
{
    if fs.len() > 0 {
        let rest = fs.drop_last();
        law_filter_only_narrows(rest, pattern);
        let r = filter_findings(rest, pattern);
        assert forall|i: int| 0 <= i < filter_findings(fs, pattern).len() implies finding_matches(
            #[trigger] filter_findings(fs, pattern)[i],
            pattern,
        ) && fs.contains(filter_findings(fs, pattern)[i]) by {
            if i < r.len() {
                let k = choose|k: int| 0 <= k < rest.len() && rest[k] == r[i];
                assert(fs[k] == rest[k]);
            } else {
                assert(fs[fs.len() - 1] == fs.last());
            }
        }
        assert forall|i: int| 0 <= i < fs.len() && finding_matches(fs[i], pattern) implies #[trigger] filter_findings(
            fs,
            pattern,
        ).contains(fs[i]) by {
            if i < fs.len() - 1 {
                assert(rest[i] == fs[i]);
                assert(r.contains(fs[i]));
                let k = choose|k: int| 0 <= k < r.len() && r[k] == fs[i];
                assert(filter_findings(fs, pattern)[k] == fs[i]);
            } else {
                assert(filter_findings(fs, pattern)[r.len() as int] == fs[i]);
            }
        }
    }
}

/// Under a filter whose pattern compiles, every finding whose rule id,
/// message or entity id holds the pattern as plain text, at any position,
/// stays visible.
pub proof fn law_filter_keeps_plain_text_matches(old: AppState, pattern: Seq<char>, new: AppState, changed: bool, i: int)
    requires
        filter_applied(old, pattern, new, changed),
        regex_compile_error(pattern) is None,
        0 <= i < old.findings@.len(),
        ({
            let f = old.findings@[i]@;
            ||| exists|k: int| 0 <= k && k + pattern.len() <= f.rule_id.len() && #[trigger] f.rule_id.subrange(k, k + pattern.len()) == pattern
            ||| exists|k: int| 0 <= k && k + pattern.len() <= f.message.len() && #[trigger] f.message.subrange(k, k + pattern.len()) == pattern
            ||| f.entity_id matches Some(e) && exists|k: int| 0 <= k && k + pattern.len() <= e.len() && #[trigger] e.subrange(k, k + pattern.len()) == pattern
        }),
    ensures
        finding_views(new.visible_findings@).contains(old.findings@[i]@),
{
    let fs = finding_views(old.findings@);
    let f = old.findings@[i]@;
    assert(fs[i] == f);
    if exists|k: int| 0 <= k && k + pattern.len() <= f.rule_id.len() && #[trigger] f.rule_id.subrange(k, k + pattern.len()) == pattern {
        let k = choose|k: int| 0 <= k && k + pattern.len() <= f.rule_id.len() && #[trigger] f.rule_id.subrange(k, k + pattern.len()) == pattern;
        assert(occurs_at(f.rule_id, pattern, k));
    } else if exists|k: int| 0 <= k && k + pattern.len() <= f.message.len() && #[trigger] f.message.subrange(k, k + pattern.len()) == pattern {
        let k = choose|k: int| 0 <= k && k + pattern.len() <= f.message.len() && #[trigger] f.message.subrange(k, k + pattern.len()) == pattern;
        assert(occurs_at(f.message, pattern, k));
    } else {
        let e = f.entity_id->Some_0;
        let k = choose|k: int| 0 <= k && k + pattern.len() <= e.len() && #[trigger] e.subrange(k, k + pattern.len()) == pattern;
        assert(occurs_at(entity_text(f), pattern, k));
    }
    assert(finding_matches(fs[i], pattern));
    law_filter_only_narrows(fs, pattern);
}

/// Applying a filter and then clearing it shows every finding again, and
/// the findings list itself is the same throughout.
pub proof fn law_clear_restores_filtered_view(
    s0: AppState,
    pattern: Seq<char>,
    s1: AppState,
    changed: bool,
    s2: AppState,
)
    requires
        filter_applied(s0, pattern, s1, changed),
        filter_cleared(s1, s2),
    ensures
        s1.findings == s0.findings,
        s2.findings == s0.findings,
        s2.filter is None,
        finding_views(s2.visible_findings@) == finding_views(s0.findings@),
{
}

impl AppState {
    /// The visible findings `recompute_visible` derives from the
    /// findings and the filter.
    pub open spec fn derived_visible(&self) -> Seq<FindingView> {
        visible_for(finding_views(self.findings@), opt_text(self.filter))
    }

    /// Recomputes the visible findings from the findings and the filter.
    fn recompute_visible(&mut self)
        ensures
            finding_views(final(self).visible_findings@) == old(self).derived_visible(),
            *final(self) == (AppState { visible_findings: final(self).visible_findings, ..*old(self) }),
    {
        let visible = match &self.filter {
            Some(pat) => match Pattern::new(pat.as_str()) {
                Ok(re) => filtered(&self.findings, pat.as_str(), &re),
                Err(_) => clone_findings(self.findings.as_slice()),
            },
            None => clone_findings(self.findings.as_slice()),
        };
        self.visible_findings = visible;
    }

    /// Replaces the findings list and refreshes the visible findings;
    /// a selection past the end of a non-empty view moves to its last row.
    pub fn set_findings(&mut self, findings: Vec<Finding>)
        ensures
            final(self).findings == findings,
            final(self).progress.finding_count == findings@.len(),
            finding_views(final(self).visible_findings@) == final(self).derived_visible(),
            final(self).selections == if old(self).selections.finding_index
                >= final(self).visible_findings@.len() && final(self).visible_findings@.len() > 0 {
                Selections {
                    finding_index: (final(self).visible_findings@.len() - 1) as usize,
                    ..old(self).selections
                }
            } else {
                old(self).selections
            },
            *final(self) == (AppState {
                findings: final(self).findings,
                visible_findings: final(self).visible_findings,
                selections: final(self).selections,
                progress: ProgressCounters {
                    finding_count: final(self).progress.finding_count,
                    ..old(self).progress
                },
                ..*old(self)
            }),
    {
        self.findings = findings;
        self.progress.finding_count = self.findings.len();
        self.recompute_visible();
        if self.selections.finding_index >= self.visible_findings.len()
            && self.visible_findings.len() > 0 {
            self.selections.finding_index = self.visible_findings.len() - 1;
        }
    }

    /// Narrows the visible findings to those that pass `pattern`; the
    /// findings list itself is left alone. A pattern that does not compile
    /// as a regular expression changes nothing. Otherwise the selection and
    /// the scroll offset are pulled back into the new view, and the result
    /// says whether the rows shown changed.
    pub fn apply_filter(&mut self, pattern: &str) -> (changed: bool)
        ensures
            filter_applied(*old(self), pattern@, *final(self), changed),
    {
        let re = match Pattern::new(pattern) {
            Ok(r) => r,
            Err(_) => return false,
        };
        self.filter = Some(pattern.to_owned());
        let visible = filtered(&self.findings, pattern, &re);
        let changed = !findings_eq(self.visible_findings.as_slice(), visible.as_slice());
        self.visible_findings = visible;
        let n = self.visible_findings.len();
        if self.selections.finding_index >= n {
            self.selections.finding_index = if n == 0 { 0 } else { n - 1 };
        }
        if self.selections.finding_offset >= n {
            self.selections.finding_offset = if n == 0 { 0 } else { n - 1 };
        }
        changed
    }

    /// Drops the filter and shows every finding again.
    pub fn clear_filter(&mut self)
        ensures
            filter_cleared(*old(self), *final(self)),
    {
        self.filter = None;
        self.visible_findings = clone_findings(self.findings.as_slice());
    }

    /// The selected row of the visible findings, if the selection is on one.
    pub fn highlighted_finding(&self) -> (r: Option<&Finding>)
        ensures
            r == if self.selections.finding_index < self.visible_findings@.len() {
                Some(&self.visible_findings@[self.selections.finding_index as int])
            } else {
                None
            },
    {
        if self.selections.finding_index < self.visible_findings.len() {
            Some(&self.visible_findings[self.selections.finding_index])
        } else {
            None
        }
    }

    /// Folds one scan event into the state. Every event leaves its
    /// progress line behind; the findings list only ever grows.
    pub fn apply_event(&mut self, event: ScanEvent)
        requires
            event_fits(*old(self), event),
        ensures
            final(self).progress.last_event matches Some(t) && t@ == event_text(event),
            match event {
                ScanEvent::Started { project } => *final(self) == (AppState {
                    running: true,
                    progress: ProgressCounters {
                        project: Some(project),
                        stage: Stage::Discovery,
                        last_event: final(self).progress.last_event,
                        ..old(self).progress
                    },
                    ..*old(self)
                }),
                ScanEvent::ConfigLoaded { config_path } => *final(self) == (AppState {
                    config_path: Some(config_path),
                    progress: ProgressCounters {
                        last_event: final(self).progress.last_event,
                        ..old(self).progress
                    },
                    ..*old(self)
                }),
                ScanEvent::FileDiscovered { path } => *final(self) == (AppState {
                    progress: ProgressCounters {
                        current_file: Some(path),
                        stage: Stage::Discovery,
                        last_event: final(self).progress.last_event,
                        ..old(self).progress
                    },
                    ..*old(self)
                }),
                ScanEvent::RulesLoaded { rule_count } => *final(self) == (AppState {
                    progress: ProgressCounters {
                        rules_loaded: rule_count,
                        stage: Stage::Rules,
                        last_event: final(self).progress.last_event,
                        ..old(self).progress
                    },
                    ..*old(self)
                }),
                ScanEvent::XmlParsed { flows, .. } => *final(self) == (AppState {
                    progress: ProgressCounters {
                        parsed_flows: (old(self).progress.parsed_flows + flows) as usize,
                        stage: Stage::Parse,
                        last_event: final(self).progress.last_event,
                        ..old(self).progress
                    },
                    ..*old(self)
                }),
                ScanEvent::FlowArtifactWritten { path, .. } => {
                    &&& final(self).artifact_paths@ == old(self).artifact_paths@.push(path)
                    &&& *final(self) == (AppState {
                        artifact_paths: final(self).artifact_paths,
                        progress: ProgressCounters {
                            last_event: final(self).progress.last_event,
                            ..old(self).progress
                        },
                        ..*old(self)
                    })
                },
                ScanEvent::RuleStarted { .. } => *final(self) == (AppState {
                    progress: ProgressCounters {
                        stage: Stage::Rules,
                        last_event: final(self).progress.last_event,
                        ..old(self).progress
                    },
                    ..*old(self)
                }),
                ScanEvent::Finding(f) => {
                    &&& final(self).findings@ == old(self).findings@.push(f)
                    &&& finding_views(final(self).visible_findings@) == final(self).derived_visible()
                    &&& final(self).selections == if old(self).filter is Some
                        && final(self).visible_findings@.len() > 0 {
                        Selections {
                            finding_index: (final(self).visible_findings@.len() - 1) as usize,
                            ..old(self).selections
                        }
                    } else {
                        old(self).selections
                    }
                    &&& *final(self) == (AppState {
                        findings: final(self).findings,
                        visible_findings: final(self).visible_findings,
                        selections: final(self).selections,
                        progress: ProgressCounters {
                            finding_count: final(self).findings@.len() as usize,
                            last_event: final(self).progress.last_event,
                            ..old(self).progress
                        },
                        ..*old(self)
                    })
                },
                ScanEvent::RuleCompleted { .. } => *final(self) == (AppState {
                    progress: ProgressCounters {
                        rules_completed: (old(self).progress.rules_completed + 1) as usize,
                        last_event: final(self).progress.last_event,
                        ..old(self).progress
                    },
                    ..*old(self)
                }),
                ScanEvent::AiStarted => *final(self) == (AppState {
                    progress: ProgressCounters {
                        stage: Stage::Ai,
                        last_event: final(self).progress.last_event,
                        ..old(self).progress
                    },
                    ..*old(self)
                }),
                ScanEvent::AiCompleted { findings } => *final(self) == (AppState {
                    progress: ProgressCounters {
                        ai_findings: findings,
                        last_event: final(self).progress.last_event,
                        ..old(self).progress
                    },
                    ..*old(self)
                }),
                ScanEvent::ReportWritten { format, path } => {
                    &&& final(self).report_paths@ == if format == ReportFormat::Markdown || format
                        == ReportFormat::Html {
                        old(self).report_paths@.push(path)
                    } else {
                        old(self).report_paths@
                    }
                    &&& *final(self) == (AppState {
                        report_paths: final(self).report_paths,
                        progress: ProgressCounters {
                            stage: Stage::Reports,
                            last_event: final(self).progress.last_event,
                            ..old(self).progress
                        },
                        ..*old(self)
                    })
                },
                ScanEvent::Warning { diagnostic } => {
                    &&& final(self).diagnostics@ == old(self).diagnostics@.push(diagnostic)
                    &&& *final(self) == (AppState {
                        diagnostics: final(self).diagnostics,
                        progress: ProgressCounters {
                            last_event: final(self).progress.last_event,
                            ..old(self).progress
                        },
                        ..*old(self)
                    })
                },
                ScanEvent::Finished { summary } => *final(self) == (AppState {
                    running: false,
                    summary: Some(summary),
                    progress: ProgressCounters {
                        stage: Stage::Done,
                        last_event: final(self).progress.last_event,
                        ..old(self).progress
                    },
                    ..*old(self)
                }),
            },
    {
        let line = event_line(&event);
        self.progress.last_event = Some(line);
        match event {
            ScanEvent::Started { project } => {
                self.running = true;
                self.progress.project = Some(project);
                self.progress.stage = Stage::Discovery;
            },
            ScanEvent::ConfigLoaded { config_path } => {
                self.config_path = Some(config_path);
            },
            ScanEvent::FileDiscovered { path } => {
                self.progress.current_file = Some(path);
                self.progress.stage = Stage::Discovery;
            },
            ScanEvent::RulesLoaded { rule_count } => {
                self.progress.rules_loaded = rule_count;
                self.progress.stage = Stage::Rules;
            },
            ScanEvent::XmlParsed { flows, .. } => {
                self.progress.parsed_flows = self.progress.parsed_flows + flows;
                self.progress.stage = Stage::Parse;
            },
            ScanEvent::FlowArtifactWritten { path, .. } => {
                self.artifact_paths.push(path);
            },
            ScanEvent::RuleStarted { .. } => {
                self.progress.stage = Stage::Rules;
            },
            ScanEvent::Finding(finding) => {
                self.findings.push(finding);
                self.progress.finding_count = self.findings.len();
                self.recompute_visible();
                if self.filter.is_some() && self.visible_findings.len() > 0 {
                    self.selections.finding_index = self.visible_findings.len() - 1;
                }
            },
            ScanEvent::RuleCompleted { .. } => {
                self.progress.rules_completed = self.progress.rules_completed + 1;
            },
            ScanEvent::AiStarted => {
                self.progress.stage = Stage::Ai;
            },
            ScanEvent::AiCompleted { findings } => {
                self.progress.ai_findings = findings;
            },
            ScanEvent::ReportWritten { format, path } => {
                self.progress.stage = Stage::Reports;
                match format {
                    ReportFormat::Markdown | ReportFormat::Html => self.report_paths.push(path),
                    _ => {},
                }
            },
            ScanEvent::Warning { diagnostic } => {
                self.diagnostics.push(diagnostic);
            },
            ScanEvent::Finished { summary } => {
                self.running = false;
                self.progress.stage = Stage::Done;
                self.summary = Some(summary);
            },
        }
    }
}

} // verus!
