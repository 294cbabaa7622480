//! User configuration: the token file, the status bar, the panel layout,
//! animations, the watchlist and auto-refresh.
//!
//! Reading and writing the files is left to the caller; this module holds
//! the rules that decide what a configuration means and how a loaded one is
//! repaired.
use vstd::prelude::*;
use ratatui::layout::Constraint;
use crate::paths::{
    appendable, ends_with, is_plain_segment, join_path, joined, lemma_joined_verbatim_free,
    lemma_verbatim_free_no_prefix, no_verbatim_prefix, system_config_dir, verbatim_free,
};
use crate::text::{
    alphanumeric_char, char_is_whitespace, chars_of, count_char, first_pos, is_alphanumeric,
    is_first_pos, is_whitespace, lemma_count_char_step, lemma_first_pos, str_eq,
};

verus! {

/// The token file.
pub struct Config {
    pub github_token: Option<String>,
}

impl Default for Config {
    fn default() -> (c: Config)
        ensures
            c.github_token is None,
    {
        Config { github_token: None }
    }
}

/// An item that the status bar can show.
#[derive(Clone, Copy, Debug, PartialEq, Eq, Structural, Hash)]
pub enum StatusBarItem {
    /// Sync state (LIVE/STALE/OFFLINE) with last sync time.
    SyncState,
    /// GitHub API rate limit (remaining/limit).
    RateLimit,
    /// Count of open issues.
    OpenIssues,
    /// Count of open pull requests.
    OpenPrs,
    /// Days since the last release.
    LastReleaseAge,
    /// Age of the oldest open issue.
    OldestIssueAge,
    /// Repository health score with its grade.
    HealthScore,
}

impl StatusBarItem {
    /// Every status bar item, in display order.
    pub const ALL: [StatusBarItem; 7] = [
        StatusBarItem::SyncState,
        StatusBarItem::RateLimit,
        StatusBarItem::OpenIssues,
        StatusBarItem::OpenPrs,
        StatusBarItem::LastReleaseAge,
        StatusBarItem::OldestIssueAge,
        StatusBarItem::HealthScore,
    ];

    /// The item's name as written in the configuration file.
    pub open spec fn name_of(self) -> Seq<char> {
        match self {
            StatusBarItem::SyncState => "sync_state"@,
            StatusBarItem::RateLimit => "rate_limit"@,
            StatusBarItem::OpenIssues => "open_issues"@,
            StatusBarItem::OpenPrs => "open_prs"@,
            StatusBarItem::LastReleaseAge => "last_release_age"@,
            StatusBarItem::OldestIssueAge => "oldest_issue_age"@,
            StatusBarItem::HealthScore => "health_score"@,
        }
    }

    /// The item's name as written in the configuration file.
    pub fn display_name(&self) -> (s: &'static str)
        ensures
            s@ == self.name_of(),
    {
        match self {
            StatusBarItem::SyncState => "sync_state",
            StatusBarItem::RateLimit => "rate_limit",
            StatusBarItem::OpenIssues => "open_issues",
            StatusBarItem::OpenPrs => "open_prs",
            StatusBarItem::LastReleaseAge => "last_release_age",
            StatusBarItem::OldestIssueAge => "oldest_issue_age",
            StatusBarItem::HealthScore => "health_score",
        }
    }
}

/// The most items the status bar shows.
pub const MAX_STATUS_BAR_ITEMS: usize = 3;

/// `s` with every element after its first occurrence removed.
pub open spec fn dedup_seq<T>(s: Seq<T>) -> Seq<T>
    decreases s.len(),
{
    if s.len() == 0 {
        Seq::empty()
    } else {
        let d = dedup_seq(s.drop_last());
        if d.contains(s.last()) {
            d
        } else {
            d.push(s.last())
        }
    }
}

/// The first `n` elements of `s`, or all of them when there are fewer.
pub open spec fn first_n<T>(s: Seq<T>, n: nat) -> Seq<T> {
    if s.len() > n {
        s.take(n as int)
    } else {
        s
    }
}

/// The items a status bar keeps of a configured list: each only once, then
/// the first three of those.
pub open spec fn enforced_items(s: Seq<StatusBarItem>) -> Seq<StatusBarItem> {
    first_n(dedup_seq(s), MAX_STATUS_BAR_ITEMS as nat)
}

/// The items a status bar keeps of a list read from its file: the first
/// three, then each of those only once.
pub open spec fn loaded_items(s: Seq<StatusBarItem>) -> Seq<StatusBarItem> {
    dedup_seq(first_n(s, MAX_STATUS_BAR_ITEMS as nat))
}

/// Status bar configuration.
pub struct StatusBarConfig {
    /// Items to display (at most three once limits are enforced).
    pub items: Vec<StatusBarItem>,
}

impl Default for StatusBarConfig {
    fn default() -> (c: StatusBarConfig)
        ensures
            c.items@ == seq![
                StatusBarItem::SyncState,
                StatusBarItem::HealthScore,
                StatusBarItem::OpenPrs,
            ],
    {
        StatusBarConfig { items: StatusBarConfig::default_items() }
    }
}

fn contains_item(v: &Vec<StatusBarItem>, x: StatusBarItem) -> (r: bool)
    ensures
        r == v@.contains(x),
{
    let mut i: usize = 0;
    while i < v.len()
        invariant
            i <= v@.len(),
            forall|k: int| 0 <= k < i ==> v@[k] != x,
        decreases v@.len() - i,
    {
        if v[i] == x {
            assert(v@[i as int] == x);
            return true;
        }
        i = i + 1;
    }
    false
}

/// The items of `v`, each only once, first occurrence first.
fn dedup_items(v: &Vec<StatusBarItem>) -> (r: Vec<StatusBarItem>)
    ensures
        r@ == dedup_seq(v@),
{
    let ghost orig = v@;
    let mut out: Vec<StatusBarItem> = Vec::new();
    let mut i: usize = 0;
    while i < v.len()
        invariant
            i <= orig.len(),
            v@ == orig,
            out@ == dedup_seq(orig.take(i as int)),
        decreases orig.len() - i,
    {
        let x = v[i];
        assert(orig.take(i + 1).drop_last() =~= orig.take(i as int));
        if !contains_item(&out, x) {
            out.push(x);
        }
        i = i + 1;
    }
    assert(orig.take(i as int) =~= orig);
    out
}

impl StatusBarConfig {
    /// The default items: sync state, health score and open pull requests.
    pub fn default_items() -> (v: Vec<StatusBarItem>)
        ensures
            v@ == seq![
                StatusBarItem::SyncState,
                StatusBarItem::HealthScore,
                StatusBarItem::OpenPrs,
            ],
    {
        let mut v: Vec<StatusBarItem> = Vec::new();
        v.push(StatusBarItem::SyncState);
        v.push(StatusBarItem::HealthScore);
        v.push(StatusBarItem::OpenPrs);
        v
    }

    /// Drops repeated items, keeping the first of each, then keeps the
    /// first three (the limits applied on save).
    pub fn enforce_limits(&mut self)
        ensures
            final(self).items@ == enforced_items(old(self).items@),
    {
        let mut out = dedup_items(&self.items);
        if out.len() > MAX_STATUS_BAR_ITEMS {
            out.truncate(MAX_STATUS_BAR_ITEMS);
        }
        self.items = out;
    }

    /// The configuration to use given what was read from the file: the
    /// default when nothing could be read, else the file's first three
    /// items with repeats dropped.
    pub fn load(parsed: Option<StatusBarConfig>) -> (c: StatusBarConfig)
        ensures
            c.items@ == (match parsed {
                None => seq![
                    StatusBarItem::SyncState,
                    StatusBarItem::HealthScore,
                    StatusBarItem::OpenPrs,
                ],
                Some(p) => loaded_items(p.items@),
            }),
    {
        match parsed {
            None => StatusBarConfig::default(),
            Some(p) => {
                let mut items = p.items;
                if items.len() > MAX_STATUS_BAR_ITEMS {
                    items.truncate(MAX_STATUS_BAR_ITEMS);
                }
                StatusBarConfig { items: dedup_items(&items) }
            },
        }
    }
}

} // verus!

verus! {

/// Every element of `dedup_seq(s)` occurs in `s`, and the other way round.
pub proof fn lemma_dedup_same_elements<T>(s: Seq<T>, x: T)
    ensures
        dedup_seq(s).contains(x) <==> s.contains(x),
    decreases s.len(),
{
    if s.len() > 0 {
        lemma_dedup_same_elements(s.drop_last(), x);
        let d = dedup_seq(s.drop_last());
        if s.contains(x) && x != s.last() {
            let k = choose|k: int| 0 <= k < s.len() && s[k] == x;
            assert(s.drop_last()[k] == x);
        }
        if s.drop_last().contains(x) {
            let k = choose|k: int| 0 <= k < s.drop_last().len() && s.drop_last()[k] == x;
            assert(s[k] == x);
        }
        if x == s.last() {
            assert(s[s.len() - 1] == x);
            if !d.contains(x) {
                assert(d.push(x)[d.len() as int] == x);
            }
        }
        if !d.contains(s.last()) && d.contains(x) {
            let k = choose|k: int| 0 <= k < d.len() && d[k] == x;
            assert(d.push(s.last())[k] == x);
        }
        if !d.contains(s.last()) && d.push(s.last()).contains(x) && x != s.last() {
            let k = choose|k: int| 0 <= k < d.len() + 1 && d.push(s.last())[k] == x;
            assert(d[k] == x);
        }
    }
}

/// No element occurs twice in `dedup_seq(s)`.
pub proof fn lemma_dedup_no_duplicates<T>(s: Seq<T>)
    ensures
        dedup_seq(s).no_duplicates(),
        dedup_seq(s).len() <= s.len(),
    decreases s.len(),
{
    if s.len() > 0 {
        lemma_dedup_no_duplicates(s.drop_last());
        let d = dedup_seq(s.drop_last());
        if !d.contains(s.last()) {
            let e = d.push(s.last());
            assert forall|i: int, j: int| 0 <= i < e.len() && 0 <= j < e.len() && i != j implies e[i]
                != e[j] by {
                if j == d.len() && e[i] == e[j] {
                    assert(d[i] == s.last());
                }
                if i == d.len() && e[i] == e[j] {
                    assert(d[j] == s.last());
                }
            }
        }
    }
}

/// Removing repeats from a sequence without repeats changes nothing.
pub proof fn lemma_dedup_of_distinct<T>(s: Seq<T>)
    requires
        s.no_duplicates(),
    ensures
        dedup_seq(s) == s,
    decreases s.len(),
{
    if s.len() > 0 {
        let p = s.drop_last();
        assert(p.no_duplicates());
        lemma_dedup_of_distinct(p);
        lemma_dedup_same_elements(p, s.last());
        if p.contains(s.last()) {
            let k = choose|k: int| 0 <= k < p.len() && p[k] == s.last();
            assert(s[k] == s[s.len() - 1]);
        }
        assert(p.push(s.last()) =~= s);
    }
}

/// The kept items number at most three, never repeat, and all come from the
/// configured list.
pub proof fn lemma_enforced_items_bounded(s: Seq<StatusBarItem>)
    ensures
        enforced_items(s).len() <= MAX_STATUS_BAR_ITEMS,
        enforced_items(s).no_duplicates(),
        forall|x: StatusBarItem| enforced_items(s).contains(x) ==> s.contains(x),
{
    let d = dedup_seq(s);
    let e = enforced_items(s);
    lemma_dedup_no_duplicates(s);
    assert forall|i: int, j: int| 0 <= i < e.len() && 0 <= j < e.len() && i != j implies e[i]
        != e[j] by {
        assert(e[i] == d[i] && e[j] == d[j]);
    }
    assert forall|x: StatusBarItem| e.contains(x) implies s.contains(x) by {
        let k = choose|k: int| 0 <= k < e.len() && e[k] == x;
        assert(d[k] == x);
        lemma_dedup_same_elements(s, x);
    }
}

proof fn lemma_dedup_len<T>(s: Seq<T>)
    ensures
        dedup_seq(s).len() <= s.len(),
    decreases s.len(),
{
    if s.len() > 0 {
        lemma_dedup_len(s.drop_last());
    }
}

/// A loaded list has at most three items, none repeated, all from the
/// file's list; saving it keeps it as it is.
pub proof fn lemma_loaded_items_bounded(s: Seq<StatusBarItem>)
    ensures
        loaded_items(s).len() <= MAX_STATUS_BAR_ITEMS,
        loaded_items(s).no_duplicates(),
        forall|x: StatusBarItem| loaded_items(s).contains(x) ==> s.contains(x),
        enforced_items(loaded_items(s)) == loaded_items(s),
{
    let f = first_n(s, MAX_STATUS_BAR_ITEMS as nat);
    let l = loaded_items(s);
    lemma_dedup_len(f);
    lemma_dedup_no_duplicates(f);
    assert forall|i: int, j: int| 0 <= i < l.len() && 0 <= j < l.len() && i != j implies l[i] != l[j] by {
    }
    assert forall|x: StatusBarItem| l.contains(x) implies s.contains(x) by {
        lemma_dedup_same_elements(f, x);
        let k = choose|k: int| 0 <= k < f.len() && f[k] == x;
        assert(s[k] == x);
    }
    lemma_dedup_of_distinct(l);
    assert(first_n(l, MAX_STATUS_BAR_ITEMS as nat) == l);
}

/// Enforcing the limits a second time changes nothing.
pub proof fn lemma_enforce_limits_idempotent(s: Seq<StatusBarItem>)
    ensures
        enforced_items(enforced_items(s)) == enforced_items(s),
{
    let e = enforced_items(s);
    lemma_enforced_items_bounded(s);
    lemma_dedup_of_distinct(e);
    assert(first_n(e, MAX_STATUS_BAR_ITEMS as nat) == e);
}

} // verus!

verus! {

/// Layout presets.
#[derive(Clone, Copy, Debug, PartialEq, Eq, Structural)]
pub enum LayoutPreset {
    /// Balanced layout.
    Default,
    /// Smaller panels.
    Compact,
    /// Emphasises some panels.
    Wide,
}

impl Default for LayoutPreset {
    fn default() -> (p: LayoutPreset)
        ensures
            p == LayoutPreset::Default,
    {
        LayoutPreset::Default
    }
}

/// The size of one panel, in percent of the space it shares.
#[derive(Clone, Copy, Debug, PartialEq, Eq, Structural)]
pub struct PanelLayout {
    /// Width percentage.
    pub width_pct: u16,
    /// Height percentage.
    pub height_pct: u16,
}

/// The smallest share a panel or row is given.
pub const MIN_PANEL_PCT: u16 = 10;

/// `x` brought into `10..=100`.
pub open spec fn clamp_pct(x: u16) -> u16 {
    if x < MIN_PANEL_PCT {
        MIN_PANEL_PCT
    } else if x > 100 {
        100
    } else {
        x
    }
}

/// The panel layout with the given percentages, as written.
pub open spec fn panel(w: u16, h: u16) -> PanelLayout {
    PanelLayout { width_pct: w, height_pct: h }
}

impl PanelLayout {
    /// A panel layout with both percentages clamped to `10..=100`.
    pub fn new(width_pct: u16, height_pct: u16) -> (p: PanelLayout)
        ensures
            p == panel(clamp_pct(width_pct), clamp_pct(height_pct)),
    {
        PanelLayout { width_pct: clamp(width_pct), height_pct: clamp(height_pct) }
    }
}

fn clamp(x: u16) -> (r: u16)
    ensures
        r == clamp_pct(x),
{
    if x < MIN_PANEL_PCT {
        MIN_PANEL_PCT
    } else if x > 100 {
        100
    } else {
        x
    }
}

impl Default for PanelLayout {
    fn default() -> (p: PanelLayout)
        ensures
            p == panel(50, 50),
    {
        PanelLayout { width_pct: 50, height_pct: 50 }
    }
}

/// Width used when a file leaves it out.
pub fn default_panel_width() -> (w: u16)
    ensures
        w == 50,
{
    50
}

/// Height used when a file leaves it out.
pub fn default_panel_height() -> (h: u16)
    ensures
        h == 50,
{
    50
}

/// Heights of the first row (stars, issues) by default.
pub fn default_row1_heights() -> (p: PanelLayout)
    ensures
        p == panel(100, 40),
{
    PanelLayout::new(100, 40)
}

/// Heights of the second row (pull requests, contributors, releases) by default.
pub fn default_row2_heights() -> (p: PanelLayout)
    ensures
        p == panel(100, 30),
{
    PanelLayout::new(100, 30)
}

/// Heights of the third row (velocity, security, CI) by default.
pub fn default_row3_heights() -> (p: PanelLayout)
    ensures
        p == panel(100, 30),
{
    PanelLayout::new(100, 30)
}

/// Full-height columns of the given widths.
pub open spec fn columns_of(widths: Seq<u16>) -> Seq<PanelLayout> {
    widths.map_values(|w: u16| panel(w, 100))
}

fn two_columns(a: u16, b: u16) -> (v: Vec<PanelLayout>)
    requires
        MIN_PANEL_PCT <= a <= 100,
        MIN_PANEL_PCT <= b <= 100,
    ensures
        v@ == columns_of(seq![a, b]),
{
    let mut v: Vec<PanelLayout> = Vec::new();
    v.push(PanelLayout::new(a, 100));
    v.push(PanelLayout::new(b, 100));
    assert(v@ =~= columns_of(seq![a, b]));
    v
}

fn three_columns(a: u16, b: u16, c: u16) -> (v: Vec<PanelLayout>)
    requires
        MIN_PANEL_PCT <= a <= 100,
        MIN_PANEL_PCT <= b <= 100,
        MIN_PANEL_PCT <= c <= 100,
    ensures
        v@ == columns_of(seq![a, b, c]),
{
    let mut v: Vec<PanelLayout> = Vec::new();
    v.push(PanelLayout::new(a, 100));
    v.push(PanelLayout::new(b, 100));
    v.push(PanelLayout::new(c, 100));
    assert(v@ =~= columns_of(seq![a, b, c]));
    v
}

/// Column widths of the first row by default (stars, issues).
pub fn default_row1_columns() -> (v: Vec<PanelLayout>)
    ensures
        v@ == columns_of(seq![35, 65]),
{
    two_columns(35, 65)
}

/// Column widths of the second row by default (pull requests, contributors, releases).
pub fn default_row2_columns() -> (v: Vec<PanelLayout>)
    ensures
        v@ == columns_of(seq![33, 33, 34]),
{
    three_columns(33, 33, 34)
}

/// Column widths of the third row by default (velocity, security, CI).
pub fn default_row3_columns() -> (v: Vec<PanelLayout>)
    ensures
        v@ == columns_of(seq![40, 30, 30]),
{
    three_columns(40, 30, 30)
}

/// Panel sizes of the dashboard: three rows, each split into columns.
pub struct LayoutConfig {
    pub preset: LayoutPreset,
    /// First row (stars, issues).
    pub row1: PanelLayout,
    /// Second row (pull requests, contributors, releases).
    pub row2: PanelLayout,
    /// Third row (velocity, security, CI).
    pub row3: PanelLayout,
    pub row1_columns: Vec<PanelLayout>,
    pub row2_columns: Vec<PanelLayout>,
    pub row3_columns: Vec<PanelLayout>,
}

/// Row heights of each preset.
pub open spec fn preset_heights(p: LayoutPreset) -> (u16, u16, u16) {
    match p {
        LayoutPreset::Default => (40, 30, 30),
        LayoutPreset::Compact => (35, 35, 30),
        LayoutPreset::Wide => (45, 30, 25),
    }
}

/// Column widths of each preset, row by row.
pub open spec fn preset_widths(p: LayoutPreset) -> (Seq<u16>, Seq<u16>, Seq<u16>) {
    match p {
        LayoutPreset::Default => (seq![35, 65], seq![33, 33, 34], seq![40, 30, 30]),
        LayoutPreset::Compact => (seq![30, 70], seq![33, 33, 34], seq![34, 33, 33]),
        LayoutPreset::Wide => (seq![40, 60], seq![40, 30, 30], seq![40, 30, 30]),
    }
}

/// `c` is exactly the layout of preset `p`.
pub open spec fn is_preset_layout(c: LayoutConfig, p: LayoutPreset) -> bool {
    &&& c.preset == p
    &&& c.row1 == panel(100, preset_heights(p).0)
    &&& c.row2 == panel(100, preset_heights(p).1)
    &&& c.row3 == panel(100, preset_heights(p).2)
    &&& c.row1_columns@ == columns_of(preset_widths(p).0)
    &&& c.row2_columns@ == columns_of(preset_widths(p).1)
    &&& c.row3_columns@ == columns_of(preset_widths(p).2)
}

impl Default for LayoutConfig {
    fn default() -> (c: LayoutConfig)
        ensures
            is_preset_layout(c, LayoutPreset::Default),
    {
        LayoutConfig::default_preset(LayoutPreset::Default)
    }
}

impl LayoutConfig {
    /// The layout of a preset.
    pub fn default_preset(preset: LayoutPreset) -> (c: LayoutConfig)
        ensures
            is_preset_layout(c, preset),
    {
        match preset {
            LayoutPreset::Default => LayoutConfig {
                preset: LayoutPreset::Default,
                row1: default_row1_heights(),
                row2: default_row2_heights(),
                row3: default_row3_heights(),
                row1_columns: default_row1_columns(),
                row2_columns: default_row2_columns(),
                row3_columns: default_row3_columns(),
            },
            LayoutPreset::Compact => LayoutConfig {
                preset: LayoutPreset::Compact,
                row1: PanelLayout::new(100, 35),
                row2: PanelLayout::new(100, 35),
                row3: PanelLayout::new(100, 30),
                row1_columns: two_columns(30, 70),
                row2_columns: three_columns(33, 33, 34),
                row3_columns: three_columns(34, 33, 33),
            },
            LayoutPreset::Wide => LayoutConfig {
                preset: LayoutPreset::Wide,
                row1: PanelLayout::new(100, 45),
                row2: PanelLayout::new(100, 30),
                row3: PanelLayout::new(100, 25),
                row1_columns: two_columns(40, 60),
                row2_columns: three_columns(40, 30, 30),
                row3_columns: three_columns(40, 30, 30),
            },
        }
    }

    /// Replaces the whole layout by a preset's.
    pub fn reset_to_preset(&mut self, preset: LayoutPreset)
        ensures
            is_preset_layout(*final(self), preset),
    {
        *self = LayoutConfig::default_preset(preset);
    }
}

} // verus!

verus! {

/// `h`'s share of `total`, in percent, rounded down and capped at 100.
pub open spec fn scaled_pct(h: u16, total: int) -> u16 {
    let v = (h as int) * 100 / total;
    if v > 100 {
        100
    } else {
        v as u16
    }
}

/// `100 - x`, or 0 when `x >= 100`.
pub open spec fn rest_of_100(x: int) -> u16 {
    if x >= 100 {
        0
    } else {
        (100 - x) as u16
    }
}

/// `x` raised to the minimum share.
pub open spec fn at_least_min(x: u16) -> u16 {
    if x < MIN_PANEL_PCT {
        MIN_PANEL_PCT
    } else {
        x
    }
}

/// `x - d`, or 0 when `d >= x`.
pub open spec fn minus_or_zero(x: u16, d: int) -> u16 {
    if d >= x {
        0
    } else {
        (x - d) as u16
    }
}

/// Row heights scaled to sum to 100 when they do not already.
pub open spec fn proportional_heights(h: (u16, u16, u16)) -> (u16, u16, u16) {
    let t = h.0 + h.1 + h.2;
    if t != 100 {
        let a = scaled_pct(h.0, t);
        let b = scaled_pct(h.1, t);
        (a, b, rest_of_100(a + b))
    } else {
        h
    }
}

/// After raising rows to the minimum, the excess over 100 is taken from the
/// tallest row (the first of the tallest on ties).
pub open spec fn trim_excess(h: (u16, u16, u16)) -> (u16, u16, u16) {
    let t = h.0 + h.1 + h.2;
    if t > 100 {
        let excess = t - 100;
        if h.0 >= h.1 && h.0 >= h.2 {
            (minus_or_zero(h.0, excess), h.1, h.2)
        } else if h.1 >= h.2 {
            (h.0, minus_or_zero(h.1, excess), h.2)
        } else {
            (h.0, h.1, minus_or_zero(h.2, excess))
        }
    } else {
        h
    }
}

/// The row heights that normalising gives.
pub open spec fn normalized_heights(h: (u16, u16, u16)) -> (u16, u16, u16) {
    let p = proportional_heights(h);
    trim_excess((at_least_min(p.0), at_least_min(p.1), at_least_min(p.2)))
}

/// A panel with its width raised to the minimum share.
pub open spec fn widened(p: PanelLayout) -> PanelLayout {
    PanelLayout { width_pct: at_least_min(p.width_pct), height_pct: p.height_pct }
}

/// The width of a panel, as a summand.
pub open spec fn width_fn() -> spec_fn(PanelLayout) -> nat {
    |p: PanelLayout| p.width_pct as nat
}

/// Sum of the widths of `cols`.
pub open spec fn width_sum(cols: Seq<PanelLayout>) -> nat {
    crate::sums::seq_sum(cols, width_fn())
}

/// The columns with each width raised to the minimum share.
pub open spec fn widened_columns(cols: Seq<PanelLayout>) -> Seq<PanelLayout> {
    cols.map_values(|p: PanelLayout| widened(p))
}

/// Sum of the scaled widths of the first `n` columns.
pub open spec fn scaled_prefix_sum(cols: Seq<PanelLayout>, total: int, n: int) -> int
    decreases n,
{
    if n <= 0 {
        0
    } else {
        scaled_prefix_sum(cols, total, n - 1) + scaled_pct(cols[n - 1].width_pct, total)
    }
}

/// The columns that normalising gives: widths raised to the minimum, then,
/// unless they sum to 100 already, scaled to their share of the total, the
/// last column taking what remains of 100.
pub open spec fn normalized_columns(cols: Seq<PanelLayout>) -> Seq<PanelLayout> {
    let w = widened_columns(cols);
    let t = width_sum(w) as int;
    if w.len() == 0 || t == 100 {
        w
    } else {
        Seq::new(
            w.len(),
            |i: int|
                if i < w.len() - 1 {
                    PanelLayout { width_pct: scaled_pct(w[i].width_pct, t), height_pct: w[i].height_pct }
                } else {
                    PanelLayout {
                        width_pct: rest_of_100(scaled_prefix_sum(w, t, w.len() - 1)),
                        height_pct: w[i].height_pct,
                    }
                },
        )
    }
}

/// The column widths, once raised to the minimum, sum to at most `u16::MAX`.
pub open spec fn columns_normalizable(cols: Seq<PanelLayout>) -> bool {
    width_sum(widened_columns(cols)) <= u16::MAX
}

/// Normalising does not divide by zero or overflow: the row heights sum to a
/// positive `u16`, and so do the raised widths of each row's columns.
pub open spec fn normalizable(c: LayoutConfig) -> bool {
    &&& 0 < c.row1.height_pct + c.row2.height_pct + c.row3.height_pct <= u16::MAX
    &&& columns_normalizable(c.row1_columns@)
    &&& columns_normalizable(c.row2_columns@)
    &&& columns_normalizable(c.row3_columns@)
}

/// Floors of quotients add up to no more than the floor of the sum.
proof fn lemma_floor_add(a: int, b: int, t: int)
    requires
        a >= 0,
        b >= 0,
        t > 0,
    ensures
        a / t + b / t <= (a + b) / t,
{
    vstd::arithmetic::div_mod::lemma_fundamental_div_mod(a, t);
    vstd::arithmetic::div_mod::lemma_fundamental_div_mod(b, t);
    let q = a / t + b / t;
    assert(t * q <= a + b) by (nonlinear_arith)
        requires
            a == t * (a / t) + a % t,
            b == t * (b / t) + b % t,
            a % t >= 0,
            b % t >= 0,
            q == a / t + b / t,
    ;
    vstd::arithmetic::div_mod::lemma_div_is_ordered(t * q, a + b, t);
    vstd::arithmetic::div_mod::lemma_div_multiples_vanish(q, t);
}

/// A part's share of a total it does not exceed is at most 100 percent.
proof fn lemma_share_at_most_100(a: int, t: int)
    requires
        0 <= a <= t,
        t > 0,
    ensures
        a * 100 / t <= 100,
        a * 100 / t >= 0,
{
    vstd::arithmetic::div_mod::lemma_div_is_ordered(a * 100, t * 100, t);
    vstd::arithmetic::mul::lemma_mul_is_commutative(t, 100);
    vstd::arithmetic::div_mod::lemma_div_multiples_vanish(100, t);
    assert(0 <= a * 100) by (nonlinear_arith)
        requires
            a >= 0,
    ;
    vstd::arithmetic::div_mod::lemma_div_pos_is_pos(a * 100, t);
}

fn scale_pct(h: u16, total: u16) -> (r: u16)
    requires
        total > 0,
    ensures
        r == scaled_pct(h, total as int),
{
    let v: u32 = (h as u32) * 100 / (total as u32);
    if v > 100 {
        100
    } else {
        v as u16
    }
}

fn raise_to_min(x: u16) -> (r: u16)
    ensures
        r == at_least_min(x),
{
    if x < MIN_PANEL_PCT {
        MIN_PANEL_PCT
    } else {
        x
    }
}

/// Normalised row heights are each at least 10 and sum to 100.
pub proof fn lemma_normalized_heights_valid(h: (u16, u16, u16))
    requires
        0 < h.0 + h.1 + h.2,
    ensures
        normalized_heights(h).0 >= MIN_PANEL_PCT,
        normalized_heights(h).1 >= MIN_PANEL_PCT,
        normalized_heights(h).2 >= MIN_PANEL_PCT,
        normalized_heights(h).0 + normalized_heights(h).1 + normalized_heights(h).2 == 100,
{
    let t = h.0 + h.1 + h.2;
    if t != 100 {
        lemma_share_at_most_100(h.0 as int, t);
        lemma_share_at_most_100(h.1 as int, t);
        lemma_share_at_most_100((h.0 + h.1) as int, t);
        lemma_floor_add(h.0 * 100, h.1 * 100, t);
        assert(h.0 * 100 + h.1 * 100 == (h.0 + h.1) * 100) by (nonlinear_arith);
    }
    let p = proportional_heights(h);
    assert(p.0 + p.1 + p.2 == 100);
}

/// Normalising row heights a second time changes nothing.
pub proof fn lemma_normalized_heights_idempotent(h: (u16, u16, u16))
    requires
        0 < h.0 + h.1 + h.2,
    ensures
        normalized_heights(normalized_heights(h)) == normalized_heights(h),
{
    lemma_normalized_heights_valid(h);
}

} // verus!

verus! {

/// The scaled widths of a prefix add up to at most the prefix's share of
/// the total.
proof fn lemma_scaled_prefix_bound(w: Seq<PanelLayout>, t: int, i: int)
    requires
        0 <= i <= w.len(),
        t > 0,
    ensures
        0 <= scaled_prefix_sum(w, t, i) <= (width_sum(w.take(i)) as int) * 100 / t,
    decreases i,
{
    if i > 0 {
        lemma_scaled_prefix_bound(w, t, i - 1);
        crate::sums::lemma_seq_sum_step(w, width_fn(), i - 1);
        assert(w.take(i) =~= w.subrange(0, i));
        assert(w.take(i - 1) =~= w.subrange(0, i - 1));
        let a = (width_sum(w.take(i - 1)) as int) * 100;
        let b = (w[i - 1].width_pct as int) * 100;
        lemma_floor_add(a, b, t);
        assert(a + b == (width_sum(w.take(i)) as int) * 100) by (nonlinear_arith)
            requires
                width_sum(w.take(i)) == width_sum(w.take(i - 1)) + w[i - 1].width_pct,
                a == (width_sum(w.take(i - 1)) as int) * 100,
                b == (w[i - 1].width_pct as int) * 100,
        ;
        vstd::arithmetic::div_mod::lemma_div_pos_is_pos(b, t);
    }
}

/// The scaled widths of the first `i` columns never exceed 100 in total.
proof fn lemma_scaled_prefix_at_most_100(w: Seq<PanelLayout>, t: int, i: int)
    requires
        0 <= i <= w.len(),
        t == width_sum(w),
        t > 0,
    ensures
        0 <= scaled_prefix_sum(w, t, i) <= 100,
{
    lemma_scaled_prefix_bound(w, t, i);
    crate::sums::lemma_seq_sum_prefix_le(w, width_fn(), i);
    assert(w.take(i) =~= w.subrange(0, i));
    lemma_share_at_most_100(width_sum(w.take(i)) as int, t);
}

proof fn lemma_widened_sum_positive(cols: Seq<PanelLayout>)
    requires
        cols.len() > 0,
    ensures
        width_sum(widened_columns(cols)) >= MIN_PANEL_PCT,
{
    let w = widened_columns(cols);
    crate::sums::lemma_seq_sum_step(w, width_fn(), 0);
    crate::sums::lemma_seq_sum_prefix_le(w, width_fn(), 1);
    assert(w.subrange(0, 0) =~= Seq::<PanelLayout>::empty());
}

impl LayoutConfig {
    /// Raises each column to the minimum width, then scales the widths to
    /// sum to 100 (the last column takes the remainder).
    pub fn normalize_columns(columns: &mut Vec<PanelLayout>)
        requires
            columns_normalizable(old(columns)@),
        ensures
            final(columns)@ == normalized_columns(old(columns)@),
    {
        let n = columns.len();
        if n == 0 {
            assert(normalized_columns(old(columns)@) =~= old(columns)@);
            return ;
        }
        let ghost orig = columns@;
        let mut i: usize = 0;
        while i < n
            invariant
                n == orig.len(),
                columns@.len() == n,
                i <= n,
                forall|k: int| 0 <= k < i ==> columns@[k] == widened(orig[k]),
                forall|k: int| i <= k < n ==> columns@[k] == orig[k],
            decreases n - i,
        {
            let c = columns[i];
            columns.set(i, PanelLayout { width_pct: raise_to_min(c.width_pct), height_pct: c.height_pct });
            i = i + 1;
        }
        assert(columns@ =~= widened_columns(orig));
        let ghost w = columns@;
        proof {
            lemma_widened_sum_positive(orig);
        }
        let mut total: u32 = 0;
        i = 0;
        while i < n
            invariant
                n == w.len(),
                columns@ == w,
                i <= n,
                total == width_sum(w.take(i as int)),
                width_sum(w) <= u16::MAX,
            decreases n - i,
        {
            proof {
                crate::sums::lemma_seq_sum_step(w, width_fn(), i as int);
                crate::sums::lemma_seq_sum_prefix_le(w, width_fn(), i + 1);
                assert(w.take(i + 1) =~= w.subrange(0, i + 1));
                assert(w.take(i as int) =~= w.subrange(0, i as int));
            }
            total = total + columns[i].width_pct as u32;
            i = i + 1;
        }
        assert(w.take(n as int) =~= w);
        let ghost t = total as int;
        if total != 100 {
            let total16: u16 = total as u16;
            let mut new_total: u16 = 0;
            i = 0;
            while i < n
                invariant
                    n == w.len(),
                    n > 0,
                    t == width_sum(w),
                    t > 0,
                    t != 100,
                    total16 == t,
                    columns@.len() == n,
                    i <= n,
                    forall|k: int| 0 <= k < i ==> columns@[k] == normalized_columns(orig)[k],
                    forall|k: int| i <= k < n ==> columns@[k] == w[k],
                    i < n ==> new_total == scaled_prefix_sum(w, t, i as int),
                    w == widened_columns(orig),
                decreases n - i,
            {
                let c = columns[i];
                proof {
                    lemma_scaled_prefix_at_most_100(w, t, i as int);
                }
                if i == n - 1 {
                    columns.set(
                        i,
                        PanelLayout { width_pct: 100u16.saturating_sub(new_total), height_pct: c.height_pct },
                    );
                } else {
                    let s = scale_pct(c.width_pct, total16);
                    columns.set(i, PanelLayout { width_pct: s, height_pct: c.height_pct });
                    proof {
                        lemma_scaled_prefix_at_most_100(w, t, i + 1);
                    }
                    new_total = new_total + s;
                }
                i = i + 1;
            }
            assert(columns@ =~= normalized_columns(orig));
        }
    }
}

/// After normalising a non-empty row of columns, the widths sum to exactly
/// 100; the number of columns and their heights are unchanged.
pub proof fn lemma_normalized_columns_sum_to_100(cols: Seq<PanelLayout>)
    requires
        cols.len() > 0,
    ensures
        width_sum(normalized_columns(cols)) == 100,
        normalized_columns(cols).len() == cols.len(),
        forall|k: int| 0 <= k < cols.len() ==> #[trigger] normalized_columns(cols)[k].height_pct
            == cols[k].height_pct,
{
    let w = widened_columns(cols);
    let t = width_sum(w) as int;
    lemma_widened_sum_positive(cols);
    if t != 100 {
        let r = normalized_columns(cols);
        let n = w.len();
        assert forall|k: int| 0 <= k <= n - 1 implies width_sum(#[trigger] r.take(k))
            == scaled_prefix_sum(w, t, k) by {
            lemma_normalized_prefix(cols, k);
        }
        lemma_scaled_prefix_at_most_100(w, t, n - 1);
        crate::sums::lemma_seq_sum_step(r, width_fn(), n - 1);
        assert(r.take(n - 1) =~= r.subrange(0, n - 1));
        assert(r.subrange(0, n as int) =~= r);
    }
}

proof fn lemma_normalized_prefix(cols: Seq<PanelLayout>, k: int)
    requires
        cols.len() > 0,
        0 <= k <= cols.len() - 1,
        width_sum(widened_columns(cols)) != 100,
    ensures
        width_sum(normalized_columns(cols).take(k)) == scaled_prefix_sum(
            widened_columns(cols),
            width_sum(widened_columns(cols)) as int,
            k,
        ),
    decreases k,
{
    let r = normalized_columns(cols);
    if k > 0 {
        lemma_normalized_prefix(cols, k - 1);
        crate::sums::lemma_seq_sum_step(r, width_fn(), k - 1);
        assert(r.take(k) =~= r.subrange(0, k));
        assert(r.take(k - 1) =~= r.subrange(0, k - 1));
    } else {
        assert(r.take(0) =~= Seq::<PanelLayout>::empty());
    }
}

} // verus!

verus! {

/// The layout that normalising `c` gives.
pub open spec fn normalized_layout(c: LayoutConfig, r: LayoutConfig) -> bool {
    let h = normalized_heights((c.row1.height_pct, c.row2.height_pct, c.row3.height_pct));
    &&& r.preset == c.preset
    &&& r.row1 == panel(c.row1.width_pct, h.0)
    &&& r.row2 == panel(c.row2.width_pct, h.1)
    &&& r.row3 == panel(c.row3.width_pct, h.2)
    &&& r.row1_columns@ == normalized_columns(c.row1_columns@)
    &&& r.row2_columns@ == normalized_columns(c.row2_columns@)
    &&& r.row3_columns@ == normalized_columns(c.row3_columns@)
}

impl LayoutConfig {
    /// Makes the row heights sum to 100 with each at least 10, and each
    /// row's column widths sum to 100.
    pub fn normalize(self) -> (r: LayoutConfig)
        requires
            normalizable(self),
        ensures
            normalized_layout(self, r),
    {
        let mut c = self;
        let h1 = c.row1.height_pct;
        let h2 = c.row2.height_pct;
        let h3 = c.row3.height_pct;
        let total: u16 = h1 + h2 + h3;
        let mut a = h1;
        let mut b = h2;
        let mut d = h3;
        if total != 100 {
            a = scale_pct(h1, total);
            b = scale_pct(h2, total);
            d = 100u16.saturating_sub(a + b);
        }
        a = raise_to_min(a);
        b = raise_to_min(b);
        d = raise_to_min(d);
        let sum: u16 = a + b + d;
        if sum > 100 {
            let excess = sum - 100;
            if a >= b && a >= d {
                a = a.saturating_sub(excess);
            } else if b >= d {
                b = b.saturating_sub(excess);
            } else {
                d = d.saturating_sub(excess);
            }
        }
        c.row1.height_pct = a;
        c.row2.height_pct = b;
        c.row3.height_pct = d;
        LayoutConfig::normalize_columns(&mut c.row1_columns);
        LayoutConfig::normalize_columns(&mut c.row2_columns);
        LayoutConfig::normalize_columns(&mut c.row3_columns);
        c
    }

    /// The layout to use given what was read from the file: the file's,
    /// normalised; the default when nothing could be read or the file's
    /// percentages cannot be normalised (row heights summing to zero, or
    /// sums beyond a `u16`).
    pub fn load(parsed: Option<LayoutConfig>) -> (c: LayoutConfig)
        ensures
            match parsed {
                Some(p) => if normalizable(p) {
                    normalized_layout(p, c)
                } else {
                    is_preset_layout(c, LayoutPreset::Default)
                },
                None => is_preset_layout(c, LayoutPreset::Default),
            },
    {
        match parsed {
            None => LayoutConfig::default(),
            Some(p) => {
                if crate::checks::check_layout_normalizable(&p) {
                    p.normalize()
                } else {
                    LayoutConfig::default()
                }
            },
        }
    }
}

proof fn lemma_width_sum_two(a: u16, b: u16)
    ensures
        width_sum(columns_of(seq![a, b])) == a + b,
{
    let s = columns_of(seq![a, b]);
    let f = width_fn();
    let s1 = s.drop_last();
    assert(s1 =~= seq![panel(a, 100)]);
    assert(s1.drop_last() =~= Seq::<PanelLayout>::empty());
    assert(crate::sums::seq_sum(s1.drop_last(), f) == 0);
    assert(crate::sums::seq_sum(s1, f) == crate::sums::seq_sum(s1.drop_last(), f) + f(s1.last()));
    assert(crate::sums::seq_sum(s, f) == crate::sums::seq_sum(s1, f) + f(s.last()));
}

proof fn lemma_width_sum_three(a: u16, b: u16, c: u16)
    ensures
        width_sum(columns_of(seq![a, b, c])) == a + b + c,
{
    let s = columns_of(seq![a, b, c]);
    assert(s.drop_last() =~= columns_of(seq![a, b]));
    lemma_width_sum_two(a, b);
    assert(crate::sums::seq_sum(s, width_fn()) == crate::sums::seq_sum(s.drop_last(), width_fn())
        + width_fn()(s.last()));
}

/// Columns at least 10 wide that already sum to 100 are left as they are.
proof fn lemma_full_columns_fixed(cols: Seq<PanelLayout>)
    requires
        forall|i: int| 0 <= i < cols.len() ==> MIN_PANEL_PCT <= #[trigger] cols[i].width_pct,
        width_sum(cols) == 100,
    ensures
        columns_normalizable(cols),
        normalized_columns(cols) == cols,
{
    assert(widened_columns(cols) =~= cols);
}

/// Every preset is already normalised: its row heights are at least 10 and
/// sum to 100, its rows hold two, three and three columns at least 10 wide
/// whose widths sum to 100, and normalising it changes nothing.
pub proof fn lemma_presets_normalized(c: LayoutConfig, p: LayoutPreset)
    requires
        is_preset_layout(c, p),
    ensures
        MIN_PANEL_PCT <= c.row1.height_pct && MIN_PANEL_PCT <= c.row2.height_pct && MIN_PANEL_PCT
            <= c.row3.height_pct,
        c.row1.height_pct + c.row2.height_pct + c.row3.height_pct == 100,
        c.row1_columns@.len() == 2 && c.row2_columns@.len() == 3 && c.row3_columns@.len() == 3,
        width_sum(c.row1_columns@) == 100 && width_sum(c.row2_columns@) == 100 && width_sum(
            c.row3_columns@,
        ) == 100,
        forall|i: int| 0 <= i < c.row1_columns@.len() ==> MIN_PANEL_PCT <= #[trigger] c.row1_columns@[i].width_pct <= 100,
        forall|i: int| 0 <= i < c.row2_columns@.len() ==> MIN_PANEL_PCT <= #[trigger] c.row2_columns@[i].width_pct <= 100,
        forall|i: int| 0 <= i < c.row3_columns@.len() ==> MIN_PANEL_PCT <= #[trigger] c.row3_columns@[i].width_pct <= 100,
        normalizable(c),
        normalized_layout(c, c),
{
    let (w1, w2, w3) = preset_widths(p);
    lemma_width_sum_two(w1[0], w1[1]);
    assert(w1 =~= seq![w1[0], w1[1]]);
    lemma_width_sum_three(w2[0], w2[1], w2[2]);
    assert(w2 =~= seq![w2[0], w2[1], w2[2]]);
    lemma_width_sum_three(w3[0], w3[1], w3[2]);
    assert(w3 =~= seq![w3[0], w3[1], w3[2]]);
    lemma_full_columns_fixed(c.row1_columns@);
    lemma_full_columns_fixed(c.row2_columns@);
    lemma_full_columns_fixed(c.row3_columns@);
}

/// A normalised layout has row heights of at least 10 that sum to 100, and
/// every non-empty row of columns has widths summing to 100.
pub proof fn lemma_normalized_layout_valid(c: LayoutConfig, r: LayoutConfig)
    requires
        normalizable(c),
        normalized_layout(c, r),
    ensures
        r.row1.height_pct >= MIN_PANEL_PCT,
        r.row2.height_pct >= MIN_PANEL_PCT,
        r.row3.height_pct >= MIN_PANEL_PCT,
        r.row1.height_pct + r.row2.height_pct + r.row3.height_pct == 100,
        r.row1_columns@.len() > 0 ==> width_sum(r.row1_columns@) == 100,
        r.row2_columns@.len() > 0 ==> width_sum(r.row2_columns@) == 100,
        r.row3_columns@.len() > 0 ==> width_sum(r.row3_columns@) == 100,
{
    lemma_normalized_heights_valid((c.row1.height_pct, c.row2.height_pct, c.row3.height_pct));
    if c.row1_columns@.len() > 0 {
        lemma_normalized_columns_sum_to_100(c.row1_columns@);
    }
    if c.row2_columns@.len() > 0 {
        lemma_normalized_columns_sum_to_100(c.row2_columns@);
    }
    if c.row3_columns@.len() > 0 {
        lemma_normalized_columns_sum_to_100(c.row3_columns@);
    }
}

/// The layout constraint of the terminal drawing library.
#[verifier::external_type_specification]
#[verifier::external_body]
pub struct ExConstraint(ratatui::layout::Constraint);

/// The constraint that gives an element the share `pct` (in percent) of the
/// space it is laid out in.
pub uninterp spec fn percentage_constraint(pct: u16) -> Constraint;

/// `ratatui::layout::Constraint::Percentage`: the constraint built from a
/// share in percent. The same share always builds the same constraint.
#[verifier::external_body]
fn percentage(pct: u16) -> (c: Constraint)
    ensures
        c == percentage_constraint(pct),
{
    Constraint::Percentage(pct)
}

/// The width constraints of a row of columns, one per column, in order.
pub open spec fn width_constraints(cols: Seq<PanelLayout>) -> Seq<Constraint> {
    cols.map_values(|p: PanelLayout| percentage_constraint(p.width_pct))
}

impl PanelLayout {
    /// The panel's width as a layout constraint.
    pub fn width_constraint(&self) -> (c: Constraint)
        ensures
            c == percentage_constraint(self.width_pct),
    {
        percentage(self.width_pct)
    }

    /// The panel's height as a layout constraint.
    pub fn height_constraint(&self) -> (c: Constraint)
        ensures
            c == percentage_constraint(self.height_pct),
    {
        percentage(self.height_pct)
    }
}

fn column_widths(cols: &Vec<PanelLayout>) -> (v: Vec<Constraint>)
    ensures
        v@ == width_constraints(cols@),
{
    let mut v: Vec<Constraint> = Vec::new();
    let mut i: usize = 0;
    while i < cols.len()
        invariant
            i <= cols@.len(),
            v@ == width_constraints(cols@.subrange(0, i as int)),
        decreases cols@.len() - i,
    {
        v.push(cols[i].width_constraint());
        i = i + 1;
        assert(v@ =~= width_constraints(cols@.subrange(0, i as int)));
    }
    assert(cols@.subrange(0, cols@.len() as int) =~= cols@);
    v
}

impl LayoutConfig {
    /// The height constraints of the three rows, top to bottom.
    pub fn row_heights(&self) -> (r: [Constraint; 3])
        ensures
            r@ == seq![
                percentage_constraint(self.row1.height_pct),
                percentage_constraint(self.row2.height_pct),
                percentage_constraint(self.row3.height_pct),
            ],
    {
        let r = [
            self.row1.height_constraint(),
            self.row2.height_constraint(),
            self.row3.height_constraint(),
        ];
        assert(r@ =~= seq![
            percentage_constraint(self.row1.height_pct),
            percentage_constraint(self.row2.height_pct),
            percentage_constraint(self.row3.height_pct),
        ]);
        r
    }

    /// The width constraints of the first row's columns.
    pub fn row1_widths(&self) -> (v: Vec<Constraint>)
        ensures
            v@ == width_constraints(self.row1_columns@),
    {
        column_widths(&self.row1_columns)
    }

    /// The width constraints of the second row's columns.
    pub fn row2_widths(&self) -> (v: Vec<Constraint>)
        ensures
            v@ == width_constraints(self.row2_columns@),
    {
        column_widths(&self.row2_columns)
    }

    /// The width constraints of the third row's columns.
    pub fn row3_widths(&self) -> (v: Vec<Constraint>)
        ensures
            v@ == width_constraints(self.row3_columns@),
    {
        column_widths(&self.row3_columns)
    }
}

} // verus!

verus! {

/// Why a configuration path could not be formed.
#[derive(Clone, Copy, Debug, PartialEq, Eq, Structural)]
pub enum ConfigError {
    /// The platform reports no configuration directory.
    NoConfigDir,
}

impl ConfigError {
    /// The error's text.
    pub fn message(&self) -> (s: String)
        ensures
            s@ == "Failed to determine config directory. Could not find system config directory."@,
    {
        String::from_str("Failed to determine config directory. Could not find system config directory.")
    }
}

/// The name of the application's configuration directory.
pub open spec fn app_dir_name() -> Seq<char> {
    "forgeStat"@
}

/// `p` is the file `name` in the application's directory inside the
/// configuration directory `base`.
pub open spec fn app_file_in(base: Seq<char>, name: Seq<char>, p: Seq<char>) -> bool {
    exists|d: Seq<char>| joined(base, app_dir_name(), d) && joined(d, name, p)
}

/// The application's directory inside the configuration directory
/// `platform_dir` that the platform reported; an error when it reported
/// none.
pub fn config_dir_in(platform_dir: Option<String>) -> (r: Result<String, ConfigError>)
    ensures
        match platform_dir {
            None => r matches Err(ConfigError::NoConfigDir),
            Some(b) => r matches Ok(d) && ends_with(d@, app_dir_name()) && (no_verbatim_prefix(b@)
                ==> joined(b@, app_dir_name(), d@)),
        },
{
    match platform_dir {
        None => Err(ConfigError::NoConfigDir),
        Some(base) => {
            proof {
                reveal_strlit("forgeStat");
                lemma_dot_names();
                assert("forgeStat"@ =~= seq!['f', 'o', 'r', 'g', 'e', 'S', 't', 'a', 't']);
                assert(is_plain_segment("forgeStat"@));
                lemma_plain_appendable("forgeStat"@);
            }
            Ok(join_path(base.as_str(), "forgeStat"))
        },
    }
}

/// The application's directory inside the user's configuration directory.
pub fn config_dir() -> (r: Result<String, ConfigError>)
    ensures
        r matches Ok(d) ==> ends_with(d@, "forgeStat"@),
{
    proof {
        reveal_strlit("forgeStat");
    }
    config_dir_in(system_config_dir())
}

/// A plain segment is appended as it is.
proof fn lemma_plain_appendable(s: Seq<char>)
    requires
        is_plain_segment(s),
    ensures
        appendable(s),
{
    assert(s[0] != '/' && s[0] != '\\');
}

proof fn lemma_dot_names()
    ensures
        "."@ == seq!['.'],
        ".."@ == seq!['.', '.'],
{
    reveal_strlit(".");
    reveal_strlit("..");
}

/// The file `name` in the application's directory inside the
/// configuration directory `platform_dir` that the platform reported; an
/// error when it reported none.
pub fn config_file_in(platform_dir: Option<String>, name: &str) -> (r: Result<String, ConfigError>)
    requires
        is_plain_segment(name@),
    ensures
        match platform_dir {
            None => r matches Err(ConfigError::NoConfigDir),
            Some(b) => r matches Ok(p) && ends_with(p@, name@) && (verbatim_free(b@) ==> app_file_in(
                b@,
                name@,
                p@,
            )),
        },
{
    let ghost pd = platform_dir;
    match config_dir_in(platform_dir) {
        Err(e) => Err(e),
        Ok(dir) => {
            let p = join_path(dir.as_str(), name);
            proof {
                if let Some(b) = pd {
                    if verbatim_free(b@) {
                        reveal_strlit("forgeStat");
                        let dv = dir@;
                        lemma_verbatim_free_no_prefix(b@);
                        assert(joined(b@, app_dir_name(), dv));
                        lemma_joined_verbatim_free(b@, app_dir_name(), dv);
                        lemma_verbatim_free_no_prefix(dv);
                        lemma_plain_appendable(name@);
                        assert(joined(dv, name@, p@));
                    }
                }
            }
            Ok(p)
        },
    }
}

fn config_file(name: &str) -> (r: Result<String, ConfigError>)
    requires
        is_plain_segment(name@),
    ensures
        r matches Ok(p) ==> ends_with(p@, name@),
{
    config_file_in(system_config_dir(), name)
}

/// Path of the token file.
pub fn config_file_path() -> (r: Result<String, ConfigError>)
    ensures
        r matches Ok(p) ==> ends_with(p@, "config.toml"@),
{
    proof {
        reveal_strlit("config.toml");
        lemma_dot_names();
    }
    config_file("config.toml")
}

/// Path of the status bar configuration.
pub fn statusbar_file_path() -> (r: Result<String, ConfigError>)
    ensures
        r matches Ok(p) ==> ends_with(p@, "statusbar.toml"@),
{
    proof {
        reveal_strlit("statusbar.toml");
        lemma_dot_names();
    }
    config_file("statusbar.toml")
}

/// Path of the layout configuration.
pub fn layout_file_path() -> (r: Result<String, ConfigError>)
    ensures
        r matches Ok(p) ==> ends_with(p@, "layout.toml"@),
{
    proof {
        reveal_strlit("layout.toml");
        lemma_dot_names();
    }
    config_file("layout.toml")
}

/// Path of the animation configuration.
pub fn animation_file_path() -> (r: Result<String, ConfigError>)
    ensures
        r matches Ok(p) ==> ends_with(p@, "animation.toml"@),
{
    proof {
        reveal_strlit("animation.toml");
        lemma_dot_names();
    }
    config_file("animation.toml")
}

/// Path of the watchlist.
pub fn watchlist_file_path() -> (r: Result<String, ConfigError>)
    ensures
        r matches Ok(p) ==> ends_with(p@, "watchlist.toml"@),
{
    proof {
        reveal_strlit("watchlist.toml");
        lemma_dot_names();
    }
    config_file("watchlist.toml")
}

/// Path of the auto-refresh configuration.
pub fn refresh_file_path() -> (r: Result<String, ConfigError>)
    ensures
        r matches Ok(p) ==> ends_with(p@, "refresh.toml"@),
{
    proof {
        reveal_strlit("refresh.toml");
        lemma_dot_names();
    }
    config_file("refresh.toml")
}

/// A token counts only when it is not empty.
pub open spec fn usable_token(t: Option<String>) -> bool {
    t matches Some(s) && s@.len() > 0
}

/// The token to use: the environment's when set and not empty, else the
/// configuration file's when set and not empty.
pub open spec fn chosen_token(env_token: Option<String>, file_token: Option<String>) -> Option<
    String,
> {
    if usable_token(env_token) {
        env_token
    } else if usable_token(file_token) {
        file_token
    } else {
        None
    }
}

/// Picks the GitHub token: the `GITHUB_TOKEN` environment variable comes
/// first, then the configuration file; empty values are ignored.
pub fn select_token(env_token: Option<String>, file_token: Option<String>) -> (r: Option<String>)
    ensures
        r == chosen_token(env_token, file_token),
{
    match env_token {
        Some(t) if t.as_str().unicode_len() > 0 => return Some(t),
        _ => {},
    }
    match file_token {
        Some(t) if t.as_str().unicode_len() > 0 => Some(t),
        _ => None,
    }
}

/// Whether a token is available from either source.
pub fn has_token(env_token: Option<String>, file_token: Option<String>) -> (r: bool)
    ensures
        r == (usable_token(env_token) || usable_token(file_token)),
{
    select_token(env_token, file_token).is_some()
}

} // verus!

verus! {

/// Animation and visual effect settings.
#[derive(Clone, Copy, Debug, PartialEq, Eq, Structural)]
pub struct AnimationConfig {
    /// Master switch for every animation.
    pub enabled: bool,
    /// Low-power mode for basic terminals (disables the costlier effects).
    pub low_power_mode: bool,
    /// Panel highlight flash duration in milliseconds.
    pub flash_duration_ms: u64,
    /// Count-up animation duration in milliseconds.
    pub count_up_duration_ms: u64,
    pub sync_pulse_enabled: bool,
    /// Braille spinner while fetching.
    pub spinner_enabled: bool,
    pub sparkline_draw_enabled: bool,
}

/// Animations are on unless the file says otherwise.
pub fn default_animations_enabled() -> (b: bool)
    ensures
        b,
{
    true
}

/// Low-power mode is off unless the file says otherwise.
pub fn default_low_power_mode() -> (b: bool)
    ensures
        !b,
{
    false
}

/// Flash duration used when the file leaves it out.
pub fn default_flash_duration_ms() -> (ms: u64)
    ensures
        ms == 300,
{
    300
}

/// Count-up duration used when the file leaves it out.
pub fn default_count_up_duration_ms() -> (ms: u64)
    ensures
        ms == 800,
{
    800
}

/// The sync pulse is on unless the file says otherwise.
pub fn default_sync_pulse_enabled() -> (b: bool)
    ensures
        b,
{
    true
}

/// The spinner is on unless the file says otherwise.
pub fn default_spinner_enabled() -> (b: bool)
    ensures
        b,
{
    true
}

/// The sparkline draw animation is on unless the file says otherwise.
pub fn default_sparkline_draw_enabled() -> (b: bool)
    ensures
        b,
{
    true
}

/// The animation settings used when none are configured.
pub open spec fn default_animation() -> AnimationConfig {
    AnimationConfig {
        enabled: true,
        low_power_mode: false,
        flash_duration_ms: 300,
        count_up_duration_ms: 800,
        sync_pulse_enabled: true,
        spinner_enabled: true,
        sparkline_draw_enabled: true,
    }
}

impl Default for AnimationConfig {
    fn default() -> (c: AnimationConfig)
        ensures
            c == default_animation(),
    {
        AnimationConfig {
            enabled: default_animations_enabled(),
            low_power_mode: default_low_power_mode(),
            flash_duration_ms: default_flash_duration_ms(),
            count_up_duration_ms: default_count_up_duration_ms(),
            sync_pulse_enabled: default_sync_pulse_enabled(),
            spinner_enabled: default_spinner_enabled(),
            sparkline_draw_enabled: default_sparkline_draw_enabled(),
        }
    }
}

impl AnimationConfig {
    /// The settings to use given what was read from the file: the default
    /// when nothing could be read, else the file's as they are.
    pub fn load(parsed: Option<AnimationConfig>) -> (c: AnimationConfig)
        ensures
            c == (match parsed {
                None => default_animation(),
                Some(p) => p,
            }),
    {
        match parsed {
            None => AnimationConfig::default(),
            Some(p) => p,
        }
    }

    /// Whether animations run: enabled and not in low-power mode.
    pub fn should_animate(&self) -> (b: bool)
        ensures
            b == (self.enabled && !self.low_power_mode),
    {
        self.enabled && !self.low_power_mode
    }

    /// Whether the fetch spinner runs.
    pub fn is_spinner_enabled(&self) -> (b: bool)
        ensures
            b == (self.enabled && self.spinner_enabled),
    {
        self.enabled && self.spinner_enabled
    }

    /// Whether the sync pulse runs.
    pub fn is_sync_pulse_enabled(&self) -> (b: bool)
        ensures
            b == (self.enabled && self.sync_pulse_enabled),
    {
        self.enabled && self.sync_pulse_enabled
    }

    /// Whether sparklines are drawn progressively (never in low-power mode).
    pub fn is_sparkline_draw_enabled(&self) -> (b: bool)
        ensures
            b == (self.enabled && self.sparkline_draw_enabled && !self.low_power_mode),
    {
        self.enabled && self.sparkline_draw_enabled && !self.low_power_mode
    }

    /// Whether panels flash on change (never in low-power mode).
    pub fn is_flash_enabled(&self) -> (b: bool)
        ensures
            b == (self.enabled && !self.low_power_mode),
    {
        self.enabled && !self.low_power_mode
    }

    /// Whether numbers count up (never in low-power mode).
    pub fn is_count_up_enabled(&self) -> (b: bool)
        ensures
            b == (self.enabled && !self.low_power_mode),
    {
        self.enabled && !self.low_power_mode
    }
}

/// The master switch governs every effect: with animations disabled none
/// runs, and low-power mode turns off flashing, counting up and sparkline
/// drawing.
pub proof fn lemma_animation_switches(c: AnimationConfig)
    ensures
        !c.enabled ==> !(c.enabled && c.spinner_enabled) && !(c.enabled && c.sync_pulse_enabled)
            && !(c.enabled && c.sparkline_draw_enabled && !c.low_power_mode) && !(c.enabled
            && !c.low_power_mode),
        c.low_power_mode ==> !(c.enabled && c.sparkline_draw_enabled && !c.low_power_mode) && !(
        c.enabled && !c.low_power_mode),
{
}

} // verus!

verus! {

/// A character allowed in an owner name (letters, digits, `-`, `_`) or,
/// with `dot`, in a repository name (which may also hold `.`).
pub open spec fn is_name_char(c: char, dot: bool) -> bool {
    alphanumeric_char(c) || c == '-' || c == '_' || (dot && c == '.')
}

/// An owner name (`dot` false) or repository name (`dot` true): allowed
/// characters only, not starting or ending with a hyphen.
pub open spec fn valid_github_name(s: Seq<char>, dot: bool) -> bool {
    &&& !(s.len() > 0 && (s[0] == '-' || s.last() == '-'))
    &&& forall|k: int| 0 <= k < s.len() ==> is_name_char(#[trigger] s[k], dot)
}

/// `s` holds a whitespace character.
pub open spec fn has_whitespace(s: Seq<char>) -> bool {
    exists|k: int| 0 <= k < s.len() && char_is_whitespace(#[trigger] s[k])
}

/// What is wrong with a repository written as `owner/name`.
#[derive(Clone, Copy, Debug, PartialEq, Eq, Structural)]
pub enum RepoFormatErrorKind {
    Empty,
    Whitespace,
    /// Not exactly one slash.
    SlashCount,
    EmptyOwner,
    EmptyName,
    InvalidOwner,
    InvalidName,
}

/// The first problem with `s` as an `owner/name` repository, if any.
pub open spec fn repo_format_problem(s: Seq<char>) -> Option<RepoFormatErrorKind> {
    if s.len() == 0 {
        Some(RepoFormatErrorKind::Empty)
    } else if has_whitespace(s) {
        Some(RepoFormatErrorKind::Whitespace)
    } else if count_char(s, '/') != 1 {
        Some(RepoFormatErrorKind::SlashCount)
    } else {
        let p = first_pos(s, '/');
        let owner = s.take(p);
        let name = s.skip(p + 1);
        if owner.len() == 0 {
            Some(RepoFormatErrorKind::EmptyOwner)
        } else if name.len() == 0 {
            Some(RepoFormatErrorKind::EmptyName)
        } else if !valid_github_name(owner, false) {
            Some(RepoFormatErrorKind::InvalidOwner)
        } else if !valid_github_name(name, true) {
            Some(RepoFormatErrorKind::InvalidName)
        } else {
            None
        }
    }
}

/// The text of a repository format error.
pub open spec fn repo_error_text(kind: RepoFormatErrorKind, repo: Seq<char>) -> Seq<char> {
    match kind {
        RepoFormatErrorKind::Empty => "Repository cannot be empty"@,
        RepoFormatErrorKind::Whitespace => "Repository '"@ + repo + "' contains whitespace"@,
        RepoFormatErrorKind::SlashCount => "Repository '"@ + repo
            + "' must be in 'owner/repo' format with exactly one slash"@,
        RepoFormatErrorKind::EmptyOwner => "Repository '"@ + repo + "' has empty owner"@,
        RepoFormatErrorKind::EmptyName => "Repository '"@ + repo + "' has empty repo name"@,
        RepoFormatErrorKind::InvalidOwner => "Repository '"@ + repo
            + "' has invalid owner name. Owner must be alphanumeric with hyphens/underscores, cannot start/end with hyphen"@,
        RepoFormatErrorKind::InvalidName => "Repository '"@ + repo
            + "' has invalid repo name. Name must be alphanumeric with hyphens/underscores/dots, cannot start/end with hyphen"@,
    }
}

/// A repository that is not in `owner/name` form.
pub struct RepoFormatError {
    pub kind: RepoFormatErrorKind,
    /// The repository as it was given.
    pub repo: String,
}

impl RepoFormatError {
    /// The error's text.
    pub fn message(&self) -> (s: String)
        ensures
            s@ == repo_error_text(self.kind, self.repo@),
    {
        let r = self.repo.as_str();
        match self.kind {
            RepoFormatErrorKind::Empty => String::from_str("Repository cannot be empty"),
            RepoFormatErrorKind::Whitespace => String::from_str("Repository '").concat(r).concat(
                "' contains whitespace",
            ),
            RepoFormatErrorKind::SlashCount => String::from_str("Repository '").concat(r).concat(
                "' must be in 'owner/repo' format with exactly one slash",
            ),
            RepoFormatErrorKind::EmptyOwner => String::from_str("Repository '").concat(r).concat(
                "' has empty owner",
            ),
            RepoFormatErrorKind::EmptyName => String::from_str("Repository '").concat(r).concat(
                "' has empty repo name",
            ),
            RepoFormatErrorKind::InvalidOwner => String::from_str("Repository '").concat(r).concat(
                "' has invalid owner name. Owner must be alphanumeric with hyphens/underscores, cannot start/end with hyphen",
            ),
            RepoFormatErrorKind::InvalidName => String::from_str("Repository '").concat(r).concat(
                "' has invalid repo name. Name must be alphanumeric with hyphens/underscores/dots, cannot start/end with hyphen",
            ),
        }
    }
}

fn valid_name_range(v: &Vec<char>, lo: usize, hi: usize, dot: bool) -> (b: bool)
    requires
        lo <= hi <= v@.len(),
    ensures
        b == valid_github_name(v@.subrange(lo as int, hi as int), dot),
{
    let ghost s = v@.subrange(lo as int, hi as int);
    if lo < hi && (v[lo] == '-' || v[hi - 1] == '-') {
        assert(s[0] == v@[lo as int]);
        assert(s.last() == v@[hi - 1]);
        return false;
    }
    let mut i: usize = lo;
    while i < hi
        invariant
            lo <= i <= hi,
            hi <= v@.len(),
            s == v@.subrange(lo as int, hi as int),
            forall|k: int| 0 <= k < i - lo ==> is_name_char(#[trigger] s[k], dot),
        decreases hi - i,
    {
        let c = v[i];
        if !(is_alphanumeric(c) || c == '-' || c == '_' || (dot && c == '.')) {
            assert(s[i - lo] == c);
            return false;
        }
        assert(s[i - lo] == c);
        i = i + 1;
    }
    proof {
        if lo < hi {
            assert(s[0] == v@[lo as int]);
            assert(s.last() == v@[hi - 1]);
        }
    }
    true
}

} // verus!

verus! {

/// The repositories shown in multi-repository mode, each as `owner/name`.
pub struct WatchlistConfig {
    pub repos: Vec<String>,
}

impl Default for WatchlistConfig {
    fn default() -> (c: WatchlistConfig)
        ensures
            c.repos@.len() == 0,
    {
        WatchlistConfig { repos: Vec::new() }
    }
}

/// The repositories of a watchlist, as character sequences.
pub open spec fn repo_views(v: Seq<String>) -> Seq<Seq<char>> {
    v.map_values(|s: String| s@)
}

/// `s` with every occurrence of `x` removed, the rest in order.
pub open spec fn remove_all(s: Seq<Seq<char>>, x: Seq<char>) -> Seq<Seq<char>>
    decreases s.len(),
{
    if s.len() == 0 {
        s
    } else {
        let r = remove_all(s.drop_last(), x);
        if s.last() == x {
            r
        } else {
            r.push(s.last())
        }
    }
}

/// Why a watchlist change was refused.
pub enum WatchlistError {
    /// The repository is not in `owner/name` form.
    InvalidFormat(RepoFormatError),
    /// The repository is already listed.
    AlreadyPresent(String),
    /// The repository is not listed.
    NotFound(String),
}

impl WatchlistError {
    /// The error's text.
    pub fn message(&self) -> (s: String)
        ensures
            s@ == (match self {
                WatchlistError::InvalidFormat(e) => repo_error_text(e.kind, e.repo@),
                WatchlistError::AlreadyPresent(r) => "Repository '"@ + r@ + "' is already in watchlist"@,
                WatchlistError::NotFound(r) => "Repository '"@ + r@ + "' not found in watchlist"@,
            }),
    {
        match self {
            WatchlistError::InvalidFormat(e) => e.message(),
            WatchlistError::AlreadyPresent(r) => String::from_str("Repository '").concat(
                r.as_str(),
            ).concat("' is already in watchlist"),
            WatchlistError::NotFound(r) => String::from_str("Repository '").concat(r.as_str()).concat(
                "' not found in watchlist",
            ),
        }
    }
}

fn format_error(kind: RepoFormatErrorKind, repo: &str) -> (e: RepoFormatError)
    ensures
        e.kind == kind,
        e.repo@ == repo@,
{
    RepoFormatError { kind, repo: String::from_str(repo) }
}

impl WatchlistConfig {
    /// Checks that `repo` is written `owner/name`: not empty, no whitespace,
    /// exactly one slash, both parts non-empty, the owner made of letters,
    /// digits, `-` and `_`, the name of those and `.`, neither starting nor
    /// ending with `-`.
    pub fn validate_repo_format(repo: &str) -> (r: Result<(), RepoFormatError>)
        ensures
            match r {
                Ok(()) => repo_format_problem(repo@) is None,
                Err(e) => repo_format_problem(repo@) == Some(e.kind) && e.repo@ == repo@,
            },
    {
        let v = chars_of(repo);
        let n = v.len();
        if n == 0 {
            return Err(format_error(RepoFormatErrorKind::Empty, repo));
        }
        let mut i: usize = 0;
        while i < n
            invariant
                v@ == repo@,
                n == v@.len(),
                i <= n,
                forall|k: int| 0 <= k < i ==> !char_is_whitespace(#[trigger] v@[k]),
            decreases n - i,
        {
            if is_whitespace(v[i]) {
                assert(char_is_whitespace(repo@[i as int]));
                return Err(format_error(RepoFormatErrorKind::Whitespace, repo));
            }
            i = i + 1;
        }
        assert(!has_whitespace(repo@));
        let mut count: usize = 0;
        let mut first: usize = n;
        i = 0;
        while i < n
            invariant
                v@ == repo@,
                n == v@.len(),
                i <= n,
                count <= i,
                count == count_char(v@.subrange(0, i as int), '/'),
                first == n ==> forall|k: int| 0 <= k < i ==> v@[k] != '/',
                first != n ==> first < i && is_first_pos(v@, '/', first as int),
            decreases n - i,
        {
            proof {
                lemma_count_char_step(v@, '/', i as int);
            }
            if v[i] == '/' {
                count = count + 1;
                if first == n {
                    first = i;
                }
            }
            i = i + 1;
        }
        assert(v@.subrange(0, n as int) =~= v@);
        if count != 1 {
            return Err(format_error(RepoFormatErrorKind::SlashCount, repo));
        }
        proof {
            crate::text::lemma_count_char_zero(v@, '/');
            if first == n {
                let k = choose|k: int| 0 <= k < v@.len() && v@[k] == '/';
                assert(v@[k] != '/');
            }
            lemma_first_pos(v@, '/', first as int);
            assert(repo@.take(first as int) =~= v@.subrange(0, first as int));
            assert(repo@.skip(first + 1) =~= v@.subrange(first + 1, n as int));
        }
        if first == 0 {
            return Err(format_error(RepoFormatErrorKind::EmptyOwner, repo));
        }
        if first + 1 == n {
            return Err(format_error(RepoFormatErrorKind::EmptyName, repo));
        }
        if !valid_name_range(&v, 0, first, false) {
            return Err(format_error(RepoFormatErrorKind::InvalidOwner, repo));
        }
        if !valid_name_range(&v, first + 1, n, true) {
            return Err(format_error(RepoFormatErrorKind::InvalidName, repo));
        }
        Ok(())
    }
}

} // verus!

verus! {

/// Every repository of the list is in `owner/name` form.
pub open spec fn all_repos_valid(repos: Seq<String>) -> bool {
    forall|i: int| 0 <= i < repos.len() ==> repo_format_problem(#[trigger] repos[i]@) is None
}

fn contains_repo(v: &Vec<String>, repo: &str) -> (r: bool)
    ensures
        r == repo_views(v@).contains(repo@),
{
    let mut i: usize = 0;
    while i < v.len()
        invariant
            i <= v@.len(),
            forall|k: int| 0 <= k < i ==> v@[k]@ != repo@,
        decreases v@.len() - i,
    {
        if str_eq(v[i].as_str(), repo) {
            assert(repo_views(v@)[i as int] == repo@);
            return true;
        }
        i = i + 1;
    }
    proof {
        if repo_views(v@).contains(repo@) {
            let k = choose|k: int| 0 <= k < repo_views(v@).len() && repo_views(v@)[k] == repo@;
            assert(v@[k]@ == repo@);
        }
    }
    false
}

impl WatchlistConfig {
    /// Checks every repository in order; the first malformed one is
    /// reported.
    pub fn validate_repos(&self) -> (r: Result<(), RepoFormatError>)
        ensures
            match r {
                Ok(()) => all_repos_valid(self.repos@),
                Err(e) => exists|i: int|
                    0 <= i < self.repos@.len() && repo_format_problem(#[trigger] self.repos@[i]@)
                        == Some(e.kind) && e.repo@ == self.repos@[i]@ && all_repos_valid(
                        self.repos@.take(i),
                    ),
            },
    {
        let mut i: usize = 0;
        while i < self.repos.len()
            invariant
                i <= self.repos@.len(),
                all_repos_valid(self.repos@.take(i as int)),
            decreases self.repos@.len() - i,
        {
            match WatchlistConfig::validate_repo_format(self.repos[i].as_str()) {
                Err(e) => {
                    assert(repo_format_problem(self.repos@[i as int]@) == Some(e.kind));
                    return Err(e);
                },
                Ok(()) => {},
            }
            assert forall|k: int| 0 <= k < i + 1 implies repo_format_problem(
                #[trigger] self.repos@.take(i + 1)[k]@,
            ) is None by {
                if k < i {
                    assert(self.repos@.take(i + 1)[k] == self.repos@.take(i as int)[k]);
                }
            }
            i = i + 1;
        }
        assert(self.repos@.take(i as int) =~= self.repos@);
        Ok(())
    }

    /// Adds a repository after checking its form; a repository already
    /// listed is refused. On refusal the list is unchanged.
    pub fn add_repo(&mut self, repo: String) -> (r: Result<(), WatchlistError>)
        ensures
            match r {
                Ok(()) => repo_format_problem(repo@) is None && !repo_views(old(self).repos@).contains(
                    repo@,
                ) && final(self).repos@ == old(self).repos@.push(repo),
                Err(WatchlistError::InvalidFormat(e)) => repo_format_problem(repo@) == Some(e.kind)
                    && e.repo@ == repo@ && final(self).repos@ == old(self).repos@,
                Err(WatchlistError::AlreadyPresent(s)) => repo_format_problem(repo@) is None
                    && repo_views(old(self).repos@).contains(repo@) && s@ == repo@
                    && final(self).repos@ == old(self).repos@,
                Err(WatchlistError::NotFound(_)) => false,
            },
    {
        match WatchlistConfig::validate_repo_format(repo.as_str()) {
            Err(e) => return Err(WatchlistError::InvalidFormat(e)),
            Ok(()) => {},
        }
        if contains_repo(&self.repos, repo.as_str()) {
            return Err(WatchlistError::AlreadyPresent(repo));
        }
        self.repos.push(repo);
        Ok(())
    }

    /// Removes every occurrence of a repository; one not listed is
    /// reported and the list is unchanged.
    pub fn remove_repo(&mut self, repo: &str) -> (r: Result<(), WatchlistError>)
        ensures
            repo_views(final(self).repos@) == remove_all(repo_views(old(self).repos@), repo@),
            match r {
                Ok(()) => repo_views(old(self).repos@).contains(repo@),
                Err(WatchlistError::NotFound(s)) => !repo_views(old(self).repos@).contains(repo@)
                    && s@ == repo@ && final(self).repos@ == old(self).repos@,
                Err(_) => false,
            },
    {
        let ghost old_views = repo_views(self.repos@);
        let initial_len = self.repos.len();
        let mut kept: Vec<String> = Vec::new();
        let mut i: usize = 0;
        while i < self.repos.len()
            invariant
                i <= self.repos@.len(),
                initial_len == self.repos@.len(),
                old_views == repo_views(self.repos@),
                repo_views(kept@) == remove_all(old_views.take(i as int), repo@),
                kept@.len() <= i,
                kept@.len() == i ==> kept@ == self.repos@.take(i as int),
            decreases self.repos@.len() - i,
        {
            assert(old_views.take(i + 1).drop_last() =~= old_views.take(i as int));
            if !str_eq(self.repos[i].as_str(), repo) {
                let s = self.repos[i].clone();
                let ghost before = kept@;
                kept.push(s);
                assert(repo_views(kept@) =~= repo_views(before).push(s@));
                proof {
                    if before.len() == i {
                        assert(kept@ =~= self.repos@.take(i + 1));
                    }
                }
            }
            i = i + 1;
        }
        assert(old_views.take(i as int) =~= old_views);
        assert(self.repos@.take(i as int) =~= self.repos@);
        proof {
            lemma_remove_all_absent(old_views, repo@);
        }
        if kept.len() == initial_len {
            return Err(WatchlistError::NotFound(String::from_str(repo)));
        }
        self.repos = kept;
        Ok(())
    }

    /// Whether no repository is listed.
    pub fn is_empty(&self) -> (b: bool)
        ensures
            b == (self.repos@.len() == 0),
    {
        self.repos.len() == 0
    }

    /// Number of listed repositories.
    pub fn len(&self) -> (n: usize)
        ensures
            n == self.repos@.len(),
    {
        self.repos.len()
    }

    /// The watchlist to use given what was read from the file: the file's
    /// when every entry is well formed, else an empty one.
    pub fn load(parsed: Option<WatchlistConfig>) -> (c: WatchlistConfig)
        ensures
            match parsed {
                Some(p) => if all_repos_valid(p.repos@) {
                    c.repos@ == p.repos@
                } else {
                    c.repos@.len() == 0
                },
                None => c.repos@.len() == 0,
            },
    {
        match parsed {
            None => WatchlistConfig::default(),
            Some(p) => match p.validate_repos() {
                Ok(()) => p,
                Err(e) => {
                    proof {
                        let i = choose|i: int|
                            0 <= i < p.repos@.len() && repo_format_problem(
                                #[trigger] p.repos@[i]@,
                            ) == Some(e.kind) && e.repo@ == p.repos@[i]@ && all_repos_valid(
                                p.repos@.take(i),
                            );
                        assert(repo_format_problem(p.repos@[i]@) is Some);
                    }
                    WatchlistConfig::default()
                },
            },
        }
    }
}

/// Removing a repository that is not listed leaves the list as it is, and
/// an absent repository is exactly one that removal cannot shorten the
/// list for.
pub proof fn lemma_remove_all_absent(s: Seq<Seq<char>>, x: Seq<char>)
    ensures
        !s.contains(x) ==> remove_all(s, x) == s,
        s.contains(x) ==> remove_all(s, x).len() < s.len(),
        remove_all(s, x).len() <= s.len(),
        !remove_all(s, x).contains(x),
    decreases s.len(),
{
    if s.len() > 0 {
        let p = s.drop_last();
        lemma_remove_all_absent(p, x);
        let r = remove_all(p, x);
        if !s.contains(x) {
            if p.contains(x) {
                let k = choose|k: int| 0 <= k < p.len() && p[k] == x;
                assert(s[k] == x);
            }
            assert(s[s.len() - 1] == s.last());
            assert(p.push(s.last()) =~= s);
        }
        if s.contains(x) && s.last() != x {
            let k = choose|k: int| 0 <= k < s.len() && s[k] == x;
            assert(p[k] == x);
        }
        if s.last() != x && r.push(s.last()).contains(x) {
            let k = choose|k: int| 0 <= k < r.len() + 1 && r.push(s.last())[k] == x;
            assert(r[k] == x);
        }
    }
}

/// Adding a repository and then removing it gives back the list as it was.
pub proof fn lemma_add_then_remove_restores(s: Seq<Seq<char>>, x: Seq<char>)
    requires
        !s.contains(x),
    ensures
        remove_all(s.push(x), x) == s,
{
    assert(s.push(x).drop_last() =~= s);
    lemma_remove_all_absent(s, x);
}

} // verus!

verus! {

/// The longest auto-refresh interval, in minutes (a day).
pub const MAX_AUTO_REFRESH_MINUTES: u64 = 1440;

/// How often the dashboard refreshes by itself.
#[derive(Clone, Copy, Debug, PartialEq, Eq, Structural)]
pub struct AutoRefreshConfig {
    /// Interval in minutes; 0 disables auto-refresh.
    pub auto_refresh_minutes: u64,
}

/// Interval used when the file leaves it out: an hour, to spare the rate
/// limit.
pub fn default_auto_refresh_minutes() -> (m: u64)
    ensures
        m == 60,
{
    60
}

impl Default for AutoRefreshConfig {
    fn default() -> (c: AutoRefreshConfig)
        ensures
            c.auto_refresh_minutes == 60,
    {
        AutoRefreshConfig { auto_refresh_minutes: default_auto_refresh_minutes() }
    }
}

/// The shortest auto-refresh interval, in minutes, to spare the rate limit.
pub const MIN_AUTO_REFRESH_MINUTES: u64 = 5;

/// `m` brought into five minutes to a day; 0 (auto-refresh off) stays.
pub open spec fn capped_minutes(m: u64) -> u64 {
    if m == 0 {
        0
    } else if m < MIN_AUTO_REFRESH_MINUTES {
        MIN_AUTO_REFRESH_MINUTES
    } else if m > MAX_AUTO_REFRESH_MINUTES {
        MAX_AUTO_REFRESH_MINUTES
    } else {
        m
    }
}

/// The interval of `m` minutes in seconds, `None` when auto-refresh is off.
pub open spec fn refresh_secs(m: u64) -> Option<u64> {
    if m == 0 {
        None
    } else {
        Some((m * 60) as u64)
    }
}

impl AutoRefreshConfig {
    /// The interval brought into five minutes to a day, 0 (off) kept
    /// (applied on load and on save).
    pub fn capped(&self) -> (c: AutoRefreshConfig)
        ensures
            c.auto_refresh_minutes == capped_minutes(self.auto_refresh_minutes),
    {
        if self.auto_refresh_minutes == 0 {
            AutoRefreshConfig { auto_refresh_minutes: 0 }
        } else if self.auto_refresh_minutes < MIN_AUTO_REFRESH_MINUTES {
            AutoRefreshConfig { auto_refresh_minutes: MIN_AUTO_REFRESH_MINUTES }
        } else if self.auto_refresh_minutes > MAX_AUTO_REFRESH_MINUTES {
            AutoRefreshConfig { auto_refresh_minutes: MAX_AUTO_REFRESH_MINUTES }
        } else {
            AutoRefreshConfig { auto_refresh_minutes: self.auto_refresh_minutes }
        }
    }

    /// The settings to use given what was read from the file: an hour when
    /// nothing could be read, else the file's interval brought into five
    /// minutes to a day (0, off, kept).
    pub fn load(parsed: Option<AutoRefreshConfig>) -> (c: AutoRefreshConfig)
        ensures
            c.auto_refresh_minutes == (match parsed {
                None => 60,
                Some(p) => capped_minutes(p.auto_refresh_minutes),
            }),
    {
        match parsed {
            None => AutoRefreshConfig::default(),
            Some(p) => p.capped(),
        }
    }

    /// The interval in seconds, or `None` when auto-refresh is off.
    pub fn auto_refresh_secs(&self) -> (r: Option<u64>)
        requires
            self.auto_refresh_minutes * 60 <= u64::MAX,
        ensures
            r == refresh_secs(self.auto_refresh_minutes),
    {
        if self.auto_refresh_minutes == 0 {
            None
        } else {
            Some(self.auto_refresh_minutes * 60)
        }
    }

    /// Whether auto-refresh is on.
    pub fn is_enabled(&self) -> (b: bool)
        ensures
            b == (self.auto_refresh_minutes > 0),
    {
        self.auto_refresh_minutes > 0
    }
}

/// Auto-refresh is on exactly when there is an interval in seconds (for
/// every interval whose seconds fit in 64 bits).
pub proof fn lemma_enabled_iff_interval(c: AutoRefreshConfig)
    requires
        c.auto_refresh_minutes * 60 <= u64::MAX,
    ensures
        (c.auto_refresh_minutes > 0) == (refresh_secs(c.auto_refresh_minutes) is Some),
{
}

/// A loaded interval is off or lies between five minutes and a day, so
/// its length in seconds always fits.
pub proof fn lemma_loaded_interval_bounded(parsed: Option<AutoRefreshConfig>, c: AutoRefreshConfig)
    requires
        c.auto_refresh_minutes == (match parsed {
            None => 60,
            Some(p) => capped_minutes(p.auto_refresh_minutes),
        }),
    ensures
        c.auto_refresh_minutes <= MAX_AUTO_REFRESH_MINUTES,
        c.auto_refresh_minutes == 0 || c.auto_refresh_minutes >= MIN_AUTO_REFRESH_MINUTES,
        c.auto_refresh_minutes * 60 <= u64::MAX,
{
}

} // verus!
