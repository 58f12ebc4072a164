//! How far each area of the compliance work has come.

use crate::json::{
    as_text, as_u64, field, fields_view, find_field, items_view, lookup, no_fields, then_array,
    then_field, then_object, then_text, then_u64, FieldsView, Json, JsonView, NumberView,
};
use crate::response::{
    body_of, error_line, error_text, success, ApiResponse, BodyKind, Rendered, ResponseView,
};
use crate::text::{decimal, join, joined, no_lines, number_text, opt_text, same, texts};
use vstd::prelude::*;
use vstd::string::*;

verus! {

/// The areas that the overall figure is the average of.
pub open spec fn overall_areas() -> Seq<Seq<char>> {
    seq!["employees"@, "policies"@, "account_information"@, "controls"@, "risk_scenarios"@]
}

/// The areas that are shown, in order, with their titles.
pub open spec fn area_order() -> Seq<(Seq<char>, Seq<char>)> {
    seq![
        ("account_information"@, "Company information"@),
        ("employees"@, "People"@),
        ("vendors"@, "Vendors"@),
        ("devices"@, "Add Assets"@),
        ("policies"@, "Review Policies"@),
        ("risk_scenarios"@, "Add & Review Risks"@),
        ("controls"@, "Add & Review Controls"@),
    ]
}

/// How many of the items of an area are done.
pub struct AreaTally {
    pub area: String,
    pub compliant: u64,
    pub total: u64,
}

pub struct TallyView {
    pub area: Seq<char>,
    pub compliant: u64,
    pub total: u64,
}

impl View for AreaTally {
    type V = TallyView;

    open spec fn view(&self) -> TallyView {
        TallyView { area: self.area@, compliant: self.compliant, total: self.total }
    }
}

/// What is odd in the figures of an area.
pub enum TallyWarning {
    /// A count that is no integer.
    NotInteger { area: String, value: Json },
    /// A count above the total.
    AboveTotal { area: String, count: u64, total: u64 },
    /// Counts that together are above the total.
    SumAboveTotal { area: String, total: u64 },
}

pub enum WarningView {
    NotInteger { area: Seq<char>, value: JsonView },
    AboveTotal { area: Seq<char>, count: u64, total: u64 },
    SumAboveTotal { area: Seq<char>, total: u64 },
}

impl View for TallyWarning {
    type V = WarningView;

    open spec fn view(&self) -> WarningView {
        match self {
            TallyWarning::NotInteger { area, value } => WarningView::NotInteger {
                area: area@,
                value: value@,
            },
            TallyWarning::AboveTotal { area, count, total } => WarningView::AboveTotal {
                area: area@,
                count: *count,
                total: *total,
            },
            TallyWarning::SumAboveTotal { area, total } => WarningView::SumAboveTotal {
                area: area@,
                total: *total,
            },
        }
    }
}

/// A warning in words; `value` is the JSON text of the value that it is about,
/// where it is about one.
pub open spec fn warning_text(w: WarningView, value: Seq<char>) -> Seq<char> {
    match w {
        WarningView::NotInteger { area, .. } => "Warning: tally bucket for area '"@ + area
            + "' has non-integer value "@ + value + " - ignoring it."@,
        WarningView::AboveTotal { area, count, total } => "Warning: tally bucket for area '"@ + area
            + "' has value "@ + decimal(count as nat) + " exceeding total "@ + decimal(total as nat)
            + " - ignoring it."@,
        WarningView::SumAboveTotal { area, total } => "Warning: tally buckets for area '"@ + area
            + "' sum past total "@ + decimal(total as nat) + " - capping at 100%."@,
    }
}

/// The texts among `items`, each once, in the order of their first places.
pub open spec fn distinct_texts(items: Seq<JsonView>) -> Seq<Seq<char>>
    decreases items.len(),
{
    if items.len() == 0 {
        Seq::empty()
    } else {
        let rest = distinct_texts(items.drop_last());
        match as_text(items.last()) {
            Some(s) => if rest.contains(s) {
                rest
            } else {
                rest.push(s)
            },
            None => rest,
        }
    }
}

pub open spec fn least(a: int, b: int) -> int {
    if a <= b {
        a
    } else {
        b
    }
}

/// What a state counts: an integer up to the total, and else nothing.
pub open spec fn usable(counts: FieldsView, state: Seq<char>, total: u64) -> nat {
    match then_u64(lookup(counts, state)) {
        Some(n) => if n <= total {
            n as nat
        } else {
            0
        },
        None => 0,
    }
}

pub open spec fn usable_sum(counts: FieldsView, states: Seq<Seq<char>>, total: u64) -> nat
    decreases states.len(),
{
    if states.len() == 0 {
        0
    } else {
        usable_sum(counts, states.drop_last(), total) + usable(counts, states.last(), total)
    }
}

/// How many items are done: what the states count together, up to the total.
pub open spec fn done(counts: FieldsView, states: Seq<Seq<char>>, total: u64) -> int {
    least(usable_sum(counts, states, total) as int, total as int)
}

/// What is odd in the counts of the states.
pub open spec fn count_warnings(
    area: Seq<char>,
    counts: FieldsView,
    states: Seq<Seq<char>>,
    total: u64,
) -> Seq<WarningView>
    decreases states.len(),
{
    if states.len() == 0 {
        Seq::empty()
    } else {
        let before = states.drop_last();
        let rest = count_warnings(area, counts, before, total);
        match lookup(counts, states.last()) {
            None => rest,
            Some(v) => match as_u64(v) {
                None => rest.push(WarningView::NotInteger { area, value: v }),
                Some(n) => if n > total {
                    rest.push(WarningView::AboveTotal { area, count: n, total })
                } else if least(done(counts, before, total) + n, u64::MAX as int) > total {
                    rest.push(WarningView::SumAboveTotal { area, total })
                } else {
                    rest
                },
            },
        }
    }
}

pub open spec fn total_of(meta: JsonView) -> u64 {
    match then_u64(field(meta, "total"@)) {
        Some(n) => n,
        None => 0,
    }
}

/// The states that count as done.
pub open spec fn states_of(meta: JsonView) -> Seq<Seq<char>> {
    match then_array(field(meta, "compliant_states"@)) {
        Some(items) => distinct_texts(items),
        None => Seq::empty(),
    }
}

/// The counts by state.
pub open spec fn counts_of(meta: JsonView) -> FieldsView {
    match then_object(field(meta, "tally"@)) {
        Some(fields) => fields,
        None => Seq::empty(),
    }
}

/// The figures of one area, where an item has them.
pub open spec fn tally_of(item: JsonView) -> Option<TallyView> {
    match field(item, "meta"@) {
        Some(meta) => match then_text(field(meta, "area"@)) {
            Some(area) => Some(
                TallyView {
                    area,
                    compliant: done(counts_of(meta), states_of(meta), total_of(meta)) as u64,
                    total: total_of(meta),
                },
            ),
            None => None,
        },
        None => None,
    }
}

pub open spec fn warnings_of(item: JsonView) -> Seq<WarningView> {
    match field(item, "meta"@) {
        Some(meta) => match then_text(field(meta, "area"@)) {
            Some(area) => count_warnings(area, counts_of(meta), states_of(meta), total_of(meta)),
            None => Seq::empty(),
        },
        None => Seq::empty(),
    }
}

/// The figures of all areas, in the order of the items.
pub open spec fn tallies(items: Seq<JsonView>) -> Seq<TallyView>
    decreases items.len(),
{
    if items.len() == 0 {
        Seq::empty()
    } else {
        let rest = tallies(items.drop_last());
        match tally_of(items.last()) {
            Some(t) => rest.push(t),
            None => rest,
        }
    }
}

pub open spec fn all_warnings(items: Seq<JsonView>) -> Seq<WarningView>
    decreases items.len(),
{
    if items.len() == 0 {
        Seq::empty()
    } else {
        all_warnings(items.drop_last()) + warnings_of(items.last())
    }
}

/// The figures of an area: the last ones, where there are several.
pub open spec fn figures(list: Seq<TallyView>, area: Seq<char>) -> Option<TallyView>
    decreases list.len(),
{
    if list.len() == 0 {
        None
    } else if list.last().area == area {
        Some(list.last())
    } else {
        figures(list.drop_last(), area)
    }
}

/// The areas without figures.
pub open spec fn missing(list: Seq<TallyView>, areas: Seq<Seq<char>>) -> Seq<Seq<char>>
    decreases areas.len(),
{
    if areas.len() == 0 {
        Seq::empty()
    } else {
        let rest = missing(list, areas.drop_last());
        if figures(list, areas.last()) is None {
            rest.push(areas.last())
        } else {
            rest
        }
    }
}

/// The figures of the areas that have them.
pub open spec fn present(list: Seq<TallyView>, areas: Seq<Seq<char>>) -> Seq<TallyView>
    decreases areas.len(),
{
    if areas.len() == 0 {
        Seq::empty()
    } else {
        let rest = present(list, areas.drop_last());
        match figures(list, areas.last()) {
            Some(t) => rest.push(t),
            None => rest,
        }
    }
}

/// A line of the table. `counted` says whether the area is part of the overall
/// figure.
pub struct StatusRow {
    pub label: String,
    pub compliant: u64,
    pub total: u64,
    pub counted: bool,
}

pub struct RowView {
    pub label: Seq<char>,
    pub compliant: u64,
    pub total: u64,
    pub counted: bool,
}

impl View for StatusRow {
    type V = RowView;

    open spec fn view(&self) -> RowView {
        RowView {
            label: self.label@,
            compliant: self.compliant,
            total: self.total,
            counted: self.counted,
        }
    }
}

pub open spec fn row(list: Seq<TallyView>, area: Seq<char>, label: Seq<char>) -> RowView {
    match figures(list, area) {
        Some(t) => RowView {
            label,
            compliant: t.compliant,
            total: t.total,
            counted: overall_areas().contains(area),
        },
        None => RowView {
            label,
            compliant: 0,
            total: 0,
            counted: overall_areas().contains(area),
        },
    }
}

/// The figures as they are shown. The overall figure is the average over
/// `overall_count` areas, those without figures among them; `overall` has the
/// figures of the others.
pub struct StatusTable {
    pub rows: Vec<StatusRow>,
    pub overall: Vec<AreaTally>,
    pub overall_count: usize,
    pub odd_figures: Vec<TallyWarning>,
    pub missing_areas: Option<String>,
}

pub struct TableView {
    pub rows: Seq<RowView>,
    pub overall: Seq<TallyView>,
    pub overall_count: nat,
    pub odd_figures: Seq<WarningView>,
    pub missing_areas: Option<Seq<char>>,
}

pub open spec fn tally_views(v: Seq<AreaTally>) -> Seq<TallyView> {
    Seq::new(v.len(), |i: int| v[i]@)
}

pub open spec fn warning_views(v: Seq<TallyWarning>) -> Seq<WarningView> {
    Seq::new(v.len(), |i: int| v[i]@)
}

pub open spec fn row_views(v: Seq<StatusRow>) -> Seq<RowView> {
    Seq::new(v.len(), |i: int| v[i]@)
}

impl View for StatusTable {
    type V = TableView;

    open spec fn view(&self) -> TableView {
        TableView {
            rows: row_views(self.rows@),
            overall: tally_views(self.overall@),
            overall_count: self.overall_count as nat,
            odd_figures: warning_views(self.odd_figures@),
            missing_areas: opt_text(self.missing_areas),
        }
    }
}

pub open spec fn missing_note(areas: Seq<Seq<char>>) -> Option<Seq<char>> {
    if areas.len() == 0 {
        None
    } else {
        Some(
            "Warning: compliance_stats response is missing areas: "@ + join(areas, ", "@)
                + " - overall % may be understated."@,
        )
    }
}

/// The table for the items of a response.
pub open spec fn table(items: Seq<JsonView>) -> TableView {
    let list = tallies(items);
    TableView {
        rows: Seq::new(
            area_order().len(),
            |i: int| row(list, area_order()[i].0, area_order()[i].1),
        ),
        overall: present(list, overall_areas()),
        overall_count: overall_areas().len(),
        odd_figures: all_warnings(items),
        missing_areas: missing_note(missing(list, overall_areas())),
    }
}

/// What is shown of the compliance figures.
pub enum StatusReport {
    /// The response as JSON.
    Json(String),
    Table(StatusTable),
}

pub enum ReportView {
    Json(Seq<char>),
    Table(TableView),
}

impl View for StatusReport {
    type V = ReportView;

    open spec fn view(&self) -> ReportView {
        match self {
            StatusReport::Json(s) => ReportView::Json(s@),
            StatusReport::Table(t) => ReportView::Table(t@),
        }
    }
}

/// The items of a response.
pub open spec fn items_of(r: ResponseView) -> Seq<JsonView> {
    match body_of(r) {
        Some(body) => match then_array(field(body, "data"@)) {
            Some(items) => items,
            None => Seq::empty(),
        },
        None => Seq::empty(),
    }
}

/// What is shown, or why nothing is.
pub open spec fn report(
    r: ResponseView,
    json: bool,
    bin: Seq<char>,
    compact: Seq<char>,
    pretty: Seq<char>,
) -> Result<ReportView, Seq<char>> {
    if !success(r) {
        Err(error_line(r, bin, compact))
    } else if json {
        Ok(ReportView::Json(pretty))
    } else {
        Ok(ReportView::Table(table(items_of(r))))
    }
}

pub open spec fn report_view(r: Result<StatusReport, String>) -> Result<ReportView, Seq<char>> {
    match r {
        Ok(x) => Ok(x@),
        Err(e) => Err(e@),
    }
}

impl TallyWarning {
    /// The warning in words; `value` is the JSON text of the value that it is
    /// about, where it is about one.
    pub fn message(&self, value: &str) -> (r: String)
        ensures
            r@ == warning_text(self@, value@),
    {
        match self {
            TallyWarning::NotInteger { area, .. } => "Warning: tally bucket for area '".to_owned().concat(
                area.as_str(),
            ).concat("' has non-integer value ").concat(value).concat(" - ignoring it."),
            TallyWarning::AboveTotal { area, count, total } =>
            "Warning: tally bucket for area '".to_owned().concat(area.as_str()).concat(
                "' has value ",
            ).concat(number_text(*count as u128).as_str()).concat(" exceeding total ").concat(
                number_text(*total as u128).as_str(),
            ).concat(" - ignoring it."),
            TallyWarning::SumAboveTotal { area, total } =>
            "Warning: tally buckets for area '".to_owned().concat(area.as_str()).concat(
                "' sum past total ",
            ).concat(number_text(*total as u128).as_str()).concat(" - capping at 100%."),
        }
    }
}

fn holds(list: &[String], s: &str) -> (r: bool)
    ensures
        r == texts(list@).contains(s@),
{
    let mut i: usize = 0;
    while i < list.len()
        invariant
            i <= list@.len(),
            forall|j: int| 0 <= j < i ==> #[trigger] texts(list@)[j] != s@,
        decreases list@.len() - i,
    {
        if same(list[i].as_str(), s) {
            assert(texts(list@)[i as int] == s@);
            return true;
        }
        i = i + 1;
    }
    false
}

fn distinct(items: &Vec<Json>) -> (r: Vec<String>)
    ensures
        texts(r@) == distinct_texts(items_view(items@)),
{
    let ghost all = items_view(items@);
    let mut out: Vec<String> = Vec::new();
    assert(texts(out@) =~= Seq::empty());
    let mut i: usize = 0;
    while i < items.len()
        invariant
            i <= items@.len(),
            all == items_view(items@),
            texts(out@) == distinct_texts(all.take(i as int)),
        decreases items@.len() - i,
    {
        assert(all.take(i + 1).drop_last() =~= all.take(i as int));
        if let Some(s) = items[i].as_str() {
            if !holds(out.as_slice(), s) {
                let ghost before = out@;
                out.push(s.to_owned());
                assert(texts(out@) =~= texts(before).push(s@));
            }
        }
        i = i + 1;
    }
    assert(all.take(i as int) =~= all);
    out
}

/// Counts what is done, and notes what is odd.
fn count_done(
    area: &str,
    counts: &Vec<(String, Json)>,
    states: &Vec<String>,
    total: u64,
    odd: &mut Vec<TallyWarning>,
) -> (r: u64)
    ensures
        r == done(fields_view(counts@), texts(states@), total),
        warning_views(final(odd)@) == warning_views(old(odd)@) + count_warnings(
            area@,
            fields_view(counts@),
            texts(states@),
            total,
        ),
{
    let ghost all = texts(states@);
    let ghost fields = fields_view(counts@);
    let ghost start = warning_views(odd@);
    let mut acc: u64 = 0;
    let mut i: usize = 0;
    assert(start =~= start + Seq::<WarningView>::empty());
    while i < states.len()
        invariant
            i <= states@.len(),
            all == texts(states@),
            fields == fields_view(counts@),
            acc == done(fields, all.take(i as int), total),
            warning_views(odd@) == start + count_warnings(area@, fields, all.take(i as int), total),
        decreases states@.len() - i,
    {
        assert(all.take(i + 1).drop_last() =~= all.take(i as int));
        let ghost before = odd@;
        if let Some(v) = find_field(counts, states[i].as_str()) {
            match v.as_u64() {
                None => {
                    let w = TallyWarning::NotInteger { area: area.to_owned(), value: v.copy() };
                    odd.push(w);
                    assert(warning_views(odd@) =~= warning_views(before).push(w@));
                },
                Some(n) => {
                    if n > total {
                        let w = TallyWarning::AboveTotal {
                            area: area.to_owned(),
                            count: n,
                            total,
                        };
                        odd.push(w);
                        assert(warning_views(odd@) =~= warning_views(before).push(w@));
                    } else {
                        let sum: u64 = acc.saturating_add(n);
                        if sum > total {
                            let w = TallyWarning::SumAboveTotal { area: area.to_owned(), total };
                            odd.push(w);
                            assert(warning_views(odd@) =~= warning_views(before).push(w@));
                            acc = total;
                        } else {
                            acc = sum;
                        }
                    }
                },
            }
        }
        assert(warning_views(odd@) =~= start + count_warnings(
            area@,
            fields,
            all.take(i + 1),
            total,
        ));
        i = i + 1;
    }
    assert(all.take(i as int) =~= all);
    acc
}

/// The figures of one item, and what is odd in them.
fn read_tally(item: &Json, odd: &mut Vec<TallyWarning>) -> (r: Option<AreaTally>)
    ensures
        match r {
            Some(t) => tally_of(item@) == Some(t@),
            None => tally_of(item@) is None,
        },
        warning_views(final(odd)@) == warning_views(old(odd)@) + warnings_of(item@),
{
    let ghost start = warning_views(odd@);
    assert(start =~= start + Seq::<WarningView>::empty());
    let meta = match item.get("meta") {
        Some(m) => m,
        None => {
            return None;
        },
    };
    let area = match meta.get("area") {
        Some(v) => v.as_str(),
        None => None,
    };
    let area = match area {
        Some(a) => a,
        None => {
            return None;
        },
    };
    let total: u64 = match meta.get("total") {
        Some(v) => match v.as_u64() {
            Some(n) => n,
            None => 0,
        },
        None => 0,
    };
    let items = match meta.get("compliant_states") {
        Some(v) => v.as_array(),
        None => None,
    };
    let states = match items {
        Some(items) => distinct(items),
        None => no_lines(),
    };
    let counts = match meta.get("tally") {
        Some(v) => v.as_object(),
        None => None,
    };
    let compliant: u64 = match counts {
        Some(counts) => count_done(area, counts, &states, total, odd),
        None => {
            let none = no_fields();
            count_done(area, &none, &states, total, odd)
        },
    };
    Some(AreaTally { area: area.to_owned(), compliant, total })
}

fn read_tallies(items: &Vec<Json>, odd: &mut Vec<TallyWarning>) -> (r: Vec<AreaTally>)
    ensures
        tally_views(r@) == tallies(items_view(items@)),
        warning_views(final(odd)@) == warning_views(old(odd)@) + all_warnings(items_view(items@)),
{
    let ghost all = items_view(items@);
    let ghost start = warning_views(odd@);
    let mut out: Vec<AreaTally> = Vec::new();
    assert(tally_views(out@) =~= Seq::empty());
    assert(start =~= start + Seq::<WarningView>::empty());
    let mut i: usize = 0;
    while i < items.len()
        invariant
            i <= items@.len(),
            all == items_view(items@),
            tally_views(out@) == tallies(all.take(i as int)),
            warning_views(odd@) == start + all_warnings(all.take(i as int)),
        decreases items@.len() - i,
    {
        assert(all.take(i + 1).drop_last() =~= all.take(i as int));
        if let Some(t) = read_tally(&items[i], odd) {
            let ghost before = out@;
            out.push(t);
            assert(tally_views(out@) =~= tally_views(before).push(t@));
        }
        assert(start + all_warnings(all.take(i as int)) + warnings_of(all[i as int]) =~= start
            + all_warnings(all.take(i + 1)));
        i = i + 1;
    }
    assert(all.take(i as int) =~= all);
    out
}

fn find_figures(list: &Vec<AreaTally>, area: &str) -> (r: Option<(u64, u64)>)
    ensures
        match r {
            Some(p) => figures(tally_views(list@), area@) == Some(
                TallyView { area: area@, compliant: p.0, total: p.1 },
            ),
            None => figures(tally_views(list@), area@) is None,
        },
{
    let ghost all = tally_views(list@);
    let mut n: usize = list.len();
    assert(all.take(n as int) =~= all);
    while n > 0
        invariant
            n <= list@.len(),
            all == tally_views(list@),
            figures(all, area@) == figures(all.take(n as int), area@),
        decreases n,
    {
        assert(all.take(n as int).drop_last() =~= all.take(n - 1));
        let t = &list[n - 1];
        assert(all[n - 1] == t@);
        if same(t.area.as_str(), area) {
            return Some((t.compliant, t.total));
        }
        n = n - 1;
    }
    None
}

fn overall_area_names() -> (r: Vec<String>)
    ensures
        texts(r@) == overall_areas(),
{
    let mut r: Vec<String> = Vec::new();
    r.push("employees".to_owned());
    r.push("policies".to_owned());
    r.push("account_information".to_owned());
    r.push("controls".to_owned());
    r.push("risk_scenarios".to_owned());
    assert(texts(r@) =~= overall_areas());
    r
}

fn add_row(rows: &mut Vec<StatusRow>, list: &Vec<AreaTally>, area: &str, label: &str)
    ensures
        row_views(final(rows)@) == row_views(old(rows)@).push(
            row(tally_views(list@), area@, label@),
        ),
{
    let overall = overall_area_names();
    let counted = holds(overall.as_slice(), area);
    let (compliant, total) = match find_figures(list, area) {
        Some(p) => p,
        None => (0, 0),
    };
    let r = StatusRow { label: label.to_owned(), compliant, total, counted };
    rows.push(r);
    assert(row_views(rows@) =~= row_views(old(rows)@).push(r@));
}

fn make_table(items: &Vec<Json>) -> (r: StatusTable)
    ensures
        r@ == table(items_view(items@)),
{
    let mut odd: Vec<TallyWarning> = Vec::new();
    assert(warning_views(odd@) =~= Seq::empty());
    let list = read_tallies(items, &mut odd);
    assert(warning_views(odd@) =~= all_warnings(items_view(items@)));
    let names = overall_area_names();
    let mut absent: Vec<String> = Vec::new();
    let mut overall: Vec<AreaTally> = Vec::new();
    assert(texts(absent@) =~= Seq::empty());
    assert(tally_views(overall@) =~= Seq::empty());
    let ghost view = tally_views(list@);
    let mut i: usize = 0;
    while i < names.len()
        invariant
            i <= names@.len(),
            texts(names@) == overall_areas(),
            view == tally_views(list@),
            texts(absent@) == missing(view, overall_areas().take(i as int)),
            tally_views(overall@) == present(view, overall_areas().take(i as int)),
        decreases names@.len() - i,
    {
        assert(overall_areas().take(i + 1).drop_last() =~= overall_areas().take(i as int));
        assert(texts(names@)[i as int] == names@[i as int]@);
        match find_figures(&list, names[i].as_str()) {
            Some((compliant, total)) => {
                let t = AreaTally { area: names[i].clone(), compliant, total };
                let ghost before = overall@;
                overall.push(t);
                assert(tally_views(overall@) =~= tally_views(before).push(t@));
            },
            None => {
                let ghost before = absent@;
                absent.push(names[i].clone());
                assert(texts(absent@) =~= texts(before).push(names@[i as int]@));
            },
        }
        i = i + 1;
    }
    assert(overall_areas().take(i as int) =~= overall_areas());
    let missing_areas = if absent.len() == 0 {
        None
    } else {
        Some(
            "Warning: compliance_stats response is missing areas: ".to_owned().concat(
                joined(absent.as_slice(), ", ").as_str(),
            ).concat(" - overall % may be understated."),
        )
    };
    let mut rows: Vec<StatusRow> = Vec::new();
    add_row(&mut rows, &list, "account_information", "Company information");
    add_row(&mut rows, &list, "employees", "People");
    add_row(&mut rows, &list, "vendors", "Vendors");
    add_row(&mut rows, &list, "devices", "Add Assets");
    add_row(&mut rows, &list, "policies", "Review Policies");
    add_row(&mut rows, &list, "risk_scenarios", "Add & Review Risks");
    add_row(&mut rows, &list, "controls", "Add & Review Controls");
    assert(row_views(rows@) =~= table(items_view(items@)).rows);
    StatusTable {
        rows,
        overall,
        overall_count: names.len(),
        odd_figures: odd,
        missing_areas,
    }
}

/// What is shown of the compliance figures: as JSON where that was asked for,
/// and else as a table. A refusal shows what the API says of it.
pub fn print_status(response: &ApiResponse, json: bool, bin: &str, rendered: &Rendered) -> (r: Result<
    StatusReport,
    String,
>)
    ensures
        report_view(r) == report(response@, json, bin@, rendered.compact@, rendered.pretty@),
{
    if !response.is_success() {
        return Err(error_text(response, bin, rendered.compact.as_str()));
    }
    if json {
        return Ok(StatusReport::Json(rendered.pretty.clone()));
    }
    let items = match response.body() {
        Some(body) => match body.get("data") {
            Some(data) => data.as_array(),
            None => None,
        },
        None => None,
    };
    match items {
        Some(items) => Ok(StatusReport::Table(make_table(items))),
        None => {
            let none: Vec<Json> = Vec::new();
            assert(items_view(none@) =~= Seq::empty());
            Ok(StatusReport::Table(make_table(&none)))
        },
    }
}

/// No area is more than fully done.
pub proof fn law_done_within_total(item: JsonView)
    ensures
        match tally_of(item) {
            Some(t) => t.compliant <= t.total,
            None => true,
        },
{
}

/// Every area of the overall figure has a line in the table.
pub proof fn law_overall_areas_are_shown(area: Seq<char>)
    requires
        overall_areas().contains(area),
    ensures
        exists|i: int| 0 <= i < area_order().len() && (#[trigger] area_order()[i]).0 == area,
{
    assert(area_order()[0].0 == "account_information"@);
    assert(area_order()[1].0 == "employees"@);
    assert(area_order()[4].0 == "policies"@);
    assert(area_order()[5].0 == "risk_scenarios"@);
    assert(area_order()[6].0 == "controls"@);
}

/// A state that is named again adds nothing to the states that are counted.
pub proof fn law_states_count_once(items: Seq<JsonView>, again: Seq<char>)
    requires
        distinct_texts(items).contains(again),
    ensures
        distinct_texts(items.push(JsonView::Text(again))) == distinct_texts(items),
{
    assert(items.push(JsonView::Text(again)).drop_last() =~= items);
}

/// What the states count together, where each counts an integer or nothing.
pub open spec fn counted(counts: FieldsView, states: Seq<Seq<char>>) -> int
    decreases states.len(),
{
    if states.len() == 0 {
        0
    } else {
        counted(counts, states.drop_first()) + (match lookup(counts, states[0]) {
            Some(JsonView::Number(NumberView::Unsigned(n))) => n as int,
            _ => 0,
        })
    }
}

/// Counts that are integers and together no more than the total are the
/// figure, all of them, and nothing is odd about them.
pub proof fn law_sound_counts_add_up(
    area: Seq<char>,
    counts: FieldsView,
    states: Seq<Seq<char>>,
    total: u64,
)
    requires
        forall|i: int|
            0 <= i < states.len() ==> match lookup(counts, #[trigger] states[i]) {
                Some(JsonView::Number(NumberView::Unsigned(n))) => true,
                Some(_) => false,
                None => true,
            },
        counted(counts, states) <= total,
    ensures
        done(counts, states, total) == counted(counts, states),
        usable_sum(counts, states, total) == counted(counts, states),
        count_warnings(area, counts, states, total).len() == 0,
    decreases states.len(),
{
    if states.len() > 0 {
        let before = states.drop_last();
        lemma_counted_last(counts, states);
        lemma_counted_positive(counts, before);
        assert forall|i: int| 0 <= i < before.len() implies match lookup(
            counts,
            #[trigger] before[i],
        ) {
            Some(JsonView::Number(NumberView::Unsigned(n))) => true,
            Some(_) => false,
            None => true,
        } by {
            assert(before[i] == states[i]);
        }
        assert(states[states.len() - 1] == states.last());
        law_sound_counts_add_up(area, counts, before, total);
    }
}

proof fn lemma_counted_last(counts: FieldsView, states: Seq<Seq<char>>)
    requires
        states.len() > 0,
    ensures
        counted(counts, states) == counted(counts, states.drop_last()) + counted(
            counts,
            seq![states.last()],
        ),
        counted(counts, seq![states.last()]) == (match lookup(counts, states.last()) {
            Some(JsonView::Number(NumberView::Unsigned(n))) => n as int,
            _ => 0,
        }),
    decreases states.len(),
{
    let one = seq![states.last()];
    assert(one.drop_first() =~= Seq::<Seq<char>>::empty());
    assert(counted(counts, one.drop_first()) == 0);
    if states.len() == 1 {
        assert(states =~= one);
        assert(states.drop_last() =~= Seq::<Seq<char>>::empty());
        assert(counted(counts, states.drop_last()) == 0);
    } else {
        lemma_counted_last(counts, states.drop_first());
        assert(states.drop_first().drop_last() =~= states.drop_last().drop_first());
        assert(states.drop_first().last() == states.last());
    }
}

proof fn lemma_counted_positive(counts: FieldsView, states: Seq<Seq<char>>)
    ensures
        counted(counts, states) >= 0,
    decreases states.len(),
{
    if states.len() > 0 {
        lemma_counted_positive(counts, states.drop_first());
    }
}

/// Counts that are integers up to the total but together above it fill the
/// area, and that is told, unless no number is above the total.
pub proof fn law_counts_are_capped(
    area: Seq<char>,
    counts: FieldsView,
    states: Seq<Seq<char>>,
    total: u64,
)
    requires
        forall|i: int|
            0 <= i < states.len() ==> match lookup(counts, #[trigger] states[i]) {
                Some(JsonView::Number(NumberView::Unsigned(n))) => n <= total,
                Some(_) => false,
                None => true,
            },
        u64::MAX > total,
        counted(counts, states) > total,
    ensures
        done(counts, states, total) == total,
        count_warnings(area, counts, states, total).contains(
            WarningView::SumAboveTotal { area, total },
        ),
    decreases states.len(),
{
    if states.len() == 0 {
        assert(counted(counts, states) == 0);
    } else {
        let before = states.drop_last();
        lemma_counted_last(counts, states);
        assert forall|i: int| 0 <= i < before.len() implies match lookup(
            counts,
            #[trigger] before[i],
        ) {
            Some(JsonView::Number(NumberView::Unsigned(n))) => n <= total,
            Some(_) => false,
            None => true,
        } by {
            assert(before[i] == states[i]);
        }
        assert(states[states.len() - 1] == states.last());
        let rest = count_warnings(area, counts, before, total);
        let w = WarningView::SumAboveTotal { area, total };
        if counted(counts, before) > total {
            law_counts_are_capped(area, counts, before, total);
            let k = choose|k: int| 0 <= k < rest.len() && rest[k] == w;
            let all = count_warnings(area, counts, states, total);
            assert(all[k] == w);
        } else {
            law_sound_counts_add_up(area, counts, before, total);
            assert(count_warnings(area, counts, states, total) == rest.push(w));
            assert(rest.push(w)[rest.len() as int] == w);
        }
    }
}

/// A count that is no integer, or is above the total, adds nothing to the
/// figure and is told; every other count is part of it.
pub proof fn law_each_count(
    area: Seq<char>,
    counts: FieldsView,
    before: Seq<Seq<char>>,
    state: Seq<char>,
    total: u64,
)
    ensures
        ({
            let was = done(counts, before, total);
            let is = done(counts, before.push(state), total);
            let told = count_warnings(area, counts, before.push(state), total);
            let earlier = count_warnings(area, counts, before, total);
            match lookup(counts, state) {
                None => is == was && told == earlier,
                Some(JsonView::Number(NumberView::Unsigned(n))) => if n > total {
                    is == was && told == earlier.push(
                        WarningView::AboveTotal { area, count: n, total },
                    )
                } else if was + n > total {
                    is == total && told == (if total < u64::MAX {
                        earlier.push(WarningView::SumAboveTotal { area, total })
                    } else {
                        earlier
                    })
                } else {
                    is == was + n && told == earlier
                },
                Some(v) => is == was && told == earlier.push(
                    WarningView::NotInteger { area, value: v },
                ),
            }
        }),
        0 <= done(counts, before, total) <= total,
        done(counts, Seq::empty(), total) == 0,
        count_warnings(area, counts, Seq::empty(), total).len() == 0,
{
    assert(before.push(state).drop_last() =~= before);
}

/// The states that count are the texts that are named, each of them once.
pub proof fn law_named_states_count(items: Seq<JsonView>, s: Seq<char>)
    ensures
        distinct_texts(items).contains(s) <==> items.contains(JsonView::Text(s)),
        distinct_texts(items).no_duplicates(),
    decreases items.len(),
{
    if items.len() > 0 {
        let before = items.drop_last();
        let rest = distinct_texts(before);
        law_named_states_count(before, s);
        let all = distinct_texts(items);
        if let Some(t) = as_text(items.last()) {
            assert(items.last() == JsonView::Text(t));
            assert(all.contains(s) <==> rest.contains(s) || s == t) by {
                if !rest.contains(t) {
                    assert(all == rest.push(t));
                    if rest.contains(s) {
                        let k = choose|k: int| 0 <= k < rest.len() && rest[k] == s;
                        assert(all[k] == s);
                    }
                    if s == t {
                        assert(all[rest.len() as int] == s);
                    }
                }
            }
        }
        assert(items.contains(JsonView::Text(s)) <==> before.contains(JsonView::Text(s))
            || items.last() == JsonView::Text(s)) by {
            if before.contains(JsonView::Text(s)) {
                let k = choose|k: int| 0 <= k < before.len() && before[k] == JsonView::Text(s);
                assert(items[k] == JsonView::Text(s));
            }
            if items.last() == JsonView::Text(s) {
                assert(items[items.len() - 1] == JsonView::Text(s));
            }
            if items.contains(JsonView::Text(s)) {
                let k = choose|k: int| 0 <= k < items.len() && items[k] == JsonView::Text(s);
                if k < before.len() {
                    assert(before[k] == JsonView::Text(s));
                }
            }
        }
    } else {
        assert(!items.contains(JsonView::Text(s)));
    }
}

/// The figures of an item come from its `meta`: its area, its total, and what
/// its tally says of the states that count as done.
pub proof fn law_figures_come_from_meta(
    item: JsonView,
    meta: JsonView,
    area: Seq<char>,
    total: u64,
    named: Seq<JsonView>,
    counts: FieldsView,
)
    requires
        field(item, "meta"@) == Some(meta),
        field(meta, "area"@) == Some(JsonView::Text(area)),
        field(meta, "total"@) == Some(JsonView::Number(NumberView::Unsigned(total))),
        field(meta, "compliant_states"@) == Some(JsonView::Array(named)),
        field(meta, "tally"@) == Some(JsonView::Object(counts)),
    ensures
        tally_of(item) matches Some(t) && t.area == area && t.total == total && t.compliant == done(
            counts,
            distinct_texts(named),
            total,
        ),
        warnings_of(item) == count_warnings(area, counts, distinct_texts(named), total),
{
}

/// An item without an area has no figures; one without a total, states or
/// tally has none done.
pub proof fn law_absent_figures_are_zero(item: JsonView)
    ensures
        then_text(then_field(field(item, "meta"@), "area"@)) is None ==> tally_of(item) is None
            && warnings_of(item).len() == 0,
        tally_of(item) matches Some(t) ==> {
            let meta = field(item, "meta"@)->0;
            &&& then_text(field(meta, "area"@)) == Some(t.area)
            &&& then_u64(field(meta, "total"@)) is None ==> t.total == 0 && t.compliant == 0
            &&& then_array(field(meta, "compliant_states"@)) is None ==> t.compliant == 0
            &&& then_object(field(meta, "tally"@)) is None ==> t.compliant == 0
        },
{
    if tally_of(item) is Some {
        let meta = field(item, "meta"@)->0;
        if then_object(field(meta, "tally"@)) is None {
            lemma_nothing_counted(states_of(meta), total_of(meta));
        }
    }
}

proof fn lemma_nothing_counted(states: Seq<Seq<char>>, total: u64)
    ensures
        usable_sum(Seq::empty(), states, total) == 0,
    decreases states.len(),
{
    if states.len() > 0 {
        lemma_nothing_counted(states.drop_last(), total);
    }
}

/// The figures of an area are those of the last item that has them.
pub proof fn law_last_figures_of_an_area(items: Seq<JsonView>, area: Seq<char>, i: int)
    requires
        0 <= i < items.len(),
        tally_of(items[i]) is Some,
        tally_of(items[i])->0.area == area,
        forall|j: int|
            i < j < items.len() ==> (tally_of(#[trigger] items[j]) matches Some(t) ==> t.area
                != area),
    ensures
        figures(tallies(items), area) == tally_of(items[i]),
    decreases items.len(),
{
    let before = items.drop_last();
    if i < items.len() - 1 {
        assert(before[i] == items[i]);
        assert forall|j: int| i < j < before.len() implies (tally_of(#[trigger] before[j]) matches
            Some(t) ==> t.area != area) by {
            assert(before[j] == items[j]);
        }
        law_last_figures_of_an_area(before, area, i);
        assert(items[items.len() - 1] == items.last());
    }
    if tally_of(items.last()) is Some {
        assert(tallies(items).drop_last() =~= tallies(before));
    }
}

/// An area that no item has figures for has none.
pub proof fn law_no_figures_of_an_area(items: Seq<JsonView>, area: Seq<char>)
    requires
        forall|j: int|
            0 <= j < items.len() ==> (tally_of(#[trigger] items[j]) matches Some(t) ==> t.area
                != area),
    ensures
        figures(tallies(items), area) is None,
    decreases items.len(),
{
    if items.len() > 0 {
        let before = items.drop_last();
        assert forall|j: int| 0 <= j < before.len() implies (tally_of(#[trigger] before[j]) matches
            Some(t) ==> t.area != area) by {
            assert(before[j] == items[j]);
        }
        law_no_figures_of_an_area(before, area);
        assert(items[items.len() - 1] == items.last());
        if tally_of(items.last()) is Some {
            assert(tallies(items).drop_last() =~= tallies(before));
        }
    }
}

/// A line shows the figures of an area under its title, or zeros.
pub open spec fn shows(
    row: RowView,
    list: Seq<TallyView>,
    area: Seq<char>,
    label: Seq<char>,
    counted: bool,
) -> bool {
    &&& row.label == label
    &&& row.counted == counted
    &&& figures(list, area) matches Some(t) ==> row.compliant == t.compliant && row.total == t.total
    &&& figures(list, area) is None ==> row.compliant == 0 && row.total == 0
}

/// The table has a line for each area, in the order in which the work is done,
/// and says of each whether it is part of the overall figure.
pub proof fn law_every_area_has_its_line(items: Seq<JsonView>)
    ensures
        ({
            let rows = table(items).rows;
            let list = tallies(items);
            &&& rows.len() == 7
            &&& shows(rows[0], list, "account_information"@, "Company information"@, true)
            &&& shows(rows[1], list, "employees"@, "People"@, true)
            &&& shows(rows[2], list, "vendors"@, "Vendors"@, false)
            &&& shows(rows[3], list, "devices"@, "Add Assets"@, false)
            &&& shows(rows[4], list, "policies"@, "Review Policies"@, true)
            &&& shows(rows[5], list, "risk_scenarios"@, "Add & Review Risks"@, true)
            &&& shows(rows[6], list, "controls"@, "Add & Review Controls"@, true)
        }),
        table(items).overall_count == 5,
{
    let o = overall_areas();
    assert(o[0] == "employees"@ && o[1] == "policies"@ && o[2] == "account_information"@ && o[3]
        == "controls"@ && o[4] == "risk_scenarios"@);
    reveal_strlit("vendors");
    reveal_strlit("devices");
    reveal_strlit("employees");
    reveal_strlit("policies");
    reveal_strlit("account_information");
    reveal_strlit("controls");
    reveal_strlit("risk_scenarios");
    assert("vendors"@.len() == 7 && "devices"@.len() == 7);
    assert("employees"@.len() == 9 && "policies"@.len() == 8 && "account_information"@.len() == 19
        && "controls"@.len() == 8 && "risk_scenarios"@.len() == 14);
    assert(!o.contains("vendors"@));
    assert(!o.contains("devices"@));
}

/// The overall figure is made of the figures of the areas that are part of it,
/// each once, and of nothing else; the areas that have none are told.
pub proof fn law_overall_takes_what_is_there(list: Seq<TallyView>, areas: Seq<Seq<char>>, i: int)
    requires
        0 <= i < areas.len(),
    ensures
        figures(list, areas[i]) matches Some(t) ==> present(list, areas).contains(t),
        figures(list, areas[i]) is None ==> missing(list, areas).contains(areas[i]),
        present(list, areas).len() + missing(list, areas).len() == areas.len(),
    decreases areas.len(),
{
    let before = areas.drop_last();
    let p = present(list, before);
    let m = missing(list, before);
    let all_p = present(list, areas);
    let all_m = missing(list, areas);
    if i < before.len() {
        assert(before[i] == areas[i]);
        law_overall_takes_what_is_there(list, before, i);
        if figures(list, areas[i]) is Some {
            let t = figures(list, areas[i])->0;
            let k = choose|k: int| 0 <= k < p.len() && p[k] == t;
            assert(all_p[k] == t);
        } else {
            let k = choose|k: int| 0 <= k < m.len() && m[k] == areas[i];
            assert(all_m[k] == areas[i]);
        }
    } else {
        if before.len() > 0 {
            law_overall_takes_what_is_there(list, before, 0);
        }
        if figures(list, areas[i]) is Some {
            assert(all_p[p.len() as int] == figures(list, areas[i])->0);
        } else {
            assert(all_m[m.len() as int] == areas[i]);
        }
    }
}

/// The warning about missing areas names them all, and there is none where
/// none is missing.
pub proof fn law_missing_areas_are_named(items: Seq<JsonView>)
    ensures
        ({
            let absent = missing(tallies(items), overall_areas());
            &&& table(items).overall == present(tallies(items), overall_areas())
            &&& absent.len() == 0 ==> table(items).missing_areas is None
            &&& absent.len() > 0 ==> table(items).missing_areas == Some(
                "Warning: compliance_stats response is missing areas: "@ + join(absent, ", "@)
                    + " - overall % may be understated."@,
            )
        }),
        table(items).odd_figures == all_warnings(items),
{
}

/// What is odd in one item is told, in the order of the items.
pub proof fn law_every_oddity_is_told(items: Seq<JsonView>, more: JsonView)
    ensures
        all_warnings(items.push(more)) == all_warnings(items) + warnings_of(more),
        all_warnings(Seq::empty()).len() == 0,
{
    assert(items.push(more).drop_last() =~= items);
}

/// Each warning names its area and its figures.
pub proof fn law_warnings_name_the_area(w: WarningView, value: Seq<char>)
    ensures
        match w {
            WarningView::NotInteger { area, .. } => warning_text(w, value)
                == "Warning: tally bucket for area '"@ + area + "' has non-integer value "@ + value
                + " - ignoring it."@,
            WarningView::AboveTotal { area, count, total } => warning_text(w, value)
                == "Warning: tally bucket for area '"@ + area + "' has value "@ + decimal(
                count as nat,
            ) + " exceeding total "@ + decimal(total as nat) + " - ignoring it."@,
            WarningView::SumAboveTotal { area, total } => warning_text(w, value)
                == "Warning: tally buckets for area '"@ + area + "' sum past total "@ + decimal(
                total as nat,
            ) + " - capping at 100%."@,
        },
{
}

/// The report is the table of what the response lists, or its JSON where that
/// was asked for, or the error of a refusal.
pub proof fn law_status_reports_the_response(
    r: ResponseView,
    bin: Seq<char>,
    compact: Seq<char>,
    pretty: Seq<char>,
    items: Seq<JsonView>,
)
    ensures
        !success(r) ==> report(r, true, bin, compact, pretty) == Err::<ReportView, Seq<char>>(
            error_line(r, bin, compact),
        ) && report(r, false, bin, compact, pretty) == Err::<ReportView, Seq<char>>(
            error_line(r, bin, compact),
        ),
        success(r) ==> report(r, true, bin, compact, pretty) == Ok::<ReportView, Seq<char>>(
            ReportView::Json(pretty),
        ),
        success(r) && r.kind == BodyKind::Json && field(r.body, "data"@) == Some(
            JsonView::Array(items),
        ) ==> report(r, false, bin, compact, pretty) == Ok::<ReportView, Seq<char>>(
            ReportView::Table(table(items)),
        ),
        success(r) && body_of(r) is None ==> report(r, false, bin, compact, pretty) == Ok::<
            ReportView,
            Seq<char>,
        >(ReportView::Table(table(Seq::empty()))),
{
}

} // verus!
