//! The date picker widget's configuration and interaction logic.
//!
//! A [`DatePicker`] holds the selected date together with the configuration
//! the host applied through the builder methods. The host renders the
//! calendar from [`crate::calendar::grid_dates`], classifies each cell with
//! [`DatePicker::day_cell`], and feeds clicks back through
//! [`DatePicker::click_day`], the steppers and the month and year controls.

use crate::date::add_days;
use crate::date::days_in_month_of;
use crate::date::is_standard_weekend;
use crate::date::max_day_index;
use crate::date::standard_weekend_of;
use crate::date::Date;
use crate::date::MAX_YEAR;
use crate::date::MIN_YEAR;
use vstd::prelude::*;

verus! {

/// An RGB color for highlighted day labels.
#[derive(Clone, Copy, PartialEq, Eq, Structural, Debug)]
pub struct Color {
    pub red: u8,
    pub green: u8,
    pub blue: u8,
}

/// What a single cell of the month grid is.
#[derive(Clone, Copy, PartialEq, Eq, Structural, Debug)]
pub enum DayCellKind {
    /// A date of an adjacent month: shown empty, no click target.
    Filler,
    /// A date of the shown month that cannot be clicked: outside the
    /// configured bounds, or already the selected date.
    Disabled,
    /// A clickable day of the shown month.
    Enabled,
}

/// How a single cell of the month grid is rendered.
#[derive(Clone, Copy, PartialEq, Eq, Structural, Debug)]
pub struct DayCell {
    pub kind: DayCellKind,
    /// Whether the day label uses the weekend color.
    pub highlighted: bool,
    /// The day-of-month number the label shows.
    pub label_day: u32,
}

/// The date is outside the closed interval given by the optional bounds.
pub open spec fn out_of_bounds(min: Option<Date>, max: Option<Date>, d: Date) -> bool {
    ||| (match min {
        Some(m) => d.before(m),
        None => false,
    })
    ||| (match max {
        Some(m) => m.before(d),
        None => false,
    })
}

/// Classification of a grid cell: filler when the month differs from the
/// selected date's month; otherwise disabled when out of bounds or equal to
/// the selected date; otherwise enabled.
pub open spec fn cell_kind_of(selected: Date, min: Option<Date>, max: Option<Date>, d: Date) -> DayCellKind {
    if d.month != selected.month {
        DayCellKind::Filler
    } else if d == selected || out_of_bounds(min, max, d) {
        DayCellKind::Disabled
    } else {
        DayCellKind::Enabled
    }
}

/// The enablement rule of day cells spelled out: within the shown month, a
/// day equal to the lower bound is enabled (the bound is inclusive, the
/// comparison strict), a day beyond either bound is disabled, and the
/// selected day itself is disabled.
pub proof fn lemma_day_enablement(selected: Date, min: Option<Date>, max: Option<Date>, d: Date)
    requires
        d.month == selected.month,
    ensures
        min matches Some(m) && d.before(m) ==> cell_kind_of(selected, min, max, d)
            is Disabled,
        max matches Some(m) && m.before(d) ==> cell_kind_of(selected, min, max, d)
            is Disabled,
        d == selected ==> cell_kind_of(selected, min, max, d) is Disabled,
        (min matches Some(m) && d == m) && d != selected && !(max matches Some(m) && m.before(d))
            ==> cell_kind_of(selected, min, max, d) is Enabled,
{
}

/// A step lands outside the bounds at year-and-month granularity: the
/// target's (year, month) lies before the lower bound's or after the upper
/// bound's. The exact day plays no part in this check.
pub open spec fn month_bound_blocks(min: Option<Date>, max: Option<Date>, nd: Date) -> bool {
    ||| (match min {
        Some(m) => m.year > nd.year || (m.year == nd.year && m.month > nd.month),
        None => false,
    })
    ||| (match max {
        Some(m) => m.year < nd.year || (m.year == nd.year && m.month < nd.month),
        None => false,
    })
}

/// The year the numeric year input settles on: clamped to the bound years,
/// the upper bound applied last.
pub open spec fn clamped_year_of(min: Option<Date>, max: Option<Date>, y: int) -> int {
    let lo = (match min {
        Some(m) => if y < m.year { m.year as int } else { y },
        None => y,
    });
    match max {
        Some(m) => if lo > m.year { m.year as int } else { lo },
        None => lo,
    }
}

/// First month the dropdown offers, 0-based: the lower bound's month when
/// that bound lies in the selected date's year (so the bound's own month is
/// offered), else 0.
pub open spec fn month_menu_lo(min: Option<Date>, selected: Date) -> int {
    match min {
        Some(m) => if m.year == selected.year { m.month - 1 } else { 0 },
        None => 0,
    }
}

/// Exclusive 0-based end of the dropdown's range: the upper bound's month
/// when that bound lies in the selected date's year (so the bound's own
/// month is not offered), else 12.
pub open spec fn month_menu_hi(max: Option<Date>, selected: Date) -> int {
    match max {
        Some(m) => if m.year == selected.year { m.month - 1 } else { 12 },
        None => 12,
    }
}

/// A calendar date picker: the selected date plus the configuration the
/// builder methods set. The host owns one per widget identity and frame.
pub struct DatePicker<F: Fn(Date) -> bool> {
    /// Stable identity the host keys its per-widget popup state by.
    pub id: u64,
    /// The selected date the widget displays and mutates.
    pub date: Date,
    /// Optional inclusive lower bound on selectable days.
    pub min_date: Option<Date>,
    /// Optional inclusive upper bound on selectable days.
    pub max_date: Option<Date>,
    /// Weeks start on Sunday instead of Monday.
    pub sunday_first: bool,
    /// The popup may be dragged by the host.
    pub movable: bool,
    /// Pattern the host formats the display-button label with.
    pub format_string: String,
    /// Label color for days the weekend predicate flags.
    pub weekend_color: Color,
    /// Which days count as weekend for highlighting.
    pub weekend_func: F,
    /// Whether weekend days are highlighted at all.
    pub highlight_weekend: bool,
}

impl<F: Fn(Date) -> bool> DatePicker<F> {
    /// The picker's dates are valid and its weekend predicate accepts every
    /// valid date.
    pub open spec fn wf(self) -> bool {
        &&& self.date.valid()
        &&& (match self.min_date {
            Some(d) => d.valid(),
            None => true,
        })
        &&& (match self.max_date {
            Some(d) => d.valid(),
            None => true,
        })
        &&& forall|d: Date| d.valid() ==> #[trigger] call_requires(self.weekend_func, (d,))
    }

    /// Everything but the selected date is unchanged.
    pub open spec fn same_config(self, other: Self) -> bool {
        &&& self.id == other.id
        &&& self.min_date == other.min_date
        &&& self.max_date == other.max_date
        &&& self.sunday_first == other.sunday_first
        &&& self.movable == other.movable
        &&& self.format_string == other.format_string
        &&& self.weekend_color == other.weekend_color
        &&& self.weekend_func == other.weekend_func
        &&& self.highlight_weekend == other.highlight_weekend
    }

    /// Sets the minimum date that can be picked.
    pub fn min_date(self, min_date: Date) -> (r: Self)
        requires
            min_date.valid(),
        ensures
            r == (DatePicker { min_date: Some(min_date), ..self }),
    {
        DatePicker { min_date: Some(min_date), ..self }
    }

    /// Sets the maximum date that can be picked.
    pub fn max_date(self, max_date: Date) -> (r: Self)
        requires
            max_date.valid(),
        ensures
            r == (DatePicker { max_date: Some(max_date), ..self }),
    {
        DatePicker { max_date: Some(max_date), ..self }
    }

    /// When set, calendar weeks start on Sunday instead of Monday.
    pub fn sunday_first(self, flag: bool) -> (r: Self)
        ensures
            r == (DatePicker { sunday_first: flag, ..self }),
    {
        DatePicker { sunday_first: flag, ..self }
    }

    /// When set, the host lets the popup be dragged.
    pub fn movable(self, flag: bool) -> (r: Self)
        ensures
            r == (DatePicker { movable: flag, ..self }),
    {
        DatePicker { movable: flag, ..self }
    }

    /// Sets the pattern the display-button label is formatted with.
    pub fn date_format(self, new_format: &str) -> (r: Self)
        ensures
            r.format_string@ == new_format@,
            r == (DatePicker { format_string: r.format_string, ..self }),
    {
        DatePicker { format_string: new_format.to_owned(), ..self }
    }

    /// Switches weekend highlighting on or off.
    pub fn highlight_weekend(self, highlight: bool) -> (r: Self)
        ensures
            r == (DatePicker { highlight_weekend: highlight, ..self }),
    {
        DatePicker { highlight_weekend: highlight, ..self }
    }

    /// Sets the color weekend day labels are drawn in.
    pub fn highlight_weekend_color(self, color: Color) -> (r: Self)
        ensures
            r == (DatePicker { weekend_color: color, ..self }),
    {
        DatePicker { weekend_color: color, ..self }
    }

    /// Replaces the rule deciding which days count as weekend.
    pub fn weekend_days<G: Fn(Date) -> bool>(self, is_weekend: G) -> (r: DatePicker<G>)
        ensures
            r.weekend_func == is_weekend,
            r.id == self.id,
            r.date == self.date,
            r.min_date == self.min_date,
            r.max_date == self.max_date,
            r.sunday_first == self.sunday_first,
            r.movable == self.movable,
            r.format_string == self.format_string,
            r.weekend_color == self.weekend_color,
            r.highlight_weekend == self.highlight_weekend,
    {
        DatePicker {
            id: self.id,
            date: self.date,
            min_date: self.min_date,
            max_date: self.max_date,
            sunday_first: self.sunday_first,
            movable: self.movable,
            format_string: self.format_string,
            weekend_color: self.weekend_color,
            weekend_func: is_weekend,
            highlight_weekend: self.highlight_weekend,
        }
    }

    /// Runs the configured weekend predicate on a date.
    pub fn is_weekend_day(&self, d: &Date) -> (r: bool)
        requires
            self.wf(),
            d.valid(),
        ensures
            call_ensures(self.weekend_func, (*d,), r),
    {
        (self.weekend_func)(*d)
    }

    /// Classifies one grid cell: filler, disabled or enabled, and whether
    /// its label uses the weekend color. `is_weekend` is what the configured
    /// predicate said of the date.
    pub fn day_cell(&self, d: &Date, is_weekend: bool) -> (c: DayCell)
        requires
            d.valid(),
        ensures
            c.kind == cell_kind_of(self.date, self.min_date, self.max_date, *d),
            c.highlighted == (self.highlight_weekend && is_weekend && !(c.kind is Filler)),
            c.label_day == d.day,
    {
        let kind = if d.month != self.date.month {
            DayCellKind::Filler
        } else {
            let out = (match &self.min_date {
                Some(m) => d.is_before(m),
                None => false,
            }) || (match &self.max_date {
                Some(m) => m.is_before(d),
                None => false,
            });
            if (d.year == self.date.year && d.month == self.date.month && d.day == self.date.day)
                || out {
                DayCellKind::Disabled
            } else {
                DayCellKind::Enabled
            }
        };
        let highlighted = self.highlight_weekend && is_weekend && !matches!(kind, DayCellKind::Filler);
        DayCell { kind, highlighted, label_day: d.day }
    }

    /// Classifies one grid cell under the configured weekend rule: runs the
    /// predicate on the date and classifies with its answer.
    pub fn render_day(&self, d: &Date) -> (c: DayCell)
        requires
            self.wf(),
            d.valid(),
        ensures
            c.kind == cell_kind_of(self.date, self.min_date, self.max_date, *d),
            c.label_day == d.day,
            exists|b: bool|
                #[trigger] call_ensures(self.weekend_func, (*d,), b) && c.highlighted
                    == (self.highlight_weekend && b && !(c.kind is Filler)),
    {
        let is_weekend = self.is_weekend_day(d);
        self.day_cell(d, is_weekend)
    }

    /// A click on a day cell: selects the date when its cell is enabled,
    /// otherwise changes nothing. Returns whether the date was selected.
    pub fn click_day(&mut self, d: Date) -> (applied: bool)
        requires
            old(self).wf(),
            d.valid(),
        ensures
            applied == (cell_kind_of(old(self).date, old(self).min_date, old(self).max_date, d)
                is Enabled),
            applied ==> final(self).date == d,
            !applied ==> final(self).date == old(self).date,
            final(self).same_config(*old(self)),
            final(self).wf(),
    {
        let cell = self.day_cell(&d, false);
        match cell.kind {
            DayCellKind::Enabled => {
                self.date = d;
                true
            },
            _ => false,
        }
    }

    /// A click on a month or year stepper: moves the selected date by a
    /// fixed number of days (30 for the month steppers, 365 for the year
    /// steppers, negative to go back), unless the target's year and month
    /// fall outside the bounds, in which case nothing changes. Returns the
    /// date the step aimed at.
    pub fn step_by_days(&mut self, delta: i64) -> (nd: Date)
        requires
            old(self).wf(),
            0 <= old(self).date.day_index() + delta <= max_day_index(),
        ensures
            nd.valid(),
            nd.day_index() == old(self).date.day_index() + delta,
            final(self).date == (if month_bound_blocks(old(self).min_date, old(self).max_date, nd) {
                old(self).date
            } else {
                nd
            }),
            final(self).same_config(*old(self)),
            final(self).wf(),
    {
        let nd = add_days(&self.date, delta);
        let blocked = (match &self.min_date {
            Some(m) => m.year > nd.year || (m.year == nd.year && m.month > nd.month),
            None => false,
        }) || (match &self.max_date {
            Some(m) => m.year < nd.year || (m.year == nd.year && m.month < nd.month),
            None => false,
        });
        if !blocked {
            self.date = nd;
        }
        nd
    }

    /// The year the numeric year input shows after clamping `y` to the
    /// bound years.
    pub fn clamped_year(&self, y: i32) -> (r: i32)
        ensures
            r == clamped_year_of(self.min_date, self.max_date, y as int),
    {
        let lo = match &self.min_date {
            Some(m) => if y < m.year {
                m.year
            } else {
                y
            },
            None => y,
        };
        match &self.max_date {
            Some(m) => if lo > m.year {
                m.year
            } else {
                lo
            },
            None => lo,
        }
    }

    /// An edit of the numeric year input: sets the selected date's year.
    /// The day of month must exist in the target year's month.
    pub fn set_year(&mut self, year: i32)
        requires
            old(self).wf(),
            MIN_YEAR <= year <= MAX_YEAR,
            old(self).date.day <= days_in_month_of(year as int, old(self).date.month as int),
        ensures
            final(self).date == (Date { year, ..old(self).date }),
            final(self).same_config(*old(self)),
            final(self).wf(),
    {
        self.date = Date { year, month: self.date.month, day: self.date.day };
    }

    /// The months the dropdown offers, as a half-open range `lo..hi` of
    /// 0-based months. A bound restricts the range only when it lies in the
    /// selected date's year: the lower bound's own month is offered, the
    /// upper bound's own month is not.
    pub fn month_menu_range(&self) -> (r: (u32, u32))
        requires
            self.wf(),
        ensures
            r.0 == month_menu_lo(self.min_date, self.date),
            r.1 == month_menu_hi(self.max_date, self.date),
    {
        let lo = match &self.min_date {
            Some(m) => if m.year == self.date.year {
                m.month - 1
            } else {
                0
            },
            None => 0,
        };
        let hi = match &self.max_date {
            Some(m) => if m.year == self.date.year {
                m.month - 1
            } else {
                12
            },
            None => 12,
        };
        (lo, hi)
    }

    /// A selection from the month dropdown: sets the selected date's month
    /// to the 0-based `month0`. The day of month must exist in the target
    /// month.
    pub fn select_month(&mut self, month0: u32)
        requires
            old(self).wf(),
            month0 < 12,
            old(self).date.day <= days_in_month_of(old(self).date.year as int, month0 + 1),
        ensures
            final(self).date == (Date { month: (month0 + 1) as u32, ..old(self).date }),
            final(self).same_config(*old(self)),
            final(self).wf(),
    {
        self.date = Date { year: self.date.year, month: month0 + 1, day: self.date.day };
    }

    /// A click on the "Today" button: sets the selected date to the current
    /// date, which the host supplies in the selected date's own timezone.
    pub fn set_today(&mut self, today: Date)
        requires
            old(self).wf(),
            today.valid(),
        ensures
            final(self).date == today,
            final(self).same_config(*old(self)),
            final(self).wf(),
    {
        self.date = today;
    }
}

/// The default weekend rule: the date falls on Saturday or Sunday.
fn standard_weekend(d: Date) -> (r: bool)
    requires
        d.valid(),
    ensures
        r == standard_weekend_of(d),
{
    is_standard_weekend(&d)
}

/// Creates a date picker with its documented defaults: no bounds, Monday
/// first, popup not movable, label pattern `%Y-%m-%d`, weekends (Saturday
/// or Sunday) highlighted in a red tone.
pub fn new(id: u64, date: Date) -> (r: DatePicker<impl Fn(Date) -> bool>)
    requires
        date.valid(),
    ensures
        r.wf(),
        r.id == id,
        r.date == date,
        r.min_date is None,
        r.max_date is None,
        r.sunday_first == false,
        r.movable == false,
        r.format_string@ == "%Y-%m-%d"@,
        r.weekend_color == (Color { red: 196u8, green: 0u8, blue: 0u8 }),
        r.highlight_weekend == true,
        forall|d: Date, b: bool|
            d.valid() && #[trigger] call_ensures(r.weekend_func, (d,), b) ==> b
                == standard_weekend_of(d),
{
    DatePicker {
        id,
        date,
        min_date: None,
        max_date: None,
        sunday_first: false,
        movable: false,
        format_string: "%Y-%m-%d".to_owned(),
        weekend_color: Color { red: 196, green: 0, blue: 0 },
        weekend_func: standard_weekend,
        highlight_weekend: true,
    }
}

} // verus!
