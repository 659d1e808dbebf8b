//! Filters of the parse and search commands, and the time window that a search asks for.
use vstd::prelude::*;

use crate::decimal::{i64_to_string, signed_decimal};
use crate::length::{adds_up, length_of, parse_duration, text_adds_up};
use crate::time::{
    add_span, on_calendar, seconds_after, seconds_before, sub_span, Length, Moment, Span, UtcTime,
    MAX_TIMESTAMP, MIN_TIMESTAMP,
};

verus! {

/// A peer's IP address, as the number its octets form.
#[derive(Clone, Copy, Debug, PartialEq, Eq, Structural)]
pub enum PeerIp {
    V4(u32),
    V6(u128),
}

/// What is wrong with the times of a filter.
#[derive(Debug)]
pub enum FilterError {
    /// The start is not a time; holds its text.
    StartTs(String),
    /// The end is not a time; holds its text.
    EndTs(String),
    /// The length is not a length of time; holds its text.
    Duration(String),
    /// Start, end and length were all given.
    AllThree,
    /// Fewer than two of start, end and length were given.
    FewerThanTwo,
}

/// The mathematical counterpart of `FilterError`.
pub enum Fault {
    StartTs(Seq<char>),
    EndTs(Seq<char>),
    Duration(Seq<char>),
    AllThree,
    FewerThanTwo,
}

impl View for FilterError {
    type V = Fault;

    open spec fn view(&self) -> Fault {
        match *self {
            FilterError::StartTs(text) => Fault::StartTs(text@),
            FilterError::EndTs(text) => Fault::EndTs(text@),
            FilterError::Duration(text) => Fault::Duration(text@),
            FilterError::AllThree => Fault::AllThree,
            FilterError::FewerThanTwo => Fault::FewerThanTwo,
        }
    }
}

impl Fault {
    /// The message shown for a fault.
    pub open spec fn message(self) -> Seq<char> {
        match self {
            Fault::StartTs(text) => "start-ts is not a valid time string: "@ + text,
            Fault::EndTs(text) => "end-ts is not a valid time string: "@ + text,
            Fault::Duration(text) => "duration is not a valid time duration string: "@ + text,
            Fault::AllThree => {
                "cannot specify start_ts, end_ts, and duration all at the same time"@
            },
            Fault::FewerThanTwo => "must specify two from: start_ts, end_ts and duration"@,
        }
    }
}

impl FilterError {
    /// The message shown for the error.
    pub fn message(&self) -> (res: String)
        ensures
            res@ == self@.message(),
    {
        match self {
            FilterError::StartTs(text) => {
                "start-ts is not a valid time string: ".to_string().concat(text.as_str())
            },
            FilterError::EndTs(text) => {
                "end-ts is not a valid time string: ".to_string().concat(text.as_str())
            },
            FilterError::Duration(text) => {
                "duration is not a valid time duration string: ".to_string().concat(text.as_str())
            },
            FilterError::AllThree => {
                "cannot specify start_ts, end_ts, and duration all at the same time".to_string()
            },
            FilterError::FewerThanTwo => {
                "must specify two from: start_ts, end_ts and duration".to_string()
            },
        }
    }
}

/// What the reader of time strings made of a filter's start and end: nothing, where the text
/// is missing or is no time.
#[derive(Clone, Copy, Debug)]
pub struct TimeReadings {
    pub start: Option<UtcTime>,
    pub end: Option<UtcTime>,
}

/// The mathematical counterpart of `TimeReadings`.
pub struct Readings {
    pub start: Option<Moment>,
    pub end: Option<Moment>,
}

impl View for TimeReadings {
    type V = Readings;

    open spec fn view(&self) -> Readings {
        Readings {
            start: match self.start {
                Some(t) => Some(t@),
                None => None,
            },
            end: match self.end {
                Some(t) => Some(t@),
                None => None,
            },
        }
    }
}

/// Whether `reading` is what `reader` made of a text that was given, or nothing where none was.
pub open spec fn is_reading<F: Fn(&str) -> Option<UtcTime>>(
    reader: F,
    given: Option<String>,
    reading: Option<UtcTime>,
) -> bool {
    match given {
        None => reading is None,
        Some(ts) => exists|text: &str| text@ == ts@ && #[trigger] call_ensures(
            reader,
            (text,),
            reading,
        ),
    }
}

fn read_time<F: Fn(&str) -> Option<UtcTime>>(reader: &F, given: &Option<String>) -> (res: Option<
    UtcTime,
>)
    requires
        forall|text: &str| call_requires(*reader, (text,)),
    ensures
        is_reading(*reader, *given, res),
{
    match given {
        None => None,
        Some(ts) => {
            let text = ts.as_str();
            reader(text)
        },
    }
}

/// Has a reader of time strings read a filter's start and end, where they are given.
pub fn read_times<F: Fn(&str) -> Option<UtcTime>>(
    start_ts: &Option<String>,
    end_ts: &Option<String>,
    reader: F,
) -> (res: TimeReadings)
    requires
        forall|text: &str| call_requires(reader, (text,)),
    ensures
        is_reading(reader, *start_ts, res.start),
        is_reading(reader, *end_ts, res.end),
{
    TimeReadings { start: read_time(&reader, start_ts), end: read_time(&reader, end_ts) }
}

/// The text in an optional string.
pub open spec fn text_of(s: Option<String>) -> Option<Seq<char>> {
    match s {
        Some(s) => Some(s@),
        None => None,
    }
}

/// The fault of a start or an end that was given and is no time; that of the start first.
pub open spec fn time_fault(
    start_ts: Option<Seq<char>>,
    end_ts: Option<Seq<char>>,
    readings: Readings,
) -> Option<Fault> {
    if start_ts is Some && readings.start is None {
        Some(Fault::StartTs(start_ts->0))
    } else if end_ts is Some && readings.end is None {
        Some(Fault::EndTs(end_ts->0))
    } else {
        None
    }
}

/// Whether `res` is the fault, or success where there is none.
pub open spec fn is_verdict(res: Result<(), FilterError>, fault: Option<Fault>) -> bool {
    match fault {
        None => res is Ok,
        Some(fault) => res matches Err(e) && e@ == fault,
    }
}

/// The filters on the messages of one file.
#[derive(Debug)]
pub struct ParseFilters {
    /// Filter by origin AS number.
    pub origin_asn: Option<u32>,
    /// Filter by network prefix.
    pub prefix: Option<String>,
    /// Take in super-prefixes.
    pub include_super: bool,
    /// Take in sub-prefixes.
    pub include_sub: bool,
    /// Filter by peer IP address.
    pub peer_ip: Vec<PeerIp>,
    /// Filter by peer AS number.
    pub peer_asn: Option<u32>,
    /// Filter by elem type: announce (a) or withdraw (w).
    pub elem_type: Option<String>,
    /// Filter by start time, inclusive.
    pub start_ts: Option<String>,
    /// Filter by end time, inclusive.
    pub end_ts: Option<String>,
    /// Filter by AS path regular expression.
    pub as_path: Option<String>,
}

impl ParseFilters {
    /// Checks that the start and the end, where given, are times.
    pub fn validate(&self, readings: &TimeReadings) -> (res: Result<(), FilterError>)
        ensures
            is_verdict(res, time_fault(text_of(self.start_ts), text_of(self.end_ts), readings@)),
    {
        if let Some(ts) = &self.start_ts {
            if readings.start.is_none() {
                return Err(FilterError::StartTs(ts.clone()));
            }
        }
        if let Some(ts) = &self.end_ts {
            if readings.end.is_none() {
                return Err(FilterError::EndTs(ts.clone()));
            }
        }
        Ok(())
    }

    /// Has the start and the end read, and checks that they are times.
    pub fn read_and_validate<F: Fn(&str) -> Option<UtcTime>>(&self, reader: F) -> (res: Result<
        (),
        FilterError,
    >)
        requires
            forall|text: &str| call_requires(reader, (text,)),
        ensures
            exists|readings: TimeReadings|
                {
                    &&& is_reading(reader, self.start_ts, readings.start)
                    &&& is_reading(reader, self.end_ts, readings.end)
                    &&& is_verdict(
                        res,
                        #[trigger] time_fault(
                            text_of(self.start_ts),
                            text_of(self.end_ts),
                            readings@,
                        ),
                    )
                },
    {
        let readings = read_times(&self.start_ts, &self.end_ts, reader);
        self.validate(&readings)
    }
}

/// How a search fixes its window: by its two ends, or by one end and a length, whose text is
/// held unread.
#[derive(Debug)]
pub enum WindowPlan {
    Between(UtcTime, UtcTime),
    From(UtcTime, String),
    Until(UtcTime, String),
}

/// The mathematical counterpart of `WindowPlan`.
pub enum Plan {
    Between(Moment, Moment),
    From(Moment, Seq<char>),
    Until(Moment, Seq<char>),
}

impl View for WindowPlan {
    type V = Plan;

    open spec fn view(&self) -> Plan {
        match *self {
            WindowPlan::Between(start, end) => Plan::Between(start@, end@),
            WindowPlan::From(start, text) => Plan::From(start@, text@),
            WindowPlan::Until(end, text) => Plan::Until(end@, text@),
        }
    }
}

/// A window's first and last second, or the fault that keeps a search from having one.
pub type Window = Result<(i64, i64), Fault>;

impl Plan {
    /// The text of the length, where there is one.
    pub open spec fn length_text(self) -> Option<Seq<char>> {
        match self {
            Plan::Between(_, _) => None,
            Plan::From(_, text) => Some(text),
            Plan::Until(_, text) => Some(text),
        }
    }

    /// The window, for the length that the text was read as; none where an end of the window
    /// would leave the calendar.
    pub open spec fn window(self, length: Option<Length>) -> Option<Window> {
        match self {
            Plan::Between(start, end) => Some(Ok((start.secs as i64, end.secs as i64))),
            Plan::From(start, text) => match length {
                None => Some(Err(Fault::Duration(text))),
                Some(d) => match on_calendar(seconds_after(start, d)) {
                    Some(end) => Some(Ok((start.secs as i64, end))),
                    None => None,
                },
            },
            Plan::Until(end, text) => match length {
                None => Some(Err(Fault::Duration(text))),
                Some(d) => match on_calendar(seconds_before(end, d)) {
                    Some(start) => Some(Ok((start, end.secs as i64))),
                    None => None,
                },
            },
        }
    }
}

/// The plan that a search's times make: exactly two of start, end and length must be given.
pub open spec fn plan_of(
    start_ts: Option<Seq<char>>,
    end_ts: Option<Seq<char>>,
    duration: Option<Seq<char>>,
    readings: Readings,
) -> Result<Plan, Fault> {
    match time_fault(start_ts, end_ts, readings) {
        Some(fault) => Err(fault),
        None => match (start_ts, end_ts, duration) {
            (Some(_), Some(_), Some(_)) => Err(Fault::AllThree),
            (Some(_), Some(_), None) => Ok(Plan::Between(readings.start->0, readings.end->0)),
            (Some(_), None, Some(text)) => Ok(Plan::From(readings.start->0, text)),
            (None, Some(_), Some(text)) => Ok(Plan::Until(readings.end->0, text)),
            _ => Err(Fault::FewerThanTwo),
        },
    }
}

/// The window of a plan, with its length read.
pub open spec fn window_of(plan: Result<Plan, Fault>) -> Option<Window> {
    match plan {
        Err(fault) => Some(Err(fault)),
        Ok(plan) => plan.window(
            match plan.length_text() {
                Some(text) => length_of(text),
                None => None,
            },
        ),
    }
}

/// Whether the window of a plan can be worked out without overflow: its length adds up, and its
/// ends stay on the calendar.
pub open spec fn can_work_out(plan: Result<Plan, Fault>) -> bool {
    &&& plan matches Ok(p) ==> (p.length_text() matches Some(text) ==> adds_up(text))
    &&& window_of(plan) is Some
}

/// What a window's view is.
pub open spec fn window_view(res: Result<(i64, i64), FilterError>) -> Window {
    match res {
        Ok(ends) => Ok(ends),
        Err(e) => Err(e@),
    }
}

/// Whether `res` is the window of a plan, or nothing where that overflows.
pub open spec fn is_window(
    res: Option<Result<(i64, i64), FilterError>>,
    plan: Result<Plan, Fault>,
) -> bool {
    &&& res is Some <==> can_work_out(plan)
    &&& res matches Some(window) ==> window_of(plan) == Some(window_view(window))
}

impl WindowPlan {
    /// The window's first and last second, for the length that the text was read as; nothing
    /// where an end of the window would leave the calendar.
    pub fn window(&self, span: Option<Span>) -> (res: Option<Result<(i64, i64), FilterError>>)
        ensures
            self@.window(
                match span {
                    Some(d) => Some(d@),
                    None => None,
                },
            ) == (match res {
                Some(window) => Some(window_view(window)),
                None => None,
            }),
    {
        match self {
            WindowPlan::Between(start, end) => Some(Ok((start.timestamp(), end.timestamp()))),
            WindowPlan::From(start, text) => match span {
                None => Some(Err(FilterError::Duration(text.clone()))),
                Some(d) => match add_span(*start, d) {
                    Some(end) => Some(Ok((start.timestamp(), end))),
                    None => None,
                },
            },
            WindowPlan::Until(end, text) => match span {
                None => Some(Err(FilterError::Duration(text.clone()))),
                Some(d) => match sub_span(*end, d) {
                    Some(start) => Some(Ok((start, end.timestamp()))),
                    None => None,
                },
            },
        }
    }
}

/// The filters of a search over the files of all collectors.
#[derive(Debug)]
pub struct SearchFilters {
    /// Filter by start time, inclusive.
    pub start_ts: Option<String>,
    /// Filter by end time, inclusive.
    pub end_ts: Option<String>,
    /// Length of the window, in place of its start or its end.
    pub duration: Option<String>,
    /// Filter by collector, e.g. rrc00 or route-views2.
    pub collector: Option<String>,
    /// Filter by route collection project, i.e. riperis or routeviews.
    pub project: Option<String>,
    /// Filter by origin AS number.
    pub origin_asn: Option<u32>,
    /// Filter by network prefix.
    pub prefix: Option<String>,
    /// Take in super-prefixes.
    pub include_super: bool,
    /// Take in sub-prefixes.
    pub include_sub: bool,
    /// Filter by peer IP address.
    pub peer_ip: Vec<PeerIp>,
    /// Filter by peer AS number.
    pub peer_asn: Option<u32>,
    /// Filter by elem type: announce (a) or withdraw (w).
    pub elem_type: Option<String>,
    /// Filter by AS path regular expression.
    pub as_path: Option<String>,
}

impl SearchFilters {
    /// The plan that the filter's times make.
    pub open spec fn spec_plan(self, readings: Readings) -> Result<Plan, Fault> {
        plan_of(text_of(self.start_ts), text_of(self.end_ts), text_of(self.duration), readings)
    }

    /// Decides how the window is fixed, before its length is read.
    pub fn plan(&self, readings: &TimeReadings) -> (res: Result<WindowPlan, FilterError>)
        ensures
            self.spec_plan(readings@) == (match res {
                Ok(plan) => Ok::<Plan, Fault>(plan@),
                Err(e) => Err(e@),
            }),
    {
        let start = match &self.start_ts {
            None => None,
            Some(ts) => match readings.start {
                Some(t) => Some(t),
                None => return Err(FilterError::StartTs(ts.clone())),
            },
        };
        let end = match &self.end_ts {
            None => None,
            Some(ts) => match readings.end {
                Some(t) => Some(t),
                None => return Err(FilterError::EndTs(ts.clone())),
            },
        };
        match (start, end, &self.duration) {
            (Some(_), Some(_), Some(_)) => Err(FilterError::AllThree),
            (Some(start), Some(end), None) => Ok(WindowPlan::Between(start, end)),
            (Some(start), None, Some(text)) => Ok(WindowPlan::From(start, text.clone())),
            (None, Some(end), Some(text)) => Ok(WindowPlan::Until(end, text.clone())),
            _ => Err(FilterError::FewerThanTwo),
        }
    }

    /// Tells whether the window can be worked out without overflow.
    fn can_answer(&self, readings: &TimeReadings) -> (res: bool)
        ensures
            res == can_work_out(self.spec_plan(readings@)),
    {
        match self.plan(readings) {
            Err(_) => true,
            Ok(plan) => match &plan {
                WindowPlan::Between(_, _) => true,
                WindowPlan::From(_, text) => {
                    text_adds_up(text.as_str()) && plan.window(
                        parse_duration(text.as_str()),
                    ).is_some()
                },
                WindowPlan::Until(_, text) => {
                    text_adds_up(text.as_str()) && plan.window(
                        parse_duration(text.as_str()),
                    ).is_some()
                },
            },
        }
    }

    /// Works out the first and the last second of the search's window.
    pub fn parse_start_end_strings(&self, readings: &TimeReadings) -> (res: Result<
        (i64, i64),
        FilterError,
    >)
        requires
            can_work_out(self.spec_plan(readings@)),
        ensures
            window_of(self.spec_plan(readings@)) == Some(window_view(res)),
    {
        let plan = self.plan(readings)?;
        let span = match &plan {
            WindowPlan::Between(_, _) => None,
            WindowPlan::From(_, text) => parse_duration(text.as_str()),
            WindowPlan::Until(_, text) => parse_duration(text.as_str()),
        };
        plan.window(span).unwrap()
    }

    /// Checks that the filter's times make a window.
    pub fn validate(&self, readings: &TimeReadings) -> (res: Result<(), FilterError>)
        requires
            can_work_out(self.spec_plan(readings@)),
        ensures
            is_verdict(
                res,
                match window_of(self.spec_plan(readings@))->0 {
                    Ok(_) => None,
                    Err(fault) => Some(fault),
                },
            ),
    {
        match self.parse_start_end_strings(readings) {
            Ok(_) => Ok(()),
            Err(e) => Err(e),
        }
    }

    /// Checks the filter's times and works out the search's window; nothing where that cannot
    /// be done without overflow.
    pub fn window(&self, readings: &TimeReadings) -> (res: Option<
        Result<(i64, i64), FilterError>,
    >)
        ensures
            is_window(res, self.spec_plan(readings@)),
    {
        if !self.can_answer(readings) {
            return None;
        }
        match self.validate(readings) {
            Err(e) => Some(Err(e)),
            Ok(_) => Some(self.parse_start_end_strings(readings)),
        }
    }

    /// Has the start and the end read, and works out the search's window from them.
    pub fn read_window<F: Fn(&str) -> Option<UtcTime>>(&self, reader: F) -> (res: Option<
        Result<(i64, i64), FilterError>,
    >)
        requires
            forall|text: &str| call_requires(reader, (text,)),
        ensures
            exists|readings: TimeReadings|
                {
                    &&& is_reading(reader, self.start_ts, readings.start)
                    &&& is_reading(reader, self.end_ts, readings.end)
                    &&& is_window(res, #[trigger] self.spec_plan(readings@))
                },
    {
        let readings = read_times(&self.start_ts, &self.end_ts, reader);
        self.window(&readings)
    }

    /// The filters on the messages of each file that the search finds: those of the search,
    /// with the window's two ends in seconds.
    pub fn file_filters(&self, ts_start: i64, ts_end: i64) -> (res: ParseFilters)
        ensures
            res.origin_asn == self.origin_asn,
            res.prefix == self.prefix,
            res.include_super == self.include_super,
            res.include_sub == self.include_sub,
            res.peer_ip@ == self.peer_ip@,
            res.peer_asn == self.peer_asn,
            res.elem_type == self.elem_type,
            text_of(res.start_ts) == Some(signed_decimal(ts_start as int)),
            text_of(res.end_ts) == Some(signed_decimal(ts_end as int)),
            res.as_path == self.as_path,
    {
        ParseFilters {
            origin_asn: self.origin_asn,
            prefix: self.prefix.clone(),
            include_super: self.include_super,
            include_sub: self.include_sub,
            peer_ip: self.peer_ip.clone(),
            peer_asn: self.peer_asn,
            elem_type: self.elem_type.clone(),
            start_ts: Some(i64_to_string(ts_start)),
            end_ts: Some(i64_to_string(ts_end)),
            as_path: self.as_path.clone(),
        }
    }

    /// The query for the files of the window: update files only, a thousand to a page, of the
    /// project and the collector that the filters name.
    pub fn broker_query(&self, ts_start: i64, ts_end: i64) -> (res: BrokerQuery)
        ensures
            res.ts_start == ts_start,
            res.ts_end == ts_end,
            res.data_type@ == "update"@,
            res.page_size == 1000,
            res.project == self.project,
            res.collector_id == self.collector,
    {
        BrokerQuery {
            ts_start,
            ts_end,
            data_type: "update".to_string(),
            page_size: 1000,
            project: self.project.clone(),
            collector_id: self.collector.clone(),
        }
    }
}

/// A query for the files of a search.
#[derive(Debug)]
pub struct BrokerQuery {
    pub ts_start: i64,
    pub ts_end: i64,
    pub data_type: String,
    pub page_size: i64,
    pub project: Option<String>,
    pub collector_id: Option<String>,
}

/// How many of three optional values are given.
pub open spec fn given<A, B, C>(a: Option<A>, b: Option<B>, c: Option<C>) -> int {
    (if a is Some { 1int } else { 0 }) + (if b is Some { 1int } else { 0 })
        + (if c is Some { 1int } else { 0 })
}

/// A search has a plan exactly where two of start, end and length are given and each time that
/// is given was read.
pub proof fn plan_takes_exactly_two(
    start_ts: Option<Seq<char>>,
    end_ts: Option<Seq<char>>,
    duration: Option<Seq<char>>,
    readings: Readings,
)
    ensures
        plan_of(start_ts, end_ts, duration, readings) is Ok <==> {
            &&& given(start_ts, end_ts, duration) == 2
            &&& start_ts is Some ==> readings.start is Some
            &&& end_ts is Some ==> readings.end is Some
        },
{
}

/// What the readings say of a time that was not given has no bearing on the plan.
pub proof fn plan_reads_only_what_is_given(
    start_ts: Option<Seq<char>>,
    end_ts: Option<Seq<char>>,
    duration: Option<Seq<char>>,
    one: Readings,
    other: Readings,
)
    requires
        start_ts is Some ==> one.start == other.start,
        end_ts is Some ==> one.end == other.end,
    ensures
        plan_of(start_ts, end_ts, duration, one) == plan_of(start_ts, end_ts, duration, other),
{
}

/// A search that passes validation has a window, and one that fails has the same error in
/// place of a window.
pub proof fn validation_decides_the_window(
    filters: SearchFilters,
    readings: TimeReadings,
    verdict: Result<(), FilterError>,
    window: Result<(i64, i64), FilterError>,
)
    requires
        can_work_out(filters.spec_plan(readings@)),
        call_ensures(SearchFilters::validate, (&filters, &readings), verdict),
        call_ensures(SearchFilters::parse_start_end_strings, (&filters, &readings), window),
    ensures
        verdict is Ok <==> window is Ok,
        verdict is Err ==> verdict->Err_0@ == window->Err_0@,
{
}

/// Nothing in a search's filters but its times bears on its window and on its validation.
pub proof fn only_times_bear_on_the_window(
    one: SearchFilters,
    other: SearchFilters,
    readings: TimeReadings,
    one_verdict: Result<(), FilterError>,
    other_verdict: Result<(), FilterError>,
)
    requires
        text_of(one.start_ts) == text_of(other.start_ts),
        text_of(one.end_ts) == text_of(other.end_ts),
        text_of(one.duration) == text_of(other.duration),
        can_work_out(one.spec_plan(readings@)),
        call_ensures(SearchFilters::validate, (&one, &readings), one_verdict),
        call_ensures(SearchFilters::validate, (&other, &readings), other_verdict),
    ensures
        one.spec_plan(readings@) == other.spec_plan(readings@),
        one_verdict is Ok <==> other_verdict is Ok,
        one_verdict is Err ==> one_verdict->Err_0@ == other_verdict->Err_0@,
{
}

/// A window that is fixed by one end and a length does not end before it starts.
pub proof fn window_of_length_is_in_order(plan: Plan, length: Length)
    requires
        plan.length_text() is Some,
        length.valid(),
        plan matches Plan::From(t, _) ==> t.valid(),
        plan matches Plan::Until(t, _) ==> t.valid(),
    ensures
        plan.window(Some(length)) matches Some(Ok((start, end))) ==> start <= end,
{
}

/// A window that is fixed by one end and a length of whole seconds is that many seconds long,
/// unless it ends in a leap second and is longer than nothing.
pub proof fn window_is_as_long_as_its_length(plan: Plan, length: Length)
    requires
        plan.length_text() is Some,
        length.valid(),
        length.nanos == 0,
        plan matches Plan::From(t, _) ==> t.valid(),
        plan matches Plan::Until(t, _) ==> t.valid() && (t.is_leap() ==> length.secs == 0),
    ensures
        plan.window(Some(length)) matches Some(Ok((start, end))) ==> end - start == length.secs,
{
}

/// A window that is fixed by one end and a length is as many seconds long as the length has, or
/// one more for its nanoseconds, unless that end is a leap second.
pub proof fn window_is_within_a_second_of_its_length(plan: Plan, length: Length)
    requires
        plan.length_text() is Some,
        length.valid(),
        plan matches Plan::From(t, _) ==> t.valid() && !t.is_leap(),
        plan matches Plan::Until(t, _) ==> t.valid() && !t.is_leap(),
    ensures
        plan.window(Some(length)) matches Some(Ok((start, end))) ==> length.secs <= end - start
            <= length.secs + 1,
{
}

/// A window that is fixed by its start and a length of whole seconds is also the window that is
/// fixed by its last second and that length.
pub proof fn window_from_either_end(start: Moment, length: Length, text: Seq<char>)
    requires
        start.valid(),
        length.valid(),
        length.nanos == 0,
        Plan::From(start, text).window(Some(length)) is Some,
    ensures
        ({
            let window = Plan::From(start, text).window(Some(length));
            let end = Moment { secs: window->0->Ok_0.1 as int, nanos: 0 };
            Plan::Until(end, text).window(Some(length)) == window
        }),
{
}

/// A reader of time strings is asked for each time that is given, with its whole text, and for no
/// other.
pub proof fn times_are_what_the_reader_says<F: Fn(&str) -> Option<UtcTime>>(
    start_ts: Option<String>,
    end_ts: Option<String>,
    reader: F,
    start: Option<UtcTime>,
    end: Option<UtcTime>,
    res: TimeReadings,
)
    requires
        call_ensures(read_times::<F>, (&start_ts, &end_ts, reader), res),
        start_ts matches Some(ts) ==> forall|text: &str, r: Option<UtcTime>|
            text@ == ts@ && call_ensures(reader, (text,), r) ==> r == start,
        end_ts matches Some(ts) ==> forall|text: &str, r: Option<UtcTime>|
            text@ == ts@ && call_ensures(reader, (text,), r) ==> r == end,
    ensures
        start_ts is Some ==> res.start == start,
        start_ts is None ==> res.start is None,
        end_ts is Some ==> res.end == end,
        end_ts is None ==> res.end is None,
{
}

/// The message of an error is the sentence for what is wrong, and ends with the whole text that is
/// wrong, if there is one.
pub proof fn message_ends_with_the_text(error: FilterError, said: String)
    requires
        call_ensures(FilterError::message, (&error,), said),
    ensures
        error matches FilterError::StartTs(text) ==> said@
            == "start-ts is not a valid time string: "@ + text@,
        error matches FilterError::EndTs(text) ==> said@ == "end-ts is not a valid time string: "@
            + text@,
        error matches FilterError::Duration(text) ==> said@
            == "duration is not a valid time duration string: "@ + text@,
        error is AllThree ==> said@
            == "cannot specify start_ts, end_ts, and duration all at the same time"@,
        error is FewerThanTwo ==> said@ == "must specify two from: start_ts, end_ts and duration"@,
{
}

/// The filters on one file pass where each time that they give was read; else the first that was
/// not is named, with its text.
pub proof fn parse_filters_pass_where_their_times_are_read(
    filters: ParseFilters,
    readings: TimeReadings,
    res: Result<(), FilterError>,
)
    requires
        call_ensures(ParseFilters::validate, (&filters, &readings), res),
    ensures
        res is Ok <==> {
            &&& filters.start_ts is Some ==> readings.start is Some
            &&& filters.end_ts is Some ==> readings.end is Some
        },
        filters.start_ts matches Some(ts) ==> (readings.start is None ==> (res matches Err(
            FilterError::StartTs(text),
        ) && text@ == ts@)),
        !(filters.start_ts is Some && readings.start is None) ==> (filters.end_ts matches Some(ts)
            ==> (readings.end is None ==> (res matches Err(FilterError::EndTs(text)) && text@
            == ts@))),
{
}

/// The filters on one file pass or fail by what a reader makes of their times.
pub proof fn parse_filters_are_read_and_validated<F: Fn(&str) -> Option<UtcTime>>(
    filters: ParseFilters,
    reader: F,
    readings: TimeReadings,
    verdict: Result<(), FilterError>,
    res: Result<(), FilterError>,
)
    requires
        filters.start_ts matches Some(ts) ==> forall|text: &str, r: Option<UtcTime>|
            text@ == ts@ && call_ensures(reader, (text,), r) ==> r == readings.start,
        filters.end_ts matches Some(ts) ==> forall|text: &str, r: Option<UtcTime>|
            text@ == ts@ && call_ensures(reader, (text,), r) ==> r == readings.end,
        call_ensures(ParseFilters::validate, (&filters, &readings), verdict),
        call_ensures(ParseFilters::read_and_validate::<F>, (&filters, reader), res),
    ensures
        res is Ok <==> verdict is Ok,
        res is Err ==> res->Err_0@ == verdict->Err_0@,
{
}

/// What is wrong with the times of a search comes in this order: a start that is no time, an end
/// that is none, all three given, fewer than two given. Each is named with its text.
pub proof fn faults_of_a_search_come_in_order(
    filters: SearchFilters,
    readings: TimeReadings,
    res: Option<Result<(i64, i64), FilterError>>,
)
    requires
        call_ensures(SearchFilters::window, (&filters, &readings), res),
    ensures
        ({
            let no_start = filters.start_ts is Some && readings.start is None;
            let no_end = filters.end_ts is Some && readings.end is None;
            let given = (if filters.start_ts is Some { 1int } else { 0 }) + (if filters.end_ts is Some {
                1int
            } else {
                0
            }) + (if filters.duration is Some { 1int } else { 0 });
            &&& no_start ==> (res matches Some(Err(FilterError::StartTs(text))) && text@
                == filters.start_ts->0@)
            &&& !no_start && no_end ==> (res matches Some(Err(FilterError::EndTs(text))) && text@
                == filters.end_ts->0@)
            &&& !no_start && !no_end && given == 3 ==> (res is Some && res->0 is Err
                && res->0->Err_0 is AllThree)
            &&& !no_start && !no_end && given < 2 ==> (res is Some && res->0 is Err
                && res->0->Err_0 is FewerThanTwo)
        }),
{
}

/// A search that gives its start and its end, and no length, is over the seconds from the one to
/// the other, whatever lies between them.
pub proof fn window_between_two_times_is_theirs(
    filters: SearchFilters,
    start: UtcTime,
    end: UtcTime,
    first: i64,
    last: i64,
    res: Option<Result<(i64, i64), FilterError>>,
    parsed: Result<(i64, i64), FilterError>,
    planned: Option<Result<(i64, i64), FilterError>>,
)
    requires
        filters.start_ts is Some,
        filters.end_ts is Some,
        filters.duration is None,
        call_ensures(UtcTime::timestamp, (&start,), first),
        call_ensures(UtcTime::timestamp, (&end,), last),
        ({
            let readings = TimeReadings { start: Some(start), end: Some(end) };
            &&& call_ensures(SearchFilters::window, (&filters, &readings), res)
            &&& call_ensures(SearchFilters::parse_start_end_strings, (&filters, &readings), parsed)
        }),
        call_ensures(WindowPlan::window, (&WindowPlan::Between(start, end), None), planned),
    ensures
        res matches Some(Ok(window)) && window.0 == first && window.1 == last,
        parsed matches Ok(window) && window.0 == first && window.1 == last,
        planned matches Some(Ok(window)) && window.0 == first && window.1 == last,
{
}

/// A search that gives its start and a length is over the seconds from the start to the second
/// that the length leads to, to the nanosecond and then rounded down; there is no answer where
/// that is past the end of the year 262142. A leap second counts as the second before it.
pub proof fn window_from_a_start_ends_after_the_length(
    filters: SearchFilters,
    readings: TimeReadings,
    start: UtcTime,
    length: Length,
    res: Option<Result<(i64, i64), FilterError>>,
)
    requires
        filters.start_ts is Some,
        filters.end_ts is None,
        filters.duration is Some,
        readings.start == Some(start),
        adds_up(filters.duration->0@),
        length_of(filters.duration->0@) == Some(length),
        MIN_TIMESTAMP <= start@.secs <= MAX_TIMESTAMP,
        call_ensures(SearchFilters::window, (&filters, &readings), res),
    ensures
        ({
            let nanos = if start@.nanos < 1_000_000_000 {
                start@.nanos as int
            } else {
                start@.nanos - 1_000_000_000
            };
            let instant = start@.secs * 1_000_000_000 + nanos + length.secs * 1_000_000_000
                + length.nanos;
            &&& instant < (8_210_266_876_799 + 1) * 1_000_000_000 ==> {
                &&& res matches Some(Ok(window))
                &&& window.0 == start@.secs
                &&& window.1 * 1_000_000_000 <= instant < (window.1 + 1) * 1_000_000_000
            }
            &&& instant >= (8_210_266_876_799 + 1) * 1_000_000_000 ==> res is None
        }),
{
}

/// A search that gives its end and a length is over the seconds from the second that lies the
/// length before the end, to the nanosecond and then rounded down, to the end; there is no answer
/// where that is before the year -262143.
pub proof fn window_until_an_end_starts_before_the_length(
    filters: SearchFilters,
    readings: TimeReadings,
    end: UtcTime,
    length: Length,
    res: Option<Result<(i64, i64), FilterError>>,
)
    requires
        filters.start_ts is None,
        filters.end_ts is Some,
        filters.duration is Some,
        readings.end == Some(end),
        adds_up(filters.duration->0@),
        length_of(filters.duration->0@) == Some(length),
        MIN_TIMESTAMP <= end@.secs <= MAX_TIMESTAMP,
        end@.nanos < 1_000_000_000,
        call_ensures(SearchFilters::window, (&filters, &readings), res),
    ensures
        ({
            let instant = end@.secs * 1_000_000_000 + end@.nanos - length.secs * 1_000_000_000
                - length.nanos;
            &&& instant >= -8_334_601_228_800 * 1_000_000_000 ==> {
                &&& res matches Some(Ok(window))
                &&& window.1 == end@.secs
                &&& window.0 * 1_000_000_000 <= instant < (window.0 + 1) * 1_000_000_000
            }
            &&& instant < -8_334_601_228_800 * 1_000_000_000 ==> res is None
        }),
{
}

/// A search that ends in a leap second and gives a length of a second or more starts as if it
/// ended in the second after that; with less than a second, it starts in that second.
pub proof fn window_until_a_leap_second(
    filters: SearchFilters,
    readings: TimeReadings,
    end: UtcTime,
    length: Length,
    res: Option<Result<(i64, i64), FilterError>>,
)
    requires
        filters.start_ts is None,
        filters.end_ts is Some,
        filters.duration is Some,
        readings.end == Some(end),
        adds_up(filters.duration->0@),
        length_of(filters.duration->0@) == Some(length),
        MIN_TIMESTAMP <= end@.secs <= MAX_TIMESTAMP,
        1_000_000_000 <= end@.nanos < 2_000_000_000,
        call_ensures(SearchFilters::window, (&filters, &readings), res),
    ensures
        ({
            let instant = end@.secs * 1_000_000_000 + end@.nanos - length.secs * 1_000_000_000
                - length.nanos;
            &&& length.secs == 0 ==> (res matches Some(Ok(window)) && window.0 == end@.secs
                && window.1 == end@.secs)
            &&& length.secs > 0 && instant >= -8_334_601_228_800 * 1_000_000_000 ==> {
                &&& res matches Some(Ok(window))
                &&& window.1 == end@.secs
                &&& window.0 * 1_000_000_000 <= instant < (window.0 + 1) * 1_000_000_000
            }
            &&& length.secs > 0 && instant < -8_334_601_228_800 * 1_000_000_000 ==> res is None
        }),
{
}

/// A search whose length is no length of time is refused with the text of the length.
pub proof fn bad_length_is_refused(
    filters: SearchFilters,
    readings: TimeReadings,
    res: Option<Result<(i64, i64), FilterError>>,
)
    requires
        filters.start_ts is Some <==> filters.end_ts is None,
        filters.start_ts is Some ==> readings.start is Some,
        filters.end_ts is Some ==> readings.end is Some,
        filters.duration is Some,
        adds_up(filters.duration->0@),
        length_of(filters.duration->0@) is None,
        call_ensures(SearchFilters::window, (&filters, &readings), res),
    ensures
        res matches Some(Err(FilterError::Duration(text))) && text@ == filters.duration->0@,
{
}

/// A search goes without an answer only where it gives a time that was read and a length, and the
/// length overflows or leads past the calendar.
pub proof fn no_answer_only_where_a_length_leads_too_far(
    filters: SearchFilters,
    readings: TimeReadings,
    res: Option<Result<(i64, i64), FilterError>>,
)
    requires
        call_ensures(SearchFilters::window, (&filters, &readings), res),
        res is None,
    ensures
        filters.duration is Some,
        filters.start_ts is Some <==> filters.end_ts is None,
        filters.start_ts is Some ==> readings.start is Some,
        filters.end_ts is Some ==> readings.end is Some,
        !adds_up(filters.duration->0@) || length_of(filters.duration->0@) is Some,
{
}

/// The window of a search is what its times are worked out to, and validation passes exactly where
/// that is a window.
pub proof fn window_is_worked_out_and_validated(
    filters: SearchFilters,
    readings: TimeReadings,
    window: Option<Result<(i64, i64), FilterError>>,
    parsed: Result<(i64, i64), FilterError>,
    verdict: Result<(), FilterError>,
)
    requires
        can_work_out(filters.spec_plan(readings@)),
        call_ensures(SearchFilters::window, (&filters, &readings), window),
        call_ensures(SearchFilters::parse_start_end_strings, (&filters, &readings), parsed),
        call_ensures(SearchFilters::validate, (&filters, &readings), verdict),
    ensures
        window is Some,
        parsed matches Ok(ends) ==> (window matches Some(Ok(same)) && same == ends),
        parsed is Ok <==> verdict is Ok,
        parsed matches Err(FilterError::StartTs(a)) ==> {
            &&& window matches Some(Err(FilterError::StartTs(b)))
            &&& a@ == b@
            &&& verdict matches Err(FilterError::StartTs(c))
            &&& a@ == c@
        },
        parsed matches Err(FilterError::EndTs(a)) ==> {
            &&& window matches Some(Err(FilterError::EndTs(b)))
            &&& a@ == b@
            &&& verdict matches Err(FilterError::EndTs(c))
            &&& a@ == c@
        },
        parsed matches Err(FilterError::Duration(a)) ==> {
            &&& window matches Some(Err(FilterError::Duration(b)))
            &&& a@ == b@
            &&& verdict matches Err(FilterError::Duration(c))
            &&& a@ == c@
        },
        parsed matches Err(FilterError::AllThree) ==> {
            &&& window matches Some(Err(FilterError::AllThree))
            &&& verdict matches Err(FilterError::AllThree)
        },
        parsed matches Err(FilterError::FewerThanTwo) ==> {
            &&& window matches Some(Err(FilterError::FewerThanTwo))
            &&& verdict matches Err(FilterError::FewerThanTwo)
        },
{
}

/// The window of a search that has its times read is the window for what the reader makes of them.
pub proof fn window_is_that_of_the_reader<F: Fn(&str) -> Option<UtcTime>>(
    filters: SearchFilters,
    reader: F,
    readings: TimeReadings,
    window: Option<Result<(i64, i64), FilterError>>,
    res: Option<Result<(i64, i64), FilterError>>,
)
    requires
        filters.start_ts matches Some(ts) ==> forall|text: &str, r: Option<UtcTime>|
            text@ == ts@ && call_ensures(reader, (text,), r) ==> r == readings.start,
        filters.end_ts matches Some(ts) ==> forall|text: &str, r: Option<UtcTime>|
            text@ == ts@ && call_ensures(reader, (text,), r) ==> r == readings.end,
        call_ensures(SearchFilters::window, (&filters, &readings), window),
        call_ensures(SearchFilters::read_window::<F>, (&filters, reader), res),
    ensures
        res is None <==> window is None,
        res matches Some(Ok(ends)) ==> (window matches Some(Ok(same)) && same == ends),
        res matches Some(Err(e)) ==> (window matches Some(Err(same)) && same@ == e@),
{
}

/// A search is planned by what it gives: by its two times, or by one of them and the text of its
/// length.
pub proof fn plan_holds_what_is_given(
    filters: SearchFilters,
    start: UtcTime,
    end: UtcTime,
    res: Result<WindowPlan, FilterError>,
)
    requires
        ({
            let readings = TimeReadings { start: Some(start), end: Some(end) };
            call_ensures(SearchFilters::plan, (&filters, &readings), res)
        }),
    ensures
        match (filters.start_ts, filters.end_ts, filters.duration) {
            (Some(_), Some(_), Some(_)) => res matches Err(FilterError::AllThree),
            (Some(_), Some(_), None) => res matches Ok(WindowPlan::Between(a, b)) && a@ == start@
                && b@ == end@,
            (Some(_), None, Some(text)) => res matches Ok(WindowPlan::From(a, t)) && a@ == start@
                && t@ == text@,
            (None, Some(_), Some(text)) => res matches Ok(WindowPlan::Until(b, t)) && b@ == end@
                && t@ == text@,
            _ => res matches Err(FilterError::FewerThanTwo),
        },
{
}

/// Each file of a search is filtered by what the search is filtered by, and by the two seconds of
/// its window, written in full.
pub proof fn files_are_filtered_as_the_search(
    filters: SearchFilters,
    ts_start: i64,
    ts_end: i64,
    start: String,
    end: String,
    res: ParseFilters,
)
    requires
        call_ensures(i64_to_string, (ts_start,), start),
        call_ensures(i64_to_string, (ts_end,), end),
        call_ensures(SearchFilters::file_filters, (&filters, ts_start, ts_end), res),
    ensures
        res.start_ts matches Some(text) && text@ == start@,
        res.end_ts matches Some(text) && text@ == end@,
        res.origin_asn == filters.origin_asn,
        res.prefix == filters.prefix,
        res.include_super == filters.include_super,
        res.include_sub == filters.include_sub,
        res.peer_ip@ == filters.peer_ip@,
        res.peer_asn == filters.peer_asn,
        res.elem_type == filters.elem_type,
        res.as_path == filters.as_path,
{
}

/// A search asks for the update files of its window, a thousand to a page, of its project and its
/// collector.
pub proof fn files_are_asked_for_by_the_window(
    filters: SearchFilters,
    ts_start: i64,
    ts_end: i64,
    res: BrokerQuery,
)
    requires
        call_ensures(SearchFilters::broker_query, (&filters, ts_start, ts_end), res),
    ensures
        res.ts_start == ts_start,
        res.ts_end == ts_end,
        res.data_type@ == "update"@,
        res.page_size == 1000,
        res.project == filters.project,
        res.collector_id == filters.collector,
{
}

} // verus!
