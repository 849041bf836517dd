//! The time and timezone formatter: render keys for timezone names, epoch
//! formatting in a chosen timezone, and extraction of the hour and minute
//! parts of a duration.

use vstd::prelude::*;
use std::fmt::Write;
use crate::text;
use crate::text::replace_char;
use crate::text::replace_char_str;
use crate::timer_store::groups_view;
use crate::timer_store::Project;
use crate::timer_store::ProjectView;
use crate::timer_store::Timer;
use crate::timer_store::TimerView;

verus! {

/// The failures the formatter can surface: a timezone/time combination that
/// cannot be resolved, a timezone name that fails to parse, or a value that
/// is not a number.  Surfaced to the caller; an export containing the
/// offending row is aborted.
#[derive(Debug, Clone, Copy, PartialEq, Eq, Structural)]
pub enum FormatError {
    /// The timezone name is not in the timezone database.
    UnknownTimezone,
    /// The epoch cannot be resolved in the timezone, or the pattern cannot
    /// be rendered.
    Unrepresentable,
    /// The value to extract timer parts from is not a number.
    NotANumber,
}

/// The part of a duration to extract.
pub enum TimerPart {
    Hour,
    Min,
}

/// The minute part of a duration: the whole minutes of the remainder after
/// whole hours, except that a remainder of sixty seconds or less — and any
/// duration of sixty seconds or less — counts as zero.  This rounding-down
/// policy, including the boundary where a remainder of exactly sixty maps
/// to zero, is deliberate and preserved exactly.
pub open spec fn minute_part(time: int) -> int {
    let m = if time >= 3600 {
        time % 3600
    } else {
        time
    };
    if m > 60 {
        m / 60
    } else {
        0
    }
}

/// The hour part of a duration: whole hours, zero under an hour.
pub open spec fn hour_part(time: int) -> int {
    if time >= 3600 {
        time / 3600
    } else {
        0
    }
}

/// Extracts the minute or hour part of a duration given in seconds.
pub fn extract_timer(part: TimerPart, time: i64) -> (r: Result<i64, FormatError>)
    ensures
        r matches Ok(v) && v == match part {
            TimerPart::Hour => hour_part(time as int),
            TimerPart::Min => minute_part(time as int),
        },
{
    let minute: i64 = 60;
    let hour: i64 = 60 * minute;
    match part {
        TimerPart::Min => {
            let minutes = if time >= hour {
                time % hour
            } else {
                time
            };
            Ok(
                if minutes > minute {
                    minutes / minute
                } else {
                    0
                },
            )
        },
        TimerPart::Hour => Ok(
            if time >= hour {
                time / hour
            } else {
                0
            },
        ),
    }
}

/// Whether the timezone database knows a name.  The name an outside lookup
/// either answers or refuses; deterministic in the name.
pub uninterp spec fn tz_name_valid(name: Seq<char>) -> bool;

/// Whether an epoch lies in the representable range of the outside date
/// type; a function of the epoch alone.
pub uninterp spec fn epoch_in_range(epoch: int) -> bool;

/// Whether a strftime pattern renders without error; a function of the
/// pattern alone.
pub uninterp spec fn strftime_ok(pattern: Seq<char>) -> bool;

/// The rendering of an epoch in a timezone under a strftime pattern; a
/// function of the three arguments alone.
pub uninterp spec fn strftime_of(tz_name: Seq<char>, epoch: int, pattern: Seq<char>) -> Seq<char>;

/// Relies on `chrono_tz::Tz::from_str`: an exact lookup of a timezone name
/// in the compiled-in timezone database.
#[verifier::external_body]
fn tz_name_known(s: &str) -> (r: bool)
    ensures
        r == tz_name_valid(s@),
{
    s.parse::<chrono_tz::Tz>().is_ok()
}

/// Relies on `chrono_tz::Tz::from_str`, `chrono::TimeZone::timestamp_opt`
/// and `chrono::DateTime::format`: resolve an epoch in a timezone — total
/// for every epoch the date type can hold, never ambiguous — and render it
/// under a strftime pattern, which fails exactly on a malformed pattern.
#[verifier::external_body]
fn format_in_zone(epoch: i64, tz_name: &str, pattern: &str) -> (r: Option<String>)
    requires
        tz_name_valid(tz_name@),
    ensures
        (r is Some) == (epoch_in_range(epoch as int) && strftime_ok(pattern@)),
        (r matches Some(s) ==> s@ == strftime_of(tz_name@, epoch as int, pattern@)),
{
    let tz: chrono_tz::Tz = tz_name.parse().ok()?;
    match chrono::TimeZone::timestamp_opt(&tz, epoch, 0) {
        chrono::LocalResult::Single(dt) => {
            let mut s = String::new();
            write!(&mut s, "{}", dt.format(pattern)).ok().map(|_| s)
        },
        _ => None,
    }
}

/// A timezone the database knows, held by its canonical name.
#[derive(Debug)]
pub struct Timezone {
    name: String,
}

impl View for Timezone {
    type V = Seq<char>;

    closed spec fn view(&self) -> Seq<char> {
        self.name@
    }
}

impl Timezone {
    /// Every `Timezone` value holds a name the database knows.
    #[verifier::type_invariant]
    closed spec fn inv(self) -> bool {
        tz_name_valid(self.name@)
    }
}

/// Convert a timezone name to its render key, replacing the path separator
/// with a hyphen so the name can stand as a single URL path segment.
pub fn to_render_timezone(timezone: &Timezone) -> (r: String)
    ensures
        r@ == replace_char(timezone@, '/', '-'),
{
    replace_char_str(timezone.name.as_str(), '/', '-')
}

/// Convert a render key back to a timezone, replacing the hyphen with the
/// path separator.  Fails with `UnknownTimezone` exactly when the database
/// does not know the resulting name.
pub fn from_render_timezone(timezone: &str) -> (r: Result<Timezone, FormatError>)
    ensures
        tz_name_valid(replace_char(timezone@, '-', '/')) ==> (r matches Ok(t) && t@
            == replace_char(timezone@, '-', '/')),
        !tz_name_valid(replace_char(timezone@, '-', '/')) ==> (r matches Err(e) && e
            == FormatError::UnknownTimezone),
{
    let zone = replace_char_str(timezone, '-', '/');
    if tz_name_known(zone.as_str()) {
        Ok(Timezone { name: zone })
    } else {
        Err(FormatError::UnknownTimezone)
    }
}

/// Law: converting a render key to a timezone name and back returns the
/// key, for any key free of the path separator — in particular for every
/// key produced from a timezone name whose own segments hold no hyphen.
/// A key whose name legitimately holds a hyphen is an accepted loss.
pub proof fn lemma_render_key_round_trip(s: Seq<char>)
    requires
        !s.contains('/'),
    ensures
        replace_char(replace_char(s, '-', '/'), '/', '-') == s,
{
    let once = replace_char(s, '-', '/');
    let twice = replace_char(once, '/', '-');
    assert forall|i: int| 0 <= i < s.len() implies twice[i] == s[i] by {
        assert(s[i] != '/');
    }
    assert(twice =~= s);
}

/// Resolve an epoch in the given timezone and render it under the pattern.
/// Fails with `Unrepresentable` exactly when the epoch is out of the date
/// type's range or the pattern is malformed; resolution is never ambiguous
/// for a UTC instant.
pub fn format_time(time: &i64, timezone: &Timezone, fmt_string: &str) -> (r: Result<
    String,
    FormatError,
>)
    ensures
        epoch_in_range(*time as int) && strftime_ok(fmt_string@) ==> (r matches Ok(s) && s@
            == strftime_of(timezone@, *time as int, fmt_string@)),
        !(epoch_in_range(*time as int) && strftime_ok(fmt_string@)) ==> (r matches Err(e) && e
            == FormatError::Unrepresentable),
{
    proof {
        use_type_invariant(timezone);
    }
    match format_in_zone(*time, timezone.name.as_str(), fmt_string) {
        Some(s) => Ok(s),
        None => Err(FormatError::Unrepresentable),
    }
}

/// The pattern used for human-readable dates on the timer page.
pub open spec fn human_date_pattern() -> Seq<char> {
    "%a, %F %H:%M"@
}

/// Render an epoch as a human-readable date in the timezone named by a
/// render key.
pub fn to_human_date(timestamp: &i64, timezone: &str) -> (r: Result<String, FormatError>)
    ensures
        ({
            let zone = replace_char(timezone@, '-', '/');
            &&& tz_name_valid(zone) && epoch_in_range(*timestamp as int) && strftime_ok(
                human_date_pattern(),
            ) ==> (r matches Ok(s) && s@ == strftime_of(
                zone,
                *timestamp as int,
                human_date_pattern(),
            ))
            &&& !tz_name_valid(zone) ==> (r matches Err(e) && e == FormatError::UnknownTimezone)
            &&& tz_name_valid(zone) && !(epoch_in_range(*timestamp as int) && strftime_ok(
                human_date_pattern(),
            )) ==> (r matches Err(e) && e == FormatError::Unrepresentable)
        }),
{
    let tz = match from_render_timezone(timezone) {
        Ok(tz) => tz,
        Err(e) => {
            return Err(e);
        },
    };
    format_time(timestamp, &tz, "%a, %F %H:%M")
}

/// Render a timer's end time — start plus duration — as a human-readable
/// date in the timezone named by a render key.
pub fn end_time_to_human_time(timer: &Timer, timezone: &str) -> (r: Result<String, FormatError>)
    requires
        i64::MIN <= timer@.start_time + timer@.duration <= i64::MAX,
    ensures
        ({
            let zone = replace_char(timezone@, '-', '/');
            let end = timer@.start_time + timer@.duration;
            &&& tz_name_valid(zone) && epoch_in_range(end) && strftime_ok(human_date_pattern())
                ==> (r matches Ok(s) && s@ == strftime_of(zone, end, human_date_pattern()))
            &&& !tz_name_valid(zone) ==> (r matches Err(e) && e == FormatError::UnknownTimezone)
            &&& tz_name_valid(zone) && !(epoch_in_range(end) && strftime_ok(
                human_date_pattern(),
            )) ==> (r matches Err(e) && e == FormatError::Unrepresentable)
        }),
{
    let end = timer.start_time + timer.duration;
    to_human_date(&end, timezone)
}

/// Extracts the named part of a duration handed over as decimal text.
///
/// `part` must be `"hours"` or `"minutes"`; any other argument is outside
/// this function's contract.
pub fn extract_timer_values(time: &str, part: &str) -> (r: Result<String, FormatError>)
    requires
        part@ == "hours"@ || part@ == "minutes"@,
    ensures
        ({
            let ok = text::int_literal_ok(time@) && i64::MIN <= text::int_literal_val(time@)
                <= i64::MAX;
            let sel = if part@ == "hours"@ {
                hour_part(text::int_literal_val(time@))
            } else {
                minute_part(text::int_literal_val(time@))
            };
            &&& ok ==> (r matches Ok(s) && s@ == text::dec_rep(sel as nat))
            &&& !ok ==> (r matches Err(e) && e == FormatError::NotANumber)
        }),
{
    let parsed = match text::parse_i64(time) {
        Some(v) => v,
        None => {
            return Err(FormatError::NotANumber);
        },
    };
    let selected = if text::str_eq(part, "hours") {
        extract_timer(TimerPart::Hour, parsed)
    } else {
        extract_timer(TimerPart::Min, parsed)
    };
    match selected {
        Ok(v) => {
            proof {
                lemma_parts_nonneg(parsed as int);
            }
            Ok(text::dec_string(v))
        },
        Err(e) => Err(e),
    }
}

/// The hour and minute parts of a duration are never negative.
pub proof fn lemma_parts_nonneg(time: int)
    ensures
        hour_part(time) >= 0,
        minute_part(time) >= 0,
{
}

/// Data structure for holding information related to a project: its timers
/// and where its export can be downloaded.
#[derive(Debug)]
pub struct ProjectSection {
    pub name: String,
    pub timers: Vec<Timer>,
    pub download_link: String,
    pub download_file_name: String,
}

/// The mathematical image of a project section.
pub struct ProjectSectionView {
    pub name: Seq<char>,
    pub timers: Seq<TimerView>,
    pub download_link: Seq<char>,
    pub download_file_name: Seq<char>,
}

impl View for ProjectSection {
    type V = ProjectSectionView;

    open spec fn view(&self) -> ProjectSectionView {
        ProjectSectionView {
            name: self.name@,
            timers: self.timers@.map_values(|t: Timer| t@),
            download_link: self.download_link@,
            download_file_name: self.download_file_name@,
        }
    }
}

/// The model of the main timer page for one tag.
#[derive(Debug)]
pub struct MainPage {
    pub current_timezone: String,
    pub tag_name: String,
    pub timezones: Vec<String>,
    pub uri_base: String,
    pub projects: Vec<ProjectSection>,
}

/// The mathematical image of the main page.
pub struct MainPageView {
    pub current_timezone: Seq<char>,
    pub tag_name: Seq<char>,
    pub timezones: Seq<Seq<char>>,
    pub uri_base: Seq<char>,
    pub projects: Seq<ProjectSectionView>,
}

impl View for MainPage {
    type V = MainPageView;

    open spec fn view(&self) -> MainPageView {
        MainPageView {
            current_timezone: self.current_timezone@,
            tag_name: self.tag_name@,
            timezones: self.timezones@.map_values(|z: String| z@),
            uri_base: self.uri_base@,
            projects: self.projects@.map_values(|p: ProjectSection| p@),
        }
    }
}

/// The timezones offered by default on the page.
pub open spec fn default_zone_names() -> Seq<Seq<char>> {
    seq!["US/Pacific"@, "US/Mountain"@, "US/Central"@, "US/Eastern"@]
}

/// The render key of `z`, unless it is the chosen zone.
pub open spec fn zone_key_if(z: Seq<char>, chosen: Seq<char>) -> Seq<Seq<char>> {
    if z == chosen {
        Seq::empty()
    } else {
        seq![replace_char(z, '/', '-')]
    }
}

/// The render keys of the default timezones other than the chosen one.
pub open spec fn other_zone_keys(chosen: Seq<char>) -> Seq<Seq<char>> {
    zone_key_if(default_zone_names()[0], chosen) + zone_key_if(default_zone_names()[1], chosen)
        + zone_key_if(default_zone_names()[2], chosen) + zone_key_if(
        default_zone_names()[3],
        chosen,
    )
}

/// The timezone name the page renders in: the requested render key decoded,
/// or the first default zone.
pub open spec fn chosen_zone_name(timezone: Option<String>) -> Seq<char> {
    match timezone {
        Option::Some(s) => replace_char(s@, '-', '/'),
        Option::None => "US/Pacific"@,
    }
}

/// Whether the requested timezone, if any, decodes to a known name.  An
/// absent request falls back to the first default zone without a check:
/// that fallback is a fixed known name, not caller input.
pub open spec fn zone_choice_ok(timezone: Option<String>) -> bool {
    timezone matches Option::Some(s) ==> tz_name_valid(replace_char(s@, '-', '/'))
}

/// The download link for a project's export: the export route with the
/// tag, the file name and the timezone render key as path segments.
pub open spec fn link_of(
    uri_base: Seq<char>,
    tag: Seq<char>,
    file_name: Seq<char>,
    tz_key: Seq<char>,
) -> Seq<char> {
    uri_base + "/export/"@ + tag + "/"@ + file_name + "/"@ + tz_key
}

/// The page section for one project.
pub open spec fn section_view_of(
    p: ProjectView,
    ts: Seq<TimerView>,
    uri_base: Seq<char>,
    tag: Seq<char>,
    tz_key: Seq<char>,
) -> ProjectSectionView {
    ProjectSectionView {
        name: p.name,
        timers: ts,
        download_link: link_of(uri_base, tag, p.name + ".csv"@, tz_key),
        download_file_name: p.name + ".csv"@,
    }
}

/// The page sections for a grouped query result, in its order.
pub open spec fn sections_of(
    groups: Seq<(ProjectView, Seq<TimerView>)>,
    uri_base: Seq<char>,
    tag: Seq<char>,
    tz_key: Seq<char>,
) -> Seq<ProjectSectionView> {
    groups.map_values(
        |g: (ProjectView, Seq<TimerView>)| section_view_of(g.0, g.1, uri_base, tag, tz_key),
    )
}

/// The whole page model for one tag.
pub open spec fn page_view_of(
    tag: Seq<char>,
    groups: Seq<(ProjectView, Seq<TimerView>)>,
    timezone: Option<String>,
    uri_base: Seq<char>,
) -> MainPageView {
    let chosen = chosen_zone_name(timezone);
    let key = replace_char(chosen, '/', '-');
    MainPageView {
        current_timezone: key,
        tag_name: tag,
        timezones: other_zone_keys(chosen),
        uri_base: uri_base,
        projects: sections_of(groups, uri_base, tag, key),
    }
}

/// The name and link under which a project's export is offered, `tz_key`
/// being the render key of the page's timezone.
fn download_information(project: &str, tag: &str, tz_key: &str, uri_base: &str) -> (r: (
    String,
    String,
))
    ensures
        r.0@ == project@ + ".csv"@,
        r.1@ == link_of(uri_base@, tag@, r.0@, tz_key@),
{
    let mut file_name: String = project.to_owned();
    file_name.append(".csv");
    let mut link: String = uri_base.to_owned();
    link.append("/export/");
    link.append(tag);
    link.append("/");
    link.append(file_name.as_str());
    link.append("/");
    link.append(tz_key);
    (file_name, link)
}

impl MainPage {
    /// Build the page model: the chosen timezone's render key, the other
    /// default zones' keys, and a section per project with its download
    /// name and link.  Fails with `UnknownTimezone` exactly when a
    /// requested render key decodes to no known timezone.
    pub fn new(
        tag_name: String,
        projects: Vec<(Project, Vec<Timer>)>,
        timezone: Option<String>,
        uri_base: String,
    ) -> (r: Result<MainPage, FormatError>)
        ensures
            zone_choice_ok(timezone) ==> (r matches Ok(p) && p@ == page_view_of(
                tag_name@,
                groups_view(projects@),
                timezone,
                uri_base@,
            )),
            !zone_choice_ok(timezone) ==> (r matches Err(e) && e == FormatError::UnknownTimezone),
    {
        let current_name: String = match &timezone {
            Some(tz) => match from_render_timezone(tz.as_str()) {
                Ok(t) => t.name,
                Err(e) => {
                    return Err(e);
                },
            },
            None => "US/Pacific".to_owned(),
        };
        proof {
            assert(current_name@ == chosen_zone_name(timezone));
        }
        let current_key = replace_char_str(current_name.as_str(), '/', '-');

        let mut zones: Vec<String> = Vec::new();
        if !text::str_eq("US/Pacific", current_name.as_str()) {
            zones.push(replace_char_str("US/Pacific", '/', '-'));
        }
        if !text::str_eq("US/Mountain", current_name.as_str()) {
            zones.push(replace_char_str("US/Mountain", '/', '-'));
        }
        if !text::str_eq("US/Central", current_name.as_str()) {
            zones.push(replace_char_str("US/Central", '/', '-'));
        }
        if !text::str_eq("US/Eastern", current_name.as_str()) {
            zones.push(replace_char_str("US/Eastern", '/', '-'));
        }
        proof {
            assert(zones@.map_values(|z: String| z@) =~= other_zone_keys(current_name@));
        }

        let ghost tagv = tag_name@;
        let ghost basev = uri_base@;
        let ghost keyv = current_key@;
        let n = projects.len();
        let mut sections: Vec<ProjectSection> = Vec::new();
        let mut i: usize = 0;
        while i < n
            invariant
                0 <= i <= n,
                n == projects@.len(),
                current_name@ == chosen_zone_name(timezone),
                current_key@ == replace_char(chosen_zone_name(timezone), '/', '-'),
                sections@.map_values(|p: ProjectSection| p@) =~= sections_of(
                    groups_view(projects@),
                    uri_base@,
                    tag_name@,
                    current_key@,
                ).take(i as int),
            decreases n - i,
        {
            let ghost pre = sections@.map_values(|p: ProjectSection| p@);
            let name = projects[i].0.name.clone();
            let timers = projects[i].1.clone();
            proof {
                let pv = projects@[i as int];
                assert forall|j: int| 0 <= j < timers@.len() implies timers@[j] == pv.1@[j] by {
                    assert(vstd::pervasive::cloned::<Timer>(pv.1[j], timers@[j]));
                }
                assert(timers@ =~= pv.1@);
            }
            let (file_name, link) = download_information(
                name.as_str(),
                tag_name.as_str(),
                current_key.as_str(),
                uri_base.as_str(),
            );
            let section = ProjectSection {
                name,
                timers,
                download_link: link,
                download_file_name: file_name,
            };
            sections.push(section);
            proof {
                assert(sections@.map_values(|p: ProjectSection| p@) =~= pre.push(
                    section_view_of(
                        projects@[i as int].0@,
                        projects@[i as int].1@.map_values(|t: Timer| t@),
                        uri_base@,
                        tag_name@,
                        current_key@,
                    ),
                ));
                assert(sections@.map_values(|p: ProjectSection| p@) =~= sections_of(
                    groups_view(projects@),
                    uri_base@,
                    tag_name@,
                    current_key@,
                ).take(i + 1 as int));
            }
            i = i + 1;
        }

        proof {
            let groups = groups_view(projects@);
            assert(groups.len() == n);
            assert(sections_of(groups, basev, tagv, keyv).take(n as int) =~= sections_of(
                groups,
                basev,
                tagv,
                keyv,
            ));
        }
        let page = MainPage {
            current_timezone: current_key,
            tag_name,
            timezones: zones,
            uri_base,
            projects: sections,
        };
        proof {
            assert(page@.timezones =~= other_zone_keys(chosen_zone_name(timezone)));
            assert(page@.projects =~= sections_of(
                groups_view(projects@),
                basev,
                tagv,
                keyv,
            ));
            assert(page@ == page_view_of(tagv, groups_view(projects@), timezone, basev));
        }
        Ok(page)
    }
}

/// Build the main page model for a tag from its grouped query result.
pub fn render_timers(
    tag: crate::uid::TagId,
    timezone: Option<String>,
    projects: Vec<(Project, Vec<Timer>)>,
    uri_base: String,
) -> (r: Result<MainPage, FormatError>)
    ensures
        zone_choice_ok(timezone) ==> (r matches Ok(p) && p@ == page_view_of(
            tag@,
            groups_view(projects@),
            timezone,
            uri_base@,
        )),
        !zone_choice_ok(timezone) ==> (r matches Err(e) && e == FormatError::UnknownTimezone),
{
    let tag_name: String = tag.as_ref().to_owned();
    MainPage::new(tag_name, projects, timezone, uri_base)
}

} // verus!
