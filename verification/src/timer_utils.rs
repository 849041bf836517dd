//! The export encoder: a tag's completed timers rendered as CSV bytes,
//! all-or-nothing — an encoding failure aborts the whole export.

use vstd::prelude::*;
use crate::templates;
use crate::templates::FormatError;
use crate::templates::Timezone;
use crate::text;
use crate::text::replace_char;
use crate::timer_store::Timer;
use crate::timer_store::TimerView;

verus! {

/// A csv writer over an in-memory buffer.  Opaque: Verus sees it only
/// through `csv_rows` and the trusted operations below.  (The writer type's
/// own `io::Write` bound keeps it from being declared directly.)
#[verifier::external_body]
pub struct CsvBuffer {
    inner: csv::Writer<Vec<u8>>,
}

/// The records written to a csv writer so far, each a row of fields.
pub uninterp spec fn csv_rows(w: CsvBuffer) -> Seq<Seq<Seq<char>>>;

/// The bytes the csv writer produces for a sequence of records; a function
/// of the records alone under the default dialect.
pub uninterp spec fn csv_encoding(rows: Seq<Seq<Seq<char>>>) -> Seq<u8>;

/// Relies on `csv::Writer::from_writer`: a fresh writer over an empty
/// buffer holds no records.
#[verifier::external_body]
fn csv_writer_new() -> (w: CsvBuffer)
    ensures
        csv_rows(w) == Seq::<Seq<Seq<char>>>::empty(),
{
    CsvBuffer { inner: csv::Writer::from_writer(Vec::new()) }
}

/// Relies on `csv::Writer::write_record` and std's infallible `io::Write`
/// for `Vec<u8>`: the three fields are appended as one record.  Writing
/// fails only on a sink error — impossible for a vector — or on a record
/// width unequal to the first record's, which the precondition rules out.
#[verifier::external_body]
fn csv_write3(w: &mut CsvBuffer, a: &str, b: &str, c: &str)
    requires
        forall|i: int|
            0 <= i < csv_rows(*old(w)).len() ==> (#[trigger] csv_rows(*old(w))[i]).len() == 3,
    ensures
        csv_rows(*final(w)) == csv_rows(*old(w)).push(seq![a@, b@, c@]),
{
    let _ = w.inner.write_record(&[a, b, c]);
}

/// Relies on `csv::Writer::into_inner`: flush to the `Vec<u8>` sink —
/// which cannot fail — and hand back the accumulated bytes.
#[verifier::external_body]
fn csv_into_bytes(w: CsvBuffer) -> (r: Vec<u8>)
    ensures
        r@ == csv_encoding(csv_rows(w)),
{
    match w.inner.into_inner() {
        Ok(bytes) => bytes,
        Err(_) => Vec::new(),
    }
}

/// The pattern every exported time is rendered under.
pub open spec fn export_pattern() -> Seq<char> {
    "%F %H:%M"@
}

/// The header record of every export.
pub open spec fn header_row() -> Seq<Seq<char>> {
    seq!["start_time"@, "end_time"@, "duration"@]
}

/// The record exported for one timer: its start, its end if it ran for a
/// positive duration (else an empty field), and its duration as
/// hours-colon-minutes if positive (else an empty field).
pub open spec fn export_row(t: TimerView, zone: Seq<char>) -> Seq<Seq<char>> {
    seq![
        templates::strftime_of(zone, t.start_time, export_pattern()),
        if t.duration > 0 {
            templates::strftime_of(zone, t.start_time + t.duration, export_pattern())
        } else {
            Seq::empty()
        },
        if t.duration > 0 {
            text::dec_rep(templates::hour_part(t.duration) as nat) + ":"@ + text::dec_rep(
                templates::minute_part(t.duration) as nat,
            )
        } else {
            Seq::empty()
        },
    ]
}

/// The records of a whole export: the header, then one record per timer in
/// input order.
pub open spec fn export_rows(ts: Seq<TimerView>, zone: Seq<char>) -> Seq<Seq<Seq<char>>> {
    seq![header_row()].add(ts.map_values(|t: TimerView| export_row(t, zone)))
}

/// Whether a timer's fields are within the row type's bounds, as every row
/// a well-formed store hands out is.
pub open spec fn timer_in_bounds(t: TimerView) -> bool {
    0 <= t.start_time && 0 <= t.duration && t.start_time + t.duration <= i64::MAX
}

/// Whether every epoch the export renders for `t` is in the date type's
/// range.
pub open spec fn row_renderable(t: TimerView) -> bool {
    templates::epoch_in_range(t.start_time) && (t.duration > 0 ==> templates::epoch_in_range(
        t.start_time + t.duration,
    ))
}

pub open spec fn all_renderable(ts: Seq<TimerView>) -> bool {
    forall|i: int| 0 <= i < ts.len() ==> row_renderable(#[trigger] ts[i])
}

/// Whether an export of these rows encodes: an empty export always does —
/// nothing is rendered — and otherwise the pattern must render and every
/// row's epochs must be in range.
pub open spec fn export_encodes(ts: Seq<TimerView>) -> bool {
    ts.len() == 0 || (templates::strftime_ok(export_pattern()) && all_renderable(ts))
}

/// Serializes timers into CSV bytes, in input order, in the timezone named
/// by the render key.  All-or-nothing: an unknown timezone or an
/// unrenderable row aborts the export with no partial output.
#[verifier::loop_isolation(false)]
pub fn export_timers(timers: Vec<Timer>, timezone: &str) -> (r: Result<Vec<u8>, FormatError>)
    requires
        forall|i: int| 0 <= i < timers@.len() ==> timer_in_bounds((#[trigger] timers@[i])@),
    ensures
        ({
            let zone = replace_char(timezone@, '-', '/');
            let rows = timers@.map_values(|t: Timer| t@);
            &&& !templates::tz_name_valid(zone) ==> (r matches Err(e) && e
                == FormatError::UnknownTimezone)
            &&& templates::tz_name_valid(zone) && export_encodes(rows) ==> (r matches Ok(
                bytes,
            ) && bytes@ == csv_encoding(export_rows(rows, zone)))
            &&& templates::tz_name_valid(zone) && !export_encodes(rows) ==> (r matches Err(e)
                && e == FormatError::Unrepresentable)
        }),
{
    let ghost zone = replace_char(timezone@, '-', '/');
    let ghost rows = timers@.map_values(|t: Timer| t@);
    let tz: Timezone = match templates::from_render_timezone(timezone) {
        Ok(tz) => tz,
        Err(e) => {
            return Err(e);
        },
    };
    let mut w = csv_writer_new();
    csv_write3(&mut w, "start_time", "end_time", "duration");
    proof {
        assert(csv_rows(w) =~= export_rows(rows.take(0), zone)) by {
            assert(rows.take(0).map_values(|t: TimerView| export_row(t, zone)) =~= Seq::<
                Seq<Seq<char>>,
            >::empty());
        }
    }
    let n = timers.len();
    let mut i: usize = 0;
    while i < n
        invariant
            0 <= i <= n,
            csv_rows(w) == export_rows(rows.take(i as int), zone),
            forall|j: int| 0 <= j < i ==> row_renderable(#[trigger] rows[j]),
            i > 0 ==> templates::strftime_ok(export_pattern()),
        decreases n - i,
    {
        let start_time = timers[i].start_time;
        let duration = timers[i].duration;
        let start_field = match templates::format_time(&start_time, &tz, "%F %H:%M") {
            Ok(s) => s,
            Err(_) => {
                proof {
                    if templates::strftime_ok(export_pattern()) {
                        assert(!row_renderable(rows[i as int]));
                    }
                }
                return Err(FormatError::Unrepresentable);
            },
        };
        let end_field: String = if duration > 0 {
            let end_time = start_time + duration;
            match templates::format_time(&end_time, &tz, "%F %H:%M") {
                Ok(s) => s,
                Err(_) => {
                    proof {
                        if templates::strftime_ok(export_pattern()) {
                            assert(rows[i as int].duration > 0);
                            assert(!row_renderable(rows[i as int]));
                        }
                    }
                    return Err(FormatError::Unrepresentable);
                },
            }
        } else {
            String::new()
        };
        let duration_field: String = if duration > 0 {
            let hours = match templates::extract_timer(templates::TimerPart::Hour, duration) {
                Ok(h) => h,
                Err(e) => {
                    return Err(e);
                },
            };
            let minutes = match templates::extract_timer(templates::TimerPart::Min, duration) {
                Ok(m) => m,
                Err(e) => {
                    return Err(e);
                },
            };
            proof {
                templates::lemma_parts_nonneg(duration as int);
            }
            let mut d = text::dec_string(hours);
            d.append(":");
            let m = text::dec_string(minutes);
            d.append(m.as_str());
            d
        } else {
            String::new()
        };
        let ghost before = csv_rows(w);
        proof {
            assert(forall|j: int| 0 <= j < before.len() ==> (#[trigger] before[j]).len() == 3)
                by {
                assert(before == export_rows(rows.take(i as int), zone));
                assert(before[0] == header_row());
                assert(forall|j: int|
                    1 <= j < before.len() ==> #[trigger] before[j] == export_row(
                        rows.take(i as int)[j - 1],
                        zone,
                    ));
            }
        }
        csv_write3(&mut w, start_field.as_str(), end_field.as_str(), duration_field.as_str());
        proof {
            assert(seq![start_field@, end_field@, duration_field@] =~= export_row(
                rows[i as int],
                zone,
            ));
            assert(rows.take(i + 1 as int).drop_last() =~= rows.take(i as int));
            assert(csv_rows(w) =~= export_rows(rows.take(i + 1 as int), zone)) by {
                assert(rows.take(i + 1 as int).map_values(|t: TimerView| export_row(t, zone))
                    =~= rows.take(i as int).map_values(|t: TimerView| export_row(t, zone)).push(
                    export_row(rows[i as int], zone),
                ));
            }
        }
        i = i + 1;
    }
    proof {
        assert(rows.take(n as int) =~= rows);
    }
    let bytes = csv_into_bytes(w);
    Ok(bytes)
}

} // verus!
