//! What is done with each thing that a frame source hands over.
//!
//! The source itself is not here: whoever drives it asks it for the next frame, hands
//! the outcome to [`dispatch`], writes what comes back, and asks again unless told to stop.
use crate::hex_dump::{render, render_packet_data};
use crate::packet_headers::{decode, parse_packet_headers};
use crate::rule_matcher::{match_all, match_events, MatchEvent};
use crate::rule_parser::{rule_models, RuleModel, SnortRule};
use crate::text::{decimal, dotted_quad, push_decimal, push_dotted_quad, push_repeated, repeated};
use vstd::prelude::*;
use vstd::string::StringExecFns;

verus! {

/// The number of `#` in the line that ends a report.
pub const DELIMITER_LEN: usize = 85;

/// What a frame source hands over when it is asked for the next frame.
pub enum CaptureEvent<'a> {
    /// A frame arrived: its bytes.
    Frame(&'a [u8]),
    /// The source has ended or broken: its own account of why.
    Failed(&'a str),
}

/// What is to be done after an event.
#[derive(Debug)]
pub enum Dispatch {
    /// Write the reports, in this order, and ask for the next frame.
    Continue { reports: Vec<String> },
    /// Show the message and ask for nothing more.
    Stop { message: String },
}

/// The report of one match: the action and the endpoints, the frame in its diagnostic
/// form, and a line of `#`.
pub open spec fn report_text(event: MatchEvent, dump: Seq<char>) -> Seq<char> {
    "Action: "@ + event.action.keyword() + "\n"@ + "Source IP: "@ + dotted_quad(event.src_ip@)
        + ", Source Port: "@ + decimal(event.src_port as nat) + "\n"@ + "Destination IP: "@
        + dotted_quad(event.dst_ip@) + ", Destination Port: "@ + decimal(event.dst_port as nat)
        + "\n"@ + dump + repeated('#', DELIMITER_LEN as nat) + "\n"@
}

/// The reports of a frame: none if no headers can be read from it, else one for each
/// rule that matches, in the order of the rules.
pub open spec fn reports_of(rules: Seq<RuleModel>, frame: Seq<u8>) -> Seq<Seq<char>> {
    match decode(frame) {
        None => Seq::empty(),
        Some(headers) => match_events(headers, rules).map_values(
            |event: MatchEvent| report_text(event, render(frame)),
        ),
    }
}

/// The message for a source that has failed.
pub open spec fn failure_text(reason: Seq<char>) -> Seq<char> {
    "Error capturing packet: "@ + reason
}

/// Writes the report of one match around the diagnostic form of its frame.
pub fn report(event: &MatchEvent, dump: &str) -> (text: String)
    ensures
        text@ == report_text(*event, dump@),
{
    let mut text = String::new();
    text.append("Action: ");
    text.append(event.action.as_str());
    text.append("\n");
    text.append("Source IP: ");
    push_dotted_quad(&mut text, &event.src_ip);
    text.append(", Source Port: ");
    push_decimal(&mut text, event.src_port as u64);
    text.append("\n");
    text.append("Destination IP: ");
    push_dotted_quad(&mut text, &event.dst_ip);
    text.append(", Destination Port: ");
    push_decimal(&mut text, event.dst_port as u64);
    text.append("\n");
    text.append(dump);
    push_repeated(&mut text, '#', DELIMITER_LEN);
    text.append("\n");
    text
}

/// Decodes a frame, holds it against the rules and writes a report for every match.
/// A frame from which no headers can be read is passed over in silence.
pub fn frame_reports(rules: &[SnortRule], data: &[u8]) -> (reports: Vec<String>)
    ensures
        reports.deep_view() == reports_of(rule_models(rules@), data@),
{
    let mut reports: Vec<String> = Vec::new();
    if let Some(headers) = parse_packet_headers(data) {
        let events = match_all(&headers, rules);
        let dump = render_packet_data(data);
        let ghost text = |event: MatchEvent| report_text(event, render(data@));
        let mut i: usize = 0;
        while i < events.len()
            invariant
                i <= events@.len(),
                dump@ == render(data@),
                text == |event: MatchEvent| report_text(event, render(data@)),
                reports.deep_view() == events@.take(i as int).map_values(text),
            decreases events@.len() - i,
        {
            let ghost before = reports.deep_view();
            let one = report(&events[i], dump.as_str());
            reports.push(one);
            assert(reports.deep_view() == before.push(one@));
            i += 1;
        }
        assert(events@.take(i as int) == events@);
    }
    reports
}

/// Decides what follows an event: after a frame, its reports and the next frame; after a
/// failure of the source, the message and the end. Nothing is tried again.
pub fn dispatch<'a>(rules: &[SnortRule], event: &CaptureEvent<'a>) -> (next: Dispatch)
    ensures
        match *event {
            CaptureEvent::Frame(data) => next matches Dispatch::Continue { reports }
                && reports.deep_view() == reports_of(rule_models(rules@), data@),
            CaptureEvent::Failed(reason) => next matches Dispatch::Stop { message } && message@
                == failure_text(reason@),
        },
{
    match event {
        CaptureEvent::Frame(data) => Dispatch::Continue { reports: frame_reports(rules, data) },
        CaptureEvent::Failed(reason) => {
            let mut message = String::new();
            message.append("Error capturing packet: ");
            message.append(reason);
            Dispatch::Stop { message }
        },
    }
}

} // verus!
