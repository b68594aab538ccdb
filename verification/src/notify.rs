//! Title and body of the desktop notification for a status transition.
//! Which transitions are announced is decided in `state`.

use vstd::prelude::*;
use vstd::string::*;

use crate::providers::MonitorStatus;
use crate::state::Transition;
use crate::text::concat3;

verus! {

/// (title, body) of the notification for a transition; `None` for a status
/// that is never announced.
pub open spec fn spec_notification(t: Transition) -> Option<(Seq<char>, Seq<char>)> {
    match t.new_status {
        MonitorStatus::Down => Some(
            ("\u{1F534} "@ + t.monitor_name@ + " is DOWN"@, "via "@ + t.provider_label@),
        ),
        MonitorStatus::Up => Some(
            ("\u{1F7E2} "@ + t.monitor_name@ + " recovered"@, "via "@ + t.provider_label@),
        ),
        _ => None,
    }
}

pub fn notification_text(t: &Transition) -> (r: Option<(String, String)>)
    ensures
        match spec_notification(*t) {
            Some(p) => r matches Some(q) && q.0@ == p.0 && q.1@ == p.1,
            None => r is None,
        },
{
    match t.new_status {
        MonitorStatus::Down => {
            let title = concat3("\u{1F534} ", t.monitor_name.as_str(), " is DOWN");
            let mut body = String::from_str("via ");
            body.append(t.provider_label.as_str());
            Some((title, body))
        },
        MonitorStatus::Up => {
            let title = concat3("\u{1F7E2} ", t.monitor_name.as_str(), " recovered");
            let mut body = String::from_str("via ");
            body.append(t.provider_label.as_str());
            Some((title, body))
        },
        _ => None,
    }
}

} // verus!
