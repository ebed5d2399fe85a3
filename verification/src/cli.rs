//! What the command line prints.

use vstd::prelude::*;

use crate::doctor::DoctorCheck;
use crate::jobs::JobRecord;
use crate::project_config::WorkerSettings;
use crate::text;

verus! {

/// Where the web interface is opened, from the address it is bound to.
pub fn local_web_url(bind: &str, loopback: bool, port: u16) -> (url: String)
    ensures
        url@ == if loopback {
            "http://bender.localhost:"@ + text::digits(port as nat)
        } else {
            "http://"@ + bind@
        },
{
    if loopback {
        "http://bender.localhost:".to_string().concat(text::decimal(port as u64).as_str())
    } else {
        "http://".to_string().concat(bind)
    }
}

/// The line that shows a job.
pub fn job_line(record: &JobRecord) -> (line: String)
    ensures
        line@ == record.id@ + "\t"@ + record.state.title() + "\tattempt "@ + text::digits(record.attempt as nat) + "\t"@
            + record.message@,
{
    record.id.clone().concat("\t").concat(record.state.name().as_str()).concat("\tattempt ").concat(
        text::decimal(record.attempt as u64).as_str(),
    ).concat("\t").concat(record.message.as_str())
}

/// The mark of a check: passed, failed though it is required, or not there.
pub open spec fn mark_of(check: DoctorCheck) -> Seq<char> {
    if check.ok {
        "✓"@
    } else if check.required {
        "✗"@
    } else {
        "○"@
    }
}

/// The line that shows a check.
pub fn check_line(check: &DoctorCheck) -> (line: String)
    ensures
        line@ == mark_of(*check) + " "@ + check.name@ + " — "@ + check.detail@,
{
    let mark = if check.ok {
        "✓"
    } else if check.required {
        "✗"
    } else {
        "○"
    };
    mark.to_string().concat(" ").concat(check.name.as_str()).concat(" — ").concat(check.detail.as_str())
}

/// The line that shows the model of a worker or of a review.
pub fn model_line(role: &str, name: &str, settings: &WorkerSettings) -> (line: String)
    ensures
        line@ == role@ + " "@ + name@ + ": "@ + settings.model@ + " via "@ + settings.provider@ + " ("@ + settings.base_url@
            + ")"@,
{
    role.to_string().concat(" ").concat(name).concat(": ").concat(settings.model.as_str()).concat(" via ").concat(
        settings.provider.as_str(),
    ).concat(" (").concat(settings.base_url.as_str()).concat(")")
}

/// The line that shows a worker.
pub fn worker_line(name: &str, settings: &WorkerSettings) -> (line: String)
    ensures
        line@ == name@ + "\t"@ + if settings.enabled {
            "enabled"@
        } else {
            "disabled"@
        } + "\t"@ + settings.model@,
{
    let enabled = if settings.enabled {
        "enabled"
    } else {
        "disabled"
    };
    name.to_string().concat("\t").concat(enabled).concat("\t").concat(settings.model.as_str())
}

/// A failure that counts, one that does not, and what is in order are told apart at a glance.
pub proof fn marks_tell_findings_apart(check: DoctorCheck)
    ensures
        check.ok <==> mark_of(check) == "✓"@,
        !check.ok && check.required <==> mark_of(check) == "✗"@,
        !check.ok && !check.required <==> mark_of(check) == "○"@,
{
    reveal_strlit("✓");
    reveal_strlit("✗");
    reveal_strlit("○");
    assert("✓"@[0] == '✓' && "✗"@[0] == '✗' && "○"@[0] == '○');
}

} // verus!
