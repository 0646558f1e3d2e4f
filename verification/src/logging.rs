//! The logging decisions: which log file a message belongs to, at
//! which level, and whether the configured log setting lets it
//! through.  Writing the lines to disk is the caller's part.

use vstd::prelude::*;
use vstd::string::StringExecFns;
use crate::strings::str_eq;

verus! {

broadcast use vstd::string::group_string_axioms;

/// One message to append to a log file: the log's name tag, the
/// message body, and the message type written beside it.
pub struct LogEvent {
    pub log: String,
    pub body: String,
    pub msg_type: String,
}

/// Mathematical view of a [`LogEvent`].
pub struct LogEventView {
    pub log: Seq<char>,
    pub body: Seq<char>,
    pub msg_type: Seq<char>,
}

impl View for LogEvent {
    type V = LogEventView;

    open spec fn view(&self) -> LogEventView {
        LogEventView { log: self.log@, body: self.body@, msg_type: self.msg_type@ }
    }
}

/// An informational message for the named log.
pub fn log_info(log_title: &str, body: &str) -> (r: LogEvent)
    ensures
        r@.log == log_title@,
        r@.body == body@,
        r@.msg_type == "INFO"@,
{
    LogEvent {
        log: log_title.to_owned(),
        body: body.to_owned(),
        msg_type: String::from_str("INFO"),
    }
}

/// An error message for the named log.
pub fn log_error(log_title: &str, body: &str) -> (r: LogEvent)
    ensures
        r@.log == log_title@,
        r@.body == body@,
        r@.msg_type == "ERROR"@,
{
    LogEvent {
        log: log_title.to_owned(),
        body: body.to_owned(),
        msg_type: String::from_str("ERROR"),
    }
}

/// What a per-job message becomes under the configured log setting:
/// per-file messages are kept only at the `high` setting, per-step
/// messages at any setting but `low`, errors always, and anything
/// else as information.  The log's name tag is `job-` followed by the
/// job's uuid.
pub open spec fn spec_job_log(
    job_id: Seq<char>,
    body: Seq<char>,
    msg_type: Seq<char>,
    log_setting: Seq<char>,
) -> Option<LogEventView> {
    let title = "job-"@ + job_id;
    if msg_type == "FILE"@ {
        if log_setting == "high"@ {
            Option::Some(LogEventView { log: title, body, msg_type: "INFO"@ })
        } else {
            Option::None
        }
    } else if msg_type == "STEP"@ {
        if log_setting != "low"@ {
            Option::Some(LogEventView { log: title, body, msg_type: "INFO"@ })
        } else {
            Option::None
        }
    } else if msg_type == "ERROR"@ {
        Option::Some(LogEventView { log: title, body, msg_type: "ERROR"@ })
    } else {
        Option::Some(LogEventView { log: title, body, msg_type: "INFO"@ })
    }
}

/// Files a message about one job under the configured log setting;
/// `None` is a message the setting suppresses.
pub fn job_log(job_id: &str, body: &str, msg_type: &str, log_setting: String) -> (r: Option<
    LogEvent,
>)
    ensures
        match spec_job_log(job_id@, body@, msg_type@, log_setting@) {
            Option::Some(ev) => r is Some && r->Some_0@ == ev,
            Option::None => r is None,
        },
{
    proof {
        reveal_strlit("FILE");
        reveal_strlit("STEP");
        reveal_strlit("ERROR");
        assert("FILE"@.len() == 4);
        assert("STEP"@.len() == 4);
        assert("ERROR"@.len() == 5);
        assert("FILE"@[0] == 'F');
        assert("STEP"@[0] == 'S');
    }
    let mut log_title = String::from_str("job-");
    log_title.append(job_id);
    if str_eq(msg_type, "FILE") {
        if str_eq(log_setting.as_str(), "high") {
            Option::Some(log_info(log_title.as_str(), body))
        } else {
            Option::None
        }
    } else if str_eq(msg_type, "STEP") {
        if !str_eq(log_setting.as_str(), "low") {
            Option::Some(log_info(log_title.as_str(), body))
        } else {
            Option::None
        }
    } else if str_eq(msg_type, "ERROR") {
        Option::Some(log_error(log_title.as_str(), body))
    } else {
        Option::Some(log_info(log_title.as_str(), body))
    }
}

} // verus!
