//! The configuration tab's state: one job at a time (fetch, load from a
//! file, save to a file, push to the logger), what each outcome does to the
//! status line and the form, and the toast it raises.

use vstd::prelude::*;
use crate::ui::ToastKind;

verus! {

/// Where the configuration tab stands.
pub enum ConfigStatus {
    Idle,
    Loading,
    Error(String),
}

/// The jobs of the configuration tab.
#[derive(Clone, Copy, PartialEq, Eq, Structural, Debug)]
pub enum ConfigJob {
    /// Fetch the logger's configuration into the form.
    Refresh,
    /// Send a configuration file to the logger, then show it.
    LoadFile,
    /// Fetch the logger's configuration, write it to a file, then show it.
    SaveFile,
    /// Send the form's configuration to the logger.
    Push,
}

/// How a job ended.
pub enum JobOutcome {
    /// Done; for a saved file, where it went.
    Done(String),
    /// A dialog was cancelled.
    Cancelled,
    /// The job failed with this error.
    Failed(String),
    /// The logger answered with something else, described by this text.
    Unexpected(String),
}

/// The status, the flag of a configuration ever shown, and the flag of the
/// first automatic fetch.
pub struct ConfigTab {
    pub status: ConfigStatus,
    pub loaded: bool,
    pub fetched_once: bool,
}

/// What ending a job does: the status after it, whether a configuration is
/// now shown, whether the form is filled from the job's configuration, and
/// the toast to raise.
pub open spec fn job_end(job: ConfigJob, outcome: JobOutcome, loaded: bool) -> (ConfigStatus, bool, bool, Option<(Seq<char>, ToastKind)>) {
    match job {
        ConfigJob::Refresh => match outcome {
            JobOutcome::Done(_) => (ConfigStatus::Idle, true, true, None),
            JobOutcome::Cancelled => (ConfigStatus::Idle, loaded, false, None),
            JobOutcome::Failed(e) => (ConfigStatus::Error(e), loaded, false, None),
            JobOutcome::Unexpected(d) => (ConfigStatus::Error(d), loaded, false, None),
        },
        ConfigJob::LoadFile => match outcome {
            JobOutcome::Done(_) => (ConfigStatus::Idle, true, true, Some(("configuration loaded"@, ToastKind::Success))),
            JobOutcome::Cancelled => (ConfigStatus::Idle, loaded, false, None),
            JobOutcome::Failed(e) => (ConfigStatus::Error(e), loaded, false, Some(("load configuration failed: "@ + e@, ToastKind::Error))),
            JobOutcome::Unexpected(d) => (ConfigStatus::Error(d), loaded, false, Some(("load configuration failed: "@ + d@, ToastKind::Error))),
        },
        ConfigJob::SaveFile => match outcome {
            JobOutcome::Done(path) => (ConfigStatus::Idle, true, true, Some(("saved to "@ + path@, ToastKind::Success))),
            JobOutcome::Cancelled => (ConfigStatus::Idle, loaded, false, None),
            JobOutcome::Failed(e) => (ConfigStatus::Idle, loaded, false, Some(("save configuration failed: "@ + e@, ToastKind::Error))),
            JobOutcome::Unexpected(d) => (ConfigStatus::Idle, loaded, false, Some(("save configuration failed: "@ + d@, ToastKind::Error))),
        },
        ConfigJob::Push => match outcome {
            JobOutcome::Done(_) => (ConfigStatus::Idle, loaded, false, Some(("configuration pushed"@, ToastKind::Success))),
            JobOutcome::Cancelled => (ConfigStatus::Idle, loaded, false, None),
            JobOutcome::Failed(e) => (ConfigStatus::Idle, loaded, false, Some(("push failed: "@ + e@, ToastKind::Error))),
            JobOutcome::Unexpected(d) => (ConfigStatus::Idle, loaded, false, Some((d@, ToastKind::Error))),
        },
    }
}

fn prefixed(prefix: &str, text: &str) -> (r: String)
    ensures
        r@ == prefix@ + text@,
{
    let mut m = prefix.to_owned();
    m.append(text);
    m
}

impl ConfigTab {
    /// Idle, nothing shown, not fetched yet.
    pub fn new() -> (r: ConfigTab)
        ensures
            r.status is Idle,
            !r.loaded,
            !r.fetched_once,
    {
        ConfigTab { status: ConfigStatus::Idle, loaded: false, fetched_once: false }
    }

    /// A job may start unless one runs; it then runs. Returns whether it
    /// started.
    pub fn start_job(&mut self) -> (started: bool)
        ensures
            started == !(old(self).status is Loading),
            final(self).status is Loading,
            final(self).loaded == old(self).loaded,
            final(self).fetched_once == old(self).fetched_once,
    {
        if let ConfigStatus::Loading = self.status {
            return false;
        }
        self.status = ConfigStatus::Loading;
        true
    }

    /// The first showing of the tab fetches the configuration, once.
    /// Returns whether a fetch started.
    pub fn auto_fetch(&mut self) -> (started: bool)
        ensures
            final(self).fetched_once,
            started == (!old(self).fetched_once && !(old(self).status is Loading)),
            final(self).loaded == old(self).loaded,
            old(self).fetched_once ==> final(self).status == old(self).status,
            !old(self).fetched_once ==> final(self).status is Loading,
    {
        if self.fetched_once {
            return false;
        }
        self.fetched_once = true;
        self.start_job()
    }

    /// Ends a job with its outcome; returns whether the form is to be
    /// filled from the job's configuration, and the toast to raise (see
    /// `job_end`).
    pub fn finish(&mut self, job: ConfigJob, outcome: JobOutcome) -> (r: (bool, Option<(String, ToastKind)>))
        ensures
            ({
                let (status, loaded, fill, toast) = job_end(job, outcome, old(self).loaded);
                &&& final(self).status == status
                &&& final(self).loaded == loaded
                &&& r.0 == fill
                &&& match (r.1, toast) {
                    (Some((m, k)), Some((tm, tk))) => m@ == tm && k == tk,
                    (None, None) => true,
                    _ => false,
                }
            }),
            final(self).fetched_once == old(self).fetched_once,
            outcome is Done ==> r.0 == (job != ConfigJob::Push) && final(self).status is Idle,
            outcome is Done ==> final(self).loaded == (job != ConfigJob::Push || old(self).loaded),
            !(outcome is Done) ==> !r.0 && final(self).loaded == old(self).loaded,
            job == ConfigJob::LoadFile && outcome is Done ==> (r.1 matches Some((m, k)) && m@ == "configuration loaded"@
                && k == ToastKind::Success),
            outcome is Cancelled ==> r.1 is None && final(self).status is Idle,
            job == ConfigJob::Refresh ==> r.1 is None,
            job != ConfigJob::Refresh && outcome is Done ==> (r.1 matches Some((_, k)) && k == ToastKind::Success),
            job != ConfigJob::Refresh && (outcome is Failed || outcome is Unexpected) ==> (r.1 matches Some((_, k)) && k
                == ToastKind::Error),
            (job == ConfigJob::SaveFile || job == ConfigJob::Push) ==> final(self).status is Idle,
    {
        match job {
            ConfigJob::Refresh => match outcome {
                JobOutcome::Done(_) => {
                    self.status = ConfigStatus::Idle;
                    self.loaded = true;
                    (true, None)
                },
                JobOutcome::Cancelled => {
                    self.status = ConfigStatus::Idle;
                    (false, None)
                },
                JobOutcome::Failed(e) => {
                    self.status = ConfigStatus::Error(e);
                    (false, None)
                },
                JobOutcome::Unexpected(d) => {
                    self.status = ConfigStatus::Error(d);
                    (false, None)
                },
            },
            ConfigJob::LoadFile => match outcome {
                JobOutcome::Done(_) => {
                    self.status = ConfigStatus::Idle;
                    self.loaded = true;
                    (true, Some(("configuration loaded".to_owned(), ToastKind::Success)))
                },
                JobOutcome::Cancelled => {
                    self.status = ConfigStatus::Idle;
                    (false, None)
                },
                JobOutcome::Failed(e) => {
                    let m = prefixed("load configuration failed: ", e.as_str());
                    self.status = ConfigStatus::Error(e);
                    (false, Some((m, ToastKind::Error)))
                },
                JobOutcome::Unexpected(d) => {
                    let m = prefixed("load configuration failed: ", d.as_str());
                    self.status = ConfigStatus::Error(d);
                    (false, Some((m, ToastKind::Error)))
                },
            },
            ConfigJob::SaveFile => {
                self.status = ConfigStatus::Idle;
                match outcome {
                    JobOutcome::Done(path) => {
                        self.loaded = true;
                        (true, Some((prefixed("saved to ", path.as_str()), ToastKind::Success)))
                    },
                    JobOutcome::Cancelled => (false, None),
                    JobOutcome::Failed(e) => (false, Some((prefixed("save configuration failed: ", e.as_str()), ToastKind::Error))),
                    JobOutcome::Unexpected(d) => (false, Some((prefixed("save configuration failed: ", d.as_str()), ToastKind::Error))),
                }
            },
            ConfigJob::Push => {
                self.status = ConfigStatus::Idle;
                match outcome {
                    JobOutcome::Done(_) => (false, Some(("configuration pushed".to_owned(), ToastKind::Success))),
                    JobOutcome::Cancelled => (false, None),
                    JobOutcome::Failed(e) => (false, Some((prefixed("push failed: ", e.as_str()), ToastKind::Error))),
                    JobOutcome::Unexpected(d) => (false, Some((d, ToastKind::Error))),
                }
            },
        }
    }

    /// The status line: `not loaded` before anything was shown, `in sync
    /// with last fetch/push` when idle, `working...` during a job, else
    /// `error: ` and the error.
    pub fn status_text(&self) -> (r: String)
        ensures
            r@ == (match self.status {
                ConfigStatus::Idle => if self.loaded { "in sync with last fetch/push"@ } else { "not loaded"@ },
                ConfigStatus::Loading => "working..."@,
                ConfigStatus::Error(e) => "error: "@ + e@,
            }),
    {
        match &self.status {
            ConfigStatus::Idle => {
                if self.loaded {
                    "in sync with last fetch/push".to_owned()
                } else {
                    "not loaded".to_owned()
                }
            },
            ConfigStatus::Loading => "working...".to_owned(),
            ConfigStatus::Error(e) => prefixed("error: ", e.as_str()),
        }
    }
}

} // verus!
