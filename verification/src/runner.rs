use vstd::prelude::*;

use crate::error::Error;
use crate::file::{needs_update_spec, VersionInfo};
use crate::manifest::{vars_map, ManifestManager};
use crate::network::ContentUrl;
use crate::secret::{encode_secret, encoded_secret};
use crate::strutil::str_eq;

verus! {

// The update orchestrator: the check, update and launch sequence as a state
// machine. Every transition consumes the outcome of the step just performed
// and names the one action to perform next; every failure is fatal to the
// run. The caller performs the actions (network, disk, process) and feeds
// the outcomes back.

/// Where the sequence stands.
#[derive(Debug, Clone, Copy, PartialEq, Eq, Structural)]
pub enum RunnerPhase {
    Init,
    CheckingConnection,
    FetchingAppInfo,
    FetchingVersion,
    FetchingContentUrls,
    Downloading,
    RemovingOldFiles,
    Extracting,
    SavingVersion,
    Launching,
    Done,
    Failed,
}

/// The outcome of the step the caller just performed.
#[derive(Debug)]
pub enum RunnerEvent {
    Started,
    ConnectionChecked(bool),
    AppInfoFetched(Result<Option<String>, Error>),
    VersionFetched(Result<String, Error>),
    ContentUrlsFetched(Result<Vec<ContentUrl>, Error>),
    Downloaded(Result<(), Error>),
    OldFilesRemoved,
    Extracted(Result<(), Error>),
    VersionSaved(Result<(), Error>),
    Launched(Result<(), Error>),
}

/// What the caller performs next.
#[derive(Debug)]
pub enum RunnerAction {
    CheckConnection,
    FetchAppInfo { app_secret: String },
    FetchVersion { patcher_secret: String },
    FetchContentUrls { patcher_secret: String, version: String },
    Download { url: String },
    RemoveOldFiles,
    ExtractPackage,
    SaveVersion { version: String, patcher_secret: String },
    LaunchFromManifest,
    Finish,
    Fail { error: Error },
}

/// The orchestrator's state: the phase, the secrets it started from, the
/// stored version identity, and what the lookups resolved so far.
pub struct UpdateOrchestrator {
    pub phase: RunnerPhase,
    pub app_secret: String,
    pub dat_patcher_secret: String,
    pub current_version: Option<VersionInfo>,
    pub patcher_secret: String,
    pub version: String,
}

/// A transition into the terminal failure phase, reporting `e`.
pub open spec fn failed_with(
    pre: UpdateOrchestrator,
    post: UpdateOrchestrator,
    action: RunnerAction,
    e: Error,
) -> bool {
    &&& post == (UpdateOrchestrator { phase: RunnerPhase::Failed, ..pre })
    &&& action == (RunnerAction::Fail { error: e })
}

/// The one transition the orchestrator takes for a phase and an event: the
/// linear check, update and launch sequence, with the up-to-date path
/// skipping straight from the version comparison to the launch, an empty
/// content list ending the run without a launch, and every error fatal.
pub open spec fn step_rel(
    pre: UpdateOrchestrator,
    event: RunnerEvent,
    post: UpdateOrchestrator,
    action: RunnerAction,
) -> bool {
    match (pre.phase, event) {
        (RunnerPhase::Init, RunnerEvent::Started) => {
            &&& post == (UpdateOrchestrator { phase: RunnerPhase::CheckingConnection, ..pre })
            &&& action is CheckConnection
        },
        (RunnerPhase::CheckingConnection, RunnerEvent::ConnectionChecked(ok)) => {
            if ok {
                &&& post == (UpdateOrchestrator { phase: RunnerPhase::FetchingAppInfo, ..pre })
                &&& (action matches RunnerAction::FetchAppInfo { app_secret } && app_secret
                    == pre.app_secret)
            } else {
                &&& post == (UpdateOrchestrator { phase: RunnerPhase::Failed, ..pre })
                &&& (action matches RunnerAction::Fail { error: Error::Other(s) } && s@
                    == "No internet connection"@)
            }
        },
        (RunnerPhase::FetchingAppInfo, RunnerEvent::AppInfoFetched(res)) => match res {
            Ok(server_secret) => {
                let resolved = match server_secret {
                    Some(s) => s,
                    None => pre.dat_patcher_secret,
                };
                &&& post == (UpdateOrchestrator {
                    phase: RunnerPhase::FetchingVersion,
                    patcher_secret: resolved,
                    ..pre
                })
                &&& (action matches RunnerAction::FetchVersion { patcher_secret } && patcher_secret
                    == resolved)
            },
            Err(e) => failed_with(pre, post, action, e),
        },
        (RunnerPhase::FetchingVersion, RunnerEvent::VersionFetched(res)) => match res {
            Ok(v) => {
                if needs_update_spec(pre.current_version, v@, pre.patcher_secret@) {
                    &&& post == (UpdateOrchestrator {
                        phase: RunnerPhase::FetchingContentUrls,
                        version: v,
                        ..pre
                    })
                    &&& (action matches RunnerAction::FetchContentUrls { patcher_secret, version }
                        && patcher_secret == pre.patcher_secret && version == v)
                } else {
                    &&& post == (UpdateOrchestrator {
                        phase: RunnerPhase::Launching,
                        version: v,
                        ..pre
                    })
                    &&& action is LaunchFromManifest
                }
            },
            Err(e) => failed_with(pre, post, action, e),
        },
        (RunnerPhase::FetchingContentUrls, RunnerEvent::ContentUrlsFetched(res)) => match res {
            Ok(urls) => {
                if urls@.len() == 0 {
                    &&& post == (UpdateOrchestrator { phase: RunnerPhase::Done, ..pre })
                    &&& action is Finish
                } else {
                    &&& post == (UpdateOrchestrator { phase: RunnerPhase::Downloading, ..pre })
                    &&& (action matches RunnerAction::Download { url } && url == urls@[0].url)
                }
            },
            Err(e) => failed_with(pre, post, action, e),
        },
        (RunnerPhase::Downloading, RunnerEvent::Downloaded(res)) => match res {
            Ok(_) => {
                &&& post == (UpdateOrchestrator { phase: RunnerPhase::RemovingOldFiles, ..pre })
                &&& action is RemoveOldFiles
            },
            Err(e) => failed_with(pre, post, action, e),
        },
        (RunnerPhase::RemovingOldFiles, RunnerEvent::OldFilesRemoved) => {
            &&& post == (UpdateOrchestrator { phase: RunnerPhase::Extracting, ..pre })
            &&& action is ExtractPackage
        },
        (RunnerPhase::Extracting, RunnerEvent::Extracted(res)) => match res {
            Ok(_) => {
                &&& post == (UpdateOrchestrator { phase: RunnerPhase::SavingVersion, ..pre })
                &&& (action matches RunnerAction::SaveVersion { version, patcher_secret } && version
                    == pre.version && patcher_secret == pre.patcher_secret)
            },
            Err(e) => failed_with(pre, post, action, e),
        },
        (RunnerPhase::SavingVersion, RunnerEvent::VersionSaved(res)) => match res {
            Ok(_) => {
                &&& post == (UpdateOrchestrator { phase: RunnerPhase::Launching, ..pre })
                &&& action is LaunchFromManifest
            },
            Err(e) => failed_with(pre, post, action, e),
        },
        (RunnerPhase::Launching, RunnerEvent::Launched(res)) => match res {
            Ok(_) => {
                &&& post == (UpdateOrchestrator { phase: RunnerPhase::Done, ..pre })
                &&& action is Finish
            },
            Err(e) => failed_with(pre, post, action, e),
        },
        (_, _) => {
            &&& post == (UpdateOrchestrator { phase: RunnerPhase::Failed, ..pre })
            &&& (action matches RunnerAction::Fail { error: Error::Other(s) } && s@
                == "unexpected step outcome"@)
        },
    }
}

impl UpdateOrchestrator {
    /// Starts a run from the credential secrets and the stored version
    /// identity, if any.
    pub fn new(
        app_secret: String,
        dat_patcher_secret: String,
        current_version: Option<VersionInfo>,
    ) -> (r: Self)
        ensures
            r.phase == RunnerPhase::Init,
            r.app_secret == app_secret,
            r.dat_patcher_secret == dat_patcher_secret,
            r.current_version == current_version,
            r.patcher_secret@ == Seq::<char>::empty(),
            r.version@ == Seq::<char>::empty(),
    {
        UpdateOrchestrator {
            phase: RunnerPhase::Init,
            app_secret,
            dat_patcher_secret,
            current_version,
            patcher_secret: String::new(),
            version: String::new(),
        }
    }

    /// Takes one transition: consumes the outcome of the step just performed
    /// and names the next action.
    pub fn step(&mut self, event: RunnerEvent) -> (action: RunnerAction)
        ensures
            step_rel(*old(self), event, *final(self), action),
    {
        match (self.phase, event) {
            (RunnerPhase::Init, RunnerEvent::Started) => {
                self.phase = RunnerPhase::CheckingConnection;
                RunnerAction::CheckConnection
            },
            (RunnerPhase::CheckingConnection, RunnerEvent::ConnectionChecked(ok)) => {
                if ok {
                    self.phase = RunnerPhase::FetchingAppInfo;
                    RunnerAction::FetchAppInfo { app_secret: self.app_secret.clone() }
                } else {
                    self.phase = RunnerPhase::Failed;
                    RunnerAction::Fail {
                        error: Error::Other("No internet connection".to_owned()),
                    }
                }
            },
            (RunnerPhase::FetchingAppInfo, RunnerEvent::AppInfoFetched(res)) => match res {
                Ok(server_secret) => {
                    let resolved = match server_secret {
                        Some(s) => s,
                        None => self.dat_patcher_secret.clone(),
                    };
                    self.patcher_secret = resolved.clone();
                    self.phase = RunnerPhase::FetchingVersion;
                    RunnerAction::FetchVersion { patcher_secret: resolved }
                },
                Err(e) => {
                    self.phase = RunnerPhase::Failed;
                    RunnerAction::Fail { error: e }
                },
            },
            (RunnerPhase::FetchingVersion, RunnerEvent::VersionFetched(res)) => match res {
                Ok(v) => {
                    let needs = match &self.current_version {
                        None => true,
                        Some(cur) => !str_eq(cur.version.as_str(), v.as_str()) || !str_eq(
                            cur.patcher_secret.as_str(),
                            self.patcher_secret.as_str(),
                        ),
                    };
                    self.version = v.clone();
                    if needs {
                        self.phase = RunnerPhase::FetchingContentUrls;
                        RunnerAction::FetchContentUrls {
                            patcher_secret: self.patcher_secret.clone(),
                            version: v,
                        }
                    } else {
                        self.phase = RunnerPhase::Launching;
                        RunnerAction::LaunchFromManifest
                    }
                },
                Err(e) => {
                    self.phase = RunnerPhase::Failed;
                    RunnerAction::Fail { error: e }
                },
            },
            (RunnerPhase::FetchingContentUrls, RunnerEvent::ContentUrlsFetched(res)) => match res {
                Ok(urls) => {
                    if urls.len() == 0 {
                        self.phase = RunnerPhase::Done;
                        RunnerAction::Finish
                    } else {
                        self.phase = RunnerPhase::Downloading;
                        let url = urls[0].url.clone();
                        RunnerAction::Download { url }
                    }
                },
                Err(e) => {
                    self.phase = RunnerPhase::Failed;
                    RunnerAction::Fail { error: e }
                },
            },
            (RunnerPhase::Downloading, RunnerEvent::Downloaded(res)) => match res {
                Ok(_) => {
                    self.phase = RunnerPhase::RemovingOldFiles;
                    RunnerAction::RemoveOldFiles
                },
                Err(e) => {
                    self.phase = RunnerPhase::Failed;
                    RunnerAction::Fail { error: e }
                },
            },
            (RunnerPhase::RemovingOldFiles, RunnerEvent::OldFilesRemoved) => {
                self.phase = RunnerPhase::Extracting;
                RunnerAction::ExtractPackage
            },
            (RunnerPhase::Extracting, RunnerEvent::Extracted(res)) => match res {
                Ok(_) => {
                    self.phase = RunnerPhase::SavingVersion;
                    RunnerAction::SaveVersion {
                        version: self.version.clone(),
                        patcher_secret: self.patcher_secret.clone(),
                    }
                },
                Err(e) => {
                    self.phase = RunnerPhase::Failed;
                    RunnerAction::Fail { error: e }
                },
            },
            (RunnerPhase::SavingVersion, RunnerEvent::VersionSaved(res)) => match res {
                Ok(_) => {
                    self.phase = RunnerPhase::Launching;
                    RunnerAction::LaunchFromManifest
                },
                Err(e) => {
                    self.phase = RunnerPhase::Failed;
                    RunnerAction::Fail { error: e }
                },
            },
            (RunnerPhase::Launching, RunnerEvent::Launched(res)) => match res {
                Ok(_) => {
                    self.phase = RunnerPhase::Done;
                    RunnerAction::Finish
                },
                Err(e) => {
                    self.phase = RunnerPhase::Failed;
                    RunnerAction::Fail { error: e }
                },
            },
            (_, _) => {
                self.phase = RunnerPhase::Failed;
                RunnerAction::Fail {
                    error: Error::Other("unexpected step outcome".to_owned()),
                }
            },
        }
    }
}

/// The application slug that names the install directories: the first eight
/// characters of the app secret.
pub fn app_slug(app_secret: &str) -> (r: String)
    requires
        app_secret@.len() >= 8,
    ensures
        r@ == app_secret@.take(8),
{
    let r = app_secret.substring_char(0, 8);
    proof {
        assert(app_secret@.subrange(0, 8) =~= app_secret@.take(8));
    }
    r.to_owned()
}

/// Binds the five runtime variables that manifest resolution consumes: the
/// state directory, the install directory, the re-encoded app secret, the
/// lockfile name and the network status.
pub fn prepare_launch_variables(
    manifest: &mut ManifestManager,
    exedir: &str,
    installdir: &str,
    app_secret: &str,
)
    ensures
        final(manifest).manifest == old(manifest).manifest,
        vars_map(final(manifest).variables@) == vars_map(old(manifest).variables@).insert(
            "exedir"@,
            exedir@,
        ).insert("installdir"@, installdir@).insert("secret"@, encoded_secret(app_secret@)).insert(
            "lockfile"@,
            "launcher.lock"@,
        ).insert("network-status"@, "online"@),
{
    manifest.set_variable("exedir", exedir.to_owned());
    manifest.set_variable("installdir", installdir.to_owned());
    let encoded = encode_secret(app_secret);
    manifest.set_variable("secret", encoded);
    manifest.set_variable("lockfile", "launcher.lock".to_owned());
    manifest.set_variable("network-status", "online".to_owned());
}

} // verus!
