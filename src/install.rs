//! The installation of one package as a state machine. Each step takes an
//! event (what the last action produced) and gives the next phase and the
//! next action; the caller performs actions and reports back. Every run that
//! creates the scratch directory passes through cleanup before it is done.

use crate::archive::{format_of, parse_format, ArchiveFormat};
use crate::config::{
    ext_text, payload_name, payload_name_of, payload_path, scratch_dir, scratch_dir_of,
    script_file, script_file_of, script_url, script_url_of, Config, ScriptExt,
};
use crate::error::InstallError;
use crate::script::{parse_script, script_fields};
use vstd::prelude::*;

verus! {

#[derive(Clone, Copy, Debug, PartialEq, Eq, Structural)]
pub enum Outcome {
    Installed,
    Failed(InstallError),
}

#[derive(Debug)]
pub enum Phase {
    Start,
    /// Looking for `<package>.sspm` / `<package>.rlpm` in the working directory.
    CheckingLocal,
    /// Downloading the script with this extension from the repository.
    FetchingScript(ScriptExt),
    /// Copying the local script with this extension into staging.
    CopyingScript(ScriptExt),
    /// Reading the staged script with this extension.
    ReadingScript(ScriptExt),
    /// Creating the scratch directory and downloading the payload to this path.
    FetchingPayload(ArchiveFormat, String),
    /// Unpacking the payload at this path into the scratch directory.
    Extracting(String),
    /// Removing the payload at this path and the scratch directory.
    CleaningUp(Outcome),
    Done(Outcome),
}

#[derive(Debug)]
pub enum Event {
    Begin,
    /// The local script found, `.sspm` taking precedence, if any.
    LocalScript(Option<ScriptExt>),
    /// Whether the last download (script or payload) succeeded.
    Fetched(bool),
    /// Whether the local script was copied into staging.
    Copied(bool),
    /// The staged script's text, if it could be read.
    ScriptRead(Option<String>),
    /// How extraction went.
    Extracted(Result<(), InstallError>),
    CleanedUp,
}

#[derive(Debug)]
pub enum Action {
    /// Report which of these two local files exists.
    CheckLocalScripts { sspm: String, rlpm: String },
    /// Download `url` to `dest`, leaving no partial file on failure.
    FetchScript { url: String, dest: String },
    /// Copy `from` to `to`, overwriting.
    CopyScript { from: String, to: String },
    /// Read the text of the script at `path`.
    ReadScript { path: String },
    /// Create `scratch` (recursively), then download `url` to `dest`.
    FetchPayload { url: String, scratch: String, dest: String },
    /// Read `archive`, extract it as `format` into `target`.
    Extract { archive: String, format: ArchiveFormat, target: String },
    /// Remove `payload` and the whole `scratch` tree, ignoring failures.
    Cleanup { payload: String, scratch: String },
    /// Report the outcome; the package is finished.
    Finish(Outcome),
    /// The event does not belong to this phase: nothing to do.
    Wait,
}

/// `<package>.<ext>`, the name of a local script.
pub open spec fn local_script_of(package: Seq<char>, e: ScriptExt) -> Seq<char> {
    package + seq!['.'] + ext_text(e)
}

/// The state of one package's installation.
#[derive(Debug)]
pub struct Session {
    pub package: String,
    pub phase: Phase,
}

pub open spec fn scratch_of(cfg: &Config, pkg: Seq<char>) -> Seq<char> {
    scratch_dir_of(cfg.staging_dir@, pkg)
}

pub open spec fn fetch_script(cfg: &Config, pkg: Seq<char>, e: ScriptExt, q: Phase, a: Action) -> bool {
    &&& q == Phase::FetchingScript(e)
    &&& a matches Action::FetchScript { url, dest } && url@ == script_url_of(cfg.repo_base@, pkg, e)
        && dest@ == script_file_of(cfg.staging_dir@, pkg, e)
}

pub open spec fn read_script(cfg: &Config, pkg: Seq<char>, e: ScriptExt, q: Phase, a: Action) -> bool {
    &&& q == Phase::ReadingScript(e)
    &&& a matches Action::ReadScript { path } && path@ == script_file_of(cfg.staging_dir@, pkg, e)
}

pub open spec fn finish(o: Outcome, q: Phase, a: Action) -> bool {
    q == Phase::Done(o) && a == Action::Finish(o)
}

pub open spec fn clean_up(cfg: &Config, pkg: Seq<char>, payload: Seq<char>, o: Outcome, q: Phase, a: Action) -> bool {
    &&& q == Phase::CleaningUp(o)
    &&& a matches Action::Cleanup { payload: p, scratch } && p@ == payload && scratch@ == scratch_of(cfg, pkg)
}

/// What a staged script's text leads to.
pub open spec fn after_script(cfg: &Config, pkg: Seq<char>, text: Seq<char>, q: Phase, a: Action) -> bool {
    match script_fields(text) {
        None => finish(Outcome::Failed(InstallError::InvalidScript), q, a),
        Some((source, format)) => match format_of(format) {
            None => finish(Outcome::Failed(InstallError::UnsupportedFormat), q, a),
            Some(k) => {
                let dest = scratch_of(cfg, pkg) + seq!['/'] + payload_name_of(source);
                &&& q matches Phase::FetchingPayload(k2, p) && k2 == k && p@ == dest
                &&& a matches Action::FetchPayload { url, scratch, dest: d } && url@ == source
                    && scratch@ == scratch_of(cfg, pkg) && d@ == dest
            },
        },
    }
}

/// One step of the machine: from phase `p` and event `ev` to phase `q`
/// with action `a`.
pub open spec fn transition(cfg: &Config, pkg: Seq<char>, p: Phase, ev: Event, q: Phase, a: Action) -> bool {
    match (p, ev) {
        (Phase::Start, Event::Begin) => {
            &&& q == Phase::CheckingLocal
            &&& a matches Action::CheckLocalScripts { sspm, rlpm } && sspm@ == local_script_of(pkg, ScriptExt::Sspm)
                && rlpm@ == local_script_of(pkg, ScriptExt::Rlpm)
        },
        (Phase::CheckingLocal, Event::LocalScript(None)) => fetch_script(cfg, pkg, ScriptExt::Sspm, q, a),
        (Phase::CheckingLocal, Event::LocalScript(Some(e))) => {
            &&& q == Phase::CopyingScript(e)
            &&& a matches Action::CopyScript { from, to } && from@ == local_script_of(pkg, e)
                && to@ == script_file_of(cfg.staging_dir@, pkg, e)
        },
        (Phase::FetchingScript(e), Event::Fetched(true)) => read_script(cfg, pkg, e, q, a),
        (Phase::FetchingScript(ScriptExt::Sspm), Event::Fetched(false)) => fetch_script(cfg, pkg, ScriptExt::Rlpm, q, a),
        (Phase::FetchingScript(ScriptExt::Rlpm), Event::Fetched(false)) => finish(Outcome::Failed(InstallError::ScriptNotFound), q, a),
        (Phase::CopyingScript(e), Event::Copied(true)) => read_script(cfg, pkg, e, q, a),
        (Phase::CopyingScript(_), Event::Copied(false)) => finish(Outcome::Failed(InstallError::ScriptCopyFailed), q, a),
        (Phase::ReadingScript(_), Event::ScriptRead(None)) => finish(Outcome::Failed(InstallError::ScriptUnreadable), q, a),
        (Phase::ReadingScript(_), Event::ScriptRead(Some(text))) => after_script(cfg, pkg, text@, q, a),
        (Phase::FetchingPayload(_, p), Event::Fetched(false)) => clean_up(cfg, pkg, p@, Outcome::Failed(InstallError::TransportError), q, a),
        (Phase::FetchingPayload(k, p), Event::Fetched(true)) => {
            &&& q matches Phase::Extracting(p2) && p2@ == p@
            &&& a matches Action::Extract { archive, format, target } && archive@ == p@ && format == k
                && target@ == scratch_of(cfg, pkg)
        },
        (Phase::Extracting(p), Event::Extracted(Ok(()))) => clean_up(cfg, pkg, p@, Outcome::Installed, q, a),
        (Phase::Extracting(p), Event::Extracted(Err(e))) => clean_up(cfg, pkg, p@, Outcome::Failed(e), q, a),
        (Phase::CleaningUp(o), Event::CleanedUp) => finish(o, q, a),
        (p, _) => q == p && a == Action::Wait,
    }
}

impl Session {
    pub fn new(package: String) -> (r: Session)
        ensures
            r.package == package,
            r.phase == Phase::Start,
    {
        Session { package, phase: Phase::Start }
    }

    /// Advances the machine by one event and says what to do next.
    pub fn step(&mut self, cfg: &Config, ev: Event) -> (a: Action)
        ensures
            final(self).package == old(self).package,
            transition(cfg, old(self).package@, old(self).phase, ev, final(self).phase, a),
    {
        let mut p = Phase::Start;
        std::mem::swap(&mut self.phase, &mut p);
        let pkg = self.package.as_str();
        let (q, a) = match (p, ev) {
            (Phase::Start, Event::Begin) => (Phase::CheckingLocal, Action::CheckLocalScripts {
                sspm: local_script(pkg, ScriptExt::Sspm),
                rlpm: local_script(pkg, ScriptExt::Rlpm),
            }),
            (Phase::CheckingLocal, Event::LocalScript(None)) => fetch_step(cfg, pkg, ScriptExt::Sspm),
            (Phase::CheckingLocal, Event::LocalScript(Some(e))) => (Phase::CopyingScript(e), Action::CopyScript {
                from: local_script(pkg, e),
                to: script_file(cfg.staging_dir.as_str(), pkg, e),
            }),
            (Phase::FetchingScript(e), Event::Fetched(true)) => read_step(cfg, pkg, e),
            (Phase::FetchingScript(ScriptExt::Sspm), Event::Fetched(false)) => fetch_step(cfg, pkg, ScriptExt::Rlpm),
            (Phase::FetchingScript(ScriptExt::Rlpm), Event::Fetched(false)) => finish_step(Outcome::Failed(InstallError::ScriptNotFound)),
            (Phase::CopyingScript(e), Event::Copied(true)) => read_step(cfg, pkg, e),
            (Phase::CopyingScript(_), Event::Copied(false)) => finish_step(Outcome::Failed(InstallError::ScriptCopyFailed)),
            (Phase::ReadingScript(_), Event::ScriptRead(None)) => finish_step(Outcome::Failed(InstallError::ScriptUnreadable)),
            (Phase::ReadingScript(_), Event::ScriptRead(Some(text))) => script_step(cfg, pkg, text.as_str()),
            (Phase::FetchingPayload(_, p), Event::Fetched(false)) => cleanup_step(cfg, pkg, p, Outcome::Failed(InstallError::TransportError)),
            (Phase::FetchingPayload(k, p), Event::Fetched(true)) => {
                let archive = p.clone();
                (Phase::Extracting(p), Action::Extract { archive, format: k, target: scratch_dir(cfg.staging_dir.as_str(), pkg) })
            },
            (Phase::Extracting(p), Event::Extracted(Ok(()))) => cleanup_step(cfg, pkg, p, Outcome::Installed),
            (Phase::Extracting(p), Event::Extracted(Err(e))) => cleanup_step(cfg, pkg, p, Outcome::Failed(e)),
            (Phase::CleaningUp(o), Event::CleanedUp) => finish_step(o),
            (p, _) => (p, Action::Wait),
        };
        self.phase = q;
        a
    }
}

/// `<package>.<ext>`.
pub fn local_script(package: &str, e: ScriptExt) -> (r: String)
    ensures
        r@ == local_script_of(package@, e),
{
    proof {
        reveal_strlit(".");
    }
    let mut r = String::from_str(package);
    r.append(".");
    r.append(e.as_str());
    proof {
        assert(r@ =~= local_script_of(package@, e));
    }
    r
}

fn fetch_step(cfg: &Config, pkg: &str, e: ScriptExt) -> (r: (Phase, Action))
    ensures
        fetch_script(cfg, pkg@, e, r.0, r.1),
{
    (Phase::FetchingScript(e), Action::FetchScript {
        url: script_url(cfg.repo_base.as_str(), pkg, e),
        dest: script_file(cfg.staging_dir.as_str(), pkg, e),
    })
}

fn read_step(cfg: &Config, pkg: &str, e: ScriptExt) -> (r: (Phase, Action))
    ensures
        read_script(cfg, pkg@, e, r.0, r.1),
{
    (Phase::ReadingScript(e), Action::ReadScript { path: script_file(cfg.staging_dir.as_str(), pkg, e) })
}

fn finish_step(o: Outcome) -> (r: (Phase, Action))
    ensures
        finish(o, r.0, r.1),
{
    (Phase::Done(o), Action::Finish(o))
}

fn cleanup_step(cfg: &Config, pkg: &str, payload: String, o: Outcome) -> (r: (Phase, Action))
    ensures
        clean_up(cfg, pkg@, payload@, o, r.0, r.1),
{
    (Phase::CleaningUp(o), Action::Cleanup { payload, scratch: scratch_dir(cfg.staging_dir.as_str(), pkg) })
}

fn script_step(cfg: &Config, pkg: &str, text: &str) -> (r: (Phase, Action))
    ensures
        after_script(cfg, pkg@, text@, r.0, r.1),
{
    let d = match parse_script(text) {
        Ok(d) => d,
        Err(e) => return finish_step(Outcome::Failed(e)),
    };
    let k = match parse_format(d.format.as_str()) {
        Ok(k) => k,
        Err(e) => return finish_step(Outcome::Failed(e)),
    };
    let scratch = scratch_dir(cfg.staging_dir.as_str(), pkg);
    let dest = payload_path(scratch.as_str(), payload_name(d.source.as_str()).as_str());
    let path = dest.clone();
    (Phase::FetchingPayload(k, path), Action::FetchPayload { url: d.source, scratch, dest })
}

} // verus!

verus! {

/// Step `i` of a run follows the machine.
pub open spec fn step_at(cfg: &Config, pkg: Seq<char>, ph: Seq<Phase>, ev: Seq<Event>, acts: Seq<Action>, i: int) -> bool {
    transition(cfg, pkg, ph[i], ev[i], ph[i + 1], acts[i])
}

/// A run of the machine: phases `ph[0..=n]`, events and actions `0..n`.
pub open spec fn is_run(cfg: &Config, pkg: Seq<char>, ph: Seq<Phase>, ev: Seq<Event>, acts: Seq<Action>) -> bool {
    &&& ph.len() == ev.len() + 1
    &&& acts.len() == ev.len()
    &&& forall|i: int| 0 <= i < ev.len() ==> #[trigger] step_at(cfg, pkg, ph, ev, acts, i)
}

/// The script is known: it is being copied, read or acted on.
pub open spec fn script_located(p: Phase) -> bool {
    ||| p is CopyingScript
    ||| p is ReadingScript
    ||| p is FetchingPayload
    ||| p is Extracting
    ||| p is CleaningUp
    ||| p is Done
}

/// The scratch directory may exist and the payload is at `payload`.
pub open spec fn scratch_pending(p: Phase, payload: Seq<char>) -> bool {
    ||| p matches Phase::FetchingPayload(_, q) && q@ == payload
    ||| p matches Phase::Extracting(q) && q@ == payload
}

proof fn lemma_located_never_fetches_script(
    cfg: &Config,
    pkg: Seq<char>,
    ph: Seq<Phase>,
    ev: Seq<Event>,
    acts: Seq<Action>,
    i: int,
)
    requires
        is_run(cfg, pkg, ph, ev, acts),
        0 <= i <= ev.len(),
        script_located(ph[i]),
    ensures
        forall|j: int| i <= j < ev.len() ==> !(#[trigger] acts[j] is FetchScript),
    decreases ev.len() - i,
{
    if i < ev.len() {
        assert(step_at(cfg, pkg, ph, ev, acts, i));
        lemma_located_never_fetches_script(cfg, pkg, ph, ev, acts, i + 1);
    }
}

/// When the package's script is found locally, no script is downloaded
/// for it at any later step of the run.
pub proof fn lemma_local_script_never_fetched(
    cfg: &Config,
    pkg: Seq<char>,
    ph: Seq<Phase>,
    ev: Seq<Event>,
    acts: Seq<Action>,
    e: ScriptExt,
)
    requires
        is_run(cfg, pkg, ph, ev, acts),
        ev.len() > 0,
        ph[0] == Phase::CheckingLocal,
        ev[0] == Event::LocalScript(Some(e)),
    ensures
        forall|j: int| 0 <= j < ev.len() ==> !(#[trigger] acts[j] is FetchScript),
{
    assert(step_at(cfg, pkg, ph, ev, acts, 0));
    lemma_located_never_fetches_script(cfg, pkg, ph, ev, acts, 1);
    assert(acts[0] is CopyScript);
}

proof fn lemma_done_stays_idle(
    cfg: &Config,
    pkg: Seq<char>,
    ph: Seq<Phase>,
    ev: Seq<Event>,
    acts: Seq<Action>,
    i: int,
)
    requires
        is_run(cfg, pkg, ph, ev, acts),
        0 <= i <= ev.len(),
        ph[i] is Done,
    ensures
        forall|j: int| i <= j < ev.len() ==> #[trigger] acts[j] == Action::Wait,
        forall|j: int| i <= j <= ev.len() ==> #[trigger] ph[j] == ph[i],
    decreases ev.len() - i,
{
    if i < ev.len() {
        assert(step_at(cfg, pkg, ph, ev, acts, i));
        lemma_done_stays_idle(cfg, pkg, ph, ev, acts, i + 1);
    }
}

/// A script without a non-empty `source` and `format`, or whose format is
/// unknown, ends the package with that error: no payload is downloaded and
/// nothing is extracted afterwards.
pub proof fn lemma_bad_script_stops(
    cfg: &Config,
    pkg: Seq<char>,
    ph: Seq<Phase>,
    ev: Seq<Event>,
    acts: Seq<Action>,
    i: int,
    text: String,
)
    requires
        is_run(cfg, pkg, ph, ev, acts),
        0 <= i < ev.len(),
        ph[i] is ReadingScript,
        ev[i] == Event::ScriptRead(Some(text)),
        script_fields(text@) is None || format_of((script_fields(text@)->0).1) is None,
    ensures
        script_fields(text@) is None ==> ph[i + 1] == Phase::Done(Outcome::Failed(InstallError::InvalidScript)),
        script_fields(text@) is Some ==> ph[i + 1] == Phase::Done(Outcome::Failed(InstallError::UnsupportedFormat)),
        forall|j: int| i <= j < ev.len() ==> !(#[trigger] acts[j] is FetchPayload) && !(acts[j] is Extract),
{
    assert(step_at(cfg, pkg, ph, ev, acts, i));
    lemma_done_stays_idle(cfg, pkg, ph, ev, acts, i + 1);
}

/// The action removes this payload and this scratch directory.
pub open spec fn cleans(a: Action, payload: Seq<char>, scratch: Seq<char>) -> bool {
    a matches Action::Cleanup { payload: p, scratch: d } && p@ == payload && d@ == scratch
}

/// Once the scratch directory may exist, the run does not end before a
/// cleanup that removes that payload and the package's scratch directory.
pub proof fn lemma_scratch_cleaned_before_done(
    cfg: &Config,
    pkg: Seq<char>,
    ph: Seq<Phase>,
    ev: Seq<Event>,
    acts: Seq<Action>,
    i: int,
    payload: Seq<char>,
)
    requires
        is_run(cfg, pkg, ph, ev, acts),
        0 <= i <= ev.len(),
        scratch_pending(ph[i], payload),
        ph[ev.len() as int] is Done,
    ensures
        exists|j: int| i <= j < ev.len() && cleans(#[trigger] acts[j], payload, scratch_of(cfg, pkg)),
    decreases ev.len() - i,
{
    if i == ev.len() {
        assert(false);
    } else {
        assert(step_at(cfg, pkg, ph, ev, acts, i));
        if scratch_pending(ph[i + 1], payload) {
            lemma_scratch_cleaned_before_done(cfg, pkg, ph, ev, acts, i + 1, payload);
        } else {
            assert(cleans(acts[i], payload, scratch_of(cfg, pkg)));
        }
    }
}

} // verus!
