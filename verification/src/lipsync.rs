//! The decision core of a lipsync run.
//!
//! A run drives an external forced-alignment tool over a WAV file: probe the
//! tool, optionally switch the working directory to the output destination's
//! parent, invoke the aligner, locate its `<basename>.json` output, move it
//! to the requested name (rename, falling back to copy-then-delete), enrich
//! it in high-fidelity mode, and always restore the working directory before
//! finishing. Every filesystem effect runs outside this crate; here the run
//! is a state machine stepped by events, whose every transition is pinned by
//! `step_spec`, and the restore discipline — a run that reaches `Finished`
//! has issued exactly one `RestoreDir` for every directory switch that
//! succeeded — is proved of whole runs.
//!
//! Paths are modelled as `/`-separated text: `file_name_of` is what follows
//! the last slash and `parent_of` what precedes it.

use vstd::prelude::*;
use crate::arpabet::views_of;
use crate::resolve::{method_tag, Resolution};
use crate::strutil::{chars_of, str_eq, string_from_chars};
use vstd::string::StrSliceExecFns;
use vstd::string::StringExecFns;

verus! {

/// Index of the first character of the file name: right after the last `/`.
pub open spec fn name_start(s: Seq<char>) -> nat
    decreases s.len(),
{
    if s.len() == 0 {
        0
    } else if s.last() == '/' {
        s.len()
    } else {
        name_start(s.drop_last())
    }
}

/// What follows the last `/` (the whole text when there is none).
pub open spec fn file_name_of(s: Seq<char>) -> Seq<char> {
    s.skip(name_start(s) as int)
}

/// What precedes the last `/`: the directory part, empty when there is none.
pub open spec fn parent_of(s: Seq<char>) -> Seq<char> {
    if name_start(s) == 0 {
        Seq::empty()
    } else {
        s.take(name_start(s) - 1)
    }
}

/// The output name the aligner is expected to write: the input's `.wav`
/// suffix replaced by `.json` (appended whole when there is no such suffix).
pub open spec fn expected_json(wav: Seq<char>) -> Seq<char> {
    if wav.len() >= 4 && wav.skip(wav.len() - 4) == ".wav"@ {
        wav.take(wav.len() - 4) + ".json"@
    } else {
        wav + ".json"@
    }
}

/// The scan that found the last slash at `i - 1` (or none before `i`).
proof fn lemma_name_start_at(s: Seq<char>, i: nat)
    requires
        i <= s.len(),
        forall|k: int| i <= k < s.len() ==> s[k] != '/',
        i == 0 || s[i - 1] == '/',
    ensures
        name_start(s) == i,
    decreases s.len(),
{
    if s.len() == 0 {
    } else if s.last() == '/' {
        assert(i == s.len());
    } else {
        lemma_name_start_at(s.drop_last(), i);
    }
}

/// The file-name part of a path.
pub fn file_name_exec(path: &str) -> (r: String)
    ensures
        r@ == file_name_of(path@),
{
    let cs = chars_of(path);
    let n = cs.len();
    let mut i: usize = n;
    while i > 0 && cs[i - 1] != '/'
        invariant
            i <= n,
            n == cs@.len(),
            cs@ == path@,
            forall|k: int| i <= k < n ==> cs@[k] != '/',
        decreases i,
    {
        i -= 1;
    }
    proof {
        lemma_name_start_at(cs@, i as nat);
    }
    let mut out: Vec<char> = Vec::new();
    let mut k = i;
    while k < n
        invariant
            i <= k <= n,
            n == cs@.len(),
            out@ == cs@.subrange(i as int, k as int),
        decreases n - k,
    {
        out.push(cs[k]);
        proof {
            assert(out@ =~= cs@.subrange(i as int, k + 1));
        }
        k += 1;
    }
    proof {
        assert(out@ =~= file_name_of(path@));
    }
    string_from_chars(&out)
}

/// The directory part of a path.
pub fn parent_exec(path: &str) -> (r: String)
    ensures
        r@ == parent_of(path@),
{
    let cs = chars_of(path);
    let n = cs.len();
    let mut i: usize = n;
    while i > 0 && cs[i - 1] != '/'
        invariant
            i <= n,
            n == cs@.len(),
            cs@ == path@,
            forall|k: int| i <= k < n ==> cs@[k] != '/',
        decreases i,
    {
        i -= 1;
    }
    proof {
        lemma_name_start_at(cs@, i as nat);
    }
    let stop: usize = if i == 0 {
        0
    } else {
        i - 1
    };
    let mut out: Vec<char> = Vec::new();
    let mut k: usize = 0;
    while k < stop
        invariant
            k <= stop <= n,
            n == cs@.len(),
            out@ == cs@.subrange(0, k as int),
        decreases stop - k,
    {
        out.push(cs[k]);
        proof {
            assert(out@ =~= cs@.subrange(0, k + 1));
        }
        k += 1;
    }
    proof {
        if i == 0 {
            assert(out@ =~= parent_of(path@));
        } else {
            assert(out@ =~= parent_of(path@));
        }
    }
    string_from_chars(&out)
}

/// The aligner's expected output name for a given input name.
pub fn expected_json_exec(wav: &str) -> (r: String)
    ensures
        r@ == expected_json(wav@),
{
    let cs = chars_of(wav);
    let n = cs.len();
    let has_wav_suffix = n >= 4 && cs[n - 4] == '.' && cs[n - 3] == 'w' && cs[n - 2] == 'a'
        && cs[n - 1] == 'v';
    proof {
        reveal_strlit(".wav");
        if n >= 4 {
            assert(cs@.skip(n - 4 as int).len() == 4);
            if has_wav_suffix {
                assert(cs@.skip(n - 4 as int) =~= ".wav"@);
            } else {
                assert(cs@.skip(n - 4 as int) != ".wav"@) by {
                    let suf = cs@.skip(n - 4 as int);
                    if suf == ".wav"@ {
                        assert(suf[0] == '.' && suf[1] == 'w' && suf[2] == 'a' && suf[3] == 'v');
                    }
                };
            }
        }
    }
    let stop: usize = if has_wav_suffix {
        n - 4
    } else {
        n
    };
    let mut out: Vec<char> = Vec::new();
    let mut k: usize = 0;
    while k < stop
        invariant
            k <= stop <= n,
            n == cs@.len(),
            out@ == cs@.subrange(0, k as int),
        decreases stop - k,
    {
        out.push(cs[k]);
        proof {
            assert(out@ =~= cs@.subrange(0, k + 1));
        }
        k += 1;
    }
    let mut r = string_from_chars(&out);
    r.append(".json");
    proof {
        if has_wav_suffix {
            assert(out@ =~= wav@.take(n - 4 as int));
        } else {
            assert(out@ =~= wav@);
        }
    }
    r
}

/// How much the lipsync document carries: `Low` keeps timing only, `High`
/// additionally attaches phoneme sequences to each word segment.
#[derive(Clone, Copy, Debug, PartialEq, Eq, PartialOrd, Ord, Structural)]
pub enum LipsyncLevel {
    Low,
    High,
}

impl LipsyncLevel {
    /// Whether this level asks for phoneme enrichment.
    pub fn is_high(&self) -> (r: bool)
        ensures
            r == (*self is High),
    {
        match self {
            LipsyncLevel::High => true,
            LipsyncLevel::Low => false,
        }
    }
}

/// What a lipsync run was asked to do.
pub struct LipsyncRequest {
    pub wav_path: String,
    pub output_json: Option<String>,
    pub hi_fidelity: bool,
}

/// The run's fixed working set, computed once from the request: where to
/// switch, what name to hand the aligner, and what the output must be named.
pub struct LipsyncPlan {
    pub run_dir: Option<String>,
    pub wav_arg: String,
    pub json_name: Option<String>,
    pub hi_fidelity: bool,
}

/// How `LipsyncPlan` must follow from a request: with a destination the run
/// switches to its parent and works with bare file names; without one it
/// works in place with the full WAV path.
pub open spec fn plan_matches(req: LipsyncRequest, p: LipsyncPlan) -> bool {
    match req.output_json {
        Some(j) => {
            &&& p.run_dir matches Some(d) && d@ == parent_of(j@)
            &&& p.wav_arg@ == file_name_of(req.wav_path@)
            &&& p.json_name matches Some(f) && f@ == file_name_of(j@)
        },
        None => {
            &&& p.run_dir is None
            &&& p.wav_arg@ == req.wav_path@
            &&& p.json_name is None
        },
    }
}

/// Compute the run's working set from the request.
pub fn make_plan(req: &LipsyncRequest) -> (p: LipsyncPlan)
    ensures
        plan_matches(*req, p),
        p.hi_fidelity == req.hi_fidelity,
{
    match &req.output_json {
        Some(j) => {
            let run_dir = parent_exec(j.as_str());
            let wav_arg = file_name_exec(req.wav_path.as_str());
            let json_name = file_name_exec(j.as_str());
            LipsyncPlan {
                run_dir: Some(run_dir),
                wav_arg,
                json_name: Some(json_name),
                hi_fidelity: req.hi_fidelity,
            }
        },
        None => {
            let wav_arg = clone_string(&req.wav_path);
            LipsyncPlan { run_dir: None, wav_arg, json_name: None, hi_fidelity: req.hi_fidelity }
        },
    }
}

/// An exact copy of a string.
fn clone_string(s: &String) -> (r: String)
    ensures
        r == *s,
{
    s.clone()
}

/// An exact copy of a plan.
fn clone_plan(p: &LipsyncPlan) -> (r: LipsyncPlan)
    ensures
        r == *p,
{
    let run_dir = match &p.run_dir {
        Some(d) => Some(d.clone()),
        None => None,
    };
    let json_name = match &p.json_name {
        Some(j) => Some(j.clone()),
        None => None,
    };
    LipsyncPlan { run_dir, wav_arg: p.wav_arg.clone(), json_name, hi_fidelity: p.hi_fidelity }
}

/// Why a run failed.
#[derive(Clone, Copy, Debug, PartialEq, Eq, Structural)]
pub enum LipsyncError {
    AlignerMissing,
    SwitchFailed,
    AlignerFailed,
    OutputMissing,
    UnexpectedEvent,
}

/// How a run ended.
#[derive(Clone, Copy, Debug, PartialEq, Eq, Structural)]
pub enum LipsyncOutcome {
    Done,
    Failed(LipsyncError),
}

/// What the surrounding process reports back to the machine.
pub enum LipsyncEvent {
    ProbeFinished { available: bool },
    DirSwitched { ok: bool },
    AlignerFinished { success: bool },
    OutputChecked { present: bool },
    RenameFinished { ok: bool },
    CopyFinished { ok: bool },
    EnrichFinished,
    DirRestored,
}

/// What the surrounding process must do next.
pub enum LipsyncAction {
    ProbeAligner,
    SwitchDir { dir: String },
    RunAligner { wav: String },
    CheckOutput { path: String },
    RenameOutput { from: String, to: String },
    CopyAndRemove { from: String, to: String },
    Enrich { path: String },
    RestoreDir,
    Finish { outcome: LipsyncOutcome },
}

/// Where a run stands.
pub enum LipsyncState {
    Probing { plan: LipsyncPlan },
    Switching { plan: LipsyncPlan },
    Aligning { plan: LipsyncPlan, switched: bool },
    Locating { plan: LipsyncPlan, switched: bool },
    Placing { plan: LipsyncPlan, switched: bool },
    Copying { plan: LipsyncPlan, switched: bool },
    Enriching { plan: LipsyncPlan, switched: bool },
    Restoring { outcome: LipsyncOutcome },
    Finished { outcome: LipsyncOutcome },
}

/// The ghost mirror of an action, over character sequences.
pub enum ActionModel {
    ProbeAligner,
    SwitchDir(Seq<char>),
    RunAligner(Seq<char>),
    CheckOutput(Seq<char>),
    RenameOutput(Seq<char>, Seq<char>),
    CopyAndRemove(Seq<char>, Seq<char>),
    Enrich(Seq<char>),
    RestoreDir,
    Finish(LipsyncOutcome),
}

/// The ghost model of an issued action.
pub open spec fn action_model(a: LipsyncAction) -> ActionModel {
    match a {
        LipsyncAction::ProbeAligner => ActionModel::ProbeAligner,
        LipsyncAction::SwitchDir { dir } => ActionModel::SwitchDir(dir@),
        LipsyncAction::RunAligner { wav } => ActionModel::RunAligner(wav@),
        LipsyncAction::CheckOutput { path } => ActionModel::CheckOutput(path@),
        LipsyncAction::RenameOutput { from, to } => ActionModel::RenameOutput(from@, to@),
        LipsyncAction::CopyAndRemove { from, to } => ActionModel::CopyAndRemove(from@, to@),
        LipsyncAction::Enrich { path } => ActionModel::Enrich(path@),
        LipsyncAction::RestoreDir => ActionModel::RestoreDir,
        LipsyncAction::Finish { outcome } => ActionModel::Finish(outcome),
    }
}

/// Whether the machine still owes the process a directory restore: a switch
/// succeeded and no `RestoreDir` has been issued yet.
pub open spec fn dir_changed(s: LipsyncState) -> bool {
    match s {
        LipsyncState::Aligning { switched, .. } => switched,
        LipsyncState::Locating { switched, .. } => switched,
        LipsyncState::Placing { switched, .. } => switched,
        LipsyncState::Copying { switched, .. } => switched,
        LipsyncState::Enriching { switched, .. } => switched,
        _ => false,
    }
}

/// End the run, restoring the directory first when one is owed.
pub open spec fn wrap_spec(o: LipsyncOutcome, switched: bool) -> (LipsyncState, ActionModel) {
    if switched {
        (LipsyncState::Restoring { outcome: o }, ActionModel::RestoreDir)
    } else {
        (LipsyncState::Finished { outcome: o }, ActionModel::Finish(o))
    }
}

/// After the output stands under its final name: enrich in high-fidelity
/// mode when a destination name exists, otherwise the run is done.
pub open spec fn after_place_spec(plan: LipsyncPlan, switched: bool) -> (
    LipsyncState,
    ActionModel,
) {
    match plan.json_name {
        Some(j) => {
            if plan.hi_fidelity {
                (LipsyncState::Enriching { plan, switched }, ActionModel::Enrich(j@))
            } else {
                wrap_spec(LipsyncOutcome::Done, switched)
            }
        },
        None => wrap_spec(LipsyncOutcome::Done, switched),
    }
}

/// The transition relation, total over state and event: unexpected events
/// end the run (restoring the directory first when owed).
pub open spec fn step_spec(s: LipsyncState, e: LipsyncEvent) -> (LipsyncState, ActionModel) {
    match s {
        LipsyncState::Probing { plan } => match e {
            LipsyncEvent::ProbeFinished { available } => {
                if !available {
                    wrap_spec(LipsyncOutcome::Failed(LipsyncError::AlignerMissing), false)
                } else {
                    match plan.run_dir {
                        Some(d) => (
                            LipsyncState::Switching { plan },
                            ActionModel::SwitchDir(d@),
                        ),
                        None => (
                            LipsyncState::Aligning { plan, switched: false },
                            ActionModel::RunAligner(plan.wav_arg@),
                        ),
                    }
                }
            },
            _ => wrap_spec(LipsyncOutcome::Failed(LipsyncError::UnexpectedEvent), false),
        },
        LipsyncState::Switching { plan } => match e {
            LipsyncEvent::DirSwitched { ok } => {
                if ok {
                    (
                        LipsyncState::Aligning { plan, switched: true },
                        ActionModel::RunAligner(plan.wav_arg@),
                    )
                } else {
                    wrap_spec(LipsyncOutcome::Failed(LipsyncError::SwitchFailed), false)
                }
            },
            _ => wrap_spec(LipsyncOutcome::Failed(LipsyncError::UnexpectedEvent), false),
        },
        LipsyncState::Aligning { plan, switched } => match e {
            LipsyncEvent::AlignerFinished { success } => {
                if success {
                    (
                        LipsyncState::Locating { plan, switched },
                        ActionModel::CheckOutput(expected_json_of(plan)),
                    )
                } else {
                    wrap_spec(LipsyncOutcome::Failed(LipsyncError::AlignerFailed), switched)
                }
            },
            _ => wrap_spec(LipsyncOutcome::Failed(LipsyncError::UnexpectedEvent), switched),
        },
        LipsyncState::Locating { plan, switched } => match e {
            LipsyncEvent::OutputChecked { present } => {
                if !present {
                    wrap_spec(LipsyncOutcome::Failed(LipsyncError::OutputMissing), switched)
                } else {
                    match plan.json_name {
                        Some(j) => {
                            if j@ != expected_json(plan.wav_arg@) {
                                (
                                    LipsyncState::Placing { plan, switched },
                                    ActionModel::RenameOutput(expected_json_of(plan), j@),
                                )
                            } else {
                                after_place_spec(plan, switched)
                            }
                        },
                        None => after_place_spec(plan, switched),
                    }
                }
            },
            _ => wrap_spec(LipsyncOutcome::Failed(LipsyncError::UnexpectedEvent), switched),
        },
        LipsyncState::Placing { plan, switched } => match e {
            LipsyncEvent::RenameFinished { ok } => {
                if ok {
                    after_place_spec(plan, switched)
                } else {
                    match plan.json_name {
                        Some(j) => (
                            LipsyncState::Copying { plan, switched },
                            ActionModel::CopyAndRemove(expected_json_of(plan), j@),
                        ),
                        None => wrap_spec(
                            LipsyncOutcome::Failed(LipsyncError::UnexpectedEvent),
                            switched,
                        ),
                    }
                }
            },
            _ => wrap_spec(LipsyncOutcome::Failed(LipsyncError::UnexpectedEvent), switched),
        },
        LipsyncState::Copying { plan, switched } => match e {
            LipsyncEvent::CopyFinished { .. } => after_place_spec(plan, switched),
            _ => wrap_spec(LipsyncOutcome::Failed(LipsyncError::UnexpectedEvent), switched),
        },
        LipsyncState::Enriching { plan, switched } => match e {
            LipsyncEvent::EnrichFinished => wrap_spec(LipsyncOutcome::Done, switched),
            _ => wrap_spec(LipsyncOutcome::Failed(LipsyncError::UnexpectedEvent), switched),
        },
        LipsyncState::Restoring { outcome } => (
            LipsyncState::Finished { outcome },
            ActionModel::Finish(outcome),
        ),
        LipsyncState::Finished { outcome } => (
            LipsyncState::Finished { outcome },
            ActionModel::Finish(outcome),
        ),
    }
}

/// The ghost form of `expected_json_exec` applied to a plan's aligner input.
pub open spec fn expected_json_of(plan: LipsyncPlan) -> Seq<char> {
    expected_json(plan.wav_arg@)
}

/// Open a run: probe the aligner before anything else.
pub fn lipsync_start(req: &LipsyncRequest) -> (r: (LipsyncState, LipsyncAction))
    ensures
        r.0 matches LipsyncState::Probing { plan } && plan_matches(*req, plan) && plan.hi_fidelity
            == req.hi_fidelity,
        r.1 is ProbeAligner,
{
    let plan = make_plan(req);
    (LipsyncState::Probing { plan }, LipsyncAction::ProbeAligner)
}

/// Advance the run by one reported event; the result is exactly what
/// `step_spec` describes.
pub fn lipsync_step(s: LipsyncState, e: &LipsyncEvent) -> (r: (LipsyncState, LipsyncAction))
    ensures
        r.0 == step_spec(s, *e).0,
        action_model(r.1) == step_spec(s, *e).1,
{
    match s {
        LipsyncState::Probing { plan } => match e {
            LipsyncEvent::ProbeFinished { available } => {
                if !*available {
                    wrap_exec(LipsyncOutcome::Failed(LipsyncError::AlignerMissing), false)
                } else {
                    match &plan.run_dir {
                        Some(d) => {
                            let dir = d.clone();
                            (LipsyncState::Switching { plan }, LipsyncAction::SwitchDir { dir })
                        },
                        None => {
                            let wav = plan.wav_arg.clone();
                            (
                                LipsyncState::Aligning { plan, switched: false },
                                LipsyncAction::RunAligner { wav },
                            )
                        },
                    }
                }
            },
            _ => wrap_exec(LipsyncOutcome::Failed(LipsyncError::UnexpectedEvent), false),
        },
        LipsyncState::Switching { plan } => match e {
            LipsyncEvent::DirSwitched { ok } => {
                if *ok {
                    let wav = plan.wav_arg.clone();
                    (
                        LipsyncState::Aligning { plan, switched: true },
                        LipsyncAction::RunAligner { wav },
                    )
                } else {
                    wrap_exec(LipsyncOutcome::Failed(LipsyncError::SwitchFailed), false)
                }
            },
            _ => wrap_exec(LipsyncOutcome::Failed(LipsyncError::UnexpectedEvent), false),
        },
        LipsyncState::Aligning { plan, switched } => match e {
            LipsyncEvent::AlignerFinished { success } => {
                if *success {
                    let path = expected_json_exec(plan.wav_arg.as_str());
                    (
                        LipsyncState::Locating { plan, switched },
                        LipsyncAction::CheckOutput { path },
                    )
                } else {
                    wrap_exec(LipsyncOutcome::Failed(LipsyncError::AlignerFailed), switched)
                }
            },
            _ => wrap_exec(LipsyncOutcome::Failed(LipsyncError::UnexpectedEvent), switched),
        },
        LipsyncState::Locating { plan, switched } => match e {
            LipsyncEvent::OutputChecked { present } => {
                if !*present {
                    wrap_exec(LipsyncOutcome::Failed(LipsyncError::OutputMissing), switched)
                } else {
                    let expected = expected_json_exec(plan.wav_arg.as_str());
                    match &plan.json_name {
                        Some(j) => {
                            if !str_eq(j.as_str(), expected.as_str()) {
                                let to = j.clone();
                                (
                                    LipsyncState::Placing { plan, switched },
                                    LipsyncAction::RenameOutput { from: expected, to },
                                )
                            } else {
                                after_place_exec(plan, switched)
                            }
                        },
                        None => after_place_exec(plan, switched),
                    }
                }
            },
            _ => wrap_exec(LipsyncOutcome::Failed(LipsyncError::UnexpectedEvent), switched),
        },
        LipsyncState::Placing { plan, switched } => match e {
            LipsyncEvent::RenameFinished { ok } => {
                if *ok {
                    after_place_exec(plan, switched)
                } else {
                    match &plan.json_name {
                        Some(j) => {
                            let from = expected_json_exec(plan.wav_arg.as_str());
                            let to = j.clone();
                            (
                                LipsyncState::Copying { plan, switched },
                                LipsyncAction::CopyAndRemove { from, to },
                            )
                        },
                        None => wrap_exec(
                            LipsyncOutcome::Failed(LipsyncError::UnexpectedEvent),
                            switched,
                        ),
                    }
                }
            },
            _ => wrap_exec(LipsyncOutcome::Failed(LipsyncError::UnexpectedEvent), switched),
        },
        LipsyncState::Copying { plan, switched } => match e {
            LipsyncEvent::CopyFinished { .. } => after_place_exec(plan, switched),
            _ => wrap_exec(LipsyncOutcome::Failed(LipsyncError::UnexpectedEvent), switched),
        },
        LipsyncState::Enriching { plan, switched } => match e {
            LipsyncEvent::EnrichFinished => wrap_exec(LipsyncOutcome::Done, switched),
            _ => wrap_exec(LipsyncOutcome::Failed(LipsyncError::UnexpectedEvent), switched),
        },
        LipsyncState::Restoring { outcome } => (
            LipsyncState::Finished { outcome },
            LipsyncAction::Finish { outcome },
        ),
        LipsyncState::Finished { outcome } => (
            LipsyncState::Finished { outcome },
            LipsyncAction::Finish { outcome },
        ),
    }
}

/// End the run, restoring the directory first when one is owed.
fn wrap_exec(o: LipsyncOutcome, switched: bool) -> (r: (LipsyncState, LipsyncAction))
    ensures
        r.0 == wrap_spec(o, switched).0,
        action_model(r.1) == wrap_spec(o, switched).1,
{
    if switched {
        (LipsyncState::Restoring { outcome: o }, LipsyncAction::RestoreDir)
    } else {
        (LipsyncState::Finished { outcome: o }, LipsyncAction::Finish { outcome: o })
    }
}

/// Enrich or finish once the output stands under its final name.
fn after_place_exec(plan: LipsyncPlan, switched: bool) -> (r: (LipsyncState, LipsyncAction))
    ensures
        r.0 == after_place_spec(plan, switched).0,
        action_model(r.1) == after_place_spec(plan, switched).1,
{
    match &plan.json_name {
        Some(j) => {
            if plan.hi_fidelity {
                let path = j.clone();
                (LipsyncState::Enriching { plan, switched }, LipsyncAction::Enrich { path })
            } else {
                wrap_exec(LipsyncOutcome::Done, switched)
            }
        },
        None => wrap_exec(LipsyncOutcome::Done, switched),
    }
}

/// A whole run: the final state and every action issued, in order.
pub open spec fn run_spec(s: LipsyncState, events: Seq<LipsyncEvent>) -> (
    LipsyncState,
    Seq<ActionModel>,
)
    decreases events.len(),
{
    if events.len() == 0 {
        (s, Seq::empty())
    } else {
        let first = step_spec(s, events[0]);
        let rest = run_spec(first.0, events.drop_first());
        (rest.0, seq![first.1] + rest.1)
    }
}

/// How many actions of a run restore the working directory.
pub open spec fn restore_count(acts: Seq<ActionModel>) -> nat
    decreases acts.len(),
{
    if acts.len() == 0 {
        0
    } else {
        (if acts[0] is RestoreDir {
            1nat
        } else {
            0nat
        }) + restore_count(acts.drop_first())
    }
}

/// How many directory switches succeed during a run: events reporting a
/// successful switch while the machine was waiting for one.
pub open spec fn switch_count(s: LipsyncState, events: Seq<LipsyncEvent>) -> nat
    decreases events.len(),
{
    if events.len() == 0 {
        0
    } else {
        (if s is Switching && (events[0] matches LipsyncEvent::DirSwitched { ok: true }) {
            1nat
        } else {
            0nat
        }) + switch_count(step_spec(s, events[0]).0, events.drop_first())
    }
}

/// One step keeps the books: a restore is issued exactly when the owed
/// switch is discharged, and a new debt arises only from a successful
/// switch.
proof fn lemma_step_restore_discipline(s: LipsyncState, e: LipsyncEvent)
    ensures
        ({
            let (s2, a) = step_spec(s, e);
            let switched_now: nat = if s is Switching && (e matches LipsyncEvent::DirSwitched {
                ok: true,
            }) {
                1
            } else {
                0
            };
            let restored_now: nat = if a is RestoreDir {
                1
            } else {
                0
            };
            let debt_before: nat = if dir_changed(s) {
                1
            } else {
                0
            };
            let debt_after: nat = if dir_changed(s2) {
                1
            } else {
                0
            };
            restored_now + debt_after == debt_before + switched_now
        }),
{
}

/// Restore discipline over whole runs: when a run has finished, the process
/// was told to restore the working directory exactly once for every switch
/// that succeeded — whichever path the run took, success or failure.
pub proof fn lemma_run_restores(s: LipsyncState, events: Seq<LipsyncEvent>)
    requires
        run_spec(s, events).0 is Finished,
    ensures
        restore_count(run_spec(s, events).1) == switch_count(s, events) + (if dir_changed(s) {
            1nat
        } else {
            0nat
        }),
    decreases events.len(),
{
    if events.len() == 0 {
        assert(!dir_changed(s));
    } else {
        let first = step_spec(s, events[0]);
        lemma_step_restore_discipline(s, events[0]);
        let rest = run_spec(first.0, events.drop_first());
        assert(run_spec(s, events).0 == rest.0);
        lemma_run_restores(first.0, events.drop_first());
        let acts = run_spec(s, events).1;
        assert(acts == seq![first.1] + rest.1);
        assert(acts.len() == 1 + rest.1.len());
        assert(acts.drop_first() =~= rest.1);
        assert(acts[0] == first.1);
        assert(restore_count(acts) == (if acts[0] is RestoreDir {
            1nat
        } else {
            0nat
        }) + restore_count(acts.drop_first()));
        assert(switch_count(s, events) == (if s is Switching && (events[0]
            matches LipsyncEvent::DirSwitched { ok: true }) {
            1nat
        } else {
            0nat
        }) + switch_count(first.0, events.drop_first()));
        let sw_here: nat = if s is Switching && (events[0] matches LipsyncEvent::DirSwitched {
            ok: true,
        }) {
            1
        } else {
            0
        };
        let re_here: nat = if first.1 is RestoreDir {
            1
        } else {
            0
        };
        assert(re_here + (if dir_changed(first.0) {
            1nat
        } else {
            0nat
        }) == (if dir_changed(s) {
            1nat
        } else {
            0nat
        }) + sw_here);
        assert(restore_count(rest.1) == switch_count(first.0, events.drop_first()) + (
        if dir_changed(first.0) {
            1nat
        } else {
            0nat
        }));
        assert(restore_count(acts) == re_here + restore_count(rest.1));
        assert(switch_count(s, events) == sw_here + switch_count(first.0, events.drop_first()));
    }
}

/// A run that starts fresh and finishes restores once per successful switch.
pub proof fn lemma_fresh_run_restores(plan: LipsyncPlan, events: Seq<LipsyncEvent>)
    requires
        run_spec(LipsyncState::Probing { plan }, events).0 is Finished,
    ensures
        restore_count(run_spec(LipsyncState::Probing { plan }, events).1) == switch_count(
            LipsyncState::Probing { plan },
            events,
        ),
{
    lemma_run_restores(LipsyncState::Probing { plan }, events);
}

/// Install guidance shown when the aligner executable cannot be found.
pub fn aligner_install_help() -> (r: String)
    ensures
        r@ ==
            "Error: 'whisperx' executable not found in your PATH.\nTo use the --lipsync flag, you must install WhisperX:\n  python3 -m pip install git+https://github.com/m-bain/whisperx.git\nSee: https://github.com/m-bain/whisperX"@,
{
    let mut r = String::new();
    r.append(
        "Error: 'whisperx' executable not found in your PATH.\nTo use the --lipsync flag, you must install WhisperX:\n  python3 -m pip install git+https://github.com/m-bain/whisperx.git\nSee: https://github.com/m-bain/whisperX",
    );
    r
}

/// One word-timing entry of the alignment document, as far as enrichment
/// reads and writes it; the aligner's other fields pass through untouched in
/// the surrounding process.
pub struct WordSegment {
    pub word: String,
    pub phonemes: Option<Vec<String>>,
    pub phoneme_method: Option<String>,
}

/// Attach phoneme annotations to word segments by position: entry `i` takes
/// the symbols and method tag of resolution `i`; entries past the resolution
/// list stay untouched, as does every word text.
pub fn enrich_segments(segments: &mut Vec<WordSegment>, rs: &Vec<Resolution>)
    ensures
        final(segments)@.len() == old(segments)@.len(),
        forall|i: int|
            0 <= i < old(segments)@.len() && i < rs@.len() ==> {
                &&& (#[trigger] final(segments)@[i]).word == old(segments)@[i].word
                &&& final(segments)@[i].phonemes matches Some(p) && views_of(p@) == views_of(
                    rs@[i].symbols@,
                )
                &&& final(segments)@[i].phoneme_method matches Some(m) && m@ == method_tag(
                    rs@[i].method,
                )
            },
        forall|i: int|
            rs@.len() <= i < old(segments)@.len() ==> #[trigger] final(segments)@[i] == old(
                segments,
            )@[i],
{
    let n = segments.len();
    let m = rs.len();
    let k: usize = if m < n {
        m
    } else {
        n
    };
    let mut i: usize = 0;
    while i < k
        invariant
            i <= k,
            k <= n,
            k <= m,
            k == if m < n {
                m
            } else {
                n
            },
            n == segments@.len(),
            m == rs@.len(),
            n == old(segments)@.len(),
            forall|j: int|
                i <= j < n ==> #[trigger] segments@[j] == old(segments)@[j],
            forall|j: int|
                0 <= j < i ==> {
                    &&& (#[trigger] segments@[j]).word == old(segments)@[j].word
                    &&& segments@[j].phonemes matches Some(p) && views_of(p@) == views_of(
                        rs@[j].symbols@,
                    )
                    &&& segments@[j].phoneme_method matches Some(t) && t@ == method_tag(
                        rs@[j].method,
                    )
                },
        decreases k - i,
    {
        let symbols = clone_symbol_list(&rs[i].symbols);
        let tag = rs[i].method.tag_str();
        let mut tag_string = String::new();
        tag_string.append(tag);
        let entry = vstd::std_specs::vec::vec_index_mut(segments, i);
        entry.phonemes = Some(symbols);
        entry.phoneme_method = Some(tag_string);
        i += 1;
    }
}

/// An element-for-element copy of a symbol list.
fn clone_symbol_list(v: &Vec<String>) -> (r: Vec<String>)
    ensures
        views_of(r@) == views_of(v@),
{
    let mut r: Vec<String> = Vec::new();
    let mut i: usize = 0;
    proof {
        assert(views_of(r@) =~= views_of(v@).subrange(0, 0));
    }
    while i < v.len()
        invariant
            i <= v@.len(),
            views_of(r@) == views_of(v@).subrange(0, i as int),
        decreases v@.len() - i,
    {
        let ghost old_r = r@;
        r.push(v[i].clone());
        proof {
            assert(views_of(r@) =~= views_of(old_r).push(v@[i as int]@));
            assert(views_of(r@) =~= views_of(v@).subrange(0, i + 1));
        }
        i += 1;
    }
    proof {
        assert(views_of(v@).subrange(0, v@.len() as int) =~= views_of(v@));
    }
    r
}

} // verus!
