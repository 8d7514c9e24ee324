//! The publish sequence as a state machine: the caller performs each action
//! (prompting, running the publish tool, waiting, writing the manifest) and
//! hands back what came of it.
use vstd::prelude::*;
use vstd::string::*;
use crate::document::{parse_toml, toml_parse_of};
use crate::errors::MaggError;
use crate::publisher::{candidates_of, collect_crates, is_publish_order, views, CandidateView, CrateToPublish};
use crate::text::{replace_first, replace_first_in};
use crate::validate::{manifest_defect, validate_crate};
use crate::workspace::Workspace;

verus! {

broadcast use vstd::seq_lib::group_to_multiset_ensures;

/// Where a publish run stands.
#[derive(Clone, Copy, Debug)]
pub enum Stage {
    /// Waiting for the manifest of crate `index` to be checked.
    Loading { index: usize },
    ConfirmVersion,
    ConfirmCrates,
    DryRunPrompt { index: usize },
    DryRunExec { index: usize },
    PublishPrompt { index: usize },
    PublishExec { index: usize },
    Waiting { index: usize },
    /// The rewritten manifest, with crate `index` marked published, is being written.
    Saving { index: usize },
    Completed,
    Aborted,
    Failed,
}

/// What came of the last action.
pub enum Event {
    /// The text of the crate manifest that was asked for.
    ManifestRead(String),
    /// The crate manifest (or its directory) could not be found or read.
    ManifestUnavailable(MaggError),
    /// The answer to a confirmation.
    Answer(bool),
    CommandSucceeded,
    CommandFailed(MaggError),
    WaitOver,
    Saved,
    SaveFailed(MaggError),
}

/// What the caller is to do next.
pub enum Action {
    /// Read the manifest of crate `index` and hand back its text.
    LoadManifest { index: usize },
    /// Show the publish version and ask whether it is right.
    ConfirmVersion,
    /// List the crates and ask whether to publish them all.
    ConfirmCrates,
    ConfirmDryRun { index: usize },
    ConfirmPublish { index: usize },
    /// Run `program` with `args` in crate `index`'s directory.
    RunCommand { index: usize, program: String, args: Vec<String> },
    Wait { index: usize, seconds: u64 },
    /// Write `text` over the workspace manifest.
    SaveManifest { text: String },
    /// The run ended without error.
    Finish,
    Fail(MaggError),
}

pub enum EventView {
    ManifestRead(Seq<char>),
    ManifestUnavailable(Seq<char>),
    Answer(bool),
    CommandSucceeded,
    CommandFailed(Seq<char>),
    WaitOver,
    Saved,
    SaveFailed(Seq<char>),
}

pub enum ActionView {
    LoadManifest(nat),
    ConfirmVersion,
    ConfirmCrates,
    ConfirmDryRun(nat),
    ConfirmPublish(nat),
    RunCommand(nat, Seq<char>, Seq<Seq<char>>),
    Wait(nat, u64),
    SaveManifest(Seq<char>),
    Finish,
    Fail(Seq<char>),
}

impl View for Event {
    type V = EventView;

    open spec fn view(&self) -> EventView {
        match self {
            Event::ManifestRead(t) => EventView::ManifestRead(t@),
            Event::ManifestUnavailable(e) => EventView::ManifestUnavailable(e@),
            Event::Answer(b) => EventView::Answer(*b),
            Event::CommandSucceeded => EventView::CommandSucceeded,
            Event::CommandFailed(e) => EventView::CommandFailed(e@),
            Event::WaitOver => EventView::WaitOver,
            Event::Saved => EventView::Saved,
            Event::SaveFailed(e) => EventView::SaveFailed(e@),
        }
    }
}

impl View for Action {
    type V = ActionView;

    open spec fn view(&self) -> ActionView {
        match self {
            Action::LoadManifest { index } => ActionView::LoadManifest(*index as nat),
            Action::ConfirmVersion => ActionView::ConfirmVersion,
            Action::ConfirmCrates => ActionView::ConfirmCrates,
            Action::ConfirmDryRun { index } => ActionView::ConfirmDryRun(*index as nat),
            Action::ConfirmPublish { index } => ActionView::ConfirmPublish(*index as nat),
            Action::RunCommand { index, program, args } => ActionView::RunCommand(
                *index as nat,
                program@,
                args@.map_values(|a: String| a@),
            ),
            Action::Wait { index, seconds } => ActionView::Wait(*index as nat, *seconds),
            Action::SaveManifest { text } => ActionView::SaveManifest(text@),
            Action::Finish => ActionView::Finish,
            Action::Fail(e) => ActionView::Fail(e@),
        }
    }
}

/// A publish run.
pub struct Publisher {
    version: String,
    crates: Vec<CrateToPublish>,
    text: String,
    initial: Ghost<Seq<char>>,
    rewritten: usize,
    timeout: u64,
    simulation: bool,
    stage: Stage,
}

pub struct PublisherView {
    pub version: Seq<char>,
    /// The crates in publish order.
    pub crates: Seq<CandidateView>,
    /// The workspace manifest as it was read.
    pub initial: Seq<char>,
    /// The workspace manifest as last written (or as read, before any write).
    pub text: Seq<char>,
    /// How many crates, from the first on, are marked published in `text`.
    pub rewritten: nat,
    pub timeout: u64,
    pub simulation: bool,
    pub stage: Stage,
}

impl View for Publisher {
    type V = PublisherView;

    closed spec fn view(&self) -> PublisherView {
        PublisherView {
            version: self.version@,
            crates: views(self.crates@),
            initial: self.initial@,
            text: self.text@,
            rewritten: self.rewritten as nat,
            timeout: self.timeout,
            simulation: self.simulation,
            stage: self.stage,
        }
    }
}

/// `text` with the first `k` crates marked published, one after the other.
pub open spec fn apply_rewrites(text: Seq<char>, cs: Seq<CandidateView>, k: nat) -> Seq<char>
    decreases k,
{
    if k == 0 || k > cs.len() {
        text
    } else {
        replace_first(
            apply_rewrites(text, cs, (k - 1) as nat),
            cs[k - 1].search_prefix,
            cs[k - 1].replacement_prefix,
        )
    }
}

pub open spec fn command_program(simulation: bool) -> Seq<char> {
    if simulation {
        "echo"@
    } else {
        "cargo"@
    }
}

pub open spec fn command_args(simulation: bool, dry_run: bool) -> Seq<Seq<char>> {
    if simulation {
        if dry_run {
            seq!["simulating <dry-run>"@]
        } else {
            seq!["simulating <publish>"@]
        }
    } else if dry_run {
        seq!["publish"@, "--dry-run"@, "--color=always"@]
    } else {
        seq!["publish"@, "--color=always"@]
    }
}

/// The invariant of a run.
pub open spec fn well_formed(v: PublisherView) -> bool {
    let n = v.crates.len();
    &&& n > 0
    &&& v.rewritten <= n
    &&& v.text == apply_rewrites(v.initial, v.crates, v.rewritten)
    &&& match v.stage {
        Stage::Loading { index } => index < n && v.rewritten == 0,
        Stage::ConfirmVersion | Stage::ConfirmCrates | Stage::Aborted => v.rewritten == 0,
        Stage::DryRunPrompt { index }
        | Stage::DryRunExec { index }
        | Stage::PublishPrompt { index }
        | Stage::PublishExec { index }
        | Stage::Waiting { index } => index < n && v.rewritten == index,
        Stage::Saving { index } => index < n && v.rewritten == index + 1,
        Stage::Completed => v.rewritten == n,
        Stage::Failed => true,
    }
}

/// The events each stage waits for.
pub open spec fn accepts(stage: Stage, e: EventView) -> bool {
    match stage {
        Stage::Loading { .. } => e is ManifestRead || e is ManifestUnavailable,
        Stage::ConfirmVersion | Stage::ConfirmCrates | Stage::DryRunPrompt { .. }
        | Stage::PublishPrompt { .. } => e is Answer,
        Stage::DryRunExec { .. } | Stage::PublishExec { .. } => e is CommandSucceeded || e is CommandFailed,
        Stage::Waiting { .. } => e is WaitOver,
        Stage::Saving { .. } => e is Saved || e is SaveFailed,
        _ => false,
    }
}

pub open spec fn with_stage(v: PublisherView, stage: Stage) -> PublisherView {
    PublisherView { stage, ..v }
}

pub open spec fn failed(v: PublisherView, message: Seq<char>) -> (PublisherView, ActionView) {
    (with_stage(v, Stage::Failed), ActionView::Fail(message))
}

/// The transition of a run on an event: the next state and the action asked for.
pub open spec fn next(v: PublisherView, e: EventView) -> (PublisherView, ActionView) {
    let n = v.crates.len();
    match v.stage {
        Stage::Loading { index } => match e {
            EventView::ManifestRead(t) => match toml_parse_of(t) {
                Err(m) => failed(v, m),
                Ok(doc) => match manifest_defect(doc, v.crates, index as int) {
                    Some(m) => failed(v, m),
                    None => if index + 1 < n {
                        (
                            with_stage(v, Stage::Loading { index: (index + 1) as usize }),
                            ActionView::LoadManifest((index + 1) as nat),
                        )
                    } else {
                        (with_stage(v, Stage::ConfirmVersion), ActionView::ConfirmVersion)
                    },
                },
            },
            EventView::ManifestUnavailable(m) => failed(v, m),
            _ => (v, ActionView::Finish),
        },
        Stage::ConfirmVersion => match e {
            EventView::Answer(true) => (with_stage(v, Stage::ConfirmCrates), ActionView::ConfirmCrates),
            _ => (with_stage(v, Stage::Aborted), ActionView::Finish),
        },
        Stage::ConfirmCrates => match e {
            EventView::Answer(true) => (
                with_stage(v, Stage::DryRunPrompt { index: 0 }),
                ActionView::ConfirmDryRun(0),
            ),
            _ => (with_stage(v, Stage::Aborted), ActionView::Finish),
        },
        Stage::DryRunPrompt { index } => match e {
            EventView::Answer(true) => (
                with_stage(v, Stage::DryRunExec { index }),
                ActionView::RunCommand(
                    index as nat,
                    command_program(v.simulation),
                    command_args(v.simulation, true),
                ),
            ),
            _ => (with_stage(v, Stage::PublishPrompt { index }), ActionView::ConfirmPublish(index as nat)),
        },
        Stage::DryRunExec { index } => match e {
            EventView::CommandFailed(m) => failed(v, m),
            _ => (with_stage(v, Stage::PublishPrompt { index }), ActionView::ConfirmPublish(index as nat)),
        },
        Stage::PublishPrompt { index } => match e {
            EventView::Answer(true) => (
                with_stage(v, Stage::PublishExec { index }),
                ActionView::RunCommand(
                    index as nat,
                    command_program(v.simulation),
                    command_args(v.simulation, false),
                ),
            ),
            _ => (with_stage(v, Stage::Waiting { index }), ActionView::Wait(index as nat, v.timeout)),
        },
        Stage::PublishExec { index } => match e {
            EventView::CommandFailed(m) => failed(v, m),
            _ => (with_stage(v, Stage::Waiting { index }), ActionView::Wait(index as nat, v.timeout)),
        },
        Stage::Waiting { index } => {
            let c = v.crates[index as int];
            let text = replace_first(v.text, c.search_prefix, c.replacement_prefix);
            (
                PublisherView { stage: Stage::Saving { index }, text, rewritten: v.rewritten + 1, ..v },
                ActionView::SaveManifest(text),
            )
        },
        Stage::Saving { index } => match e {
            EventView::SaveFailed(m) => failed(v, m),
            _ => if index + 1 < n {
                (
                    with_stage(v, Stage::DryRunPrompt { index: (index + 1) as usize }),
                    ActionView::ConfirmDryRun((index + 1) as nat),
                )
            } else {
                (with_stage(v, Stage::Completed), ActionView::Finish)
            },
        },
        _ => (v, ActionView::Finish),
    }
}

fn command(simulation: bool, dry_run: bool) -> (r: (String, Vec<String>))
    ensures
        r.0@ == command_program(simulation),
        r.1@.map_values(|a: String| a@) == command_args(simulation, dry_run),
{
    let r = if simulation {
        if dry_run {
            (String::from_str("echo"), vec![String::from_str("simulating <dry-run>")])
        } else {
            (String::from_str("echo"), vec![String::from_str("simulating <publish>")])
        }
    } else if dry_run {
        (
            String::from_str("cargo"),
            vec![String::from_str("publish"), String::from_str("--dry-run"), String::from_str("--color=always")],
        )
    } else {
        (String::from_str("cargo"), vec![String::from_str("publish"), String::from_str("--color=always")])
    };
    assert(r.1@.map_values(|a: String| a@) =~= command_args(simulation, dry_run));
    r
}

impl Publisher {
    /// Starts a run over the path dependencies of `workspace`, whose manifest
    /// reads `text`: the crates are collected in publish order, and the first
    /// action asks for the manifest of the first of them.
    pub fn start(workspace: &Workspace, text: &str, timeout: u64, simulation: bool) -> (r: Result<(Publisher, Action), MaggError>)
        ensures
            match candidates_of(workspace@.dependencies, text@, workspace@.version) {
                Err(m) => r matches Err(e) && e@ == m,
                Ok(cs) => if cs.len() == 0 {
                    r matches Err(e) && e@ == "no crates to publish"@
                } else {
                    r matches Ok((p, a)) && well_formed(p@) && is_publish_order(p@.crates, cs)
                        && p@.initial == text@ && p@.text == text@ && p@.rewritten == 0
                        && p@.version == workspace@.version && p@.timeout == timeout
                        && p@.simulation == simulation && p@.stage == (Stage::Loading { index: 0 })
                        && a@ == ActionView::LoadManifest(0)
                },
            },
    {
        let crates = match collect_crates(workspace, text) {
            Ok(c) => c,
            Err(e) => { return Err(e); },
        };
        proof {
            let cs = candidates_of(workspace@.dependencies, text@, workspace@.version)->Ok_0;
            assert(cs.to_multiset().len() == cs.len());
            assert(views(crates@).to_multiset().len() == views(crates@).len());
        }
        let p = Publisher {
            version: String::from_str(workspace.version()),
            crates,
            text: String::from_str(text),
            initial: Ghost(text@),
            rewritten: 0,
            timeout,
            simulation,
            stage: Stage::Loading { index: 0 },
        };
        assert(p@.text == apply_rewrites(p@.initial, p@.crates, 0));
        assert(well_formed(p@));
        Ok((p, Action::LoadManifest { index: 0 }))
    }

    /// The version the crates are published under.
    pub fn version(&self) -> (r: &str)
        ensures
            r@ == self@.version,
    {
        self.version.as_str()
    }

    /// The crates, in publish order.
    pub fn crates(&self) -> (r: &Vec<CrateToPublish>)
        ensures
            views(r@) == self@.crates,
    {
        &self.crates
    }

    /// The workspace manifest's current contents.
    pub fn text(&self) -> (r: &str)
        ensures
            r@ == self@.text,
    {
        self.text.as_str()
    }

    pub fn stage(&self) -> (r: Stage)
        ensures
            r == self@.stage,
    {
        self.stage
    }

    fn fail(&mut self, e: MaggError) -> (a: Action)
        ensures
            final(self)@ == with_stage(old(self)@, Stage::Failed),
            a@ == ActionView::Fail(e@),
    {
        self.stage = Stage::Failed;
        Action::Fail(e)
    }

    /// Advances the run by what came of the last action and returns the next action.
    pub fn step(&mut self, event: Event) -> (a: Action)
        requires
            well_formed(old(self)@),
            accepts(old(self)@.stage, event@),
        ensures
            well_formed(final(self)@),
            (final(self)@, a@) == next(old(self)@, event@),
    {
        let n = self.crates.len();
        match self.stage {
            Stage::Loading { index } => match event {
                Event::ManifestRead(t) => match parse_toml(t.as_str()) {
                    Err(e) => self.fail(e),
                    Ok(doc) => match validate_crate(&doc, &self.crates, index) {
                        Err(e) => self.fail(e),
                        Ok(()) => if index + 1 < n {
                            self.stage = Stage::Loading { index: index + 1 };
                            Action::LoadManifest { index: index + 1 }
                        } else {
                            self.stage = Stage::ConfirmVersion;
                            Action::ConfirmVersion
                        },
                    },
                },
                Event::ManifestUnavailable(e) => self.fail(e),
                _ => Action::Finish,
            },
            Stage::ConfirmVersion => match event {
                Event::Answer(true) => {
                    self.stage = Stage::ConfirmCrates;
                    Action::ConfirmCrates
                },
                _ => {
                    self.stage = Stage::Aborted;
                    Action::Finish
                },
            },
            Stage::ConfirmCrates => match event {
                Event::Answer(true) => {
                    self.stage = Stage::DryRunPrompt { index: 0 };
                    Action::ConfirmDryRun { index: 0 }
                },
                _ => {
                    self.stage = Stage::Aborted;
                    Action::Finish
                },
            },
            Stage::DryRunPrompt { index } => match event {
                Event::Answer(true) => {
                    self.stage = Stage::DryRunExec { index };
                    let (program, args) = command(self.simulation, true);
                    Action::RunCommand { index, program, args }
                },
                _ => {
                    self.stage = Stage::PublishPrompt { index };
                    Action::ConfirmPublish { index }
                },
            },
            Stage::DryRunExec { index } => match event {
                Event::CommandFailed(e) => self.fail(e),
                _ => {
                    self.stage = Stage::PublishPrompt { index };
                    Action::ConfirmPublish { index }
                },
            },
            Stage::PublishPrompt { index } => match event {
                Event::Answer(true) => {
                    self.stage = Stage::PublishExec { index };
                    let (program, args) = command(self.simulation, false);
                    Action::RunCommand { index, program, args }
                },
                _ => {
                    self.stage = Stage::Waiting { index };
                    Action::Wait { index, seconds: self.timeout }
                },
            },
            Stage::PublishExec { index } => match event {
                Event::CommandFailed(e) => self.fail(e),
                _ => {
                    self.stage = Stage::Waiting { index };
                    Action::Wait { index, seconds: self.timeout }
                },
            },
            Stage::Waiting { index } => {
                let text = replace_first_in(
                    self.text.as_str(),
                    self.crates[index].search_prefix.as_str(),
                    self.crates[index].replacement_prefix.as_str(),
                );
                self.text = text;
                self.rewritten = self.rewritten + 1;
                self.stage = Stage::Saving { index };
                Action::SaveManifest { text: self.text.clone() }
            },
            Stage::Saving { index } => match event {
                Event::SaveFailed(e) => self.fail(e),
                _ => if index + 1 < n {
                    self.stage = Stage::DryRunPrompt { index: index + 1 };
                    Action::ConfirmDryRun { index: index + 1 }
                } else {
                    self.stage = Stage::Completed;
                    Action::Finish
                },
            },
            _ => Action::Finish,
        }
    }
}

/// Nothing is written before every crate manifest has been checked and the
/// run confirmed: while crates are checked or the run is being confirmed, no
/// step asks for the manifest to be written, and the manifest stays as read.
pub proof fn lemma_no_write_before_publishing(v: PublisherView, e: EventView)
    requires
        well_formed(v),
        v.stage is Loading || v.stage is ConfirmVersion || v.stage is ConfirmCrates,
        accepts(v.stage, e),
    ensures
        !(next(v, e).1 is SaveManifest),
        next(v, e).0.text == v.initial,
        next(v, e).0.stage is Failed ==> v.stage is Loading,
{
}

/// A publish command that fails for crate `k` stops the run with the manifest
/// marking exactly the crates before `k` as published.
pub proof fn lemma_failure_keeps_earlier_rewrites(v: PublisherView, e: EventView, k: usize)
    requires
        well_formed(v),
        v.stage == (Stage::DryRunExec { index: k }) || v.stage == (Stage::PublishExec { index: k }),
        e is CommandFailed,
    ensures
        next(v, e).0.stage is Failed,
        next(v, e).0.text == apply_rewrites(v.initial, v.crates, k as nat),
{
}

/// Each write of the manifest marks the crates up to and including the
/// current one as published, and no others.
pub proof fn lemma_saved_text_marks_prefix(v: PublisherView, e: EventView)
    requires
        well_formed(v),
        accepts(v.stage, e),
        next(v, e).1 is SaveManifest,
    ensures
        v.stage is Waiting,
        next(v, e).1 == ActionView::SaveManifest(
            apply_rewrites(v.initial, v.crates, (v.stage->Waiting_index + 1) as nat),
        ),
{
}

/// A completed run leaves every crate marked published in the manifest.
pub proof fn lemma_completed_run_marks_all(v: PublisherView)
    requires
        well_formed(v),
        v.stage is Completed,
    ensures
        v.text == apply_rewrites(v.initial, v.crates, v.crates.len()),
{
}

} // verus!
