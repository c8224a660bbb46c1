//! Creating a snapshot service.

use vstd::prelude::*;

use crate::error::{Error, IoErrorKind};
use crate::host::{Action, ActionView, Reply, ReplyKind, ReplyView};
use crate::path::PathView;
use crate::service::{LooseReader, ReaderView, Service, ServiceParams, ServiceView};
use crate::status::{Algorithm, RestorationStatus};

verus! {

/// What the creation of a service waits for.
#[derive(Clone, Copy, PartialEq, Eq, Structural, Debug)]
pub enum StartupStage {
    /// The root directory to be created.
    CreatingRoot,
    /// What an earlier restoration left to be removed.
    RemovingRestoration,
    /// What an earlier snapshot left unfinished to be removed.
    RemovingTemp,
    /// The current snapshot to be opened.
    OpeningReader,
}

/// A service that is being created.
#[derive(Debug)]
pub struct Startup {
    pub(crate) stage: StartupStage,
    pub(crate) service: Service,
}

/// The value of a service that is being created.
pub struct StartupView {
    pub stage: StartupStage,
    pub service: ServiceView,
}

impl View for Startup {
    type V = StartupView;

    open(crate) spec fn view(&self) -> StartupView {
        StartupView { stage: self.stage, service: self.service@ }
    }
}

/// One step of the creation of a service: ask the host for an action, and go on when it has
/// answered; or hand out the service; or give up.
#[derive(Debug)]
pub enum StartupStep {
    Do(Action<'static>, Startup),
    Ready(Service),
    Failed(Error),
}

/// The value of a step.
pub enum StartupStepView {
    Do(ActionView, StartupView),
    Ready(ServiceView),
    Failed(Error),
}

impl View for StartupStep {
    type V = StartupStepView;

    open spec fn view(&self) -> StartupStepView {
        match *self {
            StartupStep::Do(action, startup) => StartupStepView::Do(action@, startup@),
            StartupStep::Ready(service) => StartupStepView::Ready(service@),
            StartupStep::Failed(error) => StartupStepView::Failed(error),
        }
    }
}

impl ServiceView {
    /// A service that has done nothing yet.
    pub open spec fn fresh(genesis_block: Seq<u8>, pruning: Algorithm, root: PathView) -> Self {
        ServiceView {
            restoration: None,
            root,
            pruning,
            status: RestorationStatus::Inactive,
            reader: None,
            genesis_block,
            state_chunks: 0,
            block_chunks: 0,
            taking_snapshot: false,
            restoring_snapshot: false,
            held: false,
            swapping: false,
        }
    }
}

impl StartupStage {
    /// The kind of reply that the stage waits for.
    pub open spec fn awaited(self) -> ReplyKind {
        match self {
            StartupStage::OpeningReader => ReplyKind::Reader,
            _ => ReplyKind::Io,
        }
    }
}

impl StartupView {
    /// The step that asks for what a stage waits for.
    pub open spec fn at(stage: StartupStage, service: ServiceView) -> StartupStepView {
        StartupStepView::Do(
            match stage {
                StartupStage::CreatingRoot => ActionView::CreateDirAll(service.root),
                StartupStage::RemovingRestoration => ActionView::RemoveDirAll(
                    service.restoration_dir(),
                ),
                StartupStage::RemovingTemp => ActionView::RemoveDirAll(service.temp_snapshot_dir()),
                StartupStage::OpeningReader => ActionView::OpenReader(service.snapshot_dir()),
            },
            StartupView { stage, service },
        )
    }

    /// What follows when the host has answered.
    pub open spec fn resume(self, reply: ReplyView) -> StartupStepView {
        match (self.stage, reply) {
            // A root that is there already is as good as a new one.
            (StartupStage::CreatingRoot, ReplyView::Io(result)) => match result {
                Err(e) if e.kind != IoErrorKind::AlreadyExists => StartupStepView::Failed(
                    Error::StdIo(e),
                ),
                _ => Self::at(StartupStage::RemovingRestoration, self.service),
            },
            // A directory that is not there needs no removing.
            (StartupStage::RemovingRestoration, ReplyView::Io(result)) => match result {
                Err(e) if e.kind != IoErrorKind::NotFound => StartupStepView::Failed(
                    Error::StdIo(e),
                ),
                _ => Self::at(StartupStage::RemovingTemp, self.service),
            },
            (StartupStage::RemovingTemp, ReplyView::Io(result)) => match result {
                Err(e) if e.kind != IoErrorKind::NotFound => StartupStepView::Failed(
                    Error::StdIo(e),
                ),
                _ => Self::at(StartupStage::OpeningReader, self.service),
            },
            // A service without a current snapshot is a service.
            (StartupStage::OpeningReader, ReplyView::Reader(result)) => StartupStepView::Ready(
                ServiceView {
                    reader: match result {
                        Ok(manifest) => Some(
                            ReaderView { dir: self.service.snapshot_dir(), manifest },
                        ),
                        Err(_) => None,
                    },
                    ..self.service
                },
            ),
            _ => arbitrary(),
        }
    }
}

impl Service {
    /// Create a new snapshot service from the given parameters.
    pub fn new(params: ServiceParams) -> (step: StartupStep)
        ensures
            step@ == StartupView::at(
                StartupStage::CreatingRoot,
                ServiceView::fresh(
                    params.genesis_block@,
                    params.pruning,
                    params.snapshot_root@,
                ),
            ),
    {
        let root = params.snapshot_root.clone();
        let service = Service {
            restoration: None,
            snapshot_root: params.snapshot_root,
            pruning: params.pruning,
            status: RestorationStatus::Inactive,
            reader: None,
            genesis_block: params.genesis_block,
            state_chunks: 0,
            block_chunks: 0,
            taking_snapshot: false,
            restoring_snapshot: false,
            held: false,
            swapping: false,
        };
        // create the root snapshot dir if it doesn't exist.
        StartupStep::Do(
            Action::CreateDirAll(root),
            Startup { stage: StartupStage::CreatingRoot, service },
        )
    }
}

impl Startup {
    /// The kind of reply that the creation waits for.
    pub fn awaits(&self) -> (kind: ReplyKind)
        ensures
            kind == self@.stage.awaited(),
    {
        match self.stage {
            StartupStage::OpeningReader => ReplyKind::Reader,
            _ => ReplyKind::Io,
        }
    }

    /// Goes on with the creation of the service when the host has answered.
    pub fn resume(self, reply: Reply) -> (step: StartupStep)
        requires
            reply@.kind() == self@.stage.awaited(),
        ensures
            step@ == self@.resume(reply@),
    {
        let mut service = self.service;
        match (self.stage, reply) {
            (StartupStage::CreatingRoot, Reply::Io(result)) => {
                if let Err(e) = result {
                    if e.kind != IoErrorKind::AlreadyExists {
                        return StartupStep::Failed(Error::StdIo(e));
                    }
                }
                // delete the temporary restoration dir if it does exist.
                StartupStep::Do(
                    Action::RemoveDirAll(service.restoration_dir()),
                    Startup { stage: StartupStage::RemovingRestoration, service },
                )
            },
            (StartupStage::RemovingRestoration, Reply::Io(result)) => {
                if let Err(e) = result {
                    if e.kind != IoErrorKind::NotFound {
                        return StartupStep::Failed(Error::StdIo(e));
                    }
                }
                // delete the temporary snapshot dir if it does exist.
                StartupStep::Do(
                    Action::RemoveDirAll(service.temp_snapshot_dir()),
                    Startup { stage: StartupStage::RemovingTemp, service },
                )
            },
            (StartupStage::RemovingTemp, Reply::Io(result)) => {
                if let Err(e) = result {
                    if e.kind != IoErrorKind::NotFound {
                        return StartupStep::Failed(Error::StdIo(e));
                    }
                }
                StartupStep::Do(
                    Action::OpenReader(service.snapshot_dir()),
                    Startup { stage: StartupStage::OpeningReader, service },
                )
            },
            (StartupStage::OpeningReader, Reply::Reader(result)) => {
                service.reader = match result {
                    Ok(manifest) => Some(LooseReader { dir: service.snapshot_dir(), manifest }),
                    Err(_) => None,
                };
                StartupStep::Ready(service)
            },
            _ => {
                assert(false);
                StartupStep::Ready(service)
            },
        }
    }
}

} // verus!
