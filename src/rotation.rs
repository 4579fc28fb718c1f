//! The worker's shard lifecycle: rotation of the active shard through
//! checkpoint, upload and registration, as a step function from the current
//! state and an event to the next state and the action to perform.
//!
//! A rotation registers the active shard, swaps in a fresh one, and then
//! checkpoints and uploads the outgoing shard once more: from the swap on it
//! takes no writes, so that last snapshot holds every log it accepted.
use vstd::prelude::*;
use crate::shard::ShardMetadata;

verus! {

/// Where the worker stands in its lifecycle.
#[derive(PartialEq, Eq, Structural, Debug, Clone, Copy)]
pub enum Phase {
    /// Accepting inserts; no rotation or sync under way.
    Ingesting,
    /// The active shard's write-ahead log is being merged into its main file.
    Checkpointing,
    /// The active shard's main file is being uploaded to the object store.
    Uploading,
    /// The active shard's record is being posted to the coordinator.
    Registering,
    /// A fresh shard is being created to take the active one's place.
    Replacing,
    /// The outgoing shard, which takes no more writes, is being checkpointed.
    Sealing,
    /// The sealed outgoing shard is being uploaded for the last time.
    Flushing,
}

/// What happened since the last step.
#[derive(Debug)]
pub enum RotationEvent {
    /// The rotation timer fired.
    RotateTick,
    /// The faster sync timer fired: upload the active shard without rotating.
    SyncTick,
    /// A log was inserted into the active shard.
    LogAccepted,
    Checkpointed,
    CheckpointFailed,
    Uploaded,
    UploadFailed,
    Registered,
    RegisterFailed,
    /// A fresh shard with this record is ready.
    Created(ShardMetadata),
    CreateFailed,
}

/// What the worker is to do next.
#[derive(Debug)]
pub enum RotationAction {
    Wait,
    /// Checkpoint the active shard's file.
    Checkpoint,
    /// Upload the active shard's file under this key.
    Upload(String),
    /// Post this record to the coordinator.
    Register(ShardMetadata),
    /// Create a fresh shard.
    CreateShard,
    /// The fresh shard with this record is now active; checkpoint the
    /// outgoing shard's file.
    CheckpointOutgoing(ShardMetadata),
    /// Upload the outgoing shard's file under this key.
    UploadOutgoing(String),
    /// This shard is fully uploaded and replaced; its local file may go.
    Retire(ShardMetadata),
    /// This outgoing shard could not be uploaded for the last time; its local
    /// file must be kept.
    Keep(ShardMetadata),
    /// This freshly created shard was refused (its id is the active one's);
    /// its local file may go.
    Discard(ShardMetadata),
}

/// The rotation state as the contracts see it.
pub struct RotationState {
    pub active: ShardMetadata,
    pub phase: Phase,
    /// Whether the cycle under way ends in replacing the active shard.
    pub rotating: bool,
    /// Logs accepted into the active shard.
    pub accepted: u64,
    /// Logs the snapshot of the active shard being uploaded holds.
    pub captured: u64,
    /// The replaced shard still to be flushed, and the logs it accepted.
    pub outgoing: Option<(ShardMetadata, u64)>,
    /// For each registered shard id, how many logs its latest uploaded
    /// snapshot holds.
    pub published: Map<Seq<char>, nat>,
}

/// A replacement begins only once the active shard is registered; an
/// outgoing shard exists exactly while it is being flushed, is registered,
/// and has another id than the active one.
pub open spec fn rotation_wf(s: RotationState) -> bool {
    &&& s.phase == Phase::Replacing ==> s.rotating && s.published.contains_key(s.active.id@)
    &&& (s.phase == Phase::Sealing || s.phase == Phase::Flushing) <==> s.outgoing is Some
    &&& s.outgoing matches Some((o, _)) ==> s.published.contains_key(o.id@) && o.id@ != s.active.id@
}

/// The outgoing shard's record, where there is one.
pub open spec fn outgoing_shard(s: RotationState) -> ShardMetadata {
    match s.outgoing {
        Some((o, _)) => o,
        None => s.active,
    }
}

/// The state after the outgoing shard's flush ended, one way or the other.
pub open spec fn flush_over(s: RotationState) -> RotationState {
    RotationState { phase: Phase::Ingesting, outgoing: None, ..s }
}

/// `s` after `e`.
pub open spec fn next(s: RotationState, e: RotationEvent) -> RotationState {
    match e {
        RotationEvent::RotateTick => if s.phase == Phase::Ingesting {
            RotationState { phase: Phase::Checkpointing, rotating: true, ..s }
        } else {
            s
        },
        RotationEvent::SyncTick => if s.phase == Phase::Ingesting {
            RotationState { phase: Phase::Checkpointing, rotating: false, ..s }
        } else {
            s
        },
        RotationEvent::LogAccepted => RotationState {
            accepted: if s.accepted < u64::MAX { (s.accepted + 1) as u64 } else { s.accepted },
            ..s
        },
        RotationEvent::Checkpointed => if s.phase == Phase::Checkpointing {
            RotationState { phase: Phase::Uploading, captured: s.accepted, ..s }
        } else if s.phase == Phase::Sealing {
            RotationState { phase: Phase::Flushing, ..s }
        } else {
            s
        },
        RotationEvent::Uploaded => if s.phase == Phase::Uploading {
            RotationState { phase: Phase::Registering, ..s }
        } else if s.phase == Phase::Flushing {
            match s.outgoing {
                Some((o, n)) => RotationState {
                    published: s.published.insert(o.id@, n as nat),
                    ..flush_over(s)
                },
                None => s,
            }
        } else {
            s
        },
        RotationEvent::Registered => if s.phase == Phase::Registering {
            RotationState {
                phase: if s.rotating { Phase::Replacing } else { Phase::Ingesting },
                published: s.published.insert(s.active.id@, s.captured as nat),
                ..s
            }
        } else {
            s
        },
        RotationEvent::Created(m) => if s.phase == Phase::Replacing {
            if m.id@ != s.active.id@ {
                RotationState {
                    active: m,
                    phase: Phase::Sealing,
                    rotating: false,
                    accepted: 0,
                    captured: 0,
                    outgoing: Some((s.active, s.accepted)),
                    ..s
                }
            } else {
                RotationState { phase: Phase::Ingesting, rotating: false, ..s }
            }
        } else {
            s
        },
        RotationEvent::CheckpointFailed => if s.phase == Phase::Checkpointing {
            RotationState { phase: Phase::Ingesting, ..s }
        } else if s.phase == Phase::Sealing {
            flush_over(s)
        } else {
            s
        },
        RotationEvent::UploadFailed => if s.phase == Phase::Uploading {
            RotationState { phase: Phase::Ingesting, ..s }
        } else if s.phase == Phase::Flushing {
            flush_over(s)
        } else {
            s
        },
        RotationEvent::RegisterFailed => if s.phase == Phase::Registering {
            RotationState { phase: Phase::Ingesting, ..s }
        } else {
            s
        },
        RotationEvent::CreateFailed => if s.phase == Phase::Replacing {
            RotationState { phase: Phase::Ingesting, rotating: false, ..s }
        } else {
            s
        },
    }
}

/// The action that `e` calls for in `s`.
pub open spec fn action_for(s: RotationState, e: RotationEvent) -> RotationAction {
    match e {
        RotationEvent::RotateTick | RotationEvent::SyncTick => if s.phase == Phase::Ingesting {
            RotationAction::Checkpoint
        } else {
            RotationAction::Wait
        },
        RotationEvent::Checkpointed => if s.phase == Phase::Checkpointing {
            RotationAction::Upload(s.active.storage_key)
        } else if s.phase == Phase::Sealing && s.outgoing is Some {
            RotationAction::UploadOutgoing(outgoing_shard(s).storage_key)
        } else {
            RotationAction::Wait
        },
        RotationEvent::Uploaded => if s.phase == Phase::Uploading {
            RotationAction::Register(s.active)
        } else if s.phase == Phase::Flushing && s.outgoing is Some {
            RotationAction::Retire(outgoing_shard(s))
        } else {
            RotationAction::Wait
        },
        RotationEvent::Registered => if s.phase == Phase::Registering && s.rotating {
            RotationAction::CreateShard
        } else {
            RotationAction::Wait
        },
        RotationEvent::Created(m) => if s.phase == Phase::Replacing {
            if m.id@ != s.active.id@ {
                RotationAction::CheckpointOutgoing(m)
            } else {
                RotationAction::Discard(m)
            }
        } else {
            RotationAction::Discard(m)
        },
        RotationEvent::CheckpointFailed => if s.phase == Phase::Sealing && s.outgoing is Some {
            RotationAction::Keep(outgoing_shard(s))
        } else {
            RotationAction::Wait
        },
        RotationEvent::UploadFailed => if s.phase == Phase::Flushing && s.outgoing is Some {
            RotationAction::Keep(outgoing_shard(s))
        } else {
            RotationAction::Wait
        },
        _ => RotationAction::Wait,
    }
}

/// The worker's active shard and where it stands in its lifecycle.
pub struct ShardRotation {
    active: ShardMetadata,
    phase: Phase,
    rotating: bool,
    accepted: u64,
    captured: u64,
    outgoing: Option<(ShardMetadata, u64)>,
    published: Ghost<Map<Seq<char>, nat>>,
}

impl View for ShardRotation {
    type V = RotationState;

    closed spec fn view(&self) -> RotationState {
        RotationState {
            active: self.active,
            phase: self.phase,
            rotating: self.rotating,
            accepted: self.accepted,
            captured: self.captured,
            outgoing: self.outgoing,
            published: self.published@,
        }
    }
}

impl ShardRotation {
    pub open spec fn wf(&self) -> bool {
        rotation_wf(self@)
    }

    /// A worker whose freshly created shard `first` is active.
    pub fn new(first: ShardMetadata) -> (r: ShardRotation)
        ensures
            r@.active == first,
            r@.phase == Phase::Ingesting,
            !r@.rotating,
            r@.accepted == 0,
            r@.captured == 0,
            r@.outgoing is None,
            r@.published == Map::<Seq<char>, nat>::empty(),
            r.wf(),
    {
        ShardRotation {
            active: first,
            phase: Phase::Ingesting,
            rotating: false,
            accepted: 0,
            captured: 0,
            outgoing: None,
            published: Ghost(Map::empty()),
        }
    }

    /// The active shard.
    pub fn active(&self) -> (r: &ShardMetadata)
        ensures
            *r == self@.active,
    {
        &self.active
    }

    /// The lifecycle phase.
    pub fn phase(&self) -> (r: Phase)
        ensures
            r == self@.phase,
    {
        self.phase
    }

    /// Logs accepted into the active shard.
    pub fn accepted(&self) -> (r: u64)
        ensures
            r == self@.accepted,
    {
        self.accepted
    }

    fn end_flush(&mut self) -> (a: RotationAction)
        requires
            old(self).outgoing is Some,
        ensures
            final(self)@ == flush_over(old(self)@),
            a == RotationAction::Keep(outgoing_shard(old(self)@)),
    {
        let o = self.outgoing.take();
        self.phase = Phase::Ingesting;
        match o {
            Some((m, _)) => RotationAction::Keep(m),
            None => RotationAction::Wait,
        }
    }

    /// Advances the lifecycle by `e` and returns the action it calls for.
    pub fn step(&mut self, e: RotationEvent) -> (a: RotationAction)
        requires
            old(self).wf(),
        ensures
            final(self).wf(),
            final(self)@ == next(old(self)@, e),
            a == action_for(old(self)@, e),
    {
        let ghost e0 = e;
        proof {
            lemma_rotation_atomic(self@, e0);
        }
        match e {
            RotationEvent::RotateTick | RotationEvent::SyncTick => {
                if self.phase == Phase::Ingesting {
                    self.phase = Phase::Checkpointing;
                    self.rotating = matches!(e, RotationEvent::RotateTick);
                    RotationAction::Checkpoint
                } else {
                    RotationAction::Wait
                }
            },
            RotationEvent::LogAccepted => {
                if self.accepted < u64::MAX {
                    self.accepted = self.accepted + 1;
                }
                RotationAction::Wait
            },
            RotationEvent::Checkpointed => {
                if self.phase == Phase::Checkpointing {
                    self.phase = Phase::Uploading;
                    self.captured = self.accepted;
                    RotationAction::Upload(self.active.storage_key.clone())
                } else if self.phase == Phase::Sealing {
                    self.phase = Phase::Flushing;
                    match &self.outgoing {
                        Some((o, _)) => RotationAction::UploadOutgoing(o.storage_key.clone()),
                        None => RotationAction::Wait,
                    }
                } else {
                    RotationAction::Wait
                }
            },
            RotationEvent::Uploaded => {
                if self.phase == Phase::Uploading {
                    self.phase = Phase::Registering;
                    RotationAction::Register(self.active.clone())
                } else if self.phase == Phase::Flushing {
                    match self.outgoing.take() {
                        Some((o, n)) => {
                            self.published = Ghost(self.published@.insert(o.id@, n as nat));
                            self.phase = Phase::Ingesting;
                            RotationAction::Retire(o)
                        },
                        None => RotationAction::Wait,
                    }
                } else {
                    RotationAction::Wait
                }
            },
            RotationEvent::Registered => {
                if self.phase == Phase::Registering {
                    self.published = Ghost(self.published@.insert(self.active.id@, self.captured as nat));
                    if self.rotating {
                        self.phase = Phase::Replacing;
                        RotationAction::CreateShard
                    } else {
                        self.phase = Phase::Ingesting;
                        RotationAction::Wait
                    }
                } else {
                    RotationAction::Wait
                }
            },
            RotationEvent::Created(m) => {
                if self.phase == Phase::Replacing {
                    if !crate::target::same_text(m.id.as_str(), self.active.id.as_str()) {
                        let fresh = m.clone();
                        let old_shard = self.active.clone();
                        self.outgoing = Some((old_shard, self.accepted));
                        self.active = m;
                        self.phase = Phase::Sealing;
                        self.rotating = false;
                        self.accepted = 0;
                        self.captured = 0;
                        RotationAction::CheckpointOutgoing(fresh)
                    } else {
                        self.phase = Phase::Ingesting;
                        self.rotating = false;
                        RotationAction::Discard(m)
                    }
                } else {
                    RotationAction::Discard(m)
                }
            },
            RotationEvent::CheckpointFailed => {
                if self.phase == Phase::Checkpointing {
                    self.phase = Phase::Ingesting;
                    RotationAction::Wait
                } else if self.phase == Phase::Sealing {
                    self.end_flush()
                } else {
                    RotationAction::Wait
                }
            },
            RotationEvent::UploadFailed => {
                if self.phase == Phase::Uploading {
                    self.phase = Phase::Ingesting;
                    RotationAction::Wait
                } else if self.phase == Phase::Flushing {
                    self.end_flush()
                } else {
                    RotationAction::Wait
                }
            },
            RotationEvent::RegisterFailed => {
                if self.phase == Phase::Registering {
                    self.phase = Phase::Ingesting;
                }
                RotationAction::Wait
            },
            RotationEvent::CreateFailed => {
                if self.phase == Phase::Replacing {
                    self.phase = Phase::Ingesting;
                    self.rotating = false;
                }
                RotationAction::Wait
            },
        }
    }
}

/// `s` after `k` accepted logs.
pub open spec fn after_logs(s: RotationState, k: nat) -> RotationState
    decreases k,
{
    if k == 0 {
        s
    } else {
        next(after_logs(s, (k - 1) as nat), RotationEvent::LogAccepted)
    }
}

proof fn lemma_logs_keep_cycle(s: RotationState, k: nat)
    ensures
        after_logs(s, k).phase == s.phase,
        after_logs(s, k).active == s.active,
        after_logs(s, k).rotating == s.rotating,
        after_logs(s, k).captured == s.captured,
        after_logs(s, k).outgoing == s.outgoing,
        after_logs(s, k).published == s.published,
        after_logs(s, k).accepted >= s.accepted,
    decreases k,
{
    if k > 0 {
        lemma_logs_keep_cycle(s, (k - 1) as nat);
    }
}

/// Rotation is atomic: at every step the worker has exactly one active shard
/// and the lifecycle stays well formed. The active shard is replaced only by
/// a fresh shard with another id, once the old one's registration completed,
/// so the old one stays queryable through the catalog; the fresh shard takes
/// writes from its first log on, and the old one is carried along as the
/// outgoing shard with every log it accepted.
pub proof fn lemma_rotation_atomic(s: RotationState, e: RotationEvent)
    requires
        rotation_wf(s),
    ensures
        rotation_wf(next(s, e)),
        next(s, e).active != s.active ==> {
            &&& e matches RotationEvent::Created(m) && next(s, e).active == m
            &&& next(s, e).active.id@ != s.active.id@
            &&& s.phase == Phase::Replacing
            &&& next(s, e).published.contains_key(s.active.id@)
            &&& next(s, e).accepted == 0
            &&& next(s, e).outgoing == Some((s.active, s.accepted))
        },
        forall|id: Seq<char>| s.published.contains_key(id) ==> next(s, e).published.contains_key(id),
{
}

/// Post-rotation visibility: once a cycle that checkpointed the active shard
/// has uploaded and registered it, the registered snapshot holds every log
/// accepted before the upload began, however many more arrived meanwhile.
pub proof fn lemma_registered_snapshot_holds_prior_logs(s: RotationState, during: nat)
    requires
        s.phase == Phase::Checkpointing,
    ensures
        ({
            let uploading = after_logs(next(s, RotationEvent::Checkpointed), during);
            let registered = next(next(uploading, RotationEvent::Uploaded), RotationEvent::Registered);
            &&& registered.published.contains_key(s.active.id@)
            &&& registered.published[s.active.id@] == s.accepted as nat
            &&& registered.active == s.active
        }),
{
    lemma_logs_keep_cycle(next(s, RotationEvent::Checkpointed), during);
}

/// No write is lost to a rotation: once the swap is done, however many logs
/// the fresh shard takes meanwhile, sealing and flushing the outgoing shard
/// publishes a snapshot holding every log it ever accepted, and only then is
/// it retired.
pub proof fn lemma_retired_shard_holds_every_log(s: RotationState, m: ShardMetadata, during: nat)
    requires
        rotation_wf(s),
        s.phase == Phase::Replacing,
        m.id@ != s.active.id@,
    ensures
        ({
            let swapped = next(s, RotationEvent::Created(m));
            let sealed = next(after_logs(swapped, during), RotationEvent::Checkpointed);
            let flushed = next(sealed, RotationEvent::Uploaded);
            &&& swapped.active == m
            &&& flushed.published.contains_key(s.active.id@)
            &&& flushed.published[s.active.id@] == s.accepted as nat
            &&& action_for(sealed, RotationEvent::Uploaded) == RotationAction::Retire(s.active)
            &&& flushed.phase == Phase::Ingesting
            &&& flushed.active == m
        }),
{
    let swapped = next(s, RotationEvent::Created(m));
    lemma_logs_keep_cycle(swapped, during);
}

} // verus!
