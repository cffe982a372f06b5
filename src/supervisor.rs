//! The toy management supervisor: which dispatchers run, decided one event at a time.
//! The caller performs the returned actions (spawning and aborting tasks, publishing on the
//! broadcast channel) and keeps the toys' data.
use vstd::prelude::*;

verus! {

/// Control signals of the supervisor.
#[derive(Clone, Copy, Debug, PartialEq, Eq, Structural)]
pub enum TmSig {
    StartListening,
    StopListening,
    TMHReset,
}

/// Changes to the set of online toys, by toy id.
#[derive(Clone, Copy, Debug, PartialEq, Eq, Structural)]
pub enum ToyUpdate {
    AddToy(u32),
    RemoveToy(u32),
    AlterToy(u32),
}

/// One input of the supervisor.
#[derive(Clone, Copy, Debug, PartialEq, Eq, Structural)]
pub enum ToyManagementEvent {
    Tu(ToyUpdate),
    Sig(TmSig),
}

/// One thing the caller must do for the supervisor.
#[derive(Clone, Copy, Debug, PartialEq, Eq, Structural)]
pub enum SupervisorAction {
    /// Start the dispatcher of a toy, subscribed to the broadcast channel.
    SpawnDispatcher(u32),
    /// Abort the dispatcher of a toy and wait for it to finish.
    AbortDispatcher(u32),
    /// Publish the toy's new feature table on the broadcast channel.
    BroadcastUpdate(u32),
    /// Open the broadcast channel and start the OSC listener feeding it.
    StartOscListener,
    /// Drop the broadcast channel, which ends the OSC listener.
    CloseBroadcast,
}

/// The supervisor's state: whether it listens, the online toys, and the toys whose
/// dispatcher runs.
pub ghost struct ManagerView {
    pub listening: bool,
    pub online: Set<u32>,
    pub running: Set<u32>,
}

impl ManagerView {
    /// Exactly the online toys have a dispatcher while listening, and none otherwise.
    pub open spec fn wf(self) -> bool {
        &&& self.online.finite()
        &&& if self.listening { self.running == self.online } else { self.running == Set::<u32>::empty() }
    }
}

/// `acts` holds one spawn (or, with `abort`, one abort) per id of `ids`, and nothing else.
pub open spec fn one_per_id(acts: Seq<SupervisorAction>, ids: Set<u32>, abort: bool) -> bool {
    &&& acts.len() == ids.len()
    &&& acts.no_duplicates()
    &&& forall|k: int| 0 <= k < acts.len() ==> match #[trigger] acts[k] {
        SupervisorAction::SpawnDispatcher(id) => !abort && ids.contains(id),
        SupervisorAction::AbortDispatcher(id) => abort && ids.contains(id),
        _ => false,
    }
    &&& forall|id: u32| #[trigger] ids.contains(id) ==> acts.contains(
        if abort { SupervisorAction::AbortDispatcher(id) } else { SupervisorAction::SpawnDispatcher(id) },
    )
}

/// The supervisor's next state after an event, and what the caller must do, as a relation:
/// the order of spawns and aborts over several toys is left open.
pub open spec fn manager_step(m: ManagerView, e: ToyManagementEvent, m2: ManagerView, acts: Seq<SupervisorAction>) -> bool {
    match e {
        ToyManagementEvent::Tu(ToyUpdate::AddToy(id)) => {
            &&& m2 == ManagerView { online: m.online.insert(id), running: if m.listening { m.running.insert(id) } else { m.running }, ..m }
            &&& acts == if !m.listening {
                Seq::<SupervisorAction>::empty()
            } else if m.running.contains(id) {
                seq![SupervisorAction::AbortDispatcher(id), SupervisorAction::SpawnDispatcher(id)]
            } else {
                seq![SupervisorAction::SpawnDispatcher(id)]
            }
        },
        ToyManagementEvent::Tu(ToyUpdate::RemoveToy(id)) => {
            &&& m2 == ManagerView { online: m.online.remove(id), running: m.running.remove(id), ..m }
            &&& acts == if m.running.contains(id) {
                seq![SupervisorAction::AbortDispatcher(id)]
            } else {
                Seq::<SupervisorAction>::empty()
            }
        },
        ToyManagementEvent::Tu(ToyUpdate::AlterToy(id)) => {
            &&& m2 == ManagerView { online: m.online.insert(id), running: if m.listening { m.running.insert(id) } else { m.running }, ..m }
            &&& acts == if !m.listening {
                Seq::<SupervisorAction>::empty()
            } else if m.running.contains(id) {
                seq![SupervisorAction::BroadcastUpdate(id)]
            } else {
                seq![SupervisorAction::SpawnDispatcher(id), SupervisorAction::BroadcastUpdate(id)]
            }
        },
        ToyManagementEvent::Sig(TmSig::StartListening) => if m.listening {
            m2 == m && acts == Seq::<SupervisorAction>::empty()
        } else {
            &&& m2 == ManagerView { listening: true, running: m.online, ..m }
            &&& acts.len() >= 1
            &&& acts.last() == SupervisorAction::StartOscListener
            &&& one_per_id(acts.drop_last(), m.online, false)
        },
        ToyManagementEvent::Sig(_) => if !m.listening {
            m2 == m && acts == Seq::<SupervisorAction>::empty()
        } else {
            &&& m2 == ManagerView { listening: false, running: Set::empty(), ..m }
            &&& acts.len() >= 1
            &&& acts.last() == SupervisorAction::CloseBroadcast
            &&& one_per_id(acts.drop_last(), m.running, true)
        },
    }
}

/// Ids of the online toys, each once.
pub struct ToyManager {
    listening: bool,
    online_toys: Vec<u32>,
}

impl View for ToyManager {
    type V = ManagerView;

    closed spec fn view(&self) -> ManagerView {
        ManagerView {
            listening: self.listening,
            online: self.online_toys@.to_set(),
            running: if self.listening { self.online_toys@.to_set() } else { Set::empty() },
        }
    }
}

impl ToyManager {
    /// Each online toy is listed once.
    pub closed spec fn inv(&self) -> bool {
        self.online_toys@.no_duplicates()
    }

    /// A supervisor that is not listening and knows no toy.
    pub fn new() -> (r: Self)
        ensures
            r@ == (ManagerView { listening: false, online: Set::empty(), running: Set::empty() }),
            r@.wf(),
            r.inv(),
    {
        let r = ToyManager { listening: false, online_toys: Vec::new() };
        assert(r.online_toys@.to_set() =~= Set::<u32>::empty());
        r
    }

    /// Whether the supervisor is listening.
    pub fn is_listening(&self) -> (r: bool)
        ensures
            r == self@.listening,
    {
        self.listening
    }

    /// Whether a toy is online.
    pub fn is_online(&self, id: u32) -> (r: bool)
        ensures
            r == self@.online.contains(id),
    {
        let mut i: usize = 0;
        while i < self.online_toys.len()
            invariant
                i <= self.online_toys.len(),
                forall|k: int| 0 <= k < i ==> self.online_toys@[k] != id,
            decreases self.online_toys.len() - i,
        {
            if self.online_toys[i] == id {
                assert(self.online_toys@.to_set().contains(id)) by {
                    assert(self.online_toys@.contains(id));
                }
                return true;
            }
            i = i + 1;
        }
        assert(!self.online_toys@.to_set().contains(id)) by {
            assert(!self.online_toys@.contains(id));
        }
        false
    }

    /// Number of online toys.
    pub fn online_count(&self) -> (r: usize)
        requires
            self.inv(),
        ensures
            r == self@.online.len(),
    {
        proof {
            self.online_toys@.unique_seq_to_set();
        }
        self.online_toys.len()
    }
}

/// One spawn (or, with `abort`, one abort) per id of `ids`, in order.
fn actions_for(ids: &Vec<u32>, abort: bool) -> (r: Vec<SupervisorAction>)
    requires
        ids@.no_duplicates(),
    ensures
        one_per_id(r@, ids@.to_set(), abort),
{
    let mut acts: Vec<SupervisorAction> = Vec::new();
    let mut i: usize = 0;
    while i < ids.len()
        invariant
            i <= ids.len(),
            ids@.no_duplicates(),
            acts@.len() == i,
            forall|k: int| 0 <= k < i ==> #[trigger] acts@[k] == if abort {
                SupervisorAction::AbortDispatcher(ids@[k])
            } else {
                SupervisorAction::SpawnDispatcher(ids@[k])
            },
        decreases ids.len() - i,
    {
        let a = if abort { SupervisorAction::AbortDispatcher(ids[i]) } else { SupervisorAction::SpawnDispatcher(ids[i]) };
        acts.push(a);
        i = i + 1;
    }
    proof {
        let set = ids@.to_set();
        ids@.unique_seq_to_set();
        assert forall|k: int, l: int| 0 <= k < acts@.len() && 0 <= l < acts@.len() && k != l implies acts@[k] != acts@[l] by {
            assert(ids@[k] != ids@[l]);
        }
        assert forall|k: int| 0 <= k < acts@.len() implies match #[trigger] acts@[k] {
            SupervisorAction::SpawnDispatcher(id) => !abort && set.contains(id),
            SupervisorAction::AbortDispatcher(id) => abort && set.contains(id),
            _ => false,
        } by {
            assert(ids@.contains(ids@[k]));
        }
        assert forall|id: u32| #[trigger] set.contains(id) implies acts@.contains(
            if abort { SupervisorAction::AbortDispatcher(id) } else { SupervisorAction::SpawnDispatcher(id) },
        ) by {
            let k = choose|k: int| 0 <= k < ids@.len() && ids@[k] == id;
            assert(acts@[k] == if abort { SupervisorAction::AbortDispatcher(id) } else { SupervisorAction::SpawnDispatcher(id) });
        }
    }
    acts
}

/// Adds `id` to a list without duplicates unless it is there; returns whether it was.
fn insert_id(ids: &mut Vec<u32>, id: u32) -> (r: bool)
    requires
        old(ids)@.no_duplicates(),
    ensures
        final(ids)@.no_duplicates(),
        final(ids)@.to_set() == old(ids)@.to_set().insert(id),
        r == old(ids)@.contains(id),
{
    let mut i: usize = 0;
    while i < ids.len()
        invariant
            i <= ids.len(),
            ids@ == old(ids)@,
            old(ids)@.no_duplicates(),
            forall|k: int| 0 <= k < i ==> ids@[k] != id,
        decreases ids.len() - i,
    {
        if ids[i] == id {
            assert(ids@.contains(id));
            assert(ids@.to_set().insert(id) =~= ids@.to_set());
            return true;
        }
        i = i + 1;
    }
    assert(!ids@.contains(id));
    let ghost start = ids@;
    ids.push(id);
    proof {
        assert(ids@ == start.push(id));
        assert forall|x: u32| ids@.to_set().contains(x) <==> start.to_set().insert(id).contains(x) by {
            if ids@.contains(x) && x != id {
                let k = choose|k: int| 0 <= k < ids@.len() && ids@[k] == x;
                assert(k < ids@.len() - 1);
                assert(start[k] == x);
            }
            if start.contains(x) {
                let k = choose|k: int| 0 <= k < start.len() && start[k] == x;
                assert(ids@[k] == x);
            }
            if x == id {
                assert(ids@[ids@.len() - 1] == id);
            }
        }
        assert(ids@.to_set() =~= start.to_set().insert(id));
        assert forall|k: int, l: int| 0 <= k < l < ids@.len() implies ids@[k] != ids@[l] by {
            if l == ids@.len() - 1 {
                assert(start[k] == ids@[k]);
                assert(start.contains(ids@[k]));
            } else {
                assert(start[k] == ids@[k] && start[l] == ids@[l]);
            }
        }
    }
    false
}

/// Removes `id` from a list without duplicates; returns whether it was there.
fn remove_id(ids: &mut Vec<u32>, id: u32) -> (r: bool)
    requires
        old(ids)@.no_duplicates(),
    ensures
        final(ids)@.no_duplicates(),
        final(ids)@.to_set() == old(ids)@.to_set().remove(id),
        r == old(ids)@.contains(id),
{
    let ghost start = ids@;
    let mut i: usize = 0;
    while i < ids.len()
        invariant
            i <= ids.len(),
            ids@ == start,
            start == old(ids)@,
            start.no_duplicates(),
            forall|k: int| 0 <= k < i ==> ids@[k] != id,
        decreases ids.len() - i,
    {
        if ids[i] == id {
            ids.remove(i);
            proof {
                assert(ids@ =~= start.remove(i as int));
                assert forall|k: int, l: int| 0 <= k < l < ids@.len() implies ids@[k] != ids@[l] by {
                    let k0 = if k < i { k } else { k + 1 };
                    let l0 = if l < i { l } else { l + 1 };
                    assert(ids@[k] == start[k0]);
                    assert(ids@[l] == start[l0]);
                }
                assert(ids@.to_set() =~= start.to_set().remove(id)) by {
                    assert forall|x: u32| ids@.to_set().contains(x) <==> start.to_set().remove(id).contains(x) by {
                        if ids@.contains(x) {
                            let k = choose|k: int| 0 <= k < ids@.len() && ids@[k] == x;
                            let k0 = if k < i { k } else { k + 1 };
                            assert(start[k0] == x);
                            assert(k0 != i as int);
                            assert(start[i as int] == id);
                        }
                        if start.contains(x) && x != id {
                            let k = choose|k: int| 0 <= k < start.len() && start[k] == x;
                            assert(k != i as int);
                            if k < i {
                                assert(ids@[k] == x);
                            } else {
                                assert(ids@[k - 1] == x);
                            }
                        }
                    }
                }
                assert(start.contains(id)) by {
                    assert(start[i as int] == id);
                }
            }
            return true;
        }
        i = i + 1;
    }
    assert(!start.contains(id));
    assert(start.to_set() =~= start.to_set().remove(id));
    false
}

impl ToyManager {
    /// Takes one event: updates the online toys and the listening state, and returns what
    /// the caller must do. Stopping or resetting while listening aborts every dispatcher.
    pub fn handle_event(&mut self, e: ToyManagementEvent) -> (r: Vec<SupervisorAction>)
        requires
            old(self).inv(),
        ensures
            manager_step(old(self)@, e, final(self)@, r@),
            final(self)@.wf(),
            final(self).inv(),
    {
        let ghost m = self@;
        match e {
            ToyManagementEvent::Tu(ToyUpdate::AddToy(id)) => {
                let present = insert_id(&mut self.online_toys, id);
                let mut acts: Vec<SupervisorAction> = Vec::new();
                if self.listening {
                    if present {
                        acts.push(SupervisorAction::AbortDispatcher(id));
                    }
                    acts.push(SupervisorAction::SpawnDispatcher(id));
                }
                proof {
                    if self.listening {
                        if present {
                            assert(acts@ =~= seq![SupervisorAction::AbortDispatcher(id), SupervisorAction::SpawnDispatcher(id)]);
                        } else {
                            assert(acts@ =~= seq![SupervisorAction::SpawnDispatcher(id)]);
                        }
                    }
                    assert(self@.running =~= (if m.listening { m.running.insert(id) } else { m.running }));
                }
                acts
            },
            ToyManagementEvent::Tu(ToyUpdate::RemoveToy(id)) => {
                let was = remove_id(&mut self.online_toys, id);
                let mut acts: Vec<SupervisorAction> = Vec::new();
                if self.listening && was {
                    acts.push(SupervisorAction::AbortDispatcher(id));
                }
                proof {
                    assert(was == m.online.contains(id));
                    if self.listening && was {
                        assert(acts@ =~= seq![SupervisorAction::AbortDispatcher(id)]);
                    }
                    assert(self@.running =~= m.running.remove(id));
                }
                acts
            },
            ToyManagementEvent::Tu(ToyUpdate::AlterToy(id)) => {
                let present = insert_id(&mut self.online_toys, id);
                let mut acts: Vec<SupervisorAction> = Vec::new();
                if self.listening {
                    if !present {
                        acts.push(SupervisorAction::SpawnDispatcher(id));
                    }
                    acts.push(SupervisorAction::BroadcastUpdate(id));
                }
                proof {
                    if self.listening {
                        if present {
                            assert(acts@ =~= seq![SupervisorAction::BroadcastUpdate(id)]);
                        } else {
                            assert(acts@ =~= seq![SupervisorAction::SpawnDispatcher(id), SupervisorAction::BroadcastUpdate(id)]);
                        }
                    }
                    assert(self@.running =~= (if m.listening { m.running.insert(id) } else { m.running }));
                }
                acts
            },
            ToyManagementEvent::Sig(TmSig::StartListening) => {
                if self.listening {
                    return Vec::new();
                }
                let mut acts = actions_for(&self.online_toys, false);
                let ghost spawns = acts@;
                acts.push(SupervisorAction::StartOscListener);
                self.listening = true;
                assert(acts@.drop_last() =~= spawns);
                acts
            },
            ToyManagementEvent::Sig(_) => {
                if !self.listening {
                    return Vec::new();
                }
                let mut acts = actions_for(&self.online_toys, true);
                let ghost aborts = acts@;
                acts.push(SupervisorAction::CloseBroadcast);
                self.listening = false;
                assert(acts@.drop_last() =~= aborts);
                acts
            },
        }
    }
}

/// Stopping or resetting leaves no dispatcher running and the supervisor idle; while it
/// listened, every dispatcher that ran is aborted.
pub proof fn lemma_stop_leaves_no_dispatcher(m: ManagerView, sig: TmSig, m2: ManagerView, acts: Seq<SupervisorAction>)
    requires
        m.wf(),
        sig != TmSig::StartListening,
        manager_step(m, ToyManagementEvent::Sig(sig), m2, acts),
    ensures
        m2.running == Set::<u32>::empty(),
        !m2.listening,
        m2.online == m.online,
        forall|id: u32| #[trigger] m.running.contains(id) ==> acts.contains(SupervisorAction::AbortDispatcher(id)),
{
    if m.listening {
        assert forall|id: u32| #[trigger] m.running.contains(id) implies acts.contains(SupervisorAction::AbortDispatcher(id)) by {
            let a = acts.drop_last();
            assert(a.contains(SupervisorAction::AbortDispatcher(id)));
            let k = choose|k: int| 0 <= k < a.len() && a[k] == SupervisorAction::AbortDispatcher(id);
            assert(acts[k] == a[k]);
        }
    }
}

/// Every event keeps exactly the online toys running while listening, and none otherwise.
pub proof fn lemma_step_keeps_one_dispatcher_per_toy(m: ManagerView, e: ToyManagementEvent, m2: ManagerView, acts: Seq<SupervisorAction>)
    requires
        m.wf(),
        manager_step(m, e, m2, acts),
    ensures
        m2.wf(),
{
    match e {
        ToyManagementEvent::Tu(ToyUpdate::AddToy(id)) => {
            if m.listening {
                assert(m2.running =~= m2.online);
            }
        },
        ToyManagementEvent::Tu(ToyUpdate::AlterToy(id)) => {
            if m.listening {
                assert(m2.running =~= m2.online);
            }
        },
        ToyManagementEvent::Tu(ToyUpdate::RemoveToy(id)) => {
            if m.listening {
                assert(m2.running =~= m2.online);
            } else {
                assert(m2.running =~= Set::<u32>::empty());
            }
        },
        _ => {},
    }
}

} // verus!
