//! Global discovery: the handshake that waits for the compositor to
//! advertise the two capabilities the bridge needs.
//!
//! The compositor announces its capabilities ("globals") as a stream of
//! events whose order the bridge does not control. Discovery is a small
//! state machine: it starts in [`DiscoveryState::AwaitingGlobals`], reacts
//! to each session event with [`DiscoveryState::step`], and reaches
//! [`DiscoveryState::Ready`] exactly when both the surface factory and the
//! idle-inhibit manager have been seen, in whatever order and however many
//! unrelated globals arrive in between. The caller owns the connection:
//! `step` tells it, through [`BindAction`], which global to bind.

use vstd::prelude::*;

verus! {

/// Interface name under which the compositor advertises the surface
/// factory (the capability that creates surfaces).
pub open spec fn surface_factory_interface() -> Seq<char> {
    "wl_compositor"@
}

/// Interface name under which the compositor advertises the idle-inhibit
/// manager (the capability that creates inhibitors).
pub open spec fn inhibit_manager_interface() -> Seq<char> {
    "zwp_idle_inhibit_manager_v1"@
}

/// One incoming event on the compositor session, reduced to the plain
/// values discovery reads: a global advertised, a global removed, or an
/// event on some already-bound object (ignored by discovery).
pub enum SessionEvent {
    GlobalAdvertised { name: u32, interface: String, version: u32 },
    GlobalRemoved { name: u32 },
    ObjectEvent,
}

/// What the connection owner must do in response to one step: bind the
/// advertised global as the surface factory (and create the one dummy
/// surface from it), bind it as the idle-inhibit manager, or nothing.
#[derive(Debug, PartialEq)]
pub enum BindAction {
    BindSurfaceFactory { name: u32, version: u32 },
    BindInhibitManager { name: u32, version: u32 },
    NoAction,
}

/// The discovery state: still waiting (with one flag per required
/// capability), or both capabilities bound.
#[derive(Debug, PartialEq)]
pub enum DiscoveryState {
    AwaitingGlobals { have_surface_factory: bool, have_inhibit_manager: bool },
    Ready,
}

impl SessionEvent {
    /// Whether this event advertises the surface factory.
    pub open spec fn advertises_surface_factory(self) -> bool {
        match self {
            SessionEvent::GlobalAdvertised { interface, .. } =>
                interface@ == surface_factory_interface(),
            _ => false,
        }
    }

    /// Whether this event advertises the idle-inhibit manager.
    pub open spec fn advertises_inhibit_manager(self) -> bool {
        match self {
            SessionEvent::GlobalAdvertised { interface, .. } =>
                interface@ == inhibit_manager_interface(),
            _ => false,
        }
    }
}

/// The two required interface names are distinct, so no single
/// advertisement can stand for both capabilities.
pub proof fn lemma_interfaces_distinct()
    ensures
        surface_factory_interface() != inhibit_manager_interface(),
{
    reveal_strlit("wl_compositor");
    reveal_strlit("zwp_idle_inhibit_manager_v1");
    assert(surface_factory_interface().len() == 13);
    assert(inhibit_manager_interface().len() == 27);
}

impl DiscoveryState {
    /// The state in which discovery starts: neither capability seen.
    pub open spec fn spec_initial() -> DiscoveryState {
        DiscoveryState::AwaitingGlobals {
            have_surface_factory: false,
            have_inhibit_manager: false,
        }
    }

    /// The state in which discovery starts: neither capability seen.
    pub fn initial() -> (s: DiscoveryState)
        ensures
            s == DiscoveryState::spec_initial(),
    {
        DiscoveryState::AwaitingGlobals {
            have_surface_factory: false,
            have_inhibit_manager: false,
        }
    }

    /// Whether the surface factory has been seen in this state.
    pub open spec fn saw_surface_factory(self) -> bool {
        match self {
            DiscoveryState::AwaitingGlobals { have_surface_factory, .. } =>
                have_surface_factory,
            DiscoveryState::Ready => true,
        }
    }

    /// Whether the idle-inhibit manager has been seen in this state.
    pub open spec fn saw_inhibit_manager(self) -> bool {
        match self {
            DiscoveryState::AwaitingGlobals { have_inhibit_manager, .. } =>
                have_inhibit_manager,
            DiscoveryState::Ready => true,
        }
    }

    /// A discovery state is well formed when "both capabilities seen" is
    /// represented only by `Ready`, never by two raised flags.
    pub open spec fn wf(self) -> bool {
        self is Ready || !(self.saw_surface_factory() && self.saw_inhibit_manager())
    }

    /// The state after one event: a matching advertisement raises its
    /// flag, and the state becomes `Ready` as soon as both are raised.
    /// `Ready` absorbs every further event.
    pub open spec fn spec_step_state(self, event: SessionEvent) -> DiscoveryState {
        match self {
            DiscoveryState::Ready => DiscoveryState::Ready,
            DiscoveryState::AwaitingGlobals { have_surface_factory, have_inhibit_manager } => {
                let sf = have_surface_factory || event.advertises_surface_factory();
                let im = have_inhibit_manager || event.advertises_inhibit_manager();
                if sf && im {
                    DiscoveryState::Ready
                } else {
                    DiscoveryState::AwaitingGlobals {
                        have_surface_factory: sf,
                        have_inhibit_manager: im,
                    }
                }
            },
        }
    }

    /// The action one event demands: bind every advertisement of a
    /// required capability (a repeated advertisement is bound again, and
    /// the newer binding wins), do nothing for anything else or once
    /// `Ready`.
    pub open spec fn spec_step_action(self, event: SessionEvent) -> BindAction {
        match self {
            DiscoveryState::Ready => BindAction::NoAction,
            DiscoveryState::AwaitingGlobals { .. } => match event {
                SessionEvent::GlobalAdvertised { name, interface, version } => {
                    if interface@ == surface_factory_interface() {
                        BindAction::BindSurfaceFactory { name, version }
                    } else if interface@ == inhibit_manager_interface() {
                        BindAction::BindInhibitManager { name, version }
                    } else {
                        BindAction::NoAction
                    }
                },
                _ => BindAction::NoAction,
            },
        }
    }

    /// The state after a whole sequence of session events, applied in
    /// order from `self`.
    pub open spec fn run(self, events: Seq<SessionEvent>) -> DiscoveryState
        decreases events.len(),
    {
        if events.len() == 0 {
            self
        } else {
            self.spec_step_state(events[0]).run(events.drop_first())
        }
    }

    /// Whether discovery has completed.
    pub fn is_ready(&self) -> (r: bool)
        ensures
            r == (*self is Ready),
    {
        match self {
            DiscoveryState::Ready => true,
            DiscoveryState::AwaitingGlobals { .. } => false,
        }
    }

    /// Advance discovery by one session event. Returns the next state and
    /// the bind request, if any, that the connection owner must issue.
    pub fn step(self, event: &SessionEvent) -> (r: (DiscoveryState, BindAction))
        ensures
            r.0 == self.spec_step_state(*event),
            r.1 == self.spec_step_action(*event),
            self.wf() ==> r.0.wf(),
    {
        match self {
            DiscoveryState::Ready => (DiscoveryState::Ready, BindAction::NoAction),
            DiscoveryState::AwaitingGlobals { have_surface_factory, have_inhibit_manager } => {
                match event {
                    SessionEvent::GlobalAdvertised { name, interface, version } => {
                        proof {
                            lemma_interfaces_distinct();
                        }
                        let sf_name: String = "wl_compositor".to_owned();
                        let im_name: String = "zwp_idle_inhibit_manager_v1".to_owned();
                        let is_sf: bool = *interface == sf_name;
                        let is_im: bool = *interface == im_name;
                        let sf = have_surface_factory || is_sf;
                        let im = have_inhibit_manager || is_im;
                        let action = if is_sf {
                            BindAction::BindSurfaceFactory { name: *name, version: *version }
                        } else if is_im {
                            BindAction::BindInhibitManager { name: *name, version: *version }
                        } else {
                            BindAction::NoAction
                        };
                        let next = if sf && im {
                            DiscoveryState::Ready
                        } else {
                            DiscoveryState::AwaitingGlobals {
                                have_surface_factory: sf,
                                have_inhibit_manager: im,
                            }
                        };
                        (next, action)
                    },
                    _ => {
                        if have_surface_factory && have_inhibit_manager {
                            (DiscoveryState::Ready, BindAction::NoAction)
                        } else {
                            (
                                DiscoveryState::AwaitingGlobals {
                                    have_surface_factory,
                                    have_inhibit_manager,
                                },
                                BindAction::NoAction,
                            )
                        }
                    },
                }
            },
        }
    }
}

/// Whether some event in the sequence advertises the surface factory.
pub open spec fn contains_surface_factory_advert(events: Seq<SessionEvent>) -> bool {
    exists|i: int| 0 <= i < events.len() && events[i].advertises_surface_factory()
}

/// Whether some event in the sequence advertises the idle-inhibit manager.
pub open spec fn contains_inhibit_manager_advert(events: Seq<SessionEvent>) -> bool {
    exists|i: int| 0 <= i < events.len() && events[i].advertises_inhibit_manager()
}

proof fn lemma_run_ready(s: DiscoveryState, events: Seq<SessionEvent>)
    requires
        s.wf(),
        s.saw_surface_factory() || contains_surface_factory_advert(events),
        s.saw_inhibit_manager() || contains_inhibit_manager_advert(events),
    ensures
        s.run(events) is Ready,
    decreases events.len(),
{
    if events.len() == 0 {
    } else {
        let e = events[0];
        let rest = events.drop_first();
        let s2 = s.spec_step_state(e);
        if !(s2.saw_surface_factory()) || !contains_surface_factory_advert(rest) {
            if !s.saw_surface_factory() && !e.advertises_surface_factory() {
                let i = choose|i: int| 0 <= i < events.len()
                    && events[i].advertises_surface_factory();
                assert(rest[i - 1] == events[i]);
            }
        }
        if !(s2.saw_inhibit_manager()) || !contains_inhibit_manager_advert(rest) {
            if !s.saw_inhibit_manager() && !e.advertises_inhibit_manager() {
                let i = choose|i: int| 0 <= i < events.len()
                    && events[i].advertises_inhibit_manager();
                assert(rest[i - 1] == events[i]);
            }
        }
        lemma_run_ready(s2, rest);
    }
}

/// Discovery completes from the initial state whenever the event stream
/// advertises both required capabilities, in whatever order and with any
/// number of unrelated events around and between them.
pub proof fn lemma_discovery_completes(events: Seq<SessionEvent>)
    requires
        contains_surface_factory_advert(events),
        contains_inhibit_manager_advert(events),
    ensures
        DiscoveryState::spec_initial().run(events) is Ready,
{
    lemma_run_ready(DiscoveryState::spec_initial(), events);
}

proof fn lemma_run_missing_one(s: DiscoveryState, events: Seq<SessionEvent>)
    requires
        !s.saw_surface_factory() && !contains_surface_factory_advert(events)
            || !s.saw_inhibit_manager() && !contains_inhibit_manager_advert(events),
    ensures
        !(s.run(events) is Ready),
    decreases events.len(),
{
    if events.len() == 0 {
    } else {
        let e = events[0];
        let rest = events.drop_first();
        let s2 = s.spec_step_state(e);
        if !s.saw_surface_factory() && !contains_surface_factory_advert(events) {
            assert(!e.advertises_surface_factory());
            assert(!contains_surface_factory_advert(rest)) by {
                if contains_surface_factory_advert(rest) {
                    let j = choose|j: int| 0 <= j < rest.len()
                        && rest[j].advertises_surface_factory();
                    assert(events[j + 1] == rest[j]);
                    assert(contains_surface_factory_advert(events));
                }
            }
            assert(!s2.saw_surface_factory());
        } else {
            assert(!e.advertises_inhibit_manager());
            assert(!contains_inhibit_manager_advert(rest)) by {
                if contains_inhibit_manager_advert(rest) {
                    let j = choose|j: int| 0 <= j < rest.len()
                        && rest[j].advertises_inhibit_manager();
                    assert(events[j + 1] == rest[j]);
                    assert(contains_inhibit_manager_advert(events));
                }
            }
            assert(!s2.saw_inhibit_manager());
        }
        lemma_run_missing_one(s2, rest);
    }
}

/// If one of the two required capabilities is never advertised, discovery
/// never completes: after every prefix of the event stream the state is
/// still not `Ready`.
pub proof fn lemma_one_global_missing_never_ready(events: Seq<SessionEvent>)
    requires
        !contains_surface_factory_advert(events) || !contains_inhibit_manager_advert(events),
    ensures
        forall|n: int| 0 <= n <= events.len()
            ==> !(#[trigger] DiscoveryState::spec_initial().run(events.take(n)) is Ready),
{
    assert forall|n: int| 0 <= n <= events.len()
        implies !(#[trigger] DiscoveryState::spec_initial().run(events.take(n)) is Ready) by {
        let p = events.take(n);
        if !contains_surface_factory_advert(events) {
            assert(!contains_surface_factory_advert(p)) by {
                if contains_surface_factory_advert(p) {
                    let j = choose|j: int| 0 <= j < p.len()
                        && p[j].advertises_surface_factory();
                    assert(events[j] == p[j]);
                    assert(contains_surface_factory_advert(events));
                }
            }
            lemma_run_missing_one(DiscoveryState::spec_initial(), p);
        } else {
            assert(!contains_inhibit_manager_advert(p)) by {
                if contains_inhibit_manager_advert(p) {
                    let j = choose|j: int| 0 <= j < p.len()
                        && p[j].advertises_inhibit_manager();
                    assert(events[j] == p[j]);
                    assert(contains_inhibit_manager_advert(events));
                }
            }
            lemma_run_missing_one(DiscoveryState::spec_initial(), p);
        }
    }
}

} // verus!
