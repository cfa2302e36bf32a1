//! Opening a node: its identity is verified before anything is read or written.
//!
//! Each decision is taken by [`Opening::advance`], from the outcome of the last
//! action to the next one.

use crate::discovery::identity_at;
use crate::error::{io_error, TransportError};
use crate::identity::{identifies, PRODUCT_ID, USB_BUS, VENDOR_ID};
use crate::node::{ascii, is_node_name, node_path, uevent_path, uevent_path_of, DeviceInfo};
use crate::os::OsError;
use crate::session::StartupMode;
use crate::startup::{Action, ActionView, Startup, StartupView, PASSIVE_WINDOW_MILLIS};
use vstd::prelude::*;
use vstd::string::*;

verus! {

/// The identity that the kernel reports for an open descriptor.
#[derive(Debug, Clone, Copy, PartialEq, Eq)]
pub struct RawInfo {
    /// Bus number.
    pub bus: u32,
    /// Vendor ID.
    pub vendor: i16,
    /// Product ID.
    pub product: i16,
}

impl RawInfo {
    /// Whether this is the identity of the supported device.
    pub open spec fn supported(self) -> bool {
        self.bus == USB_BUS && self.vendor == VENDOR_ID && self.product == PRODUCT_ID
    }

    /// Whether this is the identity of the supported device.
    pub fn is_supported(&self) -> (same: bool)
        ensures
            same == self.supported(),
    {
        self.bus == USB_BUS && self.vendor as i32 == VENDOR_ID as i32 && self.product as i32
            == PRODUCT_ID as i32
    }
}

/// Where the opening of a node stands.
#[derive(Debug, Clone, Copy, PartialEq, Eq)]
pub enum OpenPhase {
    /// The identity that sysfs publishes is being read.
    Verifying,
    /// The node is being opened.
    Opening,
    /// The type of the opened file is being determined.
    Inspecting,
    /// The identity of the descriptor is being determined.
    Identifying,
    /// The node is open and verified.
    Ready,
    /// The node was refused.
    Refused,
}

/// What to do next.
#[derive(Debug, PartialEq, Eq)]
pub enum OpenAction {
    /// Read the file that holds the identity.
    ReadIdentity {
        /// Path of the file.
        path: String,
    },
    /// Open the node for reading and writing, without following links or blocking.
    OpenNode {
        /// Path of the node.
        path: String,
    },
    /// Determine whether the opened file is a character device.
    Inspect,
    /// Ask the descriptor for its identity.
    Identify,
    /// Nothing: the node is open and verified.
    Ready(DeviceInfo),
    /// Nothing: the node was refused; close it if it is open.
    Refused(TransportError),
}

/// What came of an action.
#[derive(Debug, PartialEq, Eq)]
pub enum OpenOutcome {
    /// Of reading the identity.
    Identity(Result<String, OsError>),
    /// Of opening the node.
    Opened(Result<(), OsError>),
    /// Whether the opened file is a character device.
    Inspected(Result<bool, OsError>),
    /// Of asking the descriptor.
    Identified(Result<RawInfo, OsError>),
}

/// An action, with its texts as sequences.
#[verifier::ext_equal]
pub enum OpenActionView {
    /// See [`OpenAction::ReadIdentity`].
    ReadIdentity(Seq<char>),
    /// See [`OpenAction::OpenNode`].
    OpenNode(Seq<char>),
    /// See [`OpenAction::Inspect`].
    Inspect,
    /// See [`OpenAction::Identify`].
    Identify,
    /// See [`OpenAction::Ready`].
    Ready(Seq<char>),
    /// Refused with [`TransportError::IdentityMismatch`] of the path.
    Mismatch(Seq<char>),
    /// Refused with [`TransportError::Io`] of the operation on the path.
    Io(Seq<char>, Seq<char>, OsError),
    /// Refused with another error.
    Other(TransportError),
}

impl View for OpenAction {
    type V = OpenActionView;

    open spec fn view(&self) -> OpenActionView {
        match *self {
            OpenAction::ReadIdentity { path } => OpenActionView::ReadIdentity(path@),
            OpenAction::OpenNode { path } => OpenActionView::OpenNode(path@),
            OpenAction::Inspect => OpenActionView::Inspect,
            OpenAction::Identify => OpenActionView::Identify,
            OpenAction::Ready(device) => OpenActionView::Ready(device@),
            OpenAction::Refused(TransportError::IdentityMismatch(path)) => OpenActionView::Mismatch(
                path@,
            ),
            OpenAction::Refused(TransportError::Io { operation, path, source }) =>
                OpenActionView::Io(operation@, path@, source),
            OpenAction::Refused(error) => OpenActionView::Other(error),
        }
    }
}

/// Whether an outcome can come of the action of a phase.
pub open spec fn open_expects(phase: OpenPhase, outcome: OpenOutcome) -> bool {
    match phase {
        OpenPhase::Verifying => outcome is Identity,
        OpenPhase::Opening => outcome is Opened,
        OpenPhase::Inspecting => outcome is Inspected,
        OpenPhase::Identifying => outcome is Identified,
        OpenPhase::Ready | OpenPhase::Refused => false,
    }
}

/// The next phase and action for the node of that name.
pub open spec fn open_next(name: Seq<u8>, outcome: OpenOutcome) -> (OpenPhase, OpenActionView) {
    let path = node_path(name);
    match outcome {
        OpenOutcome::Identity(Ok(text)) => if identifies(text@) {
            (OpenPhase::Opening, OpenActionView::OpenNode(path))
        } else {
            (OpenPhase::Refused, OpenActionView::Mismatch(path))
        },
        OpenOutcome::Identity(Err(source)) => (
            OpenPhase::Refused,
            OpenActionView::Io("read HID identity"@, uevent_path(name), source),
        ),
        OpenOutcome::Opened(Ok(_)) => (OpenPhase::Inspecting, OpenActionView::Inspect),
        OpenOutcome::Opened(Err(source)) => (
            OpenPhase::Refused,
            OpenActionView::Io("open hidraw node"@, path, source),
        ),
        OpenOutcome::Inspected(Ok(true)) => (OpenPhase::Identifying, OpenActionView::Identify),
        OpenOutcome::Inspected(Ok(false)) => (OpenPhase::Refused, OpenActionView::Mismatch(path)),
        OpenOutcome::Inspected(Err(source)) => (
            OpenPhase::Refused,
            OpenActionView::Io("stat hidraw node"@, path, source),
        ),
        OpenOutcome::Identified(Ok(info)) => if info.supported() {
            (OpenPhase::Ready, OpenActionView::Ready(path))
        } else {
            (OpenPhase::Refused, OpenActionView::Mismatch(path))
        },
        OpenOutcome::Identified(Err(source)) => (
            OpenPhase::Refused,
            OpenActionView::Io("verify opened HID identity"@, path, source),
        ),
    }
}

/// The state of an opening.
#[verifier::ext_equal]
pub struct OpeningView {
    /// Name of the node.
    pub name: Seq<u8>,
    /// The startup procedure to use once it is open.
    pub mode: StartupMode,
    /// Where the opening stands.
    pub phase: OpenPhase,
}

impl OpeningView {
    /// The start of an opening.
    pub open spec fn initial(name: Seq<u8>, mode: StartupMode) -> OpeningView {
        OpeningView { name, mode, phase: OpenPhase::Verifying }
    }

    /// The state after an outcome.
    pub open spec fn after(self, outcome: OpenOutcome) -> OpeningView {
        OpeningView { phase: open_next(self.name, outcome).0, ..self }
    }

    /// The startup procedure that may begin: only with a node that is open and verified.
    pub open spec fn started(self) -> Option<StartupView> {
        if self.phase == OpenPhase::Ready {
            Some(StartupView::initial(self.mode))
        } else {
            None
        }
    }
}

/// The opening of a node.
#[derive(Debug, PartialEq, Eq)]
pub struct Opening {
    name: Vec<u8>,
    mode: StartupMode,
    phase: OpenPhase,
}

impl View for Opening {
    type V = OpeningView;

    closed spec fn view(&self) -> OpeningView {
        OpeningView { name: self.name@, mode: self.mode, phase: self.phase }
    }
}

impl Opening {
    #[verifier::type_invariant]
    closed spec fn valid(self) -> bool {
        is_node_name(self.name@)
    }

    /// Begin to open the node of that name.
    pub fn begin(name: Vec<u8>, mode: StartupMode) -> (begun: (Opening, OpenAction))
        requires
            is_node_name(name@),
        ensures
            begun.0@ == OpeningView::initial(name@, mode),
            begun.1@ == OpenActionView::ReadIdentity(uevent_path(name@)),
    {
        let path = uevent_path_of(name.as_slice());
        (Opening { name, mode, phase: OpenPhase::Verifying }, OpenAction::ReadIdentity { path })
    }

    /// The startup procedure to use once the node is open.
    pub fn mode(&self) -> (mode: StartupMode)
        ensures
            mode == self@.mode,
    {
        self.mode
    }

    /// Where the opening stands.
    pub fn phase(&self) -> (phase: OpenPhase)
        ensures
            phase == self@.phase,
    {
        self.phase
    }

    /// Whether an outcome can come of the last action.
    pub fn is_expected(&self, outcome: &OpenOutcome) -> (expected: bool)
        ensures
            expected == open_expects(self@.phase, *outcome),
    {
        match (self.phase, outcome) {
            (OpenPhase::Verifying, OpenOutcome::Identity(_)) => true,
            (OpenPhase::Opening, OpenOutcome::Opened(_)) => true,
            (OpenPhase::Inspecting, OpenOutcome::Inspected(_)) => true,
            (OpenPhase::Identifying, OpenOutcome::Identified(_)) => true,
            _ => false,
        }
    }

    fn path(&self) -> (path: String)
        ensures
            path@ == node_path(self@.name),
    {
        proof {
            use_type_invariant(self);
        }
        String::from_str(DeviceInfo::of_name(self.name.as_slice()).path())
    }

    /// Take the outcome of the last action and decide on the next one.
    pub fn advance(&mut self, outcome: OpenOutcome) -> (action: OpenAction)
        requires
            open_expects(old(self)@.phase, outcome),
        ensures
            final(self)@ == old(self)@.after(outcome),
            action@ == open_next(old(self)@.name, outcome).1,
    {
        proof {
            use_type_invariant(&*self);
        }
        let path = self.path();
        let (phase, action) = match outcome {
            OpenOutcome::Identity(read) => match identity_at(self.name.as_slice(), read) {
                Ok(true) => (OpenPhase::Opening, OpenAction::OpenNode { path }),
                Ok(false) => (
                    OpenPhase::Refused,
                    OpenAction::Refused(TransportError::IdentityMismatch(path)),
                ),
                Err(error) => (OpenPhase::Refused, OpenAction::Refused(error)),
            },
            OpenOutcome::Opened(Ok(_)) => (OpenPhase::Inspecting, OpenAction::Inspect),
            OpenOutcome::Opened(Err(source)) => (
                OpenPhase::Refused,
                OpenAction::Refused(io_error("open hidraw node", path, source)),
            ),
            OpenOutcome::Inspected(Ok(true)) => (OpenPhase::Identifying, OpenAction::Identify),
            OpenOutcome::Inspected(Ok(false)) => (
                OpenPhase::Refused,
                OpenAction::Refused(TransportError::IdentityMismatch(path)),
            ),
            OpenOutcome::Inspected(Err(source)) => (
                OpenPhase::Refused,
                OpenAction::Refused(io_error("stat hidraw node", path, source)),
            ),
            OpenOutcome::Identified(Ok(info)) => {
                if info.is_supported() {
                    (
                        OpenPhase::Ready,
                        OpenAction::Ready(DeviceInfo::of_name(self.name.as_slice())),
                    )
                } else {
                    (
                        OpenPhase::Refused,
                        OpenAction::Refused(TransportError::IdentityMismatch(path)),
                    )
                }
            },
            OpenOutcome::Identified(Err(source)) => (
                OpenPhase::Refused,
                OpenAction::Refused(io_error("verify opened HID identity", path, source)),
            ),
        };
        self.phase = phase;
        action
    }

    /// Begin the startup procedure, which nothing but an open, verified node allows.
    pub fn start(self) -> (started: Option<(Startup, Action)>)
        ensures
            match started {
                Some((startup, action)) => {
                    &&& self@.started() == Some(startup@)
                    &&& startup@.valid()
                    &&& startup.path() == node_path(self@.name)
                    &&& action@ == ActionView::Listen(PASSIVE_WINDOW_MILLIS)
                },
                None => self@.started() is None,
            },
    {
        proof {
            use_type_invariant(&self);
        }
        match self.phase {
            OpenPhase::Ready => Some(
                Startup::begin(DeviceInfo::of_name(self.name.as_slice()), self.mode),
            ),
            _ => None,
        }
    }
}

/// The state after a run, given what came of each action in turn.
pub open spec fn open_run(
    name: Seq<u8>,
    mode: StartupMode,
    outcomes: Seq<OpenOutcome>,
) -> OpeningView
    decreases outcomes.len(),
{
    if outcomes.len() == 0 {
        OpeningView::initial(name, mode)
    } else {
        open_run(name, mode, outcomes.drop_last()).after(outcomes.last())
    }
}

/// Whether each outcome can come of the action before it.
pub open spec fn open_possible(
    name: Seq<u8>,
    mode: StartupMode,
    outcomes: Seq<OpenOutcome>,
) -> bool
    decreases outcomes.len(),
{
    outcomes.len() == 0 || {
        &&& open_possible(name, mode, outcomes.drop_last())
        &&& open_expects(open_run(name, mode, outcomes.drop_last()).phase, outcomes.last())
    }
}

/// Whether the outcomes are those of a node that is what it should be: sysfs identifies
/// the supported device, the node can be opened, it is a character device, and its
/// descriptor identifies the supported device again.
pub open spec fn verifies(outcomes: Seq<OpenOutcome>) -> bool {
    &&& outcomes.len() == 4
    &&& outcomes[0] matches OpenOutcome::Identity(Ok(text)) && identifies(text@)
    &&& outcomes[1] matches OpenOutcome::Opened(Ok(_))
    &&& outcomes[2] matches OpenOutcome::Inspected(Ok(true))
    &&& outcomes[3] matches OpenOutcome::Identified(Ok(info)) && info.supported()
}

/// No report is read or written before the node is verified: the startup procedure,
/// which alone does so, may begin exactly if sysfs identified the supported device, the
/// node could be opened and turned out to be a character device, and its descriptor
/// identified the supported device again.
pub proof fn law_only_verified_nodes_are_started(
    name: Seq<u8>,
    mode: StartupMode,
    outcomes: Seq<OpenOutcome>,
)
    requires
        open_possible(name, mode, outcomes),
    ensures
        open_run(name, mode, outcomes).started() == if verifies(outcomes) {
            Some(StartupView::initial(mode))
        } else {
            None
        },
{
    lemma_open_run_keeps(name, mode, outcomes);
    lemma_open_phase(name, mode, outcomes);
}

proof fn lemma_open_run_keeps(name: Seq<u8>, mode: StartupMode, outcomes: Seq<OpenOutcome>)
    ensures
        open_run(name, mode, outcomes).name == name,
        open_run(name, mode, outcomes).mode == mode,
    decreases outcomes.len(),
{
    if outcomes.len() > 0 {
        lemma_open_run_keeps(name, mode, outcomes.drop_last());
    }
}

proof fn lemma_open_phase(name: Seq<u8>, mode: StartupMode, outcomes: Seq<OpenOutcome>)
    requires
        open_possible(name, mode, outcomes),
    ensures
        ({
            let phase = open_run(name, mode, outcomes).phase;
            &&& phase == OpenPhase::Verifying <==> outcomes.len() == 0
            &&& phase == OpenPhase::Opening <==> {
                &&& outcomes.len() == 1
                &&& outcomes[0] matches OpenOutcome::Identity(Ok(text)) && identifies(text@)
            }
            &&& phase == OpenPhase::Inspecting <==> {
                &&& outcomes.len() == 2
                &&& outcomes[0] matches OpenOutcome::Identity(Ok(text)) && identifies(text@)
                &&& outcomes[1] matches OpenOutcome::Opened(Ok(_))
            }
            &&& phase == OpenPhase::Identifying <==> {
                &&& outcomes.len() == 3
                &&& outcomes[0] matches OpenOutcome::Identity(Ok(text)) && identifies(text@)
                &&& outcomes[1] matches OpenOutcome::Opened(Ok(_))
                &&& outcomes[2] matches OpenOutcome::Inspected(Ok(true))
            }
            &&& phase == OpenPhase::Ready <==> verifies(outcomes)
        }),
    decreases outcomes.len(),
{
    if outcomes.len() > 0 {
        lemma_open_phase(name, mode, outcomes.drop_last());
    }
}

/// The supported device is USB (bus 3), vendor `2c30`, product `1050`, and no other.
pub proof fn law_supported_identity(info: RawInfo)
    ensures
        info.supported() <==> info.bus == 3 && info.vendor == 0x2c30 && info.product == 0x1050,
{
}

/// What goes wrong refuses the node, and tells what it was: a failed operation with the
/// path and the cause, or a mismatch of the node. What goes right leads to the next
/// question about the same node.
pub proof fn law_outcomes_lead_on_or_refuse(name: Seq<u8>, outcome: OpenOutcome)
    ensures
        ({
            let path = "/dev/"@ + ascii(name);
            let (phase, action) = open_next(name, outcome);
            let refused_for = |operation: Seq<char>, at: Seq<char>, cause: OsError|
                {
                    &&& phase == OpenPhase::Refused
                    &&& action == OpenActionView::Io(operation, at, cause)
                };
            let mismatch = phase == OpenPhase::Refused && action == OpenActionView::Mismatch(path);
            match outcome {
                OpenOutcome::Identity(Err(cause)) => refused_for(
                    "read HID identity"@,
                    "/sys/class/hidraw/"@ + ascii(name) + "/device/uevent"@,
                    cause,
                ),
                OpenOutcome::Identity(Ok(text)) => if identifies(text@) {
                    phase == OpenPhase::Opening && action == OpenActionView::OpenNode(path)
                } else {
                    mismatch
                },
                OpenOutcome::Opened(Err(cause)) => refused_for("open hidraw node"@, path, cause),
                OpenOutcome::Opened(Ok(_)) => phase == OpenPhase::Inspecting && action
                    == OpenActionView::Inspect,
                OpenOutcome::Inspected(Err(cause)) => refused_for(
                    "stat hidraw node"@,
                    path,
                    cause,
                ),
                OpenOutcome::Inspected(Ok(is_device)) => if is_device {
                    phase == OpenPhase::Identifying && action == OpenActionView::Identify
                } else {
                    mismatch
                },
                OpenOutcome::Identified(Err(cause)) => refused_for(
                    "verify opened HID identity"@,
                    path,
                    cause,
                ),
                OpenOutcome::Identified(Ok(info)) => if info.bus == 3 && info.vendor == 0x2c30
                    && info.product == 0x1050 {
                    phase == OpenPhase::Ready && action == OpenActionView::Ready(path)
                } else {
                    mismatch
                },
            }
        }),
{
}

/// In each phase the outcome of its own action is expected, and no other; once the node
/// is ready or refused, none.
pub proof fn law_each_phase_expects_its_outcome(phase: OpenPhase, outcome: OpenOutcome)
    ensures
        open_expects(phase, outcome) <==> {
            ||| phase == OpenPhase::Verifying && outcome is Identity
            ||| phase == OpenPhase::Opening && outcome is Opened
            ||| phase == OpenPhase::Inspecting && outcome is Inspected
            ||| phase == OpenPhase::Identifying && outcome is Identified
        },
{
}

/// What is shown of an action is what it is.
pub proof fn law_open_actions_are_shown_as_they_are(action: OpenAction)
    ensures
        match action {
            OpenAction::ReadIdentity { path } => action@ == OpenActionView::ReadIdentity(path@),
            OpenAction::OpenNode { path } => action@ == OpenActionView::OpenNode(path@),
            OpenAction::Inspect => action@ == OpenActionView::Inspect,
            OpenAction::Identify => action@ == OpenActionView::Identify,
            OpenAction::Ready(device) => action@ == OpenActionView::Ready(device@),
            OpenAction::Refused(error) => match error {
                TransportError::IdentityMismatch(path) => action@ == OpenActionView::Mismatch(
                    path@,
                ),
                TransportError::Io { operation, path, source } => action@ == OpenActionView::Io(
                    operation@,
                    path@,
                    source,
                ),
                _ => action@ == OpenActionView::Other(error),
            },
        },
{
}

/// An outcome changes nothing but the phase, an opening begins with the identity, and
/// startup begins exactly when the node is ready, with the selected procedure.
pub proof fn law_openings_keep_node_and_mode(state: OpeningView, outcome: OpenOutcome)
    ensures
        state.after(outcome).name == state.name,
        state.after(outcome).mode == state.mode,
        state.after(outcome).phase == open_next(state.name, outcome).0,
        OpeningView::initial(state.name, state.mode).name == state.name,
        OpeningView::initial(state.name, state.mode).mode == state.mode,
        OpeningView::initial(state.name, state.mode).phase == OpenPhase::Verifying,
        state.started() is Some <==> state.phase == OpenPhase::Ready,
        state.started() is Some ==> state.started()->0.mode == state.mode,
{
}

} // verus!
