//! A session with one device, from the choice of the node to the events that it gives.

use crate::codec::Event;
use crate::discovery::{
    discover_devices, ends_with, first_fatal, in_order, matching_paths, paths_of, ListedEntry,
};
use crate::error::{is_io_error, TransportError};
use crate::node::{
    is_node_path, lemma_node_path_bytes, node_name, node_path, uevent_path, DeviceInfo,
};
use crate::open::{OpenAction, OpenActionView, Opening, OpeningView};
use crate::os::{OsError, OsErrorKind};
use crate::protocol::{current_proximity, proximity_query, FixedWrite};
use crate::session::{
    receives, ConnectionInfo, Incoming, Received, SessionCore, SessionView, StartupMode,
    Statistics,
};
use crate::startup::{Phase, Startup};
use vstd::prelude::*;
use vstd::slice::slice_to_vec;
use vstd::string::*;

verus! {

/// The name of the node at a path; only direct `/dev/hidrawN` paths are accepted.
pub fn verify_path(node: &[u8]) -> (name: Result<Vec<u8>, TransportError>)
    ensures
        match name {
            Ok(name) => is_node_path(node@) && name@ == node@.skip(5),
            Err(TransportError::InvalidPath(path)) => !is_node_path(node@) && path@ == node@,
            Err(_) => false,
        },
{
    match node_name(node) {
        Some(name) => Ok(name),
        None => Err(TransportError::InvalidPath(slice_to_vec(node))),
    }
}

/// The end of a time span that the clock was asked to compute.
pub fn deadline<T>(end: Option<T>) -> (until: Result<T, TransportError>)
    ensures
        match end {
            Some(instant) => until == Ok::<T, TransportError>(instant),
            None => until == Err::<T, _>(TransportError::InvalidTimeout),
        },
{
    match end {
        Some(instant) => Ok(instant),
        None => Err(TransportError::InvalidTimeout),
    }
}

/// Whether an opening has begun with the node at that path.
pub open spec fn begins_at(
    begun: (Opening, OpenAction),
    path: Seq<char>,
    mode: StartupMode,
) -> bool {
    &&& begun.0@ == OpeningView::initial(begun.0@.name, mode)
    &&& node_path(begun.0@.name) == path
    &&& begun.1@ == OpenActionView::ReadIdentity(uevent_path(begun.0@.name))
}

/// What opening an explicit path begins with.
pub open spec fn opens_path(
    begun: Result<(Opening, OpenAction), TransportError>,
    path: Seq<u8>,
    mode: StartupMode,
) -> bool {
    match begun {
        Ok(begun) => is_node_path(path) && begins_at(begun, node_path(path.skip(5)), mode),
        Err(TransportError::InvalidPath(refused)) => !is_node_path(path) && refused@ == path,
        Err(_) => false,
    }
}

/// What connecting to the sole device of a listing begins with.
pub open spec fn opens_sole_device(
    begun: Result<(Opening, OpenAction), TransportError>,
    listing: Result<Vec<ListedEntry>, OsError>,
    mode: StartupMode,
) -> bool {
    match listing {
        Err(source) => match begun {
            Err(TransportError::NoDevice) => source.kind == OsErrorKind::NotFound,
            Err(error) => source.kind != OsErrorKind::NotFound && is_io_error(
                error,
                "enumerate hidraw nodes"@,
                "/sys/class/hidraw"@,
                source,
            ),
            Ok(_) => false,
        },
        Ok(entries) => {
            let paths = matching_paths(entries@);
            if first_fatal(entries@) < entries@.len() {
                begun matches Err(error) && ends_with(entries@[first_fatal(entries@)], error)
            } else if paths.len() == 0 {
                begun == Err::<(Opening, OpenAction), _>(TransportError::NoDevice)
            } else if paths.len() == 1 {
                begun matches Ok(begun) && begins_at(begun, paths[0], mode)
            } else {
                &&& begun is Err
                &&& begun->Err_0 is MultipleDevices
                &&& in_order(paths_of(begun->Err_0->MultipleDevices_0@))
                &&& paths_of(begun->Err_0->MultipleDevices_0@).to_multiset()
                    == paths.to_multiset()
            }
        },
    }
}

/// The state of a session.
#[verifier::ext_equal]
pub struct DeviceSessionView {
    /// Buffered events, counters, and the event that awaits its acknowledgement.
    pub session: SessionView,
    /// Path of the selected node.
    pub device: Seq<char>,
    /// How the connection was established.
    pub connection: ConnectionInfo,
}

/// An open, initialized session. Use one reader per physical device.
///
/// Connection may change transient streaming state and set the fixed sampling
/// rate pair `(1000, 200)`. Ending the session sends nothing.
#[derive(Debug)]
pub struct DeviceSession {
    core: SessionCore,
    device: DeviceInfo,
    connection: ConnectionInfo,
}

impl View for DeviceSession {
    type V = DeviceSessionView;

    closed spec fn view(&self) -> DeviceSessionView {
        DeviceSessionView {
            session: self.core@,
            device: self.device@,
            connection: self.connection,
        }
    }
}

impl DeviceSession {
    /// Choose the sole matching device and begin to open it, for the full startup
    /// procedure.
    pub fn connect(listing: Result<Vec<ListedEntry>, OsError>) -> (begun: Result<
        (Opening, OpenAction),
        TransportError,
    >)
        ensures
            opens_sole_device(begun, listing, StartupMode::Full),
    {
        Self::connect_with_startup(listing, StartupMode::Full)
    }

    /// Choose the sole matching device and begin to open it.
    ///
    /// With more than one, none is chosen: path order is never used.
    pub fn connect_with_startup(
        listing: Result<Vec<ListedEntry>, OsError>,
        mode: StartupMode,
    ) -> (begun: Result<(Opening, OpenAction), TransportError>)
        ensures
            opens_sole_device(begun, listing, mode),
    {
        let devices = match discover_devices(listing) {
            Err(error) => {
                return Err(error);
            },
            Ok(devices) => devices,
        };
        proof {
            if listing is Ok {
                let paths = matching_paths(listing->Ok_0@);
                let found = paths_of(devices@);
                vstd::seq_lib::to_multiset_len(paths);
                vstd::seq_lib::to_multiset_len(found);
                if paths.len() == 1 {
                    vstd::seq_lib::to_multiset_contains(paths, found[0]);
                    vstd::seq_lib::to_multiset_contains(found, found[0]);
                    assert(found.contains(found[0]));
                    assert(paths.contains(found[0]));
                    assert(paths[0] == found[0]);
                }
            }
        }
        if devices.len() == 0 {
            Err(TransportError::NoDevice)
        } else if devices.len() == 1 {
            let path = devices[0].path();
            proof {
                lemma_node_path_bytes(path);
            }
            Self::open_with_startup(path.as_bytes(), mode)
        } else {
            Err(TransportError::MultipleDevices(devices))
        }
    }

    /// Begin to open the node at an explicit path, for the full startup procedure.
    pub fn open(path: &[u8]) -> (begun: Result<(Opening, OpenAction), TransportError>)
        ensures
            opens_path(begun, path@, StartupMode::Full),
    {
        Self::open_with_startup(path, StartupMode::Full)
    }

    /// Begin to open the node at an explicit path.
    pub fn open_with_startup(path: &[u8], mode: StartupMode) -> (begun: Result<
        (Opening, OpenAction),
        TransportError,
    >)
        ensures
            opens_path(begun, path@, mode),
    {
        match verify_path(path) {
            Err(error) => Err(error),
            Ok(name) => Ok(Opening::begin(name, mode)),
        }
    }

    /// The session of an established connection, with the node that was started.
    pub fn establish(startup: Startup) -> (session: Option<DeviceSession>)
        ensures
            match startup@.phase {
                Phase::Connected(info) => {
                    &&& session is Some
                    &&& session->0@ == (DeviceSessionView {
                        session: startup@.session,
                        device: startup.path(),
                        connection: info,
                    })
                },
                _ => session is None,
            },
    {
        match startup.phase() {
            Phase::Connected(info) => {
                let (device, core) = startup.into_parts();
                Some(DeviceSession { core, device, connection: info })
            },
            _ => None,
        }
    }

    /// Selected node, without exposing its descriptor.
    pub fn device(&self) -> (device: &DeviceInfo)
        ensures
            device@ == self@.device,
    {
        &self.device
    }

    /// Whether startup was needed and which fixed procedure was selected.
    pub fn connection_info(&self) -> (info: ConnectionInfo)
        ensures
            info == self@.connection,
    {
        self.connection
    }

    /// Current counters, including reports processed during connection.
    pub fn statistics(&self) -> (statistics: Statistics)
        ensures
            statistics == self@.session.statistics,
    {
        self.core.statistics()
    }

    /// Whether an event awaits its acknowledgement.
    pub fn is_awaiting(&self) -> (awaiting: bool)
        ensures
            awaiting == (self@.session.awaiting is Some),
    {
        self.core.is_awaiting()
    }

    /// The fixed, payload-free current-proximity request, to be written once within
    /// its time limit.
    ///
    /// Requests have no transaction identifier; consume one response before querying
    /// again.
    pub fn request_current_proximity(&self) -> (write: FixedWrite)
        ensures
            write.carries(proximity_query()),
    {
        FixedWrite::of(current_proximity())
    }

    /// The next buffered event. With none, a report must be read and given to
    /// [`Self::receive`].
    pub fn next_event(&mut self) -> (event: Option<Event>)
        ensures
            ({
                let old_session = old(self)@.session;
                if old_session.pending.len() == 0 {
                    event is None && final(self)@ == old(self)@
                } else {
                    &&& event == Some(old_session.pending[0])
                    &&& final(self)@ == (DeviceSessionView {
                        session: SessionView {
                            pending: old_session.pending.skip(1),
                            ..old_session
                        },
                        ..old(self)@
                    })
                }
            }),
    {
        self.core.next_pending()
    }

    /// Decode what was read and count it.
    ///
    /// An event that requests an acknowledgement is not handed out: the message must be
    /// written within its time limit and before the deadline of the read, and
    /// [`Self::acknowledged`] told what came of that.
    pub fn receive(&mut self, raw: &Incoming) -> (received: Result<Received, TransportError>)
        requires
            old(self)@.session.awaiting is None,
            old(self)@.session.statistics.can_count_input(*raw),
        ensures
            final(self)@ == (DeviceSessionView {
                session: old(self)@.session.after_input(*raw),
                ..old(self)@
            }),
            receives(*raw, received),
    {
        self.core.receive(raw)
    }

    /// Count an acknowledgement that was sent and deliver the event that awaited it, or
    /// name the failure to send it.
    pub fn acknowledged(&mut self, sent: Result<(), TransportError>) -> (delivered: Result<
        Event,
        TransportError,
    >)
        requires
            old(self)@.session.awaiting is Some,
            sent is Ok ==> old(self)@.session.statistics.acknowledgements_sent < u64::MAX,
        ensures
            match sent {
                Ok(_) => {
                    &&& delivered == Ok::<Event, TransportError>(old(self)@.session.awaiting->0)
                    &&& final(self)@ == (DeviceSessionView {
                        session: old(self)@.session.after_acknowledgement(),
                        ..old(self)@
                    })
                },
                Err(error) => {
                    &&& delivered == Err::<Event, _>(
                        TransportError::AcknowledgementFailed(Box::new(error)),
                    )
                    &&& final(self)@ == (DeviceSessionView {
                        session: old(self)@.session.after_failed_acknowledgement(),
                        ..old(self)@
                    })
                },
            },
    {
        self.core.acknowledged(sent)
    }
}

} // verus!
