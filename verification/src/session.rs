//! Session lifecycle: at most one exclusive link to the peripheral.
//!
//! The manager decides every transition of the `Idle / Discovered /
//! Connected` lifecycle from plain values; the surrounding application
//! performs the transport work (the discovery pass, opening and closing the
//! link, the subscription, the writes) and reports its outcomes back. Each
//! operation is split at its suspension points: a `begin_` gate says whether
//! the transport may be touched at all, and a `complete_`/`finish_` step
//! takes the transport's outcome and moves the state.

use vstd::prelude::*;
use crate::codec::attitude_frame_bytes;

verus! {

/// The well-known identifier of the one read/write endpoint
/// (characteristic) that telemetry and commands travel through.
pub const ENDPOINT_UUID: u128 = 0x0000FFE1_0000_1000_8000_00805F9B34FB;

/// Everything a session operation can fail with. Errors are surfaced once
/// to the caller; nothing is retried here.
#[derive(Clone, Copy, PartialEq, Eq, Structural, Debug)]
pub enum SessionError {
    /// The transport has no adapter to scan with.
    NoAdapter,
    /// A discovery pass finished without finding any peripheral.
    NoPeripheralsFound,
    /// The requested address is not in the candidate list.
    DeviceNotFound,
    /// A session is already active; disconnect first.
    AlreadyConnected,
    /// The transport refused to open the link.
    ConnectionFailed,
    /// The device lacks the required endpoint; the fresh link is closed.
    IncompatibleDevice,
    /// The operation needs an active session and there is none.
    NotConnected,
    /// The transport failed to close the link; the session is cleared
    /// nonetheless.
    DisconnectFailed,
    /// The transport failed to write the command; the session stays up.
    WriteFailed,
}

/// One device a discovery pass reported: its display name, when it
/// announced one, and its stable hardware address in string form.
pub struct DiscoveredDevice {
    pub name: Option<String>,
    pub address: String,
}

/// Mathematical value of a discovered device.
#[verifier::ext_equal]
pub struct DeviceModel {
    pub name: Option<Seq<char>>,
    pub address: Seq<char>,
}

impl View for DiscoveredDevice {
    type V = DeviceModel;

    open spec fn view(&self) -> DeviceModel {
        DeviceModel {
            name: match self.name {
                Some(n) => Some(n@),
                None => None,
            },
            address: self.address@,
        }
    }
}

/// Mathematical value of an active link: the peer's address and the
/// negotiated endpoint.
#[verifier::ext_equal]
pub struct LinkModel {
    pub address: Seq<char>,
    pub endpoint: u128,
}

/// Mathematical state of the session manager: the candidate list of the
/// last discovery pass, and the active link, if any.
#[verifier::ext_equal]
pub struct SessionModel {
    pub candidates: Seq<DeviceModel>,
    pub link: Option<LinkModel>,
}

/// The name a device is listed under: what it announced, or the empty
/// placeholder when it announced none.
pub open spec fn display_name(name: Option<Seq<char>>) -> Seq<char> {
    match name {
        Some(n) => n,
        None => Seq::empty(),
    }
}

/// The (name, address) listing of a candidate sequence.
pub open spec fn scan_listing(found: Seq<DeviceModel>) -> Seq<(Seq<char>, Seq<char>)> {
    found.map(|i: int, d: DeviceModel| (display_name(d.name), d.address))
}

/// The mathematical value of an exec (name, address) listing.
pub open spec fn pairs_view(pairs: Seq<(String, String)>) -> Seq<(Seq<char>, Seq<char>)> {
    pairs.map(|i: int, p: (String, String)| (p.0@, p.1@))
}

/// The mathematical value of an exec candidate vector.
pub open spec fn device_views(found: Seq<DiscoveredDevice>) -> Seq<DeviceModel> {
    found.map(|i: int, d: DiscoveredDevice| d@)
}

impl SessionModel {
    /// The starting state: no candidates, no link.
    pub open spec fn init() -> SessionModel {
        SessionModel { candidates: Seq::empty(), link: None }
    }

    /// Whether a session is active.
    pub open spec fn connected(self) -> bool {
        self.link is Some
    }

    /// Whether the candidate list holds a device with this address.
    pub open spec fn has_candidate(self, addr: Seq<char>) -> bool {
        exists|i: int| 0 <= i < self.candidates.len() && self.candidates[i].address == addr
    }

    /// What a finished discovery pass does: with no adapter or no devices
    /// it fails and changes nothing; otherwise it replaces the candidate
    /// list and reports the (name, address) listing. An active link is
    /// never touched.
    pub open spec fn scan_step(self, adapter_count: int, found: Seq<DeviceModel>) -> (
        SessionModel,
        Result<Seq<(Seq<char>, Seq<char>)>, SessionError>,
    ) {
        if adapter_count <= 0 {
            (self, Err(SessionError::NoAdapter))
        } else if found.len() == 0 {
            (self, Err(SessionError::NoPeripheralsFound))
        } else {
            (
                SessionModel { candidates: found, link: self.link },
                Ok(scan_listing(found)),
            )
        }
    }

    /// Whether a connect to `addr` may touch the transport at all: refused
    /// while a session is active (a second session is never managed, even
    /// to another device), and for an address no discovery pass reported.
    pub open spec fn connect_gate(self, addr: Seq<char>) -> Result<(), SessionError> {
        if self.connected() {
            Err(SessionError::AlreadyConnected)
        } else if !self.has_candidate(addr) {
            Err(SessionError::DeviceNotFound)
        } else {
            Ok(())
        }
    }

    /// What a connect attempt does, given whether the transport opened the
    /// link (`opened`) and which endpoints capability discovery reported.
    /// The third component orders the caller to close the fresh link: it is
    /// set exactly when a link was opened and the attempt still failed, so
    /// a failed connect never leaves a link open and a second link never
    /// stays open beside an active session.
    pub open spec fn connect_step(
        self,
        addr: Seq<char>,
        opened: bool,
        endpoints: Seq<u128>,
    ) -> (SessionModel, Result<(), SessionError>, bool) {
        if self.connected() {
            (self, Err(SessionError::AlreadyConnected), opened)
        } else if !self.has_candidate(addr) {
            (self, Err(SessionError::DeviceNotFound), opened)
        } else if !opened {
            (self, Err(SessionError::ConnectionFailed), false)
        } else if !endpoints.contains(ENDPOINT_UUID) {
            (self, Err(SessionError::IncompatibleDevice), true)
        } else {
            (
                SessionModel {
                    candidates: self.candidates,
                    link: Some(LinkModel { address: addr, endpoint: ENDPOINT_UUID }),
                },
                Ok(()),
                false,
            )
        }
    }

    /// What a disconnect does, given whether the transport managed to close
    /// the link. The session is cleared in either case: keeping a handle to
    /// a peripheral the transport claims not to control would be worse than
    /// reporting the failure.
    pub open spec fn disconnect_step(self, transport_ok: bool) -> (
        SessionModel,
        Result<(), SessionError>,
    ) {
        if !self.connected() {
            (self, Err(SessionError::NotConnected))
        } else {
            (
                SessionModel { candidates: self.candidates, link: None },
                if transport_ok {
                    Ok(())
                } else {
                    Err(SessionError::DisconnectFailed)
                },
            )
        }
    }

    /// What an attitude command yields: the encoded frame while a session
    /// is active, and `NotConnected` otherwise.
    pub open spec fn attitude_step(self, x: i16, y: i16, z: i16) -> Result<Seq<u8>, SessionError> {
        if self.connected() {
            Ok(attitude_frame_bytes(x, y, z))
        } else {
            Err(SessionError::NotConnected)
        }
    }
}

struct ActiveLink {
    address: String,
    endpoint: u128,
}

/// Owner of the one session's worth of state. The application keeps it
/// behind its one exclusive lock and consults it for every transition.
pub struct SessionManager {
    candidates: Vec<DiscoveredDevice>,
    link: Option<ActiveLink>,
}

impl View for SessionManager {
    type V = SessionModel;

    closed spec fn view(&self) -> SessionModel {
        SessionModel {
            candidates: device_views(self.candidates@),
            link: match self.link {
                Some(l) => Some(LinkModel { address: l.address@, endpoint: l.endpoint }),
                None => None,
            },
        }
    }
}

impl SessionManager {
    /// A fresh manager: no candidates, no session.
    pub fn new() -> (m: SessionManager)
        ensures
            m@ == SessionModel::init(),
    {
        let m = SessionManager { candidates: Vec::new(), link: None };
        proof {
            assert(m@ =~= SessionModel::init());
        }
        m
    }

    /// Whether a session is active right now.
    pub fn is_connected(&self) -> (r: bool)
        ensures
            r == self@.connected(),
    {
        match &self.link {
            Some(_) => true,
            None => false,
        }
    }

    /// Takes the outcome of a discovery pass: how many adapters the
    /// transport offers, and the devices the pass reported. On success the
    /// candidate list is replaced and the (name, address) listing returned.
    pub fn complete_scan(&mut self, adapter_count: usize, found: Vec<DiscoveredDevice>) -> (r:
        Result<Vec<(String, String)>, SessionError>)
        ensures
            final(self)@ == old(self)@.scan_step(adapter_count as int, device_views(found@)).0,
            match r {
                Ok(listing) => old(self)@.scan_step(adapter_count as int, device_views(found@)).1
                    == Ok::<Seq<(Seq<char>, Seq<char>)>, SessionError>(pairs_view(listing@)),
                Err(e) => old(self)@.scan_step(adapter_count as int, device_views(found@)).1
                    == Err::<Seq<(Seq<char>, Seq<char>)>, SessionError>(e),
            },
    {
        if adapter_count == 0 {
            return Err(SessionError::NoAdapter);
        }
        if found.len() == 0 {
            return Err(SessionError::NoPeripheralsFound);
        }
        let mut listing: Vec<(String, String)> = Vec::new();
        let mut i: usize = 0;
        while i < found.len()
            invariant
                i <= found.len(),
                listing@.len() == i,
                forall|j: int|
                    0 <= j < i ==> (#[trigger] listing@[j]).0@ == display_name(found@[j]@.name)
                        && listing@[j].1@ == found@[j]@.address,
            decreases found.len() - i,
        {
            let name: String = match &found[i].name {
                Some(n) => n.clone(),
                None => String::new(),
            };
            listing.push((name, found[i].address.clone()));
            i = i + 1;
        }
        self.candidates = found;
        proof {
            assert(pairs_view(listing@) =~= scan_listing(device_views(found@)));
            assert(final(self)@ =~= old(self)@.scan_step(
                adapter_count as int,
                device_views(found@),
            ).0);
        }
        Ok(listing)
    }

    fn knows_candidate(&self, addr: &String) -> (r: bool)
        ensures
            r == self@.has_candidate(addr@),
    {
        let mut i: usize = 0;
        while i < self.candidates.len()
            invariant
                i <= self.candidates.len(),
                forall|j: int|
                    0 <= j < i ==> (#[trigger] self.candidates@[j])@.address != addr@,
            decreases self.candidates.len() - i,
        {
            if self.candidates[i].address == *addr {
                proof {
                    assert(self@.candidates[i as int] == self.candidates@[i as int]@);
                    assert(self@.candidates[i as int].address == addr@);
                }
                return true;
            }
            i = i + 1;
        }
        assert(!self@.has_candidate(addr@));
        false
    }

    /// Whether a connect to `addr` may proceed to the transport: `Ok` only
    /// when no session is active and the address is a known candidate.
    pub fn begin_connect(&self, addr: &String) -> (r: Result<(), SessionError>)
        ensures
            r == self@.connect_gate(addr@),
    {
        if self.link.is_some() {
            return Err(SessionError::AlreadyConnected);
        }
        if self.knows_candidate(addr) {
            Ok(())
        } else {
            Err(SessionError::DeviceNotFound)
        }
    }

    /// Takes the outcome of a connect attempt: whether the transport opened
    /// the link, and the endpoints that capability discovery reported on
    /// the freshly connected device. The second component of the result
    /// orders the caller to close the fresh link (the mandatory rollback
    /// when the required endpoint is missing).
    pub fn complete_connect(&mut self, addr: &String, opened: bool, endpoints: &Vec<u128>) -> (r:
        (Result<(), SessionError>, bool))
        ensures
            ({
                let (s2, res, close) = old(self)@.connect_step(addr@, opened, endpoints@);
                final(self)@ == s2 && r.0 == res && r.1 == close
            }),
    {
        if self.link.is_some() {
            return (Err(SessionError::AlreadyConnected), opened);
        }
        if !self.knows_candidate(addr) {
            return (Err(SessionError::DeviceNotFound), opened);
        }
        if !opened {
            return (Err(SessionError::ConnectionFailed), false);
        }
        let mut k: usize = 0;
        while k < endpoints.len()
            invariant
                k <= endpoints.len(),
                forall|j: int| 0 <= j < k ==> endpoints@[j] != ENDPOINT_UUID,
                self@ == old(self)@,
                old(self)@.has_candidate(addr@),
                !old(self)@.connected(),
                opened,
            decreases endpoints.len() - k,
        {
            if endpoints[k] == ENDPOINT_UUID {
                self.link = Some(ActiveLink { address: addr.clone(), endpoint: ENDPOINT_UUID });
                proof {
                    assert(endpoints@.contains(ENDPOINT_UUID));
                    assert(final(self)@ =~~= old(self)@.connect_step(addr@, opened, endpoints@).0);
                }
                return (Ok(()), false);
            }
            k = k + 1;
        }
        assert(!endpoints@.contains(ENDPOINT_UUID));
        (Err(SessionError::IncompatibleDevice), true)
    }

    /// Whether a disconnect may proceed to the transport: `Ok` exactly when
    /// a session is active.
    pub fn begin_disconnect(&self) -> (r: Result<(), SessionError>)
        ensures
            self@.connected() ==> r == Ok::<(), SessionError>(()),
            !self@.connected() ==> r == Err::<(), SessionError>(SessionError::NotConnected),
    {
        match &self.link {
            Some(_) => Ok(()),
            None => Err(SessionError::NotConnected),
        }
    }

    /// Takes the outcome of the transport's close. The session state is
    /// cleared whether or not the transport succeeded; only the reported
    /// result differs.
    pub fn finish_disconnect(&mut self, transport_ok: bool) -> (r: Result<(), SessionError>)
        ensures
            ({
                let (s2, res) = old(self)@.disconnect_step(transport_ok);
                final(self)@ == s2 && r == res
            }),
    {
        match &self.link {
            None => Err(SessionError::NotConnected),
            Some(_) => {
                self.link = None;
                proof {
                    assert(final(self)@ =~= old(self)@.disconnect_step(transport_ok).0);
                }
                if transport_ok {
                    Ok(())
                } else {
                    Err(SessionError::DisconnectFailed)
                }
            },
        }
    }

    /// Encodes an attitude-set command for the active session: the frame to
    /// write, fire-and-forget, to the endpoint. Fails with `NotConnected`
    /// outside a session; never changes state.
    pub fn prepare_attitude(&self, x: i16, y: i16, z: i16) -> (r: Result<Vec<u8>, SessionError>)
        ensures
            match r {
                Ok(bytes) => self@.attitude_step(x, y, z) == Ok::<Seq<u8>, SessionError>(bytes@),
                Err(e) => self@.attitude_step(x, y, z) == Err::<Seq<u8>, SessionError>(e),
            },
    {
        match &self.link {
            None => Err(SessionError::NotConnected),
            Some(_) => Ok(crate::codec::encode_attitude(x, y, z)),
        }
    }
}

/// Maps the transport's report of a fire-and-forget write: a failure is
/// surfaced as `WriteFailed` and nothing else changes; a single failed
/// write never tears the session down.
pub fn write_outcome(write_ok: bool) -> (r: Result<(), SessionError>)
    ensures
        write_ok ==> r == Ok::<(), SessionError>(()),
        !write_ok ==> r == Err::<(), SessionError>(SessionError::WriteFailed),
{
    if write_ok {
        Ok(())
    } else {
        Err(SessionError::WriteFailed)
    }
}

/// Exclusivity law: after any successful connect, every further connect
/// attempt — to any address, whatever the transport would report — fails
/// with `AlreadyConnected`, changes nothing, and, should a second link have
/// been opened anyway, orders it closed. Two open links never persist.
pub proof fn lemma_second_connect_refused(
    s: SessionModel,
    addr1: Seq<char>,
    eps1: Seq<u128>,
    addr2: Seq<char>,
    opened2: bool,
    eps2: Seq<u128>,
)
    requires
        s.connect_step(addr1, true, eps1).1 is Ok,
    ensures
        ({
            let s1 = s.connect_step(addr1, true, eps1).0;
            let (s2, res, close) = s1.connect_step(addr2, opened2, eps2);
            &&& res == Err::<(), SessionError>(SessionError::AlreadyConnected)
            &&& s2 == s1
            &&& close == opened2
        }),
{
}

/// Rollback law: when no session is active and the connected device lacks
/// the required endpoint, the connect attempt fails, the state stays
/// unconnected and unchanged, and the fresh link is ordered closed.
pub proof fn lemma_connect_rollback(s: SessionModel, addr: Seq<char>, eps: Seq<u128>)
    requires
        !s.connected(),
        !eps.contains(ENDPOINT_UUID),
    ensures
        ({
            let (s2, res, close) = s.connect_step(addr, true, eps);
            &&& res is Err
            &&& !s2.connected()
            &&& s2 == s
            &&& close
        }),
{
}

} // verus!
