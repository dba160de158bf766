//! The gateway's shared state: the session registry beside the storage
//! backend, with the session bootstrap operations and the broadcast fan-out
//! preparation.
//!
//! The socket itself, the listening port and the per-session tasks live at
//! the process edge; this core decides what they carry.

use crate::encode::encode_update_frame;
use crate::encode::u64_string;
use crate::message::WSMessageV;
use crate::message::WSRegisterResponse;
use crate::message::WSUpdate;
use crate::registry::snapshot_of;
use crate::registry::Registry;
use crate::registry::RegistryError;
use crate::storage::ArrowDB;
use crate::wire::dec_digits;
use crate::wire::enc_message;
use vstd::prelude::*;
use vstd::string::StringExecFns;

verus! {

/// Relies on uuid::Uuid::new_v4: a freshly generated random identifier from
/// the process-wide source.  Nothing is promised of the value; the registry
/// treats it as a mere seed and guarantees freshness itself.
#[verifier::external_body]
fn random_token_seed() -> u64 {
    (uuid::Uuid::new_v4().as_u128() >> 64) as u64
}

/// The gateway's shared state: who is connected, and the store.
pub struct Webserver<D: ArrowDB> {
    pub sockets: Registry,
    pub db: D,
}

impl<D: ArrowDB> Webserver<D> {
    /// The registry keys are unique and the store is well formed.
    pub open spec fn wf(self) -> bool {
        self.sockets.wf() && self.db.inv()
    }

    /// A gateway with no session yet.
    pub fn new(db: D) -> (r: Webserver<D>)
        requires
            db.inv(),
        ensures
            r.wf(),
            r.sockets@ == Map::<u64, Option<u64>>::empty(),
            r.db == db,
    {
        Webserver { sockets: Registry::new(), db }
    }

    /// Prepares one broadcast: the one encoded update frame, and the snapshot
    /// of every live channel that is to receive it.
    pub fn broadcast(&self, msg: &WSUpdate) -> (r: (String, Vec<u64>))
        requires
            self.wf(),
            msg@.wf(),
        ensures
            r.0@ == enc_message(WSMessageV::Update(msg@)),
            snapshot_of(self.sockets@, r.1@),
    {
        let frame = encode_update_frame(msg);
        let targets = self.sockets.each_live();
        (frame, targets)
    }
}

/// The channel path under which a freshly reserved token may upgrade.
pub open spec fn url_of(t: u64) -> Seq<char> {
    "/ws/"@ + dec_digits(t as nat)
}

/// Reserves a fresh session token — never one already present — and answers
/// with the path under which the session may open its live channel.
pub fn new_client<D: ArrowDB>(srv: &mut Webserver<D>) -> (r: (WSRegisterResponse, u64))
    requires
        old(srv).wf(),
    ensures
        final(srv).wf(),
        final(srv).db == old(srv).db,
        !old(srv).sockets@.contains_key(r.1),
        final(srv).sockets@ == old(srv).sockets@.insert(r.1, None),
        r.0.url@ == url_of(r.1),
{
    let seed = random_token_seed();
    let t = srv.sockets.reserve(seed);
    let mut url = String::from_str("/ws/");
    let digits = u64_string(t);
    url.append(digits.as_str());
    (WSRegisterResponse { url }, t)
}

/// Removes a session unconditionally; removing it again is a no-op.
pub fn delete_client<D: ArrowDB>(srv: &mut Webserver<D>, token: u64)
    requires
        old(srv).wf(),
    ensures
        final(srv).wf(),
        final(srv).db == old(srv).db,
        final(srv).sockets@ == old(srv).sockets@.remove(token),
{
    srv.sockets.detach(token);
}

/// Installs the outbound channel of an upgrading session.  An unknown token
/// rejects the upgrade and changes nothing; a second upgrade under the same
/// token supersedes the first channel (last writer wins).
pub fn ws_connect<D: ArrowDB>(srv: &mut Webserver<D>, token: u64, chan: u64) -> (r: Result<
    (),
    RegistryError,
>)
    requires
        old(srv).wf(),
    ensures
        final(srv).wf(),
        final(srv).db == old(srv).db,
        match r {
            Ok(()) => old(srv).sockets@.contains_key(token) && final(srv).sockets@ == old(
                srv,
            ).sockets@.insert(token, Some(chan)),
            Err(_) => !old(srv).sockets@.contains_key(token) && final(srv).sockets == old(
                srv,
            ).sockets,
        },
{
    srv.sockets.attach(token, chan)
}

} // verus!
