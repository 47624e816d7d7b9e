//! What a call knows of its connection.

use vstd::prelude::*;

use crate::nfs3::fileid3;
use crate::nfs4::clientid4;
use crate::vfs::VFSCapabilities;

verus! {

/// What the server knows of the connection that a call came in on, and of the
/// file system that it exports.
#[derive(Copy, Clone, Debug, PartialEq, Eq, Structural)]
pub struct RPCContext {
    pub local_port: u16,
    pub epoch: u32,
    pub capabilities: VFSCapabilities,
    /// The root of the export.
    pub root_dir: fileid3,
    /// The client that the connection's calls speak for, once it is known.
    pub client_id: Option<clientid4>,
}

impl RPCContext {
    /// The connection speaks for this client from now on.
    pub fn set_client_id(&mut self, client_id: clientid4)
        ensures
            *final(self) == (RPCContext { client_id: Some(client_id), ..*old(self) }),
    {
        self.client_id = Some(client_id);
    }

    /// The connection speaks for nobody.
    pub fn clear_client_id(&mut self)
        ensures
            *final(self) == (RPCContext { client_id: None, ..*old(self) }),
    {
        self.client_id = None;
    }

    /// The client that the connection speaks for.
    pub fn client_id(&self) -> (r: Option<clientid4>)
        ensures
            r == self.client_id,
    {
        self.client_id
    }
}

} // verus!
