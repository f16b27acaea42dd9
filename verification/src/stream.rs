//! Stream wrappers: a connection joined with a transport object, so that the
//! pair can be carried and used like one stream.  The wrappers do no I/O
//! themselves; an adapter drives the connection's completion operations
//! against the transport.

use vstd::prelude::*;

verus! {

/// Borrows a connection and a transport for the duration of one stream-style
/// operation.
pub struct Stream<'a, C, T> {
    /// The TLS connection.
    pub conn: &'a mut C,
    /// The underlying transport, such as a socket.
    pub sock: &'a mut T,
}

impl<'a, C, T> Stream<'a, C, T> {
    /// Joins a borrowed connection and transport.  This does not fail and
    /// performs no I/O.
    pub fn new(conn: &'a mut C, sock: &'a mut T) -> (r: Self)
        ensures
            *r.conn == *old(conn),
            *r.sock == *old(sock),
            *final(conn) == *final(r.conn),
            *final(sock) == *final(r.sock),
    {
        Stream { conn, sock }
    }
}

/// Owns a connection and a transport together.
pub struct StreamOwned<C, T> {
    /// The TLS connection.
    pub conn: C,
    /// The underlying transport, such as a socket.
    pub sock: T,
}

impl<C, T> StreamOwned<C, T> {
    /// Joins an owned connection and transport.  This does not fail and
    /// performs no I/O.
    pub fn new(conn: C, sock: T) -> (r: Self)
        ensures
            r.conn == conn,
            r.sock == sock,
    {
        StreamOwned { conn, sock }
    }

    /// The underlying transport.
    pub fn get_ref(&self) -> (r: &T)
        ensures
            *r == self.sock,
    {
        &self.sock
    }

    /// The underlying transport, mutably.
    pub fn get_mut(&mut self) -> (r: &mut T)
        ensures
            *r == old(self).sock,
            final(self).sock == *final(r),
            final(self).conn == old(self).conn,
    {
        &mut self.sock
    }

    /// Splits the pair back into its parts.
    pub fn into_parts(self) -> (r: (C, T))
        ensures
            r.0 == self.conn,
            r.1 == self.sock,
    {
        (self.conn, self.sock)
    }
}

} // verus!
