use vstd::prelude::*;

verus! {

/// The whole notification an application sends once it has started: the
/// ASCII bytes `done` (100, 111, 110, 101), with no framing; closing the
/// connection ends it.
pub open spec fn done_payload() -> Seq<u8> {
    seq![100u8, 111u8, 110u8, 101u8]
}

/// Whether the bytes read from a connection, up to its end, are exactly the
/// notification.
pub fn is_done(buf: &[u8]) -> (r: bool)
    ensures
        r == (buf@ == done_payload()),
{
    let expected: [u8; 4] = [100u8, 111u8, 110u8, 101u8];
    if buf.len() != 4 {
        return false;
    }
    let mut i: usize = 0;
    while i < 4
        invariant
            buf@.len() == 4,
            expected@ == done_payload(),
            0 <= i <= 4,
            forall|j: int| 0 <= j < i ==> buf@[j] == done_payload()[j],
        decreases 4 - i,
    {
        if buf[i] != expected[i] {
            return false;
        }
        i = i + 1;
    }
    assert(buf@ =~= done_payload());
    true
}

/// The side of the rendezvous that runs in the application: once started,
/// it connects to the waiting test's port and sends the notification.
pub struct Client;

impl Client {
    /// The bytes the application writes to the connection.
    pub fn message() -> (r: Vec<u8>)
        ensures
            r@ == done_payload(),
    {
        let r = vec![100u8, 111u8, 110u8, 101u8];
        assert(r@ =~= done_payload());
        r
    }
}

} // verus!
