use vstd::prelude::*;

use crate::codec::{kind_of_opcode, kind_of_spec, new_opcode, new_path_envelope, topic_of};

verus! {

/// Republishes one message of the internal channel on the public channel.
/// A message whose opcode is that of a change kind becomes the envelope
/// `NEW://<path>` with the path as its body; any other message is dropped.
/// The public opcode is `NEW` for both kinds, so that one prefix
/// subscription per directory covers creations and writes alike; the kind
/// itself stays on the internal channel (see `encode_topic` for a topic
/// that carries it).
pub fn relay_envelope(opcode: &str, path: &str) -> (r: Option<(String, String)>)
    ensures
        r is Some <==> kind_of_spec(opcode@) is Some,
        r matches Some(out) ==> out.0@ == topic_of(new_opcode(), path@) && out.1@ == path@,
{
    match kind_of_opcode(opcode) {
        Some(_) => Some((new_path_envelope(path), path.to_owned())),
        None => None,
    }
}

} // verus!
