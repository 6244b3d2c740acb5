//! The outbound command message handed to the transport layer.

use vstd::prelude::*;

verus! {

/// A command destined for the backend: a topic string and a JSON payload.
/// The engine only constructs these; the transport layer interprets them.
pub struct MqttMsg {
    pub topic: String,
    pub msg: String,
}

/// A command as its pair of character sequences, for contracts that speak of
/// "the command emitted, if any".
pub open spec fn opt_cmd(c: Option<MqttMsg>) -> Option<(Seq<char>, Seq<char>)> {
    match c {
        Some(m) => Some((m.topic@, m.msg@)),
        None => None,
    }
}

impl MqttMsg {
    /// Both parts of the message, as character sequences.
    pub open spec fn view(&self) -> (Seq<char>, Seq<char>) {
        (self.topic@, self.msg@)
    }

    pub fn new(topic: String, msg: String) -> (r: MqttMsg)
        ensures
            r.topic@ == topic@,
            r.msg@ == msg@,
    {
        MqttMsg { topic, msg }
    }
}

} // verus!
