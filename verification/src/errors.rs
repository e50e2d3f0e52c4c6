use vstd::prelude::*;

verus! {

/// Errors surfaced by the storage adapter.
#[derive(Debug, Clone)]
pub enum NatsPollError {
    /// Broker I/O, publish acknowledgement, or consumer operation failure.
    Nats(String),
    /// Encode or decode failure of the job envelope or the DLQ envelope.
    Serialization(String),
    /// Unsupported operation or logical precondition failure.
    Storage(String),
}

impl NatsPollError {
    /// The rendered message, prefixed with the error's kind.
    pub open spec fn spec_describe(self) -> Seq<char> {
        match self {
            NatsPollError::Nats(m) => "NATS error: "@ + m@,
            NatsPollError::Serialization(m) => "Serialization error: "@ + m@,
            NatsPollError::Storage(m) => "Storage error: "@ + m@,
        }
    }

    /// Render the error as text, as a `Display` implementation would.
    pub fn describe(&self) -> (r: String)
        ensures
            r@ == self.spec_describe(),
    {
        let mut out: String;
        match self {
            NatsPollError::Nats(m) => {
                out = String::from_str("NATS error: ");
                out.append(m.as_str());
            }
            NatsPollError::Serialization(m) => {
                out = String::from_str("Serialization error: ");
                out.append(m.as_str());
            }
            NatsPollError::Storage(m) => {
                out = String::from_str("Storage error: ");
                out.append(m.as_str());
            }
        }
        out
    }
}

} // verus!
