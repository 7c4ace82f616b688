//! The predictive-text (IME) plugin interface's data model: the trigger
//! set a plugin reports, its packing into one scalar word, and the scalar
//! message shapes of the plugin protocol's payload-free opcodes.
//!
//! The transport itself (archived buffers lent between processes) is plain
//! inter-process I/O and stays outside this crate; what crosses it is the
//! plain values modeled here.

use vstd::prelude::*;

verus! {

/// One candidate prediction: its rank, and its text.
#[derive(Debug, PartialEq, Eq)]
pub struct Prediction {
    /// Rank of the candidate, 0 being the most likely.
    pub index: u32,
    /// The candidate text.
    pub string: Vec<char>,
}

/// The characters that tell a plugin a whole predictive unit was entered.
#[derive(Clone, Copy, Debug, PartialEq, Eq, Structural)]
pub struct PredictionTriggers {
    /// Trigger predictions on newline.
    pub trigger_newline: bool,
    /// Trigger predictions on punctuation.
    pub trigger_punctuation: bool,
    /// Trigger predictions on whitespace.
    pub trigger_whitespace: bool,
}

/// The scalar word that carries a trigger set: bit 0 newline, bit 1
/// punctuation, bit 2 whitespace.
pub open spec fn triggers_code(t: PredictionTriggers) -> int {
    (if t.trigger_newline {
        1int
    } else {
        0int
    }) + (if t.trigger_punctuation {
        2int
    } else {
        0int
    }) + (if t.trigger_whitespace {
        4int
    } else {
        0int
    })
}

impl PredictionTriggers {
    /// Pack the trigger set into one scalar word.
    pub fn to_code(&self) -> (r: usize)
        ensures
            r == triggers_code(*self),
    {
        let mut ret: usize = 0;
        if self.trigger_newline {
            ret = ret + 1;
        }
        if self.trigger_punctuation {
            ret = ret + 2;
        }
        if self.trigger_whitespace {
            ret = ret + 4;
        }
        ret
    }

    /// Unpack a scalar word into the trigger set its low bits name.
    pub fn from_code(code: usize) -> (r: PredictionTriggers)
        ensures
            r.trigger_newline == (code & 1 != 0),
            r.trigger_punctuation == (code & 2 != 0),
            r.trigger_whitespace == (code & 4 != 0),
    {
        PredictionTriggers {
            trigger_newline: code & 1 != 0,
            trigger_punctuation: code & 2 != 0,
            trigger_whitespace: code & 4 != 0,
        }
    }
}

impl vstd::std_specs::convert::FromSpecImpl<usize> for PredictionTriggers {
    open spec fn obeys_from_spec() -> bool {
        true
    }

    open spec fn from_spec(code: usize) -> PredictionTriggers {
        PredictionTriggers {
            trigger_newline: code & 1 != 0,
            trigger_punctuation: code & 2 != 0,
            trigger_whitespace: code & 4 != 0,
        }
    }
}

impl From<usize> for PredictionTriggers {
    /// Unpack a scalar word, as `from_code` does.
    fn from(code: usize) -> (r: PredictionTriggers) {
        PredictionTriggers::from_code(code)
    }
}

impl Default for PredictionTriggers {
    /// No triggers set.
    fn default() -> (r: PredictionTriggers)
        ensures
            r == (PredictionTriggers {
                trigger_newline: false,
                trigger_punctuation: false,
                trigger_whitespace: false,
            }),
    {
        PredictionTriggers {
            trigger_newline: false,
            trigger_punctuation: false,
            trigger_whitespace: false,
        }
    }
}

/// Packing a trigger set and unpacking the word gives the set back: the
/// three flags land on distinct bits.
pub proof fn lemma_triggers_roundtrip(t: PredictionTriggers)
    ensures
        (triggers_code(t) as usize) & 1 != 0 <==> t.trigger_newline,
        (triggers_code(t) as usize) & 2 != 0 <==> t.trigger_punctuation,
        (triggers_code(t) as usize) & 4 != 0 <==> t.trigger_whitespace,
{
    let c = triggers_code(t) as usize;
    assert((c & 1 != 0 <==> (c == 1 || c == 3 || c == 5 || c == 7)) && (c & 2 != 0 <==> (c == 2
        || c == 3 || c == 6 || c == 7)) && (c & 4 != 0 <==> (c == 4 || c == 5 || c == 6 || c
        == 7))) by (bit_vector)
        requires
            c < 8,
    ;
}

/// Why a call on the plugin's client handle failed.
#[derive(Clone, Copy, Debug, PartialEq, Eq, Structural)]
pub enum ImeApiError {
    /// The handle holds no connection yet.
    UseBeforeInit,
    /// The reply did not take the expected scalar shape.
    InternalError,
    /// The reply buffer did not hold a prediction.
    InvalidString,
}

/// Interpret the reply to a trigger query: without a connection the call
/// never went out; a scalar reply carries the packed trigger set; any other
/// reply shape is an internal error.
pub fn triggers_from_reply(connected: bool, reply: Option<usize>) -> (r: Result<
    PredictionTriggers,
    ImeApiError,
>)
    ensures
        !connected ==> r == Err::<PredictionTriggers, _>(ImeApiError::UseBeforeInit),
        connected ==> match reply {
            Some(code) => r matches Ok(t) && t == (PredictionTriggers {
                trigger_newline: code & 1 != 0,
                trigger_punctuation: code & 2 != 0,
                trigger_whitespace: code & 4 != 0,
            }),
            None => r == Err::<PredictionTriggers, _>(ImeApiError::InternalError),
        },
{
    if !connected {
        Err(ImeApiError::UseBeforeInit)
    } else {
        match reply {
            Some(code) => Ok(PredictionTriggers::from_code(code)),
            None => Err(ImeApiError::InternalError),
        }
    }
}

/// Interpret the reply to a prediction fetch: without a connection the call
/// never went out; a reply buffer that holds a prediction yields its text,
/// and anything else is reported as an invalid string.
pub fn prediction_from_reply(connected: bool, reply: Option<Prediction>) -> (r: Result<
    Vec<char>,
    ImeApiError,
>)
    ensures
        !connected ==> r == Err::<Vec<char>, _>(ImeApiError::UseBeforeInit),
        connected ==> match reply {
            Some(p) => r matches Ok(text) && text@ == p.string@,
            None => r == Err::<Vec<char>, _>(ImeApiError::InvalidString),
        },
{
    if !connected {
        Err(ImeApiError::UseBeforeInit)
    } else {
        match reply {
            Some(p) => Ok(p.string),
            None => Err(ImeApiError::InvalidString),
        }
    }
}

/// The scalar shapes of an inbound plugin message, as far as the
/// payload-free opcodes are concerned. Payload-carrying requests travel in
/// a lent buffer instead and never take these shapes.
#[derive(Clone, Copy, Debug, PartialEq, Eq, Structural)]
pub enum ImeMessage {
    /// A fire-and-forget scalar message with this identifier.
    Scalar { id: usize },
    /// A scalar message awaiting a synchronous reply, with this identifier.
    BlockingScalar { id: usize },
    /// Any other message shape.
    Other,
}

/// The payload-free opcodes of the plugin protocol.
#[derive(Clone, Copy, Debug, PartialEq, Eq, Structural)]
pub enum ImeOpcode {
    /// Undo the last picked prediction.
    Unpick,
    /// Ask which characters trigger a prediction; answered synchronously.
    GetPredictionTriggers,
}

/// Why a scalar message failed to decode.
#[derive(Clone, Copy, Debug, PartialEq, Eq, Structural)]
pub enum ImeDecodeError {
    /// A fire-and-forget scalar with an unknown identifier.
    UnknownScalar,
    /// A blocking scalar with an unknown identifier.
    UnknownBlockingScalar,
    /// A message shape the scalar decoder does not handle.
    UnhandledType,
}

/// Decode a scalar message: identifier 0 of a fire-and-forget scalar is
/// `Unpick`, identifier 1 of a blocking scalar is `GetPredictionTriggers`,
/// and everything else is reported with the reason.
pub fn ime_opcode_from_message(m: &ImeMessage) -> (r: Result<ImeOpcode, ImeDecodeError>)
    ensures
        m == (ImeMessage::Scalar { id: 0usize }) ==> r == Ok::<_, ImeDecodeError>(
            ImeOpcode::Unpick,
        ),
        (m matches ImeMessage::Scalar { id } && id != 0) ==> r == Err::<ImeOpcode, _>(
            ImeDecodeError::UnknownScalar,
        ),
        m == (ImeMessage::BlockingScalar { id: 1usize }) ==> r == Ok::<_, ImeDecodeError>(
            ImeOpcode::GetPredictionTriggers,
        ),
        (m matches ImeMessage::BlockingScalar { id } && id != 1) ==> r == Err::<ImeOpcode, _>(
            ImeDecodeError::UnknownBlockingScalar,
        ),
        m == ImeMessage::Other ==> r == Err::<ImeOpcode, _>(ImeDecodeError::UnhandledType),
{
    match m {
        ImeMessage::Scalar { id } => {
            if *id == 0 {
                Ok(ImeOpcode::Unpick)
            } else {
                Err(ImeDecodeError::UnknownScalar)
            }
        },
        ImeMessage::BlockingScalar { id } => {
            if *id == 1 {
                Ok(ImeOpcode::GetPredictionTriggers)
            } else {
                Err(ImeDecodeError::UnknownBlockingScalar)
            }
        },
        ImeMessage::Other => Err(ImeDecodeError::UnhandledType),
    }
}

/// Encode a payload-free opcode as the scalar message that carries it:
/// `Unpick` fires and forgets, `GetPredictionTriggers` expects a reply.
pub fn ime_opcode_to_message(op: ImeOpcode) -> (r: ImeMessage)
    ensures
        op == ImeOpcode::Unpick ==> r == (ImeMessage::Scalar { id: 0usize }),
        op == ImeOpcode::GetPredictionTriggers ==> r == (ImeMessage::BlockingScalar { id: 1usize }),
{
    match op {
        ImeOpcode::Unpick => ImeMessage::Scalar { id: 0 },
        ImeOpcode::GetPredictionTriggers => ImeMessage::BlockingScalar { id: 1 },
    }
}

} // verus!
