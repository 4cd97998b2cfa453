//! Transactions as the feed delivers them, and the creation events that
//! their logs report.

use vstd::prelude::*;
use crate::correlator::{
    captures, captures_of, correlate, lines_of, Capture, CaptureModel, InstructionKind,
};
use crate::error::{DecodeError, MissingMetadataError};
use crate::event::{parse_create_token_data, payload_launch, CreateTokenInfo, LaunchModel};

verus! {

/// What the execution of a transaction left behind.
#[derive(Clone, Debug, PartialEq, Eq)]
pub struct TransactionMeta {
    /// The transaction ended with an error.
    pub failed: bool,
    /// The log lines in the order in which they were written, if the feed
    /// delivered any.
    pub log_messages: Option<Vec<String>>,
}

/// One confirmed transaction.
#[derive(Clone, Debug, PartialEq, Eq)]
pub struct TransactionPretty {
    pub slot: u64,
    pub signature: [u8; 64],
    pub is_vote: bool,
    pub meta: Option<TransactionMeta>,
}

/// The launches that captured payloads describe, in order. A payload that
/// cannot be decoded is passed over.
pub open spec fn decoded_launches(found: Seq<CaptureModel>) -> Seq<LaunchModel>
    decreases found.len(),
{
    if found.len() == 0 {
        Seq::empty()
    } else {
        let before = decoded_launches(found.drop_last());
        match (found.last().kind, payload_launch(found.last().payload)) {
            (InstructionKind::Create, Ok(launch)) => before.push(launch),
            _ => before,
        }
    }
}

/// The launches that log lines report.
pub open spec fn logged_launches(logs: Seq<String>) -> Seq<LaunchModel> {
    decoded_launches(captures(lines_of(logs)))
}

/// The launches of the events.
pub open spec fn launches_of(events: Seq<CreateTokenInfo>) -> Seq<LaunchModel> {
    events.map_values(|event: CreateTokenInfo| event.launch())
}

/// Every event is well formed.
pub open spec fn all_wf(events: Seq<CreateTokenInfo>) -> bool {
    forall|i: int| 0 <= i < events.len() ==> (#[trigger] events[i]).wf()
}

/// Decodes the captured payloads, in order, and passes over those that
/// cannot be decoded.
pub fn decode_captures(found: &[Capture]) -> (events: Vec<CreateTokenInfo>)
    ensures
        launches_of(events@) == decoded_launches(captures_of(found@)),
        all_wf(events@),
{
    let ghost models = captures_of(found@);
    let mut events: Vec<CreateTokenInfo> = Vec::new();
    let mut i: usize = 0;
    while i < found.len()
        invariant
            i <= found@.len(),
            models == captures_of(found@),
            launches_of(events@) == decoded_launches(models.take(i as int)),
            all_wf(events@),
        decreases found@.len() - i,
    {
        proof {
            assert(models.take(i + 1).drop_last() =~= models.take(i as int));
            assert(models.take(i + 1).last() == found@[i as int]@);
        }
        let ghost before = events@;
        match found[i].kind {
            InstructionKind::Create => {
                match parse_create_token_data(found[i].payload.as_str()) {
                    Ok(event) => {
                        events.push(event);
                        assert(launches_of(events@) =~= launches_of(before).push(event.launch()));
                    },
                    Err(_) => {},
                }
            },
            InstructionKind::Trade => {},
        }
        i += 1;
    }
    assert(models.take(i as int) =~= models);
    events
}

/// Extracts the creation events that the log lines of one transaction
/// report.
///
/// The lines are scanned in order; each captured payload is decoded, and
/// those that cannot be decoded are passed over. The call never fails.
pub fn parse_instruction(logs: &[String]) -> (r: Result<Vec<CreateTokenInfo>, DecodeError>)
    ensures
        r matches Ok(events) && launches_of(events@) == logged_launches(logs@) && all_wf(events@),
{
    Ok(decode_captures(correlate(logs).as_slice()))
}

impl TransactionPretty {
    /// The transaction was executed, and without an error.
    pub open spec fn spec_succeeded(&self) -> bool {
        self.meta matches Some(meta) && !meta.failed
    }

    /// Whether the transaction was executed, and without an error.
    #[verifier::when_used_as_spec(spec_succeeded)]
    pub fn succeeded(&self) -> (ok: bool)
        ensures
            ok == self.spec_succeeded(),
    {
        match &self.meta {
            Some(meta) => !meta.failed,
            None => false,
        }
    }

    /// The log lines of the transaction; none where the feed delivered
    /// none.
    pub open spec fn logs(&self) -> Seq<String> {
        match self.meta {
            Some(TransactionMeta { log_messages: Some(logs), .. }) => logs@,
            _ => Seq::empty(),
        }
    }

    /// The launches that the transaction reports: those of its log lines
    /// if it succeeded, none if it failed.
    pub open spec fn reported(&self) -> Seq<LaunchModel> {
        if self.succeeded() {
            logged_launches(self.logs())
        } else {
            Seq::empty()
        }
    }

    /// Extracts the creation events of the transaction.
    ///
    /// A transaction without metadata is refused. One that failed reports
    /// nothing, and its logs are not looked at.
    pub fn launches(&self) -> (r: Result<Vec<CreateTokenInfo>, MissingMetadataError>)
        ensures
            match self.meta {
                None => r is Err,
                Some(_) => r matches Ok(events) && launches_of(events@) == self.reported()
                    && all_wf(events@),
            },
    {
        match &self.meta {
            None => Err(MissingMetadataError),
            Some(meta) => {
                if meta.failed {
                    return Ok(Vec::new());
                }
                match &meta.log_messages {
                    Some(logs) => Ok(decode_captures(correlate(logs.as_slice()).as_slice())),
                    None => {
                        assert(lines_of(Seq::<String>::empty()).len() == 0);
                        Ok(Vec::new())
                    },
                }
            },
        }
    }
}

} // verus!
