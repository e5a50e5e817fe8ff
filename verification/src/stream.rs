//! The oplog stream's verified core: a two-state machine that decodes each
//! raw document the underlying cursor delivers, surfaces transport failures
//! verbatim, and closes for good once the cursor reports exhaustion.

use mongodb::error::Error as DatabaseFault;
use vstd::prelude::*;

use crate::document::Document;
use crate::error::Error;
use crate::oper::{decode_result_matches, spec_decode, Operation};

verus! {

/// Declares the collaborator client's error type so that values of it can be
/// carried through; the library never looks inside one.
#[verifier::external_type_specification]
#[verifier::external_body]
pub struct ExDatabaseFault(DatabaseFault);

/// What one pull on the underlying tailable cursor produced.
#[derive(Debug)]
pub enum CursorEvent {
    /// The cursor delivered the next raw document.
    Delivered(Document),
    /// The cursor reported a transport failure.
    Failed(DatabaseFault),
    /// The cursor reported exhaustion: no more data, and no error.
    Exhausted,
}

/// The two states of the stream: pulling, or ended for good.
#[derive(Clone, Copy, Debug, PartialEq, Eq, Structural)]
enum StreamState {
    /// The stream still pulls from the cursor.
    Open,
    /// The cursor reported exhaustion; the stream yields nothing, ever.
    Closed,
}

/// The oplog stream's verified core: decides, from the state and from what
/// the cursor produced, what one pull yields and what the next state is.
/// The caller performs the cursor pull itself and hands the outcome in.
#[derive(Debug)]
pub struct Oplog {
    state: StreamState,
}

impl Oplog {
    /// Whether the stream still pulls from the cursor.
    pub closed spec fn spec_is_open(self) -> bool {
        self.state is Open
    }

    /// A stream that has not yet seen its cursor end.
    pub fn new() -> (r: Oplog)
        ensures
            r.spec_is_open(),
    {
        Oplog { state: StreamState::Open }
    }

    /// Whether the stream still pulls from the cursor.
    pub fn is_open(&self) -> (r: bool)
        ensures
            r == self.spec_is_open(),
    {
        match self.state {
            StreamState::Open => true,
            StreamState::Closed => false,
        }
    }

    /// One pull: decode a delivered document, surface a transport failure
    /// verbatim, or close for good on exhaustion. A closed stream yields
    /// nothing, whatever the cursor would produce.
    pub fn pull(&mut self, event: CursorEvent) -> (r: Option<Result<Operation, Error>>)
        ensures
            !old(self).spec_is_open() ==> !final(self).spec_is_open() && r is None,
            old(self).spec_is_open() ==> match event {
                CursorEvent::Delivered(d) => final(self).spec_is_open() && (match r {
                    Some(x) => decode_result_matches(x, spec_decode(d@)),
                    None => false,
                }),
                CursorEvent::Failed(e) => final(self).spec_is_open() && r == Some(
                    Err::<Operation, Error>(Error::Database(e)),
                ),
                CursorEvent::Exhausted => !final(self).spec_is_open() && r is None,
            },
    {
        match self.state {
            StreamState::Closed => None,
            StreamState::Open => match event {
                CursorEvent::Delivered(d) => Some(Operation::new(&d)),
                CursorEvent::Failed(e) => Some(Err(Error::Database(e))),
                CursorEvent::Exhausted => {
                    self.state = StreamState::Closed;
                    None
                },
            },
        }
    }

    /// A builder for the query behind a stream: no filter and no batch-size
    /// hint unless given.
    pub fn builder() -> (r: OplogBuilder)
        ensures
            r.spec_filter() is None,
            r.spec_batch_size() is None,
    {
        OplogBuilder::new()
    }
}

/// Assembles the tailable query for a stream: an optional filter document
/// and an optional batch-size hint. It holds no decode logic.
#[derive(Debug)]
pub struct OplogBuilder {
    filter: Option<Document>,
    batch_size: Option<u32>,
}

impl OplogBuilder {
    /// The filter the query will carry, if one was given.
    pub closed spec fn spec_filter(self) -> Option<crate::document::DocumentView> {
        match self.filter {
            Some(d) => Some(d@),
            None => None,
        }
    }

    /// The batch-size hint the query will carry, if one was given.
    pub closed spec fn spec_batch_size(self) -> Option<u32> {
        self.batch_size
    }

    /// A builder with no filter and no batch-size hint.
    pub(crate) fn new() -> (r: OplogBuilder)
        ensures
            r.spec_filter() is None,
            r.spec_batch_size() is None,
    {
        OplogBuilder { filter: None, batch_size: None }
    }

    /// Provide a filter for the oplog; without one, all operations are
    /// returned.
    pub fn filter(self, filter: Document) -> (r: OplogBuilder)
        ensures
            r.spec_filter() == Some(filter@),
            r.spec_batch_size() == self.spec_batch_size(),
    {
        OplogBuilder { filter: Some(filter), batch_size: self.batch_size }
    }

    /// Provide a batch-size hint for the underlying cursor; without one, the
    /// collaborator's default applies.
    pub fn batch_size(self, batch_size: u32) -> (r: OplogBuilder)
        ensures
            r.spec_batch_size() == Some(batch_size),
            r.spec_filter() == self.spec_filter(),
    {
        OplogBuilder { filter: self.filter, batch_size: Some(batch_size) }
    }

    /// The filter to hand to the collaborator client, read back out.
    pub fn filter_document(&self) -> (r: &Option<Document>)
        ensures
            match r {
                Some(d) => self.spec_filter() == Some(d@),
                None => self.spec_filter() is None,
            },
    {
        &self.filter
    }

    /// The batch-size hint to hand to the collaborator client, read back
    /// out.
    pub fn batch_size_hint(&self) -> (r: Option<u32>)
        ensures
            r == self.spec_batch_size(),
    {
        self.batch_size
    }
}

} // verus!
