//! What an instance says of itself: how large one object may be, and where
//! its object service is reached.

use crate::error::TransferError;
use vstd::prelude::*;

verus! {

/// The description of an instance, as it was given: any ceiling and any
/// address are kept.
#[derive(Debug, PartialEq, Eq)]
pub struct InstanceInfo {
    attachment_file_size: u64,
    effis_url: Vec<u8>,
}

/// What came back when the instance was asked for its description.
#[derive(Debug, PartialEq, Eq)]
pub enum InstanceReply {
    /// Nothing: the request did not get through.
    Unreachable,
    /// A body that does not hold the fields of a description.
    Unreadable,
    /// A description with these fields.
    Described {
        /// The most bytes that one object may hold.
        attachment_file_size: u64,
        /// The address of the object service.
        effis_url: Vec<u8>,
    },
}

/// An instance's answer as contracts speak of it.
pub enum InstanceReplyView {
    Unreachable,
    Unreadable,
    Described { attachment_file_size: u64, effis_url: Seq<u8> },
}

impl View for InstanceReply {
    type V = InstanceReplyView;

    open spec fn view(&self) -> InstanceReplyView {
        match *self {
            InstanceReply::Unreachable => InstanceReplyView::Unreachable,
            InstanceReply::Unreadable => InstanceReplyView::Unreadable,
            InstanceReply::Described {
                attachment_file_size,
                effis_url,
            } => InstanceReplyView::Described { attachment_file_size, effis_url: effis_url@ },
        }
    }
}

impl InstanceInfo {
    /// The most bytes that one object may hold.
    pub closed spec fn ceiling(&self) -> u64 {
        self.attachment_file_size
    }

    /// The address of the object service.
    pub closed spec fn endpoint(&self) -> Seq<u8> {
        self.effis_url@
    }

    /// Takes the two fields of an instance's description.
    pub fn new(attachment_file_size: u64, effis_url: Vec<u8>) -> (r: InstanceInfo)
        ensures
            r.ceiling() == attachment_file_size,
            r.endpoint() == effis_url@,
    {
        InstanceInfo { attachment_file_size, effis_url }
    }

    /// Turns the instance's answer into its description. An instance that
    /// did not answer is unreachable; a body without the two fields is
    /// malformed; a body with them is taken as it is.
    pub fn resolve(reply: InstanceReply) -> (r: Result<InstanceInfo, TransferError>)
        ensures
            match reply@ {
                InstanceReplyView::Unreachable => r matches Err(e) && e
                    == TransferError::InstanceUnreachable,
                InstanceReplyView::Unreadable => r matches Err(e) && e
                    == TransferError::InstanceInfoMalformed,
                InstanceReplyView::Described { attachment_file_size, effis_url } => r matches Ok(
                    info,
                ) && info.ceiling() == attachment_file_size && info.endpoint() == effis_url,
            },
    {
        match reply {
            InstanceReply::Unreachable => Err(TransferError::InstanceUnreachable),
            InstanceReply::Unreadable => Err(TransferError::InstanceInfoMalformed),
            InstanceReply::Described { attachment_file_size, effis_url } => Ok(
                InstanceInfo::new(attachment_file_size, effis_url),
            ),
        }
    }

    /// The most bytes that one object may hold.
    pub fn attachment_file_size(&self) -> (r: u64)
        ensures
            r == self.ceiling(),
    {
        self.attachment_file_size
    }

    /// The address of the object service.
    pub fn effis_url(&self) -> (r: &Vec<u8>)
        ensures
            r@ == self.endpoint(),
    {
        &self.effis_url
    }
}

} // verus!
