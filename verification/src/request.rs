use vstd::prelude::*;

verus! {

/// The tag of an inbound transfer's decoded message. Anything but a known
/// tag fails closed: the whole inbound transfer is rejected.
#[derive(Clone, Copy, Debug, PartialEq, Eq, Structural)]
pub enum Kind {
    CreateCampaign,
    Unknown,
}

/// The campaign parameters carried by a `CreateCampaign` message, already
/// decoded into plain values; the attached deposit becomes the owner's first
/// pledge and is not part of the payload.
pub struct CampaignInput {
    pub name: String,
    pub goal: u128,
    pub incoming_token_id: String,
    pub outgoing_token_id: String,
    /// Nanoseconds.
    pub start_time: u64,
    /// Nanoseconds.
    pub end_time: u64,
}

impl CampaignInput {
    /// A field-by-field copy of the input.
    pub fn duplicate(&self) -> (r: Self)
        ensures
            r == *self,
    {
        CampaignInput {
            name: self.name.clone(),
            goal: self.goal,
            incoming_token_id: self.incoming_token_id.clone(),
            outgoing_token_id: self.outgoing_token_id.clone(),
            start_time: self.start_time,
            end_time: self.end_time,
        }
    }
}

/// A decoded inbound message: a tag, and for `CreateCampaign` the campaign
/// parameters.
pub struct Request {
    kind: Kind,
    campaign: Option<CampaignInput>,
}

impl Request {
    pub closed spec fn spec_kind(&self) -> Kind {
        self.kind
    }

    pub closed spec fn spec_campaign(&self) -> Option<CampaignInput> {
        self.campaign
    }

    pub fn new(kind: Kind, campaign: Option<CampaignInput>) -> (r: Self)
        ensures
            r.spec_kind() == kind,
            r.spec_campaign() == campaign,
    {
        Request { kind, campaign }
    }

    pub fn kind(&self) -> (r: &Kind)
        ensures
            *r == self.spec_kind(),
    {
        &self.kind
    }

    pub fn campaign(&self) -> (r: Option<CampaignInput>)
        ensures
            r == self.spec_campaign(),
    {
        match &self.campaign {
            Some(c) => Some(c.duplicate()),
            None => None,
        }
    }
}

} // verus!
