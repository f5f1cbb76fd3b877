use vstd::prelude::*;

verus! {

/// An account record. `username` and `email` are each unique across the
/// store; `is_verified` starts false and only ever flips to true. The
/// password is kept only as a one-way salted hash, never as plaintext.
/// `created_at` is a Unix timestamp in seconds.
#[derive(Debug)]
pub struct User {
    pub id: u64,
    pub username: String,
    pub email: String,
    pub password_hash: String,
    pub is_verified: bool,
    pub created_at: u64,
}

impl Clone for User {
    fn clone(&self) -> (res: Self)
        ensures
            res == *self,
    {
        User {
            id: self.id,
            username: self.username.clone(),
            email: self.email.clone(),
            password_hash: self.password_hash.clone(),
            is_verified: self.is_verified,
            created_at: self.created_at,
        }
    }
}

/// The payload of a signup request.
#[derive(Debug)]
pub struct SignupData {
    pub username: String,
    pub email: String,
    pub password: String,
}

/// The payload of an email-verification request. `otp` is the submitted
/// one-time code, possibly with surrounding whitespace.
#[derive(Debug)]
pub struct VerifyData {
    pub email: String,
    pub otp: String,
}

/// The payload of a login request.
#[derive(Debug)]
pub struct LoginData {
    pub username: String,
    pub password: String,
}

/// A campaign record. Owned by exactly one account; `id`, `owner_id` and
/// `created_at` are immutable after creation. Monetary amounts are exact:
/// `goal_amount` is in minor units (cents), never floating point.
#[derive(Debug)]
pub struct Campaign {
    pub id: u64,
    pub owner_id: u64,
    pub title: String,
    pub description: String,
    pub goal_amount: u64,
    pub created_at: u64,
}

impl Clone for Campaign {
    fn clone(&self) -> (res: Self)
        ensures
            res == *self,
    {
        Campaign {
            id: self.id,
            owner_id: self.owner_id,
            title: self.title.clone(),
            description: self.description.clone(),
            goal_amount: self.goal_amount,
            created_at: self.created_at,
        }
    }
}

/// The mutable fields of a campaign, as supplied on create and update.
/// `goal_amount` is in minor units (cents).
#[derive(Debug)]
pub struct CampaignData {
    pub title: String,
    pub description: String,
    pub goal_amount: u64,
}

/// An append-only ledger entry: a pledge of `amount` minor units (cents) by
/// account `user_id` against campaign `campaign_id`. Never mutated or
/// deleted once recorded.
#[derive(Debug)]
pub struct Pledge {
    pub id: u64,
    pub user_id: u64,
    pub campaign_id: u64,
    pub amount: u64,
    pub pledged_at: u64,
}

impl Clone for Pledge {
    fn clone(&self) -> (res: Self)
        ensures
            res == *self,
    {
        Pledge {
            id: self.id,
            user_id: self.user_id,
            campaign_id: self.campaign_id,
            amount: self.amount,
            pledged_at: self.pledged_at,
        }
    }
}

/// The payload of a pledge request: the amount in minor units (cents), an
/// exact value end to end.
#[derive(Debug)]
pub struct PledgeData {
    pub amount: u64,
}

} // verus!
