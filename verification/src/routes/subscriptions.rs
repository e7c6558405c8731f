//! `POST /subscriptions`: a subscriber needs both a name and an email.
use vstd::prelude::*;
use crate::text::push_str;

verus! {

/// The insert of a new subscriber; its parameters are those of
/// `subscription_params`, in order.
pub const INSERT_QUERY: &'static str = r#"
    INSERT INTO subscriptions (id, email, name, subscribed_at)
    VALUES (?1, ?2, ?3, ?4);
"#;

/// A newsletter subscriber.
pub struct SubscriberData {
    pub email: String,
    pub name: String,
}

/// What is missing from a subscription request.
#[derive(Clone, Copy, Debug, PartialEq, Eq, Structural)]
pub enum SubscribeError {
    MissingNameAndEmail,
    MissingName,
    MissingEmail,
}

/// The message of each error.
pub open spec fn subscribe_error_text(e: SubscribeError) -> Seq<char> {
    match e {
        SubscribeError::MissingNameAndEmail => "missing both name and email"@,
        SubscribeError::MissingName => "missing name"@,
        SubscribeError::MissingEmail => "missing email"@,
    }
}

impl SubscribeError {
    /// The message of the error.
    pub fn message(&self) -> (res: &'static str)
        ensures
            res@ == subscribe_error_text(*self),
    {
        match self {
            SubscribeError::MissingNameAndEmail => "missing both name and email",
            SubscribeError::MissingName => "missing name",
            SubscribeError::MissingEmail => "missing email",
        }
    }

    /// The JSON body of the 400 answer: `{"error":"<message>"}`.
    pub fn body(&self) -> (res: String)
        ensures
            res@ == "{\"error\":\""@ + subscribe_error_text(*self) + "\"}"@,
    {
        let mut s = String::new();
        push_str(&mut s, "{\"error\":\"");
        push_str(&mut s, self.message());
        push_str(&mut s, "\"}");
        s
    }
}

/// The subscriber of a request with the given fields: both must be present;
/// otherwise the error says which are missing.
pub fn validate_subscriber(name: Option<String>, email: Option<String>) -> (res: Result<
    SubscriberData,
    SubscribeError,
>)
    ensures
        match (name, email) {
            (Some(n), Some(e)) => res matches Ok(data) && data.name == n && data.email == e,
            (None, None) => res == Err::<SubscriberData, _>(SubscribeError::MissingNameAndEmail),
            (None, Some(_)) => res == Err::<SubscriberData, _>(SubscribeError::MissingName),
            (Some(_), None) => res == Err::<SubscriberData, _>(SubscribeError::MissingEmail),
        },
{
    match (name, email) {
        (Some(name), Some(email)) => Ok(SubscriberData { email, name }),
        (None, None) => Err(SubscribeError::MissingNameAndEmail),
        (None, Some(_)) => Err(SubscribeError::MissingName),
        (Some(_), None) => Err(SubscribeError::MissingEmail),
    }
}

/// The parameters of the insert for a new subscriber: id, email, name and
/// subscription time.
pub fn subscription_params(id: String, data: &SubscriberData, subscribed_at: String) -> (res: Vec<
    String,
>)
    ensures
        res.deep_view() == seq![id@, data.email@, data.name@, subscribed_at@],
{
    let mut res: Vec<String> = Vec::new();
    res.push(id);
    res.push(data.email.clone());
    res.push(data.name.clone());
    res.push(subscribed_at);
    assert(res.deep_view() =~= seq![id@, data.email@, data.name@, subscribed_at@]);
    res
}

} // verus!
